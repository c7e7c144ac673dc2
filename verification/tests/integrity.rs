use dexlauncher::db::InstallationFile;
use dexlauncher::engine::integrity::{
    build_report, file_verdict, is_excluded_path, mode_name, needs_hash, verify_installation, FileObservation,
    FileVerdict, VerificationMode, Verifier,
};

fn record(path: &str, hash: &str, size: i64) -> InstallationFile {
    InstallationFile { id: 0, installation_id: 7, file_path: path.to_string(), hash: hash.to_string(), size_bytes: size }
}

#[test]
fn sha256_of_known_inputs() {
    assert_eq!(
        Verifier::calculate_file_hash(b""),
        "e3b0c44298fc1c149afbf4c8996fb92427ae41e4649b934ca495991b7852b855"
    );
    assert_eq!(
        Verifier::calculate_file_hash(b"abc"),
        "ba7816bf8f01cfea414140de5dae2223b00361a396177a9cb410ff61f20015ad"
    );
}

#[test]
fn verdicts() {
    let r = record("a.txt", "aa", 10);
    assert_eq!(file_verdict(VerificationMode::Quick, &r, &FileObservation::Missing), FileVerdict::Missing);
    assert_eq!(file_verdict(VerificationMode::Quick, &r, &FileObservation::Present { size: 9, hash: None }), FileVerdict::Modified);
    assert_eq!(file_verdict(VerificationMode::Quick, &r, &FileObservation::Present { size: 10, hash: None }), FileVerdict::Valid);
    assert_eq!(file_verdict(VerificationMode::Full, &r, &FileObservation::Present { size: 10, hash: Some("aa".to_string()) }), FileVerdict::Valid);
    assert_eq!(file_verdict(VerificationMode::Full, &r, &FileObservation::Present { size: 10, hash: Some("ab".to_string()) }), FileVerdict::Modified);
    assert_eq!(file_verdict(VerificationMode::Full, &r, &FileObservation::Present { size: 10, hash: None }), FileVerdict::Modified);
    assert!(needs_hash(VerificationMode::Full, 10, 10));
    assert!(!needs_hash(VerificationMode::Full, 10, 11));
    assert!(!needs_hash(VerificationMode::Quick, 10, 10));
}

#[test]
fn report_counts_each_kind_and_lists_failures() {
    let stored = vec![record("a", "1", 1), record("b", "2", 2), record("c", "3", 3), record("d", "4", 4)];
    let seen = vec![
        FileObservation::Present { size: 1, hash: Some("1".to_string()) },
        FileObservation::Missing,
        FileObservation::Present { size: 3, hash: Some("x".to_string()) },
        FileObservation::Present { size: 5, hash: None },
    ];
    let report = build_report(7, VerificationMode::Full, &stored, &seen);
    assert_eq!(report.installation_id, 7);
    assert_eq!(report.mode, "Full");
    assert_eq!(report.files_checked, 4);
    assert_eq!(report.files_valid, 1);
    assert_eq!(report.files_missing, 1);
    assert_eq!(report.files_modified, 2);
    assert_eq!(report.corrupted_files, vec!["b".to_string(), "c".to_string(), "d".to_string()]);
    assert!(!report.is_valid);
    assert_eq!(report.files_valid + report.files_missing + report.files_modified, report.files_checked);

    let quick = build_report(7, VerificationMode::Quick, &vec![record("a", "1", 1)], &vec![FileObservation::Present { size: 1, hash: None }]);
    assert!(quick.is_valid);
    assert_eq!(quick.mode, "Quick");

    let empty = build_report(7, VerificationMode::Quick, &vec![], &vec![]);
    assert_eq!(empty.files_checked, 0);
    assert!(!empty.is_valid);
}

#[test]
fn exclusions_and_basic_checks() {
    let patterns = vec![".git", ".backup"];
    assert!(is_excluded_path("game/.git/config", &patterns));
    assert!(is_excluded_path("/x/.backup", &patterns));
    assert!(!is_excluded_path("game/Data/map.rxdata", &patterns));
    assert_eq!(mode_name(VerificationMode::Quick), "Quick");
    assert_eq!(verify_installation(true, true).unwrap(), true);
    assert_eq!(verify_installation(true, false).unwrap(), false);
    assert_eq!(Verifier::verify_basic(false, true).unwrap(), false);
}

#[test]
fn a_full_check_is_stricter_than_a_quick_one() {
    let stored = vec![record("a", "11", 2), record("b", "22", 2), record("c", "33", 2)];
    // "b" was changed but kept its size; "c" is gone
    let quick = vec![
        FileObservation::Present { size: 2, hash: None },
        FileObservation::Present { size: 2, hash: None },
        FileObservation::Missing,
    ];
    let full = vec![
        FileObservation::Present { size: 2, hash: Some("11".to_string()) },
        FileObservation::Present { size: 2, hash: Some("99".to_string()) },
        FileObservation::Missing,
    ];
    let q = build_report(1, VerificationMode::Quick, &stored, &quick);
    let f = build_report(1, VerificationMode::Full, &stored, &full);
    assert_eq!((q.files_valid, q.files_missing, q.files_modified), (2, 1, 0));
    assert_eq!((f.files_valid, f.files_missing, f.files_modified), (1, 1, 1));
    assert_eq!(f.corrupted_files, vec!["b".to_string(), "c".to_string()]);
}
