use dexlauncher::engine::download::download_message;
use dexlauncher::utils::disk::format_bytes;
use dexlauncher::utils::progress::{format_duration, format_speed};

/// `format_bytes` as written with `f64`.
fn reference_bytes(bytes: u64) -> String {
    let units = ["B", "KB", "MB", "GB", "TB"];
    if bytes == 0 {
        return "0 B".to_string();
    }
    let mut size = bytes as f64;
    let mut unit_index = 0;
    while size >= 1024.0 && unit_index < units.len() - 1 {
        size /= 1024.0;
        unit_index += 1;
    }
    if unit_index == 0 {
        format!("{} {}", size as u64, units[unit_index])
    } else {
        format!("{:.2} {}", size, units[unit_index])
    }
}

/// `format_speed` as written with `f64`.
fn reference_speed(bytes_per_second: u64) -> String {
    let units = ["B/s", "KB/s", "MB/s", "GB/s"];
    if bytes_per_second == 0 {
        return "0 B/s".to_string();
    }
    let mut speed = bytes_per_second as f64;
    let mut unit_index = 0;
    while speed >= 1024.0 && unit_index < units.len() - 1 {
        speed /= 1024.0;
        unit_index += 1;
    }
    if unit_index == 0 {
        format!("{} {}", speed as u64, units[unit_index])
    } else {
        format!("{:.2} {}", speed, units[unit_index])
    }
}

fn sample_counts() -> Vec<u64> {
    let mut v: Vec<u64> = (0..3000).collect();
    for k in 1..64 {
        let p = 1u64 << k;
        v.extend([p - 1, p, p + 1, p / 3, p + p / 2]);
    }
    // halfway between two hundredths of a unit: ties
    v.extend([1029, 1034, 1039, 1044, 1049, 1075, 1536, 1_053_818, 5_242_880, 10_485_760]);
    v.extend([u64::MAX, u64::MAX - 1, 9_007_199_254_740_993, 18_000_000_000_000_000]);
    let mut x: u64 = 88172645463325252;
    for _ in 0..2000 {
        x ^= x << 13;
        x ^= x >> 7;
        x ^= x << 17;
        v.push(x >> (x % 64));
    }
    v
}

#[test]
fn format_bytes_exact_values() {
    assert_eq!(format_bytes(0), "0 B");
    assert_eq!(format_bytes(1), "1 B");
    assert_eq!(format_bytes(1023), "1023 B");
    assert_eq!(format_bytes(1024), "1.00 KB");
    assert_eq!(format_bytes(1536), "1.50 KB");
    assert_eq!(format_bytes(1_048_576), "1.00 MB");
    assert_eq!(format_bytes(1_073_741_824), "1.00 GB");
    assert_eq!(format_bytes(1_099_511_627_776), "1.00 TB");
    assert_eq!(format_bytes(1_125_899_906_842_624), "1024.00 TB");
}

#[test]
fn format_bytes_agrees_with_f64_formatting() {
    for n in sample_counts() {
        assert_eq!(format_bytes(n), reference_bytes(n), "for {}", n);
    }
}

#[test]
fn format_speed_exact_values() {
    assert_eq!(format_speed(0), "0 B/s");
    assert_eq!(format_speed(512), "512 B/s");
    assert_eq!(format_speed(2048), "2.00 KB/s");
    assert_eq!(format_speed(1_572_864), "1.50 MB/s");
    assert_eq!(format_speed(1_099_511_627_776), "1024.00 GB/s");
}

#[test]
fn format_speed_agrees_with_f64_formatting() {
    for n in sample_counts() {
        assert_eq!(format_speed(n), reference_speed(n), "for {}", n);
    }
}

#[test]
fn format_duration_values() {
    assert_eq!(format_duration(0), "0s");
    assert_eq!(format_duration(59), "59s");
    assert_eq!(format_duration(60), "1m 0s");
    assert_eq!(format_duration(3599), "59m 59s");
    assert_eq!(format_duration(3600), "1h 0m");
    assert_eq!(format_duration(7384), "2h 3m");
}

#[test]
fn download_message_values() {
    assert_eq!(download_message(0, 0, " MB..."), "Downloading: 0.0 MB...");
    assert_eq!(download_message(1_048_576, 0, " MB (size unknown)..."), "Downloading: 1.0 MB (size unknown)...");
    assert_eq!(download_message(524_288, 10_485_760, " MB..."), "Downloading: 0.5 MB / 10.0 MB");
    // 0.25 MiB and 0.75 MiB are ties between tenths
    assert_eq!(download_message(262_144, 786_432, " MB..."), format!("Downloading: {:.1} MB / {:.1} MB", 0.25f64, 0.75f64));
}

#[test]
fn download_message_agrees_with_f64_formatting() {
    for n in sample_counts() {
        let expected = format!("Downloading: {:.1} MB / {:.1} MB", n as f64 / 1_048_576.0, 7.0f64);
        assert_eq!(download_message(n, 7 * 1_048_576, " MB..."), expected, "for {}", n);
        let unknown = format!("Downloading: {:.1} MB...", n as f64 / 1_048_576.0);
        assert_eq!(download_message(n, 0, " MB..."), unknown, "for {}", n);
    }
}
