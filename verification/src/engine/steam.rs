//! Adding the game to Steam as a non-Steam shortcut, in every Steam account.
//!
//! Each account keeps its shortcuts in a `shortcuts.vdf` file. Reading and
//! writing those files is left to the caller; this module decides what the
//! files hold and what the whole operation reports.
use vstd::prelude::*;
use crate::error::LauncherError;
use crate::text::{decimal, push_decimal, push_str, str_equal, views_of};

verus! {

/// Steam integration result
#[derive(Debug, Clone)]
pub struct SteamIntegrationResult {
    pub success: bool,
    pub message: String,
    pub steam_was_running: bool,
    pub shortcuts_added: usize,
}

/// Steam running state
#[derive(Debug, Clone)]
pub struct SteamRunningState {
    pub is_running: bool,
    pub steam_path: Option<String>,
}

/// One entry of a `shortcuts.vdf` file, with the fields that file format has.
pub struct ShortcutRecord {
    pub order: String,
    pub app_id: u32,
    pub app_name: String,
    pub exe: String,
    pub start_dir: String,
    pub icon: String,
    pub shortcut_path: String,
    pub launch_options: String,
    pub is_hidden: bool,
    pub allow_desktop_config: bool,
    pub allow_overlay: bool,
    pub open_vr: u32,
    pub dev_kit: u32,
    pub dev_kit_game_id: String,
    pub dev_kit_overrite_app_id: u32,
    pub last_play_time: u32,
    pub tags: Vec<String>,
}

/// The content of a shortcut entry.
pub struct ShortcutView {
    pub order: Seq<char>,
    pub app_id: u32,
    pub app_name: Seq<char>,
    pub exe: Seq<char>,
    pub start_dir: Seq<char>,
    pub icon: Seq<char>,
    pub shortcut_path: Seq<char>,
    pub launch_options: Seq<char>,
    pub is_hidden: bool,
    pub allow_desktop_config: bool,
    pub allow_overlay: bool,
    pub open_vr: u32,
    pub dev_kit: u32,
    pub dev_kit_game_id: Seq<char>,
    pub dev_kit_overrite_app_id: u32,
    pub last_play_time: u32,
    pub tags: Seq<Seq<char>>,
}

impl View for ShortcutRecord {
    type V = ShortcutView;

    open spec fn view(&self) -> ShortcutView {
        ShortcutView {
            order: self.order@,
            app_id: self.app_id,
            app_name: self.app_name@,
            exe: self.exe@,
            start_dir: self.start_dir@,
            icon: self.icon@,
            shortcut_path: self.shortcut_path@,
            launch_options: self.launch_options@,
            is_hidden: self.is_hidden,
            allow_desktop_config: self.allow_desktop_config,
            allow_overlay: self.allow_overlay,
            open_vr: self.open_vr,
            dev_kit: self.dev_kit,
            dev_kit_game_id: self.dev_kit_game_id@,
            dev_kit_overrite_app_id: self.dev_kit_overrite_app_id,
            last_play_time: self.last_play_time,
            tags: views_of(self.tags@),
        }
    }
}

/// The contents of a list of entries.
pub open spec fn shortcut_views(v: Seq<ShortcutRecord>) -> Seq<ShortcutView> {
    v.map_values(|r: ShortcutRecord| r@)
}

/// What `steam_shortcuts_util::parse_shortcuts` makes of a file's bytes:
/// its entries, or the parser's message.
pub uninterp spec fn parsed_shortcuts(data: Seq<u8>) -> Result<Seq<ShortcutView>, Seq<char>>;

/// What `steam_shortcuts_util::shortcuts_to_bytes` writes for a list of entries.
pub uninterp spec fn shortcut_file_bytes(entries: Seq<ShortcutView>) -> Seq<u8>;

/// The content of a parse result.
pub open spec fn parse_outcome(r: Result<Vec<ShortcutRecord>, String>) -> Result<Seq<ShortcutView>, Seq<char>> {
    match r {
        Ok(v) => Ok(shortcut_views(v@)),
        Err(m) => Err(m@),
    }
}

/// `steam_shortcuts_util::parse_shortcuts`, each entry copied field by field.
/// Claimed: the result is the name of the parse of these bytes.
#[verifier::external_body]
fn parse_shortcut_file(data: &[u8]) -> (r: Result<Vec<ShortcutRecord>, String>)
    ensures
        parse_outcome(r) == parsed_shortcuts(data@),
{
    steam_shortcuts_util::parse_shortcuts(data).map(|v| v.iter().map(|s| ShortcutRecord {
        order: s.order.into(), app_id: s.app_id, app_name: s.app_name.into(), exe: s.exe.into(),
        start_dir: s.start_dir.into(), icon: s.icon.into(), shortcut_path: s.shortcut_path.into(),
        launch_options: s.launch_options.into(), is_hidden: s.is_hidden,
        allow_desktop_config: s.allow_desktop_config, allow_overlay: s.allow_overlay,
        open_vr: s.open_vr, dev_kit: s.dev_kit, dev_kit_game_id: s.dev_kit_game_id.into(),
        dev_kit_overrite_app_id: s.dev_kit_overrite_app_id, last_play_time: s.last_play_time,
        tags: s.tags.iter().map(|t| t.to_string()).collect() }).collect())
}

/// `steam_shortcuts_util::shortcuts_to_bytes` on the entries, each lent field
/// by field. Claimed: the result is the name of the serialization of these entries.
#[verifier::external_body]
fn shortcut_file_from(entries: &Vec<ShortcutRecord>) -> (b: Vec<u8>)
    ensures
        b@ == shortcut_file_bytes(shortcut_views(entries@)),
{
    let tags: Vec<Vec<&str>> = entries.iter().map(|r| r.tags.iter().map(|t| t.as_str()).collect()).collect();
    steam_shortcuts_util::shortcuts_to_bytes(&entries.iter().zip(tags).map(|(r, tags)| steam_shortcuts_util::Shortcut {
        order: &r.order, app_id: r.app_id, app_name: &r.app_name, exe: &r.exe, start_dir: &r.start_dir,
        icon: &r.icon, shortcut_path: &r.shortcut_path, launch_options: &r.launch_options,
        is_hidden: r.is_hidden, allow_desktop_config: r.allow_desktop_config,
        allow_overlay: r.allow_overlay, open_vr: r.open_vr, dev_kit: r.dev_kit,
        dev_kit_game_id: &r.dev_kit_game_id, dev_kit_overrite_app_id: r.dev_kit_overrite_app_id,
        last_play_time: r.last_play_time, tags }).collect())
}

/// The entry is this game's: same name and same executable.
pub open spec fn is_game_entry(s: ShortcutView, game_name: Seq<char>, exe: Seq<char>) -> bool {
    s.app_name == game_name && s.exe == exe
}

/// The position of the first entry of this game, if any.
pub open spec fn first_game_entry(v: Seq<ShortcutView>, game_name: Seq<char>, exe: Seq<char>) -> Option<int>
    decreases v.len(),
{
    if v.len() == 0 {
        None
    } else {
        match first_game_entry(v.drop_last(), game_name, exe) {
            Some(i) => Some(i),
            None => if is_game_entry(v.last(), game_name, exe) {
                Some(v.len() - 1)
            } else {
                None
            },
        }
    }
}

/// The tags the launcher puts on its shortcut.
pub open spec fn launcher_tags() -> Seq<Seq<char>> {
    seq!["DexLauncher"@]
}

/// An existing entry, pointed at the new start directory and icon, visible,
/// with the overlay on and the launcher's tag.
pub open spec fn refreshed_entry(s: ShortcutView, start_dir: Seq<char>, icon: Seq<char>) -> ShortcutView {
    ShortcutView {
        start_dir,
        icon,
        allow_overlay: true,
        is_hidden: false,
        open_vr: 0,
        tags: launcher_tags(),
        ..s
    }
}

/// A new entry for the game.
pub open spec fn new_entry(game_name: Seq<char>, exe: Seq<char>, start_dir: Seq<char>, icon: Seq<char>) -> ShortcutView {
    ShortcutView {
        order: Seq::empty(),
        app_id: 0,
        app_name: game_name,
        exe,
        start_dir,
        icon,
        shortcut_path: Seq::empty(),
        launch_options: Seq::empty(),
        is_hidden: false,
        allow_desktop_config: true,
        allow_overlay: true,
        open_vr: 0,
        dev_kit: 0,
        dev_kit_game_id: Seq::empty(),
        dev_kit_overrite_app_id: 0,
        last_play_time: 0,
        tags: launcher_tags(),
    }
}

/// The entries with the game's shortcut in place: its first entry refreshed,
/// or a new entry at the end.
pub open spec fn with_game_entry(
    v: Seq<ShortcutView>,
    game_name: Seq<char>,
    exe: Seq<char>,
    start_dir: Seq<char>,
    icon: Seq<char>,
) -> Seq<ShortcutView> {
    match first_game_entry(v, game_name, exe) {
        Some(i) => v.update(i, refreshed_entry(v[i], start_dir, icon)),
        None => v.push(new_entry(game_name, exe, start_dir, icon)),
    }
}

/// The entries without any of the game's.
pub open spec fn without_game_entries(v: Seq<ShortcutView>, game_name: Seq<char>, exe: Seq<char>) -> Seq<ShortcutView> {
    v.filter(|s: ShortcutView| !is_game_entry(s, game_name, exe))
}

/// Some entry is the game's.
pub open spec fn lists_game(v: Seq<ShortcutView>, game_name: Seq<char>, exe: Seq<char>) -> bool {
    exists|i: int| 0 <= i < v.len() && is_game_entry(#[trigger] v[i], game_name, exe)
}

proof fn lemma_first_entry(v: Seq<ShortcutView>, game_name: Seq<char>, exe: Seq<char>)
    ensures
        first_game_entry(v, game_name, exe) matches Some(i) ==> 0 <= i < v.len() && is_game_entry(
            v[i],
            game_name,
            exe,
        ) && forall|k: int| 0 <= k < i ==> !is_game_entry(#[trigger] v[k], game_name, exe),
        first_game_entry(v, game_name, exe) is None ==> forall|k: int|
            0 <= k < v.len() ==> !is_game_entry(#[trigger] v[k], game_name, exe),
    decreases v.len(),
{
    if v.len() > 0 {
        lemma_first_entry(v.drop_last(), game_name, exe);
        assert forall|k: int| 0 <= k < v.len() - 1 implies v.drop_last()[k] == v[k] by {}
    }
}

proof fn lemma_first_entry_is(v: Seq<ShortcutView>, game_name: Seq<char>, exe: Seq<char>, i: int)
    requires
        0 <= i < v.len(),
        is_game_entry(v[i], game_name, exe),
        forall|k: int| 0 <= k < i ==> !is_game_entry(#[trigger] v[k], game_name, exe),
    ensures
        first_game_entry(v, game_name, exe) == Some(i),
{
    lemma_first_entry(v, game_name, exe);
    match first_game_entry(v, game_name, exe) {
        Some(j) => {
            if j < i {
                assert(!is_game_entry(v[j], game_name, exe));
            } else if j > i {
                assert(!is_game_entry(v[i], game_name, exe));
            }
        },
        None => {
            assert(!is_game_entry(v[i], game_name, exe));
        },
    }
}

fn is_game_record(r: &ShortcutRecord, game_name: &str, exe: &str) -> (b: bool)
    ensures
        b == is_game_entry(r@, game_name@, exe@),
{
    str_equal(r.app_name.as_str(), game_name) && str_equal(r.exe.as_str(), exe)
}

fn text(s: &str) -> (t: String)
    ensures
        t@ == s@,
{
    String::from_str(s)
}

/// `entries` with the game's shortcut in place.
fn put_game_entry(
    entries: Vec<ShortcutRecord>,
    game_name: &str,
    exe: &str,
    start_dir: &str,
    icon: &str,
) -> (out: Vec<ShortcutRecord>)
    ensures
        shortcut_views(out@) == with_game_entry(shortcut_views(entries@), game_name@, exe@, start_dir@, icon@),
{
    let ghost v = shortcut_views(entries@);
    let mut list = entries;
    let n = list.len();
    let mut i: usize = 0;
    while i < n
        invariant
            n == list@.len(),
            v == shortcut_views(list@),
            v == shortcut_views(entries@),
            i <= n,
            forall|k: int| 0 <= k < i ==> !is_game_entry(#[trigger] v[k], game_name@, exe@),
        decreases n - i,
    {
        if is_game_record(&list[i], game_name, exe) {
            proof {
                lemma_first_entry_is(v, game_name@, exe@, i as int);
            }
            let mut tags: Vec<String> = Vec::new();
            tags.push(text("DexLauncher"));
            let old = list.remove(i);
            let fresh = ShortcutRecord {
                start_dir: text(start_dir),
                icon: text(icon),
                allow_overlay: true,
                is_hidden: false,
                open_vr: 0,
                tags,
                ..old
            };
            assert(fresh@ == refreshed_entry(v[i as int], start_dir@, icon@)) by {
                assert(views_of(fresh.tags@) =~= launcher_tags());
            }
            let ghost fv = fresh@;
            list.insert(i, fresh);
            assert(shortcut_views(list@) =~= v.update(i as int, fv));
            assert(with_game_entry(v, game_name@, exe@, start_dir@, icon@) == v.update(
                i as int,
                refreshed_entry(v[i as int], start_dir@, icon@),
            ));
            return list;
        }
        i = i + 1;
    }
    proof {
        lemma_first_entry(v, game_name@, exe@);
        if first_game_entry(v, game_name@, exe@) is Some {
            let j = first_game_entry(v, game_name@, exe@)->0;
            assert(!is_game_entry(v[j], game_name@, exe@));
        }
    }
    let mut tags: Vec<String> = Vec::new();
    tags.push(text("DexLauncher"));
    let fresh = ShortcutRecord {
        order: String::new(),
        app_id: 0,
        app_name: text(game_name),
        exe: text(exe),
        start_dir: text(start_dir),
        icon: text(icon),
        shortcut_path: String::new(),
        launch_options: String::new(),
        is_hidden: false,
        allow_desktop_config: true,
        allow_overlay: true,
        open_vr: 0,
        dev_kit: 0,
        dev_kit_game_id: String::new(),
        dev_kit_overrite_app_id: 0,
        last_play_time: 0,
        tags,
    };
    assert(fresh@ == new_entry(game_name@, exe@, start_dir@, icon@)) by {
        assert(views_of(fresh.tags@) =~= launcher_tags());
    }
    list.push(fresh);
    assert(shortcut_views(list@) =~= v.push(fresh@));
    list
}

/// `entries` without the game's shortcuts.
fn drop_game_entries(entries: Vec<ShortcutRecord>, game_name: &str, exe: &str) -> (out: Vec<ShortcutRecord>)
    ensures
        shortcut_views(out@) == without_game_entries(shortcut_views(entries@), game_name@, exe@),
{
    let ghost v = shortcut_views(entries@);
    let mut kept: Vec<ShortcutRecord> = Vec::new();
    let mut rest = entries;
    let n = rest.len();
    let mut i: usize = 0;
    while i < n
        invariant
            n == v.len(),
            shortcut_views(rest@) == v.skip(i as int),
            rest@.len() == n - i,
            i <= n,
            shortcut_views(kept@) == without_game_entries(v.take(i as int), game_name@, exe@),
        decreases n - i,
    {
        assert(shortcut_views(rest@)[0] == v[i as int]);
        let ghost before = rest@;
        let r = rest.remove(0);
        assert forall|k: int| 0 <= k < rest@.len() implies #[trigger] shortcut_views(rest@)[k] == v.skip(i + 1)[k] by {
            assert(rest@[k] == before[k + 1]);
            assert(shortcut_views(before)[k + 1] == v.skip(i as int)[k + 1]);
        }
        assert(shortcut_views(rest@) =~= v.skip(i + 1));
        assert(v.take(i + 1).drop_last() =~= v.take(i as int));
        reveal_with_fuel(Seq::filter, 1);
        if is_game_record(&r, game_name, exe) {
        } else {
            kept.push(r);
            assert(shortcut_views(kept@) =~= without_game_entries(v.take(i as int), game_name@, exe@).push(
                v[i as int],
            ));
        }
        i = i + 1;
    }
    assert(v.take(n as int) =~= v);
    kept
}

fn lists_game_record(entries: &Vec<ShortcutRecord>, game_name: &str, exe: &str) -> (b: bool)
    ensures
        b == lists_game(shortcut_views(entries@), game_name@, exe@),
{
    let ghost v = shortcut_views(entries@);
    let n = entries.len();
    for i in 0..n
        invariant
            n == entries@.len(),
            v == shortcut_views(entries@),
            forall|k: int| 0 <= k < i ==> !is_game_entry(#[trigger] v[k], game_name@, exe@),
    {
        if is_game_record(&entries[i], game_name, exe) {
            assert(is_game_entry(v[i as int], game_name@, exe@));
            return true;
        }
    }
    false
}

/// A Steam error with the message `prefix` followed by `detail`.
fn steam_error(prefix: &str, detail: &String) -> (e: LauncherError)
    ensures
        e matches LauncherError::Steam(m) && m@ == prefix@ + detail@,
{
    let mut m = String::from_str(prefix);
    push_str(&mut m, detail.as_str());
    LauncherError::Steam(m)
}

/// A Steam error with the message `m`.
pub open spec fn is_steam_error(e: LauncherError, m: Seq<char>) -> bool {
    e matches LauncherError::Steam(t) && t@ == m
}

/// The entries a file holds: none when it is empty, else what the parser reads.
pub open spec fn file_entries(data: Seq<u8>) -> Result<Seq<ShortcutView>, Seq<char>> {
    if data.len() == 0 {
        Ok(Seq::empty())
    } else {
        parsed_shortcuts(data)
    }
}

/// The new content of an account's `shortcuts.vdf` (`existing` is its
/// current content, empty when there is no file yet) with the game's
/// shortcut in place; an error when the file cannot be parsed.
pub fn prepare_shortcut_file(
    existing: &[u8],
    game_name: &str,
    exe: &str,
    start_dir: &str,
    icon: &str,
) -> (r: Result<Vec<u8>, LauncherError>)
    ensures
        file_entries(existing@) matches Ok(v) ==> (r matches Ok(b) && b@ == shortcut_file_bytes(
            with_game_entry(v, game_name@, exe@, start_dir@, icon@),
        )),
        file_entries(existing@) matches Err(msg) ==> (r matches Err(e) && is_steam_error(
            e,
            "Failed to parse shortcuts.vdf: "@ + msg,
        )),
{
    let entries = if existing.len() == 0 {
        let empty: Vec<ShortcutRecord> = Vec::new();
        assert(shortcut_views(empty@) =~= Seq::<ShortcutView>::empty());
        empty
    } else {
        match parse_shortcut_file(existing) {
            Ok(v) => v,
            Err(m) => {
                return Err(steam_error("Failed to parse shortcuts.vdf: ", &m));
            },
        }
    };
    let updated = put_game_entry(entries, game_name, exe, start_dir, icon);
    Ok(shortcut_file_from(&updated))
}

/// Checks a freshly written `shortcuts.vdf`: it must parse and list the game.
pub fn confirm_shortcut_added(written: &[u8], game_name: &str, exe: &str) -> (r: Result<(), LauncherError>)
    ensures
        parsed_shortcuts(written@) matches Ok(v) ==> (lists_game(v, game_name@, exe@) ==> r is Ok) && (
        !lists_game(v, game_name@, exe@) ==> (r matches Err(e) && is_steam_error(
            e,
            "Verification failed: shortcut not found after write"@,
        ))),
        parsed_shortcuts(written@) matches Err(msg) ==> (r matches Err(e) && is_steam_error(
            e,
            "Verification failed: "@ + msg,
        )),
{
    match parse_shortcut_file(written) {
        Ok(v) => {
            if lists_game_record(&v, game_name, exe) {
                Ok(())
            } else {
                Err(LauncherError::Steam(text("Verification failed: shortcut not found after write")))
            }
        },
        Err(m) => Err(steam_error("Verification failed: ", &m)),
    }
}

/// The new content of an account's `shortcuts.vdf` without the game's
/// shortcuts: `None` when the file is empty or does not list the game
/// (nothing to write), an error when it cannot be parsed.
pub fn remove_shortcut_from_data(data: &[u8], game_name: &str, exe: &str) -> (r: Result<Option<Vec<u8>>, LauncherError>)
    ensures
        data@.len() == 0 ==> r matches Ok(None),
        data@.len() > 0 ==> match parsed_shortcuts(data@) {
            Ok(v) => if lists_game(v, game_name@, exe@) {
                r matches Ok(Some(b)) && b@ == shortcut_file_bytes(without_game_entries(v, game_name@, exe@))
            } else {
                r matches Ok(None)
            },
            Err(msg) => r matches Err(e) && is_steam_error(e, "Failed to parse shortcuts.vdf: "@ + msg),
        },
{
    if data.len() == 0 {
        return Ok(None);
    }
    match parse_shortcut_file(data) {
        Ok(v) => {
            let ghost before = shortcut_views(v@);
            let initial_len = v.len();
            let listed = lists_game_record(&v, game_name, exe);
            let kept = drop_game_entries(v, game_name, exe);
            proof {
                lemma_filter_shrinks(before, game_name@, exe@);
            }
            assert(shortcut_views(kept@).len() == kept@.len());
            if kept.len() < initial_len {
                Ok(Some(shortcut_file_from(&kept)))
            } else {
                Ok(None)
            }
        },
        Err(m) => Err(steam_error("Failed to parse shortcuts.vdf: ", &m)),
    }
}

proof fn lemma_filter_shrinks(v: Seq<ShortcutView>, game_name: Seq<char>, exe: Seq<char>)
    ensures
        without_game_entries(v, game_name, exe).len() < v.len() <==> lists_game(v, game_name, exe),
        without_game_entries(v, game_name, exe).len() <= v.len(),
    decreases v.len(),
{
    reveal_with_fuel(Seq::filter, 1);
    if v.len() > 0 {
        lemma_filter_shrinks(v.drop_last(), game_name, exe);
        if lists_game(v.drop_last(), game_name, exe) {
            let k = choose|k: int| 0 <= k < v.drop_last().len() && is_game_entry(#[trigger] v.drop_last()[k], game_name, exe);
            assert(v[k] == v.drop_last()[k]);
        }
        if lists_game(v, game_name, exe) && !is_game_entry(v.last(), game_name, exe) {
            let k = choose|k: int| 0 <= k < v.len() && is_game_entry(#[trigger] v[k], game_name, exe);
            assert(k != v.len() - 1);
            assert(v.drop_last()[k] == v[k]);
        }
        if is_game_entry(v.last(), game_name, exe) {
            assert(is_game_entry(v[v.len() - 1], game_name, exe));
        }
    } else {
        assert(without_game_entries(v, game_name, exe) =~= Seq::empty());
    }
}

/// Checks a rewritten `shortcuts.vdf`: it must parse and no longer list the game.
pub fn confirm_shortcut_removed(written: &[u8], game_name: &str, exe: &str) -> (r: Result<(), LauncherError>)
    ensures
        parsed_shortcuts(written@) matches Ok(v) ==> (!lists_game(v, game_name@, exe@) ==> r is Ok) && (
        lists_game(v, game_name@, exe@) ==> (r matches Err(e) && is_steam_error(
            e,
            "Verification failed: shortcut still exists after removal"@,
        ))),
        parsed_shortcuts(written@) matches Err(msg) ==> (r matches Err(e) && is_steam_error(
            e,
            "Verification failed: "@ + msg,
        )),
{
    match parse_shortcut_file(written) {
        Ok(v) => {
            if lists_game_record(&v, game_name, exe) {
                Err(LauncherError::Steam(text("Verification failed: shortcut still exists after removal")))
            } else {
                Ok(())
            }
        },
        Err(m) => Err(steam_error("Verification failed: ", &m)),
    }
}

/// The file content is not empty, parses, and lists the game.
pub open spec fn file_lists_game(d: Seq<u8>, game_name: Seq<char>, exe: Seq<char>) -> bool {
    d.len() > 0 && match parsed_shortcuts(d) {
        Ok(v) => lists_game(v, game_name, exe),
        Err(_) => false,
    }
}

/// Whether an account's `shortcuts.vdf` content lists the game; an empty or
/// unreadable file does not.
pub fn shortcut_listed(data: &[u8], game_name: &str, exe: &str) -> (b: bool)
    ensures
        b == file_lists_game(data@, game_name@, exe@),
{
    if data.len() == 0 {
        return false;
    }
    match parse_shortcut_file(data) {
        Ok(v) => lists_game_record(&v, game_name, exe),
        Err(_) => false,
    }
}

/// How many of the accounts succeeded.
pub open spec fn count_true(v: Seq<bool>) -> nat
    decreases v.len(),
{
    if v.len() == 0 {
        0
    } else {
        count_true(v.drop_last()) + if v.last() {
            1nat
        } else {
            0nat
        }
    }
}

fn count_successes(v: &Vec<bool>) -> (n: usize)
    ensures
        n == count_true(v@),
{
    let mut n: usize = 0;
    let len = v.len();
    for i in 0..len
        invariant
            len == v@.len(),
            n == count_true(v@.take(i as int)),
            n <= i,
    {
        assert(v@.take(i + 1).drop_last() =~= v@.take(i as int));
        if v[i] {
            n = n + 1;
        }
    }
    assert(v@.take(len as int) =~= v@);
    n
}

/// `"<prefix><n> Steam account(s)"`.
fn accounts_message(prefix: &str, n: usize) -> (m: String)
    ensures
        m@ == prefix@ + decimal(n as nat) + " Steam account(s)"@,
{
    let mut m = String::from_str(prefix);
    push_decimal(&mut m, n as u128);
    push_str(&mut m, " Steam account(s)");
    m
}

/// The CRC-32 checksum (IEEE) of `bytes`.
pub uninterp spec fn crc32_checksum(bytes: Seq<u8>) -> u32;

/// `crc32fast::Hasher` fed the UTF-8 bytes of `s`, then finalized. Claimed:
/// the result is the checksum named for those bytes.
#[verifier::external_body]
fn crc32_of_text(s: &str) -> (c: u32)
    ensures
        c == crc32_checksum(vstd::utf8::encode_utf8(s@)),
{
    let mut hasher = crc32fast::Hasher::new();
    hasher.update(s.as_bytes());
    hasher.finalize()
}

/// `sysinfo::System::new_all` and whether a process whose name holds `name`
/// is among those it lists (`processes_by_name`); `None` when the process list
/// cannot be read. The answer depends on the machine, so nothing is claimed of it.
#[verifier::external_body]
fn process_scan(name: &str) -> Option<bool> {
    sysinfo::System::new_all().ok().map(
        |system| system.processes_by_name(name.as_ref()).next().is_some(),
    )
}

/// The file names of the game's Steam artwork, for its app id: grid tile,
/// hero image and logo.
pub struct GridArtNames {
    pub app_id: u32,
    pub grid: String,
    pub hero: String,
    pub logo: String,
}

/// Steam integration manager
pub struct SteamIntegration {
    steam_path: Option<String>,
}

impl SteamIntegration {
    /// Where Steam is installed, if it is.
    pub closed spec fn installed_at(&self) -> Option<Seq<char>> {
        match self.steam_path {
            Some(p) => Some(p@),
            None => None,
        }
    }

    /// A Steam integration manager for Steam installed at `steam_path` (as
    /// detected from the registry or the usual locations; `None` when Steam
    /// was not found).
    pub fn new(steam_path: Option<String>) -> (r: Result<Self, LauncherError>)
        ensures
            r matches Ok(s) && s.installed_at() == (match steam_path {
                Some(p) => Some(p@),
                None => None::<Seq<char>>,
            }),
    {
        Ok(SteamIntegration { steam_path })
    }

    /// Where Steam is installed, if it is.
    pub fn steam_path(&self) -> (p: Option<&str>)
        ensures
            self.installed_at() matches Some(q) ==> (p matches Some(t) && t@ == q),
            self.installed_at() is None ==> p is None,
    {
        match &self.steam_path {
            Some(p) => Some(p.as_str()),
            None => None,
        }
    }

    /// Whether Steam runs, from a scan of the process list: it does when the
    /// scan found a `steam.exe` process, and a list that could not be read
    /// counts as Steam not running.
    pub fn steam_running_from(scan: Option<bool>) -> (r: bool)
        ensures
            r == (scan == Some(true)),
    {
        match scan {
            Some(found) => found,
            None => false,
        }
    }

    /// Check if Steam is currently running (a `steam.exe` process exists).
    /// A process list that cannot be read counts as Steam not running.
    pub fn is_steam_running() -> bool {
        Self::steam_running_from(process_scan("steam.exe"))
    }

    /// Get Steam running state
    pub fn get_steam_state(&self) -> (s: SteamRunningState)
        ensures
            self.installed_at() matches Some(q) ==> (s.steam_path matches Some(t) && t@ == q),
            self.installed_at() is None ==> s.steam_path is None,
    {
        let steam_path = match &self.steam_path {
            Some(p) => Some(p.clone()),
            None => None,
        };
        SteamRunningState { is_running: Self::is_steam_running(), steam_path }
    }

    /// Calculate Steam shortcut app ID: the CRC-32 of the executable path
    /// followed by the app name, with the top bit set.
    pub fn calculate_app_id(exe_path: &str, app_name: &str) -> (id: u32)
        ensures
            id == crc32_checksum(vstd::utf8::encode_utf8(exe_path@ + app_name@)) | 0x80000000u32,
    {
        let mut input = String::from_str(exe_path);
        push_str(&mut input, app_name);
        let crc = crc32_of_text(input.as_str());
        crc | 0x80000000u32
    }

    /// The summary of adding the game's shortcut, from how each account fared
    /// (`account_added[i]`: whether the shortcut was written and read back
    /// in the i-th account's `shortcuts.vdf`).
    pub fn add_to_steam(&self, account_added: &Vec<bool>) -> (r: Result<SteamIntegrationResult, LauncherError>)
        ensures
            self.installed_at() is None ==> (r matches Err(e) && is_steam_error(e, "Steam not installed"@)),
            self.installed_at() is Some && account_added@.len() == 0 ==> (r matches Err(e) && is_steam_error(
                e,
                "No Steam user accounts found"@,
            )),
            self.installed_at() is Some && account_added@.len() > 0 && count_true(account_added@) == 0 ==> (
            r matches Err(e) && is_steam_error(e, "Failed to add shortcuts to any Steam account"@)),
            self.installed_at() is Some && count_true(account_added@) > 0 ==> (r matches Ok(res) && res.success
                && !res.steam_was_running && res.shortcuts_added == count_true(account_added@)
                && res.message@ == "Added to "@ + decimal(count_true(account_added@)) + " Steam account(s)"@),
    {
        if self.steam_path.is_none() {
            return Err(LauncherError::Steam(text("Steam not installed")));
        }
        if account_added.len() == 0 {
            return Err(LauncherError::Steam(text("No Steam user accounts found")));
        }
        let shortcuts_added = count_successes(account_added);
        if shortcuts_added == 0 {
            return Err(LauncherError::Steam(text("Failed to add shortcuts to any Steam account")));
        }
        Ok(SteamIntegrationResult {
            success: true,
            message: accounts_message("Added to ", shortcuts_added),
            steam_was_running: false,
            shortcuts_added,
        })
    }

    /// Whether some account's `shortcuts.vdf` (the contents of those that
    /// exist) lists the game; never when Steam is not installed.
    pub fn is_in_steam(&self, shortcut_files: &Vec<Vec<u8>>, game_name: &str, exe_path: &str) -> (b: bool)
        ensures
            b == (self.installed_at() is Some && exists|i: int|
                0 <= i < shortcut_files@.len() && file_lists_game((#[trigger] shortcut_files@[i])@, game_name@, exe_path@)),
    {
        if self.steam_path.is_none() {
            return false;
        }
        let n = shortcut_files.len();
        for i in 0..n
            invariant
                n == shortcut_files@.len(),
                self.installed_at() is Some,
                forall|k: int|
                    0 <= k < i ==> !file_lists_game((#[trigger] shortcut_files@[k])@, game_name@, exe_path@),
        {
            if shortcut_listed(shortcut_files[i].as_slice(), game_name, exe_path) {
                assert(file_lists_game(shortcut_files@[i as int]@, game_name@, exe_path@));
                return true;
            }
        }
        false
    }

    /// The summary of removing the game's shortcut, from how each account fared
    /// (`account_removed[i]`: whether the i-th account's file listed it and
    /// was rewritten without it).
    pub fn remove_from_steam(&self, account_removed: &Vec<bool>) -> (r: Result<SteamIntegrationResult, LauncherError>)
        ensures
            self.installed_at() is None ==> (r matches Err(e) && is_steam_error(e, "Steam not installed"@)),
            self.installed_at() is Some && account_removed@.len() == 0 ==> (r matches Err(e) && is_steam_error(
                e,
                "No Steam user accounts found"@,
            )),
            self.installed_at() is Some && account_removed@.len() > 0 && count_true(account_removed@) == 0 ==> (
            r matches Ok(res) && !res.success && !res.steam_was_running && res.shortcuts_added == 0
                && res.message@ == "Game not found in Steam shortcuts"@),
            self.installed_at() is Some && count_true(account_removed@) > 0 ==> (r matches Ok(res) && res.success
                && !res.steam_was_running && res.shortcuts_added == 0 && res.message@ == "Removed from "@
                + decimal(count_true(account_removed@)) + " Steam account(s)"@),
    {
        if self.steam_path.is_none() {
            return Err(LauncherError::Steam(text("Steam not installed")));
        }
        if account_removed.len() == 0 {
            return Err(LauncherError::Steam(text("No Steam user accounts found")));
        }
        let removed = count_successes(account_removed);
        if removed == 0 {
            return Ok(SteamIntegrationResult {
                success: false,
                message: text("Game not found in Steam shortcuts"),
                steam_was_running: false,
                shortcuts_added: 0,
            });
        }
        Ok(SteamIntegrationResult {
            success: true,
            message: accounts_message("Removed from ", removed),
            steam_was_running: false,
            shortcuts_added: 0,
        })
    }

    /// The names under which the game's artwork goes into each account's
    /// `config/grid` directory: `<app id>p.jpg`, `<app id>_hero.jpg`,
    /// `<app id>_logo.png`. An error when Steam is not installed.
    pub fn grid_art_names(&self, game_name: &str, exe_path: &str) -> (r: Result<GridArtNames, LauncherError>)
        ensures
            self.installed_at() is None ==> (r matches Err(e) && is_steam_error(e, "Steam not installed"@)),
            self.installed_at() is Some ==> (r matches Ok(g) && g.app_id == crc32_checksum(
                vstd::utf8::encode_utf8(exe_path@ + game_name@),
            ) | 0x80000000u32 && g.grid@ == decimal(g.app_id as nat) + "p.jpg"@ && g.hero@ == decimal(
                g.app_id as nat,
            ) + "_hero.jpg"@ && g.logo@ == decimal(g.app_id as nat) + "_logo.png"@),
    {
        if self.steam_path.is_none() {
            return Err(LauncherError::Steam(text("Steam not installed")));
        }
        let app_id = Self::calculate_app_id(exe_path, game_name);
        let mut grid = String::new();
        push_decimal(&mut grid, app_id as u128);
        push_str(&mut grid, "p.jpg");
        let mut hero = String::new();
        push_decimal(&mut hero, app_id as u128);
        push_str(&mut hero, "_hero.jpg");
        let mut logo = String::new();
        push_decimal(&mut logo, app_id as u128);
        push_str(&mut logo, "_logo.png");
        Ok(GridArtNames { app_id, grid, hero, logo })
    }
}

/// `shellexpand::tilde`: a path starting with `~` (alone or followed by `/`)
/// gets the home directory in place of the `~`; any other path, or any path
/// when no home directory is known, is returned as it is. Which home
/// directory is not claimed.
#[verifier::external_body]
fn expand_home(path: &str) -> (r: String)
    ensures
        r@ == path@ || (path@.len() >= 1 && path@[0] == '~' && exists|h: Seq<char>| r@ == h
            + path@.skip(1)),
{
    shellexpand::tilde(path).into_owned()
}

/// The places Steam is looked for outside Windows, in the order they are tried:
/// the two home-directory locations, then the macOS application bundle.
pub fn steam_path_candidates() -> (v: Vec<String>)
    ensures
        v@.len() == 3,
        v@[0]@ == "~/.steam/steam"@ || exists|h: Seq<char>| v@[0]@ == h + "/.steam/steam"@,
        v@[1]@ == "~/.local/share/Steam"@ || exists|h: Seq<char>| v@[1]@ == h
            + "/.local/share/Steam"@,
        v@[2]@ == "/Applications/Steam.app/Contents/MacOS"@,
{
    proof {
        reveal_strlit("~/.steam/steam");
        reveal_strlit("/.steam/steam");
        reveal_strlit("~/.local/share/Steam");
        reveal_strlit("/.local/share/Steam");
        assert("~/.steam/steam"@.skip(1) =~= "/.steam/steam"@);
        assert("~/.local/share/Steam"@.skip(1) =~= "/.local/share/Steam"@);
    }
    let mut v: Vec<String> = Vec::new();
    v.push(expand_home("~/.steam/steam"));
    v.push(expand_home("~/.local/share/Steam"));
    v.push(String::from_str("/Applications/Steam.app/Contents/MacOS"));
    v
}

/// The first candidate found to exist (`exists[i]` for `candidates[i]`).
pub fn first_existing(candidates: &Vec<String>, exists: &Vec<bool>) -> (r: Option<String>)
    requires
        candidates@.len() == exists@.len(),
    ensures
        r matches Some(p) ==> exists|i: int| 0 <= i < exists@.len() && exists@[i] && p@
            == candidates@[i]@ && forall|j: int| 0 <= j < i ==> !exists@[j],
        r is None ==> forall|j: int| 0 <= j < exists@.len() ==> !exists@[j],
{
    for i in 0..candidates.len()
        invariant
            candidates@.len() == exists@.len(),
            forall|j: int| 0 <= j < i ==> !exists@[j],
    {
        if exists[i] {
            return Some(candidates[i].clone());
        }
    }
    None
}

/// After the game is put in a list of shortcuts, the list names it; putting
/// it in again adds no second entry; and every other entry stays where it was.
pub proof fn adding_lists_game_once(
    v: Seq<ShortcutView>,
    game_name: Seq<char>,
    exe: Seq<char>,
    start_dir: Seq<char>,
    icon: Seq<char>,
)
    ensures
        lists_game(with_game_entry(v, game_name, exe, start_dir, icon), game_name, exe),
        with_game_entry(with_game_entry(v, game_name, exe, start_dir, icon), game_name, exe, start_dir, icon).len()
            == with_game_entry(v, game_name, exe, start_dir, icon).len(),
        with_game_entry(v, game_name, exe, start_dir, icon).len() == v.len() + (if lists_game(v, game_name, exe) {
            0int
        } else {
            1int
        }),
        forall|k: int|
            0 <= k < v.len() && !is_game_entry(v[k], game_name, exe) ==> #[trigger] with_game_entry(
                v,
                game_name,
                exe,
                start_dir,
                icon,
            )[k] == v[k],
{
    lemma_first_entry(v, game_name, exe);
    let w = with_game_entry(v, game_name, exe, start_dir, icon);
    match first_game_entry(v, game_name, exe) {
        Some(i) => {
            assert(is_game_entry(w[i], game_name, exe));
            lemma_first_entry(w, game_name, exe);
            assert(v[i] == v[i]);
        },
        None => {
            assert(is_game_entry(w[v.len() as int], game_name, exe));
            lemma_first_entry(w, game_name, exe);
            if lists_game(v, game_name, exe) {
                let k = choose|k: int| 0 <= k < v.len() && is_game_entry(#[trigger] v[k], game_name, exe);
                assert(!is_game_entry(v[k], game_name, exe));
            }
        },
    }
    assert(lists_game(w, game_name, exe));
    lemma_first_entry(w, game_name, exe);
}

/// Putting the game in a list of shortcuts leaves its first entry pointing
/// at the start directory and icon given, visible, with the overlay on and
/// the launcher's tag, whether the entry is new or was there already. An
/// entry that was there keeps its place, its id, its order, its shortcut
/// path, its launch options and its last play time.
pub proof fn added_entry_points_at_the_game(
    v: Seq<ShortcutView>,
    game_name: Seq<char>,
    exe: Seq<char>,
    start_dir: Seq<char>,
    icon: Seq<char>,
)
    ensures
        exists|i: int|
            #![trigger with_game_entry(v, game_name, exe, start_dir, icon)[i]]
            0 <= i < with_game_entry(v, game_name, exe, start_dir, icon).len() && is_game_entry(
                with_game_entry(v, game_name, exe, start_dir, icon)[i],
                game_name,
                exe,
            ) && (forall|k: int|
                0 <= k < i ==> !is_game_entry(
                    #[trigger] with_game_entry(v, game_name, exe, start_dir, icon)[k],
                    game_name,
                    exe,
                )) && with_game_entry(v, game_name, exe, start_dir, icon)[i].start_dir == start_dir
                && with_game_entry(v, game_name, exe, start_dir, icon)[i].icon == icon
                && !with_game_entry(v, game_name, exe, start_dir, icon)[i].is_hidden
                && with_game_entry(v, game_name, exe, start_dir, icon)[i].allow_overlay
                && with_game_entry(v, game_name, exe, start_dir, icon)[i].tags == launcher_tags() && (i
                < v.len() ==> is_game_entry(v[i], game_name, exe) && with_game_entry(
                v,
                game_name,
                exe,
                start_dir,
                icon,
            )[i].app_id == v[i].app_id && with_game_entry(v, game_name, exe, start_dir, icon)[i].order
                == v[i].order && with_game_entry(v, game_name, exe, start_dir, icon)[i].shortcut_path
                == v[i].shortcut_path && with_game_entry(v, game_name, exe, start_dir, icon)[i].launch_options
                == v[i].launch_options && with_game_entry(v, game_name, exe, start_dir, icon)[i].last_play_time
                == v[i].last_play_time),
{
    lemma_first_entry(v, game_name, exe);
    let w = with_game_entry(v, game_name, exe, start_dir, icon);
    match first_game_entry(v, game_name, exe) {
        Some(i) => {
            assert(w[i] == refreshed_entry(v[i], start_dir, icon));
            assert forall|k: int| 0 <= k < i implies !is_game_entry(#[trigger] w[k], game_name, exe) by {
                assert(w[k] == v[k]);
            }
        },
        None => {
            let i = v.len() as int;
            assert(w[i] == new_entry(game_name, exe, start_dir, icon));
            assert forall|k: int| 0 <= k < i implies !is_game_entry(#[trigger] w[k], game_name, exe) by {
                assert(w[k] == v[k]);
            }
        },
    }
}

/// After the game's entries are removed, the list no longer names it; a list
/// that did not name it is left as it was.
pub proof fn removing_drops_only_the_game(v: Seq<ShortcutView>, game_name: Seq<char>, exe: Seq<char>)
    ensures
        !lists_game(without_game_entries(v, game_name, exe), game_name, exe),
        !lists_game(v, game_name, exe) ==> without_game_entries(v, game_name, exe) == v,
{
    let w = without_game_entries(v, game_name, exe);
    let keep = |s: ShortcutView| !is_game_entry(s, game_name, exe);
    if lists_game(w, game_name, exe) {
        let k = choose|k: int| 0 <= k < w.len() && is_game_entry(#[trigger] w[k], game_name, exe);
        broadcast use vstd::seq_lib::group_filter_ensures;
        assert(keep(w[k]));
    }
    if !lists_game(v, game_name, exe) {
        lemma_filter_shrinks(v, game_name, exe);
        lemma_filter_keeps_all(v, game_name, exe);
    }
}

proof fn lemma_filter_keeps_all(v: Seq<ShortcutView>, game_name: Seq<char>, exe: Seq<char>)
    requires
        !lists_game(v, game_name, exe),
    ensures
        without_game_entries(v, game_name, exe) == v,
    decreases v.len(),
{
    reveal_with_fuel(Seq::filter, 1);
    if v.len() > 0 {
        assert(!lists_game(v.drop_last(), game_name, exe)) by {
            if lists_game(v.drop_last(), game_name, exe) {
                let k = choose|k: int| 0 <= k < v.drop_last().len() && is_game_entry(#[trigger] v.drop_last()[k], game_name, exe);
                assert(v[k] == v.drop_last()[k]);
            }
        }
        lemma_filter_keeps_all(v.drop_last(), game_name, exe);
        assert(!is_game_entry(v[v.len() - 1], game_name, exe));
        assert(v.drop_last().push(v.last()) =~= v);
    } else {
        assert(without_game_entries(v, game_name, exe) =~= v);
    }
}

} // verus!
