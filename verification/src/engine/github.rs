//! The game's GitHub repository, and reading `git`'s progress output.
use vstd::prelude::*;
use crate::error::LauncherError;
use crate::text::{views_of, chars_of, decimal, has_infix, has_prefix, occurs_at, matches_at, push_char, push_decimal, push_str, string_of, str_contains};

verus! {

/// GitHub repository information
pub struct GitHubRepo {
    pub owner: String,
    pub repo: String,
    pub branch: String,
}

impl GitHubRepo {
    /// Create a new GitHub repo reference
    pub fn new(owner: &str, repo: &str, branch: &str) -> (r: Self)
        ensures
            r.owner@ == owner@,
            r.repo@ == repo@,
            r.branch@ == branch@,
    {
        GitHubRepo {
            owner: String::from_str(owner),
            repo: String::from_str(repo),
            branch: String::from_str(branch),
        }
    }

    /// Get the clone URL
    pub fn clone_url(&self) -> (u: String)
        ensures
            u@ == "https://github.com/"@ + self.owner@ + "/"@ + self.repo@ + ".git"@,
    {
        let mut u = String::from_str("https://github.com/");
        push_str(&mut u, self.owner.as_str());
        push_str(&mut u, "/");
        push_str(&mut u, self.repo.as_str());
        push_str(&mut u, ".git");
        u
    }
}

/// Default Pokemon Infinite Fusion repository
pub fn get_default_repo() -> (r: GitHubRepo)
    ensures
        r.owner@ == "infinitefusion"@,
        r.repo@ == "infinitefusion-e18"@,
        r.branch@ == "releases"@,
{
    GitHubRepo::new("infinitefusion", "infinitefusion-e18", "releases")
}

/// A byte `is_ascii_whitespace` accepts: space, tab, line feed, form feed, carriage return.
pub open spec fn is_ascii_space(c: char) -> bool {
    c == ' ' || c == '\t' || c == '\n' || c == '\x0C' || c == '\r'
}

/// An ASCII decimal digit.
pub open spec fn is_ascii_digit(c: char) -> bool {
    '0' <= c && c <= '9'
}

/// The position of the last `c` in `s`.
pub open spec fn last_position(s: Seq<char>, c: char) -> Option<int>
    decreases s.len(),
{
    if s.len() == 0 {
        None
    } else if s.last() == c {
        Some(s.len() - 1)
    } else {
        last_position(s.drop_last(), c)
    }
}

/// Where the run of characters satisfying `p` that ends at `end` starts.
pub open spec fn run_start(s: Seq<char>, end: int, p: spec_fn(char) -> bool) -> int
    decreases end,
{
    if end > 0 && p(s[end - 1]) {
        run_start(s, end - 1, p)
    } else {
        end
    }
}

/// The number a string of decimal digits denotes.
pub open spec fn digits_value(d: Seq<char>) -> nat
    decreases d.len(),
{
    if d.len() == 0 {
        0
    } else {
        (digits_value(d.drop_last()) * 10 + (d.last() as int - '0' as int)) as nat
    }
}

/// The percentage a line of `git` progress output reports: the digits just
/// before its last `%` (spaces between them allowed), when they form a
/// number of at most 100. (The digits, spaces and `%` are ASCII, so reading
/// the line by characters finds what reading it by bytes finds.)
pub open spec fn git_percentage(line: Seq<char>) -> Option<u64> {
    match last_position(line, '%') {
        None => None,
        Some(pos) => {
            let i = run_start(line, pos, |c: char| is_ascii_space(c));
            let j = run_start(line, i, |c: char| is_ascii_digit(c));
            if j == i {
                None
            } else if digits_value(line.subrange(j, i)) <= 100 {
                Some(digits_value(line.subrange(j, i)) as u64)
            } else {
                None
            }
        },
    }
}

proof fn lemma_run_start_bounds(s: Seq<char>, end: int, p: spec_fn(char) -> bool)
    requires
        0 <= end <= s.len(),
    ensures
        0 <= run_start(s, end, p) <= end,
        forall|k: int| run_start(s, end, p) <= k < end ==> p(#[trigger] s[k]),
    decreases end,
{
    if end > 0 && p(s[end - 1]) {
        lemma_run_start_bounds(s, end - 1, p);
    }
}

fn is_space_char(c: char) -> (b: bool)
    ensures
        b == is_ascii_space(c),
{
    c == ' ' || c == '\t' || c == '\n' || c == '\x0C' || c == '\r'
}

fn is_digit_char(c: char) -> (b: bool)
    ensures
        b == is_ascii_digit(c),
{
    '0' <= c && c <= '9'
}

/// The value of `d`, or 101 when it is larger than 100.
fn capped_value(d: &Vec<char>, from: usize, to: usize) -> (v: u64)
    requires
        from <= to <= d@.len(),
        forall|k: int| from <= k < to ==> is_ascii_digit(#[trigger] d@[k]),
    ensures
        v == if digits_value(d@.subrange(from as int, to as int)) <= 100 {
            digits_value(d@.subrange(from as int, to as int))
        } else {
            101
        },
{
    let mut v: u64 = 0;
    let mut k = from;
    while k < to
        invariant
            from <= k <= to,
            to <= d@.len(),
            forall|m: int| from <= m < to ==> is_ascii_digit(#[trigger] d@[m]),
            v == if digits_value(d@.subrange(from as int, k as int)) <= 100 {
                digits_value(d@.subrange(from as int, k as int))
            } else {
                101
            },
        decreases to - k,
    {
        let ghost prev = d@.subrange(from as int, k as int);
        let ghost next = d@.subrange(from as int, k + 1);
        assert(next.drop_last() =~= prev);
        assert(next.last() == d@[k as int]);
        let digit = (d[k] as u32 - '0' as u32) as u64;
        assert(digits_value(next) == digits_value(prev) * 10 + digit);
        if v > 100 {
            v = 101;
        } else {
            let w = v * 10 + digit;
            v = if w > 100 {
                101
            } else {
                w
            };
        }
        k = k + 1;
    }
    v
}

/// Parse git progress percentage from output line
pub fn parse_git_progress(line: &str) -> (p: Option<u64>)
    ensures
        p == git_percentage(line@),
        p matches Some(v) ==> v <= 100,
{
    let s = chars_of(line);
    let n = s.len();
    let mut pos = n;
    assert(s@.take(n as int) =~= s@);
    while pos > 0 && s[pos - 1] != '%'
        invariant
            pos <= n,
            n == s@.len(),
            last_position(s@, '%') == last_position(s@.take(pos as int), '%'),
        decreases pos,
    {
        assert(s@.take(pos - 1) =~= s@.take(pos as int).drop_last());
        pos = pos - 1;
    }
    if pos == 0 {
        assert(s@.take(0) =~= Seq::<char>::empty());
        return None;
    }
    let pos = pos - 1;
    assert(s@.take(pos + 1).last() == '%');
    assert(last_position(s@, '%') == Some(pos as int));
    let mut i = pos;
    while i > 0 && is_space_char(s[i - 1])
        invariant
            i <= pos,
            pos < n,
            n == s@.len(),
            run_start(s@, pos as int, |c: char| is_ascii_space(c)) == run_start(
                s@,
                i as int,
                |c: char| is_ascii_space(c),
            ),
        decreases i,
    {
        i = i - 1;
    }
    let mut j = i;
    while j > 0 && is_digit_char(s[j - 1])
        invariant
            j <= i,
            i <= pos,
            pos < n,
            n == s@.len(),
            run_start(s@, i as int, |c: char| is_ascii_digit(c)) == run_start(
                s@,
                j as int,
                |c: char| is_ascii_digit(c),
            ),
            forall|k: int| j <= k < i ==> is_ascii_digit(#[trigger] s@[k]),
        decreases j,
    {
        j = j - 1;
    }
    if j == i {
        return None;
    }
    let v = capped_value(&s, j, i);
    if v <= 100 {
        Some(v)
    } else {
        None
    }
}

/// `s` without carriage returns and line feeds.
pub open spec fn without_line_breaks(s: Seq<char>) -> Seq<char> {
    s.filter(|c: char| c != '\r' && c != '\n')
}

/// `s` with every occurrence of `p` removed, scanning left to right as
/// `str::replace(p, "")` does.
pub open spec fn without_occurrences(s: Seq<char>, p: Seq<char>) -> Seq<char>
    decreases s.len(),
{
    if s.len() == 0 {
        s
    } else if p.len() > 0 && has_prefix(s, p) {
        without_occurrences(s.skip(p.len() as int), p)
    } else {
        seq![s[0]] + without_occurrences(s.skip(1), p)
    }
}

/// A progress frame as it is shown: without line breaks, and without the
/// "erase line" sequences `ESC [K` and `ESC [2K`.
pub open spec fn cleaned_frame(frame: Seq<char>) -> Seq<char> {
    without_occurrences(without_occurrences(without_line_breaks(frame), "\u{001b}[K"@), "\u{001b}[2K"@)
}

fn strip_line_breaks(s: &Vec<char>) -> (out: Vec<char>)
    ensures
        out@ == without_line_breaks(s@),
{
    let mut out: Vec<char> = Vec::new();
    let n = s.len();
    for i in 0..n
        invariant
            n == s@.len(),
            out@ == without_line_breaks(s@.take(i as int)),
    {
        reveal_with_fuel(Seq::filter, 1);
        assert(s@.take(i + 1).drop_last() =~= s@.take(i as int));
        if s[i] != '\r' && s[i] != '\n' {
            out.push(s[i]);
        }
    }
    assert(s@.take(n as int) =~= s@);
    out
}

fn strip_occurrences(s: &Vec<char>, p: &Vec<char>) -> (out: Vec<char>)
    ensures
        out@ == without_occurrences(s@, p@),
{
    let mut out: Vec<char> = Vec::new();
    let n = s.len();
    let mut i: usize = 0;
    assert(s@.skip(0) =~= s@);
    assert(out@ + without_occurrences(s@, p@) =~= without_occurrences(s@, p@));
    while i < n
        invariant
            n == s@.len(),
            i <= n,
            out@ + without_occurrences(s@.skip(i as int), p@) == without_occurrences(s@, p@),
        decreases n - i,
    {
        let ghost rest = s@.skip(i as int);
        if p.len() > 0 && matches_at(s, p, i) {
            assert(rest.subrange(0, p@.len() as int) =~= s@.subrange(i as int, i + p@.len()));
            assert(rest.skip(p@.len() as int) =~= s@.skip(i + p@.len()));
            i = i + p.len();
        } else {
            proof {
                if p@.len() > 0 && has_prefix(rest, p@) {
                    assert(rest.subrange(0, p@.len() as int) =~= s@.subrange(i as int, i + p@.len()));
                }
            }
            assert(rest.skip(1) =~= s@.skip(i + 1));
            assert(rest[0] == s@[i as int]);
            out.push(s[i]);
            assert(out@ + without_occurrences(s@.skip(i + 1), p@) =~= (out@.drop_last() + seq![rest[0]])
                + without_occurrences(rest.skip(1), p@));
            i = i + 1;
        }
    }
    assert(s@.skip(n as int) =~= Seq::<char>::empty());
    assert(out@ + Seq::<char>::empty() =~= out@);
    out
}

/// A raw progress frame as it is shown.
pub fn clean_frame(frame: &str) -> (out: String)
    ensures
        out@ == cleaned_frame(frame@),
{
    let a = strip_line_breaks(&chars_of(frame));
    let b = strip_occurrences(&a, &chars_of("\u{001b}[K"));
    let c = strip_occurrences(&b, &chars_of("\u{001b}[2K"));
    string_of(&c)
}

/// The message shown for a progress line at `percentage`.
pub open spec fn status_text(line: Seq<char>, percentage: nat) -> Seq<char> {
    if has_infix(line, "Receiving objects"@) {
        "Downloading files: "@ + decimal(percentage) + "%"@
    } else if has_infix(line, "Resolving deltas"@) {
        "Processing files: "@ + decimal(percentage) + "%"@
    } else if has_infix(line, "Compressing objects"@) {
        "Preparing download: "@ + decimal(percentage) + "%"@
    } else if has_infix(line, "Counting objects"@) {
        "Counting objects: "@ + decimal(percentage) + "%"@
    } else {
        "Progress: "@ + decimal(percentage) + "%"@
    }
}

proof fn lemma_occurs_inside(pre: Seq<char>, stage: Seq<char>, post: Seq<char>)
    ensures
        has_infix(pre + stage + post, stage),
{
    assert((pre + stage + post).subrange(pre.len() as int, (pre.len() + stage.len()) as int) =~= stage);
    assert(occurs_at(pre + stage + post, stage, pre.len() as int));
}

/// A stage of `git`'s progress is recognised wherever its name stands in the
/// line, after a `remote: ` prefix as well as at the start: a line holding
/// `Receiving objects` shows as downloading; one holding `Resolving deltas`
/// (and not the former) as processing; one holding `Compressing objects` (and
/// neither) as preparing the download; one holding `Counting objects` (and
/// none of these) as counting. A line naming no stage shows plain progress.
pub proof fn stage_found_anywhere_in_line(pre: Seq<char>, post: Seq<char>, percentage: nat)
    ensures
        status_text(pre + "Receiving objects"@ + post, percentage) == "Downloading files: "@ + decimal(
            percentage,
        ) + "%"@,
        !has_infix(pre + "Resolving deltas"@ + post, "Receiving objects"@) ==> status_text(
            pre + "Resolving deltas"@ + post,
            percentage,
        ) == "Processing files: "@ + decimal(percentage) + "%"@,
        !has_infix(pre + "Compressing objects"@ + post, "Receiving objects"@) && !has_infix(
            pre + "Compressing objects"@ + post,
            "Resolving deltas"@,
        ) ==> status_text(pre + "Compressing objects"@ + post, percentage) == "Preparing download: "@
            + decimal(percentage) + "%"@,
        !has_infix(pre + "Counting objects"@ + post, "Receiving objects"@) && !has_infix(
            pre + "Counting objects"@ + post,
            "Resolving deltas"@,
        ) && !has_infix(pre + "Counting objects"@ + post, "Compressing objects"@) ==> status_text(
            pre + "Counting objects"@ + post,
            percentage,
        ) == "Counting objects: "@ + decimal(percentage) + "%"@,
        !has_infix(pre + post, "Receiving objects"@) && !has_infix(pre + post, "Resolving deltas"@)
            && !has_infix(pre + post, "Compressing objects"@) && !has_infix(pre + post, "Counting objects"@)
            ==> status_text(pre + post, percentage) == "Progress: "@ + decimal(percentage) + "%"@,
{
    lemma_occurs_inside(pre, "Receiving objects"@, post);
    lemma_occurs_inside(pre, "Resolving deltas"@, post);
    lemma_occurs_inside(pre, "Compressing objects"@, post);
    lemma_occurs_inside(pre, "Counting objects"@, post);
}

/// The message shown for a progress line at `percentage`.
pub fn status_message(line: &str, percentage: u64) -> (m: String)
    ensures
        m@ == status_text(line@, percentage as nat),
{
    let prefix = if str_contains(line, "Receiving objects") {
        "Downloading files: "
    } else if str_contains(line, "Resolving deltas") {
        "Processing files: "
    } else if str_contains(line, "Compressing objects") {
        "Preparing download: "
    } else if str_contains(line, "Counting objects") {
        "Counting objects: "
    } else {
        "Progress: "
    };
    let mut m = String::from_str(prefix);
    push_decimal(&mut m, percentage as u128);
    push_str(&mut m, "%");
    m
}

/// A command's own percentage placed within the overall range `start..end`.
pub open spec fn mapped_percentage(start: u64, end: u64, percentage: u64) -> u64 {
    (start + (end - start) * percentage / 100) as u64
}

/// A progress update to show.
pub struct GitProgressUpdate {
    pub percentage: u64,
    pub message: String,
}

/// Follows the progress frames of one `git` command and says which ones to show.
pub struct GitProgressFilter {
    pub last_percentage: u64,
}

impl GitProgressFilter {
    /// Nothing shown yet.
    pub fn new() -> (f: Self)
        ensures
            f.last_percentage == 0,
    {
        GitProgressFilter { last_percentage: 0 }
    }

    /// A frame of `git`'s progress output, for a command whose progress spans
    /// `start..end` of the whole. A frame is shown when it reports a
    /// percentage other than the last one shown.
    pub fn on_frame(&mut self, frame: &str, start: u64, end: u64) -> (u: Option<GitProgressUpdate>)
        requires
            start <= end,
            (end - start) * 100 + start <= u64::MAX,
        ensures
            ({
                let line = cleaned_frame(frame@);
                match git_percentage(line) {
                    Some(p) if p != old(self).last_percentage => {
                        &&& final(self).last_percentage == p
                        &&& u matches Some(up)
                        &&& up.percentage == mapped_percentage(start, end, p)
                        &&& up.message@ == status_text(line, p as nat)
                    },
                    _ => final(self).last_percentage == old(self).last_percentage && u is None,
                }
            }),
    {
        let line = clean_frame(frame);
        if line.as_str().is_empty() {
            proof {
                assert(last_position(line@, '%') is None);
            }
            return None;
        }
        match parse_git_progress(line.as_str()) {
            Some(p) => {
                if p != self.last_percentage {
                    self.last_percentage = p;
                    assert((end - start) * p <= (end - start) * 100) by (nonlinear_arith)
                        requires
                            p <= 100,
                            start <= end,
                    ;
                    let mapped = start + (end - start) * p / 100;
                    Some(GitProgressUpdate { percentage: mapped, message: status_message(line.as_str(), p) })
                } else {
                    None
                }
            },
            None => None,
        }
    }
}

/// One step of setting up the game's files with `git`: the progress shown
/// before it, the `git` arguments, and the part of the overall progress its
/// own output spans (equal ends: its output is not followed).
pub struct GitStep {
    pub progress: u64,
    pub message: &'static str,
    pub args: Vec<String>,
    pub progress_start: u64,
    pub progress_end: u64,
}

/// The steps of an installation or update, and the progress shown when they
/// have all succeeded.
pub struct GitPlan {
    /// Whether a stale `.git/shallow.lock` is removed before the first step.
    pub clears_shallow_lock: bool,
    pub steps: Vec<GitStep>,
    pub done_progress: u64,
    pub done_message: &'static str,
}

/// `s` is the step with these parts.
pub open spec fn step_is(
    s: GitStep,
    progress: u64,
    message: Seq<char>,
    args: Seq<Seq<char>>,
    start: u64,
    end: u64,
) -> bool {
    &&& s.progress == progress
    &&& s.message@ == message
    &&& views_of(s.args@) == args
    &&& s.progress_start == start
    &&& s.progress_end == end
}

/// `git fetch --depth=1 origin <branch> --progress`
pub open spec fn fetch_args(branch: Seq<char>) -> Seq<Seq<char>> {
    seq!["fetch"@, "--depth=1"@, "origin"@, branch, "--progress"@]
}

/// `git reset --hard origin/<branch>`
pub open spec fn reset_args(branch: Seq<char>) -> Seq<Seq<char>> {
    seq!["reset"@, "--hard"@, "origin/"@ + branch]
}

/// `git submodule update --init --recursive --progress`
pub open spec fn submodule_args() -> Seq<Seq<char>> {
    seq!["submodule"@, "update"@, "--init"@, "--recursive"@, "--progress"@]
}

/// A fresh installation: a new repository with the game's remote, a shallow
/// fetch of the branch, the files checked out, then the submodules.
pub open spec fn is_fresh_install_plan(p: GitPlan, repo: GitHubRepo) -> bool {
    let url = "https://github.com/"@ + repo.owner@ + "/"@ + repo.repo@ + ".git"@;
    &&& !p.clears_shallow_lock
    &&& p.steps@.len() == 5
    &&& step_is(p.steps@[0], 10, "Initializing git repository..."@, seq!["init"@, "."@], 0, 0)
    &&& step_is(p.steps@[1], 20, "Adding remote origin..."@, seq!["remote"@, "add"@, "origin"@, url], 0, 0)
    &&& step_is(p.steps@[2], 30, "Fetching from GitHub..."@, fetch_args(repo.branch@), 30, 80)
    &&& step_is(p.steps@[3], 80, "Applying files..."@, reset_args(repo.branch@), 0, 0)
    &&& step_is(p.steps@[4], 85, "Initializing submodules..."@, submodule_args(), 85, 95)
    &&& p.done_progress == 95
    &&& p.done_message@ == "Installation complete!"@
}

/// An update of an existing repository: a stale shallow lock removed, a
/// shallow fetch of the branch, the files reset to it, then the submodules.
pub open spec fn is_update_plan(p: GitPlan, repo: GitHubRepo) -> bool {
    &&& p.clears_shallow_lock
    &&& p.steps@.len() == 3
    &&& step_is(p.steps@[0], 20, "Fetching updates from GitHub..."@, fetch_args(repo.branch@), 20, 70)
    &&& step_is(p.steps@[1], 70, "Applying updates..."@, reset_args(repo.branch@), 0, 0)
    &&& step_is(p.steps@[2], 75, "Updating submodules..."@, submodule_args(), 75, 95)
    &&& p.done_progress == 95
    &&& p.done_message@ == "Update complete!"@
}

/// Appends an owned copy of `t`.
fn push_string(v: &mut Vec<String>, t: &str)
    ensures
        views_of(final(v)@) == views_of(old(v)@).push(t@),
{
    let ghost before = v@;
    v.push(String::from_str(t));
    assert(views_of(v@) =~= views_of(before).push(t@));
}

fn step(progress: u64, message: &'static str, args: Vec<String>, start: u64, end: u64) -> (s: GitStep)
    ensures
        s.progress == progress,
        s.message == message,
        s.args == args,
        s.progress_start == start,
        s.progress_end == end,
{
    GitStep { progress, message, args, progress_start: start, progress_end: end }
}

fn fetch_step(progress: u64, message: &'static str, branch: &str, start: u64, end: u64) -> (s: GitStep)
    ensures
        step_is(s, progress, message@, fetch_args(branch@), start, end),
{
    let mut args: Vec<String> = Vec::new();
    push_string(&mut args, "fetch");
    push_string(&mut args, "--depth=1");
    push_string(&mut args, "origin");
    push_string(&mut args, branch);
    push_string(&mut args, "--progress");
    assert(views_of(args@) =~= fetch_args(branch@));
    step(progress, message, args, start, end)
}

fn reset_step(progress: u64, message: &'static str, branch: &str) -> (s: GitStep)
    ensures
        step_is(s, progress, message@, reset_args(branch@), 0, 0),
{
    let mut target = String::from_str("origin/");
    push_str(&mut target, branch);
    let mut args: Vec<String> = Vec::new();
    push_string(&mut args, "reset");
    push_string(&mut args, "--hard");
    push_string(&mut args, target.as_str());
    assert(views_of(args@) =~= reset_args(branch@));
    step(progress, message, args, 0, 0)
}

fn submodule_step(progress: u64, message: &'static str, start: u64, end: u64) -> (s: GitStep)
    ensures
        step_is(s, progress, message@, submodule_args(), start, end),
{
    let mut args: Vec<String> = Vec::new();
    push_string(&mut args, "submodule");
    push_string(&mut args, "update");
    push_string(&mut args, "--init");
    push_string(&mut args, "--recursive");
    push_string(&mut args, "--progress");
    assert(views_of(args@) =~= submodule_args());
    step(progress, message, args, start, end)
}

impl GitHubRepo {
    /// The `git` steps that bring a directory to this repository's branch: an
    /// update where it holds a repository already, else a fresh installation.
    pub fn install_plan(&self, existing: bool) -> (p: GitPlan)
        ensures
            existing ==> is_update_plan(p, *self),
            !existing ==> is_fresh_install_plan(p, *self),
    {
        let branch = self.branch.as_str();
        if existing {
            let mut steps: Vec<GitStep> = Vec::new();
            steps.push(fetch_step(20, "Fetching updates from GitHub...", branch, 20, 70));
            steps.push(reset_step(70, "Applying updates...", branch));
            steps.push(submodule_step(75, "Updating submodules...", 75, 95));
            GitPlan {
                clears_shallow_lock: true,
                steps,
                done_progress: 95,
                done_message: "Update complete!",
            }
        } else {
            let url = self.clone_url();
            let mut remote: Vec<String> = Vec::new();
            push_string(&mut remote, "remote");
            push_string(&mut remote, "add");
            push_string(&mut remote, "origin");
            push_string(&mut remote, url.as_str());
            let mut init: Vec<String> = Vec::new();
            push_string(&mut init, "init");
            push_string(&mut init, ".");
            assert(views_of(init@) =~= seq!["init"@, "."@]);
            let ghost expected = seq!["remote"@, "add"@, "origin"@, "https://github.com/"@ + self.owner@ + "/"@ + self.repo@ + ".git"@];
            assert(views_of(remote@) =~= expected);
            let mut steps: Vec<GitStep> = Vec::new();
            steps.push(step(10, "Initializing git repository...", init, 0, 0));
            steps.push(step(20, "Adding remote origin...", remote, 0, 0));
            steps.push(fetch_step(30, "Fetching from GitHub...", branch, 30, 80));
            steps.push(reset_step(80, "Applying files...", branch));
            steps.push(submodule_step(85, "Initializing submodules...", 85, 95));
            GitPlan {
                clears_shallow_lock: false,
                steps,
                done_progress: 95,
                done_message: "Installation complete!",
            }
        }
    }
}

/// Whether a step follows its command's progress output (its window is not empty).
pub fn follows_progress(s: &GitStep) -> (b: bool)
    ensures
        b == (s.progress_start != s.progress_end),
{
    s.progress_start != s.progress_end
}

/// The error for a `git` command that exited unsuccessfully, with what it wrote to stderr.
pub fn git_failure(stderr: &str) -> (e: LauncherError)
    ensures
        e matches LauncherError::Installation(m) && m@ == "Git command failed: "@ + stderr@,
{
    let mut m = String::from_str("Git command failed: ");
    push_str(&mut m, stderr);
    LauncherError::Installation(m)
}

/// A command's progress, placed in its window, stays in the window and
/// does not go back as the command's own percentage grows.
pub proof fn mapped_progress_stays_in_window(start: u64, end: u64, p: u64, q: u64)
    requires
        start <= end,
        p <= q <= 100,
    ensures
        start <= mapped_percentage(start, end, p) <= end,
        mapped_percentage(start, end, p) <= mapped_percentage(start, end, q),
        mapped_percentage(start, end, 100) == end,
        mapped_percentage(start, end, 0) == start,
{
    let d = (end - start) as int;
    assert(0 <= d * p <= d * 100) by (nonlinear_arith)
        requires
            0 <= d,
            p <= 100,
    ;
    assert(d * p <= d * q) by (nonlinear_arith)
        requires
            0 <= d,
            p <= q,
    ;
    assert((d * p) / 100 <= (d * q) / 100) by (nonlinear_arith)
        requires
            d * p <= d * q,
            0 <= d * p,
    ;
    assert((d * p) / 100 <= d) by (nonlinear_arith)
        requires
            0 <= d * p <= d * 100,
    ;
    assert((d * 100) / 100 == d) by (nonlinear_arith);
    assert(0 <= (d * q) / 100 <= d) by (nonlinear_arith)
        requires
            0 <= d,
            q <= 100,
    ;
    assert(mapped_percentage(start, end, p) == start + (d * p) / 100);
    assert(mapped_percentage(start, end, q) == start + (d * q) / 100);
}

} // verus!
