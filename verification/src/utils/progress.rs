//! Progress of long operations: counters, cancellation, and human-readable rates.
use vstd::prelude::*;
use crate::text::{decimal, push_char, push_decimal, push_str};
use crate::utils::scale::{push_scaled, scaled_text};

verus! {

#[verifier::external_type_specification]
#[verifier::external_body]
pub struct ExInstant(std::time::Instant);

/// The current moment, from the system's monotonic clock (`Instant::now`).
/// Nothing is claimed of it.
#[verifier::external_body]
fn instant_now() -> std::time::Instant {
    std::time::Instant::now()
}

/// Whole seconds since `t` (`Instant::elapsed().as_secs()`). It depends on
/// the clock, so nothing is claimed of it.
#[verifier::external_body]
fn seconds_since(t: &std::time::Instant) -> u64 {
    t.elapsed().as_secs()
}

/// The observable state of a tracker.
pub struct ProgressView {
    pub operation_id: Seq<char>,
    pub total: u64,
    pub current: u64,
    pub cancelled: bool,
}

/// The calls that change a tracker.
pub enum ProgressChange {
    Update(u64),
    Increment(u64),
    SetTotal(u64),
    Cancel,
}

/// The state of a tracker after one change: the new count (`Increment`
/// wraps around at `2^64`), the new total, or the cancelled flag set; all
/// else stays.
pub open spec fn after_change(v: ProgressView, c: ProgressChange) -> ProgressView {
    match c {
        ProgressChange::Update(current) => ProgressView { current, ..v },
        ProgressChange::Increment(amount) => ProgressView { current: wrapping_sum(v.current, amount), ..v },
        ProgressChange::SetTotal(total) => ProgressView { total, ..v },
        ProgressChange::Cancel => ProgressView { cancelled: true, ..v },
    }
}

/// The state of a tracker after a series of changes, in order.
pub open spec fn after_changes(v: ProgressView, changes: Seq<ProgressChange>) -> ProgressView
    decreases changes.len(),
{
    if changes.len() == 0 {
        v
    } else {
        after_changes(after_change(v, changes[0]), changes.drop_first())
    }
}

/// A cancelled tracker stays cancelled whatever is done to it later, and
/// cancelling keeps the count and the total; cancelling again changes nothing.
pub proof fn cancellation_is_permanent(v: ProgressView, changes: Seq<ProgressChange>)
    ensures
        after_changes(after_change(v, ProgressChange::Cancel), changes).cancelled,
        after_change(v, ProgressChange::Cancel).current == v.current,
        after_change(v, ProgressChange::Cancel).total == v.total,
        after_change(after_change(v, ProgressChange::Cancel), ProgressChange::Cancel) == after_change(
            v,
            ProgressChange::Cancel,
        ),
{
    lemma_cancelled_stays(after_change(v, ProgressChange::Cancel), changes);
}

proof fn lemma_cancelled_stays(v: ProgressView, changes: Seq<ProgressChange>)
    requires
        v.cancelled,
    ensures
        after_changes(v, changes).cancelled,
    decreases changes.len(),
{
    if changes.len() > 0 {
        lemma_cancelled_stays(after_change(v, changes[0]), changes.drop_first());
    }
}

/// Progress tracker for download/extraction operations
pub struct ProgressTracker {
    operation_id: String,
    total: u64,
    current: u64,
    start_time: std::time::Instant,
    last_update: std::time::Instant,
    cancelled: bool,
}

/// `a + b` modulo `2^64`, as an atomic `fetch_add` leaves it.
pub open spec fn wrapping_sum(a: u64, b: u64) -> u64 {
    ((a as nat + b as nat) % 0x10000000000000000) as u64
}

impl View for ProgressTracker {
    type V = ProgressView;

    closed spec fn view(&self) -> ProgressView {
        ProgressView {
            operation_id: self.operation_id@,
            total: self.total,
            current: self.current,
            cancelled: self.cancelled,
        }
    }
}

impl ProgressTracker {
    /// Create a new progress tracker
    pub fn new(operation_id: String, total: u64) -> (t: Self)
        ensures
            t@ == (ProgressView { operation_id: operation_id@, total, current: 0, cancelled: false }),
    {
        ProgressTracker {
            operation_id,
            total,
            current: 0,
            start_time: instant_now(),
            last_update: instant_now(),
            cancelled: false,
        }
    }

    /// Update progress
    pub fn update(&mut self, current: u64)
        ensures
            final(self)@ == after_change(old(self)@, ProgressChange::Update(current)),
    {
        self.current = current;
        self.last_update = instant_now();
    }

    /// Increment progress (wrapping around at `u64::MAX`, as an atomic add does)
    pub fn increment(&mut self, amount: u64)
        ensures
            final(self)@ == after_change(old(self)@, ProgressChange::Increment(amount)),
    {
        let room = u64::MAX - self.current;
        if amount > room {
            self.current = amount - room - 1;
        } else {
            self.current = self.current + amount;
        }
        self.last_update = instant_now();
    }

    /// Check if operation is cancelled
    pub fn is_cancelled(&self) -> (c: bool)
        ensures
            c == self@.cancelled,
    {
        self.cancelled
    }

    /// Cancel the operation
    pub fn cancel(&mut self)
        ensures
            final(self)@ == after_change(old(self)@, ProgressChange::Cancel),
    {
        self.cancelled = true;
    }

    /// Get operation ID
    pub fn operation_id(&self) -> (id: &str)
        ensures
            id@ == self@.operation_id,
    {
        self.operation_id.as_str()
    }

    /// Set total
    pub fn set_total(&mut self, total: u64)
        ensures
            final(self)@ == after_change(old(self)@, ProgressChange::SetTotal(total)),
    {
        self.total = total;
    }

    /// Get current value
    pub fn current(&self) -> (c: u64)
        ensures
            c == self@.current,
    {
        self.current
    }

    /// Get total value
    pub fn total(&self) -> (t: u64)
        ensures
            t == self@.total,
    {
        self.total
    }

    /// Whole seconds since the tracker was created. It depends on the clock.
    pub fn elapsed_seconds(&self) -> u64 {
        seconds_since(&self.start_time)
    }

    /// Speed and time left of this operation, measured now: see `transfer_rates`.
    pub fn rates(&self) -> (r: (u64, u64))
        ensures
            exists|elapsed: u64| r == rates_spec(self@.current, self@.total, elapsed),
    {
        let elapsed = self.elapsed_seconds();
        let r = transfer_rates(self.current, self.total, elapsed);
        assert(r == rates_spec(self@.current, self@.total, elapsed));
        r
    }
}

/// Bytes per second and seconds left, from what is done, what there is in
/// all, and the whole seconds elapsed.
pub open spec fn rates_spec(current: u64, total: u64, elapsed: u64) -> (u64, u64) {
    let speed: u64 = if elapsed > 0 {
        current / elapsed
    } else {
        0
    };
    let eta: u64 = if speed > 0 && total > current {
        ((total - current) / speed as int) as u64
    } else {
        0
    };
    (speed, eta)
}

/// Speed (bytes per second) and estimated seconds left: no speed is known
/// before a second has passed, and no time is left once `current` reaches `total`.
pub fn transfer_rates(current: u64, total: u64, elapsed: u64) -> (r: (u64, u64))
    ensures
        r == rates_spec(current, total, elapsed),
{
    let speed = if elapsed > 0 {
        current / elapsed
    } else {
        0
    };
    let eta = if speed > 0 && total > current {
        (total - current) / speed
    } else {
        0
    };
    (speed, eta)
}

/// What `format_duration` prints.
pub open spec fn duration_text(seconds: nat) -> Seq<char> {
    if seconds < 60 {
        decimal(seconds) + "s"@
    } else if seconds < 3600 {
        decimal(seconds / 60) + "m "@ + decimal(seconds % 60) + "s"@
    } else {
        decimal(seconds / 3600) + "h "@ + decimal((seconds % 3600) / 60) + "m"@
    }
}

/// Format duration to human-readable string
pub fn format_duration(seconds: u64) -> (s: String)
    ensures
        s@ == duration_text(seconds as nat),
{
    let mut s = String::new();
    if seconds < 60 {
        push_decimal(&mut s, seconds as u128);
        push_str(&mut s, "s");
    } else if seconds < 3600 {
        push_decimal(&mut s, (seconds / 60) as u128);
        push_str(&mut s, "m ");
        push_decimal(&mut s, (seconds % 60) as u128);
        push_str(&mut s, "s");
    } else {
        push_decimal(&mut s, (seconds / 3600) as u128);
        push_str(&mut s, "h ");
        push_decimal(&mut s, ((seconds % 3600) / 60) as u128);
        push_str(&mut s, "m");
    }
    s
}

/// The unit names of a speed.
pub open spec fn speed_units() -> Seq<Seq<char>> {
    seq!["B/s"@, "KB/s"@, "MB/s"@, "GB/s"@]
}

/// What `format_speed` prints.
pub open spec fn speed_text(bytes_per_second: nat) -> Seq<char> {
    if bytes_per_second == 0 {
        "0 B/s"@
    } else {
        scaled_text(bytes_per_second, speed_units())
    }
}

/// Format speed to human-readable string
pub fn format_speed(bytes_per_second: u64) -> (s: String)
    ensures
        s@ == speed_text(bytes_per_second as nat),
{
    if bytes_per_second == 0 {
        return String::from_str("0 B/s");
    }
    let units: Vec<&str> = vec!["B/s", "KB/s", "MB/s", "GB/s"];
    assert(units@.map_values(|u: &str| u@) == speed_units());
    let mut s = String::new();
    push_scaled(&mut s, bytes_per_second, &units);
    s
}

} // verus!
