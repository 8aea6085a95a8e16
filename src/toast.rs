use vstd::prelude::*;

verus! {

/// How long a notification stays up, in milliseconds.
pub const TOAST_DURATION_MS: u64 = 3000;

#[derive(Clone, Copy, Debug, PartialEq, Eq, Structural)]
pub enum ToastLevel {
    Info,
    Success,
    Warning,
    Error,
}

/// A short, self-expiring status message.
#[derive(Clone, Debug)]
pub struct Toast {
    pub message: String,
    pub level: ToastLevel,
    /// Time (ms) from which the toast is gone.
    pub expires_at: u64,
}

impl Toast {
    pub open spec fn is_live(&self, now: u64) -> bool {
        now < self.expires_at
    }

    /// A toast shown at `now`, expiring `TOAST_DURATION_MS` later.
    pub fn new(message: String, level: ToastLevel, now: u64) -> (r: Self)
        requires
            now <= u64::MAX - TOAST_DURATION_MS,
        ensures
            r.message@ == message@,
            r.level == level,
            r.expires_at == now + TOAST_DURATION_MS,
    {
        Toast { message, level, expires_at: now + TOAST_DURATION_MS }
    }

    pub fn is_expired(&self, now: u64) -> (r: bool)
        ensures
            r == !self.is_live(now),
    {
        now >= self.expires_at
    }
}

/// What a tick at `now` leaves of the current toast.
pub open spec fn tick_toast(t: Option<Toast>, now: u64) -> Option<Toast> {
    match t {
        Some(x) => if x.is_live(now) { Some(x) } else { None },
        None => None,
    }
}

/// Whether a query at `now` sees a toast in `t`.
pub open spec fn toast_visible(t: Option<Toast>, now: u64) -> bool {
    match t {
        Some(x) => x.is_live(now),
        None => false,
    }
}

/// The toast left after ticks at each time of `ticks`, in order.
pub open spec fn after_ticks(t: Option<Toast>, ticks: Seq<u64>) -> Option<Toast>
    decreases ticks.len(),
{
    if ticks.len() == 0 {
        t
    } else {
        tick_toast(after_ticks(t, ticks.drop_last()), ticks.last())
    }
}

/// A toast shown at `shown_at` and not replaced is visible to every query at a
/// time before `shown_at + TOAST_DURATION_MS` and to none at or after it,
/// whatever ticks came between (as long as none lies after the query).
pub proof fn lemma_toast_expiry(t: Toast, shown_at: u64, ticks: Seq<u64>, now: u64)
    requires
        t.expires_at == shown_at + TOAST_DURATION_MS,
        forall|i: int| 0 <= i < ticks.len() ==> ticks[i] <= now,
    ensures
        toast_visible(after_ticks(Some(t), ticks), now) <==> now < shown_at + TOAST_DURATION_MS,
    decreases ticks.len(),
{
    if ticks.len() > 0 {
        let rest = ticks.drop_last();
        assert forall|i: int| 0 <= i < rest.len() implies rest[i] <= now by {
            assert(rest[i] == ticks[i]);
        }
        lemma_toast_expiry(t, shown_at, rest, now);
        lemma_ticks_keep(t, rest);
    }
}

/// Ticks only ever keep the toast they started with, or drop it.
pub proof fn lemma_ticks_keep(t: Toast, ticks: Seq<u64>)
    ensures
        after_ticks(Some(t), ticks) == Some(t) || after_ticks(Some(t), ticks) == None::<Toast>,
    decreases ticks.len(),
{
    if ticks.len() > 0 {
        lemma_ticks_keep(t, ticks.drop_last());
    }
}

} // verus!
