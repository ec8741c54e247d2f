//! How often the panel is drawn.

use vstd::prelude::*;

verus! {

/// Lets the panel be drawn at most once in an interval and remembers what it has held back.
#[derive(Debug, Clone, Copy, PartialEq, Eq)]
pub struct RenderThrottle {
    pub interval_ms: i64,
    pub last_render_at_ms: Option<i64>,
    pub next_render_at_ms: Option<i64>,
    pub pending: bool,
}

/// A sum of two numbers, or the largest that fits.
pub open spec fn later(at_ms: i64, interval_ms: i64) -> int {
    if at_ms + interval_ms > i64::MAX {
        i64::MAX as int
    } else {
        at_ms + interval_ms
    }
}

/// The panel is drawn on request when it has never been drawn, or not within the interval.
pub open spec fn is_due(t: RenderThrottle, now_ms: i64) -> bool {
    match t.last_render_at_ms {
        None => true,
        Some(last) => now_ms - last >= t.interval_ms,
    }
}

/// The panel has been drawn.
pub open spec fn drawn(t: RenderThrottle, now_ms: i64) -> RenderThrottle {
    RenderThrottle {
        last_render_at_ms: Some(now_ms),
        next_render_at_ms: None,
        pending: false,
        ..t
    }
}

/// The throttle after a request to draw: the panel is drawn, or the request is held back until the
/// interval is over.
pub open spec fn requested(t: RenderThrottle, now_ms: i64) -> RenderThrottle {
    if is_due(t, now_ms) {
        drawn(t, now_ms)
    } else {
        RenderThrottle {
            next_render_at_ms: Some(later(t.last_render_at_ms->0, t.interval_ms) as i64),
            pending: true,
            ..t
        }
    }
}

/// What has been held back is due.
pub open spec fn is_ripe(t: RenderThrottle, now_ms: i64) -> bool {
    t.pending && (t.next_render_at_ms matches Some(at) && now_ms >= at)
}

impl RenderThrottle {
    /// A throttle with an interval of at least a millisecond.
    pub fn new(interval_ms: u64) -> (r: Self)
        ensures
            r.interval_ms == (if interval_ms == 0 {
                1int
            } else if interval_ms > i64::MAX {
                i64::MAX as int
            } else {
                interval_ms as int
            }),
            r.last_render_at_ms is None,
            r.next_render_at_ms is None,
            !r.pending,
    {
        let interval: i64 = if interval_ms == 0 {
            1
        } else if interval_ms > 0x7fff_ffff_ffff_ffff {
            i64::MAX
        } else {
            interval_ms as i64
        };
        RenderThrottle {
            interval_ms: interval,
            last_render_at_ms: None,
            next_render_at_ms: None,
            pending: false,
        }
    }

    /// Asks to draw and tells whether to.
    pub fn request(&mut self, now_ms: i64) -> (r: bool)
        requires
            old(self).interval_ms >= 1,
        ensures
            r == is_due(*old(self), now_ms),
            *final(self) == requested(*old(self), now_ms),
    {
        match self.last_render_at_ms {
            Some(last) => {
                if (now_ms as i128 - last as i128) < self.interval_ms as i128 {
                    self.pending = true;
                    let at: i64 = if last > i64::MAX - self.interval_ms {
                        i64::MAX
                    } else {
                        last + self.interval_ms
                    };
                    self.next_render_at_ms = Some(at);
                    return false;
                }
            },
            None => {},
        }
        self.last_render_at_ms = Some(now_ms);
        self.pending = false;
        self.next_render_at_ms = None;
        true
    }

    /// When what has been held back is to be drawn.
    pub fn next_render_at_ms(&self) -> (r: Option<i64>)
        ensures
            r == self.next_render_at_ms,
    {
        self.next_render_at_ms
    }

    /// Tells whether to draw what has been held back.
    pub fn flush_if_ready(&mut self, now_ms: i64) -> (r: bool)
        ensures
            r == is_ripe(*old(self), now_ms),
            *final(self) == (if r {
                drawn(*old(self), now_ms)
            } else {
                *old(self)
            }),
    {
        match self.next_render_at_ms {
            Some(at) => {
                if !self.pending || now_ms < at {
                    return false;
                }
                self.pending = false;
                self.next_render_at_ms = None;
                self.last_render_at_ms = Some(now_ms);
                true
            },
            None => false,
        }
    }
}

/// What holds of a throttle at every moment: the interval is at least a millisecond, and something
/// is held back exactly when there is a time for it, which is an interval after the last drawing.
pub open spec fn sound(t: RenderThrottle) -> bool {
    &&& t.interval_ms >= 1
    &&& t.pending == (t.next_render_at_ms is Some)
    &&& t.next_render_at_ms matches Some(at) ==> t.last_render_at_ms is Some && at == later(
        t.last_render_at_ms->0,
        t.interval_ms,
    )
}

/// Every operation keeps a throttle sound.
pub proof fn lemma_throttle_stays_sound(t: RenderThrottle, now_ms: i64)
    requires
        sound(t),
    ensures
        sound(requested(t, now_ms)),
        is_ripe(t, now_ms) ==> sound(drawn(t, now_ms)),
{
}

/// Between two drawings at least the interval passes, or the clock has come to its end.
pub proof fn lemma_drawings_are_spaced(t: RenderThrottle, last: i64, now_ms: i64)
    requires
        sound(t),
        t.last_render_at_ms == Some(last),
    ensures
        is_due(t, now_ms) || is_ripe(t, now_ms) ==> now_ms - last >= t.interval_ms || now_ms
            == i64::MAX,
{
}

/// A request that is held back is not lost: a time is set for it, and at that time it is drawn.
pub proof fn lemma_request_is_not_lost(t: RenderThrottle, now_ms: i64, then_ms: i64)
    requires
        sound(t),
        !is_due(t, now_ms),
        then_ms >= requested(t, now_ms).next_render_at_ms->0,
    ensures
        requested(t, now_ms).next_render_at_ms is Some,
        is_ripe(requested(t, now_ms), then_ms),
{
}

/// Requests within one interval are drawn together: a second request changes nothing.
pub proof fn lemma_requests_are_coalesced(t: RenderThrottle, now_ms: i64, then_ms: i64)
    requires
        sound(t),
        !is_due(t, now_ms),
        !is_due(requested(t, now_ms), then_ms),
    ensures
        requested(requested(t, now_ms), then_ms) == requested(t, now_ms),
{
}

/// A request is drawn at once if nothing was drawn within the interval; else it waits until the
/// interval is over.
pub proof fn lemma_request_is_drawn_or_waits(t: RenderThrottle, last: i64, now_ms: i64)
    ensures
        t.last_render_at_ms is None ==> is_due(t, now_ms),
        t.last_render_at_ms == Some(last) ==> (is_due(t, now_ms) <==> now_ms - last
            >= t.interval_ms),
        t.last_render_at_ms is None || (t.last_render_at_ms == Some(last) && now_ms - last
            >= t.interval_ms) ==> {
            let after = requested(t, now_ms);
            after.last_render_at_ms == Some(now_ms) && !after.pending && after.next_render_at_ms
                is None && after.interval_ms == t.interval_ms
        },
        t.last_render_at_ms == Some(last) && now_ms - last < t.interval_ms && last + t.interval_ms
            <= i64::MAX && last + t.interval_ms >= i64::MIN ==> {
            let after = requested(t, now_ms);
            after.last_render_at_ms == Some(last) && after.pending && after.next_render_at_ms
                == Some((last + t.interval_ms) as i64) && after.interval_ms == t.interval_ms
        },
{
}

/// What was held back is drawn at its time and not before, and then nothing is held back.
pub proof fn lemma_held_back_is_drawn(t: RenderThrottle, at: i64, now_ms: i64)
    requires
        t.pending,
        t.next_render_at_ms == Some(at),
    ensures
        is_ripe(t, now_ms) <==> now_ms >= at,
        drawn(t, now_ms).last_render_at_ms == Some(now_ms),
        !drawn(t, now_ms).pending,
        drawn(t, now_ms).next_render_at_ms is None,
        drawn(t, now_ms).interval_ms == t.interval_ms,
{
}

} // verus!
