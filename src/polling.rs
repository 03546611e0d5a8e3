//! The state of the polling loop: the previous report, and the pacing of polls.
use vstd::prelude::*;
use crate::events::{derive_events, pad_error_of, report_events, Derivation};
use crate::report::{decoded_pad, zero_report, DPad, FACE_PAD_OFFSET, PAD_MASK, REPORT_LEN};

verus! {

/// The device could not be read: it was disconnected or the read failed.
#[derive(Debug, Clone, Copy, PartialEq, Eq, Structural)]
pub struct DeviceIoError;

/// The previous-report slot of a polling loop. It starts as an all-zero report, so the
/// first poll reports every held button as pressed and the pad as moving from North
/// (nibble 0) to wherever it is; no poll is treated as a silent baseline.
pub struct EventSource {
    previous: Vec<u8>,
}

/// What becomes the previous report after reading `curr`: `curr` itself, except that an
/// invalid pad nibble is replaced by the previous (valid) one, so that the pad's next
/// move is reported from its last valid position.
pub open spec fn kept_report(prev: Seq<u8>, curr: Seq<u8>) -> Seq<u8> {
    let f = FACE_PAD_OFFSET as int;
    if decoded_pad(curr[f]) is Ok {
        curr
    } else {
        curr.update(f, (curr[f] & !PAD_MASK) | (prev[f] & PAD_MASK))
    }
}

impl View for EventSource {
    type V = Seq<u8>;

    closed spec fn view(&self) -> Seq<u8> {
        self.previous@
    }
}

impl EventSource {
    pub fn new() -> (r: Self)
        ensures
            r@ == zero_report(),
            decoded_pad(r@[FACE_PAD_OFFSET as int]) is Ok,
    {
        let previous: Vec<u8> = vec![0u8; REPORT_LEN];
        assert(previous@ =~= zero_report());
        assert(0u8 & PAD_MASK == 0) by (bit_vector);
        EventSource { previous }
    }

    /// The last report that was read.
    pub fn previous(&self) -> (r: &[u8])
        ensures
            r@ == self@,
    {
        self.previous.as_slice()
    }

    /// One step of the polling loop, given what the device read gave. A failed read is
    /// handed back as it is, with no derivation and the previous report kept. A report
    /// is diffed against the previous one and then becomes the previous one, keeping the
    /// previous pad nibble when its own is invalid.
    pub fn poll(&mut self, read: Result<Vec<u8>, DeviceIoError>, ts: u64) -> (r: Result<
        Derivation,
        DeviceIoError,
    >)
        requires
            old(self)@.len() == REPORT_LEN,
            decoded_pad(old(self)@[FACE_PAD_OFFSET as int]) is Ok,
            read matches Ok(report) ==> report@.len() == REPORT_LEN,
        ensures
            final(self)@.len() == REPORT_LEN,
            decoded_pad(final(self)@[FACE_PAD_OFFSET as int]) is Ok,
            match read {
                Err(e) => r == Err::<Derivation, DeviceIoError>(e) && final(self)@ == old(self)@,
                Ok(report) => match r {
                    Ok(d) => {
                        &&& d.events@ == report_events(old(self)@, report@, ts)
                        &&& d.pad_error == pad_error_of(report@[FACE_PAD_OFFSET as int])
                        &&& final(self)@ == kept_report(old(self)@, report@)
                    },
                    Err(_) => false,
                },
            },
    {
        match read {
            Err(e) => Err(e),
            Ok(report) => {
                let d = derive_events(self.previous.as_slice(), report.as_slice(), ts);
                let mut report = report;
                let f = report[FACE_PAD_OFFSET];
                match DPad::from_byte(f) {
                    Ok(_) => {},
                    Err(_) => {
                        let p = self.previous[FACE_PAD_OFFSET];
                        let kept = (f & !PAD_MASK) | (p & PAD_MASK);
                        assert(kept & PAD_MASK == p & PAD_MASK) by (bit_vector)
                            requires
                                kept == (f & !PAD_MASK) | (p & PAD_MASK),
                        ;
                        report.set(FACE_PAD_OFFSET, kept);
                    },
                }
                self.previous = report;
                Ok(d)
            },
        }
    }
}

/// Paces a loop to at most one iteration per `interval`, on a monotonic clock counted
/// in nanoseconds.
#[derive(Debug, Clone, Copy, PartialEq, Eq, Structural)]
pub struct RateLimiter {
    pub interval: u64,
    /// When the last iteration started; none before the first.
    pub last_iter: Option<u64>,
}

/// How long to wait at `now` before the next iteration may start.
pub open spec fn delay_at(interval: u64, last_iter: Option<u64>, now: u64) -> u64 {
    match last_iter {
        None => 0,
        Some(t) => {
            let elapsed = if now >= t { now - t } else { 0 };
            if elapsed < interval { (interval - elapsed) as u64 } else { 0 }
        },
    }
}

impl RateLimiter {
    /// A limiter whose first iteration does not wait.
    pub fn new(interval: u64) -> (r: Self)
        ensures
            r.interval == interval,
            r.last_iter.is_none(),
    {
        RateLimiter { interval, last_iter: None }
    }

    /// How long to wait at `now` before starting the next iteration.
    pub fn delay(&self, now: u64) -> (r: u64)
        ensures
            r == delay_at(self.interval, self.last_iter, now),
            r <= self.interval,
    {
        match self.last_iter {
            None => 0,
            Some(t) => {
                let elapsed = if now >= t {
                    now - t
                } else {
                    0
                };
                if elapsed < self.interval {
                    self.interval - elapsed
                } else {
                    0
                }
            },
        }
    }

    /// Records that an iteration starts at `now`.
    pub fn mark(&mut self, now: u64)
        ensures
            final(self).interval == old(self).interval,
            final(self).last_iter == Some(now),
    {
        self.last_iter = Some(now);
    }
}

} // verus!
