//! Serving requests: what each request does to the timers, and the body of
//! its response.
use vstd::prelude::*;
use crate::clock::Clock;
use crate::decimal::{decimal, to_decimal};
use crate::registry::{cleanup_stale_timers, elapsed, swept, TimerRegistry};
use crate::route::{Request, RequestModel};

verus! {

/// The body that reports a missing name or a timer that is not running.
pub open spec fn absent_body() -> Seq<char> {
    seq!['-', '1']
}

/// The body that acknowledges a start.
pub open spec fn started_body() -> Seq<char> {
    seq!['0']
}

/// The body of a request for no known operation.
pub open spec fn unknown_body() -> Seq<char> {
    seq!['u', 'n', 'k', 'n', 'o', 'w', 'n']
}

/// The timers after `req` is served at `now` with timers `m`. Every request
/// but a clock reading first sweeps out stale timers.
pub open spec fn timers_after(m: Map<Seq<char>, u128>, req: RequestModel, now: u128) -> Map<
    Seq<char>,
    u128,
> {
    match req {
        RequestModel::Now => m,
        RequestModel::Start(Some(n)) => swept(m, now).insert(n, now),
        RequestModel::Stop(Some(n)) => swept(m, now).remove(n),
        _ => swept(m, now),
    }
}

/// The body of the response to `req`, served at `now` with timers `m`.
pub open spec fn response_to(m: Map<Seq<char>, u128>, req: RequestModel, now: u128) -> Seq<char> {
    match req {
        RequestModel::Now => decimal(now as nat),
        RequestModel::Start(Some(n)) => started_body(),
        RequestModel::Stop(Some(n)) => {
            let s = swept(m, now);
            if s.contains_key(n) {
                decimal(elapsed(s[n], now) as nat)
            } else {
                absent_body()
            }
        },
        RequestModel::Unknown => unknown_body(),
        _ => absent_body(),
    }
}

fn absent_text() -> (r: String)
    ensures
        r@ == absent_body(),
{
    proof {
        reveal_strlit("-1");
    }
    "-1".to_owned()
}

/// The body of a clock reading: the nanoseconds since the clock's origin,
/// in decimal. The reading is the clock's new latest one, never below the
/// one before it.
pub fn read_clock(clock: &mut Clock) -> (r: String)
    ensures
        final(clock).last_reading() >= old(clock).last_reading(),
        r@ == decimal(final(clock).last_reading() as nat),
{
    let now = clock.elapsed_nanos();
    to_decimal(now)
}

impl TimerRegistry {
    /// Serves `req` at the instant `now`: sweeps, then starts or stops the
    /// named timer, and returns the response body.
    pub fn serve_at(&mut self, req: Request, now: u128) -> (r: String)
        requires
            old(self).wf(),
        ensures
            final(self).wf(),
            final(self)@ == timers_after(old(self)@, req@, now),
            r@ == response_to(old(self)@, req@, now),
    {
        match req {
            Request::Now => to_decimal(now),
            Request::Start(Some(name)) => {
                cleanup_stale_timers(self, now);
                self.start(name, now);
                proof {
                    reveal_strlit("0");
                }
                "0".to_owned()
            },
            Request::Stop(Some(name)) => {
                cleanup_stale_timers(self, now);
                match self.stop(&name, now) {
                    Some(d) => to_decimal(d),
                    None => absent_text(),
                }
            },
            Request::Unknown => {
                cleanup_stale_timers(self, now);
                proof {
                    reveal_strlit("unknown");
                }
                "unknown".to_owned()
            },
            _ => {
                cleanup_stale_timers(self, now);
                absent_text()
            },
        }
    }

    /// Serves `req` at a fresh reading of `clock`: the timers and the body
    /// are those of `serve_at` at that reading, which becomes the clock's
    /// latest and is never below the one before it.
    pub fn serve(&mut self, req: Request, clock: &mut Clock) -> (r: String)
        requires
            old(self).wf(),
        ensures
            final(self).wf(),
            final(clock).last_reading() >= old(clock).last_reading(),
            final(self)@ == timers_after(old(self)@, req@, final(clock).last_reading()),
            r@ == response_to(old(self)@, req@, final(clock).last_reading()),
    {
        let now = clock.elapsed_nanos();
        self.serve_at(req, now)
    }
}

} // verus!
