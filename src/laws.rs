//! Laws of the timers over sequences of requests, stated on the model that
//! `TimerRegistry::serve_at` follows.
use vstd::prelude::*;
use crate::decimal::decimal;
use crate::registry::{is_fresh, swept, MAX_TIMER_AGE_NANOS};
use crate::route::RequestModel;
use crate::service::{absent_body, response_to, timers_after};

verus! {

/// A start of `n` at `t0` followed by a stop of `n` at `t1`, less than the
/// eviction age later, answers the nanoseconds between the two; a second
/// stop of `n` right after answers that no such timer runs.
pub proof fn lemma_start_then_stop(
    m: Map<Seq<char>, u128>,
    n: Seq<char>,
    t0: u128,
    t1: u128,
    t2: u128,
)
    requires
        t0 <= t1,
        t1 - t0 < MAX_TIMER_AGE_NANOS,
    ensures
        ({
            let m1 = timers_after(m, RequestModel::Start(Some(n)), t0);
            let m2 = timers_after(m1, RequestModel::Stop(Some(n)), t1);
            &&& response_to(m1, RequestModel::Stop(Some(n)), t1) == decimal((t1 - t0) as nat)
            &&& response_to(m2, RequestModel::Stop(Some(n)), t2) == absent_body()
        }),
{
    let m1 = timers_after(m, RequestModel::Start(Some(n)), t0);
    assert(swept(m1, t1).contains_key(n));
    let m2 = timers_after(m1, RequestModel::Stop(Some(n)), t1);
    assert(!swept(m2, t2).contains_key(n));
}

/// Stopping a name that has no running timer answers `-1`.
pub proof fn lemma_stop_unknown(m: Map<Seq<char>, u128>, n: Seq<char>, t: u128)
    requires
        !m.contains_key(n),
    ensures
        response_to(m, RequestModel::Stop(Some(n)), t) == absent_body(),
        timers_after(m, RequestModel::Stop(Some(n)), t) == swept(m, t),
{
    assert(timers_after(m, RequestModel::Stop(Some(n)), t) =~= swept(m, t));
}

/// Starting `n` twice and then stopping it measures from the second start:
/// the first timer is discarded.
pub proof fn lemma_restart_discards_first(
    m: Map<Seq<char>, u128>,
    n: Seq<char>,
    t0: u128,
    t1: u128,
    t2: u128,
)
    requires
        t1 <= t2,
        t2 - t1 < MAX_TIMER_AGE_NANOS,
    ensures
        ({
            let m1 = timers_after(m, RequestModel::Start(Some(n)), t0);
            let m2 = timers_after(m1, RequestModel::Start(Some(n)), t1);
            response_to(m2, RequestModel::Stop(Some(n)), t2) == decimal((t2 - t1) as nat)
        }),
{
    let m1 = timers_after(m, RequestModel::Start(Some(n)), t0);
    let m2 = timers_after(m1, RequestModel::Start(Some(n)), t1);
    assert(swept(m2, t2).contains_key(n));
}

/// A timer stopped at least the eviction age after its start answers `-1`:
/// the sweep of the stop itself evicts it.
pub proof fn lemma_stale_stop_is_absent(
    m: Map<Seq<char>, u128>,
    n: Seq<char>,
    t0: u128,
    t1: u128,
)
    requires
        t0 <= t1,
        t1 - t0 >= MAX_TIMER_AGE_NANOS,
    ensures
        ({
            let m1 = timers_after(m, RequestModel::Start(Some(n)), t0);
            response_to(m1, RequestModel::Stop(Some(n)), t1) == absent_body()
        }),
{
    let m1 = timers_after(m, RequestModel::Start(Some(n)), t0);
    assert(!is_fresh(m1[n], t1));
}

/// A timer left running is evicted by any start or stop request (or any
/// other request but a clock reading) served at least the eviction age after
/// its start, unless that request starts the same name again: a later stop
/// of it answers `-1`, whenever it comes.
pub proof fn lemma_evicted_by_later_request(
    m: Map<Seq<char>, u128>,
    n: Seq<char>,
    req: RequestModel,
    t0: u128,
    t1: u128,
    t2: u128,
)
    requires
        !(req is Now),
        req != RequestModel::Start(Some(n)),
        t0 <= t1,
        t1 - t0 >= MAX_TIMER_AGE_NANOS,
    ensures
        ({
            let m1 = timers_after(m, RequestModel::Start(Some(n)), t0);
            let m2 = timers_after(m1, req, t1);
            &&& !m2.contains_key(n)
            &&& response_to(m2, RequestModel::Stop(Some(n)), t2) == absent_body()
        }),
{
    let m1 = timers_after(m, RequestModel::Start(Some(n)), t0);
    assert(!swept(m1, t1).contains_key(n));
    let m2 = timers_after(m1, req, t1);
    assert(!m2.contains_key(n));
    assert(!swept(m2, t2).contains_key(n));
}

/// A start or stop of one name leaves the timer of any other name as the
/// sweep alone leaves it: requests on distinct names do not disturb each
/// other.
pub proof fn lemma_names_independent(
    m: Map<Seq<char>, u128>,
    a: Seq<char>,
    b: Seq<char>,
    t: u128,
)
    requires
        a != b,
    ensures
        ({
            let after_start = timers_after(m, RequestModel::Start(Some(a)), t);
            let after_stop = timers_after(m, RequestModel::Stop(Some(a)), t);
            let s = swept(m, t);
            &&& after_start.contains_key(b) == s.contains_key(b)
            &&& after_stop.contains_key(b) == s.contains_key(b)
            &&& s.contains_key(b) ==> after_start[b] == s[b] && after_stop[b] == s[b]
        }),
{
}

} // verus!
