//! The timer registry: named start instants, with start, stop and the sweep
//! that evicts timers left running too long.
//!
//! Instants are nanoseconds since the clock's origin.
use vstd::prelude::*;

verus! {

/// Timers at least this old (in nanoseconds) are evicted by a sweep.
pub const MAX_TIMER_AGE_NANOS: u128 = 30_000_000_000;

/// The nanoseconds from `start` to `now`; zero where `now` comes first.
pub open spec fn elapsed(start: u128, now: u128) -> u128 {
    if now >= start {
        (now - start) as u128
    } else {
        0
    }
}

/// A timer started at `start` is still kept at `now`.
pub open spec fn is_fresh(start: u128, now: u128) -> bool {
    elapsed(start, now) < MAX_TIMER_AGE_NANOS
}

/// The timers of `m` that a sweep at `now` keeps.
pub open spec fn swept(m: Map<Seq<char>, u128>, now: u128) -> Map<Seq<char>, u128> {
    Map::new(|k: Seq<char>| m.contains_key(k) && is_fresh(m[k], now), |k: Seq<char>| m[k])
}

/// One running timer: its name and the instant it was started.
pub struct TimerEntry {
    pub name: Vec<char>,
    pub start: u128,
}

/// The running timers, at most one per name.
pub struct TimerRegistry {
    entries: Vec<TimerEntry>,
    timers: Ghost<Map<Seq<char>, u128>>,
}

impl View for TimerRegistry {
    type V = Map<Seq<char>, u128>;

    /// Each running timer's name, mapped to its start instant.
    closed spec fn view(&self) -> Map<Seq<char>, u128> {
        self.timers@
    }
}

/// Whether `a` and `b` hold the same characters.
fn same_chars(a: &Vec<char>, b: &Vec<char>) -> (r: bool)
    ensures
        r == (a@ == b@),
{
    if a.len() != b.len() {
        return false;
    }
    let mut i: usize = 0;
    while i < a.len()
        invariant
            a.len() == b.len(),
            i <= a.len(),
            forall|t: int| 0 <= t < i ==> a@[t] == b@[t],
        decreases a.len() - i,
    {
        if a[i] != b[i] {
            return false;
        }
        i = i + 1;
    }
    assert(a@ =~= b@);
    true
}

/// The nanoseconds from `start` to `now`; zero where `now` comes first.
fn elapsed_exec(start: u128, now: u128) -> (r: u128)
    ensures
        r == elapsed(start, now),
{
    if now >= start {
        now - start
    } else {
        0
    }
}

impl TimerRegistry {
    /// The entries hold one timer per name, and exactly the timers of the
    /// model.
    pub closed spec fn wf(&self) -> bool {
        &&& forall|i: int, j: int|
            0 <= i < j < self.entries.len() ==> self.entries@[i].name@ != self.entries@[j].name@
        &&& forall|i: int|
            0 <= i < self.entries.len() ==> {
                &&& #[trigger] self.timers@.contains_key(self.entries@[i].name@)
                &&& self.timers@[self.entries@[i].name@] == self.entries@[i].start
            }
        &&& forall|k: Seq<char>|
            self.timers@.contains_key(k) ==> exists|i: int|
                0 <= i < self.entries.len() && #[trigger] self.entries@[i].name@ == k
    }

    /// A registry with no timers.
    pub fn new() -> (r: TimerRegistry)
        ensures
            r.wf(),
            r@ == Map::<Seq<char>, u128>::empty(),
    {
        TimerRegistry { entries: Vec::new(), timers: Ghost(Map::empty()) }
    }

    /// Where the timer called `name` stands among the entries.
    fn position(&self, name: &Vec<char>) -> (r: Option<usize>)
        requires
            self.wf(),
        ensures
            match r {
                Some(i) => i < self.entries.len() && self.entries@[i as int].name@ == name@,
                None => !self@.contains_key(name@),
            },
    {
        let mut i: usize = 0;
        while i < self.entries.len()
            invariant
                self.wf(),
                i <= self.entries.len(),
                forall|t: int| 0 <= t < i ==> self.entries@[t].name@ != name@,
            decreases self.entries.len() - i,
        {
            if same_chars(&self.entries[i].name, name) {
                return Some(i);
            }
            i = i + 1;
        }
        None
    }

    /// Takes out the entry at `i`.
    fn remove_at(&mut self, i: usize) -> (r: TimerEntry)
        requires
            old(self).wf(),
            i < old(self).entries.len(),
        ensures
            final(self).wf(),
            r == old(self).entries@[i as int],
            final(self)@ == old(self)@.remove(r.name@),
            final(self).entries.len() == old(self).entries.len() - 1,
            forall|j: int|
                0 <= j < i ==> final(self).entries@[j] == old(self).entries@[j],
    {
        let ghost pre = self.entries@;
        let ghost name = self.entries@[i as int].name@;
        let r = self.entries.swap_remove(i);
        self.timers = Ghost(self.timers@.remove(name));
        let ghost last = pre.len() - 1;
        assert forall|k: Seq<char>| self.timers@.contains_key(k) implies exists|j: int|
            0 <= j < self.entries.len() && #[trigger] self.entries@[j].name@ == k by {
            let t = choose|t: int| 0 <= t < pre.len() && #[trigger] pre[t].name@ == k;
            if t == last {
                assert(self.entries@[i as int].name@ == k);
            } else {
                assert(self.entries@[t].name@ == k);
            }
        }
        r
    }
    /// Starts the timer called `name` at `now`. A timer of that name that was
    /// still running is discarded.
    pub fn start(&mut self, name: Vec<char>, now: u128)
        requires
            old(self).wf(),
        ensures
            final(self).wf(),
            final(self)@ == old(self)@.insert(name@, now),
    {
        let ghost key = name@;
        match self.position(&name) {
            Some(i) => {
                self.entries.set(i, TimerEntry { name, start: now });
                self.timers = Ghost(self.timers@.insert(key, now));
                assert forall|a: int, b: int|
                    0 <= a < b < self.entries.len() implies self.entries@[a].name@
                    != self.entries@[b].name@ by {
                    assert(old(self).entries@[a].name@ != old(self).entries@[b].name@);
                }
                assert forall|j: int| 0 <= j < self.entries.len() implies {
                    &&& #[trigger] self.timers@.contains_key(self.entries@[j].name@)
                    &&& self.timers@[self.entries@[j].name@] == self.entries@[j].start
                } by {
                    if j != i {
                        assert(old(self).entries@[j].name@ != old(self).entries@[i as int].name@);
                        assert(old(self).timers@.contains_key(old(self).entries@[j].name@));
                    }
                }
                assert forall|k: Seq<char>| self.timers@.contains_key(k) implies exists|j: int|
                    0 <= j < self.entries.len() && #[trigger] self.entries@[j].name@ == k by {
                    if k != key {
                        let t = choose|t: int|
                            0 <= t < self.entries.len() && #[trigger] old(self).entries@[t].name@ == k;
                        assert(self.entries@[t].name@ == k);
                    } else {
                        assert(self.entries@[i as int].name@ == k);
                    }
                }
                assert(self.wf());
            },
            None => {
                let ghost n = self.entries.len() as int;
                self.entries.push(TimerEntry { name, start: now });
                self.timers = Ghost(self.timers@.insert(key, now));
                assert forall|a: int, b: int|
                    0 <= a < b < self.entries.len() implies self.entries@[a].name@
                    != self.entries@[b].name@ by {
                    if b == n {
                        assert(old(self).timers@.contains_key(old(self).entries@[a].name@));
                    } else {
                        assert(old(self).entries@[a].name@ != old(self).entries@[b].name@);
                    }
                }
                assert forall|j: int| 0 <= j < self.entries.len() implies {
                    &&& #[trigger] self.timers@.contains_key(self.entries@[j].name@)
                    &&& self.timers@[self.entries@[j].name@] == self.entries@[j].start
                } by {
                    if j != n {
                        assert(old(self).timers@.contains_key(old(self).entries@[j].name@));
                    }
                }
                assert forall|k: Seq<char>| self.timers@.contains_key(k) implies exists|j: int|
                    0 <= j < self.entries.len() && #[trigger] self.entries@[j].name@ == k by {
                    if k != key {
                        let t = choose|t: int|
                            0 <= t < n && #[trigger] old(self).entries@[t].name@ == k;
                        assert(self.entries@[t].name@ == k);
                    } else {
                        assert(self.entries@[n].name@ == k);
                    }
                }
                assert(self.wf());
            },
        }
    }

    /// Stops the timer called `name` at `now`: takes it out and returns the
    /// nanoseconds since it started, or `None` where no timer of that name
    /// is running.
    pub fn stop(&mut self, name: &Vec<char>, now: u128) -> (r: Option<u128>)
        requires
            old(self).wf(),
        ensures
            final(self).wf(),
            final(self)@ == old(self)@.remove(name@),
            r == (if old(self)@.contains_key(name@) {
                Some(elapsed(old(self)@[name@], now))
            } else {
                None
            }),
    {
        match self.position(name) {
            Some(i) => {
                let e = self.remove_at(i);
                Some(elapsed_exec(e.start, now))
            },
            None => {
                assert(self.timers@.remove(name@) =~= self.timers@);
                None
            },
        }
    }
}

/// Evicts every timer of `timers` that is at least `MAX_TIMER_AGE_NANOS`
/// old at `now`; the others stay as they were.
pub fn cleanup_stale_timers(timers: &mut TimerRegistry, now: u128)
    requires
        old(timers).wf(),
    ensures
        final(timers).wf(),
        final(timers)@ == swept(old(timers)@, now),
{
    let ghost before = timers@;
    let mut i: usize = 0;
    while i < timers.entries.len()
        invariant
            timers.wf(),
            i <= timers.entries.len(),
            forall|j: int| 0 <= j < i ==> is_fresh(#[trigger] timers.entries@[j].start, now),
            forall|k: Seq<char>|
                #[trigger] timers@.contains_key(k) ==> before.contains_key(k) && timers@[k]
                    == before[k],
            forall|k: Seq<char>|
                before.contains_key(k) && is_fresh(before[k], now) ==> #[trigger] timers@.contains_key(k),
        decreases timers.entries.len() - i,
    {
        let start = timers.entries[i].start;
        if elapsed_exec(start, now) < MAX_TIMER_AGE_NANOS {
            i = i + 1;
        } else {
            let ghost pre = timers@;
            assert(timers.timers@.contains_key(timers.entries@[i as int].name@));
            let e = timers.remove_at(i);
            assert(pre.contains_key(e.name@) && pre[e.name@] == e.start);
        }
    }
    assert forall|k: Seq<char>| #[trigger] timers@.contains_key(k) implies is_fresh(before[k], now) by {
        let t = choose|t: int| 0 <= t < timers.entries.len() && #[trigger] timers.entries@[t].name@ == k;
        assert(is_fresh(timers.entries@[t].start, now));
    }
    assert(timers@ =~= swept(before, now));
}

} // verus!
