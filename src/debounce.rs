use vstd::prelude::*;

verus! {

/// An action waiting for the quiet period of its key to end.
#[derive(Debug, Clone)]
pub struct Pending<A> {
    pub key: String,
    pub action: A,
    /// The time, in milliseconds, at which the action runs.
    pub due: u64,
}

/// Whether the schedule holds `action` under `key`, due at `due`.
pub open spec fn holds<A>(s: Seq<Pending<A>>, key: Seq<char>, action: A, due: u64) -> bool {
    exists|i: int| 0 <= i < s.len() && s[i].key@ == key && s[i].action == action && s[i].due == due
}

/// Whether the schedule holds anything under `key`.
pub open spec fn has_key<A>(s: Seq<Pending<A>>, key: Seq<char>) -> bool {
    exists|i: int| 0 <= i < s.len() && s[i].key@ == key
}

/// Whether no key occurs twice in the schedule.
pub open spec fn keys_unique<A>(s: Seq<Pending<A>>) -> bool {
    forall|i: int, j: int| 0 <= i < s.len() && 0 <= j < s.len() && i != j ==> s[i].key@ != s[j].key@
}

/// The effect of a call `debounce(key, action)` whose action is due at
/// `due`: the key now holds exactly that action and due time, and every
/// other key holds what it held.
pub open spec fn debounced<A>(
    before: Seq<Pending<A>>,
    after: Seq<Pending<A>>,
    key: Seq<char>,
    action: A,
    due: u64,
) -> bool {
    &&& keys_unique(after)
    &&& forall|x: A, d: u64| holds(after, key, x, d) <==> (x == action && d == due)
    &&& forall|k: Seq<char>, x: A, d: u64| k != key ==> (holds(after, k, x, d) <==> holds(before, k, x, d))
}

/// The effect of taking out the action `action` under `key` at time `now`:
/// it was due, the key is gone, and every other key holds what it held.
pub open spec fn popped<A>(
    before: Seq<Pending<A>>,
    after: Seq<Pending<A>>,
    key: Seq<char>,
    action: A,
    now: u64,
) -> bool {
    &&& exists|d: u64| d <= now && holds(before, key, action, d)
    &&& !has_key(after, key)
    &&& forall|k: Seq<char>, x: A, d: u64| k != key ==> (holds(after, k, x, d) <==> holds(before, k, x, d))
}

/// The time at which an action registered at `now` runs, after a quiet
/// period of `delay`.
pub open spec fn due_time(now: u64, delay: u64) -> u64 {
    if now + delay > u64::MAX { u64::MAX } else { (now + delay) as u64 }
}

/// A per-key coalescing schedule: an action registered under a key runs once
/// `delay` milliseconds have passed without another registration under that
/// key; a later registration replaces the earlier one.
#[derive(Debug)]
pub struct Bouncer<A> {
    delay: u64,
    pending: Vec<Pending<A>>,
}

impl<A> Bouncer<A> {
    /// The pending actions.
    pub closed spec fn view(&self) -> Seq<Pending<A>> {
        self.pending@
    }

    /// The quiet period, in milliseconds.
    pub closed spec fn period(&self) -> u64 {
        self.delay
    }

    pub closed spec fn wf(&self) -> bool {
        keys_unique(self.pending@)
    }

    /// An empty schedule with the given quiet period.
    pub fn new(delay: u64) -> (r: Bouncer<A>)
        ensures
            r.wf(),
            r@.len() == 0,
            r.period() == delay,
    {
        Bouncer { delay, pending: Vec::new() }
    }

    /// The quiet period, in milliseconds.
    pub fn delay(&self) -> (r: u64)
        ensures
            r == self.period(),
    {
        self.delay
    }

    /// The number of pending actions.
    pub fn len(&self) -> (r: usize)
        ensures
            r == self@.len(),
    {
        self.pending.len()
    }

    fn position(&self, key: &String) -> (r: Option<usize>)
        ensures
            match r {
                Some(i) => i < self@.len() && self@[i as int].key@ == key@,
                None => !has_key(self@, key@),
            },
    {
        let mut i: usize = 0;
        while i < self.pending.len()
            invariant
                i <= self.pending@.len(),
                forall|k: int| 0 <= k < i ==> self.pending@[k].key@ != key@,
            decreases self.pending@.len() - i,
        {
            if self.pending[i].key == *key {
                return Some(i);
            }
            i = i + 1;
        }
        None
    }

    /// Registers `action` under `key` at time `now`: it becomes due `delay`
    /// milliseconds later (at the largest time where that overflows). The
    /// action that was pending under the key, if any, is cancelled and handed
    /// back.
    pub fn debounce(&mut self, key: String, action: A, now: u64) -> (r: Option<A>)
        requires
            old(self).wf(),
        ensures
            final(self).wf(),
            final(self).period() == old(self).period(),
            debounced(old(self)@, final(self)@, key@, action, due_time(now, old(self).period())),
            r is None <==> !has_key(old(self)@, key@),
            r matches Some(x) ==> exists|d: u64| holds(old(self)@, key@, x, d),
    {
        let due = now.saturating_add(self.delay);
        let ghost s0 = self.pending@;
        let found = self.position(&key);
        let ghost mut old_due: u64 = 0;
        let cancelled = match found {
            Some(i) => {
                let p = self.pending.remove(i);
                proof {
                    old_due = p.due;
                    assert(holds(s0, key@, p.action, p.due));
                }
                Some(p.action)
            },
            None => None,
        };
        proof {
            if cancelled is Some {
                assert(holds(s0, key@, cancelled->Some_0, old_due));
            }
        }
        let ghost s1 = self.pending@;
        proof {
            assert(keys_unique(s1)) by {
                if let Some(i) = found {
                    assert forall|a: int, b: int|
                        0 <= a < s1.len() && 0 <= b < s1.len() && a != b
                        implies s1[a].key@ != s1[b].key@ by {
                        let oa = if a < i { a } else { a + 1 };
                        let ob = if b < i { b } else { b + 1 };
                        assert(s1[a] == s0[oa]);
                        assert(s1[b] == s0[ob]);
                    }
                }
            }
            assert(!has_key(s1, key@)) by {
                if let Some(i) = found {
                    if has_key(s1, key@) {
                        let a = choose|a: int| 0 <= a < s1.len() && s1[a].key@ == key@;
                        let oa = if a < i { a } else { a + 1 };
                        assert(s1[a] == s0[oa]);
                    }
                }
            }
            assert forall|k: Seq<char>, x: A, d: u64| k != key@ implies
                (holds(s1, k, x, d) <==> holds(s0, k, x, d)) by {
                if let Some(i) = found {
                    if holds(s1, k, x, d) {
                        let a = choose|a: int| 0 <= a < s1.len() && s1[a].key@ == k && s1[a].action == x && s1[a].due == d;
                        let oa = if a < i { a } else { a + 1 };
                        assert(s1[a] == s0[oa]);
                    }
                    if holds(s0, k, x, d) {
                        let a = choose|a: int| 0 <= a < s0.len() && s0[a].key@ == k && s0[a].action == x && s0[a].due == d;
                        assert(a != i);
                        let na = if a < i { a } else { a - 1 };
                        assert(s1[na] == s0[a]);
                    }
                }
            }
        }
        let ghost kv = key@;
        let ghost act = action;
        self.pending.push(Pending { key, action, due });
        proof {
            let s2 = self.pending@;
            let n = s1.len() as int;
            assert(s2[n].key@ == kv && s2[n].action == act && s2[n].due == due);
            assert forall|a: int, b: int| 0 <= a < s2.len() && 0 <= b < s2.len() && a != b
                implies s2[a].key@ != s2[b].key@ by {
                if a < n && b < n {
                    assert(s2[a] == s1[a] && s2[b] == s1[b]);
                } else if a < n {
                    assert(s2[a] == s1[a]);
                } else if b < n {
                    assert(s2[b] == s1[b]);
                }
            }
            assert forall|x: A, d: u64| holds(s2, kv, x, d) <==> (x == act && d == due) by {
                if holds(s2, kv, x, d) {
                    let a = choose|a: int| 0 <= a < s2.len() && s2[a].key@ == kv && s2[a].action == x && s2[a].due == d;
                    if a < n {
                        assert(s2[a] == s1[a]);
                    }
                }
            }
            assert forall|k: Seq<char>, x: A, d: u64| k != kv implies
                (holds(s2, k, x, d) <==> holds(s1, k, x, d)) by {
                if holds(s2, k, x, d) {
                    let a = choose|a: int| 0 <= a < s2.len() && s2[a].key@ == k && s2[a].action == x && s2[a].due == d;
                    assert(a < n);
                    assert(s2[a] == s1[a]);
                }
                if holds(s1, k, x, d) {
                    let a = choose|a: int| 0 <= a < s1.len() && s1[a].key@ == k && s1[a].action == x && s1[a].due == d;
                    assert(s2[a] == s1[a]);
                }
            }
        }
        cancelled
    }

    /// The earliest due time among the pending actions.
    pub fn next_due(&self) -> (r: Option<u64>)
        ensures
            r is None <==> self@.len() == 0,
            r matches Some(t) ==> (exists|i: int| 0 <= i < self@.len() && self@[i].due == t)
                && (forall|i: int| 0 <= i < self@.len() ==> t <= self@[i].due),
    {
        let mut best: Option<u64> = None;
        let mut i: usize = 0;
        while i < self.pending.len()
            invariant
                i <= self.pending@.len(),
                best is None <==> i == 0,
                best matches Some(t) ==> (exists|k: int| 0 <= k < i && self.pending@[k].due == t)
                    && (forall|k: int| 0 <= k < i ==> t <= self.pending@[k].due),
            decreases self.pending@.len() - i,
        {
            let d = self.pending[i].due;
            let ghost prev = best;
            best = match best {
                Some(t) => if d < t { Some(d) } else { Some(t) },
                None => Some(d),
            };
            proof {
                let t = best->Some_0;
                if t == d {
                    assert(self.pending@[i as int].due == t);
                } else {
                    let k = choose|k: int| 0 <= k < i && self.pending@[k].due == prev->Some_0;
                    assert(self.pending@[k].due == t);
                }
            }
            i = i + 1;
        }
        proof {
            if best is Some {
                let t = best->Some_0;
                let k = choose|k: int| 0 <= k < i && self.pending@[k].due == t;
                assert(self@[k].due == t);
            }
        }
        best
    }

    /// Takes out one action that is due at `now`, with its key; `None` when
    /// none is due. Calling it until it gives `None` runs every due action
    /// exactly once.
    pub fn pop_due(&mut self, now: u64) -> (r: Option<(String, A)>)
        requires
            old(self).wf(),
        ensures
            final(self).wf(),
            final(self).period() == old(self).period(),
            r is None <==> forall|i: int| 0 <= i < old(self)@.len() ==> old(self)@[i].due > now,
            r is None ==> final(self)@ == old(self)@,
            r matches Some((k, x)) ==> popped(old(self)@, final(self)@, k@, x, now),
    {
        let ghost s0 = self.pending@;
        let mut i: usize = 0;
        while i < self.pending.len()
            invariant
                s0 == self.pending@,
                s0 == old(self)@,
                keys_unique(s0),
                self.delay == old(self).delay,
                i <= s0.len(),
                forall|k: int| 0 <= k < i ==> s0[k].due > now,
            decreases s0.len() - i,
        {
            if self.pending[i].due <= now {
                let p = self.pending.remove(i);
                let ghost s1 = self.pending@;
                proof {
                    assert(holds(s0, p.key@, p.action, p.due));
                    assert(p.due <= now);
                    assert(exists|d: u64| d <= now && holds(s0, p.key@, p.action, d));
                    assert(!(forall|k: int| 0 <= k < s0.len() ==> s0[k].due > now));
                    assert forall|a: int, b: int|
                        0 <= a < s1.len() && 0 <= b < s1.len() && a != b
                        implies s1[a].key@ != s1[b].key@ by {
                        let oa = if a < i { a } else { a + 1 };
                        let ob = if b < i { b } else { b + 1 };
                        assert(s1[a] == s0[oa]);
                        assert(s1[b] == s0[ob]);
                    }
                    assert(p == s0[i as int]);
                    if has_key(s1, p.key@) {
                        let a = choose|a: int| 0 <= a < s1.len() && s1[a].key@ == p.key@;
                        let oa = if a < i { a } else { a + 1 };
                        assert(s1[a] == s0[oa]);
                        assert(s0[oa].key@ == s0[i as int].key@);
                        assert(false);
                    }
                    assert forall|k2: Seq<char>, x2: A, d2: u64| k2 != p.key@ implies
                        (holds(s1, k2, x2, d2) <==> holds(s0, k2, x2, d2)) by {
                        if holds(s1, k2, x2, d2) {
                            let a = choose|a: int| 0 <= a < s1.len() && s1[a].key@ == k2 && s1[a].action == x2 && s1[a].due == d2;
                            let oa = if a < i { a } else { a + 1 };
                            assert(s1[a] == s0[oa]);
                        }
                        if holds(s0, k2, x2, d2) {
                            let a = choose|a: int| 0 <= a < s0.len() && s0[a].key@ == k2 && s0[a].action == x2 && s0[a].due == d2;
                            assert(a != i);
                            let na = if a < i { a } else { a - 1 };
                            assert(s1[na] == s0[a]);
                        }
                    }
                }
                assert(popped(s0, s1, p.key@, p.action, now));
                return Some((p.key, p.action));
            }
            i = i + 1;
        }
        None
    }
}

} // verus!
