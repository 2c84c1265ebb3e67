//! The "already alerted" bookkeeping behind low-battery hysteresis.
//!
//! For each address the set holds a flag: `true` while the device has been
//! alerted for a sub-threshold battery and the battery has not recovered
//! since. The reconciliation engine raises the flag when it fires a
//! low-battery notification and clears it when the battery recovers at or
//! above the threshold, so one excursion below the threshold fires exactly
//! one notification however many polls observe it.

use vstd::prelude::*;

verus! {

/// Whether `v` holds a raised entry for key `a`.
pub open spec fn raised(v: Seq<(u64, bool)>, a: u64) -> bool {
    exists|i: int| 0 <= i < v.len() && #[trigger] v[i] == (a, true)
}

/// No two entries share a key.
pub open spec fn uniq_keys(v: Seq<(u64, bool)>) -> bool {
    forall|i: int, j: int| 0 <= i < j < v.len() ==> (#[trigger] v[i]).0 != (#[trigger] v[j]).0
}

/// Mapping from address to a "currently alerted" flag; an absent entry
/// counts as a cleared flag.
pub struct NotifiedLowBatterySet {
    entries: Vec<(u64, bool)>,
}

impl View for NotifiedLowBatterySet {
    type V = Seq<(u64, bool)>;

    closed spec fn view(&self) -> Seq<(u64, bool)> {
        self.entries@
    }
}

impl NotifiedLowBatterySet {
    pub open spec fn wf(self) -> bool {
        uniq_keys(self@)
    }

    /// The flag of address `a`: raised exactly when a raised entry for `a`
    /// is present.
    pub open spec fn flag(self, a: u64) -> bool {
        raised(self@, a)
    }

    /// The empty set: no address is alerted.
    pub fn new() -> (r: NotifiedLowBatterySet)
        ensures
            r.wf(),
            forall|a: u64| !r.flag(a),
    {
        NotifiedLowBatterySet { entries: Vec::new() }
    }

    /// Whether address `a` is currently alerted.
    pub fn is_alerted(&self, a: u64) -> (r: bool)
        requires
            self.wf(),
        ensures
            r == self.flag(a),
    {
        let mut i: usize = 0;
        while i < self.entries.len()
            invariant
                i <= self@.len(),
                forall|j: int| 0 <= j < i ==> #[trigger] self@[j] != (a, true),
            decreases self.entries.len() - i,
        {
            let e = self.entries[i];
            if e.0 == a && e.1 {
                proof {
                    assert(self@[i as int] == (a, true));
                }
                return true;
            }
            i += 1;
        }
        false
    }

    /// Record that address `a` has been alerted; every other flag is kept.
    pub fn set_alerted(&mut self, a: u64)
        requires
            old(self).wf(),
        ensures
            final(self).wf(),
            final(self).flag(a),
            forall|b: u64| b != a ==> final(self).flag(b) == old(self).flag(b),
    {
        self.put(a, true);
    }

    /// Clear the flag of address `a` (the entry stays, allowing a future
    /// excursion below the threshold to alert again); every other flag is
    /// kept. Safe to call whether or not the address was alerted.
    pub fn clear_alerted(&mut self, a: u64)
        requires
            old(self).wf(),
        ensures
            final(self).wf(),
            !final(self).flag(a),
            forall|b: u64| b != a ==> final(self).flag(b) == old(self).flag(b),
    {
        self.put(a, false);
    }

    /// Store `flag` for address `a`, replacing any earlier entry.
    fn put(&mut self, a: u64, flag: bool)
        requires
            old(self).wf(),
        ensures
            final(self).wf(),
            final(self).flag(a) == flag,
            forall|b: u64| b != a ==> final(self).flag(b) == old(self).flag(b),
    {
        let mut i: usize = 0;
        while i < self.entries.len()
            invariant
                self@ == old(self)@,
                old(self).wf(),
                i <= self@.len(),
                forall|j: int| 0 <= j < i ==> (#[trigger] self@[j]).0 != a,
            decreases self.entries.len() - i,
        {
            if self.entries[i].0 == a {
                let ghost prev = self@;
                self.entries.remove(i);
                self.entries.push((a, flag));
                proof {
                    let now = self@;
                    assert(now =~= prev.remove(i as int).push((a, flag)));
                    lemma_entry_replaced(prev, i as int, (a, flag));
                }
                return ;
            }
            i += 1;
        }
        let ghost prev = self@;
        self.entries.push((a, flag));
        proof {
            let now = self@;
            assert(now =~= prev.push((a, flag)));
            assert(now[now.len() - 1] == (a, flag));
            assert forall|p: int, q: int| 0 <= p < q < now.len() implies (#[trigger] now[p]).0 != (
            #[trigger] now[q]).0 by {
                if q == now.len() - 1 {
                    assert(now[p] == prev[p]);
                } else {
                    assert(now[p] == prev[p]);
                    assert(now[q] == prev[q]);
                }
            }
            assert forall|b: u64| b != a implies self.flag(b) == old(self).flag(b) by {
                if old(self).flag(b) {
                    let j = choose|j: int| 0 <= j < prev.len() && #[trigger] prev[j] == (b, true);
                    assert(now[j] == (b, true));
                }
                if self.flag(b) {
                    let j = choose|j: int| 0 <= j < now.len() && #[trigger] now[j] == (b, true);
                    assert(prev[j] == (b, true));
                }
            }
            if flag {
                assert(self.flag(a));
            } else {
                assert forall|j: int| 0 <= j < now.len() implies #[trigger] now[j] != (
                a,
                true,
                ) by {
                    if j < now.len() - 1 {
                        assert(now[j] == prev[j]);
                    }
                }
            }
        }
    }
}

/// Replacing the only entry with key `e.0` keeps key uniqueness, gives the
/// key exactly the new flag, and leaves every other key's flag alone.
proof fn lemma_entry_replaced(prev: Seq<(u64, bool)>, i: int, e: (u64, bool))
    requires
        uniq_keys(prev),
        0 <= i < prev.len(),
        prev[i].0 == e.0,
    ensures
        uniq_keys(prev.remove(i).push(e)),
        (exists|j: int|
            0 <= j < prev.remove(i).push(e).len() && #[trigger] prev.remove(i).push(e)[j] == (
            e.0,
            true,
            )) == e.1,
        forall|b: u64|
            b != e.0 ==> #[trigger] raised(prev.remove(i).push(e), b) == raised(prev, b),
{
    let now = prev.remove(i).push(e);
    assert(now[now.len() - 1] == e);
    assert forall|p: int, q: int| 0 <= p < q < now.len() implies (#[trigger] now[p]).0 != (
    #[trigger] now[q]).0 by {
        let op = if p < i {
            p
        } else {
            p + 1
        };
        assert(now[p] == prev[op]);
        if q == now.len() - 1 {
            assert(op != i);
            if op < i {
                assert(prev[op].0 != prev[i].0);
            } else {
                assert(prev[i].0 != prev[op].0);
            }
        } else {
            let oq = if q < i {
                q
            } else {
                q + 1
            };
            assert(now[q] == prev[oq]);
            assert(op < oq);
        }
    }
    if e.1 {
        assert(now[now.len() - 1] == (e.0, true));
    } else {
        assert forall|j: int| 0 <= j < now.len() implies #[trigger] now[j] != (e.0, true) by {
            if j < now.len() - 1 {
                let oj = if j < i {
                    j
                } else {
                    j + 1
                };
                assert(now[j] == prev[oj]);
                if oj != i {
                    if oj < i {
                        assert(prev[oj].0 != prev[i].0);
                    } else {
                        assert(prev[i].0 != prev[oj].0);
                    }
                }
            }
        }
    }
    assert forall|b: u64| b != e.0 implies #[trigger] raised(now, b) == raised(prev, b) by {
        if raised(now, b) {
            let j = choose|j: int| 0 <= j < now.len() && #[trigger] now[j] == (b, true);
            assert(j < now.len() - 1);
            let oj = if j < i {
                j
            } else {
                j + 1
            };
            assert(prev[oj] == now[j]);
            assert(raised(prev, b));
        }
        if raised(prev, b) {
            let j = choose|j: int| 0 <= j < prev.len() && #[trigger] prev[j] == (b, true);
            assert(j != i);
            let nj = if j < i {
                j
            } else {
                j - 1
            };
            assert(now[nj] == prev[j]);
        }
    }
}

} // verus!
