//! Snapshots: one immutable observation of all currently known devices.
//!
//! A snapshot never holds two records with the same address; builders
//! establish that invariant and every operation here preserves it. The
//! module also owns the spec-level vocabulary (address membership, the
//! record at an address, set equality of record sequences) that the
//! reconciliation contracts are phrased in.

use vstd::prelude::*;

use crate::device::{BluetoothInfo, RecordView};

verus! {

/// Whether some record in `v` carries address `a`.
pub open spec fn has_addr(v: Seq<RecordView>, a: u64) -> bool {
    exists|i: int| 0 <= i < v.len() && #[trigger] v[i].address == a
}

/// The index of the record with address `a` (meaningful when `has_addr`
/// holds and addresses are unique).
pub open spec fn idx_of(v: Seq<RecordView>, a: u64) -> int {
    choose|i: int| 0 <= i < v.len() && #[trigger] v[i].address == a
}

/// The record with address `a`.
pub open spec fn rec_at(v: Seq<RecordView>, a: u64) -> RecordView {
    v[idx_of(v, a)]
}

/// No two records share an address.
pub open spec fn uniq_addrs(v: Seq<RecordView>) -> bool {
    forall|i: int, j: int|
        0 <= i < j < v.len() ==> #[trigger] v[i].address != #[trigger] v[j].address
}

/// Every record is well-formed.
pub open spec fn all_wf(v: Seq<RecordView>) -> bool {
    forall|i: int| 0 <= i < v.len() ==> (#[trigger] v[i]).wf()
}

/// The two sequences hold the same records, ignoring order and
/// multiplicity: structural set equality.
pub open spec fn set_eq(v: Seq<RecordView>, w: Seq<RecordView>) -> bool {
    &&& forall|i: int| 0 <= i < v.len() ==> w.contains(#[trigger] v[i])
    &&& forall|i: int| 0 <= i < w.len() ==> v.contains(#[trigger] w[i])
}

/// With unique addresses, the record at index `i` is exactly the record
/// looked up by its own address.
pub proof fn lemma_rec_at_self(v: Seq<RecordView>, i: int)
    requires
        uniq_addrs(v),
        0 <= i < v.len(),
    ensures
        has_addr(v, v[i].address),
        idx_of(v, v[i].address) == i,
        rec_at(v, v[i].address) == v[i],
{
    let a = v[i].address;
    assert(has_addr(v, a));
    let j = idx_of(v, a);
    assert(0 <= j < v.len() && v[j].address == a);
    if i < j {
        assert(v[i].address != v[j].address);
    } else if j < i {
        assert(v[j].address != v[i].address);
    }
}

/// An immutable set of device records, unique by address.
#[derive(Debug)]
pub struct Snapshot {
    devices: Vec<BluetoothInfo>,
}

impl View for Snapshot {
    type V = Seq<RecordView>;

    closed spec fn view(&self) -> Seq<RecordView> {
        self.devices@.map_values(|d: BluetoothInfo| d@)
    }
}

impl Clone for Snapshot {
    fn clone(&self) -> (r: Self)
        ensures
            r@ == self@,
    {
        let devices = self.devices.clone();
        proof {
            assert forall|j: int| 0 <= j < devices@.len() implies devices@[j]@
                == self.devices@[j]@ by {
                assert(vstd::pervasive::cloned::<BluetoothInfo>(self.devices@[j], devices@[j]));
            }
            assert(devices@.map_values(|d: BluetoothInfo| d@) =~= self@);
        }
        Snapshot { devices }
    }
}

impl Snapshot {
    /// Unique addresses, well-formed records.
    pub open spec fn wf(self) -> bool {
        &&& uniq_addrs(self@)
        &&& all_wf(self@)
    }

    /// The empty snapshot.
    pub fn new() -> (r: Snapshot)
        ensures
            r@ == Seq::<RecordView>::empty(),
            r.wf(),
    {
        proof {
            assert(Seq::<BluetoothInfo>::empty().map_values(|d: BluetoothInfo| d@)
                =~= Seq::<RecordView>::empty());
        }
        Snapshot { devices: Vec::new() }
    }

    pub fn len(&self) -> (r: usize)
        ensures
            r == self@.len(),
    {
        self.devices.len()
    }

    pub fn is_empty(&self) -> (r: bool)
        ensures
            r == (self@.len() == 0),
    {
        self.devices.len() == 0
    }

    /// The record at position `i`.
    pub fn get(&self, i: usize) -> (r: &BluetoothInfo)
        requires
            i < self@.len(),
        ensures
            r@ == self@[i as int],
    {
        &self.devices[i]
    }

    /// The record carrying `address`, if one is present.
    pub fn find_by_address(&self, address: u64) -> (r: Option<&BluetoothInfo>)
        requires
            self.wf(),
        ensures
            match r {
                Some(rec) => has_addr(self@, address) && rec@ == rec_at(self@, address),
                None => !has_addr(self@, address),
            },
    {
        let mut i: usize = 0;
        while i < self.devices.len()
            invariant
                self.wf(),
                i <= self@.len(),
                forall|j: int| 0 <= j < i ==> self@[j].address != address,
            decreases self.devices.len() - i,
        {
            if self.devices[i].address == address {
                proof {
                    lemma_rec_at_self(self@, i as int);
                }
                return Some(&self.devices[i]);
            }
            i += 1;
        }
        None
    }

    pub fn contains_address(&self, address: u64) -> (r: bool)
        requires
            self.wf(),
        ensures
            r == has_addr(self@, address),
    {
        self.find_by_address(address).is_some()
    }

    /// Whether some record of the snapshot agrees with `rec` in every field.
    pub fn contains_record(&self, rec: &BluetoothInfo) -> (r: bool)
        ensures
            r == self@.contains(rec@),
    {
        let mut i: usize = 0;
        while i < self.devices.len()
            invariant
                i <= self@.len(),
                forall|j: int| 0 <= j < i ==> self@[j] != rec@,
            decreases self.devices.len() - i,
        {
            if self.devices[i].same_as(rec) {
                proof {
                    assert(self@[i as int] == rec@);
                }
                return true;
            }
            i += 1;
        }
        false
    }

    /// Whether the two snapshots hold the same records as sets; this is
    /// exactly the condition under which the structural differences in both
    /// directions are empty.
    pub fn same_records(&self, other: &Snapshot) -> (r: bool)
        ensures
            r == set_eq(self@, other@),
    {
        let mut i: usize = 0;
        while i < self.devices.len()
            invariant
                i <= self@.len(),
                forall|j: int| 0 <= j < i ==> other@.contains(#[trigger] self@[j]),
            decreases self.devices.len() - i,
        {
            proof {
                assert(self@[i as int] == self.devices@[i as int]@);
            }
            if !other.contains_record(&self.devices[i]) {
                return false;
            }
            i += 1;
        }
        let mut k: usize = 0;
        while k < other.devices.len()
            invariant
                k <= other@.len(),
                forall|j: int| 0 <= j < self@.len() ==> other@.contains(#[trigger] self@[j]),
                forall|j: int| 0 <= j < k ==> self@.contains(#[trigger] other@[j]),
            decreases other.devices.len() - k,
        {
            proof {
                assert(other@[k as int] == other.devices@[k as int]@);
            }
            if !self.contains_record(&other.devices[k]) {
                return false;
            }
            k += 1;
        }
        true
    }

    /// Append a record whose address is not present yet.
    pub fn push_new(&mut self, rec: BluetoothInfo)
        requires
            old(self).wf(),
            rec.wf(),
            !has_addr(old(self)@, rec.address),
        ensures
            final(self)@ == old(self)@.push(rec@),
            final(self).wf(),
    {
        let ghost prev = self@;
        self.devices.push(rec);
        proof {
            assert(self@ =~= prev.push(rec@));
        }
    }

    /// Replace the record carrying the same address, or append the record
    /// if its address is new: the single-device delta path through which a
    /// live-watch update reaches the canonical snapshot.
    pub fn apply_delta(&mut self, rec: BluetoothInfo)
        requires
            old(self).wf(),
            rec.wf(),
        ensures
            final(self).wf(),
            has_addr(final(self)@, rec.address),
            rec_at(final(self)@, rec.address) == rec@,
            // every other address keeps exactly its old record
            forall|a: u64|
                a != rec.address ==> has_addr(final(self)@, a) == has_addr(old(self)@, a),
            forall|a: u64|
                a != rec.address && has_addr(old(self)@, a) ==> rec_at(final(self)@, a) == rec_at(
                    old(self)@,
                    a,
                ),
    {
        let mut i: usize = 0;
        while i < self.devices.len()
            invariant
                self@ == old(self)@,
                old(self).wf(),
                rec.wf(),
                i <= self@.len(),
                forall|j: int| 0 <= j < i ==> self@[j].address != rec.address,
            decreases self.devices.len() - i,
        {
            if self.devices[i].address == rec.address {
                let ghost prev = self@;
                proof {
                    assert(prev[i as int] == self.devices@[i as int]@);
                }
                self.devices.remove(i);
                self.devices.push(rec);
                proof {
                    let now = self@;
                    assert(now =~= prev.remove(i as int).push(rec@));
                    lemma_remove_push_keeps(prev, i as int, rec@);
                }
                return ;
            }
            i += 1;
        }
        let ghost prev = self@;
        self.devices.push(rec);
        proof {
            let now = self@;
            assert(now =~= prev.push(rec@));
            assert forall|p: int, q: int| 0 <= p < q < now.len() implies #[trigger] now[p].address
                != #[trigger] now[q].address by {
                if q == now.len() - 1 {
                    assert(now[p] == prev[p]);
                } else {
                    assert(now[p] == prev[p]);
                    assert(now[q] == prev[q]);
                }
            }
            assert forall|a: u64| a != rec.address implies has_addr(now, a) == has_addr(
                prev,
                a,
            ) by {
                if has_addr(now, a) {
                    let j = idx_of(now, a);
                    assert(now[j] == prev[j]);
                }
                if has_addr(prev, a) {
                    let j = idx_of(prev, a);
                    assert(now[j] == prev[j]);
                    assert(has_addr(now, a));
                }
            }
            assert forall|a: u64| a != rec.address && has_addr(prev, a) implies rec_at(now, a)
                == rec_at(prev, a) by {
                let j = idx_of(prev, a);
                assert(prev[j].address == a);
                assert(now[j] == prev[j]);
                assert(has_addr(now, a));
                let k = idx_of(now, a);
                assert(now[k].address == a);
                assert(now[k] == prev[k]);
                if j < k {
                    assert(prev[j].address != prev[k].address);
                } else if k < j {
                    assert(prev[k].address != prev[j].address);
                }
            }
            assert forall|k: int| 0 <= k < now.len() implies (#[trigger] now[k]).wf() by {
                if k < now.len() - 1 {
                    assert(now[k] == prev[k]);
                }
            }
            lemma_rec_at_self(now, now.len() - 1);
        }
    }
}

impl Snapshot {
    /// Take the record carrying `address` out of the snapshot, handing it
    /// back; every other record stays.
    pub fn remove_by_address(&mut self, address: u64) -> (r: Option<BluetoothInfo>)
        requires
            old(self).wf(),
        ensures
            final(self).wf(),
            match r {
                Some(rec) => has_addr(old(self)@, address) && rec@ == rec_at(old(self)@, address)
                    && !has_addr(final(self)@, address),
                None => !has_addr(old(self)@, address) && final(self)@ == old(self)@,
            },
            forall|a: u64|
                a != address ==> has_addr(final(self)@, a) == has_addr(old(self)@, a),
            forall|a: u64|
                a != address && has_addr(old(self)@, a) ==> rec_at(final(self)@, a) == rec_at(
                    old(self)@,
                    a,
                ),
    {
        let mut i: usize = 0;
        while i < self.devices.len()
            invariant
                self@ == old(self)@,
                old(self).wf(),
                i <= self@.len(),
                forall|j: int| 0 <= j < i ==> self@[j].address != address,
            decreases self.devices.len() - i,
        {
            if self.devices[i].address == address {
                let ghost prev = self@;
                proof {
                    assert(prev[i as int] == self.devices@[i as int]@);
                    lemma_rec_at_self(prev, i as int);
                }
                let rec = self.devices.remove(i);
                proof {
                    let now = self@;
                    assert(now =~= prev.remove(i as int));
                    lemma_removal_keeps(prev, i as int);
                }
                return Some(rec);
            }
            i += 1;
        }
        None
    }
}

/// Removing one record keeps uniqueness and well-formedness, frees its
/// address, and leaves every other address looking up its old record.
proof fn lemma_removal_keeps(prev: Seq<RecordView>, i: int)
    requires
        uniq_addrs(prev),
        all_wf(prev),
        0 <= i < prev.len(),
    ensures
        uniq_addrs(prev.remove(i)),
        all_wf(prev.remove(i)),
        !has_addr(prev.remove(i), prev[i].address),
        forall|a: u64|
            a != prev[i].address ==> has_addr(prev.remove(i), a) == has_addr(prev, a),
        forall|a: u64|
            a != prev[i].address && has_addr(prev, a) ==> rec_at(prev.remove(i), a) == rec_at(
                prev,
                a,
            ),
{
    let now = prev.remove(i);
    assert forall|p: int, q: int| 0 <= p < q < now.len() implies #[trigger] now[p].address
        != #[trigger] now[q].address by {
        let op = if p < i {
            p
        } else {
            p + 1
        };
        let oq = if q < i {
            q
        } else {
            q + 1
        };
        assert(now[p] == prev[op]);
        assert(now[q] == prev[oq]);
        assert(op < oq);
    }
    assert forall|k: int| 0 <= k < now.len() implies (#[trigger] now[k]).wf() by {
        let ok = if k < i {
            k
        } else {
            k + 1
        };
        assert(now[k] == prev[ok]);
    }
    assert forall|k: int| 0 <= k < now.len() implies #[trigger] now[k].address
        != prev[i].address by {
        let ok = if k < i {
            k
        } else {
            k + 1
        };
        assert(now[k] == prev[ok]);
        assert(ok != i);
        if ok < i {
            assert(prev[ok].address != prev[i].address);
        } else {
            assert(prev[i].address != prev[ok].address);
        }
    }
    assert forall|a: u64| a != prev[i].address implies has_addr(now, a) == has_addr(prev, a) by {
        if has_addr(now, a) {
            let j = idx_of(now, a);
            let oj = if j < i {
                j
            } else {
                j + 1
            };
            assert(prev[oj] == now[j]);
            assert(has_addr(prev, a));
        }
        if has_addr(prev, a) {
            let j = idx_of(prev, a);
            assert(0 <= j < prev.len() && prev[j].address == a);
            assert(j != i);
            let nj = if j < i {
                j
            } else {
                j - 1
            };
            assert(now[nj] == prev[j]);
            assert(has_addr(now, a));
        }
    }
    assert forall|a: u64| a != prev[i].address && has_addr(prev, a) implies rec_at(now, a)
        == rec_at(prev, a) by {
        let j = idx_of(prev, a);
        assert(prev[j].address == a);
        assert(j != i);
        let nj = if j < i {
            j
        } else {
            j - 1
        };
        assert(now[nj] == prev[j]);
        assert(has_addr(now, a));
        let k = idx_of(now, a);
        assert(now[k].address == a);
        let ok = if k < i {
            k
        } else {
            k + 1
        };
        assert(now[k] == prev[ok]);
        if j < ok {
            assert(prev[j].address != prev[ok].address);
        } else if ok < j {
            assert(prev[ok].address != prev[j].address);
        }
    }
}

/// Removing index `i` and appending a fresh record with a unique address
/// keeps uniqueness and leaves every other address looking up its old
/// record, provided the removed record carried the new record's address.
proof fn lemma_remove_push_keeps(prev: Seq<RecordView>, i: int, rec: RecordView)
    requires
        uniq_addrs(prev),
        all_wf(prev),
        rec.wf(),
        0 <= i < prev.len(),
        prev[i].address == rec.address,
    ensures
        uniq_addrs(prev.remove(i).push(rec)),
        all_wf(prev.remove(i).push(rec)),
        has_addr(prev.remove(i).push(rec), rec.address),
        rec_at(prev.remove(i).push(rec), rec.address) == rec,
        forall|a: u64|
            a != rec.address ==> has_addr(prev.remove(i).push(rec), a) == has_addr(prev, a),
        forall|a: u64|
            a != rec.address && has_addr(prev, a) ==> rec_at(prev.remove(i).push(rec), a) == rec_at(
                prev,
                a,
            ),
{
    let now = prev.remove(i).push(rec);
    assert forall|p: int, q: int| 0 <= p < q < now.len() implies #[trigger] now[p].address
        != #[trigger] now[q].address by {
        let op = if p < i {
            p
        } else {
            p + 1
        };
        if q == now.len() - 1 {
            // now[q] is rec; now[p] is a survivor of prev other than index i
            assert(now[p] == prev[op]);
            assert(op != i);
            if op < i {
                assert(prev[op].address != prev[i].address);
            } else {
                assert(prev[i].address != prev[op].address);
            }
        } else {
            let oq = if q < i {
                q
            } else {
                q + 1
            };
            assert(now[p] == prev[op]);
            assert(now[q] == prev[oq]);
            assert(op < oq);
        }
    }
    lemma_rec_at_self(now, now.len() - 1);
    assert forall|a: u64| a != rec.address implies has_addr(now, a) == has_addr(prev, a) by {
        if has_addr(now, a) {
            let j = idx_of(now, a);
            if j < now.len() - 1 {
                let oj = if j < i {
                    j
                } else {
                    j + 1
                };
                assert(prev[oj] == now[j]);
                assert(has_addr(prev, a));
            }
        }
        if has_addr(prev, a) {
            let j = idx_of(prev, a);
            assert(0 <= j < prev.len() && prev[j].address == a);
            assert(j != i);
            let nj = if j < i {
                j
            } else {
                j - 1
            };
            assert(now[nj] == prev[j]);
            assert(has_addr(now, a));
        }
    }
    assert forall|a: u64| a != rec.address && has_addr(prev, a) implies rec_at(now, a) == rec_at(
        prev,
        a,
    ) by {
        let j = idx_of(prev, a);
        assert(prev[j].address == a);
        assert(j != i);
        let nj = if j < i {
            j
        } else {
            j - 1
        };
        assert(now[nj] == prev[j]);
        assert(has_addr(now, a));
        let k = idx_of(now, a);
        assert(now[k].address == a);
        let ok = if k < i {
            k
        } else {
            k + 1
        };
        assert(now[k] == prev[ok]);
        if j < ok {
            assert(prev[j].address != prev[ok].address);
        } else if ok < j {
            assert(prev[ok].address != prev[j].address);
        }
    }
    assert forall|k: int| 0 <= k < now.len() implies (#[trigger] now[k]).wf() by {
        if k < now.len() - 1 {
            let ok = if k < i {
                k
            } else {
                k + 1
            };
            assert(now[k] == prev[ok]);
        }
    }
}

} // verus!
