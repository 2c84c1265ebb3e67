//! The reconciliation engine: diff two snapshots, classify every
//! difference into a typed event, and apply low-battery hysteresis.
//!
//! One pass compares the previous and the current snapshot address by
//! address. An address only in the current snapshot is an added device; one
//! only in the previous snapshot is a removed device; an address in both
//! whose connection status flipped reconnected or disconnected; one whose
//! battery reading changed is run through the hysteresis bookkeeping and
//! fires a low-battery event at most once per excursion below the
//! threshold. Which events may fire at all is gated by `NotifyOptions`.
//!
//! The contract of a pass is `report_ok`: every emitted event is owed
//! (`event_owed`), every owed event is emitted, no event is emitted twice,
//! and the alerted flags afterwards are exactly `flag_after`.

use vstd::prelude::*;

use crate::config::{Config, NotifyOptions};
use crate::device::{BluetoothInfo, RecordView};
use crate::notified::NotifiedLowBatterySet;
use crate::snapshot::{Snapshot, has_addr, idx_of, lemma_rec_at_self, rec_at, set_eq, uniq_addrs};

verus! {

/// One classified difference between two snapshots, carrying the record it
/// is about (the current one, except for a removed device, where only the
/// previous record exists).
#[derive(Debug)]
pub enum DeviceEvent {
    Added(BluetoothInfo),
    Removed(BluetoothInfo),
    Reconnected(BluetoothInfo),
    Disconnected(BluetoothInfo),
    LowBattery(BluetoothInfo),
}

/// Mathematical image of a `DeviceEvent`.
pub ghost enum EventView {
    Added(RecordView),
    Removed(RecordView),
    Reconnected(RecordView),
    Disconnected(RecordView),
    LowBattery(RecordView),
}

impl View for DeviceEvent {
    type V = EventView;

    open spec fn view(&self) -> EventView {
        match self {
            DeviceEvent::Added(r) => EventView::Added(r@),
            DeviceEvent::Removed(r) => EventView::Removed(r@),
            DeviceEvent::Reconnected(r) => EventView::Reconnected(r@),
            DeviceEvent::Disconnected(r) => EventView::Disconnected(r@),
            DeviceEvent::LowBattery(r) => EventView::LowBattery(r@),
        }
    }
}

/// The record an event carries.
pub open spec fn ev_rec(ev: EventView) -> RecordView {
    match ev {
        EventView::Added(r) => r,
        EventView::Removed(r) => r,
        EventView::Reconnected(r) => r,
        EventView::Disconnected(r) => r,
        EventView::LowBattery(r) => r,
    }
}

/// The address an event is about.
pub open spec fn ev_addr(ev: EventView) -> u64 {
    ev_rec(ev).address
}

/// The views of a list of events.
pub open spec fn event_views(s: Seq<DeviceEvent>) -> Seq<EventView> {
    s.map_values(|e: DeviceEvent| e@)
}

/// Address present in both snapshots.
pub open spec fn paired(p: Seq<RecordView>, c: Seq<RecordView>, a: u64) -> bool {
    has_addr(p, a) && has_addr(c, a)
}

/// Exactly when one pass fires a low-battery notification for address `a`:
/// the device is in both snapshots, its battery reading changed, the new
/// reading is below the threshold, and the address is not already alerted.
pub open spec fn fires_low_battery(
    p: Seq<RecordView>,
    c: Seq<RecordView>,
    threshold: u8,
    n0: NotifiedLowBatterySet,
    a: u64,
) -> bool {
    &&& paired(p, c, a)
    &&& rec_at(p, a).battery != rec_at(c, a).battery
    &&& rec_at(c, a).battery < threshold
    &&& !n0.flag(a)
}

/// Exactly when an event is owed by one pass from `p` to `c`, given the
/// enabled notifications and the alerted flags going in.
pub open spec fn event_owed(
    p: Seq<RecordView>,
    c: Seq<RecordView>,
    opts: NotifyOptions,
    n0: NotifiedLowBatterySet,
    ev: EventView,
) -> bool {
    match ev {
        EventView::Added(r) => {
            &&& opts.added
            &&& has_addr(c, r.address)
            &&& !has_addr(p, r.address)
            &&& r == rec_at(c, r.address)
        },
        EventView::Removed(r) => {
            &&& opts.removed
            &&& has_addr(p, r.address)
            &&& !has_addr(c, r.address)
            &&& r == rec_at(p, r.address)
        },
        EventView::Reconnected(r) => {
            &&& opts.reconnection
            &&& paired(p, c, r.address)
            &&& !rec_at(p, r.address).status
            &&& rec_at(c, r.address).status
            &&& r == rec_at(c, r.address)
        },
        EventView::Disconnected(r) => {
            &&& opts.disconnection
            &&& paired(p, c, r.address)
            &&& rec_at(p, r.address).status
            &&& !rec_at(c, r.address).status
            &&& r == rec_at(c, r.address)
        },
        EventView::LowBattery(r) => {
            &&& fires_low_battery(p, c, opts.low_battery, n0, r.address)
            &&& r == rec_at(c, r.address)
        },
    }
}

/// The alerted flag of address `a` after one pass: re-evaluated against the
/// threshold whenever the device is in both snapshots and its battery
/// reading changed, kept as it was otherwise. Raising happens on the
/// crossing that fires the event; recovery at or above the threshold
/// clears the flag so a later excursion can fire again.
pub open spec fn flag_after(
    p: Seq<RecordView>,
    c: Seq<RecordView>,
    threshold: u8,
    n0: NotifiedLowBatterySet,
    a: u64,
) -> bool {
    if paired(p, c, a) && rec_at(p, a).battery != rec_at(c, a).battery {
        rec_at(c, a).battery < threshold
    } else {
        n0.flag(a)
    }
}

/// The whole contract of one reconciliation pass: the emitted events are
/// exactly the owed ones, each once, and the alerted flags are updated
/// address by address.
pub open spec fn report_ok(
    p: Seq<RecordView>,
    c: Seq<RecordView>,
    opts: NotifyOptions,
    n0: NotifiedLowBatterySet,
    n1: NotifiedLowBatterySet,
    evs: Seq<EventView>,
) -> bool {
    &&& forall|i: int| 0 <= i < evs.len() ==> event_owed(p, c, opts, n0, #[trigger] evs[i])
    &&& forall|ev: EventView| #[trigger] event_owed(p, c, opts, n0, ev) ==> evs.contains(ev)
    &&& forall|i: int, j: int| 0 <= i < j < evs.len() ==> #[trigger] evs[i] != #[trigger] evs[j]
    &&& forall|a: u64| #[trigger] n1.flag(a) == flag_after(p, c, opts.low_battery, n0, a)
}

/// One reconciliation pass over two snapshots.
///
/// Returns the owed events (each exactly once, in no promised order) and
/// moves the alerted flags to their after-state. The canonical snapshot is
/// not touched here; `compare_bt_info_to_send_notifications` owns that.
pub fn reconcile(
    previous: &Snapshot,
    current: &Snapshot,
    notified: &mut NotifiedLowBatterySet,
    options: &NotifyOptions,
) -> (events: Vec<DeviceEvent>)
    requires
        previous.wf(),
        current.wf(),
        old(notified).wf(),
    ensures
        final(notified).wf(),
        report_ok(
            previous@,
            current@,
            *options,
            *old(notified),
            *final(notified),
            event_views(events@),
        ),
{
    let ghost p = previous@;
    let ghost c = current@;
    let ghost n0 = *old(notified);
    let mut events: Vec<DeviceEvent> = Vec::new();

    let mut i: usize = 0;
    while i < current.len()
        invariant
            previous.wf(),
            current.wf(),
            notified.wf(),
            p == previous@,
            c == current@,
            n0 == *old(notified),
            i <= c.len(),
            forall|k: int|
                0 <= k < event_views(events@).len() ==> event_owed(
                    p,
                    c,
                    *options,
                    n0,
                    #[trigger] event_views(events@)[k],
                ),
            forall|k: int|
                0 <= k < event_views(events@).len() ==> !(#[trigger] event_views(events@)[k]
                    is Removed) && has_addr(c, ev_addr(event_views(events@)[k])) && idx_of(
                    c,
                    ev_addr(event_views(events@)[k]),
                ) < i,
            forall|k: int, l: int|
                0 <= k < l < event_views(events@).len() ==> #[trigger] event_views(events@)[k]
                    != #[trigger] event_views(events@)[l],
            forall|ev: EventView|
                #[trigger] event_owed(p, c, *options, n0, ev) && !(ev is Removed) && idx_of(
                    c,
                    ev_addr(ev),
                ) < i ==> event_views(events@).contains(ev),
            forall|a: u64|
                #[trigger] notified.flag(a) == (if has_addr(c, a) && idx_of(c, a) < i {
                    flag_after(p, c, options.low_battery, n0, a)
                } else {
                    n0.flag(a)
                }),
        decreases current@.len() - i,
    {
        let cur = current.get(i);
        let a = cur.address;
        proof {
            lemma_rec_at_self(c, i as int);
        }
        let ghost evs_entry = event_views(events@);
        match previous.find_by_address(a) {
            None => {
                if options.added {
                    events.push(DeviceEvent::Added(cur.clone()));
                    proof {
                        assert(event_views(events@) =~= evs_entry.push(
                            EventView::Added(rec_at(c, a)),
                        ));
                    }
                }
            },
            Some(old_rec) => {
                if old_rec.battery != cur.battery {
                    if cur.battery < options.low_battery {
                        if !notified.is_alerted(a) {
                            events.push(DeviceEvent::LowBattery(cur.clone()));
                            notified.set_alerted(a);
                            proof {
                                assert(event_views(events@) =~= evs_entry.push(
                                    EventView::LowBattery(rec_at(c, a)),
                                ));
                            }
                        }
                    } else {
                        notified.clear_alerted(a);
                    }
                }
                let ghost evs_mid = event_views(events@);
                if old_rec.status != cur.status {
                    if cur.status {
                        if options.reconnection {
                            events.push(DeviceEvent::Reconnected(cur.clone()));
                            proof {
                                assert(event_views(events@) =~= evs_mid.push(
                                    EventView::Reconnected(rec_at(c, a)),
                                ));
                            }
                        }
                    } else {
                        if options.disconnection {
                            events.push(DeviceEvent::Disconnected(cur.clone()));
                            proof {
                                assert(event_views(events@) =~= evs_mid.push(
                                    EventView::Disconnected(rec_at(c, a)),
                                ));
                            }
                        }
                    }
                }
            },
        }
        proof {
            let evs_now = event_views(events@);
            // Every event added this round is owed and is about address `a`.
            assert forall|k: int|
                evs_entry.len() <= k < evs_now.len() implies ev_addr(#[trigger] evs_now[k]) == a
                && !(evs_now[k] is Removed) && event_owed(p, c, *options, n0, evs_now[k]) by {}
            // Older events are untouched.
            assert forall|k: int| 0 <= k < evs_entry.len() implies #[trigger] evs_now[k]
                == evs_entry[k] by {}
            // No duplicates: old events are about other addresses, and the
            // at most two new ones use different constructors.
            assert forall|k: int, l: int|
                0 <= k < l < evs_now.len() implies #[trigger] evs_now[k]
                != #[trigger] evs_now[l] by {
                if k < evs_entry.len() && l >= evs_entry.len() {
                    assert(idx_of(c, ev_addr(evs_now[k])) < i);
                    assert(ev_addr(evs_now[k]) != a);
                }
            }
            // Completeness for address `a`: the owed events about it were
            // all pushed this round.
            assert forall|ev: EventView|
                #[trigger] event_owed(p, c, *options, n0, ev) && !(ev is Removed) && idx_of(
                    c,
                    ev_addr(ev),
                ) < i + 1 implies evs_now.contains(ev) by {
                if idx_of(c, ev_addr(ev)) < i {
                    let k = choose|k: int|
                        0 <= k < evs_entry.len() && #[trigger] evs_entry[k] == ev;
                    assert(evs_now[k] == ev);
                } else {
                    // ev is about c[i], that is address a; a battery event
                    // lands right after the events of earlier rounds, a
                    // status event last.
                    assert(c[idx_of(c, ev_addr(ev))].address == ev_addr(ev));
                    assert(ev_addr(ev) == a);
                    assert(ev_rec(ev) == rec_at(c, a));
                    if ev is Added {
                        assert(ev == EventView::Added(rec_at(c, a)));
                        assert(evs_now[evs_entry.len() as int] == ev);
                    } else if ev is LowBattery {
                        assert(ev == EventView::LowBattery(rec_at(c, a)));
                        assert(evs_now[evs_entry.len() as int] == ev);
                    } else if ev is Reconnected {
                        assert(ev == EventView::Reconnected(rec_at(c, a)));
                        assert(evs_now[evs_now.len() - 1] == ev);
                    } else {
                        assert(ev == EventView::Disconnected(rec_at(c, a)));
                        assert(evs_now[evs_now.len() - 1] == ev);
                    }
                    assert(evs_now.contains(ev));
                }
            }
        }
        i += 1;
    }

    proof {
        assert forall|a: u64| has_addr(c, a) implies idx_of(c, a) < c.len() by {}
        assert forall|a: u64| #[trigger] notified.flag(a) == flag_after(
            p,
            c,
            options.low_battery,
            n0,
            a,
        ) by {
            if !has_addr(c, a) {
                assert(!paired(p, c, a));
            }
        }
    }

    // Second sweep: previous records whose address vanished are removals.
    let ghost flags_done = *notified;
    let mut j: usize = 0;
    while j < previous.len()
        invariant
            previous.wf(),
            current.wf(),
            p == previous@,
            c == current@,
            n0 == *old(notified),
            *notified == flags_done,
            j <= p.len(),
            forall|k: int|
                0 <= k < event_views(events@).len() ==> event_owed(
                    p,
                    c,
                    *options,
                    n0,
                    #[trigger] event_views(events@)[k],
                ),
            forall|k: int|
                0 <= k < event_views(events@).len() ==> ((#[trigger] event_views(events@)[k]
                    is Removed) ==> !has_addr(c, ev_addr(event_views(events@)[k])) && has_addr(
                    p,
                    ev_addr(event_views(events@)[k]),
                ) && idx_of(p, ev_addr(event_views(events@)[k])) < j),
            forall|k: int|
                0 <= k < event_views(events@).len() ==> (!(#[trigger] event_views(events@)[k]
                    is Removed) ==> has_addr(c, ev_addr(event_views(events@)[k]))),
            forall|k: int, l: int|
                0 <= k < l < event_views(events@).len() ==> #[trigger] event_views(events@)[k]
                    != #[trigger] event_views(events@)[l],
            forall|ev: EventView|
                #[trigger] event_owed(p, c, *options, n0, ev) && !(ev is Removed)
                    ==> event_views(events@).contains(ev),
            forall|ev: EventView|
                #[trigger] event_owed(p, c, *options, n0, ev) && (ev is Removed) && idx_of(
                    p,
                    ev_addr(ev),
                ) < j ==> event_views(events@).contains(ev),
        decreases previous@.len() - j,
    {
        let prev_rec = previous.get(j);
        let a = prev_rec.address;
        proof {
            lemma_rec_at_self(p, j as int);
        }
        let ghost evs_entry = event_views(events@);
        if !current.contains_address(a) {
            if options.removed {
                events.push(DeviceEvent::Removed(prev_rec.clone()));
                proof {
                    assert(event_views(events@) =~= evs_entry.push(
                        EventView::Removed(rec_at(p, a)),
                    ));
                }
            }
        }
        proof {
            let evs_now = event_views(events@);
            assert forall|k: int| 0 <= k < evs_entry.len() implies #[trigger] evs_now[k]
                == evs_entry[k] by {}
            assert forall|k: int, l: int|
                0 <= k < l < evs_now.len() implies #[trigger] evs_now[k]
                != #[trigger] evs_now[l] by {
                if k < evs_entry.len() && l >= evs_entry.len() {
                    // the new event is a removal of address a, absent from c
                    if evs_entry[k] is Removed {
                        assert(idx_of(p, ev_addr(evs_now[k])) < j);
                        assert(ev_addr(evs_now[k]) != a);
                    } else {
                        assert(has_addr(c, ev_addr(evs_now[k])));
                        assert(ev_addr(evs_now[k]) != a);
                    }
                }
            }
            assert forall|ev: EventView|
                #[trigger] event_owed(p, c, *options, n0, ev) && (ev is Removed) && idx_of(
                    p,
                    ev_addr(ev),
                ) < j + 1 implies evs_now.contains(ev) by {
                if idx_of(p, ev_addr(ev)) < j {
                    let k = choose|k: int|
                        0 <= k < evs_entry.len() && #[trigger] evs_entry[k] == ev;
                    assert(evs_now[k] == ev);
                } else {
                    assert(p[idx_of(p, ev_addr(ev))].address == ev_addr(ev));
                    assert(ev_addr(ev) == a);
                    assert(ev == EventView::Removed(rec_at(p, a)));
                    assert(evs_now[evs_entry.len() as int] == ev);
                    assert(evs_now.contains(ev));
                }
            }
            assert forall|ev: EventView|
                #[trigger] event_owed(p, c, *options, n0, ev) && !(ev is Removed) implies evs_now
                .contains(ev) by {
                assert(evs_entry.contains(ev));
                let k = choose|k: int| 0 <= k < evs_entry.len() && #[trigger] evs_entry[k] == ev;
                assert(evs_now[k] == ev);
            }
        }
        j += 1;
    }

    proof {
        assert forall|a: u64| has_addr(p, a) implies idx_of(p, a) < p.len() by {}
    }
    events
}

/// What one reconciliation pass hands back to the caller: the classified
/// events and the snapshot that becomes canonical for the next round.
#[derive(Debug)]
pub struct ChangeReport {
    pub events: Vec<DeviceEvent>,
    pub snapshot: Snapshot,
}

/// Compare the canonical snapshot with a fresh one. When nothing
/// distinguishable changed — the two hold the same records — and no force
/// flag is set, the pass is skipped entirely and `None` says so. Otherwise
/// the snapshots are reconciled, the fresh snapshot becomes canonical, and
/// the report carries the owed events.
pub fn compare_bt_info_to_send_notifications(
    config: &Config,
    notified: &mut NotifiedLowBatterySet,
    old_bt_info: &mut Snapshot,
    new_bt_info: &Snapshot,
    force_update: bool,
) -> (r: Option<ChangeReport>)
    requires
        old(old_bt_info).wf(),
        new_bt_info.wf(),
        old(notified).wf(),
    ensures
        final(old_bt_info).wf(),
        final(notified).wf(),
        (r is None) == (set_eq(old(old_bt_info)@, new_bt_info@) && !force_update),
        r is None ==> final(old_bt_info)@ == old(old_bt_info)@ && *final(notified) == *old(
            notified,
        ),
        r matches Some(rep) ==> report_ok(
            old(old_bt_info)@,
            new_bt_info@,
            config.notify_options,
            *old(notified),
            *final(notified),
            event_views(rep.events@),
        ) && rep.snapshot@ == new_bt_info@ && final(old_bt_info)@ == new_bt_info@,
{
    if old_bt_info.same_records(new_bt_info) && !force_update {
        return None;
    }
    let events = reconcile(old_bt_info, new_bt_info, notified, &config.notify_options);
    let report_snapshot = new_bt_info.clone();
    *old_bt_info = new_bt_info.clone();
    Some(ChangeReport { events, snapshot: report_snapshot })
}

/// Two snapshots holding the same records agree address by address.
pub proof fn lemma_set_eq_same_lookup(p: Seq<RecordView>, c: Seq<RecordView>)
    requires
        uniq_addrs(p),
        uniq_addrs(c),
        set_eq(p, c),
    ensures
        forall|a: u64| #[trigger] has_addr(p, a) == has_addr(c, a),
        forall|a: u64| #[trigger] has_addr(p, a) ==> rec_at(p, a) == rec_at(c, a),
{
    assert forall|a: u64| #[trigger] has_addr(p, a) == has_addr(c, a) by {
        if has_addr(p, a) {
            let i = idx_of(p, a);
            assert(c.contains(p[i]));
            let j = choose|j: int| 0 <= j < c.len() && c[j] == p[i];
            assert(c[j].address == a);
            assert(has_addr(c, a));
        }
        if has_addr(c, a) {
            let i = idx_of(c, a);
            assert(p.contains(c[i]));
            let j = choose|j: int| 0 <= j < p.len() && p[j] == c[i];
            assert(p[j].address == a);
            assert(has_addr(p, a));
        }
    }
    assert forall|a: u64| #[trigger] has_addr(p, a) implies rec_at(p, a) == rec_at(c, a) by {
        let i = idx_of(p, a);
        assert(p[i].address == a);
        assert(c.contains(p[i]));
        let j = choose|j: int| 0 <= j < c.len() && c[j] == p[i];
        assert(c[j].address == a);
        assert(has_addr(c, a));
        let k = idx_of(c, a);
        if j < k {
            assert(c[j].address != c[k].address);
        } else if k < j {
            assert(c[k].address != c[j].address);
        }
    }
}

/// Law (idempotence): a reconciliation pass over two snapshots that hold
/// the same records — in particular, over one snapshot and itself — owes
/// no event and leaves every alerted flag as it was.
pub proof fn lemma_reconcile_idempotent(
    p: Seq<RecordView>,
    c: Seq<RecordView>,
    opts: NotifyOptions,
    n0: NotifiedLowBatterySet,
    n1: NotifiedLowBatterySet,
    evs: Seq<EventView>,
)
    requires
        uniq_addrs(p),
        uniq_addrs(c),
        set_eq(p, c),
        report_ok(p, c, opts, n0, n1, evs),
    ensures
        evs.len() == 0,
        forall|a: u64| #[trigger] n1.flag(a) == n0.flag(a),
{
    lemma_set_eq_same_lookup(p, c);
    if evs.len() > 0 {
        let ev = evs[0];
        assert(event_owed(p, c, opts, n0, ev));
        let a = ev_addr(ev);
        match ev {
            EventView::Added(r) => {
                assert(has_addr(p, a) == has_addr(c, a));
            },
            EventView::Removed(r) => {
                assert(has_addr(p, a) == has_addr(c, a));
            },
            EventView::Reconnected(r) => {
                assert(rec_at(p, a) == rec_at(c, a));
            },
            EventView::Disconnected(r) => {
                assert(rec_at(p, a) == rec_at(c, a));
            },
            EventView::LowBattery(r) => {
                assert(rec_at(p, a) == rec_at(c, a));
            },
        }
        assert(false);
    }
    assert forall|a: u64| #[trigger] n1.flag(a) == n0.flag(a) by {
        assert(n1.flag(a) == flag_after(p, c, opts.low_battery, n0, a));
        if paired(p, c, a) {
            assert(rec_at(p, a) == rec_at(c, a));
        }
    }
}

/// Address only in the current snapshot: a genuinely added device.
pub open spec fn added_addr(p: Seq<RecordView>, c: Seq<RecordView>, a: u64) -> bool {
    has_addr(c, a) && !has_addr(p, a)
}

/// Address only in the previous snapshot: a genuinely removed device.
pub open spec fn removed_addr(p: Seq<RecordView>, c: Seq<RecordView>, a: u64) -> bool {
    has_addr(p, a) && !has_addr(c, a)
}

/// Address in both snapshots whose record changed in some field: a
/// matched, updated device.
pub open spec fn updated_addr(p: Seq<RecordView>, c: Seq<RecordView>, a: u64) -> bool {
    paired(p, c, a) && rec_at(p, a) != rec_at(c, a)
}

/// Address of some record in the structural symmetric difference of the
/// two snapshots: a record of one that the other does not hold.
pub open spec fn sym_diff_addr(p: Seq<RecordView>, c: Seq<RecordView>, a: u64) -> bool {
    ||| exists|i: int| 0 <= i < p.len() && #[trigger] p[i].address == a && !c.contains(p[i])
    ||| exists|i: int| 0 <= i < c.len() && #[trigger] c[i].address == a && !p.contains(c[i])
}

/// Law (coverage): the added, removed and matched-updated addresses
/// together are exactly the addresses of the structural symmetric
/// difference between the previous and the current snapshot.
pub proof fn lemma_change_coverage(p: Seq<RecordView>, c: Seq<RecordView>)
    requires
        uniq_addrs(p),
        uniq_addrs(c),
    ensures
        forall|a: u64|
            #[trigger] sym_diff_addr(p, c, a) == (added_addr(p, c, a) || removed_addr(p, c, a)
                || updated_addr(p, c, a)),
{
    assert forall|a: u64|
        #[trigger] sym_diff_addr(p, c, a) == (added_addr(p, c, a) || removed_addr(p, c, a)
            || updated_addr(p, c, a)) by {
        if added_addr(p, c, a) {
            let i = idx_of(c, a);
            assert(c[i].address == a);
            if p.contains(c[i]) {
                let j = choose|j: int| 0 <= j < p.len() && p[j] == c[i];
                assert(p[j].address == a);
                assert(has_addr(p, a));
            }
            assert(sym_diff_addr(p, c, a));
        } else if removed_addr(p, c, a) {
            let i = idx_of(p, a);
            assert(p[i].address == a);
            if c.contains(p[i]) {
                let j = choose|j: int| 0 <= j < c.len() && c[j] == p[i];
                assert(c[j].address == a);
                assert(has_addr(c, a));
            }
            assert(sym_diff_addr(p, c, a));
        } else if updated_addr(p, c, a) {
            let i = idx_of(p, a);
            assert(p[i].address == a);
            if c.contains(p[i]) {
                let j = choose|j: int| 0 <= j < c.len() && c[j] == p[i];
                assert(c[j].address == a);
                let k = idx_of(c, a);
                if j < k {
                    assert(c[j].address != c[k].address);
                } else if k < j {
                    assert(c[k].address != c[j].address);
                }
                assert(rec_at(c, a) == rec_at(p, a));
            }
            assert(sym_diff_addr(p, c, a));
        }
        if sym_diff_addr(p, c, a) && !added_addr(p, c, a) && !removed_addr(p, c, a)
            && !updated_addr(p, c, a) {
            if exists|i: int| 0 <= i < p.len() && #[trigger] p[i].address == a && !c.contains(
                p[i],
            ) {
                let i = choose|i: int|
                    0 <= i < p.len() && #[trigger] p[i].address == a && !c.contains(p[i]);
                lemma_rec_at_self(p, i);
                assert(has_addr(c, a));
                let k = idx_of(c, a);
                assert(c[k].address == a);
                assert(rec_at(c, a) == rec_at(p, a));
                assert(c[k] == p[i]);
                assert(c.contains(p[i]));
            } else {
                let i = choose|i: int|
                    0 <= i < c.len() && #[trigger] c[i].address == a && !p.contains(c[i]);
                lemma_rec_at_self(c, i);
                assert(has_addr(p, a));
                let k = idx_of(p, a);
                assert(p[k].address == a);
                assert(rec_at(p, a) == rec_at(c, a));
                assert(p[k] == c[i]);
                assert(p.contains(c[i]));
            }
        }
    }
}

/// Every event of a reconciliation pass is about a changed device: its
/// address is an added, removed or matched-updated one, and so — by the
/// coverage law — an address of the structural symmetric difference.
/// Devices whose records did not change are never mentioned.
pub proof fn lemma_events_within_coverage(
    p: Seq<RecordView>,
    c: Seq<RecordView>,
    opts: NotifyOptions,
    n0: NotifiedLowBatterySet,
    n1: NotifiedLowBatterySet,
    evs: Seq<EventView>,
)
    requires
        uniq_addrs(p),
        uniq_addrs(c),
        report_ok(p, c, opts, n0, n1, evs),
    ensures
        forall|k: int|
            0 <= k < evs.len() ==> #[trigger] sym_diff_addr(p, c, ev_addr(evs[k])),
{
    lemma_change_coverage(p, c);
    assert forall|k: int| 0 <= k < evs.len() implies #[trigger] sym_diff_addr(
        p,
        c,
        ev_addr(evs[k]),
    ) by {
        let ev = evs[k];
        let a = ev_addr(ev);
        assert(event_owed(p, c, opts, n0, ev));
        match ev {
            EventView::Added(r) => {
                assert(added_addr(p, c, a));
            },
            EventView::Removed(r) => {
                assert(removed_addr(p, c, a));
            },
            EventView::Reconnected(r) => {
                assert(rec_at(p, a).status != rec_at(c, a).status);
                assert(updated_addr(p, c, a));
            },
            EventView::Disconnected(r) => {
                assert(rec_at(p, a).status != rec_at(c, a).status);
                assert(updated_addr(p, c, a));
            },
            EventView::LowBattery(r) => {
                assert(rec_at(p, a).battery != rec_at(c, a).battery);
                assert(updated_addr(p, c, a));
            },
        }
    }
}

/// Law (hysteresis single-fire): once a pass fires the low-battery event
/// for an address, the next pass cannot fire it again for that address,
/// however the battery moved: the flag stays raised while the reading
/// remains below the threshold, and the pass that observes a recovery
/// clears the flag without firing.
pub proof fn lemma_low_battery_single_fire(
    p: Seq<RecordView>,
    c: Seq<RecordView>,
    d: Seq<RecordView>,
    opts: NotifyOptions,
    n0: NotifiedLowBatterySet,
    n1: NotifiedLowBatterySet,
    n2: NotifiedLowBatterySet,
    e1: Seq<EventView>,
    e2: Seq<EventView>,
    a: u64,
)
    requires
        report_ok(p, c, opts, n0, n1, e1),
        report_ok(c, d, opts, n1, n2, e2),
        fires_low_battery(p, c, opts.low_battery, n0, a),
    ensures
        forall|k: int|
            0 <= k < e2.len() ==> !((#[trigger] e2[k]) is LowBattery && ev_addr(e2[k]) == a),
{
    assert(n1.flag(a) == flag_after(p, c, opts.low_battery, n0, a));
    assert(n1.flag(a));
    assert forall|k: int|
        0 <= k < e2.len() implies !((#[trigger] e2[k]) is LowBattery && ev_addr(e2[k])
        == a) by {
        if e2[k] is LowBattery && ev_addr(e2[k]) == a {
            assert(event_owed(c, d, opts, n1, e2[k]));
            assert(fires_low_battery(c, d, opts.low_battery, n1, a));
            assert(!n1.flag(a));
        }
    }
}

} // verus!
