//! The live-watch bookkeeping: the registry of devices known to the
//! watch path, and the single-device deltas its event sources produce.
//!
//! The watch path keeps one registry per transport, keyed by address, and
//! reacts to three kinds of pushed events: a device appeared, a device
//! vanished, a device's record changed. An appearance or disappearance
//! additionally asks the caller to rebuild its subscriptions, since the
//! set of devices to subscribe to changed; a plain update does not.

use vstd::prelude::*;

use crate::device::{BluetoothInfo, BluetoothType, RecordView};
use crate::pnp::PnpDeviceInfo;
use crate::snapshot::{Snapshot, has_addr, rec_at};

verus! {

/// An update pushed for one low-energy device: its battery characteristic
/// changed value, or its connection status flipped.
#[derive(Debug)]
pub enum BluetoothLEDeviceUpdate {
    BatteryLevel(u8),
    ConnectionStatus(bool),
}

/// One event pushed into the watch path.
#[derive(Debug)]
pub enum WatchEvent {
    /// A device appeared, with its freshly queried record.
    Add(BluetoothInfo),
    /// The device with this transport and address vanished.
    Remove(BluetoothType, u64),
    /// A watched device's record changed.
    Update(BluetoothInfo),
}

/// The registry of devices the watch path currently knows, one snapshot
/// per transport, each keyed by address.
pub struct WatchBluetoothDeviceInfo {
    ble: Snapshot,
    btc: Snapshot,
}

impl WatchBluetoothDeviceInfo {
    pub closed spec fn wf(self) -> bool {
        self.ble.wf() && self.btc.wf()
    }

    /// Records known on the low-energy transport.
    pub closed spec fn ble_view(self) -> Seq<RecordView> {
        self.ble@
    }

    /// Records known on the classic transport.
    pub closed spec fn btc_view(self) -> Seq<RecordView> {
        self.btc@
    }

    /// Split the devices of one snapshot into the two per-transport
    /// registries.
    pub fn new(infos: &Snapshot) -> (r: WatchBluetoothDeviceInfo)
        requires
            infos.wf(),
        ensures
            r.wf(),
            forall|a: u64|
                #[trigger] has_addr(r.ble_view(), a) == (has_addr(infos@, a) && rec_at(
                    infos@,
                    a,
                ).kind is LowEnergy),
            forall|a: u64|
                #[trigger] has_addr(r.btc_view(), a) == (has_addr(infos@, a) && rec_at(
                    infos@,
                    a,
                ).kind is Classic),
            forall|a: u64|
                has_addr(r.ble_view(), a) ==> #[trigger] rec_at(r.ble_view(), a) == rec_at(
                    infos@,
                    a,
                ),
            forall|a: u64|
                has_addr(r.btc_view(), a) ==> #[trigger] rec_at(r.btc_view(), a) == rec_at(
                    infos@,
                    a,
                ),
    {
        let ghost v = infos@;
        let mut ble = Snapshot::new();
        let mut btc = Snapshot::new();
        let mut i: usize = 0;
        while i < infos.len()
            invariant
                infos.wf(),
                v == infos@,
                i <= v.len(),
                ble.wf(),
                btc.wf(),
                forall|a: u64|
                    #[trigger] has_addr(ble@, a) == (has_addr(v, a) && crate::snapshot::idx_of(
                        v,
                        a,
                    ) < i && rec_at(v, a).kind is LowEnergy),
                forall|a: u64|
                    #[trigger] has_addr(btc@, a) == (has_addr(v, a) && crate::snapshot::idx_of(
                        v,
                        a,
                    ) < i && rec_at(v, a).kind is Classic),
                forall|a: u64|
                    has_addr(ble@, a) ==> #[trigger] rec_at(ble@, a) == rec_at(v, a),
                forall|a: u64|
                    has_addr(btc@, a) ==> #[trigger] rec_at(btc@, a) == rec_at(v, a),
            decreases infos@.len() - i,
        {
            let rec = infos.get(i);
            proof {
                crate::snapshot::lemma_rec_at_self(v, i as int);
            }
            match &rec.kind {
                BluetoothType::LowEnergy => {
                    ble.apply_delta(rec.clone());
                },
                BluetoothType::Classic(_) => {
                    btc.apply_delta(rec.clone());
                },
            }
            i += 1;
        }
        proof {
            assert forall|a: u64| has_addr(v, a) implies crate::snapshot::idx_of(v, a)
                < v.len() by {}
        }
        WatchBluetoothDeviceInfo { ble, btc }
    }

    /// Whether the registry of the given transport knows the address.
    pub fn contains(&self, kind: &BluetoothType, address: u64) -> (r: bool)
        requires
            self.wf(),
        ensures
            r == (if kind@ is LowEnergy {
                has_addr(self.ble_view(), address)
            } else {
                has_addr(self.btc_view(), address)
            }),
    {
        match kind {
            BluetoothType::LowEnergy => self.ble.contains_address(address),
            BluetoothType::Classic(_) => self.btc.contains_address(address),
        }
    }

    /// Record an appeared device in its transport's registry.
    pub fn add(&mut self, info: BluetoothInfo)
        requires
            old(self).wf(),
            info.wf(),
        ensures
            final(self).wf(),
            registered(*old(self), *final(self), info@),
    {
        match &info.kind {
            BluetoothType::LowEnergy => {
                self.ble.apply_delta(info);
            },
            BluetoothType::Classic(_) => {
                self.btc.apply_delta(info);
            },
        }
    }

    /// Record a changed device in its transport's registry.
    pub fn update(&mut self, info: BluetoothInfo)
        requires
            old(self).wf(),
            info.wf(),
        ensures
            final(self).wf(),
            registered(*old(self), *final(self), info@),
    {
        self.add(info)
    }

    /// Take a vanished device out of its transport's registry, handing
    /// back the record it was known by, if any.
    pub fn remove(&mut self, kind: &BluetoothType, address: u64) -> (r: Option<BluetoothInfo>)
        requires
            old(self).wf(),
        ensures
            final(self).wf(),
            deregistered(*old(self), *final(self), kind@, address, r),
    {
        match kind {
            BluetoothType::LowEnergy => {
                let r = self.ble.remove_by_address(address);
                r
            },
            BluetoothType::Classic(_) => {
                let r = self.btc.remove_by_address(address);
                r
            },
        }
    }

    /// React to one pushed event: keep the registries current, hand back
    /// the record the tray must be refreshed with (none when a vanished
    /// device was unknown), and say whether the subscriptions must be
    /// rebuilt — they must exactly when a device appeared or vanished.
    pub fn on_watch_event(&mut self, event: WatchEvent) -> (r: (
        bool,
        Option<BluetoothInfo>,
    ))
        requires
            old(self).wf(),
            event matches WatchEvent::Add(info) ==> info.wf(),
            event matches WatchEvent::Update(info) ==> info.wf(),
        ensures
            final(self).wf(),
            match event {
                WatchEvent::Add(info) => r.0 && registered(*old(self), *final(self), info@) && (
                r.1 matches Some(f) && f@ == info@),
                WatchEvent::Remove(kind, address) => r.0 && deregistered(
                    *old(self),
                    *final(self),
                    kind@,
                    address,
                    r.1,
                ),
                WatchEvent::Update(info) => !r.0 && registered(*old(self), *final(self), info@)
                    && (r.1 matches Some(f) && f@ == info@),
            },
    {
        match event {
            WatchEvent::Add(info) => {
                let forwarded = info.clone();
                self.add(info);
                (true, Some(forwarded))
            },
            WatchEvent::Remove(kind, address) => {
                let removed = self.remove(&kind, address);
                (true, removed)
            },
            WatchEvent::Update(info) => {
                let forwarded = info.clone();
                self.update(info);
                (false, Some(forwarded))
            },
        }
    }
}

/// The record landed in its transport's registry, replacing what that
/// address was known by; the other transport's registry is untouched.
pub open spec fn registered(
    before: WatchBluetoothDeviceInfo,
    after: WatchBluetoothDeviceInfo,
    rec: RecordView,
) -> bool {
    if rec.kind is LowEnergy {
        &&& has_addr(after.ble_view(), rec.address)
        &&& rec_at(after.ble_view(), rec.address) == rec
        &&& forall|a: u64|
            a != rec.address ==> has_addr(after.ble_view(), a) == has_addr(before.ble_view(), a)
        &&& forall|a: u64|
            a != rec.address && has_addr(before.ble_view(), a) ==> rec_at(after.ble_view(), a)
                == rec_at(before.ble_view(), a)
        &&& after.btc_view() == before.btc_view()
    } else {
        &&& has_addr(after.btc_view(), rec.address)
        &&& rec_at(after.btc_view(), rec.address) == rec
        &&& forall|a: u64|
            a != rec.address ==> has_addr(after.btc_view(), a) == has_addr(before.btc_view(), a)
        &&& forall|a: u64|
            a != rec.address && has_addr(before.btc_view(), a) ==> rec_at(after.btc_view(), a)
                == rec_at(before.btc_view(), a)
        &&& after.ble_view() == before.ble_view()
    }
}

/// The address left its transport's registry, its old record handed
/// back; the other transport's registry is untouched.
pub open spec fn deregistered(
    before: WatchBluetoothDeviceInfo,
    after: WatchBluetoothDeviceInfo,
    kind: crate::device::KindView,
    address: u64,
    removed: Option<BluetoothInfo>,
) -> bool {
    if kind is LowEnergy {
        &&& !has_addr(after.ble_view(), address)
        &&& (match removed {
            Some(rec) => has_addr(before.ble_view(), address) && rec@ == rec_at(
                before.ble_view(),
                address,
            ),
            None => !has_addr(before.ble_view(), address) && after.ble_view()
                == before.ble_view(),
        })
        &&& forall|a: u64|
            a != address ==> has_addr(after.ble_view(), a) == has_addr(before.ble_view(), a)
        &&& forall|a: u64|
            a != address && has_addr(before.ble_view(), a) ==> rec_at(after.ble_view(), a)
                == rec_at(before.ble_view(), a)
        &&& after.btc_view() == before.btc_view()
    } else {
        &&& !has_addr(after.btc_view(), address)
        &&& (match removed {
            Some(rec) => has_addr(before.btc_view(), address) && rec@ == rec_at(
                before.btc_view(),
                address,
            ),
            None => !has_addr(before.btc_view(), address) && after.btc_view()
                == before.btc_view(),
        })
        &&& forall|a: u64|
            a != address ==> has_addr(after.btc_view(), a) == has_addr(before.btc_view(), a)
        &&& forall|a: u64|
            a != address && has_addr(before.btc_view(), a) ==> rec_at(after.btc_view(), a)
                == rec_at(before.btc_view(), a)
        &&& after.ble_view() == before.ble_view()
    }
}

/// Fold one pushed low-energy update into the record a device was last
/// known by: the one reading it carries replaces the old one.
pub fn process_le_device(current: &BluetoothInfo, update: &BluetoothLEDeviceUpdate) -> (r:
    BluetoothInfo)
    ensures
        r@ == (match update {
            BluetoothLEDeviceUpdate::BatteryLevel(b) => RecordView { battery: *b, ..current@ },
            BluetoothLEDeviceUpdate::ConnectionStatus(s) => RecordView { status: *s, ..current@ },
        }),
{
    let mut info = current.clone();
    match update {
        BluetoothLEDeviceUpdate::BatteryLevel(b) => {
            info.battery = *b;
        },
        BluetoothLEDeviceUpdate::ConnectionStatus(s) => {
            info.status = *s;
        },
    }
    info
}

/// Fold one poll of a classic device into the record it was last known
/// by. The connection status comes from the device object; the battery is
/// taken from the property-store entry only on an exact address match,
/// never from another device's entry. Hands back the refreshed record
/// exactly when something changed.
pub fn process_classic_device(
    current: &BluetoothInfo,
    observed_status: bool,
    pnp_info: &PnpDeviceInfo,
) -> (r: Option<BluetoothInfo>)
    ensures
        ({
            let battery = if pnp_info.address == current.address {
                pnp_info.battery
            } else {
                current@.battery
            };
            if observed_status != current@.status || battery != current@.battery {
                r matches Some(info) && info@ == (RecordView {
                    status: observed_status,
                    battery,
                    ..current@
                })
            } else {
                r is None
            }
        }),
{
    let battery = if pnp_info.address == current.address {
        pnp_info.battery
    } else {
        current.battery
    };
    if observed_status != current.status || battery != current.battery {
        let mut info = current.clone();
        info.status = observed_status;
        info.battery = battery;
        Some(info)
    } else {
        None
    }
}

/// How long the classic-transport poll loop sleeps before its next poll:
/// quickly while disconnected, a little slower on a low battery, slowest
/// when connected with plenty of charge.
pub fn poll_delay_secs(current: &BluetoothInfo) -> (r: u64)
    ensures
        r == (if !current@.status {
            5u64
        } else if current@.battery <= 30 {
            7u64
        } else {
            10u64
        }),
{
    if !current.status {
        5
    } else if current.battery <= 30 {
        7
    } else {
        10
    }
}

} // verus!
