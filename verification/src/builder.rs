//! The snapshot builder: normalizes the per-device query results of one
//! enumeration round into a `Snapshot`.
//!
//! Each paired device is queried independently; a failed query never
//! aborts the batch, the device is simply left out of the round. A
//! low-energy device reports its battery itself; a classic device does
//! not, so its battery is correlated against the side-channel property
//! table by exact address match — a device without a matching table entry
//! is left out rather than guessed at. The builder also enforces snapshot
//! well-formedness: out-of-range readings and addresses are dropped and
//! the first record wins when two carry one address.

use vstd::prelude::*;

use crate::device::{ADDRESS_LIMIT, BluetoothInfo, BluetoothType, KindView, MAX_BATTERY, RecordView};
use crate::pnp::{PnpDeviceInfo, PnpView, table_has_addr, table_lookup, uniq_table_addrs};
use crate::snapshot::{Snapshot, has_addr};

verus! {

/// What one per-device query round handed back for one device, already
/// reduced to plain values.
#[derive(Debug)]
pub enum DeviceQuery {
    /// A classic-transport device: connection status comes from the device
    /// object, the battery only from the property table.
    Classic { name: String, status: bool, address: u64, instance_id: String },
    /// A low-energy device: everything comes from the device itself.
    LowEnergy { name: String, battery: u8, status: bool, address: u64 },
    /// The query for this device failed; it is skipped, never fatal.
    Failed,
}

/// Mathematical image of a `DeviceQuery`.
pub ghost enum QueryView {
    Classic { name: Seq<char>, status: bool, address: u64, instance_id: Seq<char> },
    LowEnergy { name: Seq<char>, battery: u8, status: bool, address: u64 },
    Failed,
}

impl View for DeviceQuery {
    type V = QueryView;

    open spec fn view(&self) -> QueryView {
        match self {
            DeviceQuery::Classic { name, status, address, instance_id } => QueryView::Classic {
                name: name@,
                status: *status,
                address: *address,
                instance_id: instance_id@,
            },
            DeviceQuery::LowEnergy { name, battery, status, address } => QueryView::LowEnergy {
                name: name@,
                battery: *battery,
                status: *status,
                address: *address,
            },
            DeviceQuery::Failed => QueryView::Failed,
        }
    }
}

/// Why a single device dropped out of the round.
#[derive(PartialEq, Eq, Structural, Clone, Copy, Debug)]
pub enum QueryError {
    /// The per-device query itself failed.
    QueryFailed,
    /// No property-table entry carries the classic device's address.
    NoBatteryMatch,
    /// A battery reading above one hundred percent.
    InvalidBattery,
    /// An address outside the 48-bit range.
    InvalidAddress,
}

/// The record one query yields, if any: `None` for a failed query, a
/// classic device without a table match, or an out-of-range value.
pub open spec fn record_of(q: QueryView, table: Seq<PnpView>) -> Option<RecordView> {
    match q {
        QueryView::Classic { name, status, address, instance_id } => {
            if address < ADDRESS_LIMIT && table_has_addr(table, address) && table_lookup(
                table,
                address,
            ).battery <= MAX_BATTERY {
                Some(
                    RecordView {
                        name,
                        battery: table_lookup(table, address).battery,
                        status,
                        address,
                        kind: KindView::Classic(instance_id),
                    },
                )
            } else {
                None
            }
        },
        QueryView::LowEnergy { name, battery, status, address } => {
            if address < ADDRESS_LIMIT && battery <= MAX_BATTERY {
                Some(
                    RecordView { name, battery, status, address, kind: KindView::LowEnergy },
                )
            } else {
                None
            }
        },
        QueryView::Failed => None,
    }
}

/// The snapshot contents after processing a prefix of the queries in
/// order: each query's record is appended unless its address is already
/// taken — the first record wins.
pub open spec fn built_records(qs: Seq<QueryView>, table: Seq<PnpView>) -> Seq<RecordView>
    decreases qs.len(),
{
    if qs.len() == 0 {
        Seq::empty()
    } else {
        let prev = built_records(qs.drop_last(), table);
        match record_of(qs.last(), table) {
            Some(r) => if has_addr(prev, r.address) {
                prev
            } else {
                prev.push(r)
            },
            None => prev,
        }
    }
}

/// Normalize one low-energy query into a record.
///
/// Errors exactly on an out-of-range battery reading or address.
pub fn process_ble_device(name: String, battery: u8, status: bool, address: u64) -> (r: Result<
    BluetoothInfo,
    QueryError,
>)
    ensures
        match r {
            Ok(rec) => battery <= MAX_BATTERY && address < ADDRESS_LIMIT && rec@ == (RecordView {
                name: name@,
                battery,
                status,
                address,
                kind: KindView::LowEnergy,
            }),
            Err(e) => {
                &&& !(battery <= MAX_BATTERY && address < ADDRESS_LIMIT)
                &&& e == (if address >= ADDRESS_LIMIT {
                    QueryError::InvalidAddress
                } else {
                    QueryError::InvalidBattery
                })
            },
        },
{
    if address >= ADDRESS_LIMIT {
        return Err(QueryError::InvalidAddress);
    }
    if battery > MAX_BATTERY {
        return Err(QueryError::InvalidBattery);
    }
    Ok(BluetoothInfo { name, battery, status, address, kind: BluetoothType::LowEnergy })
}

/// Normalize one classic-transport query into a record, taking the battery
/// from the property table by exact address match.
///
/// Errors exactly when no table entry carries the address, or a value is
/// out of range.
pub fn process_btc_device(
    name: String,
    status: bool,
    address: u64,
    instance_id: String,
    pnp_devices_info: &Vec<PnpDeviceInfo>,
) -> (r: Result<BluetoothInfo, QueryError>)
    requires
        uniq_table_addrs(pnp_devices_info.deep_view()),
    ensures
        match r {
            Ok(rec) => {
                &&& address < ADDRESS_LIMIT
                &&& table_has_addr(pnp_devices_info.deep_view(), address)
                &&& table_lookup(pnp_devices_info.deep_view(), address).battery <= MAX_BATTERY
                &&& rec@ == (RecordView {
                    name: name@,
                    battery: table_lookup(pnp_devices_info.deep_view(), address).battery,
                    status,
                    address,
                    kind: KindView::Classic(instance_id@),
                })
            },
            Err(e) => match e {
                QueryError::InvalidAddress => address >= ADDRESS_LIMIT,
                QueryError::NoBatteryMatch => address < ADDRESS_LIMIT && !table_has_addr(
                    pnp_devices_info.deep_view(),
                    address,
                ),
                QueryError::InvalidBattery => address < ADDRESS_LIMIT && table_has_addr(
                    pnp_devices_info.deep_view(),
                    address,
                ) && table_lookup(pnp_devices_info.deep_view(), address).battery > MAX_BATTERY,
                QueryError::QueryFailed => false,
            },
        },
{
    if address >= ADDRESS_LIMIT {
        return Err(QueryError::InvalidAddress);
    }
    match crate::pnp::find_in_table(pnp_devices_info, address) {
        None => Err(QueryError::NoBatteryMatch),
        Some(entry) => {
            if entry.battery > MAX_BATTERY {
                Err(QueryError::InvalidBattery)
            } else {
                Ok(
                    BluetoothInfo {
                        name,
                        battery: entry.battery,
                        status,
                        address,
                        kind: BluetoothType::Classic(instance_id),
                    },
                )
            }
        },
    }
}

/// Why a whole enumeration round yields no snapshot.
#[derive(PartialEq, Eq, Structural, Clone, Copy, Debug)]
pub enum SnapshotError {
    /// The round saw no paired device of either transport at all.
    NoDevices,
}

/// Build the snapshot of one enumeration round from the per-device query
/// results and the classic-battery property table.
///
/// Errors exactly when the round saw no device at all; otherwise the
/// snapshot holds, in order, the record of every usable query whose
/// address was not taken by an earlier one.
pub fn get_bluetooth_info(queries: Vec<DeviceQuery>, pnp_devices_info: &Vec<PnpDeviceInfo>) -> (r:
    Result<Snapshot, SnapshotError>)
    requires
        uniq_table_addrs(pnp_devices_info.deep_view()),
    ensures
        match r {
            Ok(s) => {
                &&& queries@.len() > 0
                &&& s.wf()
                &&& s@ == built_records(
                    queries@.map_values(|q: DeviceQuery| q@),
                    pnp_devices_info.deep_view(),
                )
            },
            Err(e) => queries@.len() == 0 && e == SnapshotError::NoDevices,
        },
{
    if queries.len() == 0 {
        return Err(SnapshotError::NoDevices);
    }
    let ghost qs = queries@.map_values(|q: DeviceQuery| q@);
    let ghost table = pnp_devices_info.deep_view();
    let mut snapshot = Snapshot::new();
    let mut i: usize = 0;
    while i < queries.len()
        invariant
            uniq_table_addrs(table),
            qs == queries@.map_values(|q: DeviceQuery| q@),
            table == pnp_devices_info.deep_view(),
            i <= qs.len(),
            snapshot.wf(),
            snapshot@ == built_records(qs.take(i as int), table),
        decreases queries@.len() - i,
    {
        proof {
            assert(qs.take(i + 1).drop_last() =~= qs.take(i as int));
            assert(qs.take(i + 1).last() == qs[i as int]);
        }
        let outcome: Result<BluetoothInfo, QueryError> = match &queries[i] {
            DeviceQuery::Classic { name, status, address, instance_id } => process_btc_device(
                name.clone(),
                *status,
                *address,
                instance_id.clone(),
                pnp_devices_info,
            ),
            DeviceQuery::LowEnergy { name, battery, status, address } => process_ble_device(
                name.clone(),
                *battery,
                *status,
                *address,
            ),
            DeviceQuery::Failed => Err(QueryError::QueryFailed),
        };
        match outcome {
            Ok(rec) => {
                proof {
                    assert(record_of(qs[i as int], table) == Some(rec@));
                }
                if !snapshot.contains_address(rec.address) {
                    snapshot.push_new(rec);
                }
            },
            Err(_) => {
                proof {
                    assert(record_of(qs[i as int], table) is None);
                }
            },
        }
        i += 1;
    }
    proof {
        assert(qs.take(qs.len() as int) =~= qs);
    }
    Ok(snapshot)
}

} // verus!
