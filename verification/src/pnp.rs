//! The side-channel battery table for classic-transport devices.
//!
//! A classic device does not expose its battery through the device object;
//! the platform property store does, keyed by device instance. The
//! surrounding application walks the store and hands over, per device, the
//! instance identifier and the raw battery and address properties; this
//! module normalizes them into a table keyed by 48-bit address, unique by
//! address with the last entry winning, and answers exact-address lookups.

use vstd::prelude::*;

use crate::util::{all_hex, hex_val, parse_hex_address};

verus! {

/// Why walking the property store failed; values taken straight from the
/// platform enumerator.
#[derive(Debug)]
pub enum EnumerateError {
    /// A property held invalid wide-character text.
    StringDecodingError,
    /// A property's text was not terminated as promised.
    StringTerminationDecodingError,
    /// The platform call itself failed with this status code.
    Win32Error(u32),
    /// The platform call returned data of an impossible shape.
    Win32ErrorInvalidData(String),
}

/// One normalized table entry: the device's address, its battery reading,
/// and the platform instance identifier the entry came from.
#[derive(Debug)]
pub struct PnpDeviceInfo {
    pub address: u64,
    pub battery: u8,
    pub instance_id: String,
}

/// Mathematical image of a `PnpDeviceInfo`.
pub ghost struct PnpView {
    pub address: u64,
    pub battery: u8,
    pub instance_id: Seq<char>,
}

impl View for PnpDeviceInfo {
    type V = PnpView;

    open spec fn view(&self) -> PnpView {
        PnpView { address: self.address, battery: self.battery, instance_id: self.instance_id@ }
    }
}

impl DeepView for PnpDeviceInfo {
    type V = PnpView;

    open spec fn deep_view(&self) -> PnpView {
        self@
    }
}

impl Clone for PnpDeviceInfo {
    fn clone(&self) -> (r: Self)
        ensures
            r@ == self@,
    {
        PnpDeviceInfo {
            address: self.address,
            battery: self.battery,
            instance_id: self.instance_id.clone(),
        }
    }
}

/// Whether some entry of the table carries address `a`.
pub open spec fn table_has_addr(t: Seq<PnpView>, a: u64) -> bool {
    exists|i: int| 0 <= i < t.len() && (#[trigger] t[i]).address == a
}

/// The index of the entry carrying address `a`.
pub open spec fn table_idx(t: Seq<PnpView>, a: u64) -> int {
    choose|i: int| 0 <= i < t.len() && (#[trigger] t[i]).address == a
}

/// The entry carrying address `a`.
pub open spec fn table_lookup(t: Seq<PnpView>, a: u64) -> PnpView {
    t[table_idx(t, a)]
}

/// No two entries share an address.
pub open spec fn uniq_table_addrs(t: Seq<PnpView>) -> bool {
    forall|i: int, j: int|
        0 <= i < j < t.len() ==> (#[trigger] t[i]).address != (#[trigger] t[j]).address
}

/// Exact-address lookup in the table.
pub fn find_in_table(table: &Vec<PnpDeviceInfo>, address: u64) -> (r: Option<&PnpDeviceInfo>)
    requires
        uniq_table_addrs(table.deep_view()),
    ensures
        match r {
            Some(entry) => table_has_addr(table.deep_view(), address) && entry@ == table_lookup(
                table.deep_view(),
                address,
            ),
            None => !table_has_addr(table.deep_view(), address),
        },
{
    let ghost t = table.deep_view();
    let mut i: usize = 0;
    while i < table.len()
        invariant
            t == table.deep_view(),
            uniq_table_addrs(t),
            i <= t.len(),
            forall|j: int| 0 <= j < i ==> (#[trigger] t[j]).address != address,
        decreases table@.len() - i,
    {
        proof {
            assert(t[i as int] == table@[i as int]@);
        }
        if table[i].address == address {
            proof {
                let k = table_idx(t, address);
                assert(0 <= k < t.len() && t[k].address == address);
                if k < i {
                    assert(t[k].address != t[i as int].address);
                } else if (i as int) < k {
                    assert(t[i as int].address != t[k].address);
                }
            }
            return Some(&table[i]);
        }
        i += 1;
    }
    None
}

/// The raw per-device properties the application reads from the property
/// store: the instance identifier, and the battery and address properties
/// where the store carried them — the address as the hexadecimal text the
/// store keeps it in.
#[derive(Debug)]
pub struct PnpDeviceProperties {
    pub instance_id: String,
    pub battery: Option<u8>,
    pub address: Option<String>,
}

/// The table entry one raw property record yields, if any: both
/// properties must be present and the address text must parse as a 48-bit
/// or smaller hexadecimal number.
pub open spec fn entry_of(
    instance_id: Seq<char>,
    battery: Option<u8>,
    address: Option<Seq<char>>,
) -> Option<PnpView> {
    match (battery, address) {
        (Some(b), Some(s)) => {
            if s.len() > 0 && all_hex(s) && hex_val(s) <= u64::MAX {
                Some(PnpView { address: hex_val(s) as u64, battery: b, instance_id })
            } else {
                None
            }
        },
        _ => None,
    }
}

/// Normalize one raw property record, as the live-watch path does for the
/// single device it follows.
///
/// Errors exactly when a property is missing or the address text does not
/// parse.
pub fn get_pnp_device_info(device: PnpDeviceProperties) -> (r: Result<PnpDeviceInfo, PnpInfoError>)
    ensures
        match r {
            Ok(info) => entry_of(
                device.instance_id@,
                device.battery,
                match device.address {
                    Some(s) => Some(s@),
                    None => None,
                },
            ) == Some(info@),
            Err(e) => entry_of(
                device.instance_id@,
                device.battery,
                match device.address {
                    Some(s) => Some(s@),
                    None => None,
                },
            ) is None,
        },
{
    let PnpDeviceProperties { instance_id, battery, address } = device;
    let battery = match battery {
        Some(b) => b,
        None => {
            return Err(PnpInfoError::MissingBattery);
        },
    };
    let address_text = match address {
        Some(s) => s,
        None => {
            return Err(PnpInfoError::MissingAddress);
        },
    };
    match parse_hex_address(address_text.as_str()) {
        Some(address) => Ok(PnpDeviceInfo { address, battery, instance_id }),
        None => Err(PnpInfoError::BadAddress),
    }
}

/// Why one raw property record yields no table entry.
#[derive(PartialEq, Eq, Structural, Clone, Copy, Debug)]
pub enum PnpInfoError {
    /// The store carried no battery property for the device.
    MissingBattery,
    /// The store carried no address property for the device.
    MissingAddress,
    /// The address property did not parse as a 64-bit hexadecimal number.
    BadAddress,
}

/// The table after processing a prefix of the raw records in order: a
/// record that yields an entry replaces any earlier entry with its
/// address, so the last record wins.
pub open spec fn built_table(
    raws: Seq<(Seq<char>, Option<u8>, Option<Seq<char>>)>,
) -> Seq<PnpView>
    decreases raws.len(),
{
    if raws.len() == 0 {
        Seq::empty()
    } else {
        let prev = built_table(raws.drop_last());
        let (instance_id, battery, address) = raws.last();
        match entry_of(instance_id, battery, address) {
            Some(e) => if table_has_addr(prev, e.address) {
                prev.remove(table_idx(prev, e.address)).push(e)
            } else {
                prev.push(e)
            },
            None => prev,
        }
    }
}

/// The raw record's mathematical image.
pub open spec fn raw_view(d: PnpDeviceProperties) -> (Seq<char>, Option<u8>, Option<Seq<char>>) {
    (
        d.instance_id@,
        d.battery,
        match d.address {
            Some(s) => Some(s@),
            None => None,
        },
    )
}

/// Uniqueness survives replacing the one entry that carried the new
/// entry's address.
proof fn lemma_table_uniq_after(prev: Seq<PnpView>, i: int, e: PnpView)
    requires
        uniq_table_addrs(prev),
        0 <= i < prev.len(),
        prev[i].address == e.address,
    ensures
        uniq_table_addrs(prev.remove(i).push(e)),
{
    let now = prev.remove(i).push(e);
    assert forall|p: int, q: int| 0 <= p < q < now.len() implies (#[trigger] now[p]).address != (
    #[trigger] now[q]).address by {
        let op = if p < i {
            p
        } else {
            p + 1
        };
        assert(now[p] == prev[op]);
        if q == now.len() - 1 {
            assert(op != i);
            if op < i {
                assert(prev[op].address != prev[i].address);
            } else {
                assert(prev[i].address != prev[op].address);
            }
        } else {
            let oq = if q < i {
                q
            } else {
                q + 1
            };
            assert(now[q] == prev[oq]);
            assert(op < oq);
        }
    }
}

/// Store `entry` in the table, replacing any earlier entry with its
/// address: the last write wins.
fn table_put(table: &mut Vec<PnpDeviceInfo>, entry: PnpDeviceInfo)
    requires
        uniq_table_addrs(old(table).deep_view()),
    ensures
        uniq_table_addrs(final(table).deep_view()),
        final(table).deep_view() == (if table_has_addr(old(table).deep_view(), entry@.address) {
            old(table).deep_view().remove(
                table_idx(old(table).deep_view(), entry@.address),
            ).push(entry@)
        } else {
            old(table).deep_view().push(entry@)
        }),
{
    let ghost prev = old(table).deep_view();
    let address = entry.address;
    match find_table_index(table, address) {
        Some(i) => {
            proof {
                let k = table_idx(prev, address);
                assert(0 <= k < prev.len() && prev[k].address == address);
                if k < i {
                    assert(prev[k].address != prev[i as int].address);
                } else if (i as int) < k {
                    assert(prev[i as int].address != prev[k].address);
                }
                lemma_table_uniq_after(prev, i as int, entry@);
            }
            table.remove(i);
            table.push(entry);
            proof {
                assert(table.deep_view() =~= prev.remove(i as int).push(entry@));
            }
        },
        None => {
            table.push(entry);
            proof {
                let now = table.deep_view();
                assert(now =~= prev.push(entry@));
                assert forall|p: int, q: int|
                    0 <= p < q < now.len() implies (#[trigger] now[p]).address != (
                #[trigger] now[q]).address by {
                    if q == now.len() - 1 {
                        assert(now[p] == prev[p]);
                    } else {
                        assert(now[p] == prev[p]);
                        assert(now[q] == prev[q]);
                    }
                }
            }
        },
    }
}

/// The position of the entry carrying `address`, if one is present.
fn find_table_index(table: &Vec<PnpDeviceInfo>, address: u64) -> (r: Option<usize>)
    ensures
        match r {
            Some(i) => i < table.deep_view().len() && table.deep_view()[i as int].address
                == address,
            None => !table_has_addr(table.deep_view(), address),
        },
{
    let ghost t = table.deep_view();
    let mut i: usize = 0;
    while i < table.len()
        invariant
            t == table.deep_view(),
            i <= t.len(),
            forall|j: int| 0 <= j < i ==> (#[trigger] t[j]).address != address,
        decreases table@.len() - i,
    {
        proof {
            assert(t[i as int] == table@[i as int]@);
        }
        if table[i].address == address {
            return Some(i);
        }
        i += 1;
    }
    None
}

/// Normalize the raw property records of one store walk into the battery
/// table: records without both properties, or with unparsable address
/// text, are dropped, and of two records for one address the later wins.
pub fn get_pnp_devices_info(devices: &Vec<PnpDeviceProperties>) -> (r: Vec<PnpDeviceInfo>)
    ensures
        uniq_table_addrs(r.deep_view()),
        r.deep_view() == built_table(devices@.map_values(|d: PnpDeviceProperties| raw_view(d))),
{
    let ghost raws = devices@.map_values(|d: PnpDeviceProperties| raw_view(d));
    let mut table: Vec<PnpDeviceInfo> = Vec::new();
    let mut i: usize = 0;
    proof {
        assert(table.deep_view() =~= built_table(raws.take(0)));
    }
    while i < devices.len()
        invariant
            raws == devices@.map_values(|d: PnpDeviceProperties| raw_view(d)),
            i <= raws.len(),
            devices@.len() == raws.len(),
            uniq_table_addrs(table.deep_view()),
            table.deep_view() == built_table(raws.take(i as int)),
        decreases devices@.len() - i,
    {
        proof {
            assert(raws.take(i + 1).drop_last() =~= raws.take(i as int));
            assert(raws.take(i + 1).last() == raws[i as int]);
            assert(raws[i as int] == raw_view(devices@[i as int]));
        }
        let device = &devices[i];
        match (&device.battery, &device.address) {
            (Some(b), Some(s)) => {
                match parse_hex_address(s.as_str()) {
                    Some(address) => {
                        let entry = PnpDeviceInfo {
                            address,
                            battery: *b,
                            instance_id: device.instance_id.clone(),
                        };
                        proof {
                            assert(entry_of(
                                raws[i as int].0,
                                raws[i as int].1,
                                raws[i as int].2,
                            ) == Some(entry@));
                        }
                        table_put(&mut table, entry);
                    },
                    None => {
                        proof {
                            assert(entry_of(
                                raws[i as int].0,
                                raws[i as int].1,
                                raws[i as int].2,
                            ) is None);
                        }
                    },
                }
            },
            _ => {
                proof {
                    assert(entry_of(raws[i as int].0, raws[i as int].1, raws[i as int].2)
                        is None);
                }
            },
        }
        i += 1;
    }
    proof {
        assert(raws.take(raws.len() as int) =~= raws);
    }
    table
}

} // verus!
