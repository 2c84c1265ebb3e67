//! The normalized per-device record and its transport kind.
//!
//! A record carries everything the reconciliation logic reads: the stable
//! 48-bit device address (the unique key across snapshots), the display
//! name, the battery percentage, the connection status, and the transport
//! kind. Two records that differ in any field are distinct observations,
//! which is what makes plain set difference a correct change detector.

use vstd::prelude::*;

verus! {

/// Addresses are 48-bit values; everything at or above this bound is invalid.
pub const ADDRESS_LIMIT: u64 = 0x1_0000_0000_0000;

/// Battery percentages run from 0 to 100.
pub const MAX_BATTERY: u8 = 100;

/// The transport a device is reached over. The classic (connection-oriented)
/// transport carries the platform instance identifier that the property
/// store is keyed by; the reconciliation logic itself never interprets it.
#[derive(Debug)]
pub enum BluetoothType {
    Classic(String),
    LowEnergy,
}

/// Mathematical image of a `BluetoothType`.
pub ghost enum KindView {
    Classic(Seq<char>),
    LowEnergy,
}

impl View for BluetoothType {
    type V = KindView;

    open spec fn view(&self) -> KindView {
        match self {
            BluetoothType::Classic(id) => KindView::Classic(id@),
            BluetoothType::LowEnergy => KindView::LowEnergy,
        }
    }
}

impl Clone for BluetoothType {
    fn clone(&self) -> (r: Self)
        ensures
            r@ == self@,
    {
        match self {
            BluetoothType::Classic(id) => BluetoothType::Classic(id.clone()),
            BluetoothType::LowEnergy => BluetoothType::LowEnergy,
        }
    }
}

impl BluetoothType {
    /// Whether two kinds agree, comparing classic instance identifiers
    /// character by character.
    pub fn matches(&self, other: &BluetoothType) -> (r: bool)
        ensures
            r == (self@ == other@),
    {
        match (self, other) {
            (BluetoothType::Classic(a), BluetoothType::Classic(b)) => *a == *b,
            (BluetoothType::LowEnergy, BluetoothType::LowEnergy) => true,
            _ => false,
        }
    }
}

/// One normalized observation of a device.
#[derive(Debug)]
pub struct BluetoothInfo {
    pub name: String,
    pub battery: u8,
    pub status: bool,
    pub address: u64,
    pub kind: BluetoothType,
}

/// Mathematical image of a `BluetoothInfo`: the name as a character
/// sequence, the other fields as they are.
pub ghost struct RecordView {
    pub name: Seq<char>,
    pub battery: u8,
    pub status: bool,
    pub address: u64,
    pub kind: KindView,
}

impl RecordView {
    /// Well-formedness: the battery is a percentage, the address 48 bits.
    pub open spec fn wf(self) -> bool {
        &&& self.battery <= MAX_BATTERY
        &&& self.address < ADDRESS_LIMIT
    }
}

impl View for BluetoothInfo {
    type V = RecordView;

    open spec fn view(&self) -> RecordView {
        RecordView {
            name: self.name@,
            battery: self.battery,
            status: self.status,
            address: self.address,
            kind: self.kind@,
        }
    }
}

impl Clone for BluetoothInfo {
    fn clone(&self) -> (r: Self)
        ensures
            r@ == self@,
    {
        BluetoothInfo {
            name: self.name.clone(),
            battery: self.battery,
            status: self.status,
            address: self.address,
            kind: self.kind.clone(),
        }
    }
}

impl BluetoothInfo {
    pub open spec fn wf(self) -> bool {
        self@.wf()
    }

    /// Whether two records agree in every observable field.
    pub fn same_as(&self, other: &BluetoothInfo) -> (r: bool)
        ensures
            r == (self@ == other@),
    {
        self.address == other.address && self.battery == other.battery && self.status
            == other.status && self.name == other.name && self.kind.matches(&other.kind)
    }
}

} // verus!
