use bluegauge::builder::{
    DeviceQuery, QueryError, SnapshotError, get_bluetooth_info, process_ble_device,
    process_btc_device,
};
use bluegauge::device::BluetoothType;
use bluegauge::pnp::{
    PnpDeviceInfo, PnpDeviceProperties, PnpInfoError, get_pnp_device_info, get_pnp_devices_info,
};
use bluegauge::util::{format_address, parse_hex_address};

fn pnp_entry(address: u64, battery: u8, instance_id: &str) -> PnpDeviceInfo {
    PnpDeviceInfo {
        address,
        battery,
        instance_id: instance_id.to_string(),
    }
}

fn classic_query(name: &str, address: u64) -> DeviceQuery {
    DeviceQuery::Classic {
        name: name.to_string(),
        status: true,
        address,
        instance_id: format!("BTHENUM\\{name}"),
    }
}

fn le_query(name: &str, address: u64, battery: u8) -> DeviceQuery {
    DeviceQuery::LowEnergy {
        name: name.to_string(),
        battery,
        status: true,
        address,
    }
}

#[test]
fn classic_battery_is_correlated_by_exact_address() {
    let table = vec![pnp_entry(0xA1, 77, "BTHENUM\\X"), pnp_entry(0xB2, 33, "BTHENUM\\Y")];
    let rec = process_btc_device("Head".to_string(), true, 0xB2, "BTHENUM\\Y".to_string(), &table)
        .expect("an exact match must yield a record");
    assert_eq!(rec.battery, 33);
    assert_eq!(rec.address, 0xB2);
    assert!(matches!(rec.kind, BluetoothType::Classic(ref id) if id == "BTHENUM\\Y"));
}

#[test]
fn classic_without_table_match_is_omitted() {
    let table = vec![pnp_entry(0xA1, 77, "BTHENUM\\X")];
    let err = process_btc_device("Head".to_string(), true, 0xB2, "i".to_string(), &table)
        .expect_err("no matching address means no record");
    assert_eq!(err, QueryError::NoBatteryMatch);
}

#[test]
fn le_record_keeps_its_own_battery() {
    let rec = process_ble_device("Buds".to_string(), 58, false, 0xC3).unwrap();
    assert_eq!(rec.battery, 58);
    assert!(!rec.status);
    assert!(matches!(rec.kind, BluetoothType::LowEnergy));
}

#[test]
fn out_of_range_values_are_rejected() {
    assert_eq!(
        process_ble_device("X".to_string(), 101, true, 0xC3).unwrap_err(),
        QueryError::InvalidBattery
    );
    assert_eq!(
        process_ble_device("X".to_string(), 50, true, 1 << 48).unwrap_err(),
        QueryError::InvalidAddress
    );
}

#[test]
fn empty_round_is_an_error() {
    let table = Vec::new();
    let err = get_bluetooth_info(Vec::new(), &table).unwrap_err();
    assert_eq!(err, SnapshotError::NoDevices);
}

#[test]
fn failed_queries_are_skipped_not_fatal() {
    let table = vec![pnp_entry(0xA1, 40, "BTHENUM\\X")];
    let queries = vec![
        DeviceQuery::Failed,
        classic_query("Key", 0xA1),
        DeviceQuery::Failed,
        le_query("Buds", 0xC3, 90),
    ];
    let snapshot = get_bluetooth_info(queries, &table).unwrap();
    assert_eq!(snapshot.len(), 2);
    assert!(snapshot.contains_address(0xA1));
    assert!(snapshot.contains_address(0xC3));
}

#[test]
fn duplicate_addresses_keep_the_first_record() {
    let table = Vec::new();
    let queries = vec![le_query("First", 0xC3, 90), le_query("Second", 0xC3, 10)];
    let snapshot = get_bluetooth_info(queries, &table).unwrap();
    assert_eq!(snapshot.len(), 1);
    let rec = snapshot.find_by_address(0xC3).unwrap();
    assert_eq!(rec.name, "First");
    assert_eq!(rec.battery, 90);
}

#[test]
fn property_table_parses_addresses_and_keeps_the_last_entry() {
    let raws = vec![
        PnpDeviceProperties {
            instance_id: "BTHENUM\\A".to_string(),
            battery: Some(40),
            address: Some("0000000000A1".to_string()),
        },
        // no battery property: dropped
        PnpDeviceProperties {
            instance_id: "BTHENUM\\B".to_string(),
            battery: None,
            address: Some("0000000000B2".to_string()),
        },
        // unparsable address: dropped
        PnpDeviceProperties {
            instance_id: "BTHENUM\\C".to_string(),
            battery: Some(10),
            address: Some("XYZ".to_string()),
        },
        // same address again: replaces the first entry
        PnpDeviceProperties {
            instance_id: "BTHENUM\\D".to_string(),
            battery: Some(55),
            address: Some("0000000000A1".to_string()),
        },
    ];
    let table = get_pnp_devices_info(&raws);
    assert_eq!(table.len(), 1);
    assert_eq!(table[0].address, 0xA1);
    assert_eq!(table[0].battery, 55);
    assert_eq!(table[0].instance_id, "BTHENUM\\D");
}

#[test]
fn single_device_properties_normalize_or_fail() {
    let good = PnpDeviceProperties {
        instance_id: "BTHENUM\\A".to_string(),
        battery: Some(40),
        address: Some("00e04c2390af".to_string()),
    };
    let info = get_pnp_device_info(good).unwrap();
    assert_eq!(info.address, 0x00E0_4C23_90AF);
    assert_eq!(info.battery, 40);

    let missing = PnpDeviceProperties {
        instance_id: "BTHENUM\\A".to_string(),
        battery: None,
        address: Some("00e04c2390af".to_string()),
    };
    assert_eq!(get_pnp_device_info(missing).unwrap_err(), PnpInfoError::MissingBattery);
}

#[test]
fn missing_or_bad_properties_name_their_error() {
    let no_address = PnpDeviceProperties {
        instance_id: "BTHENUM\\A".to_string(),
        battery: Some(40),
        address: None,
    };
    assert_eq!(get_pnp_device_info(no_address).unwrap_err(), PnpInfoError::MissingAddress);

    let bad_address = PnpDeviceProperties {
        instance_id: "BTHENUM\\A".to_string(),
        battery: Some(40),
        address: Some("not hex".to_string()),
    };
    assert_eq!(get_pnp_device_info(bad_address).unwrap_err(), PnpInfoError::BadAddress);
}

#[test]
fn classic_with_overfull_table_battery_is_omitted() {
    let table = vec![pnp_entry(0xA1, 130, "BTHENUM\\X")];
    let err = process_btc_device("Head".to_string(), true, 0xA1, "i".to_string(), &table)
        .expect_err("a reading above one hundred percent is malformed");
    assert_eq!(err, QueryError::InvalidBattery);
}

#[test]
fn address_parsing_and_rendering() {
    assert_eq!(parse_hex_address("0000DD1AFFE2"), Some(0xDD1A_FFE2));
    assert_eq!(parse_hex_address("dd1affe2"), Some(0xDD1A_FFE2));
    assert_eq!(parse_hex_address(""), None);
    assert_eq!(parse_hex_address("12G4"), None);
    assert_eq!(parse_hex_address("FFFFFFFFFFFFFFFF"), Some(u64::MAX));
    assert_eq!(parse_hex_address("10000000000000000"), None);
    assert_eq!(format_address(0xDD1A_FFE2), "0000DD1AFFE2");
    assert_eq!(format_address(0), "000000000000");
    // the rendering parses back to the same address
    assert_eq!(parse_hex_address(&format_address(0x00E0_4C23_90AF)), Some(0x00E0_4C23_90AF));
}
