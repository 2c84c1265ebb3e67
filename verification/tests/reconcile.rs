use bluegauge::config::{Config, NotifyOptions, TrayConfig};
use bluegauge::device::{BluetoothInfo, BluetoothType};
use bluegauge::notified::NotifiedLowBatterySet;
use bluegauge::reconcile::{DeviceEvent, compare_bt_info_to_send_notifications, reconcile};
use bluegauge::snapshot::Snapshot;

fn le_device(name: &str, address: u64, battery: u8, status: bool) -> BluetoothInfo {
    BluetoothInfo {
        name: name.to_string(),
        battery,
        status,
        address,
        kind: BluetoothType::LowEnergy,
    }
}

fn snapshot_of(records: Vec<BluetoothInfo>) -> Snapshot {
    let mut snapshot = Snapshot::new();
    for rec in records {
        snapshot.apply_delta(rec);
    }
    snapshot
}

fn all_on_options(low_battery: u8) -> NotifyOptions {
    NotifyOptions {
        mute: false,
        low_battery,
        disconnection: true,
        reconnection: true,
        added: true,
        removed: true,
    }
}

fn all_on_config(low_battery: u8) -> Config {
    Config {
        notify_options: all_on_options(low_battery),
        tray_config: TrayConfig::default(),
        force_update: false,
    }
}

#[test]
fn reconcile_same_snapshot_is_empty() {
    let snap = snapshot_of(vec![
        le_device("Buds", 0xA1, 50, true),
        le_device("Mouse", 0xB2, 80, false),
    ]);
    let mut notified = NotifiedLowBatterySet::new();
    let events = reconcile(&snap, &snap, &mut notified, &all_on_options(15));
    assert!(events.is_empty());
}

#[test]
fn low_battery_scenario() {
    // previous = {A(battery=50, connected)}, current = {A(battery=10, connected)},
    // threshold 15: exactly one event, LowBattery(A).
    let previous = snapshot_of(vec![le_device("A", 0xA1, 50, true)]);
    let current = snapshot_of(vec![le_device("A", 0xA1, 10, true)]);
    let mut notified = NotifiedLowBatterySet::new();
    let events = reconcile(&previous, &current, &mut notified, &all_on_options(15));
    assert_eq!(events.len(), 1);
    match &events[0] {
        DeviceEvent::LowBattery(rec) => {
            assert_eq!(rec.address, 0xA1);
            assert_eq!(rec.battery, 10);
        }
        other => panic!("expected a low-battery event, got {other:?}"),
    }
    assert!(notified.is_alerted(0xA1));
}

#[test]
fn added_scenario() {
    // previous = {}, current = {A, B}: two Added events, one per device.
    let previous = Snapshot::new();
    let current = snapshot_of(vec![
        le_device("A", 0xA1, 50, true),
        le_device("B", 0xB2, 60, true),
    ]);
    let mut notified = NotifiedLowBatterySet::new();
    let events = reconcile(&previous, &current, &mut notified, &all_on_options(15));
    assert_eq!(events.len(), 2);
    match (&events[0], &events[1]) {
        (DeviceEvent::Added(a), DeviceEvent::Added(b)) => {
            let mut addresses = vec![a.address, b.address];
            addresses.sort();
            assert_eq!(addresses, vec![0xA1, 0xB2]);
        }
        other => panic!("expected two added events, got {other:?}"),
    }
}

#[test]
fn removed_scenario() {
    // previous = {A(connected)}, current = {}: Removed(A), not Disconnected,
    // since the record vanished rather than merely changing state.
    let previous = snapshot_of(vec![le_device("A", 0xA1, 50, true)]);
    let current = Snapshot::new();
    let mut notified = NotifiedLowBatterySet::new();
    let events = reconcile(&previous, &current, &mut notified, &all_on_options(15));
    assert_eq!(events.len(), 1);
    match &events[0] {
        DeviceEvent::Removed(rec) => assert_eq!(rec.address, 0xA1),
        other => panic!("expected a removed event, got {other:?}"),
    }
}

fn low_battery_fires(readings: &[u8], threshold: u8) -> Vec<u8> {
    let options = all_on_options(threshold);
    let mut notified = NotifiedLowBatterySet::new();
    let mut fired = Vec::new();
    for window in readings.windows(2) {
        let previous = snapshot_of(vec![le_device("A", 0xA1, window[0], true)]);
        let current = snapshot_of(vec![le_device("A", 0xA1, window[1], true)]);
        let events = reconcile(&previous, &current, &mut notified, &options);
        for event in &events {
            if let DeviceEvent::LowBattery(rec) = event {
                fired.push(rec.battery);
            }
        }
    }
    fired
}

#[test]
fn hysteresis_single_fire_across_excursions() {
    // Battery 50 -> 10 -> 8 -> 12 -> 5 with threshold 15: the alert fires
    // once, at the 10 observation. The later readings stay below the
    // threshold — the rise to 12 is not a recovery, so the flag stays
    // raised and neither 8 nor 12 nor 5 fires again.
    assert_eq!(low_battery_fires(&[50, 10, 8, 12, 5], 15), vec![10]);
}

#[test]
fn hysteresis_rearms_per_excursion() {
    // Two genuine excursions below the threshold, separated by a recovery
    // at or above it, fire exactly twice — not once per low reading.
    assert_eq!(low_battery_fires(&[50, 10, 8, 20, 5, 3], 15), vec![10, 5]);
}

#[test]
fn recovery_emits_nothing_and_rearms() {
    let options = all_on_options(15);
    let mut notified = NotifiedLowBatterySet::new();

    let previous = snapshot_of(vec![le_device("A", 0xA1, 50, true)]);
    let low = snapshot_of(vec![le_device("A", 0xA1, 10, true)]);
    assert_eq!(reconcile(&previous, &low, &mut notified, &options).len(), 1);

    // Recovery at the threshold emits no event but clears the flag.
    let recovered = snapshot_of(vec![le_device("A", 0xA1, 15, true)]);
    let events = reconcile(&low, &recovered, &mut notified, &options);
    assert!(events.is_empty());
    assert!(!notified.is_alerted(0xA1));

    // A second excursion fires again.
    let low_again = snapshot_of(vec![le_device("A", 0xA1, 9, true)]);
    let events = reconcile(&recovered, &low_again, &mut notified, &options);
    assert_eq!(events.len(), 1);
    assert!(matches!(&events[0], DeviceEvent::LowBattery(rec) if rec.battery == 9));
}

#[test]
fn status_changes_are_classified() {
    let options = all_on_options(15);
    let mut notified = NotifiedLowBatterySet::new();

    let connected = snapshot_of(vec![le_device("A", 0xA1, 50, true)]);
    let disconnected = snapshot_of(vec![le_device("A", 0xA1, 50, false)]);

    let events = reconcile(&connected, &disconnected, &mut notified, &options);
    assert_eq!(events.len(), 1);
    assert!(matches!(&events[0], DeviceEvent::Disconnected(rec) if rec.address == 0xA1));

    let events = reconcile(&disconnected, &connected, &mut notified, &options);
    assert_eq!(events.len(), 1);
    assert!(matches!(&events[0], DeviceEvent::Reconnected(rec) if rec.address == 0xA1));
}

#[test]
fn disabled_notifications_are_gated() {
    let options = NotifyOptions {
        mute: false,
        low_battery: 15,
        disconnection: false,
        reconnection: false,
        added: false,
        removed: false,
    };
    let mut notified = NotifiedLowBatterySet::new();
    let previous = snapshot_of(vec![
        le_device("A", 0xA1, 50, true),
        le_device("B", 0xB2, 60, false),
    ]);
    let current = snapshot_of(vec![
        le_device("A", 0xA1, 50, false),
        le_device("C", 0xC3, 70, true),
    ]);
    // A disconnected, B removed, C added: every gate is off, nothing fires.
    let events = reconcile(&previous, &current, &mut notified, &options);
    assert!(events.is_empty());
}

#[test]
fn status_and_battery_change_together() {
    let options = all_on_options(15);
    let mut notified = NotifiedLowBatterySet::new();
    let previous = snapshot_of(vec![le_device("A", 0xA1, 50, false)]);
    let current = snapshot_of(vec![le_device("A", 0xA1, 10, true)]);
    let events = reconcile(&previous, &current, &mut notified, &options);
    assert_eq!(events.len(), 2);
    assert!(events.iter().any(|e| matches!(e, DeviceEvent::LowBattery(_))));
    assert!(events.iter().any(|e| matches!(e, DeviceEvent::Reconnected(_))));
}

#[test]
fn event_addresses_cover_the_changed_devices() {
    // One added, one removed, one matched-updated device: together the
    // events name exactly the addresses whose records differ between the
    // two snapshots, and the untouched device stays silent.
    let options = all_on_options(15);
    let mut notified = NotifiedLowBatterySet::new();
    let previous = snapshot_of(vec![
        le_device("Stays", 0x01, 50, true),
        le_device("Goes", 0x02, 60, true),
        le_device("Flips", 0x03, 70, true),
    ]);
    let current = snapshot_of(vec![
        le_device("Stays", 0x01, 50, true),
        le_device("Flips", 0x03, 70, false),
        le_device("Comes", 0x04, 80, true),
    ]);
    let events = reconcile(&previous, &current, &mut notified, &options);
    let mut addresses: Vec<u64> = events
        .iter()
        .map(|e| match e {
            DeviceEvent::Added(r)
            | DeviceEvent::Removed(r)
            | DeviceEvent::Reconnected(r)
            | DeviceEvent::Disconnected(r)
            | DeviceEvent::LowBattery(r) => r.address,
        })
        .collect();
    addresses.sort();
    assert_eq!(addresses, vec![0x02, 0x03, 0x04]);
}

#[test]
fn compare_skips_unchanged_snapshot() {
    let options = all_on_options(15);
    let mut notified = NotifiedLowBatterySet::new();
    let mut canonical = snapshot_of(vec![le_device("A", 0xA1, 50, true)]);
    // Same records in a different construction order still count as "no change".
    let fresh = snapshot_of(vec![le_device("A", 0xA1, 50, true)]);
    let report = compare_bt_info_to_send_notifications(
        &all_on_config(15),
        &mut notified,
        &mut canonical,
        &fresh,
        false,
    );
    assert!(report.is_none());
}

#[test]
fn compare_force_runs_even_without_change() {
    let options = all_on_options(15);
    let mut notified = NotifiedLowBatterySet::new();
    let mut canonical = snapshot_of(vec![le_device("A", 0xA1, 50, true)]);
    let fresh = snapshot_of(vec![le_device("A", 0xA1, 50, true)]);
    let report = compare_bt_info_to_send_notifications(
        &all_on_config(15),
        &mut notified,
        &mut canonical,
        &fresh,
        true,
    )
    .expect("the force path must produce a report");
    assert!(report.events.is_empty());
    assert_eq!(report.snapshot.len(), 1);
}

#[test]
fn compare_updates_canonical_snapshot() {
    let options = all_on_options(15);
    let mut notified = NotifiedLowBatterySet::new();
    let mut canonical = snapshot_of(vec![le_device("A", 0xA1, 50, true)]);
    let fresh = snapshot_of(vec![le_device("A", 0xA1, 40, true)]);
    let report = compare_bt_info_to_send_notifications(
        &all_on_config(15),
        &mut notified,
        &mut canonical,
        &fresh,
        false,
    )
    .expect("a changed snapshot must produce a report");
    assert_eq!(report.events.len(), 0); // 40 is above the threshold
    let kept = canonical
        .find_by_address(0xA1)
        .expect("the device must stay canonical");
    assert_eq!(kept.battery, 40);
}
