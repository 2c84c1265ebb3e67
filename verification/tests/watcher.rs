use bluegauge::device::{BluetoothInfo, BluetoothType};
use bluegauge::listen::{WatchAction, WatchTarget, WatcherSupervisor};
use bluegauge::pnp::PnpDeviceInfo;
use bluegauge::snapshot::Snapshot;
use bluegauge::watch::{
    BluetoothLEDeviceUpdate, WatchBluetoothDeviceInfo, WatchEvent, poll_delay_secs,
    process_classic_device, process_le_device,
};

fn le_device(name: &str, address: u64, battery: u8, status: bool) -> BluetoothInfo {
    BluetoothInfo {
        name: name.to_string(),
        battery,
        status,
        address,
        kind: BluetoothType::LowEnergy,
    }
}

fn classic_device(name: &str, address: u64, battery: u8, status: bool) -> BluetoothInfo {
    BluetoothInfo {
        name: name.to_string(),
        battery,
        status,
        address,
        kind: BluetoothType::Classic(format!("BTHENUM\\{name}")),
    }
}

fn target_of(rec: BluetoothInfo) -> WatchTarget {
    WatchTarget {
        address: rec.address,
        kind: rec.kind.clone(),
        last_known: rec,
    }
}

#[test]
fn watcher_exclusivity_across_reselect() {
    // After select(A) then select(B), at no point are both watch tasks live:
    // B's task is spawned only once A's task is reported gone.
    let mut supervisor = WatcherSupervisor::new();
    let a = target_of(le_device("A", 0xA1, 50, true));
    let b = target_of(le_device("B", 0xB2, 60, true));

    let action = supervisor.select(Some(a));
    assert!(matches!(action, WatchAction::Spawn(ref t) if t.address == 0xA1));
    assert_eq!(supervisor.live_address(), Some(0xA1));
    supervisor.task_started();

    // Selecting B does not spawn: A's task is merely asked to cancel.
    let action = supervisor.select(Some(b));
    assert!(matches!(action, WatchAction::Cancel));
    assert_eq!(supervisor.live_address(), Some(0xA1));

    // Only the report that A's task ended spawns B.
    let action = supervisor.task_ended();
    assert!(matches!(action, WatchAction::Spawn(ref t) if t.address == 0xB2));
    assert_eq!(supervisor.live_address(), Some(0xB2));
}

#[test]
fn reselecting_the_same_target_is_a_no_op() {
    let mut supervisor = WatcherSupervisor::new();
    let a = target_of(le_device("A", 0xA1, 50, true));
    let a_again = target_of(le_device("A", 0xA1, 12, false)); // same address and kind
    supervisor.select(Some(a));
    supervisor.task_started();
    let action = supervisor.select(Some(a_again));
    assert!(matches!(action, WatchAction::Stay));
    assert_eq!(supervisor.live_address(), Some(0xA1));
}

#[test]
fn stop_is_idempotent_and_select_none_stops() {
    let mut supervisor = WatcherSupervisor::new();
    assert!(matches!(supervisor.stop(), WatchAction::Stay));
    assert!(supervisor.is_idle());

    let a = target_of(le_device("A", 0xA1, 50, true));
    supervisor.select(Some(a));
    supervisor.task_started();
    assert!(matches!(supervisor.select(None), WatchAction::Cancel));
    assert!(matches!(supervisor.stop(), WatchAction::Stay));
    assert!(matches!(supervisor.task_ended(), WatchAction::Stay));
    assert!(supervisor.is_idle());
}

#[test]
fn task_failure_frees_the_slot() {
    let mut supervisor = WatcherSupervisor::new();
    let a = target_of(le_device("A", 0xA1, 50, true));
    supervisor.select(Some(a));
    supervisor.task_started();
    // The task dies on its own (failure or panic): the slot goes idle so a
    // later select can retry cleanly.
    let action = supervisor.task_ended();
    assert!(matches!(action, WatchAction::Stay));
    assert!(supervisor.is_idle());
}

#[test]
fn registry_splits_by_transport_and_reacts_to_events() {
    let mut snapshot = Snapshot::new();
    snapshot.apply_delta(le_device("Buds", 0xC3, 90, true));
    snapshot.apply_delta(classic_device("Key", 0xA1, 40, true));
    let mut registry = WatchBluetoothDeviceInfo::new(&snapshot);

    assert!(registry.contains(&BluetoothType::LowEnergy, 0xC3));
    assert!(!registry.contains(&BluetoothType::LowEnergy, 0xA1));
    assert!(registry.contains(&BluetoothType::Classic(String::new()), 0xA1));

    // An update refreshes the record without asking for a resubscribe.
    let (restart, forwarded) =
        registry.on_watch_event(WatchEvent::Update(le_device("Buds", 0xC3, 85, true)));
    assert!(!restart);
    assert_eq!(forwarded.unwrap().battery, 85);

    // An appearance asks for a resubscribe.
    let (restart, forwarded) =
        registry.on_watch_event(WatchEvent::Add(le_device("Pen", 0xD4, 70, true)));
    assert!(restart);
    assert_eq!(forwarded.unwrap().address, 0xD4);
    assert!(registry.contains(&BluetoothType::LowEnergy, 0xD4));

    // A disappearance hands back the old record and asks for a resubscribe.
    let (restart, removed) =
        registry.on_watch_event(WatchEvent::Remove(BluetoothType::LowEnergy, 0xC3));
    assert!(restart);
    assert_eq!(removed.unwrap().battery, 85);
    assert!(!registry.contains(&BluetoothType::LowEnergy, 0xC3));

    // Removing an unknown device forwards nothing.
    let (restart, removed) =
        registry.on_watch_event(WatchEvent::Remove(BluetoothType::LowEnergy, 0xEE));
    assert!(restart);
    assert!(removed.is_none());
}

#[test]
fn le_updates_replace_one_reading() {
    let rec = le_device("Buds", 0xC3, 90, true);
    let after_battery = process_le_device(&rec, &BluetoothLEDeviceUpdate::BatteryLevel(42));
    assert_eq!(after_battery.battery, 42);
    assert!(after_battery.status);
    let after_status = process_le_device(&rec, &BluetoothLEDeviceUpdate::ConnectionStatus(false));
    assert_eq!(after_status.battery, 90);
    assert!(!after_status.status);
}

#[test]
fn classic_poll_updates_only_on_change_and_exact_match() {
    let rec = classic_device("Key", 0xA1, 40, true);

    // Nothing changed: no refresh.
    let same = PnpDeviceInfo { address: 0xA1, battery: 40, instance_id: "i".to_string() };
    assert!(process_classic_device(&rec, true, &same).is_none());

    // Battery changed on the matching entry.
    let drained = PnpDeviceInfo { address: 0xA1, battery: 25, instance_id: "i".to_string() };
    let updated = process_classic_device(&rec, true, &drained).unwrap();
    assert_eq!(updated.battery, 25);
    assert!(updated.status);

    // Another device's entry never leaks its battery in, even when the
    // status changed at the same time.
    let other = PnpDeviceInfo { address: 0xB2, battery: 5, instance_id: "j".to_string() };
    let updated = process_classic_device(&rec, false, &other).unwrap();
    assert_eq!(updated.battery, 40);
    assert!(!updated.status);
}

#[test]
fn poll_delay_tiers() {
    assert_eq!(poll_delay_secs(&classic_device("K", 0xA1, 90, false)), 5);
    assert_eq!(poll_delay_secs(&classic_device("K", 0xA1, 30, true)), 7);
    assert_eq!(poll_delay_secs(&classic_device("K", 0xA1, 31, true)), 10);
}
