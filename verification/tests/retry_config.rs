use bluegauge::config::{Config, NotifyOptions, TrayConfig, TrayIconSource};
use bluegauge::device::{BluetoothInfo, BluetoothType};
use bluegauge::retry::{EnumerationSession, RetryDecision, RetryPolicy, settle_enumeration};
use bluegauge::snapshot::Snapshot;
use bluegauge::tray_info::{SystemTheme, convert_tray_info, truncate_with_ellipsis};

fn le_device(name: &str, address: u64, battery: u8, status: bool) -> BluetoothInfo {
    BluetoothInfo {
        name: name.to_string(),
        battery,
        status,
        address,
        kind: BluetoothType::LowEnergy,
    }
}

#[test]
fn enumeration_failure_degrades_to_prior_snapshot() {
    // Enumeration fails twice under max_attempts = 2 with a prior snapshot
    // {A} held: the engine keeps the prior snapshot unchanged and raises
    // the degraded signal, rather than pretending no device exists.
    let policy = RetryPolicy::pnp_enumeration();
    let mut session = EnumerationSession::new(policy);
    assert_eq!(session.on_failure(), RetryDecision::Retry(2));
    assert_eq!(session.on_failure(), RetryDecision::GiveUp);

    let mut prior = Snapshot::new();
    prior.apply_delta(le_device("A", 0xA1, 50, true));

    let outcome = settle_enumeration(None, Some(&prior));
    assert!(outcome.degraded);
    assert_eq!(outcome.snapshot.len(), 1);
    let kept = outcome.snapshot.find_by_address(0xA1).unwrap();
    assert_eq!(kept.name, "A");
    assert_eq!(kept.battery, 50);
}

#[test]
fn fresh_enumeration_is_not_degraded() {
    let mut fresh = Snapshot::new();
    fresh.apply_delta(le_device("B", 0xB2, 70, true));
    let outcome = settle_enumeration(Some(fresh), None);
    assert!(!outcome.degraded);
    assert_eq!(outcome.snapshot.len(), 1);
}

#[test]
fn exhausted_retries_without_prior_yield_the_empty_snapshot() {
    let outcome = settle_enumeration(None, None);
    assert!(outcome.degraded);
    assert_eq!(outcome.snapshot.len(), 0);
}

#[test]
fn retry_budget_counts_attempts() {
    let mut session = EnumerationSession::new(RetryPolicy::new(3, 7));
    assert_eq!(session.on_failure(), RetryDecision::Retry(7));
    assert_eq!(session.on_failure(), RetryDecision::Retry(7));
    assert_eq!(session.on_failure(), RetryDecision::GiveUp);
}

#[test]
fn config_defaults_match_the_created_file() {
    let config = Config::default();
    assert_eq!(config.get_update_interval(), 60);
    assert_eq!(config.get_low_battery(), 15);
    assert!(!config.get_mute());
    assert!(!config.get_disconnection());
    assert!(!config.get_reconnection());
    assert!(!config.get_added());
    assert!(!config.get_removed());
    assert!(!config.get_show_disconnected());
    assert!(!config.get_truncate_name());
    assert!(!config.get_prefix_battery());
    assert!(config.get_tray_battery_icon_bt_id().is_none());
}

#[test]
fn notify_options_update_by_name() {
    let mut options = NotifyOptions::default();
    options.update("mute", true);
    options.update("reconnection", true);
    options.update("no_such_switch", true);
    assert!(options.mute);
    assert!(options.reconnection);
    assert!(!options.disconnection);
    assert!(!options.added);
    assert!(!options.removed);
    assert_eq!(options.low_battery, 15);
    options.update("mute", false);
    assert!(!options.mute);
}

#[test]
fn tray_config_update_by_name() {
    let mut tray = TrayConfig::default();
    tray.update("truncate_name", true);
    tray.update("prefix_battery", true);
    tray.update("unknown", true);
    assert!(tray.tooltip_options.truncate_name);
    assert!(tray.tooltip_options.prefix_battery);
    assert!(!tray.tooltip_options.show_disconnected);
    assert_eq!(tray.update_interval, 60);
}

#[test]
fn icon_source_id_updates_per_variant() {
    let mut source = TrayIconSource::App;
    source.update_id("0000000000A1");
    assert!(matches!(source, TrayIconSource::App));

    let mut source = TrayIconSource::BatteryCustom { id: "old".to_string() };
    source.update_id("0000000000A1");
    assert!(matches!(source, TrayIconSource::BatteryCustom { ref id } if id == "0000000000A1"));

    let mut source = TrayIconSource::BatteryFont {
        id: "old".to_string(),
        font_name: "Segoe UI".to_string(),
        font_color: None,
    };
    source.update_id("0000000000B2");
    match source {
        TrayIconSource::BatteryFont { id, font_name, font_color } => {
            assert_eq!(id, "0000000000B2");
            assert_eq!(font_name, "Segoe UI");
            assert!(font_color.is_none());
        }
        other => panic!("variant must be kept, got {other:?}"),
    }

    let mut config = Config::default();
    config.tray_config.tray_icon_source = TrayIconSource::BatteryCustom { id: "X".to_string() };
    assert_eq!(config.get_tray_battery_icon_bt_id().as_deref(), Some("X"));
}

#[test]
fn truncation_adds_an_ellipsis_only_when_needed() {
    assert_eq!(truncate_with_ellipsis(true, "A very long headset name", 10), "A very lon...");
    assert_eq!(truncate_with_ellipsis(true, "Short", 10), "Short");
    assert_eq!(truncate_with_ellipsis(false, "A very long headset name", 10), "A very long headset name");
}

#[test]
fn tooltip_lines_follow_the_configuration() {
    let mut snapshot = Snapshot::new();
    snapshot.apply_delta(le_device("Buds", 0xC3, 90, true));
    snapshot.apply_delta(le_device("Mouse", 0xD4, 5, false));

    let mut config = Config::default();
    let lines = convert_tray_info(&snapshot, &config);
    assert_eq!(lines, vec!["🟢Buds -  90%".to_string()]);

    config.tray_config.update("show_disconnected", true);
    let lines = convert_tray_info(&snapshot, &config);
    assert_eq!(lines, vec!["🟢Buds -  90%".to_string(), "🔴Mouse -   5%".to_string()]);

    config.tray_config.update("prefix_battery", true);
    let lines = convert_tray_info(&snapshot, &config);
    assert_eq!(lines, vec!["🟢 90% - Buds".to_string(), "🔴  5% - Mouse".to_string()]);

    snapshot.apply_delta(le_device("Pen", 0xE5, 100, true));
    config.tray_config.update("prefix_battery", false);
    config.tray_config.update("truncate_name", true);
    let lines = convert_tray_info(&snapshot, &config);
    assert_eq!(
        lines,
        vec![
            "🟢Buds -  90%".to_string(),
            "🔴Mouse -   5%".to_string(),
            "🟢Pen - 100%".to_string(),
        ]
    );
}

#[test]
fn battery_icon_follows_the_configured_device() {
    let mut snapshot = Snapshot::new();
    snapshot.apply_delta(le_device("Buds", 0xC3, 90, true));
    let mut config = Config::default();

    // The application logo follows no device.
    assert!(bluegauge::tray_info::find_tray_battery_record(&snapshot, &config).is_none());

    config.tray_config.tray_icon_source = TrayIconSource::BatteryCustom {
        id: "0000000000C3".to_string(),
    };
    let rec = bluegauge::tray_info::find_tray_battery_record(&snapshot, &config)
        .expect("the configured device is paired");
    assert_eq!(rec.address, 0xC3);

    // An identifier no paired device renders to matches nothing.
    config.tray_config.tray_icon_source = TrayIconSource::BatteryCustom {
        id: "0000000000EE".to_string(),
    };
    assert!(bluegauge::tray_info::find_tray_battery_record(&snapshot, &config).is_none());
}

#[test]
fn theme_font_colors() {
    assert_eq!(SystemTheme::Dark.get_font_color(), "#FFFFFF");
    assert_eq!(SystemTheme::Light.get_font_color(), "#1F1F1F");
}
