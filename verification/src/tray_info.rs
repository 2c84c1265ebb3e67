//! Rendering device records into the tray tooltip lines.
//!
//! One line per device: a status lamp, the (possibly truncated) name and
//! the battery percentage, with the battery either prefixing or trailing
//! the name. Disconnected devices appear only when the tooltip is
//! configured to show them.

use vstd::prelude::*;
use vstd::string::{StrSliceExecFns, StringExecFns};

use crate::config::{Config, IconSourceView, TrayIconSource};
use crate::device::{BluetoothInfo, RecordView};
use crate::snapshot::Snapshot;
use crate::util::{format_address, hex_digit_char, hex_digit_str, hex_render, str_eq};

verus! {

/// The name, shortened to `max` characters plus an ellipsis when it is
/// longer than that and shortening is on.
pub open spec fn spec_truncate(truncate: bool, name: Seq<char>, max: nat) -> Seq<char> {
    if truncate && name.len() > max {
        name.take(max as int) + "..."@
    } else {
        name
    }
}

/// Shorten a device name for display.
pub fn truncate_with_ellipsis(truncate_device_name: bool, name: &str, max_chars: usize) -> (r:
    String)
    ensures
        r@ == spec_truncate(truncate_device_name, name@, max_chars as nat),
{
    if truncate_device_name && name.unicode_len() > max_chars {
        let mut shortened = name.substring_char(0, max_chars).to_owned();
        shortened.append("...");
        shortened
    } else {
        name.to_owned()
    }
}

/// The battery percentage as three characters, space-padded on the left.
pub open spec fn battery_field(b: u8) -> Seq<char> {
    if b >= 100 {
        seq![
            hex_digit_char(b as int / 100),
            hex_digit_char((b as int / 10) % 10),
            hex_digit_char(b as int % 10),
        ]
    } else if b >= 10 {
        seq![' ', hex_digit_char(b as int / 10), hex_digit_char(b as int % 10)]
    } else {
        seq![' ', ' ', hex_digit_char(b as int)]
    }
}

/// Render the battery percentage, right-aligned in three columns.
fn render_battery_field(b: u8) -> (r: String)
    ensures
        r@ == battery_field(b),
{
    proof {
        reveal_strlit(" ");
    }
    let mut out = String::new();
    if b >= 100 {
        out.append(hex_digit_str((b / 100) as u64));
        out.append(hex_digit_str(((b / 10) % 10) as u64));
        out.append(hex_digit_str((b % 10) as u64));
    } else if b >= 10 {
        out.append(" ");
        out.append(hex_digit_str((b / 10) as u64));
        out.append(hex_digit_str((b % 10) as u64));
    } else {
        out.append(" ");
        out.append(" ");
        out.append(hex_digit_str(b as u64));
    }
    proof {
        assert(out@ =~= battery_field(b));
    }
    out
}

/// One tooltip line for one device: a green lamp for a connected device,
/// a red one otherwise, then battery and name in the configured order.
pub open spec fn format_line(rec: RecordView, truncate: bool, prefix_battery: bool) -> Seq<char> {
    let icon = if rec.status {
        "🟢"@
    } else {
        "🔴"@
    };
    let name = spec_truncate(truncate, rec.name, 10);
    if prefix_battery {
        icon + battery_field(rec.battery) + "% - "@ + name
    } else {
        icon + name + " - "@ + battery_field(rec.battery) + "%"@
    }
}

/// Render one device's tooltip line.
fn render_line(rec: &BluetoothInfo, truncate: bool, prefix_battery: bool) -> (r: String)
    ensures
        r@ == format_line(rec@, truncate, prefix_battery),
{
    let mut out = if rec.status {
        "🟢".to_owned()
    } else {
        "🔴".to_owned()
    };
    let name = truncate_with_ellipsis(truncate, rec.name.as_str(), 10);
    if prefix_battery {
        let battery = render_battery_field(rec.battery);
        out.append(battery.as_str());
        out.append("% - ");
        out.append(name.as_str());
    } else {
        out.append(name.as_str());
        out.append(" - ");
        let battery = render_battery_field(rec.battery);
        out.append(battery.as_str());
        out.append("%");
    }
    proof {
        assert(out@ =~= format_line(rec@, truncate, prefix_battery));
    }
    out
}

/// Whether a device's line appears in the tooltip at all.
pub open spec fn line_shown(rec: RecordView, show_disconnected: bool) -> bool {
    rec.status || show_disconnected
}

/// The tooltip lines of a snapshot, in snapshot order, one per shown
/// device.
pub open spec fn tray_lines(
    v: Seq<RecordView>,
    show_disconnected: bool,
    truncate: bool,
    prefix_battery: bool,
) -> Seq<Seq<char>>
    decreases v.len(),
{
    if v.len() == 0 {
        Seq::empty()
    } else {
        let rest = tray_lines(v.drop_last(), show_disconnected, truncate, prefix_battery);
        if line_shown(v.last(), show_disconnected) {
            rest.push(format_line(v.last(), truncate, prefix_battery))
        } else {
            rest
        }
    }
}

/// Render the tray tooltip: one line per device the configuration shows,
/// in snapshot order.
pub fn convert_tray_info(bluetooth_devices_info: &Snapshot, config: &Config) -> (r: Vec<String>)
    ensures
        r.deep_view() == tray_lines(
            bluetooth_devices_info@,
            config.tray_config.tooltip_options.show_disconnected,
            config.tray_config.tooltip_options.truncate_name,
            config.tray_config.tooltip_options.prefix_battery,
        ),
{
    let show_disconnected = config.get_show_disconnected();
    let truncate = config.get_truncate_name();
    let prefix_battery = config.get_prefix_battery();
    let ghost v = bluetooth_devices_info@;
    let mut out: Vec<String> = Vec::new();
    let mut i: usize = 0;
    proof {
        assert(out.deep_view() =~= tray_lines(
            v.take(0),
            show_disconnected,
            truncate,
            prefix_battery,
        ));
    }
    while i < bluetooth_devices_info.len()
        invariant
            v == bluetooth_devices_info@,
            i <= v.len(),
            out.deep_view() == tray_lines(
                v.take(i as int),
                show_disconnected,
                truncate,
                prefix_battery,
            ),
        decreases bluetooth_devices_info@.len() - i,
    {
        proof {
            assert(v.take(i + 1).drop_last() =~= v.take(i as int));
            assert(v.take(i + 1).last() == v[i as int]);
        }
        let rec = bluetooth_devices_info.get(i);
        if rec.status || show_disconnected {
            let ghost before = out.deep_view();
            let line = render_line(rec, truncate, prefix_battery);
            out.push(line);
            proof {
                assert(out.deep_view() =~= before.push(
                    format_line(v[i as int], truncate, prefix_battery),
                ));
            }
        }
        i += 1;
    }
    proof {
        assert(v.take(v.len() as int) =~= v);
    }
    out
}

/// The device whose battery level the tray icon should show: the record
/// whose rendered address the battery-driven icon source names. `None`
/// when the icon is the plain application logo, or when no known device
/// matches the configured identifier (the icon then falls back to its
/// unpaired image).
pub fn find_tray_battery_record<'a>(
    bluetooth_devices_info: &'a Snapshot,
    config: &Config,
) -> (r: Option<&'a BluetoothInfo>)
    ensures
        match config.tray_config.tray_icon_source@ {
            IconSourceView::App => r is None,
            IconSourceView::BatteryCustom { id } => found_by_rendered_address(
                bluetooth_devices_info@,
                id,
                r,
            ),
            IconSourceView::BatteryFont { id, .. } => found_by_rendered_address(
                bluetooth_devices_info@,
                id,
                r,
            ),
        },
{
    let id = match &config.tray_config.tray_icon_source {
        TrayIconSource::App => {
            return None;
        },
        TrayIconSource::BatteryCustom { id } => id,
        TrayIconSource::BatteryFont { id, .. } => id,
    };
    let ghost v = bluetooth_devices_info@;
    let mut i: usize = 0;
    while i < bluetooth_devices_info.len()
        invariant
            v == bluetooth_devices_info@,
            i <= v.len(),
            match config.tray_config.tray_icon_source@ {
                IconSourceView::App => false,
                IconSourceView::BatteryCustom { id: configured } => configured == id@,
                IconSourceView::BatteryFont { id: configured, .. } => configured == id@,
            },
            forall|j: int| 0 <= j < i ==> hex_render((#[trigger] v[j]).address as int, 12) != id@,
        decreases bluetooth_devices_info@.len() - i,
    {
        let rec = bluetooth_devices_info.get(i);
        let rendered = format_address(rec.address);
        if str_eq(rendered.as_str(), id.as_str()) {
            proof {
                assert(rec@ == v[i as int]);
                assert(v.contains(v[i as int]));
                assert(rendered@ == hex_render(rec@.address as int, 12));
                assert(rendered@ == id@);
            }
            return Some(rec);
        }
        i += 1;
    }
    None
}

/// Either a record whose rendered address is `id` was handed back, or no
/// record of the snapshot renders to `id`.
pub open spec fn found_by_rendered_address(
    v: Seq<RecordView>,
    id: Seq<char>,
    r: Option<&BluetoothInfo>,
) -> bool {
    match r {
        Some(rec) => v.contains(rec@) && hex_render(rec@.address as int, 12) == id,
        None => forall|j: int|
            0 <= j < v.len() ==> hex_render((#[trigger] v[j]).address as int, 12) != id,
    }
}

/// The colour scheme the platform is using.
#[derive(PartialEq, Eq, Structural, Clone, Copy, Debug)]
pub enum SystemTheme {
    Light,
    Dark,
}

impl SystemTheme {
    /// The font colour a rendered battery glyph uses on this theme: white
    /// on dark, near-black on light.
    pub fn get_font_color(&self) -> (r: String)
        ensures
            r@ == (match self {
                SystemTheme::Dark => "#FFFFFF"@,
                SystemTheme::Light => "#1F1F1F"@,
            }),
    {
        match self {
            SystemTheme::Dark => "#FFFFFF".to_owned(),
            SystemTheme::Light => "#1F1F1F".to_owned(),
        }
    }
}

} // verus!
