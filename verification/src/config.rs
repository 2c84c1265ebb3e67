//! Runtime configuration: which notifications are enabled, the low-battery
//! threshold, the polling interval, and how the tray presents devices.
//!
//! The settings are plain values; reading and writing the configuration
//! file is the surrounding application's business.

use vstd::prelude::*;

use crate::util::str_eq;

verus! {

/// Where the tray icon comes from: the application logo, a custom image
/// per battery level, or a glyph rendered from a font. The battery-driven
/// sources name the watched device by its rendered address.
#[derive(Debug)]
pub enum TrayIconSource {
    App,
    BatteryCustom { id: String },
    BatteryFont { id: String, font_name: String, font_color: Option<String> },
}

/// Mathematical image of a `TrayIconSource`.
pub ghost enum IconSourceView {
    App,
    BatteryCustom { id: Seq<char> },
    BatteryFont { id: Seq<char>, font_name: Seq<char>, font_color: Option<Seq<char>> },
}

impl View for TrayIconSource {
    type V = IconSourceView;

    open spec fn view(&self) -> IconSourceView {
        match self {
            TrayIconSource::App => IconSourceView::App,
            TrayIconSource::BatteryCustom { id } => IconSourceView::BatteryCustom { id: id@ },
            TrayIconSource::BatteryFont { id, font_name, font_color } => IconSourceView::BatteryFont {
                id: id@,
                font_name: font_name@,
                font_color: match font_color {
                    Some(c) => Some(c@),
                    None => None,
                },
            },
        }
    }
}

impl Clone for TrayIconSource {
    fn clone(&self) -> (r: Self)
        ensures
            r@ == self@,
    {
        match self {
            TrayIconSource::App => TrayIconSource::App,
            TrayIconSource::BatteryCustom { id } => TrayIconSource::BatteryCustom {
                id: id.clone(),
            },
            TrayIconSource::BatteryFont { id, font_name, font_color } => TrayIconSource::BatteryFont {
                id: id.clone(),
                font_name: font_name.clone(),
                font_color: match font_color {
                    Some(c) => Some(c.clone()),
                    None => None,
                },
            },
        }
    }
}

/// The icon source with its device identifier replaced; the application
/// logo carries none.
pub open spec fn with_id(v: IconSourceView, id: Seq<char>) -> IconSourceView {
    match v {
        IconSourceView::App => IconSourceView::App,
        IconSourceView::BatteryCustom { .. } => IconSourceView::BatteryCustom { id },
        IconSourceView::BatteryFont { font_name, font_color, .. } => IconSourceView::BatteryFont {
            id,
            font_name,
            font_color,
        },
    }
}

impl TrayIconSource {
    /// Point the battery-driven icon sources at a different device.
    pub fn update_id(&mut self, new_id: &str)
        ensures
            final(self)@ == with_id(old(self)@, new_id@),
    {
        match self {
            TrayIconSource::App => (),
            TrayIconSource::BatteryCustom { id } => *id = new_id.to_owned(),
            TrayIconSource::BatteryFont { id, .. } => *id = new_id.to_owned(),
        }
    }
}

/// Which events are notified, whether toasts are silent, and the
/// low-battery threshold the hysteresis works against.
#[derive(Debug)]
pub struct NotifyOptions {
    pub mute: bool,
    pub low_battery: u8,
    pub disconnection: bool,
    pub reconnection: bool,
    pub added: bool,
    pub removed: bool,
}

impl Default for NotifyOptions {
    /// Only the low-battery threshold starts enabled, at 15 percent.
    fn default() -> (r: NotifyOptions)
        ensures
            r == (NotifyOptions {
                mute: false,
                low_battery: 15u8,
                disconnection: false,
                reconnection: false,
                added: false,
                removed: false,
            }),
    {
        NotifyOptions {
            mute: false,
            low_battery: 15,
            disconnection: false,
            reconnection: false,
            added: false,
            removed: false,
        }
    }
}

impl NotifyOptions {
    /// Flip one switch by its settings name; unknown names change nothing,
    /// and the threshold is never touched here.
    pub fn update(&mut self, name: &str, check: bool)
        ensures
            final(self).low_battery == old(self).low_battery,
            final(self).mute == (if name@ == "mute"@ {
                check
            } else {
                old(self).mute
            }),
            final(self).disconnection == (if name@ == "disconnection"@ {
                check
            } else {
                old(self).disconnection
            }),
            final(self).reconnection == (if name@ == "reconnection"@ {
                check
            } else {
                old(self).reconnection
            }),
            final(self).added == (if name@ == "added"@ {
                check
            } else {
                old(self).added
            }),
            final(self).removed == (if name@ == "removed"@ {
                check
            } else {
                old(self).removed
            }),
    {
        proof {
            reveal_strlit("mute");
            reveal_strlit("disconnection");
            reveal_strlit("reconnection");
            reveal_strlit("added");
            reveal_strlit("removed");
            assert("mute"@.len() == 4);
            assert("disconnection"@.len() == 13);
            assert("reconnection"@.len() == 12);
            assert("added"@.len() == 5);
            assert("removed"@.len() == 7);
        }
        if str_eq(name, "mute") {
            self.mute = check;
        } else if str_eq(name, "disconnection") {
            self.disconnection = check;
        } else if str_eq(name, "reconnection") {
            self.reconnection = check;
        } else if str_eq(name, "added") {
            self.added = check;
        } else if str_eq(name, "removed") {
            self.removed = check;
        }
    }
}

/// What the tray tooltip shows.
#[derive(Debug)]
pub struct TooltipOptions {
    pub show_disconnected: bool,
    pub truncate_name: bool,
    pub prefix_battery: bool,
}

impl Default for TooltipOptions {
    fn default() -> (r: TooltipOptions)
        ensures
            r == (TooltipOptions {
                show_disconnected: false,
                truncate_name: false,
                prefix_battery: false,
            }),
    {
        TooltipOptions { show_disconnected: false, truncate_name: false, prefix_battery: false }
    }
}

/// Tray presentation and polling settings.
#[derive(Debug)]
pub struct TrayConfig {
    pub tooltip_options: TooltipOptions,
    pub tray_icon_source: TrayIconSource,
    pub update_interval: u64,
}

impl Default for TrayConfig {
    /// One poll a minute, the application logo, a bare tooltip.
    fn default() -> (r: TrayConfig)
        ensures
            r.update_interval == 60,
            r.tray_icon_source@ is App,
            r.tooltip_options == (TooltipOptions {
                show_disconnected: false,
                truncate_name: false,
                prefix_battery: false,
            }),
    {
        TrayConfig {
            tooltip_options: TooltipOptions::default(),
            tray_icon_source: TrayIconSource::App,
            update_interval: 60,
        }
    }
}

impl TrayConfig {
    /// Flip one tooltip switch by its settings name; unknown names change
    /// nothing, and neither the interval nor the icon source is touched.
    pub fn update(&mut self, name: &str, check: bool)
        ensures
            final(self).update_interval == old(self).update_interval,
            final(self).tray_icon_source == old(self).tray_icon_source,
            final(self).tooltip_options.show_disconnected == (if name@ == "show_disconnected"@ {
                check
            } else {
                old(self).tooltip_options.show_disconnected
            }),
            final(self).tooltip_options.truncate_name == (if name@ == "truncate_name"@ {
                check
            } else {
                old(self).tooltip_options.truncate_name
            }),
            final(self).tooltip_options.prefix_battery == (if name@ == "prefix_battery"@ {
                check
            } else {
                old(self).tooltip_options.prefix_battery
            }),
    {
        proof {
            reveal_strlit("show_disconnected");
            reveal_strlit("truncate_name");
            reveal_strlit("prefix_battery");
            assert("show_disconnected"@.len() == 17);
            assert("truncate_name"@.len() == 13);
            assert("prefix_battery"@.len() == 14);
        }
        if str_eq(name, "show_disconnected") {
            self.tooltip_options.show_disconnected = check;
        } else if str_eq(name, "truncate_name") {
            self.tooltip_options.truncate_name = check;
        } else if str_eq(name, "prefix_battery") {
            self.tooltip_options.prefix_battery = check;
        }
    }
}

/// The whole runtime configuration, plus the force-update latch a menu
/// action sets to make the next poll fire immediately.
#[derive(Debug)]
pub struct Config {
    pub notify_options: NotifyOptions,
    pub tray_config: TrayConfig,
    pub force_update: bool,
}

impl Default for Config {
    fn default() -> (r: Config)
        ensures
            r.notify_options == NotifyOptions::default_spec(),
            r.tray_config.update_interval == 60,
            r.tray_config.tray_icon_source@ is App,
            r.force_update == false,
    {
        Config {
            notify_options: NotifyOptions::default(),
            tray_config: TrayConfig::default(),
            force_update: false,
        }
    }
}

impl NotifyOptions {
    /// The value `Default::default` returns.
    pub open spec fn default_spec() -> NotifyOptions {
        NotifyOptions {
            mute: false,
            low_battery: 15u8,
            disconnection: false,
            reconnection: false,
            added: false,
            removed: false,
        }
    }
}

impl Config {
    pub fn get_update_interval(&self) -> (r: u64)
        ensures
            r == self.tray_config.update_interval,
    {
        self.tray_config.update_interval
    }

    pub fn get_prefix_battery(&self) -> (r: bool)
        ensures
            r == self.tray_config.tooltip_options.prefix_battery,
    {
        self.tray_config.tooltip_options.prefix_battery
    }

    pub fn get_show_disconnected(&self) -> (r: bool)
        ensures
            r == self.tray_config.tooltip_options.show_disconnected,
    {
        self.tray_config.tooltip_options.show_disconnected
    }

    pub fn get_truncate_name(&self) -> (r: bool)
        ensures
            r == self.tray_config.tooltip_options.truncate_name,
    {
        self.tray_config.tooltip_options.truncate_name
    }

    pub fn get_mute(&self) -> (r: bool)
        ensures
            r == self.notify_options.mute,
    {
        self.notify_options.mute
    }

    pub fn get_low_battery(&self) -> (r: u8)
        ensures
            r == self.notify_options.low_battery,
    {
        self.notify_options.low_battery
    }

    pub fn get_disconnection(&self) -> (r: bool)
        ensures
            r == self.notify_options.disconnection,
    {
        self.notify_options.disconnection
    }

    pub fn get_reconnection(&self) -> (r: bool)
        ensures
            r == self.notify_options.reconnection,
    {
        self.notify_options.reconnection
    }

    pub fn get_added(&self) -> (r: bool)
        ensures
            r == self.notify_options.added,
    {
        self.notify_options.added
    }

    pub fn get_removed(&self) -> (r: bool)
        ensures
            r == self.notify_options.removed,
    {
        self.notify_options.removed
    }

    /// The rendered address of the device driving a battery icon, if the
    /// tray icon follows a device at all.
    pub fn get_tray_battery_icon_bt_id(&self) -> (r: Option<String>)
        ensures
            match self.tray_config.tray_icon_source@ {
                IconSourceView::App => r is None,
                IconSourceView::BatteryCustom { id } => r matches Some(s) && s@ == id,
                IconSourceView::BatteryFont { id, .. } => r matches Some(s) && s@ == id,
            },
    {
        match &self.tray_config.tray_icon_source {
            TrayIconSource::App => None,
            TrayIconSource::BatteryCustom { id } => Some(id.clone()),
            TrayIconSource::BatteryFont { id, .. } => Some(id.clone()),
        }
    }
}

} // verus!
