//! The panel's user-facing strings, with their built-in English values.

use vstd::prelude::*;

verus! {

/// Every string that the panel shows. `{}` in a string marks where a value
/// goes.
#[derive(Debug)]
pub struct Localization {
    pub search_placeholder: String,
    pub pinned_label: String,
    pub nothing_found: String,
    pub pin: String,
    pub unpin: String,
    pub pin_to_taskbar: String,
    pub show_desktop_tooltip: String,
    pub close_all_windows: String,
    pub close_window: String,
    pub wifi_title: String,
    pub wifi_disabled: String,
    pub wifi_no_networks: String,
    pub wifi_connected: String,
    pub wifi_saved: String,
    pub signal: String,
    pub forget: String,
    pub disconnect: String,
    pub connect: String,
    pub enter_password: String,
    pub cancel: String,
    pub connecting_to: String,
    pub password_placeholder: String,
    pub audio_title: String,
    pub output_device: String,
    pub input_device: String,
    pub apps_label: String,
    pub no_audio_apps: String,
}

impl Default for Localization {
    fn default() -> (r: Localization)
        ensures
            r.search_placeholder@ == "Search apps..."@,
            r.pinned_label@ == "Pinned"@,
            r.nothing_found@ == "Nothing found"@,
            r.pin@ == "Pin"@,
            r.unpin@ == "Unpin"@,
            r.pin_to_taskbar@ == "Pin to taskbar"@,
            r.show_desktop_tooltip@ == "Show Desktop"@,
            r.close_all_windows@ == "Close all windows ({})"@,
            r.close_window@ == "Close window"@,
            r.wifi_title@ == "WiFi"@,
            r.wifi_disabled@ == "WiFi disabled"@,
            r.wifi_no_networks@ == "No networks found"@,
            r.wifi_connected@ == "✔ Connected"@,
            r.wifi_saved@ == "Saved"@,
            r.signal@ == "Signal"@,
            r.forget@ == "Forget"@,
            r.disconnect@ == "Disconnect"@,
            r.connect@ == "Connect"@,
            r.enter_password@ == "Enter password"@,
            r.cancel@ == "Cancel"@,
            r.connecting_to@ == "Connecting to: {}"@,
            r.password_placeholder@ == "Password"@,
            r.audio_title@ == "Audio"@,
            r.output_device@ == "Output Device"@,
            r.input_device@ == "Input Device"@,
            r.apps_label@ == "Applications"@,
            r.no_audio_apps@ == "No apps using audio"@,
    {
        Localization {
            search_placeholder: String::from_str("Search apps..."),
            pinned_label: String::from_str("Pinned"),
            nothing_found: String::from_str("Nothing found"),
            pin: String::from_str("Pin"),
            unpin: String::from_str("Unpin"),
            pin_to_taskbar: String::from_str("Pin to taskbar"),
            show_desktop_tooltip: String::from_str("Show Desktop"),
            close_all_windows: String::from_str("Close all windows ({})"),
            close_window: String::from_str("Close window"),
            wifi_title: String::from_str("WiFi"),
            wifi_disabled: String::from_str("WiFi disabled"),
            wifi_no_networks: String::from_str("No networks found"),
            wifi_connected: String::from_str("✔ Connected"),
            wifi_saved: String::from_str("Saved"),
            signal: String::from_str("Signal"),
            forget: String::from_str("Forget"),
            disconnect: String::from_str("Disconnect"),
            connect: String::from_str("Connect"),
            enter_password: String::from_str("Enter password"),
            cancel: String::from_str("Cancel"),
            connecting_to: String::from_str("Connecting to: {}"),
            password_placeholder: String::from_str("Password"),
            audio_title: String::from_str("Audio"),
            output_device: String::from_str("Output Device"),
            input_device: String::from_str("Input Device"),
            apps_label: String::from_str("Applications"),
            no_audio_apps: String::from_str("No apps using audio"),
        }
    }
}

} // verus!
