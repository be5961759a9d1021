use labar::icons::{fix_icon_name, icon_name_for};
use labar::locales::Localization;
use labar::pinned::{parse_pinned, render_pinned, toggle_pinned};
use labar::registry::WindowRecord;
use labar::show_desktop::WindowRequest;
use labar::taskbar::{click_requests, pinned_buttons, pinned_click, task_buttons, windows_of_app};

fn strings(v: &[&str]) -> Vec<String> {
    v.iter().map(|s| s.to_string()).collect()
}

fn window(id: &str, app_id: &str, title: &str, activated: bool) -> WindowRecord {
    let mut r = WindowRecord::new(id.to_string());
    r.app_id = app_id.to_string();
    r.title = title.to_string();
    r.activated = activated;
    r
}

#[test]
fn icon_names_for_known_applications() {
    assert_eq!(fix_icon_name("org.mozilla.Firefox"), "firefox");
    assert_eq!(fix_icon_name("Google-Chrome"), "google-chrome");
    assert_eq!(fix_icon_name("Chromium-browser"), "chromium");
    assert_eq!(fix_icon_name("Code"), "com.visualstudio.code");
    assert_eq!(fix_icon_name("libreoffice-writer"), "libreoffice-writer");
    assert_eq!(fix_icon_name("LibreOffice-Calc"), "libreoffice-calc");
    assert_eq!(fix_icon_name("libreoffice"), "libreoffice-startcenter");
    assert_eq!(fix_icon_name("org.gnome.Nautilus"), "system-file-manager");
    assert_eq!(fix_icon_name("kitty"), "utilities-terminal");
    assert_eq!(fix_icon_name("OBS"), "com.obsproject.Studio");
    assert_eq!(fix_icon_name("ORG.MOZILLA.FIREFOX"), "firefox");
    assert_eq!(fix_icon_name("my-launcher"), "view-grid-symbolic");
}

#[test]
fn icon_name_falls_back_to_identity() {
    assert_eq!(fix_icon_name("Org.Example.Thing"), "Org.Example.Thing");
    assert_eq!(fix_icon_name(""), "");
}

#[test]
fn icon_name_reads_the_lowered_form() {
    assert_eq!(icon_name_for("steam", "STEAM"), "steam");
    assert_eq!(icon_name_for("other", "STEAM"), "STEAM");
}

#[test]
fn localization_defaults() {
    let l = Localization::default();
    assert_eq!(l.search_placeholder, "Search apps...");
    assert_eq!(l.show_desktop_tooltip, "Show Desktop");
    assert_eq!(l.close_all_windows, "Close all windows ({})");
    assert_eq!(l.wifi_connected, "✔ Connected");
    assert_eq!(l.no_audio_apps, "No apps using audio");
}

#[test]
fn pinned_file_round_trip() {
    let lines = parse_pinned("firefox.desktop\n\n  \r\nkitty.desktop\r\n");
    assert_eq!(lines, strings(&["firefox.desktop", "kitty.desktop"]));
    let more = toggle_pinned(&lines, &"gimp.desktop".to_string(), true);
    assert_eq!(more, strings(&["firefox.desktop", "kitty.desktop", "gimp.desktop"]));
    let same = toggle_pinned(&more, &"gimp.desktop".to_string(), true);
    assert_eq!(same, more);
    let fewer = toggle_pinned(&more, &"firefox.desktop".to_string(), false);
    assert_eq!(fewer, strings(&["kitty.desktop", "gimp.desktop"]));
    assert_eq!(render_pinned(&fewer), "kitty.desktop\ngimp.desktop\n");
    assert_eq!(parse_pinned(&render_pinned(&fewer)), fewer);
    assert_eq!(parse_pinned(""), Vec::<String>::new());
}

#[test]
fn taskbar_splits_pinned_and_other_windows() {
    let windows = vec![
        window("1", "firefox", "Web", false),
        window("2", "kitty", "Shell", true),
        window("3", "firefox", "Docs", false),
    ];
    let pinned = strings(&["firefox", "gimp"]);
    let pb = pinned_buttons(&windows, &pinned);
    assert_eq!(pb.len(), 2);
    assert_eq!(pb[0].app_id, "firefox");
    assert_eq!(pb[0].icon, "firefox");
    assert!(pb[0].running);
    assert!(!pb[1].running);
    let tb = task_buttons(&windows, &pinned);
    assert_eq!(tb.len(), 1);
    assert_eq!(tb[0].id, "2");
    assert_eq!(tb[0].icon, "utilities-terminal");
    assert_eq!(tb[0].title, "Shell");
    assert!(tb[0].active);
    assert_eq!(windows_of_app(&windows, &"firefox".to_string()), strings(&["1", "3"]));
}

#[test]
fn button_clicks() {
    let focused = window("9", "a", "t", true);
    let r = click_requests(&focused);
    assert_eq!(r.len(), 1);
    assert!(matches!(&r[0], WindowRequest::Minimize(id) if id == "9"));
    let other = window("8", "a", "t", false);
    let r = click_requests(&other);
    assert_eq!(r.len(), 2);
    assert!(matches!(&r[0], WindowRequest::Unminimize(id) if id == "8"));
    assert!(matches!(&r[1], WindowRequest::Activate(id) if id == "8"));
    let windows = vec![other, focused];
    let r = pinned_click(&windows, &"a".to_string()).unwrap();
    assert!(matches!(&r[0], WindowRequest::Unminimize(id) if id == "8"));
    assert!(pinned_click(&windows, &"b".to_string()).is_none());
}
