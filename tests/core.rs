use labar::bridge::{coalesce, UiEvent};
use labar::dispatch::{
    child_role, on_toplevel_announced, on_toplevel_event, seat_has_keyboard, ObjectRole,
    ProtocolError, ToplevelEvent,
};
use labar::keymap::{
    derive_layout_names, fallback_code_of, include_codes_of, keymap_format_supported,
    keymap_short_codes, layout_code, parse_include, KeyboardLayoutState,
};
use labar::registry::{Update, WindowRecord, WindowRegistry};
use labar::show_desktop::{ShowDesktop, WindowRequest};
use labar::toplevel_state::{decode_state, native_byte_order, parse_state, ByteOrder};

fn strings(v: &[&str]) -> Vec<String> {
    v.iter().map(|s| s.to_string()).collect()
}

fn ne_tokens(v: &[u32]) -> Vec<u8> {
    v.iter().flat_map(|t| t.to_ne_bytes()).collect()
}

fn le_tokens(v: &[u32]) -> Vec<u8> {
    v.iter().flat_map(|t| t.to_le_bytes()).collect()
}

fn record(id: &str, app_id: &str, minimized: bool, activated: bool) -> WindowRecord {
    let mut r = WindowRecord::new(id.to_string());
    r.app_id = app_id.to_string();
    r.minimized = minimized;
    r.activated = activated;
    r
}

#[test]
fn state_flags_ignore_order_and_repetition() {
    let a = decode_state(&le_tokens(&[2, 1]), ByteOrder::Little);
    let b = decode_state(&le_tokens(&[1, 1, 2, 2, 1]), ByteOrder::Little);
    assert_eq!(a, (true, true));
    assert_eq!(a, b);
    let c = decode_state(&le_tokens(&[2]), ByteOrder::Little);
    let d = decode_state(&le_tokens(&[2, 2, 2]), ByteOrder::Little);
    assert_eq!(c, (true, false));
    assert_eq!(c, d);
}

#[test]
fn state_flags_ignore_unknown_tokens_and_short_tail() {
    assert_eq!(decode_state(&le_tokens(&[3, 0, 7]), ByteOrder::Little), (false, false));
    assert_eq!(decode_state(&[1, 0, 0], ByteOrder::Little), (false, false));
    let mut bytes = le_tokens(&[1]);
    bytes.extend_from_slice(&[2, 0]);
    assert_eq!(decode_state(&bytes, ByteOrder::Little), (false, true));
    assert_eq!(decode_state(&[], ByteOrder::Little), (false, false));
}

#[test]
fn state_flags_big_endian() {
    assert_eq!(decode_state(&[0, 0, 0, 2], ByteOrder::Big), (true, false));
    assert_eq!(decode_state(&[0, 0, 0, 2], ByteOrder::Little), (false, false));
    assert_eq!(decode_state(&[2, 0, 0, 0], ByteOrder::Big), (false, false));
}

#[test]
fn parse_state_uses_native_order() {
    assert_eq!(parse_state(&ne_tokens(&[2])), (true, false));
    assert_eq!(parse_state(&ne_tokens(&[1])), (false, true));
    assert_eq!(parse_state(&ne_tokens(&[4, 1, 2])), (true, true));
    let expected = if u32::from_ne_bytes([1, 0, 0, 0]) == 1 { ByteOrder::Little } else { ByteOrder::Big };
    assert_eq!(native_byte_order(), expected);
}

#[test]
fn remove_closed_twice_is_a_no_op() {
    let mut reg = WindowRegistry::new();
    reg.announce("a".to_string());
    reg.announce("b".to_string());
    reg.announce("c".to_string());
    reg.upsert_by_id("b".to_string(), Update::Closed);
    reg.remove_closed();
    let once: Vec<String> = reg.snapshot().into_iter().map(|w| w.id).collect();
    assert_eq!(once, strings(&["a", "c"]));
    reg.remove_closed();
    let twice: Vec<String> = reg.snapshot().into_iter().map(|w| w.id).collect();
    assert_eq!(once, twice);
}

#[test]
fn upsert_by_id_keeps_one_record_and_chains_changes() {
    let mut reg = WindowRegistry::new();
    reg.upsert_by_id("w".to_string(), Update::Title("first".to_string()));
    reg.upsert_by_id("w".to_string(), Update::AppId("app".to_string()));
    reg.upsert_by_id("w".to_string(), Update::State(true, false));
    assert_eq!(reg.len(), 1);
    let snap = reg.snapshot();
    assert_eq!(snap[0].id, "w");
    assert_eq!(snap[0].title, "first");
    assert_eq!(snap[0].app_id, "app");
    assert!(snap[0].activated);
    assert!(!snap[0].minimized);
    reg.upsert_by_id("w".to_string(), Update::Title("second".to_string()));
    let snap = reg.snapshot();
    assert_eq!(reg.len(), 1);
    assert_eq!(snap[0].title, "second");
    assert_eq!(snap[0].app_id, "app");
}

#[test]
fn announce_twice_makes_one_record() {
    let mut reg = WindowRegistry::new();
    reg.announce("x".to_string());
    reg.upsert_by_id("x".to_string(), Update::Title("kept".to_string()));
    reg.announce("x".to_string());
    assert_eq!(reg.len(), 1);
    assert_eq!(reg.snapshot()[0].title, "kept");
    assert_eq!(reg.find(&"x".to_string()), Some(0));
    assert_eq!(reg.find(&"y".to_string()), None);
}

#[test]
fn contradictory_state_keeps_previous_flags() {
    let mut reg = WindowRegistry::new();
    reg.upsert_by_id("w".to_string(), Update::State(false, true));
    reg.upsert_by_id("w".to_string(), Update::State(true, true));
    let snap = reg.snapshot();
    assert!(!snap[0].activated);
    assert!(snap[0].minimized);
}

#[test]
fn include_string_with_group_index_and_extensions() {
    assert_eq!(parse_include("pc+us+ru:2+inet(evdev)"), strings(&["US", "RU"]));
    assert_eq!(include_codes_of("pc+us+ru:2+inet(evdev)"), strings(&["us", "ru"]));
}

#[test]
fn include_string_with_variant() {
    assert_eq!(parse_include("pc+de(nodeadkeys)"), strings(&["DE"]));
}

#[test]
fn include_string_edge_cases() {
    assert_eq!(parse_include(""), Vec::<String>::new());
    assert_eq!(parse_include("pc+evdev+base+aliases+empty+complete+inet"), Vec::<String>::new());
    assert_eq!(parse_include(" fr (azerty) + :3 +"), strings(&["FR"]));
    assert_eq!(parse_include("gb:1+ua(winkeys):2"), strings(&["GB", "UA"]));
}

#[test]
fn short_codes_from_keymap_text() {
    let text = "xkb_keymap {\n\txkb_keycodes \"evdev+aliases(qwerty)\" { include \"evdev\" };\n\
                \txkb_symbols \"pc+us+ru:2+inet(evdev)\" {\n\t\tinclude \"pc+us+ru:2+inet(evdev)\"\n\t};\n};";
    assert_eq!(keymap_short_codes(text), strings(&["US", "RU"]));
    assert_eq!(keymap_short_codes("xkb_keymap { xkb_types \"x\" { }; };"), Vec::<String>::new());
    assert_eq!(keymap_short_codes("xkb_symbols { include \"unterminated"), Vec::<String>::new());
}

#[test]
fn layout_names_fall_back_to_keymap_names() {
    let short = strings(&["US"]);
    let xkb = strings(&["English (US)", "Russian", "z"]);
    assert_eq!(derive_layout_names(&short, &xkb), strings(&["US", "RU", "Z"]));
    assert_eq!(derive_layout_names(&strings(&["US", "RU", "DE"]), &strings(&["a"])), strings(&["US"]));
    assert_eq!(fallback_code_of("german"), "GE");
    assert_eq!(fallback_code_of(""), "");
}

#[test]
fn layout_lookup_out_of_range_gives_placeholder() {
    let names = strings(&["US", "RU"]);
    assert_eq!(layout_code(&names, 5), "??");
    assert_eq!(layout_code(&names, 1), "RU");
    assert_eq!(layout_code(&names, 0), "US");
}

#[test]
fn keyboard_state_reports_active_layout() {
    let mut kb = KeyboardLayoutState::new();
    assert_eq!(kb.current_layout(), "US");
    assert!(kb.on_modifiers(1).is_none());
    let text = "xkb_symbols \"x\" { include \"pc+us+ru:2+inet(evdev)\" };";
    kb.install_keymap(text, &strings(&["English (US)", "Russian"]));
    assert_eq!(kb.layout_names(), strings(&["US", "RU"]));
    match kb.on_modifiers(1) {
        Some(UiEvent::KeyboardLayout(c)) => assert_eq!(c, "RU"),
        other => panic!("unexpected {:?}", other),
    }
    assert_eq!(kb.current_layout(), "RU");
    match kb.on_modifiers(5) {
        Some(UiEvent::KeyboardLayout(c)) => assert_eq!(c, "??"),
        other => panic!("unexpected {:?}", other),
    }
    assert!(keymap_format_supported(1));
    assert!(!keymap_format_supported(0));
}

#[test]
fn child_creation_policy() {
    assert_eq!(child_role(ObjectRole::ToplevelManager, 0), Ok(ObjectRole::Toplevel));
    assert_eq!(
        child_role(ObjectRole::ToplevelManager, 1),
        Err(ProtocolError::UnexpectedChild { parent: ObjectRole::ToplevelManager, opcode: 1 })
    );
    assert_eq!(
        child_role(ObjectRole::Seat, 0),
        Err(ProtocolError::UnexpectedChild { parent: ObjectRole::Seat, opcode: 0 })
    );
    assert!(seat_has_keyboard(3));
    assert!(!seat_has_keyboard(5));
}

#[test]
fn end_to_end_toplevel_lifecycle() {
    let order = ByteOrder::Little;
    let mut reg = WindowRegistry::new();
    assert!(matches!(on_toplevel_announced(&mut reg, "t1".to_string()), UiEvent::Refresh));
    assert_eq!(reg.len(), 1);
    let snap = reg.snapshot();
    assert_eq!(snap[0].title, "");
    assert_eq!(snap[0].app_id, "");
    let ev = on_toplevel_event(&mut reg, "t1".to_string(), ToplevelEvent::Title("Editor".to_string()), order);
    assert!(matches!(ev, UiEvent::Refresh));
    on_toplevel_event(&mut reg, "t1".to_string(), ToplevelEvent::AppId("editor.app".to_string()), order);
    on_toplevel_event(&mut reg, "t1".to_string(), ToplevelEvent::State(le_tokens(&[2])), order);
    let snap = reg.snapshot();
    assert_eq!(snap.len(), 1);
    assert_eq!(snap[0].title, "Editor");
    assert_eq!(snap[0].app_id, "editor.app");
    assert!(snap[0].activated);
    assert!(!snap[0].minimized);
    on_toplevel_event(&mut reg, "t1".to_string(), ToplevelEvent::Closed, order);
    assert_eq!(reg.snapshot().len(), 0);
}

#[test]
fn show_desktop_minimizes_then_restores() {
    let windows = vec![
        record("a", "app.a", false, false),
        record("b", "app.b", false, true),
        record("c", "app.c", false, false),
        record("d", "app.d", true, false),
    ];
    let mut sd = ShowDesktop::new();
    let first = sd.toggle(&windows);
    assert!(sd.is_shown());
    let minimized: Vec<String> = first
        .iter()
        .map(|r| match r {
            WindowRequest::Minimize(id) => id.clone(),
            other => panic!("unexpected {:?}", other),
        })
        .collect();
    assert_eq!(minimized, strings(&["a", "b", "c"]));
    let second = sd.toggle(&windows);
    assert!(!sd.is_shown());
    let mut unmin = Vec::new();
    let mut activate = Vec::new();
    for r in &second {
        match r {
            WindowRequest::Unminimize(id) => unmin.push(id.clone()),
            WindowRequest::Activate(id) => activate.push(id.clone()),
            other => panic!("unexpected {:?}", other),
        }
    }
    assert_eq!(unmin, strings(&["a", "b", "c"]));
    assert_eq!(activate, strings(&["b"]));
    assert!(matches!(second.last(), Some(WindowRequest::Activate(id)) if id == "b"));
}

#[test]
fn show_desktop_skips_windows_that_closed() {
    let windows = vec![record("a", "x", false, true), record("b", "y", false, false)];
    let mut sd = ShowDesktop::new();
    sd.toggle(&windows);
    let remaining = vec![record("b", "y", true, false)];
    let second = sd.toggle(&remaining);
    assert_eq!(second.len(), 1);
    assert!(matches!(&second[0], WindowRequest::Unminimize(id) if id == "b"));
}

#[test]
fn coalesce_folds_refresh_runs_and_keeps_layouts() {
    let evs = vec![
        UiEvent::Refresh,
        UiEvent::Refresh,
        UiEvent::KeyboardLayout("US".to_string()),
        UiEvent::Refresh,
        UiEvent::Refresh,
        UiEvent::Refresh,
    ];
    let out = coalesce(&evs);
    assert_eq!(out.len(), 3);
    assert!(matches!(out[0], UiEvent::Refresh));
    assert!(matches!(&out[1], UiEvent::KeyboardLayout(c) if c == "US"));
    assert!(matches!(out[2], UiEvent::Refresh));
    assert!(coalesce(&Vec::new()).is_empty());
}
