use labar::launcher::{chars_less, launcher_view, make_entry, matches_query, name_order, AppEntry};

fn strings(v: &[&str]) -> Vec<String> {
    v.iter().map(|s| s.to_string()).collect()
}

fn entry(name: &str, description: &str, desktop_file: &str) -> AppEntry {
    make_entry(name.to_string(), description.to_string(), desktop_file.to_string(), None, &Vec::new())
}

#[test]
fn entries_get_icons_and_pinned_flags() {
    let pinned = strings(&["firefox.desktop"]);
    let e = make_entry(
        "Firefox".to_string(),
        "Web".to_string(),
        "firefox.desktop".to_string(),
        Some("org.mozilla.firefox".to_string()),
        &pinned,
    );
    assert_eq!(e.icon, "firefox");
    assert!(e.pinned);
    let f = make_entry("Tool".to_string(), "".to_string(), "tool.desktop".to_string(), None, &pinned);
    assert_eq!(f.icon, "application-x-executable");
    assert!(!f.pinned);
}

#[test]
fn entries_sort_by_lower_case_name_stably() {
    let apps = vec![
        entry("zeal", "", "z"),
        entry("Alpha", "", "a1"),
        entry("beta", "", "b"),
        entry("alpha", "", "a2"),
    ];
    assert_eq!(name_order(&apps), vec![1, 3, 2, 0]);
    assert!(name_order(&Vec::new()).is_empty());
}

#[test]
fn string_order() {
    let c = |s: &str| s.chars().collect::<Vec<char>>();
    assert!(chars_less(&c("ab"), &c("abc")));
    assert!(!chars_less(&c("abc"), &c("ab")));
    assert!(chars_less(&c("abc"), &c("abd")));
    assert!(!chars_less(&c("same"), &c("same")));
    assert!(chars_less(&c(""), &c("a")));
}

#[test]
fn search_and_pinned_sections() {
    let apps = vec![
        entry("Firefox", "Browse the Web", "firefox.desktop"),
        entry("Files", "Manage files", "nautilus.desktop"),
        entry("Terminal", "Shell", "kitty.desktop"),
    ];
    let pinned = strings(&["kitty.desktop", "gone.desktop", "firefox.desktop"]);
    let idle = launcher_view(&apps, &pinned, "");
    assert!(idle.show_pinned);
    assert!(!idle.searching);
    assert_eq!(idle.pinned, vec![2, 0]);
    assert!(idle.results.is_empty());
    let search = launcher_view(&apps, &pinned, "WEB");
    assert!(!search.show_pinned);
    assert!(search.searching);
    assert!(search.pinned.is_empty());
    assert_eq!(search.results, vec![0]);
    let files = launcher_view(&apps, &pinned, "fi");
    assert_eq!(files.results, vec![0, 1]);
    let none = launcher_view(&apps, &Vec::new(), "");
    assert!(!none.show_pinned);
    assert!(matches_query("files", "manage files", "file"));
    assert!(!matches_query("files", "manage", "x"));
}
