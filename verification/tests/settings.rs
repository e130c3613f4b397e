use plzplz::settings::{
    all_settings, chosen_values, config_dir, has_changes, load, load_raw, setting_value,
    settings_path, settings_text, Settings,
};

#[test]
fn load_missing_file_returns_defaults() {
    let s = load(None);
    assert!(s.show_hints);
}

#[test]
fn load_show_hints_false() {
    let s = load(Some("show_hints = false\n"));
    assert!(!s.show_hints);
}

#[test]
fn load_show_hints_default_true() {
    let s = load(Some(""));
    assert!(s.show_hints);
}

#[test]
fn load_falls_back_on_what_is_no_boolean() {
    assert!(load(Some("show_hints = \"no\"\n")).show_hints);
    assert!(load(Some("this is not toml [[[")).show_hints);
    assert!(load(Some("[show_hints]\nx = false\n")).show_hints);
    assert!(load(Some("other = false\n")).show_hints);
    assert!(load(Some("show_hints = true\n")).show_hints);
    assert!(Settings::default().show_hints);
}

#[test]
fn load_raw_tells_what_the_user_set() {
    let unset = load_raw(None);
    assert_eq!(unset.len(), 1);
    assert_eq!((unset[0].key, unset[0].value, unset[0].is_user_set), ("show_hints", true, false));
    let set = load_raw(Some("show_hints = false"));
    assert_eq!((set[0].key, set[0].value, set[0].is_user_set), ("show_hints", false, true));
    let same = load_raw(Some("show_hints = true"));
    assert_eq!((same[0].value, same[0].is_user_set), (true, true));
    let broken = load_raw(Some("= ="));
    assert_eq!((broken[0].value, broken[0].is_user_set), (true, false));
}

#[test]
fn settings_are_listed() {
    let all = all_settings();
    assert_eq!(all.len(), 1);
    assert_eq!(all[0].key, "show_hints");
    assert_eq!(all[0].description, "Show helpful tips and suggestions");
    assert!(all[0].default);
}

#[test]
fn settings_text_is_one_line_each() {
    assert_eq!(settings_text(&vec![("show_hints".to_string(), false)]), "show_hints = false\n");
    assert_eq!(
        settings_text(&vec![("a".to_string(), true), ("b".to_string(), false)]),
        "a = true\nb = false\n"
    );
    assert_eq!(settings_text(&vec![]), "\n");
    assert!(!load(Some(&settings_text(&vec![("show_hints".to_string(), false)]))).show_hints);
}

#[test]
fn paths_of_the_own_files() {
    assert_eq!(config_dir(Some("/etc/plz".to_string()), Some("/home/u")).as_deref(), Some("/etc/plz"));
    assert_eq!(config_dir(None, Some("/home/u")).as_deref(), Some("/home/u/.plz"));
    assert_eq!(config_dir(None, None), None);
    assert_eq!(settings_path(Some("/home/u/.plz")).as_deref(), Some("/home/u/.plz/settings.toml"));
    assert_eq!(settings_path(None), None);
}

#[test]
fn chosen_values_follow_the_ticks() {
    assert_eq!(chosen_values(&vec![0]), vec![("show_hints".to_string(), true)]);
    assert_eq!(chosen_values(&vec![]), vec![("show_hints".to_string(), false)]);
    assert_eq!(chosen_values(&vec![3, 0]), vec![("show_hints".to_string(), true)]);
    let raw = load_raw(Some("show_hints = false"));
    assert!(has_changes(&raw, &chosen_values(&vec![0])));
    assert!(!has_changes(&raw, &chosen_values(&vec![])));
    assert!(!has_changes(&raw, &vec![]));
    assert!(!has_changes(&load_raw(None), &chosen_values(&vec![0])));
}

#[test]
fn a_value_that_was_found_is_the_users() {
    assert_eq!(setting_value(Some(false), true), (false, true));
    assert_eq!(setting_value(Some(true), false), (true, true));
    assert_eq!(setting_value(None, true), (true, false));
    assert_eq!(setting_value(None, false), (false, false));
}

#[test]
fn only_booleans_of_the_root_count() {
    assert!(load(Some("[nested]\nshow_hints = false\n")).show_hints);
    assert!(load(Some("show_hints = 0\n")).show_hints);
    assert!(!load(Some("# off\nshow_hints = false # really\n[other]\nshow_hints = true\n")).show_hints);
    let raw = load_raw(Some("[nested]\nshow_hints = false\n"));
    assert_eq!((raw[0].value, raw[0].is_user_set), (true, false));
}
