use mds::config::keymap::single_key::{KeyCombo, SingleKey};

#[test]
fn test_correct_parsing() {
    let ctrl_combo = "ctrl-t".to_string();
    let alt_combo = "alt-t".to_string();

    let key_first: SingleKey = SingleKey::try_from_combo(ctrl_combo).expect("no err");
    let key_second: SingleKey = SingleKey::try_from_combo(alt_combo).expect("no err");

    let f_expected = SingleKey { combo: "ctrl-t".to_string(), tui_combo: KeyCombo::Ctrl('t') };
    let f_expected2 = SingleKey { combo: "alt-t".to_string(), tui_combo: KeyCombo::Alt('t') };
    assert_eq!(key_first, f_expected);
    assert_eq!(key_second, f_expected2);
}

#[test]
fn ctrl_c_is_forbidden() {
    let r = SingleKey::try_from_combo("ctrl-c".to_string());
    assert_eq!(r, Err("`ctrl-c` binding is forbidden".to_string()));
}

#[test]
fn alt_c_is_allowed() {
    let r = SingleKey::try_from_combo("alt-c".to_string()).unwrap();
    assert_eq!(r.tui_combo, KeyCombo::Alt('c'));
}

#[test]
fn combinations_outside_the_pattern_are_refused() {
    for bad in ["ctrl-tt", "shift-t", "ctrl-", "t", "", "alt-ab", " ctrl-t"] {
        let r = SingleKey::try_from_combo(bad.to_string());
        assert_eq!(r, Err(format!("`{}` doesn't match regex ^(ctrl-.)$|^(alt-.)$", bad)));
    }
}

#[test]
fn multibyte_keys_are_read() {
    let r = SingleKey::try_from_combo("alt-é".to_string()).unwrap();
    assert_eq!(r.tui_combo, KeyCombo::Alt('é'));
}
