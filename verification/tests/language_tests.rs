use codex_island::language::{
    is_supported_language_code, language_change_script, language_check_states,
    language_dom_script, language_from_stored, language_menu_entries, language_menu_id,
    language_payload, menu_action, tray_labels, MenuAction, show_requested, autostart_requested,
    autostart_mark_after,
};

#[test]
fn stored_language_is_trimmed_and_checked() {
    assert_eq!(language_from_stored(Some("en".to_string())), "en");
    assert_eq!(language_from_stored(Some("\u{feff} ja \n".to_string())), "ja");
    assert_eq!(language_from_stored(Some("\u{3000}pt-BR\u{2029}".to_string())), "pt-BR");
    assert_eq!(language_from_stored(Some("EN".to_string())), "zh-CN");
    assert_eq!(language_from_stored(Some("e n".to_string())), "zh-CN");
    assert_eq!(language_from_stored(Some("".to_string())), "zh-CN");
    assert_eq!(language_from_stored(Some("   ".to_string())), "zh-CN");
    assert_eq!(language_from_stored(None), "zh-CN");
}

#[test]
fn stored_language_round_trip() {
    for code in ["zh-CN", "zh-TW", "en", "ja", "ko", "es", "fr", "de", "pt-BR", "ru"] {
        assert!(is_supported_language_code(code));
        assert_eq!(language_from_stored(Some(code.to_string())), code);
        let again = language_from_stored(Some(language_from_stored(Some(format!(" {code} ")))));
        assert_eq!(again, code);
    }
    assert!(!is_supported_language_code("it"));
}

#[test]
fn tray_labels_per_language() {
    let en = tray_labels("en");
    assert_eq!(en.show, "Show Codex Island");
    assert_eq!(en.quit, "Quit Codex Island");
    let ja = tray_labels("ja");
    assert_eq!(ja.refresh, "今すぐ更新");
    let de = tray_labels("de");
    assert_eq!(de.autostart, "Beim Start ausführen");
    assert_eq!(de.github, "GitHub-Repository");
    let ru = tray_labels("ru");
    assert_eq!(ru.language, "Язык");
    let zh_tw = tray_labels("zh-TW");
    assert_eq!(zh_tw.toolbox, "非哥工具箱");
    let zh = tray_labels("zh-CN");
    assert_eq!(zh.show, "显示 Codex Island");
    let unknown = tray_labels("xx");
    assert_eq!(unknown.show, zh.show);
    assert_eq!(unknown.quit, "退出 Codex Island");
}

#[test]
fn menu_actions() {
    assert!(matches!(menu_action("show"), MenuAction::ToggleShow));
    assert!(matches!(menu_action("refresh"), MenuAction::Refresh));
    assert!(matches!(menu_action("autostart"), MenuAction::ToggleAutostart));
    assert!(matches!(menu_action("quit"), MenuAction::Quit));
    assert!(matches!(menu_action("nothing"), MenuAction::Ignore));
    assert!(matches!(menu_action(""), MenuAction::Ignore));
    match menu_action("github") {
        MenuAction::OpenUrl(u) => assert_eq!(u, "https://github.com/s840207702/codex-island"),
        _ => panic!(),
    }
    match menu_action("toolbox") {
        MenuAction::OpenUrl(u) => assert_eq!(u, "https://www.feige177.com"),
        _ => panic!(),
    }
    match menu_action("lang-lang-fr") {
        MenuAction::SetLanguage(l) => assert_eq!(l, "fr"),
        _ => panic!(),
    }
    match menu_action("lang-") {
        MenuAction::SetLanguage(l) => assert_eq!(l, ""),
        _ => panic!(),
    }
}

#[test]
fn language_menu_items_select_their_language() {
    let entries = language_menu_entries();
    assert_eq!(entries.len(), 10);
    assert_eq!(entries[0].label, "简体中文");
    assert_eq!(entries[8].code, "pt-BR");
    for entry in entries {
        let id = language_menu_id(entry.code);
        assert_eq!(id, format!("lang-{}", entry.code));
        match menu_action(&id) {
            MenuAction::SetLanguage(l) => assert_eq!(l, entry.code),
            _ => panic!(),
        }
    }
}

#[test]
fn language_checks_mark_exactly_the_selected() {
    let states = language_check_states("ko");
    assert_eq!(states, vec![false, false, false, false, true, false, false, false, false, false]);
    assert!(language_check_states("xx").iter().all(|b| !b));
}

#[test]
fn language_script_quotes_the_language() {
    assert_eq!(
        language_change_script("en"),
        "window.dispatchEvent(new CustomEvent('codex-island-language-dom-change', { detail: \"en\" }));"
    );
    assert_eq!(
        language_change_script("a\"b\\\n\u{1}"),
        "window.dispatchEvent(new CustomEvent('codex-island-language-dom-change', { detail: \"a\\\"b\\\\\\n\\u0001\" }));"
    );
    assert_eq!(language_dom_script("1"), "window.dispatchEvent(new CustomEvent('codex-island-language-dom-change', { detail: 1 }));");
    assert_eq!(language_payload(Ok("\"ja\"".to_string())), "\"ja\"");
    let err = serde_json::from_str::<serde_json::Value>("{").unwrap_err();
    assert_eq!(language_payload(Err(err)), "\"zh-CN\"");
}

#[test]
fn each_supported_language_checks_one_entry() {
    for code in ["zh-CN", "zh-TW", "en", "ja", "ko", "es", "fr", "de", "pt-BR", "ru"] {
        let states = language_check_states(code);
        assert_eq!(states.iter().filter(|b| **b).count(), 1);
    }
    assert_eq!(language_check_states("pt").iter().filter(|b| **b).count(), 0);
}

#[test]
fn tray_toggles() {
    assert!(show_requested(Some(true)));
    assert!(!show_requested(Some(false)));
    assert!(show_requested(None));
    assert!(autostart_requested(Some(true)));
    assert!(!autostart_requested(None));
    assert_eq!(autostart_mark_after(true, false), Some(false));
    assert_eq!(autostart_mark_after(false, false), Some(true));
    assert_eq!(autostart_mark_after(true, true), None);
}

#[test]
fn language_script_escapes_every_control_character() {
    let script = language_change_script("x'}));alert(1);//\u{8}\t\r\u{c}\u{1f}");
    assert_eq!(
        script,
        "window.dispatchEvent(new CustomEvent('codex-island-language-dom-change', { detail: \"x'}));alert(1);//\\b\\t\\r\\f\\u001f\" }));"
    );
}
