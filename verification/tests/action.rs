use invisible_ptt::action::{
    match_action, parse_action, pick_action, recognise, warn_about_action, Action,
};
use invisible_ptt::log::Line;

#[test]
fn parse_action_rpc_is_case_insensitive_and_trimmed() {
    assert_eq!(parse_action("rpc"), Action::Rpc);
    assert_eq!(parse_action("RPC"), Action::Rpc);
    assert_eq!(parse_action("  Rpc  "), Action::Rpc);
}

#[test]
fn parse_action_single_char_key_uses_uppercase_vk() {
    // Windows VKs for letters/digits are the uppercase ASCII byte.
    assert_eq!(parse_action("key:V"), Action::Key(0x56));
    assert_eq!(parse_action("key:v"), Action::Key(0x56));
    assert_eq!(parse_action("key:5"), Action::Key(0x35));
}

#[test]
fn parse_action_hex_and_named_keys() {
    assert_eq!(parse_action("key:0x13"), Action::Key(0x13));
    assert_eq!(parse_action("key:PAUSE"), Action::Key(0x13));
    assert_eq!(parse_action("key:F13"), Action::Key(0x7C));
    // Whitespace inside the value is trimmed.
    assert_eq!(parse_action("key: F13 "), Action::Key(0x7C));
}

#[test]
fn parse_action_invalid_falls_back_to_none() {
    assert_eq!(parse_action("none"), Action::Nothing);
    assert_eq!(parse_action("wat"), Action::Nothing);
    assert_eq!(parse_action("key:"), Action::Nothing); // empty value
    assert_eq!(parse_action("key:0xZZ"), Action::Nothing); // bad hex -> vk 0
    assert_eq!(parse_action("key:NOPE"), Action::Nothing); // unknown name -> vk 0
}

#[test]
fn match_action_is_case_insensitive_exact_first_wins() {
    // Rule keys arrive already lowercased.
    let rules = vec![
        ("chrome.exe".to_string(), Action::Key(0x56)),
        ("cs2.exe".to_string(), Action::Rpc),
    ];
    // Case-insensitive on the incoming exe name.
    assert_eq!(
        match_action("Chrome.EXE", &rules, Action::Nothing),
        Action::Key(0x56)
    );
    assert_eq!(match_action("cs2.exe", &rules, Action::Nothing), Action::Rpc);
    // No rule -> default.
    assert_eq!(
        match_action("notepad.exe", &rules, Action::Rpc),
        Action::Rpc
    );
    // Exact only: a substring must not match.
    assert_eq!(
        match_action("notchrome.exe", &rules, Action::Nothing),
        Action::Nothing
    );
}

#[test]
fn the_first_of_two_rules_for_one_executable_wins() {
    let rules = vec![
        ("game.exe".to_string(), Action::Key(0x41)),
        ("game.exe".to_string(), Action::Rpc),
    ];
    assert_eq!(match_action("GAME.exe", &rules, Action::Nothing), Action::Key(0x41));
}

#[test]
fn an_unknown_foreground_gets_the_default() {
    let rules = vec![("game.exe".to_string(), Action::Key(0x41))];
    assert_eq!(pick_action(&None, &rules, Action::Rpc), Action::Rpc);
    assert_eq!(
        pick_action(&Some("game.exe".to_string()), &rules, Action::Rpc),
        Action::Key(0x41)
    );
}

#[test]
fn blanks_of_every_kind_are_trimmed() {
    assert_eq!(parse_action("\t\u{a0}\u{3000}rpc\u{2029}\r\n"), Action::Rpc);
    assert_eq!(parse_action("   "), Action::Nothing);
    // A zero-width space is no whitespace.
    assert_eq!(recognise("\u{200b}rpc"), None);
}

#[test]
fn key_values_have_their_edges() {
    assert_eq!(parse_action("key:0xffff"), Action::Key(0xffff));
    assert_eq!(parse_action("key:0x10000"), Action::Nothing);
    assert_eq!(parse_action("key:0x"), Action::Nothing);
    assert_eq!(parse_action("key:0x+1f"), Action::Key(0x1f));
    assert_eq!(parse_action("key:0x-1"), Action::Nothing);
    assert_eq!(parse_action("key:0X13"), Action::Nothing);
    assert_eq!(parse_action("key:\u{e4}"), Action::Nothing);
    assert_eq!(parse_action("KEY:V"), Action::Nothing);
    assert_eq!(parse_action("key:;"), Action::Key(0x3b));
}

#[test]
fn a_misspelt_action_is_warned_about() {
    let mut lines: Vec<Line> = Vec::new();
    warn_about_action("rpc", &mut lines);
    warn_about_action("", &mut lines);
    assert!(lines.is_empty());
    warn_about_action(" wat ", &mut lines);
    assert_eq!(lines.len(), 1);
    assert!(lines[0].error);
    assert_eq!(
        lines[0].text,
        "warning: could not parse action 'wat', treating as none"
    );
}
