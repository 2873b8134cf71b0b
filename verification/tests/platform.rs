use invisible_ptt::platform::{
    config_dir, describe_key, foreground_process, timestamp, vk_by_name, Base, Clock,
};

#[test]
fn vk_by_name_known_and_case_insensitive() {
    assert_eq!(vk_by_name("F13"), 0x7C);
    assert_eq!(vk_by_name("f13"), 0x7C);
    assert_eq!(vk_by_name("PAUSE"), 0x13);
    assert_eq!(vk_by_name("rctrl"), 0xA3);
}

#[test]
fn vk_by_name_unknown_is_zero() {
    assert_eq!(vk_by_name("NOPE"), 0);
    assert_eq!(vk_by_name(""), 0);
}

#[test]
fn every_named_key_has_its_code() {
    for (name, vk) in [
        ("Pause", 0x13),
        ("ScrollLock", 0x91),
        ("RCTRL", 0xa3),
        ("RCONTROL", 0xa3),
        ("LCTRL", 0xa2),
        ("LCONTROL", 0xa2),
        ("RSHIFT", 0xa1),
        ("RALT", 0xa5),
        ("RMENU", 0xa5),
        ("F13", 0x7c),
        ("F14", 0x7d),
        ("F15", 0x7e),
        ("F16", 0x7f),
        ("F17", 0x80),
        ("F18", 0x81),
        ("F19", 0x82),
        ("F20", 0x83),
        ("F21", 0x84),
        ("F22", 0x85),
        ("F23", 0x86),
        ("F24", 0x87),
    ] {
        assert_eq!(vk_by_name(name), vk, "{name}");
    }
}

#[test]
fn only_the_executable_name_is_kept() {
    let name = |path: &str| foreground_process(Some(path.to_string()));
    assert_eq!(
        name(r"C:\Program Files\Mozilla Firefox\firefox.exe"),
        Some("firefox.exe".to_string())
    );
    assert_eq!(name("C:/mixed\\a/b.exe"), Some("b.exe".to_string()));
    assert_eq!(name("plain.exe"), Some("plain.exe".to_string()));
    assert_eq!(name("ends\\"), Some(String::new()));
    assert_eq!(name(""), Some(String::new()));
    assert_eq!(foreground_process(None), None);
}

#[test]
fn a_reading_of_the_clock_is_padded() {
    assert_eq!(
        timestamp(Clock::Local {
            year: 2026,
            month: 8,
            day: 4,
            hour: 9,
            minute: 5,
            second: 59
        }),
        "2026-08-04 09:05:59"
    );
    assert_eq!(
        timestamp(Clock::Local {
            year: 7,
            month: 12,
            day: 31,
            hour: 23,
            minute: 0,
            second: 0
        }),
        "0007-12-31 23:00:00"
    );
    assert_eq!(timestamp(Clock::Epoch(Some(1786000000))), "1786000000");
    assert_eq!(timestamp(Clock::Epoch(None)), "0");
}

#[test]
fn a_keystroke_is_described() {
    assert_eq!(describe_key(0x56, true), "[stub] key 0x56 down");
    assert_eq!(describe_key(0x07, false), "[stub] key 0x07 up");
    assert_eq!(describe_key(0x1234, false), "[stub] key 0x1234 up");
}

#[test]
fn the_named_directory_outranks_the_home_directory() {
    assert_eq!(config_dir(true, true), Base::Named);
    assert_eq!(config_dir(true, false), Base::Named);
    assert_eq!(config_dir(false, true), Base::Home);
    assert_eq!(config_dir(false, false), Base::Unknown);
}
