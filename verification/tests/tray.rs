use invisible_ptt::config::{Draft, Loaded};
use invisible_ptt::icon::Status;
use invisible_ptt::log::Line;
use invisible_ptt::tray::{
    autostart_command, autostart_line, editor, menu, open_complaint, picked, quoted, reload,
    shell_succeeded, tip, Editor, Entry, Pick, Reload,
};

#[test]
fn the_menu_has_its_entries_and_ticks() {
    let words = |paused, autostart| -> Vec<String> {
        menu(paused, autostart)
            .iter()
            .map(|e| match e {
                Entry::Title(label) => format!("[{label}]"),
                Entry::Separator => "-".to_string(),
                Entry::Item { id, label } => format!("{id} {label}"),
                Entry::Tick { id, label, on } => format!("{id} {label} {on}"),
            })
            .collect()
    };
    assert_eq!(
        words(false, true),
        vec![
            "[invisible-ptt]",
            "-",
            "6 Pause false",
            "1 Open settings file",
            "2 Open log file",
            "3 Reload settings",
            "4 Start automatically at sign-in true",
            "-",
            "5 Exit",
        ]
    );
    assert_eq!(words(true, false)[2], "6 Pause true");
    assert_eq!(words(true, false)[6], "4 Start automatically at sign-in false");
}

#[test]
fn every_pick_does_its_own_thing() {
    assert_eq!(picked(0, false, false), Pick::Dismissed);
    assert_eq!(picked(1, false, false), Pick::OpenSettings);
    assert_eq!(picked(2, false, false), Pick::OpenLog);
    assert_eq!(picked(3, false, false), Pick::Reload);
    assert_eq!(picked(4, false, false), Pick::Autostart(true));
    assert_eq!(picked(4, false, true), Pick::Autostart(false));
    assert_eq!(picked(5, false, false), Pick::Exit);
    assert_eq!(picked(6, false, false), Pick::Pause(true));
    assert_eq!(picked(6, true, false), Pick::Pause(false));
    assert_eq!(picked(7, true, true), Pick::Dismissed);
}

#[test]
fn hovering_says_the_same_in_words() {
    assert_eq!(tip(Status::Waiting), "invisible-ptt - waiting for the mouse");
    assert_eq!(tip(Status::Ready), "invisible-ptt - ready");
    assert_eq!(tip(Status::Talking), "invisible-ptt - the button is down");
    assert_eq!(tip(Status::Paused), "invisible-ptt - paused");
}

fn draft(button: u8) -> Draft {
    Draft {
        button,
        mapping: vec![1, 2, 0],
        default_action: None,
        rules: None,
        discord: None,
    }
}

#[test]
fn good_settings_are_sent_on() {
    let mut lines: Vec<Line> = Vec::new();
    match reload("c.toml", Loaded::Parsed(draft(2)), &mut lines) {
        Reload::Send(cfg) => {
            assert_eq!(cfg.button, 2);
            assert_eq!(cfg.default_action, "none");
        }
        other => panic!("{other:?}"),
    }
    assert_eq!(lines.len(), 1);
    assert!(!lines[0].error);
    assert_eq!(lines[0].text, "reload requested from the tray");
}

#[test]
fn bad_settings_change_nothing_and_say_so() {
    for (loaded, why) in [
        (
            Loaded::Parsed(draft(3)),
            "bad config: button = 3 but the mapping only covers buttons 0 to 2",
        ),
        (Loaded::Malformed("oops".to_string()), "bad config: oops"),
        (
            Loaded::Unreadable("gone".to_string()),
            "could not read c.toml: gone",
        ),
    ] {
        let mut lines: Vec<Line> = Vec::new();
        match reload("c.toml", loaded, &mut lines) {
            Reload::Refuse(message) => assert_eq!(
                message,
                format!(
                    "{why}\n\nNothing was changed - the settings already running are still in effect."
                )
            ),
            other => panic!("{other:?}"),
        }
        assert_eq!(lines.len(), 1);
        assert!(lines[0].error);
        assert_eq!(lines[0].text, format!("reload failed: {why}"));
    }
}

#[test]
fn paths_are_quoted_for_the_shell() {
    assert_eq!(quoted(r"C:\a b\c.log"), r#""C:\a b\c.log""#);
    assert_eq!(
        autostart_command(r"C:\a b\i.exe", r"C:\c.toml"),
        r#""C:\a b\i.exe" "C:\c.toml""#
    );
}

#[test]
fn what_became_of_the_sign_in_entry_is_said() {
    let line = |on, outcome: Result<(), &str>| {
        let l = autostart_line(on, &outcome.map_err(str::to_string));
        (l.error, l.text)
    };
    assert_eq!(line(true, Ok(())), (false, "will start at sign-in".to_string()));
    assert_eq!(
        line(false, Ok(())),
        (false, "will no longer start at sign-in".to_string())
    );
    assert_eq!(
        line(true, Err("denied")),
        (true, "could not change start at sign-in: denied".to_string())
    );
}

#[test]
fn the_shell_reports_failure_as_a_small_number() {
    assert!(!shell_succeeded(0));
    assert!(!shell_succeeded(32));
    assert!(shell_succeeded(33));
    assert!(open_complaint("f", 33).is_none());
    let line = open_complaint(r"C:\f", 2).unwrap();
    assert!(line.error);
    assert_eq!(line.text, r"could not open C:\f (ShellExecute returned 2)");
}

#[test]
fn a_file_without_a_handler_is_opened_in_notepad() {
    assert_eq!(editor(33), Editor::Handler);
    assert_eq!(editor(32), Editor::Notepad);
    assert_eq!(editor(0), Editor::Notepad);
}
