use invisible_ptt::action::{parse_action, Action};
use invisible_ptt::config::{
    compile_rules, config_path, credentials_changed, default_action, load_config,
    report_visibility, starter, warn_about_config, Config, DiscordCfg, DiscordDraft, Draft, Loaded, Place,
    Rule,
};
use invisible_ptt::log::Line;

fn text_of(table: &toml::Table, key: &str) -> Option<String> {
    table.get(key).map(|v| v.as_str().unwrap().to_string())
}

/// The settings in a file, as far as it gives them.
fn draft(text: &str) -> Draft {
    let table: toml::Table = text.parse().expect("the settings must parse");
    Draft {
        button: u8::try_from(table["button"].as_integer().unwrap()).unwrap(),
        mapping: table["mapping"]
            .as_array()
            .unwrap()
            .iter()
            .map(|v| u8::try_from(v.as_integer().unwrap()).unwrap())
            .collect(),
        default_action: text_of(&table, "default_action"),
        rules: table.get("rules").map(|rules| {
            rules
                .as_array()
                .unwrap()
                .iter()
                .map(|rule| Rule {
                    process: rule["process"].as_str().unwrap().to_string(),
                    action: rule["action"].as_str().unwrap().to_string(),
                })
                .collect()
        }),
        discord: table.get("discord").map(|discord| {
            let discord = discord.as_table().unwrap();
            DiscordDraft {
                client_id: text_of(discord, "client_id"),
                client_secret: text_of(discord, "client_secret"),
                access_token: text_of(discord, "access_token"),
                refresh_token: text_of(discord, "refresh_token"),
            }
        }),
    }
}

fn config(text: &str) -> Config {
    draft(text).complete()
}

#[test]
fn the_starter_config_parses_and_validates() {
    let cfg: Config = config(&starter());
    assert!(cfg.validate().is_ok());
}

#[test]
fn the_starter_config_changes_nothing_until_configured() {
    let cfg: Config = config(&starter());
    assert!(
        cfg.mapping.iter().all(|&code| code != 0),
        "the starter must not disable a button: {:?}",
        cfg.mapping
    );
    assert_eq!(parse_action(&cfg.default_action), Action::Nothing);
    // A rule would fire its action on top of the button still working
    // normally, which is not inert either.
    assert!(cfg.rules.is_empty());
}

#[test]
fn the_starter_gives_the_starter_settings() {
    let draft = draft(&starter());
    assert_eq!(draft.button, 3);
    assert_eq!(draft.mapping, vec![1, 2, 3, 4, 5]);
    assert_eq!(draft.default_action, Some("none".to_string()));
    assert!(draft.rules.is_none());
    let discord = draft.discord.unwrap();
    for text in [
        discord.client_id,
        discord.client_secret,
        discord.access_token,
        discord.refresh_token,
    ] {
        assert_eq!(text, Some(String::new()));
    }
    // But for notes and blank lines, this is all of it.
    let text = starter();
    let lines: Vec<&str> = text
        .lines()
        .filter(|line| !line.is_empty() && !line.starts_with('#'))
        .collect();
    assert_eq!(
        lines,
        vec![
            "button = 3",
            "mapping = [1, 2, 3, 4, 5]",
            "default_action = \"none\"",
            "[discord]",
            "client_id = \"\"",
            "client_secret = \"\"",
            "access_token = \"\"",
            "refresh_token = \"\"",
        ]
    );
}

#[test]
fn validate_accepts_the_shipped_example() {
    let cfg = config("button = 3\nmapping = [1, 2, 3, 0, 5]\n");
    assert!(cfg.validate().is_ok());
}

#[test]
fn validate_rejects_a_button_the_mapping_does_not_cover() {
    // Would build a mask for a button that cannot be reported.
    let cfg = config("button = 5\nmapping = [1, 2, 3, 0, 5]\n");
    assert!(cfg.validate().is_err());
    assert_eq!(
        cfg.validate(),
        Err("button = 5 but the mapping only covers buttons 0 to 4".to_string())
    );
}

#[test]
fn validate_rejects_mappings_that_do_not_fit_a_frame() {
    // 17 entries would run off the end of the 20-byte HID++ frame.
    let long = format!("button = 0\nmapping = [{}]\n", vec!["1"; 17].join(", "));
    assert!(config(&long).validate().is_err());
    assert!(config("button = 0\nmapping = []\n").validate().is_err());
    // The boundary itself is fine.
    let full = format!("button = 15\nmapping = [{}]\n", vec!["1"; 16].join(", "));
    assert!(config(&full).validate().is_ok());
    assert_eq!(
        config(&long).validate(),
        Err("mapping has 17 entries; it needs one per physical button, 1 to 16".to_string())
    );
}

#[test]
fn config_defaults() {
    // A minimal config: only the required fields, no rules or discord.
    let cfg: Config = config("button = 3\nmapping = [1, 2, 3, 0, 5]\n");
    assert_eq!(cfg.button, 3);
    assert_eq!(cfg.mapping, vec![1, 2, 3, 0, 5]);
    assert_eq!(cfg.default_action, "none"); // default_action() default
    assert!(cfg.rules.is_empty());
    assert!(cfg.discord.client_id.is_empty());
    assert!(cfg.discord.refresh_token.is_empty());
    assert_eq!(default_action(), "none");
}

#[test]
fn what_is_given_is_kept() {
    let cfg = config(
        "button = 3\nmapping = [1, 2, 3, 0, 5]\ndefault_action = \"rpc\"\n\
         [[rules]]\nprocess = \"Game.exe\"\naction = \"key:V\"\n\
         [discord]\nclient_id = \"cid\"\nrefresh_token = \"r\"\n",
    );
    assert_eq!(cfg.default_action, "rpc");
    assert_eq!(cfg.rules.len(), 1);
    assert_eq!(cfg.discord.client_id, "cid");
    assert_eq!(cfg.discord.client_secret, "");
    assert_eq!(cfg.discord.access_token, "");
    assert_eq!(cfg.discord.refresh_token, "r");
    assert_eq!(
        compile_rules(&cfg),
        vec![("game.exe".to_string(), Action::Key(0x56))]
    );
    assert_eq!(cfg.bit(), 0b1000);
}

#[test]
fn what_is_wrong_with_a_file_is_said_in_a_sentence() {
    let load = |loaded| load_config("C:\\x\\config.toml", loaded).map(|cfg| cfg.button);
    assert_eq!(
        load(Loaded::Unreadable("no such file".to_string())),
        Err("could not read C:\\x\\config.toml: no such file".to_string())
    );
    assert_eq!(
        load(Loaded::Malformed("missing field `button`".to_string())),
        Err("bad config: missing field `button`".to_string())
    );
    assert_eq!(
        load(Loaded::Parsed(draft("button = 2\nmapping = [1, 2]\n"))),
        Err("bad config: button = 2 but the mapping only covers buttons 0 to 1".to_string())
    );
    assert_eq!(
        load(Loaded::Parsed(draft("button = 1\nmapping = [1, 2]\n"))),
        Ok(1)
    );
}

#[test]
fn what_the_command_line_says_always_wins() {
    assert_eq!(config_path(true, true, true), Some(Place::Argument));
    assert_eq!(config_path(true, false, false), Some(Place::Argument));
    assert_eq!(config_path(false, true, true), Some(Place::Beside));
    assert_eq!(config_path(false, false, true), Some(Place::User));
    assert_eq!(config_path(false, false, false), None);
}

#[test]
fn visibility_is_said_either_way() {
    assert_eq!(
        report_visibility(&config("button = 3\nmapping = [1, 2, 3, 0, 5]\n")),
        "button 3 is invisible to the OS"
    );
    assert_eq!(
        report_visibility(&config("button = 3\nmapping = [1, 2, 3, 4, 5]\n")),
        "button 3 still reaches Windows normally - put a 0 in mapping[3] to hide it"
    );
    assert_eq!(
        report_visibility(&config("button = 9\nmapping = [0]\n")),
        "button 9 still reaches Windows normally - put a 0 in mapping[9] to hide it"
    );
}

#[test]
fn misspelt_actions_are_warned_about_the_default_first() {
    let mut lines: Vec<Line> = Vec::new();
    warn_about_config(
        &config(
            "button = 0\nmapping = [1]\ndefault_action = \"oops\"\n\
             [[rules]]\nprocess = \"a\"\naction = \"rpc\"\n\
             [[rules]]\nprocess = \"b\"\naction = \"key:\"\n",
        ),
        &mut lines,
    );
    let texts: Vec<&str> = lines.iter().map(|l| l.text.as_str()).collect();
    assert_eq!(
        texts,
        vec![
            "warning: could not parse action 'oops', treating as none",
            "warning: could not parse action 'key:', treating as none"
        ]
    );
}

#[test]
fn the_secret_alone_needs_no_new_connection() {
    let cfg = |id: &str, secret: &str, access: &str, refresh: &str| DiscordCfg {
        client_id: id.to_string(),
        client_secret: secret.to_string(),
        access_token: access.to_string(),
        refresh_token: refresh.to_string(),
    };
    let old = cfg("i", "s", "a", "r");
    assert!(!credentials_changed(&cfg("i", "s", "a", "r"), &old));
    assert!(!credentials_changed(&cfg("i", "other", "a", "r"), &old));
    assert!(credentials_changed(&cfg("j", "s", "a", "r"), &old));
    assert!(credentials_changed(&cfg("i", "s", "b", "r"), &old));
    assert!(credentials_changed(&cfg("i", "s", "a", "q"), &old));
    assert!(!credentials_changed(&old.duplicate(), &old));
}

#[test]
fn tokens_are_taken_on() {
    let mut cfg = config("button = 0\nmapping = [1]\n[discord]\nclient_id = \"cid\"\n");
    cfg.adopt_tokens("new".to_string(), "newer".to_string());
    assert_eq!(cfg.discord.client_id, "cid");
    assert_eq!(cfg.discord.access_token, "new");
    assert_eq!(cfg.discord.refresh_token, "newer");
}
