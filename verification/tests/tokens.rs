use invisible_ptt::config::DiscordCfg;
use invisible_ptt::json::{Field, Reply};
use invisible_ptt::log::Line;
use invisible_ptt::tokens::{
    comments_above, parse_refresh_response, persist_tokens, read_grant, refresh, refresh_form,
    rotate_tokens, saved_tokens, setting, Entry, Step, TOKEN_HOST, TOKEN_PATH,
};

#[test]
fn parse_refresh_response_extracts_both_tokens() {
    let body = br#"{"access_token":"AAA","token_type":"Bearer","expires_in":604800,"refresh_token":"RRR","scope":"rpc rpc.voice.write"}"#;
    assert_eq!(
        parse_refresh_response(body),
        Some(("AAA".to_string(), "RRR".to_string()))
    );
}

#[test]
fn parse_refresh_response_rejects_error_body() {
    // Discord's failure shape - must not be mistaken for success.
    let body = br#"{"error":"invalid_grant","error_description":"Invalid refresh token"}"#;
    assert_eq!(parse_refresh_response(body), None);
}

#[test]
fn parse_refresh_response_rejects_partial_and_garbage() {
    assert_eq!(parse_refresh_response(br#"{"access_token":"AAA"}"#), None);
    assert_eq!(parse_refresh_response(b"not json at all"), None);
}

/// What persisting leaves of a settings file.
fn persisted(text: &str, access: &str, refresh: &str) -> String {
    persist_tokens(text, access, refresh).unwrap().unwrap()
}

#[test]
fn persist_tokens_rewrites_values_and_keeps_comments() {
    let original = "\
# leading comment
button = 3
mapping = [1, 2, 3, 0, 5]

[discord]
# keep me
client_id = \"cid\"
access_token = \"old_access\"
refresh_token = \"old_refresh\"
";
    let result = persisted(original, "new_access", "new_refresh");

    // Values updated...
    assert!(result.contains("access_token = \"new_access\""));
    assert!(result.contains("refresh_token = \"new_refresh\""));
    assert!(!result.contains("old_access"));
    assert!(!result.contains("old_refresh"));
    // ...comments and untouched keys preserved.
    assert!(result.contains("# leading comment"));
    assert!(result.contains("# keep me"));
    assert!(result.contains("client_id = \"cid\""));
    assert_eq!(
        result,
        original
            .replace("old_access", "new_access")
            .replace("old_refresh", "new_refresh")
    );
}

#[test]
fn persist_tokens_inserts_missing_refresh_token_key() {
    // First-run config that has no refresh_token line yet.
    let result = persisted("[discord]\naccess_token = \"old\"\n", "a", "r");
    assert!(result.contains("access_token = \"a\""));
    assert!(result.contains("refresh_token = \"r\""));
}

#[test]
fn what_is_persisted_is_read_back() {
    let (a, r) = ("abc.DEF-1_2".to_string(), "zyx".to_string());
    for text in [
        "",
        "button = 3\n[other]\nx = 1\n",
        "# only a comment",
        "[discord]\n",
        "[discord.sub]\ndeep = \"kept\"\n[a]\nb = \"kept\"\n",
        "discord.client_id = \"kept\"\n",
        "discord = { client_id = \"kept\" }\n",
        "[discord]\r\nclient_id = \"kept\"\r\naccess_token = 5\r\n",
        "[a.b]\nx = 1\n[discord.sub]\ny = 2\n[a.c]\nz = 3\n",
        "[discord.access_token]\nx = 1\n",
    ] {
        let new = persisted(text, &a, &r);
        assert_eq!(saved_tokens(&new), (Some(a.clone()), Some(r.clone())), "{text}");
        let (old, table): (toml::Table, toml::Table) =
            (text.parse().unwrap(), new.parse().unwrap());
        for (key, value) in &old {
            if key != "discord" {
                assert_eq!(table.get(key), Some(value), "{text}");
            } else {
                for (key, value) in value.as_table().unwrap() {
                    if key != "access_token" {
                        assert_eq!(table["discord"].get(key), Some(value), "{text}");
                    }
                }
            }
        }
    }
}

fn key(k: &str) -> Step {
    Step::Key(k.to_string())
}

const SETTINGS: &str = "\
# leading comment
button = 3 # back
mapping = [
    1, 2, # two of them
    3, 0, 5 ]
default_action = 'none'
ratio = 1.50

# above the rules
[[rules]]
process = \"a.exe\"
[[rules]]
# the second
process = \"b.exe\"

# above discord
[discord] # tokens
# keep me
client_id = \"cid\"  # an id
# and me
access_token = \"old\" # in use
# the end
";

#[test]
fn a_setting_is_found_with_its_comments() {
    let find = |path: &Vec<Step>| (setting(SETTINGS, path), comments_above(SETTINGS, path));
    let text = |t: &str| Some(t.to_string());
    let entry = |body: Option<&str>, beside: &str, string: Option<&str>| {
        Some(Entry {
            body: body.map(str::to_string),
            beside: Some(beside.to_string()),
            string: string.map(str::to_string),
        })
    };
    assert_eq!(
        find(&vec![key("button")]),
        (entry(Some(" 3 # back"), " # back", None), text("# leading comment\n"))
    );
    assert_eq!(
        setting(SETTINGS, &vec![key("mapping"), Step::Place(3)]),
        entry(Some(" 0"), "", None)
    );
    assert_eq!(
        find(&vec![key("rules"), Step::Place(1), key("process")]),
        (entry(Some(" \"b.exe\""), "", Some("b.exe")), text("# the second\n"))
    );
    assert_eq!(
        find(&vec![key("rules"), Step::Place(0)]),
        (entry(None, "", None), text("\n# above the rules\n"))
    );
    assert_eq!(
        find(&vec![key("discord")]),
        (entry(None, " # tokens", None), text("\n# above discord\n"))
    );
    for path in [
        vec![key("rules"), Step::Place(2)],
        vec![key("button"), key("x")],
        vec![key("absent")],
    ] {
        assert_eq!(find(&path), (None, None), "{path:?}");
    }
    assert_eq!(setting("= what", &vec![]), None);
    assert_eq!(comments_above("= what", &vec![]), None);
}

#[test]
fn persisting_leaves_every_other_setting_and_comment_alone() {
    let new = persisted(SETTINGS, "a", "r");
    for path in [
        vec![key("button")],
        vec![key("mapping")],
        vec![key("mapping"), Step::Place(1)],
        vec![key("mapping"), Step::Place(5)],
        vec![key("default_action")],
        vec![key("ratio")],
        vec![key("rules")],
        vec![key("rules"), Step::Place(0)],
        vec![key("rules"), Step::Place(0), key("process")],
        vec![key("rules"), Step::Place(1), key("process")],
        vec![key("rules"), Step::Place(2)],
        vec![key("discord")],
        vec![key("discord"), key("client_id")],
        vec![key("absent")],
    ] {
        assert_eq!(setting(&new, &path), setting(SETTINGS, &path), "{path:?}");
        assert_eq!(comments_above(&new, &path), comments_above(SETTINGS, &path), "{path:?}");
    }
    let token = vec![key("discord"), key("access_token")];
    let entry = setting(&new, &token).unwrap();
    assert_eq!(entry.string, Some("a".to_string()));
    assert_eq!(entry.beside, Some(" # in use".to_string()));
    assert_eq!(comments_above(&new, &token), Some("# and me\n".to_string()));
    assert_eq!(saved_tokens(&new).1, Some("r".to_string()));
}

#[test]
fn persisting_changes_no_character_but_the_tokens() {
    // A token that is there is replaced, and one that is not goes behind the
    // last entry under the header.
    assert_eq!(
        persisted(SETTINGS, "a", "r"),
        SETTINGS
            .replace("\"old\"", "\"a\"")
            .replace("# in use\n", "# in use\nrefresh_token = \"r\"\n")
    );
    for (text, expected) in [
        // Comments beside the tokens, on the header and at the end.
        (
            "[discord] # h\naccess_token='x'# one\n\trefresh_token  =  \"y\"  # two\n# end",
            "[discord] # h\naccess_token=\"a\"# one\n\trefresh_token  =  \"r\"  # two\n# end",
        ),
        // Line ends.
        (
            "# one\r\n[discord]\r\nrefresh_token = \"y\" # two\r\naccess_token = \"x\"\r\n# three\r\n",
            "# one\r\n[discord]\r\nrefresh_token = \"r\" # two\r\naccess_token = \"a\"\r\n# three\r\n",
        ),
        // Keys that are apart.
        (
            "discord.access_token = 'x'\nb.x = 1\ndiscord.refresh_token = 'y'\nb.y = 2",
            "discord.access_token = \"a\"\nb.x = 1\ndiscord.refresh_token = \"r\"\nb.y = 2",
        ),
        // A table on one line.
        (
            "discord = {refresh_token='y',access_token = 'x' } # both\n",
            "discord = {refresh_token=\"r\",access_token = \"a\" } # both\n",
        ),
        // Nothing there yet.
        (
            "[discord] # h\n# end\n[other]\n",
            "[discord] # h\naccess_token = \"a\"\nrefresh_token = \"r\"\n# end\n[other]\n",
        ),
        (
            "[discord]\nclient_id = \"i\" # last",
            "[discord]\nclient_id = \"i\" # last\naccess_token = \"a\"\nrefresh_token = \"r\"\n",
        ),
        // No header to put them under.
        (
            "button = 3\n",
            "button = 3\ndiscord = { access_token = \"a\", refresh_token = \"r\" }\n",
        ),
        (
            "discord.access_token = \"x\" # one\n",
            "discord.access_token = \"a\" # one\ndiscord.refresh_token = \"r\"\n",
        ),
        (
            "discord.refresh_token = \"y\" # two\n",
            "discord.refresh_token = \"r\" # two\ndiscord.access_token = \"a\"\n",
        ),
    ] {
        assert_eq!(persisted(text, "a", "r"), expected);
    }
}

#[test]
fn awkward_tokens_are_written_all_the_same() {
    for token in ["with \"quotes\"", "it's", "both ' and \"", "a\\b", "line\nbreak", "\u{7f}"] {
        let new = persisted("[discord]\n", token, "r");
        assert_eq!(saved_tokens(&new).0, Some(token.to_string()));
    }
}

#[test]
fn what_is_no_document_is_left_alone() {
    match persist_tokens("= what", "a", "r") {
        Some(Err(e)) => assert!(!e.is_empty()),
        other => panic!("{other:?}"),
    }
    assert_eq!(saved_tokens("= what"), (None, None));
    assert_eq!(saved_tokens("[discord]\naccess_token = 5\n"), (None, None));
}

#[test]
fn there_may_be_no_place_for_tokens() {
    assert_eq!(persist_tokens("discord = 5\n", "a", "r"), None);
    assert_eq!(persist_tokens("[[discord]]\nx = 1\n", "a", "r"), None);
    let quotes = "\"".repeat(256);
    assert_eq!(persist_tokens("", &quotes, "r"), None);
    assert_eq!(persist_tokens("", "a", &"'".repeat(256)), None);
    let fewer = "'".repeat(255);
    assert_eq!(saved_tokens(&persisted("", &fewer, "r")).0, Some(fewer));
    assert_eq!(
        rotate_tokens("discord = {}\n", "a", "r"),
        Ok(persisted("discord = {}\n", "a", "r"))
    );
}

fn cfg(id: &str, secret: &str, token: &str) -> DiscordCfg {
    DiscordCfg {
        client_id: id.to_string(),
        client_secret: secret.to_string(),
        access_token: String::new(),
        refresh_token: token.to_string(),
    }
}

#[test]
fn a_refresh_takes_id_secret_and_token() {
    assert_eq!(
        refresh_form(&cfg("i", "s", "t")),
        Some(
            "grant_type=refresh_token&refresh_token=t&client_id=i&client_secret=s".to_string()
        )
    );
    assert_eq!(refresh_form(&cfg("", "s", "t")), None);
    assert_eq!(refresh_form(&cfg("i", "", "t")), None);
    assert_eq!(refresh_form(&cfg("i", "s", "")), None);
    assert_eq!((TOKEN_HOST, TOKEN_PATH), ("discord.com", "/api/oauth2/token"));
}

/// What refreshing makes of a response, and says about it.
fn refreshed(response: Result<&str, &str>) -> (Option<(String, String)>, Vec<String>) {
    let mut lines: Vec<Line> = Vec::new();
    let tokens = refresh(
        response.map(|s| s.as_bytes().to_vec()).map_err(str::to_string),
        &mut lines,
    );
    assert!(lines.iter().all(|l| l.error));
    (tokens, lines.into_iter().map(|l| l.text).collect())
}

#[test]
fn a_refresh_that_fails_says_why() {
    assert_eq!(
        refreshed(Ok(r#"{"access_token":"A","refresh_token":"R"}"#)),
        (Some(("A".to_string(), "R".to_string())), vec![])
    );
    for (response, line) in [
        (Err("no network"), "discord token refresh: no network"),
        (
            Ok(r#"{"error":"invalid_grant","error_description":"Invalid refresh token"}"#),
            "discord token refresh rejected: Invalid refresh token",
        ),
        (
            Ok(r#"{"error":"invalid_grant"}"#),
            "discord token refresh rejected: invalid_grant",
        ),
        (
            Ok(r#"{"error":"invalid_grant","error_description":5}"#),
            "discord token refresh rejected: no tokens in response",
        ),
        (
            Ok(r#"{"access_token":"A","refresh_token":5}"#),
            "discord token refresh rejected: no tokens in response",
        ),
        (Ok("[1, 2]"), "discord token refresh rejected: no tokens in response"),
    ] {
        assert_eq!(refreshed(response), (None, vec![line.to_string()]));
    }
    let (tokens, lines) = refreshed(Ok("nope"));
    assert_eq!(tokens, None);
    assert!(lines[0].starts_with("discord token refresh: could not parse response: "));
    assert!(lines[0].contains("line 1 column"));
}

#[test]
fn a_grant_is_read_off_an_answer() {
    let text = |t: &str| Field {
        text: Some(t.to_string()),
        members: None,
    };
    let reply = Ok(Reply {
        members: Some(vec![
            ("refresh_token".to_string(), text("R")),
            ("access_token".to_string(), text("A")),
        ]),
    });
    assert_eq!(read_grant(&reply), Ok(("A".to_string(), "R".to_string())));
    assert_eq!(
        read_grant(&Ok(Reply { members: None })),
        Err("discord token refresh rejected: no tokens in response".to_string())
    );
    assert_eq!(
        read_grant(&Err("bad".to_string())),
        Err("discord token refresh: could not parse response: bad".to_string())
    );
}
