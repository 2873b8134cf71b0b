use invisible_ptt::config::DiscordCfg;
use invisible_ptt::discord::{
    frame, pipe_names, read_frame, read_objection, socket_dir, write_frame, Answer, Deed, Rpc,
    OP_FRAME, OP_HANDSHAKE, PIPE_DIR,
};
use invisible_ptt::json::{Field, Node, Reply, Scalar};

fn cfg(id: &str, token: &str) -> DiscordCfg {
    DiscordCfg {
        client_id: id.to_string(),
        client_secret: String::new(),
        access_token: token.to_string(),
        refresh_token: String::new(),
    }
}

/// A deed in words; what is written, as opcode and JSON.
fn told(deed: &Deed) -> String {
    match deed {
        Deed::Open => "open".to_string(),
        Deed::Read => "read".to_string(),
        Deed::Close => "close".to_string(),
        Deed::Log(line) => format!("log {} {}", line.error, line.text),
        Deed::Write(bytes) => {
            let mut header = [0u8; 8];
            header.copy_from_slice(&bytes[..8]);
            assert_eq!(read_frame(header), bytes.len() - 8);
            format!("{} {}", bytes[0], String::from_utf8_lossy(&bytes[8..]))
        }
    }
}

fn deeds(list: Vec<Deed>) -> Vec<String> {
    list.iter().map(told).collect()
}

const UNAVAILABLE: &str =
    "log true discord rpc unavailable (is Discord running?); will retry";

#[test]
fn a_frame_is_opcode_length_and_body() {
    assert_eq!(
        frame(OP_FRAME, b"{}"),
        vec![1, 0, 0, 0, 2, 0, 0, 0, b'{', b'}']
    );
    let long = vec![7u8; 70000];
    let framed = frame(0x01020304, &long);
    assert_eq!(framed[..8], [4, 3, 2, 1, 0x70, 0x11, 1, 0]);
    assert_eq!(framed[8..], long[..]);
}

#[test]
fn a_frame_comes_back_as_it_was() {
    for len in [0usize, 1, 255, 256, 65536, 1 << 20] {
        let body = vec![3u8; len];
        let stream = frame(OP_FRAME, &body);
        let mut header = [0u8; 8];
        header.copy_from_slice(&stream[..8]);
        assert_eq!(read_frame(header), len);
        assert_eq!(stream[8..8 + read_frame(header)], body[..]);
    }
}

#[test]
fn no_more_than_a_mebibyte_is_read() {
    assert_eq!(read_frame([1, 0, 0, 0, 0, 0, 16, 0]), 1 << 20);
    assert_eq!(read_frame([1, 0, 0, 0, 1, 0, 16, 0]), 1 << 20);
    assert_eq!(read_frame([1, 0, 0, 0, 255, 255, 255, 255]), 1 << 20);
    assert_eq!(read_frame([1, 0, 0, 0, 255, 255, 15, 0]), (1 << 20) - 1);
}

#[test]
fn an_object_is_written_as_json() {
    let value = vec![
        ("n".to_string(), Node::Leaf(Scalar::Number(7))),
        ("text".to_string(), Node::Leaf(Scalar::Text("a\"b".to_string()))),
        (
            "inner".to_string(),
            Node::Object(vec![("on".to_string(), Scalar::Flag(true))]),
        ),
    ];
    let bytes = write_frame(OP_HANDSHAKE, &value);
    let body: serde_json::Value = serde_json::from_slice(&bytes[8..]).unwrap();
    assert_eq!(body["n"].as_u64(), Some(7));
    assert_eq!(body["text"].as_str(), Some("a\"b"));
    assert_eq!(body["inner"]["on"].as_bool(), Some(true));
    assert_eq!(body.as_object().unwrap().len(), 3);
}

#[test]
fn a_press_connects_proves_itself_and_speaks() {
    let mut rpc = Rpc::new(&cfg("cid", "tok"));
    assert!(rpc.is_idle());
    assert_eq!(deeds(rpc.set_mute(false)), vec!["open"]);
    assert!(!rpc.is_idle());
    assert_eq!(
        deeds(rpc.answer(Answer::Opened(true))),
        vec![r#"0 {"client_id":"cid","v":1}"#]
    );
    assert_eq!(deeds(rpc.answer(Answer::Wrote(true))), vec!["read"]);
    assert_eq!(
        deeds(rpc.answer(Answer::Received(None))),
        vec![r#"1 {"args":{"access_token":"tok"},"cmd":"AUTHENTICATE","nonce":"1"}"#]
    );
    assert_eq!(deeds(rpc.answer(Answer::Wrote(true))), vec!["read"]);
    assert_eq!(
        deeds(rpc.answer(Answer::Received(Some(br#"{"evt":null}"#.to_vec())))),
        vec![r#"1 {"args":{"mute":false},"cmd":"SET_VOICE_SETTINGS","nonce":"2"}"#]
    );
    assert!(deeds(rpc.answer(Answer::Wrote(true))).is_empty());
    assert!(rpc.is_idle());
    assert_eq!(rpc.nonce(), 2);
    // The release goes out at once.
    assert_eq!(
        deeds(rpc.set_mute(true)),
        vec![r#"1 {"args":{"mute":true},"cmd":"SET_VOICE_SETTINGS","nonce":"3"}"#]
    );
    // Discord restarted: drop it, and look for it on the next press.
    assert_eq!(deeds(rpc.answer(Answer::Wrote(false))), vec!["close"]);
    assert_eq!(deeds(rpc.set_mute(false)), vec!["open"]);
}

#[test]
fn without_a_token_nothing_is_proved() {
    let mut rpc = Rpc::new(&cfg("cid", ""));
    rpc.set_mute(true);
    rpc.answer(Answer::Opened(true));
    rpc.answer(Answer::Wrote(true));
    assert_eq!(
        deeds(rpc.answer(Answer::Received(Some(vec![])))),
        vec![r#"1 {"args":{"mute":true},"cmd":"SET_VOICE_SETTINGS","nonce":"1"}"#]
    );
}

#[test]
fn without_a_client_id_nothing_is_ever_done() {
    let mut rpc = Rpc::new(&cfg("", "tok"));
    for mute in [false, true, false] {
        assert!(rpc.set_mute(mute).is_empty());
        assert!(rpc.answer(Answer::Opened(true)).is_empty());
    }
}

#[test]
fn an_outage_is_reported_once_until_there_has_been_a_connection() {
    let mut rpc = Rpc::new(&cfg("cid", ""));
    rpc.set_mute(false);
    assert_eq!(deeds(rpc.answer(Answer::Opened(false))), vec![UNAVAILABLE]);
    rpc.set_mute(true);
    assert!(deeds(rpc.answer(Answer::Opened(false))).is_empty());
    rpc.set_mute(false);
    rpc.answer(Answer::Opened(true));
    assert_eq!(deeds(rpc.answer(Answer::Wrote(false))), vec!["close"]);
    // A connection, and then another outage.
    rpc.set_mute(false);
    rpc.answer(Answer::Opened(true));
    rpc.answer(Answer::Wrote(true));
    rpc.answer(Answer::Received(None));
    assert_eq!(deeds(rpc.answer(Answer::Wrote(false))), vec!["close"]);
    rpc.set_mute(true);
    assert_eq!(deeds(rpc.answer(Answer::Opened(false))), vec![UNAVAILABLE]);
}

#[test]
fn a_refused_token_is_said_out_loud_every_time() {
    let mut rpc = Rpc::new(&cfg("cid", "stale"));
    let refusal = br#"{"cmd":"AUTHENTICATE","evt":"ERROR","data":{"code":4009,"message":"Invalid access token"}}"#;
    for again in [false, true] {
        rpc.set_mute(false);
        rpc.answer(Answer::Opened(true));
        rpc.answer(Answer::Wrote(true));
        rpc.answer(Answer::Received(None));
        rpc.answer(Answer::Wrote(true));
        let mut want = vec![
            "log true discord authenticate failed: Invalid access token",
            "close",
        ];
        if !again {
            want.push(UNAVAILABLE);
        }
        assert_eq!(
            deeds(rpc.answer(Answer::Received(Some(refusal.to_vec())))),
            want
        );
        assert!(rpc.is_idle());
    }
    // What is no JSON refuses nothing, and neither does silence.
    for body in [Some(b"junk".to_vec()), None] {
        rpc.set_mute(false);
        rpc.answer(Answer::Opened(true));
        rpc.answer(Answer::Wrote(true));
        rpc.answer(Answer::Received(None));
        rpc.answer(Answer::Wrote(true));
        let next = deeds(rpc.answer(Answer::Received(body)));
        assert_eq!(next.len(), 1);
        assert!(next[0].contains("SET_VOICE_SETTINGS"));
        rpc.answer(Answer::Wrote(false));
    }
}

#[test]
fn a_token_that_cannot_be_written_is_an_outage() {
    let mut rpc = Rpc::new(&cfg("cid", "tok"));
    rpc.set_mute(false);
    rpc.answer(Answer::Opened(true));
    rpc.answer(Answer::Wrote(true));
    rpc.answer(Answer::Received(None));
    assert_eq!(
        deeds(rpc.answer(Answer::Wrote(false))),
        vec!["close", UNAVAILABLE]
    );
    // The number it had is not used again.
    rpc.set_mute(false);
    rpc.answer(Answer::Opened(true));
    rpc.answer(Answer::Wrote(true));
    assert!(deeds(rpc.answer(Answer::Received(None)))[0].contains(r#""nonce":"2""#));
}

#[test]
fn an_answer_to_something_else_changes_nothing() {
    let mut rpc = Rpc::new(&cfg("cid", "tok"));
    assert!(rpc.answer(Answer::Wrote(true)).is_empty());
    rpc.set_mute(false);
    assert!(rpc.answer(Answer::Received(None)).is_empty());
    assert_eq!(
        deeds(rpc.answer(Answer::Opened(true))),
        vec![r#"0 {"client_id":"cid","v":1}"#]
    );
}

fn text(t: &str) -> Field {
    Field {
        text: Some(t.to_string()),
        members: None,
    }
}

#[test]
fn an_objection_is_read_off_an_answer() {
    let data = |members: Vec<(String, Option<String>)>| Field {
        text: None,
        members: Some(members),
    };
    let reply = |members: Vec<(&str, Field)>| Reply {
        members: Some(
            members
                .into_iter()
                .map(|(k, f)| (k.to_string(), f))
                .collect(),
        ),
    };
    let message = || vec![("message".to_string(), Some("why".to_string()))];
    assert_eq!(
        read_objection(&reply(vec![("evt", text("ERROR")), ("data", data(message()))])),
        Some("why".to_string())
    );
    assert_eq!(
        read_objection(&reply(vec![("evt", text("ERROR")), ("data", data(vec![]))])),
        Some("unknown error".to_string())
    );
    assert_eq!(
        read_objection(&reply(vec![("evt", text("ERROR")), ("data", text("why"))])),
        Some("unknown error".to_string())
    );
    assert_eq!(
        read_objection(&reply(vec![("evt", text("error"))])),
        None
    );
    assert_eq!(read_objection(&reply(vec![("data", data(message()))])), None);
    assert_eq!(read_objection(&Reply { members: None }), None);
}

#[test]
fn members_are_found_by_name() {
    let reply = Reply {
        members: Some(vec![
            ("a".to_string(), text("first")),
            ("a".to_string(), text("second")),
            (
                "o".to_string(),
                Field {
                    text: None,
                    members: Some(vec![
                        ("x".to_string(), None),
                        ("y".to_string(), Some("deep".to_string())),
                    ]),
                },
            ),
        ]),
    };
    assert_eq!(reply.says("a"), Some("first".to_string()));
    assert_eq!(reply.says("b"), None);
    assert_eq!(reply.says("o"), None);
    let inner = reply.get("o").unwrap();
    assert_eq!(inner.says("x"), None);
    assert_eq!(inner.says("y"), Some("deep".to_string()));
    assert_eq!(inner.says("z"), None);
    assert!(reply.get("z").is_none());
}

#[test]
fn ten_pipes_are_tried_in_order() {
    let names = pipe_names(PIPE_DIR);
    assert_eq!(names.len(), 10);
    assert_eq!(names[0], r"\\.\pipe\discord-ipc-0");
    assert_eq!(names[9], r"\\.\pipe\discord-ipc-9");
    let dir = |d: &str| Some(d.to_string());
    assert_eq!(socket_dir(dir("/run/user/1"), dir("/var/tmp")), "/run/user/1/");
    assert_eq!(socket_dir(None, dir("/var/tmp")), "/var/tmp/");
    assert_eq!(
        pipe_names(&socket_dir(None, None))[3],
        "/tmp/discord-ipc-3"
    );
}
