use invisible_ptt::action::Action;
use invisible_ptt::config::{Config, DiscordCfg, Rule};
use invisible_ptt::daemon::{release, Daemon, Effect, Event, Request};
use invisible_ptt::device::{Device, Probe};
use invisible_ptt::hidpp::Error;
use invisible_ptt::icon::Status;

const SEC: u64 = 1_000_000_000;

fn config(action: &str) -> Config {
    Config {
        button: 3,
        mapping: vec![1, 2, 3, 0, 5],
        default_action: action.to_string(),
        rules: vec![Rule {
            process: "Game.exe".to_string(),
            action: "key:V".to_string(),
        }],
        discord: DiscordCfg {
            client_id: "cid".to_string(),
            client_secret: "sec".to_string(),
            access_token: "old".to_string(),
            refresh_token: "ref".to_string(),
        },
    }
}

const DEVICE: Device = Device {
    spy_idx: 8,
    profiles_idx: 7,
    wireless_idx: Some(3),
};

fn start(action: &str) -> Daemon {
    Daemon::new(config(action), "/c".to_string(), DEVICE, true, 0)
}

/// An effect in words.
fn told(effect: &Effect) -> String {
    match effect {
        Effect::Show(status) => format!("show {status:?}"),
        Effect::Key { vk, down } => format!("key {vk:#x} {down}"),
        Effect::Mute(mute) => format!("mute {mute}"),
        Effect::Restore => "restore".to_string(),
        Effect::Reconfigure(cfg) => format!("reconfigure {}", cfg.access_token),
        Effect::Persist { access, refresh } => format!("persist {access} {refresh}"),
        Effect::Log(line) => format!("log {} {}", line.error, line.text),
        Effect::Rest => "rest".to_string(),
    }
}

fn step(d: &mut Daemon, request: Request, event: Event) -> Vec<String> {
    assert_eq!(d.request(), request);
    d.step(event).iter().map(told).collect()
}

fn turn(d: &mut Daemon, now: u64, pause: bool) -> Vec<String> {
    let running = true;
    step(d, Request::Turn, Event::Turn { now, running, pause })
}

fn mail(d: &mut Daemon, now: u64, reload: Option<Config>) -> Vec<String> {
    step(d, Request::Mail, Event::Mail { now, reload })
}

fn time(d: &mut Daemon, now: u64) -> Vec<String> {
    step(d, Request::Time, Event::Time { now })
}

fn applied(d: &mut Daemon, now: u64, result: Result<(), Error>) -> Vec<String> {
    step(d, Request::Apply, Event::Applied { now, result })
}

/// A pass of the loop in which nothing is due, up to where it listens.
fn idle_pass(d: &mut Daemon, now: u64) -> Vec<String> {
    let shown = turn(d, now, d.status() == Status::Paused);
    assert!(mail(d, now, None).is_empty());
    assert!(time(d, now).is_empty());
    assert!(time(d, now).is_empty());
    shown
}

fn buttons(mask: u16) -> [u8; 20] {
    let mut frame = [0u8; 20];
    frame[0] = 0x11;
    frame[1] = 1;
    frame[2] = 8;
    frame[4] = (mask >> 8) as u8;
    frame[5] = mask as u8;
    frame
}

fn wake() -> [u8; 20] {
    let mut frame = [0u8; 20];
    frame[2] = 3;
    frame
}

fn heard(d: &mut Daemon, now: u64, frame: [u8; 20]) -> Vec<String> {
    step(d, Request::Listen, Event::Heard { now, frame })
}

fn foreground(d: &mut Daemon, exe: Option<&str>) -> Vec<String> {
    let exe = exe.map(str::to_string);
    step(d, Request::Foreground, Event::Foreground { exe })
}

/// Presses the button at `now`, from the top of the loop.
fn press(d: &mut Daemon, now: u64, exe: Option<&str>) -> Vec<String> {
    idle_pass(d, now);
    assert!(heard(d, now, buttons(0b1000)).is_empty());
    foreground(d, exe)
}

#[test]
fn a_press_unmutes_and_a_release_mutes() {
    let mut d = start("rpc");
    assert_eq!(press(&mut d, SEC, Some("firefox.exe")), vec!["mute false"]);
    assert_eq!(d.status(), Status::Talking);
    assert_eq!(idle_pass(&mut d, SEC + 1), vec!["show Talking"]);
    assert_eq!(heard(&mut d, SEC + 2, buttons(0)), vec!["mute true"]);
    assert_eq!(idle_pass(&mut d, SEC + 3), vec!["show Ready"]);
}

#[test]
fn a_game_gets_its_key_whatever_is_in_front_at_the_release() {
    let mut d = start("rpc");
    assert_eq!(press(&mut d, SEC, Some("GAME.EXE")), vec!["key 0x56 true"]);
    idle_pass(&mut d, SEC + 1);
    assert_eq!(heard(&mut d, SEC + 2, buttons(0)), vec!["key 0x56 false"]);
}

#[test]
fn an_action_of_none_is_not_talking() {
    let mut d = start("none");
    assert!(press(&mut d, SEC, None).is_empty());
    assert_eq!(idle_pass(&mut d, SEC + 1), vec!["show Ready"]);
    assert!(heard(&mut d, SEC + 2, buttons(0)).is_empty());
}

#[test]
fn other_buttons_do_nothing_but_hold_off_writes() {
    let mut d = start("rpc");
    idle_pass(&mut d, SEC);
    assert!(heard(&mut d, SEC, buttons(0b0001)).is_empty());
    // A reload waits for as long as that button is down.
    turn(&mut d, 20 * SEC, false);
    assert!(mail(&mut d, 20 * SEC, Some(config("none"))).is_empty());
    assert!(time(&mut d, 20 * SEC).is_empty());
    // So does the check on the mouse.
    assert!(time(&mut d, 40 * SEC).is_empty());
    assert!(heard(&mut d, 41 * SEC, buttons(0)).is_empty());
    turn(&mut d, 41 * SEC, false);
    assert!(mail(&mut d, 41 * SEC + SEC / 2, None).is_empty());
    time(&mut d, 41 * SEC);
    time(&mut d, 41 * SEC);
    step(&mut d, Request::Listen, Event::Quiet);
    turn(&mut d, 42 * SEC, false);
    assert!(mail(&mut d, 41 * SEC + SEC / 2 + 1, None).is_empty());
    assert_eq!(
        applied(&mut d, 42 * SEC, Ok(())),
        vec!["log false reloaded /c", "log false button 3 is invisible to the OS"]
    );
    assert_eq!(d.config().default_action, "none");
}

#[test]
fn a_reload_with_new_credentials_reconnects_and_refreshes() {
    let mut d = start("rpc");
    turn(&mut d, SEC, false);
    let mut new = config("wat");
    new.discord.access_token = "new".to_string();
    assert_eq!(
        mail(&mut d, SEC, Some(new)),
        vec![
            "log true warning: could not parse action 'wat', treating as none",
            "reconfigure new"
        ]
    );
    assert_eq!(
        applied(&mut d, SEC, Err(Error::Timeout)),
        vec!["log true reloaded, but the mouse did not take it: device did not answer"]
    );
    assert!(time(&mut d, SEC).is_empty());
    assert_eq!(
        step(
            &mut d,
            Request::Refresh,
            Event::Refreshed {
                now: SEC,
                tokens: Some(("a".to_string(), "r".to_string()))
            }
        ),
        vec![
            "persist a r",
            "reconfigure a",
            "log false refreshed discord access token"
        ]
    );
    assert_eq!(d.config().discord.access_token, "a");
    assert_eq!(d.config().discord.refresh_token, "r");
    assert_eq!(d.config().discord.client_secret, "sec");
}

#[test]
fn tokens_are_refreshed_every_six_days_and_retried_every_hour() {
    let day = 24 * 60 * 60 * SEC;
    let mut d = start("none");
    turn(&mut d, 6 * day - 1, false);
    mail(&mut d, 6 * day - 1, None);
    time(&mut d, 6 * day - 1);
    assert_eq!(d.request(), Request::Time);
    let mut d = start("none");
    turn(&mut d, 6 * day, false);
    mail(&mut d, 6 * day, None);
    time(&mut d, 6 * day);
    let now = 6 * day;
    let tokens = None;
    assert!(step(&mut d, Request::Refresh, Event::Refreshed { now, tokens }).is_empty());
    assert_eq!(d.config().discord.access_token, "old");
    // One that could not be refreshed at the start is due in an hour.
    let hour = 60 * 60 * SEC;
    let mut d = Daemon::new(config("none"), "/c".to_string(), DEVICE, false, 0);
    turn(&mut d, hour, false);
    mail(&mut d, hour, None);
    time(&mut d, hour);
    assert_eq!(d.request(), Request::Refresh);
}

#[test]
fn pausing_ends_the_hold_and_hands_the_mouse_back() {
    let mut d = start("rpc");
    press(&mut d, SEC, None);
    // Not while the button is down.
    assert_eq!(turn(&mut d, 9 * SEC, true), vec!["show Talking"]);
    mail(&mut d, 9 * SEC, None);
    time(&mut d, 9 * SEC);
    time(&mut d, 9 * SEC);
    heard(&mut d, 9 * SEC, buttons(0));
    assert_eq!(
        turn(&mut d, 10 * SEC, true),
        vec![
            "show Ready",
            "restore",
            "log false paused - the mouse is Windows' again until you resume"
        ]
    );
    assert_eq!(d.status(), Status::Paused);
    mail(&mut d, 10 * SEC, None);
    time(&mut d, 10 * SEC);
    // No check, however late it is, and no reaction to the button or to waking.
    time(&mut d, 1000 * SEC);
    assert!(heard(&mut d, 1000 * SEC, buttons(0b1000)).is_empty());
    assert_eq!(idle_pass(&mut d, 1001 * SEC), vec!["show Paused"]);
    assert!(heard(&mut d, 1001 * SEC, wake()).is_empty());
    // A reload is taken in without touching the mouse.
    turn(&mut d, 1002 * SEC, true);
    assert_eq!(
        mail(&mut d, 1002 * SEC, Some(config("none"))),
        vec!["log false reloaded /c (still paused)"]
    );
    time(&mut d, 1002 * SEC);
    time(&mut d, 1002 * SEC);
    step(&mut d, Request::Listen, Event::Quiet);
    // Resuming takes the mouse back.
    assert_eq!(turn(&mut d, 1003 * SEC, false), vec!["show Paused"]);
    assert_eq!(
        applied(&mut d, 1003 * SEC, Ok(())),
        vec!["log false resumed", "log false button 3 is invisible to the OS"]
    );
    assert_eq!(d.status(), Status::Ready);
}

#[test]
fn a_resume_that_fails_is_followed_by_a_check() {
    let mut d = start("none");
    turn(&mut d, SEC, true);
    mail(&mut d, SEC, None);
    time(&mut d, SEC);
    time(&mut d, SEC);
    step(&mut d, Request::Listen, Event::Quiet);
    turn(&mut d, 60 * SEC, false);
    assert_eq!(
        applied(&mut d, 60 * SEC, Err(Error::NoDevice)),
        vec!["log true resumed, but the mouse did not take it: no Logitech HID++ interface found"]
    );
    mail(&mut d, 60 * SEC, None);
    time(&mut d, 60 * SEC);
    time(&mut d, 60 * SEC);
    assert_eq!(d.request(), Request::Probe);
}

#[test]
fn a_check_reads_before_it_writes() {
    let mut d = start("none");
    turn(&mut d, 31 * SEC, false);
    mail(&mut d, 31 * SEC, None);
    time(&mut d, 31 * SEC);
    // Thirty seconds exactly is not yet due.
    assert!(time(&mut d, 30 * SEC).is_empty());
    step(&mut d, Request::Listen, Event::Quiet);
    idle_until_poll(&mut d, 31 * SEC);
    let mapping = vec![1, 2, 3, 0, 5];
    let result = Ok(Probe { mode: 2, mapping });
    assert!(step(&mut d, Request::Probe, Event::Probed { result }).is_empty());
    assert!(step(&mut d, Request::Listen, Event::Quiet).is_empty());
    // A mouse that forgot is told again.
    idle_until_poll(&mut d, 62 * SEC);
    let mapping = vec![1, 2, 3, 4, 5];
    let result = Ok(Probe { mode: 1, mapping });
    assert_eq!(
        step(&mut d, Request::Probe, Event::Probed { result }),
        vec![
            "log true mouse forgot its configuration (mode=01 (onboard), mapping=[01 02 03 04 05])"
        ]
    );
    assert!(applied(&mut d, 62 * SEC, Ok(())).is_empty());
    assert_eq!(d.status(), Status::Ready);
}

/// A pass of the loop in which the mouse is due for a check.
fn idle_until_poll(d: &mut Daemon, now: u64) {
    turn(d, now, false);
    mail(d, now, None);
    time(d, now);
    time(d, now);
}

#[test]
fn a_mouse_that_goes_and_comes_back_is_reported_once_each() {
    let mut d = start("rpc");
    press(&mut d, SEC, None);
    idle_pass(&mut d, SEC + 1);
    // The read fails in the middle of a hold.
    assert_eq!(
        step(&mut d, Request::Listen, Event::Deaf),
        vec!["mute true", "rest"]
    );
    // The check comes at once, as soon as the buttons have been quiet.
    idle_until_poll(&mut d, 2 * SEC);
    let result = Err(Error::Timeout);
    assert!(step(&mut d, Request::Probe, Event::Probed { result }).is_empty());
    assert!(applied(&mut d, 2 * SEC, Err(Error::Timeout)).is_empty());
    let device = None;
    assert_eq!(
        step(&mut d, Request::Connect, Event::Connected { device }),
        vec!["log true lost the mouse; waiting for it to come back..."]
    );
    assert_eq!(d.status(), Status::Waiting);
    assert_eq!(
        step(&mut d, Request::Listen, Event::Deaf),
        vec!["rest"]
    );
    // Back to the slow pace: nothing until the interval is over.
    idle_pass(&mut d, 3 * SEC);
    step(&mut d, Request::Listen, Event::Quiet);
    idle_until_poll(&mut d, 33 * SEC);
    assert!(applied(&mut d, 33 * SEC, Err(Error::Timeout)).is_empty());
    let device = None;
    assert!(step(&mut d, Request::Connect, Event::Connected { device }).is_empty());
    step(&mut d, Request::Listen, Event::Quiet);
    idle_until_poll(&mut d, 64 * SEC);
    applied(&mut d, 64 * SEC, Err(Error::Timeout));
    let found = Device {
        spy_idx: 9,
        profiles_idx: 6,
        wireless_idx: None,
    };
    let device = Some(found);
    assert_eq!(
        step(&mut d, Request::Connect, Event::Connected { device }),
        vec!["log true mouse back"]
    );
    assert_eq!(d.device(), found);
    // This one does not announce waking, so it is looked at more often.
    step(&mut d, Request::Listen, Event::Quiet);
    idle_until_poll(&mut d, 70 * SEC);
    assert_eq!(d.request(), Request::Probe);
}

#[test]
fn waking_reasserts_at_once_and_ends_the_hold() {
    let mut d = start("rpc");
    press(&mut d, SEC, None);
    idle_pass(&mut d, SEC + 1);
    assert_eq!(
        heard(&mut d, SEC + 2, wake()),
        vec!["log true wake event -> reasserting mouse state", "mute true"]
    );
    assert!(applied(&mut d, SEC + 2, Err(Error::Timeout)).is_empty());
    assert_eq!(d.status(), Status::Waiting);
}

#[test]
fn only_button_events_of_the_spy_count() {
    let mut d = start("rpc");
    idle_pass(&mut d, SEC);
    let mut other = buttons(0b1000);
    other[3] = 0x10;
    assert!(heard(&mut d, SEC, other).is_empty());
    idle_pass(&mut d, SEC);
    let mut stranger = buttons(0b1000);
    stranger[2] = 5;
    assert!(heard(&mut d, SEC, stranger).is_empty());
    assert_eq!(d.request(), Request::Turn);
}

#[test]
fn stopping_ends_the_hold_and_restores_the_mouse() {
    let mut d = start("key:F13");
    press(&mut d, SEC, Some("x.exe"));
    let stop = Event::Turn {
        now: SEC,
        running: false,
        pause: false,
    };
    assert_eq!(
        step(&mut d, Request::Turn, stop),
        vec!["log false restoring mouse...", "key 0x7c false", "restore"]
    );
    assert_eq!(d.request(), Request::Stop);
    assert!(d.step(Event::Quiet).is_empty());
}

#[test]
fn an_answer_to_another_request_changes_nothing() {
    let mut d = start("rpc");
    assert!(d.step(Event::Deaf).is_empty());
    assert!(d.step(Event::Time { now: 99 * SEC }).is_empty());
    assert_eq!(d.request(), Request::Turn);
}

#[test]
fn release_ends_a_hold_and_only_a_hold() {
    for (action, want) in [
        (Action::Key(0x41), vec!["key 0x41 false"]),
        (Action::Rpc, vec!["mute true"]),
        (Action::Nothing, vec![]),
    ] {
        let (mut held, mut active, mut effects) = (true, action, Vec::new());
        release(&mut held, &mut active, &mut effects);
        let words: Vec<String> = effects.iter().map(told).collect();
        assert_eq!(words, want);
        assert_eq!((held, active), (false, Action::Nothing));
        let mut again = Vec::new();
        release(&mut held, &mut active, &mut again);
        assert!(again.is_empty());
    }
}

#[test]
fn a_pass_comes_round_within_a_dozen_answers() {
    let mut d = start("rpc");
    let day = 24 * 60 * 60 * SEC;
    // Everything at once: a resume, a reload, a refresh, a check that finds
    // the mouse gone, and a press.
    turn(&mut d, SEC, true);
    mail(&mut d, SEC, None);
    time(&mut d, SEC);
    time(&mut d, SEC);
    step(&mut d, Request::Listen, Event::Quiet);
    let now = 7 * day;
    let mut asked = Vec::new();
    loop {
        let request = d.request();
        asked.push(request);
        let event = match request {
            Request::Turn => Event::Turn {
                now,
                running: true,
                pause: false,
            },
            Request::Mail => Event::Mail {
                now,
                reload: Some(config("none")),
            },
            Request::Time => Event::Time { now },
            Request::Apply => Event::Applied {
                now: 0,
                result: Err(Error::Timeout),
            },
            Request::Refresh => Event::Refreshed { now, tokens: None },
            Request::Probe => Event::Probed {
                result: Err(Error::Timeout),
            },
            Request::Connect => Event::Connected { device: None },
            Request::Listen => Event::Heard {
                now,
                frame: buttons(0b1000),
            },
            Request::Foreground => Event::Foreground { exe: None },
            Request::Stop => unreachable!(),
        };
        d.step(event);
        if d.request() == Request::Turn {
            break;
        }
    }
    assert_eq!(
        asked,
        vec![
            Request::Turn,
            Request::Apply,
            Request::Mail,
            Request::Apply,
            Request::Time,
            Request::Refresh,
            Request::Time,
            Request::Probe,
            Request::Apply,
            Request::Connect,
            Request::Listen,
            Request::Foreground,
        ]
    );
}

/// Whatever happens, keys that go down come up again and Discord is muted in
/// the end.
#[test]
fn nothing_is_left_behind_by_a_long_run() {
    let mut d = start("rpc");
    let mut seed: u64 = 12345;
    let mut now: u64 = SEC;
    let mut down: Vec<u16> = Vec::new();
    let mut talking = false;
    let mut paused = false;
    let carry_out = |effects: Vec<Effect>, down: &mut Vec<u16>, talking: &mut bool| {
        for effect in effects {
            match effect {
                Effect::Key { vk, down: true } => {
                    assert!(!down.contains(&vk));
                    down.push(vk);
                }
                Effect::Key { vk, down: false } => {
                    assert_eq!(down.pop(), Some(vk));
                }
                Effect::Mute(mute) => {
                    assert_eq!(*talking, mute);
                    *talking = !mute;
                }
                _ => {}
            }
        }
    };
    for _ in 0..20000 {
        seed = seed.wrapping_mul(6364136223846793005).wrapping_add(1442695040888963407);
        let r = (seed >> 33) as u16;
        now += u64::from(r) * 100_000;
        let outcome = || {
            if r % 3 == 0 {
                Err(Error::Timeout)
            } else {
                Ok(())
            }
        };
        let event = match d.request() {
            Request::Turn => {
                if r % 97 == 0 {
                    paused = !paused;
                }
                Event::Turn {
                    now,
                    running: true,
                    pause: paused,
                }
            }
            Request::Mail => Event::Mail {
                now,
                reload: if r % 31 == 0 {
                    Some(config(if r % 2 == 0 { "rpc" } else { "key:x" }))
                } else {
                    None
                },
            },
            Request::Time => Event::Time { now },
            Request::Apply => Event::Applied {
                now,
                result: outcome(),
            },
            Request::Probe => Event::Probed {
                result: outcome().map(|()| Probe {
                    mode: (r % 3) as u8,
                    mapping: vec![1, 2, 3, 0, 5],
                }),
            },
            Request::Connect => Event::Connected {
                device: outcome().ok().map(|()| DEVICE),
            },
            Request::Refresh => Event::Refreshed { now, tokens: None },
            Request::Listen => match r % 7 {
                0 => Event::Deaf,
                1 => Event::Quiet,
                2 => Event::Heard { now, frame: wake() },
                _ => Event::Heard {
                    now,
                    frame: buttons(r & 0b11000),
                },
            },
            Request::Foreground => Event::Foreground {
                exe: Some(if r % 2 == 0 { "game.exe" } else { "a.exe" }.to_string()),
            },
            Request::Stop => unreachable!(),
        };
        carry_out(d.step(event), &mut down, &mut talking);
        assert_eq!(
            d.status() == Status::Talking,
            d.status() != Status::Waiting && (talking || !down.is_empty())
        );
    }
    while d.request() != Request::Turn {
        let event = match d.request() {
            Request::Mail => Event::Mail { now, reload: None },
            Request::Time => Event::Time { now },
            Request::Apply => Event::Applied {
                now,
                result: Ok(()),
            },
            Request::Probe => Event::Probed {
                result: Err(Error::Timeout),
            },
            Request::Connect => Event::Connected { device: None },
            Request::Refresh => Event::Refreshed { now, tokens: None },
            Request::Foreground => Event::Foreground { exe: None },
            _ => Event::Quiet,
        };
        carry_out(d.step(event), &mut down, &mut talking);
    }
    let stop = Event::Turn {
        now,
        running: false,
        pause: false,
    };
    carry_out(d.step(stop), &mut down, &mut talking);
    assert_eq!(d.request(), Request::Stop);
    assert!(down.is_empty());
    assert!(!talking);
}
