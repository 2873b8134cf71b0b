use invisible_ptt::config::{Config, DiscordCfg};
use invisible_ptt::connect::{Connecting, Progress, Stage};
use invisible_ptt::device::{Command, Device, Probe};
use invisible_ptt::hidpp::{
    candidates, feature_index, feature_request, notification, Error, HidPp, Interface, MODE_HOST,
    MODE_ONBOARD,
};
use invisible_ptt::log::Line;
use invisible_ptt::run::Run;

fn probe(mode: u8, mapping: &[u8]) -> Probe {
    Probe {
        mode,
        mapping: mapping.to_vec(),
    }
}

fn config(button: u8, mapping: &[u8]) -> Config {
    Config {
        button,
        mapping: mapping.to_vec(),
        default_action: "none".to_string(),
        rules: Vec::new(),
        discord: DiscordCfg::default(),
    }
}

fn calls(commands: &[Command]) -> Vec<(u8, u8, Vec<u8>)> {
    commands
        .iter()
        .map(|c| (c.feature_idx, c.function, c.params.clone()))
        .collect()
}

#[test]
fn probe_matches_only_in_host_mode_with_the_configured_mapping() {
    let want = [1, 2, 3, 0, 5];
    assert!(probe(MODE_HOST, &want).matches(&want));
    // Host mode with the mapping forgotten: back navigates again.
    assert!(!probe(MODE_HOST, &[1, 2, 3, 4, 5]).matches(&want));
    // Mapping intact but onboard profiles back in charge, which silently
    // overrides it - the state that made SetMode mandatory in the first place.
    assert!(!probe(MODE_ONBOARD, &want).matches(&want));
}

#[test]
fn probe_notices_a_button_other_than_the_ptt_one() {
    // Divergence anywhere in the span counts: a mapping we did not write is
    // a mapping the mouse has reset, whichever byte gives it away.
    assert!(!probe(MODE_HOST, &[1, 2, 3, 0, 0]).matches(&[1, 2, 3, 0, 5]));
}

#[test]
fn a_probe_is_described_in_one_line() {
    assert_eq!(
        probe(2, &[1, 2, 3, 0, 16]).describe(),
        "mode=02 (host), mapping=[01 02 03 00 10]"
    );
    assert_eq!(probe(1, &[255]).describe(), "mode=01 (onboard), mapping=[ff]");
    assert_eq!(probe(0, &[]).describe(), "mode=00 (?), mapping=[]");
}

#[test]
fn only_the_configured_span_of_a_reply_counts() {
    let mut reply = [0xeeu8; 16];
    reply[..5].copy_from_slice(&[1, 2, 3, 0, 5]);
    let found = Probe::new(2, &reply, &config(3, &[1, 2, 3, 0, 5]));
    assert_eq!(found.mapping, vec![1, 2, 3, 0, 5]);
    assert!(found.matches(&[1, 2, 3, 0, 5]));
}

#[test]
fn applying_sets_host_mode_the_mapping_and_the_spy() {
    let dev = Device {
        spy_idx: 8,
        profiles_idx: 7,
        wireless_idx: None,
    };
    let cfg = config(3, &[1, 2, 3, 0, 5]);
    assert_eq!(
        calls(&dev.apply(&cfg)),
        vec![
            (7, 1, vec![2]),
            (8, 4, vec![1, 2, 3, 0, 5]),
            (8, 1, vec![])
        ]
    );
    assert_eq!(calls(&dev.probe()), vec![(7, 2, vec![]), (8, 3, vec![])]);
    assert_eq!(
        calls(&dev.restore(&cfg)),
        vec![
            (8, 4, vec![1, 2, 3, 4, 5]),
            (8, 2, vec![]),
            (7, 1, vec![1])
        ]
    );
}

/// A mouse, as far as the calls on it matter.
struct Mouse {
    mode: u8,
    mapping: [u8; 16],
    spying: bool,
}

impl Mouse {
    fn obey(&mut self, dev: &Device, commands: &[Command]) {
        for c in commands {
            if c.feature_idx == dev.profiles_idx && c.function == 1 {
                self.mode = c.params[0];
            } else if c.feature_idx == dev.spy_idx && c.function == 4 {
                self.mapping[..c.params.len()].copy_from_slice(&c.params);
            } else if c.feature_idx == dev.spy_idx && c.function == 1 {
                self.spying = true;
            } else if c.feature_idx == dev.spy_idx && c.function == 2 {
                self.spying = false;
            }
        }
    }
}

#[test]
fn an_applied_mouse_passes_a_probe_and_a_restored_one_hides_nothing() {
    let dev = Device {
        spy_idx: 8,
        profiles_idx: 7,
        wireless_idx: Some(3),
    };
    let cfg = config(3, &[1, 2, 3, 0, 5]);
    let mut mouse = Mouse {
        mode: MODE_ONBOARD,
        mapping: [9; 16],
        spying: false,
    };
    mouse.obey(&dev, &dev.apply(&cfg));
    assert!(mouse.spying);
    assert!(Probe::new(mouse.mode, &mouse.mapping, &cfg).matches(&cfg.mapping));
    let once = (mouse.mode, mouse.mapping, mouse.spying);
    mouse.obey(&dev, &dev.apply(&cfg));
    assert_eq!(once, (mouse.mode, mouse.mapping, mouse.spying));
    mouse.obey(&dev, &dev.restore(&cfg));
    assert_eq!(mouse.mode, MODE_ONBOARD);
    assert_eq!(mouse.mapping[..5], [1, 2, 3, 4, 5]);
    assert!(!mouse.spying);
}

#[test]
fn errors_are_said_in_words() {
    assert_eq!(
        Error::Hid("gone".to_string()).message(),
        "hid error: gone"
    );
    assert_eq!(
        Error::NoDevice.message(),
        "no Logitech HID++ interface found"
    );
    assert_eq!(Error::Timeout.message(), "device did not answer");
    assert_eq!(
        Error::Device(5).message(),
        "device returned HID++ error 0x05"
    );
    assert_eq!(
        Error::FeatureMissing(0x8100).message(),
        "device does not support feature 0x8100"
    );
    assert_eq!(
        Error::FeatureMissing(0x3).message(),
        "device does not support feature 0x0003"
    );
}

#[test]
fn a_call_is_a_long_report() {
    let pp = HidPp::new(0x01);
    let call = pp.call(8, 4, &[1, 2, 3, 0, 5]);
    assert_eq!(
        call.frame,
        [0x11, 0x01, 8, 0x4a, 1, 2, 3, 0, 5, 0, 0, 0, 0, 0, 0, 0, 0, 0, 0, 0]
    );
    assert_eq!(call.reads_left, 40);
    let mut ping = [0u8; 20];
    ping[..4].copy_from_slice(&[0x11, 0xff, 0, 0x1a]);
    assert_eq!(HidPp::new(0xff).ping().frame, ping);
}

fn report(bytes: &[u8]) -> [u8; 20] {
    let mut buf = [0u8; 20];
    buf[..bytes.len()].copy_from_slice(bytes);
    buf
}

#[test]
fn a_reply_ends_a_call_and_notifications_are_kept() {
    let mut pp = HidPp::new(0x01);
    let mut call = pp.call(7, 2, &[]);
    let first = report(&[0x11, 1, 8, 0x00, 0, 8]);
    let second = report(&[0x11, 1, 3, 0x00, 1]);
    assert!(pp.hear(&mut call, 20, first).is_none());
    assert!(pp.hear(&mut call, 0, report(&[])).is_none());
    assert!(pp.hear(&mut call, 20, second).is_none());
    // Somebody else's reply is neither.
    assert!(pp.hear(&mut call, 20, report(&[0x11, 1, 8, 0x2b])).is_none());
    match pp.hear(&mut call, 20, report(&[0x11, 1, 7, 0x2a, 2, 9])) {
        Some(Ok(params)) => assert_eq!(params[..3], [2, 9, 0]),
        other => panic!("{other:?}"),
    }
    assert_eq!(pp.next_event(), Some(first));
    assert_eq!(pp.next_event(), Some(second));
    assert_eq!(pp.next_event(), None);
}

#[test]
fn a_short_read_is_filled_up_with_zeroes() {
    let mut pp = HidPp::new(0x01);
    let mut call = pp.call(7, 2, &[]);
    let full = report(&[0x11, 1, 7, 0x2a, 1, 2, 3, 4, 5]);
    match pp.hear(&mut call, 7, full) {
        Some(Ok(params)) => {
            assert_eq!(params, [1, 2, 3, 0, 0, 0, 0, 0, 0, 0, 0, 0, 0, 0, 0, 0])
        }
        other => panic!("{other:?}"),
    }
}

#[test]
fn an_error_page_ends_a_call() {
    let mut pp = HidPp::new(0x01);
    let mut call = pp.call(7, 2, &[]);
    // Another command's error is not ours.
    assert!(pp.hear(&mut call, 7, report(&[0x10, 1, 0xff, 0x3a, 5])).is_none());
    match pp.hear(&mut call, 7, report(&[0x10, 1, 0xff, 0x2a, 5])) {
        Some(Err(Error::Device(5))) => {}
        other => panic!("{other:?}"),
    }
}

#[test]
fn a_device_gets_forty_reads_to_answer() {
    let mut pp = HidPp::new(0x01);
    let mut call = pp.call(7, 2, &[]);
    for _ in 0..39 {
        assert!(pp.hear(&mut call, 0, report(&[])).is_none());
    }
    assert!(matches!(
        pp.hear(&mut call, 0, report(&[])),
        Some(Err(Error::Timeout))
    ));
    assert!(matches!(
        pp.hear(&mut call, 20, report(&[0x11, 1, 7, 0x2a])),
        Some(Err(Error::Timeout))
    ));
}

#[test]
fn notifications_carry_no_software_id() {
    let event = report(&[0x11, 1, 8, 0x10]);
    assert_eq!(notification(20, event), Some(event));
    assert_eq!(notification(0, event), None);
    assert_eq!(notification(20, report(&[0x11, 1, 8, 0x1a])), None);
}

#[test]
fn features_are_asked_for_by_id_and_never_have_index_zero() {
    assert_eq!(feature_request(0x8110), vec![0x81, 0x10]);
    let mut reply = [0u8; 16];
    assert!(matches!(
        feature_index(0x8110, &reply),
        Err(Error::FeatureMissing(0x8110))
    ));
    reply[0] = 8;
    assert!(matches!(feature_index(0x8110, &reply), Ok(8)));
}

#[test]
fn long_vendor_collections_are_tried_first() {
    let face = |vendor_id, usage_page, usage| Interface {
        vendor_id,
        usage_page,
        usage,
    };
    let list = vec![
        face(0x046d, 0xff00, 0x01),
        face(0x046d, 0x0001, 0x02),
        face(0x1234, 0xff00, 0x02),
        face(0x046d, 0xff00, 0x02),
        face(0x046d, 0xff00, 0x04),
        face(0x046d, 0xff00, 0x02),
    ];
    let want = vec![
        (3, 0x01),
        (3, 0xff),
        (5, 0x01),
        (5, 0xff),
        (0, 0x01),
        (0, 0xff),
        (4, 0x01),
        (4, 0xff),
    ];
    assert_eq!(candidates(&list), want);
    let mut search = HidPp::open(&list);
    for candidate in want {
        assert!(matches!(search.next(), Ok(c) if c == candidate));
    }
    assert!(matches!(search.next(), Err(Error::NoDevice)));
    assert!(matches!(search.next(), Err(Error::NoDevice)));
}

fn answer(bytes: &[u8]) -> Result<[u8; 16], Error> {
    let mut params = [0u8; 16];
    params[..bytes.len()].copy_from_slice(bytes);
    Ok(params)
}

fn texts(lines: &[Line]) -> Vec<(bool, &str)> {
    lines.iter().map(|l| (l.error, l.text.as_str())).collect()
}

#[test]
fn a_mouse_is_set_up_step_by_step() {
    let cfg = config(3, &[1, 2, 3, 0, 5]);
    let mut lines: Vec<Line> = Vec::new();
    let mut connecting = Connecting::new();
    let steps = [
        ((0, 0, vec![0x81, 0x00]), vec![7]),
        ((0, 0, vec![0x81, 0x10]), vec![8]),
        ((0, 0, vec![0x1d, 0x4b]), vec![3]),
        ((7, 2, vec![]), vec![1]),
        ((8, 3, vec![]), vec![1, 2, 3, 4, 5, 99]),
        ((7, 1, vec![2]), vec![]),
        ((8, 4, vec![1, 2, 3, 0, 5]), vec![]),
        ((8, 1, vec![]), vec![]),
        ((7, 2, vec![]), vec![2]),
    ];
    for (call, reply) in steps {
        let command = connecting.command(&cfg).unwrap();
        assert_eq!((command.feature_idx, command.function, command.params), call);
        let progress = connecting.answer(answer(&reply), &cfg, &mut lines);
        assert!(matches!(progress, Progress::Going));
    }
    let command = connecting.command(&cfg).unwrap();
    assert_eq!((command.feature_idx, command.function), (8, 3));
    match connecting.answer(answer(&[1, 2, 3, 0, 5]), &cfg, &mut lines) {
        Progress::Ready(dev) => assert_eq!(
            dev,
            Device {
                spy_idx: 8,
                profiles_idx: 7,
                wireless_idx: Some(3)
            }
        ),
        other => panic!("{other:?}"),
    }
    assert_eq!(connecting.stage, Stage::Ready);
    assert!(connecting.command(&cfg).is_none());
    assert_eq!(
        texts(&lines),
        vec![
            (
                false,
                "onboard profiles = index 7, button spy = index 8, wake events = index 3"
            ),
            (false, "mouse was: mode=01 (onboard), mapping=[01 02 03 04 05]"),
            (false, "connected"),
            (false, "button 3 is invisible to the OS"),
        ]
    );
}

#[test]
fn a_mouse_without_its_features_is_refused_and_one_without_wake_events_is_not() {
    let cfg = config(0, &[0]);
    let mut lines: Vec<Line> = Vec::new();
    let mut connecting = Connecting::new();
    assert!(matches!(
        connecting.answer(answer(&[0]), &cfg, &mut lines),
        Progress::Failed(Error::FeatureMissing(0x8100))
    ));
    let mut connecting = Connecting::new();
    connecting.answer(answer(&[7]), &cfg, &mut lines);
    assert!(matches!(
        connecting.answer(answer(&[0]), &cfg, &mut lines),
        Progress::Failed(Error::FeatureMissing(0x8110))
    ));
    assert!(lines.is_empty());
    let mut connecting = Connecting::new();
    connecting.answer(answer(&[7]), &cfg, &mut lines);
    connecting.answer(answer(&[8]), &cfg, &mut lines);
    assert!(matches!(
        connecting.answer(Err(Error::Timeout), &cfg, &mut lines),
        Progress::Going
    ));
    assert_eq!(
        texts(&lines),
        vec![(
            false,
            "onboard profiles = index 7, button spy = index 8, wake events = unsupported (polling only)"
        )]
    );
}

#[test]
fn a_mouse_that_does_not_take_it_is_complained_about() {
    let cfg = config(0, &[0]);
    let mut lines: Vec<Line> = Vec::new();
    let mut connecting = Connecting::new();
    for reply in [
        answer(&[7]),
        answer(&[8]),
        answer(&[0]),
        Err(Error::Timeout),
        answer(&[]),
        answer(&[]),
        answer(&[]),
        answer(&[1]),
    ] {
        let progress = connecting.answer(reply, &cfg, &mut lines);
        assert!(matches!(progress, Progress::Going));
    }
    assert!(matches!(
        connecting.answer(answer(&[1]), &cfg, &mut lines),
        Progress::Ready(_)
    ));
    assert_eq!(
        texts(&lines)[1..],
        [
            (
                true,
                "warning: could not read the mouse state: device did not answer"
            ),
            (false, "connected"),
            (false, "button 0 is invisible to the OS"),
            (
                true,
                "warning: the mouse did not take it: mode=01 (onboard), mapping=[01]"
            ),
        ]
    );
    // A write that is refused is no connection.
    let mut connecting = Connecting::new();
    connecting.stage = Stage::SetMapping;
    assert!(matches!(
        connecting.answer(Err(Error::Device(9)), &cfg, &mut lines),
        Progress::Failed(Error::Device(9))
    ));
    // One that cannot be confirmed is.
    let mut connecting = Connecting::new();
    connecting.stage = Stage::ModeAfter;
    lines.clear();
    assert!(matches!(
        connecting.answer(Err(Error::Timeout), &cfg, &mut lines),
        Progress::Ready(_)
    ));
    assert_eq!(
        texts(&lines),
        vec![(
            true,
            "warning: could not confirm the mouse state: device did not answer"
        )]
    );
}

/// Makes the calls of a run, which come back as told, and says which were
/// made and what ended it.
fn made(mut run: Run, replies: Vec<Result<[u8; 16], Error>>) -> (Vec<u8>, Option<Error>, Run) {
    let mut functions = Vec::new();
    let mut end = None;
    for reply in replies {
        let Some(command) = run.next() else {
            break;
        };
        functions.push(command.function);
        if let Some(e) = run.answer(reply) {
            end = Some(e);
        }
    }
    (functions, end, run)
}

const MOUSE: Device = Device {
    spy_idx: 7,
    profiles_idx: 9,
    wireless_idx: None,
};

#[test]
fn the_first_failure_ends_applying_and_probing() {
    let cfg = config(3, &[1, 2, 3, 0, 5]);
    let (functions, end, run) = made(
        Run::apply(MOUSE, &cfg),
        vec![answer(&[]), answer(&[]), answer(&[])],
    );
    assert_eq!(functions, [1, 4, 1]);
    assert!(end.is_none() && run.next().is_none());

    let (functions, end, run) = made(
        Run::apply(MOUSE, &cfg),
        vec![answer(&[]), Err(Error::Device(5)), answer(&[])],
    );
    assert_eq!(functions, [1, 4]);
    assert!(matches!(end, Some(Error::Device(5))) && run.next().is_none());

    let (functions, end, run) = made(
        Run::probe(MOUSE),
        vec![Err(Error::Timeout), answer(&[])],
    );
    assert_eq!(functions, [2]);
    assert!(matches!(end, Some(Error::Timeout)));
    assert!(run.probed(&cfg).is_none());
}

#[test]
fn restoring_goes_on_after_a_failure() {
    let cfg = config(3, &[1, 2, 3, 0, 5]);
    let (functions, end, run) = made(
        Run::restore(MOUSE, &cfg),
        vec![Err(Error::Timeout), Err(Error::NoDevice), answer(&[])],
    );
    assert_eq!(functions, [4, 2, 1]);
    assert!(end.is_none() && run.next().is_none());
}

#[test]
fn a_probe_takes_the_mode_and_then_the_mapping() {
    let cfg = config(3, &[1, 2, 3, 0, 5]);
    let (functions, _, run) = made(
        Run::probe(MOUSE),
        vec![answer(&[2, 77]), answer(&[1, 2, 3, 0, 5, 99])],
    );
    assert_eq!(functions, [2, 3]);
    let probe = run.probed(&cfg).unwrap();
    assert_eq!((probe.mode, probe.mapping), (2, vec![1, 2, 3, 0, 5]));
}
