use invisible_ptt::hidpp::Error;
use invisible_ptt::log::{stamp_line, Line, Sink};
use invisible_ptt::startup::{
    first_run_line, no_config, refreshed_line, starting_line, Next, Waiting,
};

#[test]
fn the_wait_is_reported_once_and_checked_twenty_times() {
    let mut lines: Vec<Line> = Vec::new();
    let mut waiting = Waiting::new();
    for _ in 0..3 {
        assert_eq!(waiting.next(), Next::Connect);
        waiting.failed(&Error::NoDevice, &mut lines);
        for _ in 0..20 {
            assert_eq!(waiting.next(), Next::Nap);
            assert!(waiting.rest(true));
        }
    }
    let texts: Vec<&str> = lines.iter().map(|l| l.text.as_str()).collect();
    assert_eq!(
        texts,
        vec![
            "could not set up the mouse: no Logitech HID++ interface found",
            "waiting for it; note that G HUB holds the HID++ channel open"
        ]
    );
    assert!(lines.iter().all(|l| l.error));
}

#[test]
fn leaving_ends_the_wait() {
    let mut lines: Vec<Line> = Vec::new();
    let mut waiting = Waiting::new();
    waiting.failed(&Error::Timeout, &mut lines);
    assert!(waiting.rest(true));
    assert!(!waiting.rest(false));
}

#[test]
fn what_is_said_at_the_start() {
    let line = |l: Line| (l.error, l.text);
    assert_eq!(
        line(starting_line("/x/config.toml")),
        (false, "--- invisible-ptt starting on /x/config.toml".to_string())
    );
    assert_eq!(
        line(first_run_line("/x/c")),
        (
            false,
            "first run: wrote a starter config to /x/c. It changes nothing until you edit it - Open settings file in the tray menu.".to_string()
        )
    );
    assert_eq!(no_config("/x/c", "denied"), "could not create /x/c: denied");
    assert_eq!(
        line(refreshed_line("/x/c", &Ok(()))),
        (false, "refreshed discord access token".to_string())
    );
    assert_eq!(
        line(refreshed_line("/x/c", &Err("denied".to_string()))),
        (
            true,
            "warning: refreshed token but could not save it to /x/c: denied".to_string()
        )
    );
}

#[test]
fn the_log_makes_way_at_a_mebibyte() {
    let mut sink = Sink::new((1 << 20) - 1);
    assert!(!sink.rotate());
    sink.write(1);
    assert!(sink.rotate());
    assert!(!sink.rotate());
    sink.write(u64::MAX);
    sink.write(u64::MAX);
    assert!(sink.rotate());
    // However many lines go in, it never grows past a mebibyte and a line.
    let mut sink = Sink::new(0);
    let mut size: u64 = 0;
    for _ in 0..30000 {
        if sink.rotate() {
            size = 0;
        }
        sink.write(100);
        size += 100;
        assert!(size <= (1 << 20) + 100);
    }
    assert_eq!(stamp_line("12:00", "hello"), "12:00 hello\n");
}
