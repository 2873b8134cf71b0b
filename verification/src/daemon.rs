//! The input loop: everything the daemon decides from the moment the mouse is
//! set up until it is given back.
//!
//! The loop is a state machine. The program around it asks what is wanted
//! next ([`Daemon::request`]), does it, reports what came of it
//! ([`Daemon::step`]) and carries out the effects that this has, in order.
//! Time is nanoseconds on any clock that does not go backwards.

use vstd::prelude::*;
use vstd::string::*;

use crate::action::{compiled_view, parse_action, pick_action, picked, Action};
use crate::config::{
    compile_rules, credentials_changed, report_visibility, warn_about_config, Compiled, Config,
    ConfigView, DiscordCfg, DiscordView,
};
use crate::connect::prefixed;
use crate::device::{Device, Probe, ProbeView};
use crate::hidpp::{Error, ErrorView, Frame};
use crate::icon::Status;
use crate::log::{complained, lines_view, said, Line, LineView};

verus! {

/// How long the buttons have to have been quiet before anything is written to
/// the mouse.
pub const QUIET_NS: u64 = 500_000_000;

/// How often to check on a mouse that announces when it wakes.
pub const SLOW_POLL_NS: u64 = 30_000_000_000;

/// How often to check on one that does not.
pub const FAST_POLL_NS: u64 = 5_000_000_000;

/// How long a fresh access token is left alone: a day less than it lasts.
pub const REFRESH_WINDOW_NS: u64 = 518_400_000_000_000;

/// How long to wait after a refresh that failed.
pub const RETRY_WINDOW_NS: u64 = 3_600_000_000_000;

/// What the loop is in the middle of.
#[derive(Debug, Clone, Copy, PartialEq, Eq, Structural)]
pub enum Phase {
    /// The top of the loop.
    Top,
    /// Taking the mouse back after a pause.
    Resuming,
    /// Looking for reloaded settings.
    Inbox,
    /// Asserting reloaded settings.
    Reloading,
    /// Seeing whether the access token is due.
    Token,
    /// Refreshing it.
    Refreshing,
    /// Seeing whether the mouse is due for a check.
    Poll,
    /// Reading the mouse's state.
    Probing,
    /// Asserting that state again.
    Repairing,
    /// Looking for the mouse from scratch.
    Reconnecting,
    /// Listening for the button.
    Listening,
    /// Asserting the state of a mouse that has just woken.
    Waking,
    /// Finding out which application the press is for.
    Choosing,
    /// Over: the mouse has been given back.
    Done,
}

/// What the loop wants done next.
#[derive(Debug, Clone, Copy, PartialEq, Eq, Structural)]
pub enum Request {
    /// Say whether to go on, whether to be paused, and what time it is.
    Turn,
    /// Say whether settings have been reloaded, and what time it is.
    Mail,
    /// Say what time it is.
    Time,
    /// Assert the full state on the mouse.
    Apply,
    /// Read the mouse's state.
    Probe,
    /// Find the mouse and set it up anew.
    Connect,
    /// Trade the refresh token for new tokens.
    Refresh,
    /// Wait a moment for a notification.
    Listen,
    /// Name the executable in the foreground.
    Foreground,
    /// Nothing more: stop.
    Stop,
}

/// What became of a request.
#[derive(Debug)]
pub enum Event {
    Turn { now: u64, running: bool, pause: bool },
    Mail { now: u64, reload: Option<Config> },
    Time { now: u64 },
    Applied { now: u64, result: Result<(), Error> },
    Probed { result: Result<Probe, Error> },
    Connected { device: Option<Device> },
    Refreshed { now: u64, tokens: Option<(String, String)> },
    /// A notification arrived.
    Heard { now: u64, frame: Frame },
    /// None did.
    Quiet,
    /// The mouse cannot be read.
    Deaf,
    Foreground { exe: Option<String> },
}

pub enum EventView {
    Turn { now: u64, running: bool, pause: bool },
    Mail { now: u64, reload: Option<ConfigView> },
    Time { now: u64 },
    Applied { now: u64, result: Result<(), ErrorView> },
    Probed { result: Result<ProbeView, ErrorView> },
    Connected { device: Option<Device> },
    Refreshed { now: u64, tokens: Option<(Seq<char>, Seq<char>)> },
    Heard { now: u64, frame: Seq<u8> },
    Quiet,
    Deaf,
    Foreground { exe: Option<Seq<char>> },
}

impl View for Event {
    type V = EventView;

    open spec fn view(&self) -> EventView {
        match self {
            Event::Turn { now, running, pause } => EventView::Turn {
                now: *now,
                running: *running,
                pause: *pause,
            },
            Event::Mail { now, reload } => EventView::Mail {
                now: *now,
                reload: match reload {
                    Some(cfg) => Some(cfg@),
                    None => None,
                },
            },
            Event::Time { now } => EventView::Time { now: *now },
            Event::Applied { now, result } => EventView::Applied {
                now: *now,
                result: match result {
                    Ok(_) => Ok(()),
                    Err(e) => Err(e@),
                },
            },
            Event::Probed { result } => EventView::Probed {
                result: match result {
                    Ok(p) => Ok(p@),
                    Err(e) => Err(e@),
                },
            },
            Event::Connected { device } => EventView::Connected { device: *device },
            Event::Refreshed { now, tokens } => EventView::Refreshed {
                now: *now,
                tokens: match tokens {
                    Some(pair) => Some((pair.0@, pair.1@)),
                    None => None,
                },
            },
            Event::Heard { now, frame } => EventView::Heard { now: *now, frame: frame@ },
            Event::Quiet => EventView::Quiet,
            Event::Deaf => EventView::Deaf,
            Event::Foreground { exe } => EventView::Foreground {
                exe: match exe {
                    Some(name) => Some(name@),
                    None => None,
                },
            },
        }
    }
}

impl EventView {
    /// Settings are only ever reloaded once they have been found valid.
    pub open spec fn valid(self) -> bool {
        self matches EventView::Mail { reload: Some(cfg), .. } ==> cfg.valid()
    }
}

/// Something to be done, with no answer expected.
#[derive(Debug)]
pub enum Effect {
    /// Show this status in the tray.
    Show(Status),
    /// Press or release a synthesised key.
    Key { vk: u16, down: bool },
    /// Mute or unmute Discord.
    Mute(bool),
    /// Give the mouse back to its onboard profile.
    Restore,
    /// Connect to Discord anew, with these credentials.
    Reconfigure(DiscordCfg),
    /// Write rotated tokens into the settings file.
    Persist { access: String, refresh: String },
    /// Put a line in the log.
    Log(Line),
    /// Wait for 200 milliseconds.
    Rest,
}

pub enum EffectView {
    Show(Status),
    Key { vk: u16, down: bool },
    Mute(bool),
    Restore,
    Reconfigure(DiscordView),
    Persist { access: Seq<char>, refresh: Seq<char> },
    Log(LineView),
    Rest,
}

impl View for Effect {
    type V = EffectView;

    open spec fn view(&self) -> EffectView {
        match self {
            Effect::Show(status) => EffectView::Show(*status),
            Effect::Key { vk, down } => EffectView::Key { vk: *vk, down: *down },
            Effect::Mute(mute) => EffectView::Mute(*mute),
            Effect::Restore => EffectView::Restore,
            Effect::Reconfigure(cfg) => EffectView::Reconfigure(cfg@),
            Effect::Persist { access, refresh } => EffectView::Persist {
                access: access@,
                refresh: refresh@,
            },
            Effect::Log(line) => EffectView::Log(line@),
            Effect::Rest => EffectView::Rest,
        }
    }
}

/// What a list of effects says.
pub open spec fn effects_view(effects: Seq<Effect>) -> Seq<EffectView> {
    effects.map_values(|e: Effect| e@)
}

/// Lines for the log, as effects.
pub open spec fn logged(lines: Seq<LineView>) -> Seq<EffectView> {
    lines.map_values(|l: LineView| EffectView::Log(l))
}

/// How long ago `since` is, and nothing if it is yet to come.
pub open spec fn elapsed(now: u64, since: u64) -> int {
    if now >= since {
        now - since
    } else {
        0
    }
}

/// `now` and `wait` together, or as late as the clock goes.
pub open spec fn later(now: u64, wait: u64) -> u64 {
    if now + wait <= u64::MAX {
        (now + wait) as u64
    } else {
        u64::MAX
    }
}

/// What the loop knows.
#[verifier::ext_equal]
pub struct DaemonView {
    pub phase: Phase,
    pub cfg: ConfigView,
    /// Where the settings are, in words.
    pub path: Seq<char>,
    pub device: Device,
    /// Reloaded settings that wait for a safe moment.
    pub pending: Option<ConfigView>,
    /// Whether the mouse has been handed back, as opposed to whether the menu
    /// says it should be.
    pub paused: bool,
    /// Whether the button is down.
    pub held: bool,
    /// What its being down is doing.
    pub active: Action,
    /// Whether the mouse was there when it was last looked for.
    pub connected: bool,
    /// Whether something suggests that the mouse may have gone.
    pub check_now: bool,
    pub last_poll: u64,
    /// Every physical button that is down.
    pub buttons: u16,
    pub last_button: u64,
    pub next_refresh: u64,
}

impl DaemonView {
    /// Nothing held, and quiet for a moment. Re-sending the mapping glitches a
    /// held button into a momentary release, so every write waits for this.
    pub open spec fn quiet(self, now: u64) -> bool {
        self.buttons == 0 && elapsed(now, self.last_button) > QUIET_NS
    }

    /// What the icon says. A press that does nothing is not talking, and being
    /// paused outranks the rest.
    pub open spec fn status(self) -> Status {
        if self.paused {
            Status::Paused
        } else if !self.connected {
            Status::Waiting
        } else if self.held && self.active != Action::Nothing {
            Status::Talking
        } else {
            Status::Ready
        }
    }

    pub open spec fn at(self, phase: Phase) -> DaemonView {
        DaemonView { phase, ..self }
    }

    /// The button no longer held.
    pub open spec fn released(self) -> DaemonView {
        DaemonView { held: false, active: Action::Nothing, ..self }
    }

    /// How often the mouse is checked on.
    pub open spec fn poll_interval(self) -> u64 {
        if self.device.wireless_idx is Some {
            SLOW_POLL_NS
        } else {
            FAST_POLL_NS
        }
    }

    /// What ends the hold that is in progress, if there is one.
    pub open spec fn ending(self) -> Seq<EffectView> {
        if self.held {
            stop_effects(self.active)
        } else {
            Seq::empty()
        }
    }
}

/// What begins an action.
pub open spec fn start_effects(action: Action) -> Seq<EffectView> {
    match action {
        Action::Key(vk) => seq![EffectView::Key { vk, down: true }],
        Action::Rpc => seq![EffectView::Mute(false)],
        Action::Nothing => Seq::empty(),
    }
}

/// What ends an action.
pub open spec fn stop_effects(action: Action) -> Seq<EffectView> {
    match action {
        Action::Key(vk) => seq![EffectView::Key { vk, down: false }],
        Action::Rpc => seq![EffectView::Mute(true)],
        Action::Nothing => Seq::empty(),
    }
}

/// Where a step leads and what it has for effects.
pub struct Outcome {
    pub state: DaemonView,
    pub effects: Seq<EffectView>,
}

pub open spec fn outcome(state: DaemonView, effects: Seq<EffectView>) -> Outcome {
    Outcome { state, effects }
}

pub open spec fn note(text: Seq<char>) -> EffectView {
    EffectView::Log(said(text))
}

pub open spec fn alarm(text: Seq<char>) -> EffectView {
    EffectView::Log(complained(text))
}

impl DaemonView {
    /// The top of the loop: show the status, then pause or resume if that is
    /// asked for and the moment is quiet. Stopping ends the hold and gives the
    /// mouse back.
    pub open spec fn turned(self, now: u64, running: bool, pause: bool) -> Outcome {
        if !running {
            outcome(
                self.released().at(Phase::Done),
                seq![note("restoring mouse..."@)] + self.ending() + seq![EffectView::Restore],
            )
        } else if pause != self.paused && self.quiet(now) {
            let toggled = DaemonView { paused: pause, ..self };
            if pause {
                outcome(
                    toggled.released().at(Phase::Inbox),
                    seq![EffectView::Show(self.status())] + self.ending() + seq![
                        EffectView::Restore,
                        note("paused - the mouse is Windows' again until you resume"@),
                    ],
                )
            } else {
                outcome(toggled.at(Phase::Resuming), seq![EffectView::Show(self.status())])
            }
        } else {
            outcome(self.at(Phase::Inbox), seq![EffectView::Show(self.status())])
        }
    }

    /// The mouse taken back after a pause.
    pub open spec fn resumed(self, now: u64, result: Result<(), ErrorView>) -> Outcome {
        match result {
            Ok(_) => outcome(
                DaemonView { last_poll: now, ..self }.at(Phase::Inbox),
                seq![note("resumed"@), note(self.cfg.visibility())],
            ),
            Err(e) => outcome(
                self.at(Phase::Inbox),
                seq![alarm("resumed, but the mouse did not take it: "@ + e.message())],
            ),
        }
    }

    /// Reloaded settings taken in, and swapped for the current ones once the
    /// moment is quiet.
    pub open spec fn mailed(self, now: u64, reload: Option<ConfigView>) -> Outcome {
        let pending = match reload {
            Some(cfg) => Some(cfg),
            None => self.pending,
        };
        match pending {
            Some(new) if self.quiet(now) => self.reloaded(now, new),
            _ => outcome(DaemonView { pending, ..self }.at(Phase::Token), Seq::empty()),
        }
    }

    /// The settings swapped for `new`. The hold in progress belongs to the old
    /// ones and ends here. Discord is only connected to anew if its
    /// credentials changed, and nothing is written to a mouse that is paused.
    pub open spec fn reloaded(self, now: u64, new: ConfigView) -> Outcome {
        let changed = new.discord.differs_from(self.cfg.discord);
        let swapped = DaemonView {
            cfg: new,
            pending: None,
            next_refresh: if changed {
                now
            } else {
                self.next_refresh
            },
            ..self.released()
        };
        outcome(
            swapped.at(
                if self.paused {
                    Phase::Token
                } else {
                    Phase::Reloading
                },
            ),
            self.ending() + logged(new.warnings()) + (if changed {
                seq![EffectView::Reconfigure(new.discord)]
            } else {
                Seq::empty()
            }) + (if self.paused {
                seq![note("reloaded "@ + self.path + " (still paused)"@)]
            } else {
                Seq::empty()
            }),
        )
    }

    /// Reloaded settings asserted on the mouse.
    pub open spec fn reasserted(self, result: Result<(), ErrorView>) -> Outcome {
        outcome(
            self.at(Phase::Token),
            match result {
                Ok(_) => seq![note("reloaded "@ + self.path), note(self.cfg.visibility())],
                Err(e) => seq![alarm("reloaded, but the mouse did not take it: "@ + e.message())],
            },
        )
    }

    /// Whether the access token is due to be replaced.
    pub open spec fn token_due(self, now: u64) -> bool {
        self.cfg.discord.refresh_token.len() > 0 && now >= self.next_refresh
    }

    /// New tokens, or none: then another try in an hour.
    pub open spec fn refreshed(self, now: u64, tokens: Option<(Seq<char>, Seq<char>)>) -> Outcome {
        match tokens {
            Some((access, refresh)) => {
                let discord = DiscordView {
                    access_token: access,
                    refresh_token: refresh,
                    ..self.cfg.discord
                };
                outcome(
                    DaemonView {
                        cfg: ConfigView { discord, ..self.cfg },
                        next_refresh: later(now, REFRESH_WINDOW_NS),
                        ..self
                    }.at(Phase::Poll),
                    seq![
                        EffectView::Persist { access, refresh },
                        EffectView::Reconfigure(discord),
                        note("refreshed discord access token"@),
                    ],
                )
            },
            None => outcome(
                DaemonView { next_refresh: later(now, RETRY_WINDOW_NS), ..self }.at(Phase::Poll),
                Seq::empty(),
            ),
        }
    }

    /// Whether the mouse is due for a check. Never while paused, and never in
    /// the middle of a hold or a burst of clicks.
    pub open spec fn poll_due(self, now: u64) -> bool {
        &&& !self.paused
        &&& self.check_now || elapsed(now, self.last_poll) > self.poll_interval()
        &&& self.quiet(now)
    }

    /// A check begun: a read if the mouse is there, and straight to asserting
    /// the state if it was not.
    pub open spec fn polled(self, now: u64) -> Outcome {
        if self.poll_due(now) {
            outcome(
                DaemonView { last_poll: now, check_now: false, ..self }.at(
                    if self.connected {
                        Phase::Probing
                    } else {
                        Phase::Repairing
                    },
                ),
                Seq::empty(),
            )
        } else {
            outcome(self.at(Phase::Listening), Seq::empty())
        }
    }

    /// The mouse's state read. One that still holds everything is left alone.
    pub open spec fn probed(self, result: Result<ProbeView, ErrorView>) -> Outcome {
        match result {
            Ok(p) => if p.matches(self.cfg.mapping) {
                outcome(self.at(Phase::Listening), Seq::empty())
            } else {
                outcome(
                    self.at(Phase::Repairing),
                    seq![alarm("mouse forgot its configuration ("@ + p.describe() + ")"@)],
                )
            },
            Err(_) => outcome(self.at(Phase::Repairing), Seq::empty()),
        }
    }

    /// A check ended, with the mouse there or not. Only a change is worth a
    /// line.
    pub open spec fn checked(self, ok: bool) -> Outcome {
        outcome(
            DaemonView { connected: ok, ..self }.at(Phase::Listening),
            if ok && !self.connected {
                seq![alarm("mouse back"@)]
            } else if !ok && self.connected {
                seq![alarm("lost the mouse; waiting for it to come back..."@)]
            } else {
                Seq::empty()
            },
        )
    }

    /// Whether a notification says that the mouse has just reconnected.
    pub open spec fn is_wake(self, frame: Seq<u8>) -> bool {
        self.device.wireless_idx == Some(frame[2])
    }

    /// Whether a notification is the spy's, about the buttons.
    pub open spec fn is_button(self, frame: Seq<u8>) -> bool {
        frame[2] == self.device.spy_idx && frame[3] >> 4 == 0
    }

    /// A notification. A mouse that wakes while paused is in the state it
    /// should be in; otherwise it has dropped everything, any hold with it.
    pub open spec fn heard(self, now: u64, frame: Seq<u8>) -> Outcome {
        if self.is_wake(frame) {
            if self.paused {
                outcome(self.at(Phase::Top), Seq::empty())
            } else {
                outcome(
                    DaemonView { buttons: 0, ..self.released() }.at(Phase::Waking),
                    seq![alarm("wake event -> reasserting mouse state"@)] + self.ending(),
                )
            }
        } else if self.paused || !self.is_button(frame) {
            outcome(self.at(Phase::Top), Seq::empty())
        } else {
            self.buttons_changed(now, (frame[4] as int * 256 + frame[5]) as u16)
        }
    }

    /// The buttons that are down, as the spy reports them.
    pub open spec fn buttons_changed(self, now: u64, buttons: u16) -> Outcome {
        let down = buttons & self.cfg.bit() != 0;
        let seen = DaemonView { buttons, last_button: now, ..self };
        if down == self.held {
            outcome(seen.at(Phase::Top), Seq::empty())
        } else if down {
            outcome(DaemonView { held: true, ..seen }.at(Phase::Choosing), Seq::empty())
        } else {
            outcome(seen.released().at(Phase::Top), self.ending())
        }
    }

    /// The press given to the application in the foreground.
    pub open spec fn chosen(self, exe: Option<Seq<char>>) -> Outcome {
        let action = picked(
            exe,
            self.cfg.compiled(),
            crate::action::action_of(self.cfg.default_action),
        );
        outcome(DaemonView { active: action, ..self }.at(Phase::Top), start_effects(action))
    }

    /// The mouse cannot be read. Its release event is never coming, so the
    /// hold ends here, and the next check comes at once.
    pub open spec fn deafened(self) -> Outcome {
        outcome(
            DaemonView { buttons: 0, check_now: self.connected, ..self.released() }.at(Phase::Top),
            self.ending() + seq![EffectView::Rest],
        )
    }

    /// The whole loop, one step at a time. An event that answers no request
    /// of the phase changes nothing.
    pub open spec fn stepped(self, event: EventView) -> Outcome {
        match (self.phase, event) {
            (Phase::Top, EventView::Turn { now, running, pause }) => self.turned(
                now,
                running,
                pause,
            ),
            (Phase::Resuming, EventView::Applied { now, result }) => self.resumed(now, result),
            (Phase::Inbox, EventView::Mail { now, reload }) => self.mailed(now, reload),
            (Phase::Reloading, EventView::Applied { now, result }) => self.reasserted(result),
            (Phase::Token, EventView::Time { now }) => outcome(
                self.at(
                    if self.token_due(now) {
                        Phase::Refreshing
                    } else {
                        Phase::Poll
                    },
                ),
                Seq::empty(),
            ),
            (Phase::Refreshing, EventView::Refreshed { now, tokens }) => self.refreshed(
                now,
                tokens,
            ),
            (Phase::Poll, EventView::Time { now }) => self.polled(now),
            (Phase::Probing, EventView::Probed { result }) => self.probed(result),
            (Phase::Repairing, EventView::Applied { now, result }) => match result {
                Ok(_) => self.checked(true),
                Err(_) => outcome(self.at(Phase::Reconnecting), Seq::empty()),
            },
            (Phase::Reconnecting, EventView::Connected { device }) => match device {
                Some(device) => DaemonView { device, ..self }.checked(true),
                None => self.checked(false),
            },
            (Phase::Listening, EventView::Heard { now, frame }) => self.heard(now, frame),
            (Phase::Listening, EventView::Quiet) => outcome(self.at(Phase::Top), Seq::empty()),
            (Phase::Listening, EventView::Deaf) => self.deafened(),
            (Phase::Waking, EventView::Applied { now, result }) => outcome(
                DaemonView { connected: result is Ok, last_poll: now, ..self }.at(Phase::Top),
                Seq::empty(),
            ),
            (Phase::Choosing, EventView::Foreground { exe }) => self.chosen(exe),
            _ => outcome(self, Seq::empty()),
        }
    }

    /// What the loop wants done next.
    pub open spec fn request(self) -> Request {
        match self.phase {
            Phase::Top => Request::Turn,
            Phase::Inbox => Request::Mail,
            Phase::Token | Phase::Poll => Request::Time,
            Phase::Resuming | Phase::Reloading | Phase::Repairing | Phase::Waking => Request::Apply,
            Phase::Refreshing => Request::Refresh,
            Phase::Probing => Request::Probe,
            Phase::Reconnecting => Request::Connect,
            Phase::Listening => Request::Listen,
            Phase::Choosing => Request::Foreground,
            Phase::Done => Request::Stop,
        }
    }
}

/// Adds an effect.
fn emit(effects: &mut Vec<Effect>, effect: Effect)
    ensures
        effects_view(final(effects)@) == effects_view(old(effects)@).push(effect@),
{
    let ghost before = effects@;
    effects.push(effect);
    assert(effects_view(effects@) =~= effects_view(before).push(effect@));
}

/// Adds a line that reports no trouble.
fn remark(effects: &mut Vec<Effect>, text: String)
    ensures
        effects_view(final(effects)@) == effects_view(old(effects)@).push(note(text@)),
{
    emit(effects, Effect::Log(Line { error: false, text }));
}

/// Adds a line that reports trouble.
fn warn(effects: &mut Vec<Effect>, text: String)
    ensures
        effects_view(final(effects)@) == effects_view(old(effects)@).push(alarm(text@)),
{
    emit(effects, Effect::Log(Line { error: true, text }));
}

/// Adds lines for the log.
fn log_all(effects: &mut Vec<Effect>, lines: Vec<Line>)
    ensures
        effects_view(final(effects)@) == effects_view(old(effects)@) + logged(lines_view(lines@)),
{
    let ghost before = effects_view(effects@);
    let ghost all = lines_view(lines@);
    let mut i: usize = 0;
    assert(logged(all.take(0)) =~= Seq::empty());
    assert(before + Seq::<EffectView>::empty() =~= before);
    while i < lines.len()
        invariant
            i <= lines@.len(),
            all == lines_view(lines@),
            effects_view(effects@) == before + logged(all.take(i as int)),
        decreases lines@.len() - i,
    {
        let line = &lines[i];
        emit(effects, Effect::Log(Line { error: line.error, text: line.text.clone() }));
        assert(effects_view(effects@) =~= before + logged(all.take(i + 1)));
        i += 1;
    }
    assert(all.take(i as int) =~= all);
}

/// Ends the hold in progress, if there is one.
///
/// Every path out of a hold goes through here, including those on which the
/// mouse vanishes mid-press and the release event is never coming: a
/// synthesised key stays down until it is let go, and Discord keeps
/// transmitting.
pub fn release(held: &mut bool, active: &mut Action, effects: &mut Vec<Effect>)
    ensures
        effects_view(final(effects)@) == effects_view(old(effects)@) + (if *old(held) {
            stop_effects(*old(active))
        } else {
            Seq::empty()
        }),
        *final(held) == false,
        *final(active) == (if *old(held) {
            Action::Nothing
        } else {
            *old(active)
        }),
{
    let ghost before = effects_view(effects@);
    assert(before + Seq::<EffectView>::empty() =~= before);
    if !*held {
        return;
    }
    match *active {
        Action::Key(vk) => emit(effects, Effect::Key { vk, down: false }),
        Action::Rpc => emit(effects, Effect::Mute(true)),
        Action::Nothing => {},
    }
    assert(effects_view(effects@) =~= before + stop_effects(*old(active)));
    *held = false;
    *active = Action::Nothing;
}

/// The input loop.
pub struct Daemon {
    phase: Phase,
    cfg: Config,
    path: String,
    device: Device,
    /// What the settings come to.
    rules: Compiled,
    default_action: Action,
    bit: u16,
    pending: Option<Config>,
    paused: bool,
    held: bool,
    active: Action,
    connected: bool,
    check_now: bool,
    last_poll: u64,
    buttons: u16,
    last_button: u64,
    next_refresh: u64,
}

impl View for Daemon {
    type V = DaemonView;

    closed spec fn view(&self) -> DaemonView {
        DaemonView {
            phase: self.phase,
            cfg: self.cfg@,
            path: self.path@,
            device: self.device,
            pending: match self.pending {
                Some(cfg) => Some(cfg@),
                None => None,
            },
            paused: self.paused,
            held: self.held,
            active: self.active,
            connected: self.connected,
            check_now: self.check_now,
            last_poll: self.last_poll,
            buttons: self.buttons,
            last_button: self.last_button,
            next_refresh: self.next_refresh,
        }
    }
}

impl DaemonView {
    /// What holds of the loop at every step.
    pub open spec fn well_formed(self) -> bool {
        &&& self.cfg.valid()
        &&& self.pending matches Some(cfg) ==> cfg.valid()
        // Nothing is being done unless the button is down.
        &&& !self.held ==> self.active == Action::Nothing
        &&& self.held ==> self.buttons & self.cfg.bit() != 0
        // A press that has not found its application does nothing yet.
        &&& self.phase == Phase::Choosing ==> self.held && self.active == Action::Nothing
        // While paused the button is Windows', and so is the mouse.
        &&& self.paused ==> !self.held
        &&& self.paused ==> !self.touches_mouse()
    }

    /// Whether the loop is in the middle of something that only makes sense
    /// with a mouse in the daemon's hands.
    pub open spec fn touches_mouse(self) -> bool {
        match self.phase {
            Phase::Resuming
            | Phase::Reloading
            | Phase::Probing
            | Phase::Repairing
            | Phase::Reconnecting
            | Phase::Waking
            | Phase::Choosing => true,
            _ => false,
        }
    }

    /// The loop as it starts out, with the mouse just set up.
    pub open spec fn started(
        cfg: ConfigView,
        path: Seq<char>,
        device: Device,
        refreshed: bool,
        now: u64,
    ) -> DaemonView {
        DaemonView {
            phase: Phase::Top,
            cfg,
            path,
            device,
            pending: None,
            paused: false,
            held: false,
            active: Action::Nothing,
            connected: true,
            check_now: false,
            last_poll: now,
            buttons: 0,
            last_button: now,
            next_refresh: later(
                now,
                if refreshed {
                    REFRESH_WINDOW_NS
                } else {
                    RETRY_WINDOW_NS
                },
            ),
        }
    }
}

fn time_since(now: u64, since: u64) -> (r: u64)
    ensures
        r == elapsed(now, since),
{
    if now >= since {
        now - since
    } else {
        0
    }
}

fn time_after(now: u64, wait: u64) -> (r: u64)
    ensures
        r == later(now, wait),
{
    if now <= u64::MAX - wait {
        now + wait
    } else {
        u64::MAX
    }
}

impl Daemon {
    /// What the settings come to is kept in step with the settings.
    closed spec fn in_step(&self) -> bool {
        &&& compiled_view(self.rules@) == self.cfg@.compiled()
        &&& self.default_action == crate::action::action_of(self.cfg@.default_action)
        &&& self.bit == self.cfg@.bit()
    }

    /// What holds of the loop at every step.
    pub closed spec fn wf(&self) -> bool {
        self@.well_formed() && self.in_step()
    }

    /// The loop, with the mouse just set up. `refreshed` says whether the
    /// access token is fresh: one that could not be refreshed is tried again
    /// soon.
    pub fn new(cfg: Config, path: String, device: Device, refreshed: bool, now: u64) -> (r: Daemon)
        requires
            cfg@.valid(),
        ensures
            r.wf(),
            r@ == DaemonView::started(cfg@, path@, device, refreshed, now),
    {
        let rules = compile_rules(&cfg);
        let default_action = parse_action(cfg.default_action.as_str());
        let bit = cfg.bit();
        let next_refresh = time_after(
            now,
            if refreshed {
                REFRESH_WINDOW_NS
            } else {
                RETRY_WINDOW_NS
            },
        );
        Daemon {
            phase: Phase::Top,
            cfg,
            path,
            device,
            rules,
            default_action,
            bit,
            pending: None,
            paused: false,
            held: false,
            active: Action::Nothing,
            connected: true,
            check_now: false,
            last_poll: now,
            buttons: 0,
            last_button: now,
            next_refresh,
        }
    }

    /// What the loop wants done next.
    pub fn request(&self) -> (r: Request)
        ensures
            r == self@.request(),
    {
        match self.phase {
            Phase::Top => Request::Turn,
            Phase::Inbox => Request::Mail,
            Phase::Token | Phase::Poll => Request::Time,
            Phase::Resuming | Phase::Reloading | Phase::Repairing | Phase::Waking => Request::Apply,
            Phase::Refreshing => Request::Refresh,
            Phase::Probing => Request::Probe,
            Phase::Reconnecting => Request::Connect,
            Phase::Listening => Request::Listen,
            Phase::Choosing => Request::Foreground,
            Phase::Done => Request::Stop,
        }
    }

    /// The settings in force.
    pub fn config(&self) -> (r: &Config)
        ensures
            r@ == self@.cfg,
    {
        &self.cfg
    }

    /// The mouse.
    pub fn device(&self) -> (r: Device)
        ensures
            r == self@.device,
    {
        self.device
    }

    /// What the icon says.
    pub fn status(&self) -> (r: Status)
        ensures
            r == self@.status(),
    {
        if self.paused {
            Status::Paused
        } else if !self.connected {
            Status::Waiting
        } else if self.held && self.active != Action::Nothing {
            Status::Talking
        } else {
            Status::Ready
        }
    }

    fn is_quiet(&self, now: u64) -> (r: bool)
        ensures
            r == self@.quiet(now),
    {
        self.buttons == 0 && time_since(now, self.last_button) > QUIET_NS
    }

    /// Takes the answer to the request, and gives what is to be done about it.
    #[verifier::spinoff_prover]
    #[verifier::rlimit(40)]
    pub fn step(&mut self, event: Event) -> (r: Vec<Effect>)
        requires
            old(self).wf(),
            event@.valid(),
        ensures
            final(self).wf(),
            final(self)@ == old(self)@.stepped(event@).state,
            effects_view(r@) == old(self)@.stepped(event@).effects,
    {
        let mut effects: Vec<Effect> = Vec::new();
        assert(effects_view(effects@) =~= Seq::empty());
        match (self.phase, event) {
            (Phase::Top, Event::Turn { now, running, pause }) => self.on_turn(
                now,
                running,
                pause,
                &mut effects,
            ),
            (Phase::Resuming, Event::Applied { now, result }) => self.on_resumed(
                now,
                result,
                &mut effects,
            ),
            (Phase::Inbox, Event::Mail { now, reload }) => self.on_mail(now, reload, &mut effects),
            (Phase::Reloading, Event::Applied { now, result }) => self.on_reasserted(
                result,
                &mut effects,
            ),
            (Phase::Token, Event::Time { now }) => self.on_token_time(now),
            (Phase::Refreshing, Event::Refreshed { now, tokens }) => self.on_refreshed(
                now,
                tokens,
                &mut effects,
            ),
            (Phase::Poll, Event::Time { now }) => self.on_poll_time(now),
            (Phase::Probing, Event::Probed { result }) => self.on_probed(result, &mut effects),
            (Phase::Repairing, Event::Applied { now, result }) => match result {
                Ok(_) => self.on_checked(true, &mut effects),
                Err(_) => {
                    self.phase = Phase::Reconnecting;
                },
            },
            (Phase::Reconnecting, Event::Connected { device }) => match device {
                Some(device) => {
                    self.device = device;
                    self.on_checked(true, &mut effects)
                },
                None => self.on_checked(false, &mut effects),
            },
            (Phase::Listening, Event::Heard { now, frame }) => self.on_heard(
                now,
                &frame,
                &mut effects,
            ),
            (Phase::Listening, Event::Quiet) => {
                self.phase = Phase::Top;
            },
            (Phase::Listening, Event::Deaf) => self.on_deaf(&mut effects),
            (Phase::Waking, Event::Applied { now, result }) => {
                self.connected = result.is_ok();
                self.last_poll = now;
                self.phase = Phase::Top;
            },
            (Phase::Choosing, Event::Foreground { exe }) => self.on_foreground(exe, &mut effects),
            _ => {},
        }
        effects
    }
}

impl Daemon {
    fn on_turn(&mut self, now: u64, running: bool, pause: bool, effects: &mut Vec<Effect>)
        requires
            old(self).wf(),
            old(self)@.phase == Phase::Top,
            effects_view(old(effects)@) == Seq::<EffectView>::empty(),
        ensures
            final(self).wf(),
            final(self)@ == old(self)@.turned(now, running, pause).state,
            effects_view(final(effects)@) == old(self)@.turned(now, running, pause).effects,
    {
        let ghost goal = self@.turned(now, running, pause);
        if !running {
            remark(effects, "restoring mouse...".to_owned());
            release(&mut self.held, &mut self.active, effects);
            emit(effects, Effect::Restore);
            self.phase = Phase::Done;
        } else {
            emit(effects, Effect::Show(self.status()));
            self.phase = if pause != self.paused && self.is_quiet(now) {
                self.paused = pause;
                if pause {
                    // With the spy stopped, the release event of a button that
                    // is held right now is never coming.
                    release(&mut self.held, &mut self.active, effects);
                    emit(effects, Effect::Restore);
                    remark(
                        effects,
                        "paused - the mouse is Windows' again until you resume".to_owned(),
                    );
                    Phase::Inbox
                } else {
                    Phase::Resuming
                }
            } else {
                Phase::Inbox
            };
        }
        assert(effects_view(effects@) =~= goal.effects);
    }

    fn on_resumed(&mut self, now: u64, result: Result<(), Error>, effects: &mut Vec<Effect>)
        requires
            old(self).wf(),
            old(self)@.phase == Phase::Resuming,
            effects_view(old(effects)@) == Seq::<EffectView>::empty(),
        ensures
            final(self).wf(),
            ({
                let goal = old(self)@.resumed(
                    now,
                    match result {
                        Ok(_) => Ok(()),
                        Err(e) => Err(e@),
                    },
                );
                &&& final(self)@ == goal.state
                &&& effects_view(final(effects)@) == goal.effects
            }),
    {
        match result {
            Ok(_) => {
                remark(effects, "resumed".to_owned());
                remark(effects, report_visibility(&self.cfg));
                // Nothing for the check to find; give it a full interval.
                self.last_poll = now;
            },
            // The mouse is away. The check has not run since before the pause,
            // so it comes on this very pass.
            Err(e) => warn(effects, prefixed("resumed, but the mouse did not take it: ", &e)),
        }
        self.phase = Phase::Inbox;
    }

    fn on_mail(&mut self, now: u64, reload: Option<Config>, effects: &mut Vec<Effect>)
        requires
            old(self).wf(),
            old(self)@.phase == Phase::Inbox,
            reload matches Some(cfg) ==> cfg@.valid(),
            effects_view(old(effects)@) == Seq::<EffectView>::empty(),
        ensures
            final(self).wf(),
            ({
                let goal = old(self)@.mailed(
                    now,
                    match reload {
                        Some(cfg) => Some(cfg@),
                        None => None,
                    },
                );
                &&& final(self)@ == goal.state
                &&& effects_view(final(effects)@) == goal.effects
            }),
    {
        if reload.is_some() {
            self.pending = reload;
        }
        self.phase = Phase::Token;
        if self.is_quiet(now) {
            if let Some(new) = self.pending.take() {
                self.swap_settings(now, new, effects);
            }
        }
    }

    /// Puts `new` in the place of the current settings.
    fn swap_settings(&mut self, now: u64, new: Config, effects: &mut Vec<Effect>)
        requires
            old(self).wf(),
            old(self)@.phase == Phase::Token,
            old(self)@.pending is None,
            new@.valid(),
            effects_view(old(effects)@) == Seq::<EffectView>::empty(),
        ensures
            final(self).wf(),
            final(self)@ == old(self)@.reloaded(now, new@).state,
            effects_view(final(effects)@) == old(self)@.reloaded(now, new@).effects,
    {
        let ghost goal = self@.reloaded(now, new@);
        release(&mut self.held, &mut self.active, effects);
        let changed = credentials_changed(&new.discord, &self.cfg.discord);
        let mut warnings: Vec<Line> = Vec::new();
        warn_about_config(&new, &mut warnings);
        assert(lines_view(warnings@) =~= new@.warnings());
        log_all(effects, warnings);
        self.default_action = parse_action(new.default_action.as_str());
        self.rules = compile_rules(&new);
        self.bit = new.bit();
        self.cfg = new;
        if changed {
            emit(effects, Effect::Reconfigure(self.cfg.discord.duplicate()));
            // Whatever the old token's schedule was, it is not this one's.
            self.next_refresh = now;
        }
        if self.paused {
            // Nothing goes to the mouse while paused; resuming asserts it.
            let mut text = "reloaded ".to_owned();
            text.append(self.path.as_str());
            text.append(" (still paused)");
            remark(effects, text);
        } else {
            // Writing the new mapping is also the only way to give back a
            // button that the old one hid.
            self.phase = Phase::Reloading;
        }
        assert(effects_view(effects@) =~= goal.effects);
    }

    fn on_reasserted(&mut self, result: Result<(), Error>, effects: &mut Vec<Effect>)
        requires
            old(self).wf(),
            old(self)@.phase == Phase::Reloading,
            effects_view(old(effects)@) == Seq::<EffectView>::empty(),
        ensures
            final(self).wf(),
            ({
                let goal = old(self)@.reasserted(
                    match result {
                        Ok(_) => Ok(()),
                        Err(e) => Err(e@),
                    },
                );
                &&& final(self)@ == goal.state
                &&& effects_view(final(effects)@) == goal.effects
            }),
    {
        match result {
            Ok(_) => {
                let mut text = "reloaded ".to_owned();
                text.append(self.path.as_str());
                remark(effects, text);
                remark(effects, report_visibility(&self.cfg));
            },
            Err(e) => warn(effects, prefixed("reloaded, but the mouse did not take it: ", &e)),
        }
        self.phase = Phase::Token;
    }

    fn on_token_time(&mut self, now: u64)
        requires
            old(self).wf(),
            old(self)@.phase == Phase::Token,
        ensures
            final(self).wf(),
            final(self)@ == old(self)@.at(
                if old(self)@.token_due(now) {
                    Phase::Refreshing
                } else {
                    Phase::Poll
                },
            ),
    {
        self.phase = if !self.cfg.discord.refresh_token.as_str().is_empty() && now
            >= self.next_refresh {
            Phase::Refreshing
        } else {
            Phase::Poll
        };
    }

    fn on_refreshed(
        &mut self,
        now: u64,
        tokens: Option<(String, String)>,
        effects: &mut Vec<Effect>,
    )
        requires
            old(self).wf(),
            old(self)@.phase == Phase::Refreshing,
            effects_view(old(effects)@) == Seq::<EffectView>::empty(),
        ensures
            final(self).wf(),
            ({
                let goal = old(self)@.refreshed(
                    now,
                    match tokens {
                        Some(pair) => Some((pair.0@, pair.1@)),
                        None => None,
                    },
                );
                &&& final(self)@ == goal.state
                &&& effects_view(final(effects)@) == goal.effects
            }),
    {
        match tokens {
            Some((access, refresh)) => {
                self.cfg.discord.access_token = access.clone();
                self.cfg.discord.refresh_token = refresh.clone();
                emit(effects, Effect::Persist { access, refresh });
                emit(effects, Effect::Reconfigure(self.cfg.discord.duplicate()));
                remark(effects, "refreshed discord access token".to_owned());
                self.next_refresh = time_after(now, REFRESH_WINDOW_NS);
            },
            None => {
                self.next_refresh = time_after(now, RETRY_WINDOW_NS);
            },
        }
        self.phase = Phase::Poll;
    }

    fn on_poll_time(&mut self, now: u64)
        requires
            old(self).wf(),
            old(self)@.phase == Phase::Poll,
        ensures
            final(self).wf(),
            final(self)@ == old(self)@.polled(now).state,
    {
        // Slowly when the mouse announces that it wakes, quickly when flying
        // blind.
        let interval: u64 = if self.device.wireless_idx.is_some() {
            SLOW_POLL_NS
        } else {
            FAST_POLL_NS
        };
        let due = self.check_now || time_since(now, self.last_poll) > interval;
        if !self.paused && due && self.is_quiet(now) {
            self.last_poll = now;
            self.check_now = false;
            // Read before writing: in steady state the mouse still holds
            // everything, and then nothing is written at all.
            self.phase = if self.connected {
                Phase::Probing
            } else {
                Phase::Repairing
            };
        } else {
            self.phase = Phase::Listening;
        }
    }

    fn on_probed(&mut self, result: Result<Probe, Error>, effects: &mut Vec<Effect>)
        requires
            old(self).wf(),
            old(self)@.phase == Phase::Probing,
            effects_view(old(effects)@) == Seq::<EffectView>::empty(),
        ensures
            final(self).wf(),
            ({
                let goal = old(self)@.probed(
                    match result {
                        Ok(p) => Ok(p@),
                        Err(e) => Err(e@),
                    },
                );
                &&& final(self)@ == goal.state
                &&& effects_view(final(effects)@) == goal.effects
            }),
    {
        self.phase = Phase::Repairing;
        // Unreadable means unreachable, which is for repairing to handle.
        if let Ok(p) = result {
            if p.matches(self.cfg.mapping.as_slice()) {
                self.phase = Phase::Listening;
            } else {
                let mut text = "mouse forgot its configuration (".to_owned();
                text.append(p.describe().as_str());
                text.append(")");
                warn(effects, text);
            }
        }
    }

    fn on_checked(&mut self, ok: bool, effects: &mut Vec<Effect>)
        requires
            old(self).wf(),
            !old(self)@.paused,
            effects_view(old(effects)@) == Seq::<EffectView>::empty(),
        ensures
            final(self).wf(),
            final(self)@ == old(self)@.checked(ok).state,
            effects_view(final(effects)@) == old(self)@.checked(ok).effects,
    {
        if ok && !self.connected {
            warn(effects, "mouse back".to_owned());
        } else if !ok && self.connected {
            warn(effects, "lost the mouse; waiting for it to come back...".to_owned());
        }
        self.connected = ok;
        self.phase = Phase::Listening;
    }

    fn on_heard(&mut self, now: u64, frame: &Frame, effects: &mut Vec<Effect>)
        requires
            old(self).wf(),
            old(self)@.phase == Phase::Listening,
            effects_view(old(effects)@) == Seq::<EffectView>::empty(),
        ensures
            final(self).wf(),
            final(self)@ == old(self)@.heard(now, frame@).state,
            effects_view(final(effects)@) == old(self)@.heard(now, frame@).effects,
    {
        let ghost goal = self@.heard(now, frame@);
        self.phase = Phase::Top;
        let woke = match self.device.wireless_idx {
            Some(i) => i == frame[2],
            None => false,
        };
        if woke {
            if !self.paused {
                warn(effects, "wake event -> reasserting mouse state".to_owned());
                self.buttons = 0;
                release(&mut self.held, &mut self.active, effects);
                self.phase = Phase::Waking;
            }
        } else if !self.paused && frame[2] == self.device.spy_idx && (frame[3] >> 4) == 0 {
            let buttons: u16 = frame[4] as u16 * 256 + frame[5] as u16;
            self.buttons = buttons;
            self.last_button = now;
            let down = buttons & self.bit != 0;
            if down != self.held {
                if down {
                    self.held = true;
                    self.phase = Phase::Choosing;
                } else {
                    release(&mut self.held, &mut self.active, effects);
                }
            }
        }
        assert(effects_view(effects@) =~= goal.effects);
    }

    fn on_deaf(&mut self, effects: &mut Vec<Effect>)
        requires
            old(self).wf(),
            old(self)@.phase == Phase::Listening,
            effects_view(old(effects)@) == Seq::<EffectView>::empty(),
        ensures
            final(self).wf(),
            final(self)@ == old(self)@.deafened().state,
            effects_view(final(effects)@) == old(self)@.deafened().effects,
    {
        let ghost goal = self@.deafened();
        self.buttons = 0;
        release(&mut self.held, &mut self.active, effects);
        // A single failed read is not evidence enough by itself: it is the
        // check that decides, and it decides now.
        self.check_now = self.connected;
        emit(effects, Effect::Rest);
        self.phase = Phase::Top;
        assert(effects_view(effects@) =~= goal.effects);
    }

    fn on_foreground(&mut self, exe: Option<String>, effects: &mut Vec<Effect>)
        requires
            old(self).wf(),
            old(self)@.phase == Phase::Choosing,
            effects_view(old(effects)@) == Seq::<EffectView>::empty(),
        ensures
            final(self).wf(),
            ({
                let goal = old(self)@.chosen(
                    match exe {
                        Some(name) => Some(name@),
                        None => None,
                    },
                );
                &&& final(self)@ == goal.state
                &&& effects_view(final(effects)@) == goal.effects
            }),
    {
        self.active = pick_action(&exe, self.rules.as_slice(), self.default_action);
        match self.active {
            Action::Key(vk) => emit(effects, Effect::Key { vk, down: true }),
            Action::Rpc => emit(effects, Effect::Mute(false)),
            Action::Nothing => {},
        }
        self.phase = Phase::Top;
        assert(effects_view(effects@) =~= start_effects(self.active));
    }
}

} // verus!
