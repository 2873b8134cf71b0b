//! What the input loop does about each thing that can happen, said of the
//! things themselves: the bytes of a report, the time on the clock, the
//! settings and the answers of the mouse.

use vstd::arithmetic::power2::pow2;
use vstd::prelude::*;

use crate::action::{action_of, law_the_first_rule_wins, Action};
use crate::config::{Config, ConfigView, DiscordView};
use crate::daemon::{
    effects_view, release, Daemon, DaemonView, Effect, EffectView, Event, EventView, Phase, Request,
};
use crate::device::{Device, ProbeView};
use crate::hidpp::ErrorView;
use crate::icon::Status;
use crate::log::complained;
use crate::promises::{law_effects_follow_the_hold, World};
use crate::text::lower;

verus! {

/// The number that a report of the spy gives, the high byte first.
pub open spec fn reported(frame: Seq<u8>) -> int {
    frame[4] * 256 + frame[5]
}

/// Whether button `n` is among those that a number has down, the first button
/// being the lowest bit.
pub open spec fn has_down(buttons: int, n: int) -> bool {
    buttons / (pow2(n as nat) as int) % 2 == 1
}

/// Whether no button is down and none has been for half a second.
pub open spec fn is_calm(state: DaemonView, now: u64) -> bool {
    state.buttons == 0 && now - state.last_button > 500_000_000
}

proof fn lemma_bit(buttons: u16, n: u8)
    requires
        n < 16,
    ensures
        (buttons & (1u16 << n) != 0) == has_down(buttons as int, n as int),
{
    let m = n as u16;
    vstd::bits::lemma_u16_shr_is_div(buttons, m);
    assert(n < 16 && m == n as u16 ==> ((buttons & (1u16 << n) != 0) == ((buttons >> m) % 2 == 1)))
        by (bit_vector);
}

/// Hearing the button go down begins a hold and hearing it come up ends one,
/// whatever other buttons are down: a report of the spy on the buttons is the
/// number in its fifth and sixth byte, and the loop holds exactly while the
/// bit of its own button is set in that number.
pub proof fn law_the_button_is_read_off_the_report(state: DaemonView, now: u64, frame: Seq<u8>)
    requires
        state.well_formed(),
        state.phase == Phase::Listening,
        !state.paused,
        frame.len() == 20,
        frame[2] == state.device.spy_idx,
        frame[3] < 16,
        state.device.wireless_idx != Some(frame[2]),
    ensures
        ({
            let end = state.stepped(EventView::Heard { now, frame });
            let down = has_down(reported(frame), state.cfg.button as int);
            &&& end.state.buttons == reported(frame)
            &&& end.state.last_button == now
            &&& end.state.held == down
            // A press asks which application it is for before it does anything.
            &&& down && !state.held ==> end.state.request() == Request::Foreground
                && end.effects.len() == 0
            // A release undoes what the press did.
            &&& !down ==> World::of(state).after_all(end.effects) == World::idle()
            // Anything else is none of the loop's business.
            &&& down == state.held ==> end.effects.len() == 0 && end.state.active == state.active
            &&& !(down && !state.held) ==> end.state.request() == Request::Turn
        }),
{
    let mask = reported(frame) as u16;
    let byte = frame[3];
    assert(byte < 16 ==> byte >> 4 == 0) by (bit_vector);
    lemma_bit(mask, state.cfg.button);
    law_effects_follow_the_hold(state, EventView::Heard { now, frame });
}

/// Two reports that agree on the button have the same outcome for the hold,
/// however they differ in the other buttons.
pub proof fn law_other_buttons_make_no_difference(
    state: DaemonView,
    now: u64,
    one: Seq<u8>,
    other: Seq<u8>,
)
    requires
        state.well_formed(),
        state.phase == Phase::Listening,
        one.len() == 20,
        other.len() == 20,
        one[2] == other[2],
        one[3] == other[3],
        has_down(reported(one), state.cfg.button as int) == has_down(
            reported(other),
            state.cfg.button as int,
        ),
    ensures
        ({
            let a = state.stepped(EventView::Heard { now, frame: one });
            let b = state.stepped(EventView::Heard { now, frame: other });
            &&& a.effects == b.effects
            &&& a.state.held == b.state.held
            &&& a.state.active == b.state.active
            &&& a.state.request() == b.state.request()
        }),
{
    lemma_bit(reported(one) as u16, state.cfg.button);
    lemma_bit(reported(other) as u16, state.cfg.button);
}

/// A report that is not the spy's, or not on the buttons, is passed over, and
/// so is every report while paused.
pub proof fn law_other_reports_are_passed_over(state: DaemonView, now: u64, frame: Seq<u8>)
    requires
        state.phase == Phase::Listening,
        frame.len() == 20,
        state.paused || (state.device.wireless_idx != Some(frame[2]) && (frame[2]
            != state.device.spy_idx || frame[3] >= 16)),
    ensures
        ({
            let end = state.stepped(EventView::Heard { now, frame });
            &&& end.effects.len() == 0
            &&& end.state == (DaemonView { phase: Phase::Top, ..state })
        }),
{
    let byte = frame[3];
    assert(byte >= 16 ==> byte >> 4 != 0) by (bit_vector);
}

/// A mouse that says it has just woken has forgotten everything, the hold
/// with it: whatever that did is undone, nothing counts as down, and the full
/// state is asserted again.
pub proof fn law_a_mouse_that_woke_is_told_again(state: DaemonView, now: u64, frame: Seq<u8>)
    requires
        state.well_formed(),
        state.phase == Phase::Listening,
        !state.paused,
        state.device.wireless_idx == Some(frame[2]),
    ensures
        ({
            let end = state.stepped(EventView::Heard { now, frame });
            &&& end.state.request() == Request::Apply
            &&& end.state.buttons == 0 && !end.state.held && end.state.active == Action::Nothing
            &&& World::of(state).after_all(end.effects) == World::idle()
        }),
{
    law_effects_follow_the_hold(state, EventView::Heard { now, frame });
}

/// And whether it took that decides whether it counts as being there.
pub proof fn law_waking_ends_with_an_answer(
    state: DaemonView,
    now: u64,
    result: Result<(), ErrorView>,
)
    requires
        state.phase == Phase::Waking,
    ensures
        ({
            let end = state.stepped(EventView::Applied { now, result });
            &&& end.state.connected == (result is Ok)
            &&& end.state.last_poll == now
            &&& end.state.request() == Request::Turn
            &&& end.effects.len() == 0
        }),
{
}

/// A mouse that can no longer be read will not report the release of a button:
/// the hold ends, nothing counts as down, and the mouse is looked for at once
/// unless it is known to be away.
pub proof fn law_a_mouse_that_is_gone_ends_the_hold(state: DaemonView)
    requires
        state.well_formed(),
        state.phase == Phase::Listening,
    ensures
        ({
            let end = state.stepped(EventView::Deaf);
            &&& !end.state.held && end.state.active == Action::Nothing && end.state.buttons == 0
            &&& World::of(state).after_all(end.effects) == World::idle()
            &&& end.state.check_now == state.connected
            &&& end.state.request() == Request::Turn
            &&& end.effects.len() > 0 && end.effects.last() == EffectView::Rest
        }),
{
    law_effects_follow_the_hold(state, EventView::Deaf);
}

/// What an action does at the start of a hold: a key goes down, Discord is no
/// longer muted, or nothing happens.
pub open spec fn begins(effects: Seq<EffectView>, action: Action) -> bool {
    match action {
        Action::Key(vk) => effects.len() == 1 && effects[0] == (EffectView::Key { vk, down: true }),
        Action::Rpc => effects.len() == 1 && effects[0] == EffectView::Mute(false),
        Action::Nothing => effects.len() == 0,
    }
}

/// What it does at the end of one.
pub open spec fn ends(effects: Seq<EffectView>, action: Action) -> bool {
    match action {
        Action::Key(vk) => effects.len() == 1 && effects[0] == (EffectView::Key {
            vk,
            down: false,
        }),
        Action::Rpc => effects.len() == 1 && effects[0] == EffectView::Mute(true),
        Action::Nothing => effects.len() == 0,
    }
}

/// A press does what the first rule says that names the application in the
/// foreground, in capitals or small letters, even if that is to do nothing.
/// The default is for applications that no rule names.
pub proof fn law_a_press_does_what_the_rule_says(state: DaemonView, exe: Seq<char>, i: int)
    requires
        state.phase == Phase::Choosing,
        0 <= i <= state.cfg.rules.len(),
        forall|j: int| 0 <= j < i ==> lower((#[trigger] state.cfg.rules[j]).process) != lower(exe),
        i < state.cfg.rules.len() ==> lower(state.cfg.rules[i].process) == lower(exe),
    ensures
        ({
            let end = state.stepped(EventView::Foreground { exe: Some(exe) });
            let spelt = if i < state.cfg.rules.len() {
                state.cfg.rules[i].action
            } else {
                state.cfg.default_action
            };
            &&& end.state.active == action_of(spelt)
            &&& begins(end.effects, action_of(spelt))
            &&& end.state.held == state.held
            &&& end.state.request() == Request::Turn
        }),
{
    let rules = state.cfg.compiled();
    assert forall|j: int| 0 <= j < i implies (#[trigger] rules[j]).0 != lower(exe) by {
        assert(rules[j].0 == lower(state.cfg.rules[j].process));
    }
    law_the_first_rule_wins(lower(exe), rules, action_of(state.cfg.default_action), i);
}

/// With nothing known of the foreground, a press does what the default says.
pub proof fn law_an_unknown_application_gets_the_default(state: DaemonView)
    requires
        state.phase == Phase::Choosing,
    ensures
        ({
            let end = state.stepped(EventView::Foreground { exe: None });
            &&& end.state.active == action_of(state.cfg.default_action)
            &&& begins(end.effects, action_of(state.cfg.default_action))
            &&& end.state.held == state.held
            &&& end.state.request() == Request::Turn
        }),
{
}

/// The release of the button ends the action that its press began, and not
/// whatever the settings or the foreground would call for by then.
pub proof fn law_a_release_ends_what_the_press_began(state: DaemonView, now: u64, frame: Seq<u8>)
    requires
        state.well_formed(),
        state.phase == Phase::Listening,
        state.held,
        frame.len() == 20,
        frame[2] == state.device.spy_idx,
        frame[3] < 16,
        state.device.wireless_idx != Some(frame[2]),
        !has_down(reported(frame), state.cfg.button as int),
    ensures
        ends(state.stepped(EventView::Heard { now, frame }).effects, state.active),
{
    let byte = frame[3];
    assert(byte < 16 ==> byte >> 4 == 0) by (bit_vector);
    lemma_bit(reported(frame) as u16, state.cfg.button);
}

/// A mouse is left alone only if it is in host mode with the mapping of the
/// settings. One that is not, or that cannot be asked, is told everything
/// again.
pub proof fn law_a_mouse_that_forgot_is_told_again(
    state: DaemonView,
    result: Result<ProbeView, ErrorView>,
)
    requires
        state.phase == Phase::Probing,
    ensures
        ({
            let end = state.stepped(EventView::Probed { result });
            let in_order = result matches Ok(probe) && probe.mode == 2 && probe.mapping
                == state.cfg.mapping;
            &&& end.state.request() == (if in_order {
                Request::Listen
            } else {
                Request::Apply
            })
            &&& end.state == (DaemonView { phase: end.state.phase, ..state })
            // It is worth a line only if the mouse could be asked.
            &&& end.effects.len() == (if result is Ok && !in_order {
                1nat
            } else {
                0nat
            })
            &&& end.effects.len() == 1 ==> end.effects[0] == EffectView::Log(
                complained(
                    "mouse forgot its configuration ("@ + result->Ok_0.describe() + ")"@,
                ),
            )
        }),
{
}

/// A mouse that does not take what it is told is looked for from scratch, and
/// the check ends with it there or not. Only a change is worth a line.
pub proof fn law_a_check_finds_the_mouse_or_misses_it(
    state: DaemonView,
    now: u64,
    result: Result<(), ErrorView>,
    device: Option<Device>,
)
    ensures
        state.phase == Phase::Repairing ==> {
            let end = state.stepped(EventView::Applied { now, result });
            &&& result is Ok ==> end.state == (DaemonView {
                phase: Phase::Listening,
                connected: true,
                ..state
            })
            &&& result is Err ==> end.state.request() == Request::Connect && end.effects.len() == 0
            &&& result is Ok ==> end.effects.len() == (if state.connected {
                0nat
            } else {
                1nat
            })
            &&& result is Ok && !state.connected ==> end.effects[0] == EffectView::Log(
                complained("mouse back"@),
            )
        },
        state.phase == Phase::Reconnecting ==> {
            let end = state.stepped(EventView::Connected { device });
            &&& end.state == (DaemonView {
                phase: Phase::Listening,
                connected: device is Some,
                device: match device {
                    Some(d) => d,
                    None => state.device,
                },
                ..state
            })
            &&& end.effects.len() == (if state.connected == (device is Some) {
                0nat
            } else {
                1nat
            })
            &&& state.connected && device is None ==> end.effects[0] == EffectView::Log(
                complained("lost the mouse; waiting for it to come back..."@),
            )
            &&& !state.connected && device is Some ==> end.effects[0] == EffectView::Log(
                complained("mouse back"@),
            )
        },
{
}

/// When the mouse is checked on: with the daemon not paused, no button down
/// for half a second, and either a reason to or enough time gone by, which is
/// half a minute for a mouse that announces when it wakes and five seconds for
/// one that does not. A mouse that is there is asked; one that is not is told.
pub proof fn law_when_the_mouse_is_checked(state: DaemonView, now: u64)
    requires
        state.phase == Phase::Poll,
    ensures
        ({
            let end = state.stepped(EventView::Time { now });
            let pause_between: int = if state.device.wireless_idx is Some {
                30_000_000_000
            } else {
                5_000_000_000
            };
            let due = !state.paused && is_calm(state, now) && (state.check_now || now
                - state.last_poll > pause_between);
            &&& end.state.request() == (if !due {
                Request::Listen
            } else if state.connected {
                Request::Probe
            } else {
                Request::Apply
            })
            &&& due ==> end.state.last_poll == now && !end.state.check_now
            &&& !due ==> end.state == (DaemonView { phase: end.state.phase, ..state })
            &&& end.effects.len() == 0
        }),
{
}

/// When the refresh token is traded: when there is one and its time has come.
pub proof fn law_when_the_token_is_traded(state: DaemonView, now: u64)
    requires
        state.phase == Phase::Token,
    ensures
        ({
            let end = state.stepped(EventView::Time { now });
            &&& end.state.request() == (if state.cfg.discord.refresh_token.len() > 0 && now
                >= state.next_refresh {
                Request::Refresh
            } else {
                Request::Time
            })
            &&& end.state == (DaemonView { phase: end.state.phase, ..state })
            &&& end.effects.len() == 0
        }),
{
}

/// What a trade comes to: new tokens are saved, put into the settings in
/// force and used for a new connection, each in its own place and nothing else
/// with them, and are left alone for six days. Without any, everything stays
/// as it is for an hour.
pub proof fn law_traded_tokens_take_the_place_of_the_old(
    state: DaemonView,
    now: u64,
    access: Seq<char>,
    refresh: Seq<char>,
)
    requires
        state.phase == Phase::Refreshing,
    ensures
        ({
            let end = state.stepped(
                EventView::Refreshed { now, tokens: Some((access, refresh)) },
            );
            let used = end.state.cfg.discord;
            &&& used.access_token == access && used.refresh_token == refresh
            &&& used.client_id == state.cfg.discord.client_id
            &&& used.client_secret == state.cfg.discord.client_secret
            &&& end.state.cfg == (ConfigView { discord: used, ..state.cfg })
            &&& end.effects.len() >= 2
            &&& end.effects[0] == (EffectView::Persist { access, refresh })
            &&& end.effects[1] == EffectView::Reconfigure(used)
            &&& forall|i: int| 2 <= i < end.effects.len() ==> (#[trigger] end.effects[i]) is Log
            &&& now + 518_400_000_000_000 <= u64::MAX ==> end.state.next_refresh == now
                + 518_400_000_000_000
            &&& now + 518_400_000_000_000 > u64::MAX ==> end.state.next_refresh == u64::MAX
            &&& end.state.held == state.held && end.state.active == state.active
            &&& end.state.request() == Request::Time
        }),
        ({
            let end = state.stepped(EventView::Refreshed { now, tokens: None });
            &&& end.effects.len() == 0
            &&& end.state == (DaemonView {
                phase: end.state.phase,
                next_refresh: end.state.next_refresh,
                ..state
            })
            &&& now + 3_600_000_000_000 <= u64::MAX ==> end.state.next_refresh == now
                + 3_600_000_000_000
            &&& end.state.request() == Request::Time
        }),
{
}

/// The top of the loop. Being told to stop ends the hold and gives the mouse
/// back, last of all. Pausing ends the hold and gives the mouse back, and
/// going on takes it back, both as soon as no button has been down for half a
/// second and not before. Otherwise nothing changes but what the icon shows.
pub proof fn law_stopping_pausing_and_going_on(
    state: DaemonView,
    now: u64,
    running: bool,
    pause: bool,
)
    requires
        state.well_formed(),
        state.phase == Phase::Top,
    ensures
        ({
            let end = state.stepped(EventView::Turn { now, running, pause });
            let changes = running && pause != state.paused && is_calm(state, now);
            &&& !running ==> {
                &&& end.state.request() == Request::Stop
                &&& !end.state.held
                &&& World::of(state).after_all(end.effects) == World::idle()
                &&& end.effects.len() > 0 && end.effects.last() == EffectView::Restore
            }
            &&& running ==> end.effects.len() > 0 && end.effects[0] == EffectView::Show(
                state.status(),
            )
            &&& running ==> end.state.paused == (if changes {
                pause
            } else {
                state.paused
            })
            &&& changes && pause ==> {
                &&& end.state.request() == Request::Mail
                &&& !end.state.held
                &&& exists|i: int|
                    0 <= i < end.effects.len() && #[trigger] end.effects[i] == EffectView::Restore
            }
            &&& changes && !pause ==> end.state.request() == Request::Apply && end.effects.len()
                == 1
            &&& running && !changes ==> end.state.request() == Request::Mail && end.effects.len()
                == 1 && end.state == (DaemonView { phase: end.state.phase, ..state })
        }),
{
    let event = EventView::Turn { now, running, pause };
    let end = state.stepped(event);
    law_effects_follow_the_hold(state, event);
    if running && pause && !state.paused && is_calm(state, now) {
        assert(end.effects[1 + state.ending().len() as int] == EffectView::Restore);
    }
}

/// Going on counts as a check if the mouse took it. Either way the loop goes
/// on, no longer paused.
pub proof fn law_going_on_counts_as_a_check(
    state: DaemonView,
    now: u64,
    result: Result<(), ErrorView>,
)
    requires
        state.phase == Phase::Resuming,
    ensures
        ({
            let end = state.stepped(EventView::Applied { now, result });
            &&& end.state == (DaemonView {
                phase: end.state.phase,
                last_poll: if result is Ok {
                    now
                } else {
                    state.last_poll
                },
                ..state
            })
            &&& end.state.request() == Request::Mail
            &&& forall|i: int| 0 <= i < end.effects.len() ==> (#[trigger] end.effects[i]) is Log
        }),
{
}

/// Whether Discord has to be connected to anew: if the id or one of the tokens
/// is another.
pub open spec fn other_credentials(new: DiscordView, old: DiscordView) -> bool {
    ||| new.client_id != old.client_id
    ||| new.access_token != old.access_token
    ||| new.refresh_token != old.refresh_token
}

/// Settings that were reloaded are put in force as soon as no button has been
/// down for half a second, the newest of them, and are kept until then. They
/// are asserted on a mouse that is not paused. Discord is connected to anew,
/// with the new credentials, if those are others, and then their token is due
/// at once.
pub proof fn law_reloaded_settings_are_put_in_force(
    state: DaemonView,
    now: u64,
    reload: Option<ConfigView>,
)
    requires
        state.well_formed(),
        state.phase == Phase::Inbox,
        reload matches Some(cfg) ==> cfg.valid(),
    ensures
        ({
            let end = state.stepped(EventView::Mail { now, reload });
            let newest = if reload is Some {
                reload
            } else {
                state.pending
            };
            let other = newest is Some && other_credentials(
                newest->0.discord,
                state.cfg.discord,
            );
            if newest is Some && is_calm(state, now) {
                &&& end.state.cfg == newest->0
                &&& end.state.pending is None
                &&& !end.state.held
                &&& end.state.request() == (if state.paused {
                    Request::Time
                } else {
                    Request::Apply
                })
                &&& other ==> end.effects.contains(EffectView::Reconfigure(newest->0.discord))
                &&& !other ==> forall|i: int|
                    0 <= i < end.effects.len() ==> !((#[trigger] end.effects[i]) is Reconfigure)
                &&& end.state.next_refresh == (if other {
                    now
                } else {
                    state.next_refresh
                })
                &&& World::of(state).after_all(end.effects) == World::idle()
                // What is misspelt in them is pointed out.
                &&& forall|i: int|
                    0 <= i < newest->0.warnings().len() ==> end.effects.contains(
                        EffectView::Log(#[trigger] newest->0.warnings()[i]),
                    )
            } else {
                &&& end.state == (DaemonView {
                    phase: end.state.phase,
                    pending: newest,
                    ..state
                })
                &&& end.state.request() == Request::Time
                &&& end.effects.len() == 0
            }
        }),
{
    let event = EventView::Mail { now, reload };
    let end = state.stepped(event);
    law_effects_follow_the_hold(state, event);
    let newest = if reload is Some {
        reload
    } else {
        state.pending
    };
    if newest is Some && is_calm(state, now) {
        let new = newest->0;
        let lines = crate::daemon::logged(new.warnings());
        assert(forall|i: int| 0 <= i < lines.len() ==> lines[i] is Log);
        assert forall|i: int| 0 <= i < state.ending().len() implies !(
            #[trigger] state.ending()[i] is Reconfigure) by {}
        assert forall|i: int| 0 <= i < new.warnings().len() implies end.effects.contains(
            EffectView::Log(#[trigger] new.warnings()[i]),
        ) by {
            assert(lines[i] == EffectView::Log(new.warnings()[i]));
            assert(end.effects[state.ending().len() + i] == lines[i]);
        }
        if other_credentials(new.discord, state.cfg.discord) {
            let at = state.ending().len() + lines.len();
            assert(end.effects[at as int] == EffectView::Reconfigure(new.discord));
        }
    }
}

/// Whether the mouse took reloaded settings makes no difference to the loop
/// but for a line.
pub proof fn law_reloading_ends_with_a_line(
    state: DaemonView,
    now: u64,
    result: Result<(), ErrorView>,
)
    requires
        state.phase == Phase::Reloading,
    ensures
        ({
            let end = state.stepped(EventView::Applied { now, result });
            &&& end.state == (DaemonView { phase: end.state.phase, ..state })
            &&& end.state.request() == Request::Time
            &&& end.effects.len() > 0
            &&& forall|i: int| 0 <= i < end.effects.len() ==> (#[trigger] end.effects[i]) is Log
            &&& end.effects[0] matches EffectView::Log(line) && line.error == (result is Err)
        }),
{
}

/// What the icon says, in every state.
pub proof fn law_what_the_icon_says(state: DaemonView)
    ensures
        state.status() == Status::Paused <==> state.paused,
        state.status() == Status::Waiting <==> !state.paused && !state.connected,
        state.status() == Status::Talking <==> !state.paused && state.connected && state.held
            && state.active != Action::Nothing,
{
}

/// The loop starts with the mouse in hand, nothing held and nothing waiting,
/// and with the next trade of the token six days off, or an hour if the last
/// one failed.
pub proof fn law_how_the_loop_starts(
    cfg: ConfigView,
    path: Seq<char>,
    device: Device,
    refreshed: bool,
    now: u64,
)
    requires
        cfg.valid(),
    ensures
        ({
            let state = DaemonView::started(cfg, path, device, refreshed, now);
            let wait: int = if refreshed {
                518_400_000_000_000
            } else {
                3_600_000_000_000
            };
            &&& state.well_formed()
            &&& state.cfg == cfg && state.device == device && state.pending is None
            &&& !state.held && state.buttons == 0 && !state.paused && state.connected
            &&& World::of(state) == World::idle()
            &&& state.last_poll == now && state.last_button == now && !state.check_now
            &&& now + wait <= u64::MAX ==> state.next_refresh == now + wait
            &&& state.request() == Request::Turn
        }),
{
}

/// Each thing that the loop knows has its own occasion to change: the settings
/// when they are reloaded or the token is traded, the mouse when it is found
/// anew, being paused at the top of the loop, the buttons when they are
/// listened for, and so on. The rest of the time it stays as it is.
#[verifier::spinoff_prover]
#[verifier::rlimit(40)]
pub proof fn law_everything_has_its_own_occasion(state: DaemonView, event: EventView)
    ensures
        ({
            let end = state.stepped(event).state;
            let phase = state.phase;
            &&& end.path == state.path
            &&& phase != Phase::Inbox && phase != Phase::Refreshing ==> end.cfg == state.cfg
                && end.next_refresh == state.next_refresh
            &&& phase != Phase::Inbox ==> end.pending == state.pending
            &&& phase != Phase::Reconnecting ==> end.device == state.device
            &&& phase != Phase::Top ==> end.paused == state.paused
            &&& phase != Phase::Listening ==> end.buttons == state.buttons && end.last_button
                == state.last_button
            &&& phase != Phase::Repairing && phase != Phase::Reconnecting && phase
                != Phase::Waking ==> end.connected == state.connected
            &&& phase != Phase::Poll && phase != Phase::Listening ==> end.check_now
                == state.check_now
            &&& phase != Phase::Resuming && phase != Phase::Poll && phase != Phase::Waking
                ==> end.last_poll == state.last_poll
            &&& phase != Phase::Top && phase != Phase::Inbox && phase != Phase::Listening ==> end.held
                == state.held
            &&& phase != Phase::Top && phase != Phase::Inbox && phase != Phase::Listening && phase
                != Phase::Choosing ==> end.active == state.active
        }),
{
}

/// A step of the loop is what the laws above say of one: it starts from what
/// the loop knows, leads to what they say it leads to, and has the effects
/// that they say it has.
pub proof fn law_a_step_is_one_of_these(daemon: &mut Daemon, event: Event, effects: Vec<Effect>)
    requires
        call_ensures(Daemon::step, (daemon, event), effects),
    ensures
        final(daemon)@ == old(daemon)@.stepped(event@).state,
        effects_view(effects@) == old(daemon)@.stepped(event@).effects,
        final(daemon).wf(),
{
}

/// What the loop asks for is what it waits for, and its settings, its mouse
/// and its status are those that it goes by.
pub proof fn law_the_loop_shows_what_it_knows(
    daemon: &Daemon,
    request: Request,
    cfg: &Config,
    device: Device,
    status: Status,
)
    requires
        call_ensures(Daemon::request, (daemon,), request),
        call_ensures(Daemon::config, (daemon,), cfg),
        call_ensures(Daemon::device, (daemon,), device),
        call_ensures(Daemon::status, (daemon,), status),
    ensures
        request == daemon@.request(),
        cfg@ == daemon@.cfg,
        device == daemon@.device,
        status == Status::Paused <==> daemon@.paused,
        status == Status::Waiting <==> !daemon@.paused && !daemon@.connected,
        status == Status::Talking <==> !daemon@.paused && daemon@.connected && daemon@.held
            && daemon@.active != Action::Nothing,
{
}

/// Letting go ends what is being done, and nothing that is not: the key that
/// is down comes up, or Discord is muted, and after that nothing is held.
pub proof fn law_letting_go_ends_what_is_being_done(
    held: &mut bool,
    active: &mut Action,
    effects: &mut Vec<Effect>,
)
    requires
        call_ensures(release, (held, active, effects), ()),
    ensures
        ({
            let (before, after) = (effects_view(old(effects)@), effects_view(final(effects)@));
            &&& !*final(held)
            &&& before.len() <= after.len() && after.take(before.len() as int) == before
            &&& *old(held) ==> ends(after.skip(before.len() as int), *old(active))
                && *final(active) == Action::Nothing
            &&& !*old(held) ==> after == before && *final(active) == *old(active)
        }),
{
    let (before, after) = (effects_view(old(effects)@), effects_view(final(effects)@));
    assert(after.take(before.len() as int) =~= before);
    assert(!*old(held) ==> after =~= before);
}

} // verus!
