//! What the input loop promises, whatever happens and in whatever order.

use vstd::prelude::*;

use crate::action::{action_of, picked, Action};
use crate::config::ConfigView;
use crate::daemon::{
    later, logged, start_effects, stop_effects, DaemonView, EffectView, EventView, Phase, Request,
    REFRESH_WINDOW_NS, RETRY_WINDOW_NS,
};
use crate::device::ProbeView;
use crate::icon::Status;

verus! {

/// What the daemon is doing to the machine around it.
pub struct World {
    /// The synthesised key that is down.
    pub key: Option<u16>,
    /// Whether Discord is transmitting.
    pub talking: bool,
}

impl World {
    /// Nothing at all.
    pub open spec fn idle() -> World {
        World { key: None, talking: false }
    }

    /// What an action does while it lasts.
    pub open spec fn doing(action: Action) -> World {
        match action {
            Action::Nothing => World::idle(),
            Action::Key(vk) => World { key: Some(vk), talking: false },
            Action::Rpc => World { key: None, talking: true },
        }
    }

    /// What the loop believes it is doing.
    pub open spec fn of(state: DaemonView) -> World {
        if state.held {
            World::doing(state.active)
        } else {
            World::idle()
        }
    }

    /// The world after an effect. Letting go of a key that is not down does
    /// nothing.
    pub open spec fn after(self, effect: EffectView) -> World {
        match effect {
            EffectView::Key { vk, down: true } => World { key: Some(vk), ..self },
            EffectView::Key { vk, down: false } => if self.key == Some(vk) {
                World { key: None, ..self }
            } else {
                self
            },
            EffectView::Mute(mute) => World { talking: !mute, ..self },
            _ => self,
        }
    }

    /// The world after a list of effects.
    pub open spec fn after_all(self, effects: Seq<EffectView>) -> World
        decreases effects.len(),
    {
        if effects.len() == 0 {
            self
        } else {
            self.after_all(effects.drop_last()).after(effects.last())
        }
    }
}

/// Whether an effect leaves keys and Discord alone.
pub open spec fn is_harmless(effect: EffectView) -> bool {
    !(effect is Key) && !(effect is Mute)
}

proof fn lemma_after_concat(world: World, a: Seq<EffectView>, b: Seq<EffectView>)
    ensures
        world.after_all(a + b) == world.after_all(a).after_all(b),
    decreases b.len(),
{
    if b.len() == 0 {
        assert(a + b =~= a);
    } else {
        lemma_after_concat(world, a, b.drop_last());
        assert((a + b).drop_last() =~= a + b.drop_last());
    }
}

proof fn lemma_after_harmless(world: World, effects: Seq<EffectView>)
    requires
        forall|i: int| 0 <= i < effects.len() ==> is_harmless(#[trigger] effects[i]),
    ensures
        world.after_all(effects) == world,
    decreases effects.len(),
{
    if effects.len() > 0 {
        assert(is_harmless(effects[effects.len() - 1]));
        lemma_after_harmless(world, effects.drop_last());
    }
}

proof fn lemma_after_ending(state: DaemonView)
    ensures
        World::of(state).after_all(state.ending()) == World::idle(),
{
    reveal_with_fuel(World::after_all, 2);
    let effects = state.ending();
    if effects.len() > 0 {
        assert(effects.drop_last() =~= Seq::empty());
    }
}

proof fn lemma_after_start(action: Action)
    ensures
        World::idle().after_all(start_effects(action)) == World::doing(action),
{
    reveal_with_fuel(World::after_all, 2);
    let effects = start_effects(action);
    if effects.len() > 0 {
        assert(effects.drop_last() =~= Seq::empty());
    }
}

/// Effects that end the hold, among others that do not matter.
proof fn lemma_after_release(
    state: DaemonView,
    before: Seq<EffectView>,
    behind: Seq<EffectView>,
)
    requires
        forall|i: int| 0 <= i < before.len() ==> is_harmless(#[trigger] before[i]),
        forall|i: int| 0 <= i < behind.len() ==> is_harmless(#[trigger] behind[i]),
    ensures
        World::of(state).after_all(before + state.ending() + behind) == World::idle(),
{
    let world = World::of(state);
    lemma_after_concat(world, before + state.ending(), behind);
    lemma_after_concat(world, before, state.ending());
    lemma_after_harmless(world, before);
    lemma_after_ending(state);
    lemma_after_harmless(World::idle(), behind);
}

proof fn lemma_top_step(state: DaemonView, event: EventView)
    requires
        state.well_formed(),
        state.phase == Phase::Top,
    ensures
        state.stepped(event).state.well_formed(),
        World::of(state).after_all(state.stepped(event).effects) == World::of(
            state.stepped(event).state,
        ),
{
    let end = state.stepped(event);
    if let EventView::Turn { now, running, pause } = event {
        if !running {
            let lead = seq![end.effects[0]];
            let tail = seq![EffectView::Restore];
            lemma_after_release(state, lead, tail);
            assert(end.effects =~= lead + state.ending() + tail);
        } else if pause != state.paused && state.quiet(now) && pause {
            let lead = seq![EffectView::Show(state.status())];
            let tail = end.effects.skip((1 + state.ending().len()) as int);
            assert(tail.len() == 2 && tail[0] is Restore && tail[1] is Log);
            lemma_after_release(state, lead, tail);
            assert(end.effects =~= lead + state.ending() + tail);
        } else {
            lemma_after_harmless(World::of(state), end.effects);
        }
    } else {
        lemma_after_harmless(World::of(state), end.effects);
    }
}

proof fn lemma_inbox_step(state: DaemonView, event: EventView)
    requires
        state.well_formed(),
        event.valid(),
        state.phase == Phase::Inbox,
    ensures
        state.stepped(event).state.well_formed(),
        World::of(state).after_all(state.stepped(event).effects) == World::of(
            state.stepped(event).state,
        ),
{
    let end = state.stepped(event);
    if let EventView::Mail { now, reload } = event {
        let pending = match reload {
            Some(cfg) => Some(cfg),
            None => state.pending,
        };
        if pending is Some && state.quiet(now) {
            let none = Seq::<EffectView>::empty();
            let new = pending->0;
            let lines = logged(new.warnings());
            assert(forall|i: int| 0 <= i < lines.len() ==> lines[i] is Log);
            let tail = end.effects.skip(state.ending().len() as int);
            lemma_after_release(state, none, tail);
            assert(end.effects =~= none + state.ending() + tail);
        } else {
            lemma_after_harmless(World::of(state), end.effects);
        }
    } else {
        lemma_after_harmless(World::of(state), end.effects);
    }
}

proof fn lemma_listening_step(state: DaemonView, event: EventView)
    requires
        state.well_formed(),
        state.phase == Phase::Listening,
    ensures
        state.stepped(event).state.well_formed(),
        World::of(state).after_all(state.stepped(event).effects) == World::of(
            state.stepped(event).state,
        ),
{
    let end = state.stepped(event);
    let none = Seq::<EffectView>::empty();
    match event {
        EventView::Heard { now, frame } => {
            if state.is_wake(frame) && !state.paused {
                let lead = seq![end.effects[0]];
                lemma_after_release(state, lead, none);
                assert(end.effects =~= lead + state.ending() + none);
            } else if end.effects.len() > 0 {
                lemma_after_release(state, none, none);
                assert(end.effects =~= none + state.ending() + none);
            } else {
                lemma_after_harmless(World::of(state), end.effects);
                lemma_after_release(state, none, none);
                assert(none + state.ending() + none =~= state.ending());
            }
        },
        EventView::Deaf => {
            lemma_after_release(state, none, seq![EffectView::Rest]);
            assert(end.effects =~= none + state.ending() + seq![EffectView::Rest]);
        },
        _ => {
            lemma_after_harmless(World::of(state), end.effects);
        },
    }
}

proof fn lemma_choosing_step(state: DaemonView, event: EventView)
    requires
        state.well_formed(),
        state.phase == Phase::Choosing,
    ensures
        state.stepped(event).state.well_formed(),
        World::of(state).after_all(state.stepped(event).effects) == World::of(
            state.stepped(event).state,
        ),
{
    let end = state.stepped(event);
    if event is Foreground {
        lemma_after_start(end.state.active);
    } else {
        lemma_after_harmless(World::of(state), end.effects);
    }
}

/// Asserting the state on the mouse neither begins nor ends a hold.
proof fn lemma_assert_step(state: DaemonView, event: EventView)
    requires
        state.well_formed(),
        state.phase == Phase::Resuming
            || state.phase == Phase::Reloading,
    ensures
        state.stepped(event).state.well_formed(),
        World::of(state).after_all(state.stepped(event).effects) == World::of(
            state.stepped(event).state,
        ),
{
    let effects = state.stepped(event).effects;
    assert(effects.len() <= 2);
    assert(effects.len() > 0 ==> is_harmless(effects[0]));
    assert(effects.len() > 1 ==> is_harmless(effects[1]));
    lemma_after_harmless(World::of(state), effects);
}

/// Nor does replacing the access token,
proof fn lemma_token_step(state: DaemonView, event: EventView)
    requires
        state.well_formed(),
        state.phase == Phase::Token
            || state.phase == Phase::Refreshing
            || state.phase == Phase::Poll,
    ensures
        state.stepped(event).state.well_formed(),
        World::of(state).after_all(state.stepped(event).effects) == World::of(
            state.stepped(event).state,
        ),
{
    let effects = state.stepped(event).effects;
    assert(effects.len() == 0 || effects.len() == 3);
    assert(effects.len() == 3 ==> is_harmless(effects[0]) && is_harmless(effects[1])
        && is_harmless(effects[2]));
    lemma_after_harmless(World::of(state), effects);
}

/// nor checking on the mouse,
proof fn lemma_check_step(state: DaemonView, event: EventView)
    requires
        state.well_formed(),
        state.phase == Phase::Probing
            || state.phase == Phase::Repairing
            || state.phase == Phase::Reconnecting,
    ensures
        state.stepped(event).state.well_formed(),
        World::of(state).after_all(state.stepped(event).effects) == World::of(
            state.stepped(event).state,
        ),
{
    let effects = state.stepped(event).effects;
    assert(effects.len() <= 1);
    assert(effects.len() > 0 ==> is_harmless(effects[0]));
    lemma_after_harmless(World::of(state), effects);
}

/// nor anything else.
proof fn lemma_last_step(state: DaemonView, event: EventView)
    requires
        state.well_formed(),
        state.phase == Phase::Waking
            || state.phase == Phase::Done,
    ensures
        state.stepped(event).state.well_formed(),
        World::of(state).after_all(state.stepped(event).effects) == World::of(
            state.stepped(event).state,
        ),
{
    let effects = state.stepped(event).effects;
    lemma_after_harmless(World::of(state), effects);
}

/// Every step keeps what holds of the loop.
pub proof fn law_steps_keep_the_loop_well_formed(state: DaemonView, event: EventView)
    requires
        state.well_formed(),
        event.valid(),
    ensures
        state.stepped(event).state.well_formed(),
{
    lemma_step(state, event);
}

/// What the loop does to keys and to Discord is always exactly what it
/// believes it is doing: a key it pressed is down until it lets go of that
/// same key, and Discord transmits only during a hold.
pub proof fn law_effects_follow_the_hold(state: DaemonView, event: EventView)
    requires
        state.well_formed(),
        event.valid(),
    ensures
        World::of(state).after_all(state.stepped(event).effects) == World::of(
            state.stepped(event).state,
        ),
{
    lemma_step(state, event);
}

proof fn lemma_step(state: DaemonView, event: EventView)
    requires
        state.well_formed(),
        event.valid(),
    ensures
        state.stepped(event).state.well_formed(),
        World::of(state).after_all(state.stepped(event).effects) == World::of(
            state.stepped(event).state,
        ),
{
    if state.phase == Phase::Top {
        lemma_top_step(state, event);
    } else if state.phase == Phase::Inbox {
        lemma_inbox_step(state, event);
    } else if state.phase == Phase::Listening {
        lemma_listening_step(state, event);
    } else if state.phase == Phase::Choosing {
        lemma_choosing_step(state, event);
    } else if state.phase == Phase::Resuming || state.phase == Phase::Reloading {
        lemma_assert_step(state, event);
    } else if state.phase == Phase::Token || state.phase == Phase::Refreshing || state.phase
        == Phase::Poll {
        lemma_token_step(state, event);
    } else if state.phase == Phase::Waking || state.phase == Phase::Done {
        lemma_last_step(state, event);
    } else {
        lemma_check_step(state, event);
    }
}

/// The loop after a whole run of events.
pub open spec fn run(state: DaemonView, events: Seq<EventView>) -> DaemonView
    decreases events.len(),
{
    if events.len() == 0 {
        state
    } else {
        run(state, events.drop_last()).stepped(events.last()).state
    }
}

/// Everything that a run of events had for effects, in order.
pub open spec fn run_effects(state: DaemonView, events: Seq<EventView>) -> Seq<EffectView>
    decreases events.len(),
{
    if events.len() == 0 {
        Seq::empty()
    } else {
        run_effects(state, events.drop_last()) + run(state, events.drop_last()).stepped(
            events.last(),
        ).effects
    }
}

/// However long it runs and whatever happens to it, the daemon never leaves a
/// key down or Discord transmitting that it does not know of.
pub proof fn law_no_hold_is_ever_lost(state: DaemonView, events: Seq<EventView>)
    requires
        state.well_formed(),
        forall|i: int| 0 <= i < events.len() ==> (#[trigger] events[i]).valid(),
    ensures
        run(state, events).well_formed(),
        World::of(state).after_all(run_effects(state, events)) == World::of(run(state, events)),
    decreases events.len(),
{
    if events.len() > 0 {
        let before = events.drop_last();
        assert forall|i: int| 0 <= i < before.len() implies (#[trigger] before[i]).valid() by {
            assert(before[i] == events[i]);
        }
        law_no_hold_is_ever_lost(state, before);
        let mid = run(state, before);
        assert(events[events.len() - 1].valid());
        lemma_step(mid, events.last());
        lemma_after_concat(
            World::of(state),
            run_effects(state, before),
            mid.stepped(events.last()).effects,
        );
    }
}

/// A daemon that was told to stop leaves no key down and Discord silent: from
/// the moment it starts until it is done, everything it did has been undone.
pub proof fn law_a_stopped_daemon_leaves_nothing_behind(
    state: DaemonView,
    events: Seq<EventView>,
    now: u64,
    pause: bool,
)
    requires
        state.well_formed(),
        !state.held,
        forall|i: int| 0 <= i < events.len() ==> (#[trigger] events[i]).valid(),
        run(state, events).phase == Phase::Top,
    ensures
        ({
            let stop = EventView::Turn { now, running: false, pause };
            let all = events.push(stop);
            &&& run(state, all).phase == Phase::Done
            &&& World::idle().after_all(run_effects(state, all)) == World::idle()
            &&& run_effects(state, all).last() == EffectView::Restore
        }),
{
    let stop = EventView::Turn { now, running: false, pause };
    let all = events.push(stop);
    assert forall|i: int| 0 <= i < all.len() implies (#[trigger] all[i]).valid() by {
        if i < events.len() {
            assert(all[i] == events[i]);
        }
    }
    assert(all.drop_last() =~= events);
    law_no_hold_is_ever_lost(state, all);
    let mid = run(state, events);
    assert(run(state, all) == mid.turned(now, false, pause).state);
}

/// Losing the mouse, or its coming back from sleep, ends any hold: the event
/// that would have ended it is never coming.
pub proof fn law_losing_the_mouse_ends_the_hold(state: DaemonView, event: EventView)
    requires
        state.well_formed(),
        state.phase == Phase::Listening,
        event is Deaf || (event matches EventView::Heard { now, frame } && state.is_wake(frame)),
    ensures
        World::of(state).after_all(state.stepped(event).effects) == World::idle(),
        !state.stepped(event).state.held,
{
    lemma_listening_step(state, event);
}

/// A quiet moment is never in the middle of a hold.
pub proof fn law_quiet_means_not_held(state: DaemonView, now: u64)
    requires
        state.well_formed(),
        state.quiet(now),
    ensures
        !state.held,
{
    let bit = state.cfg.bit();
    assert(0u16 & bit == 0) by (bit_vector);
}

/// The time that an event tells, if it tells one.
pub open spec fn time_of(event: EventView) -> Option<u64> {
    match event {
        EventView::Turn { now, .. } => Some(now),
        EventView::Mail { now, .. } => Some(now),
        EventView::Time { now } => Some(now),
        _ => None,
    }
}

/// Whether a step sets out to write to the mouse, or to read it with a view
/// to writing, other than because the mouse has just woken or the daemon is
/// stopping.
pub open spec fn sets_out_to_write(state: DaemonView, event: EventView) -> bool {
    let end = state.stepped(event);
    ||| state.phase == Phase::Top && end.state.phase == Phase::Resuming
    ||| state.phase == Phase::Top && end.state.phase != Phase::Done && end.effects.contains(
        EffectView::Restore,
    )
    ||| state.phase == Phase::Inbox && end.state.phase == Phase::Reloading
    ||| state.phase == Phase::Poll && end.state.phase != Phase::Listening && end.state.phase
        != Phase::Poll
}

/// Nothing is written to the mouse while a button is down or was down a
/// moment ago, so that no hold of any button is ever interrupted.
pub proof fn law_writes_wait_for_quiet(state: DaemonView, event: EventView)
    requires
        state.well_formed(),
        sets_out_to_write(state, event),
    ensures
        time_of(event) matches Some(now) && state.quiet(now),
        state.buttons == 0,
        !state.held,
{
    let end = state.stepped(event);
    if state.phase == Phase::Top {
        if let EventView::Turn { now, running, pause } = event {
            if !(pause != state.paused && state.quiet(now)) {
                assert(running ==> end.effects =~= seq![EffectView::Show(state.status())]);
            }
            law_quiet_means_not_held(state, now);
        } else {
            assert(end.effects =~= Seq::empty());
        }
    } else if state.phase == Phase::Inbox {
        if let EventView::Mail { now, reload } = event {
            law_quiet_means_not_held(state, now);
        }
    } else {
        if let EventView::Time { now } = event {
            law_quiet_means_not_held(state, now);
        }
    }
}

/// The one write that does not wait is made to a mouse that has just come
/// back, and then nothing is held.
pub proof fn law_waking_finds_nothing_held(state: DaemonView, event: EventView)
    requires
        state.well_formed(),
        state.phase == Phase::Listening,
        state.stepped(event).state.phase == Phase::Waking,
    ensures
        !state.stepped(event).state.held,
        state.stepped(event).state.buttons == 0,
{
}

/// Whether an effect has nothing to do with the mouse, with keys or with
/// muting.
pub open spec fn is_hands_off(effect: EffectView) -> bool {
    is_harmless(effect) && !(effect is Restore)
}

/// While paused, the daemon does nothing to the mouse and acts on no button:
/// all it does is show its status, keep its settings and tokens up to date
/// and write its log. Only being told to stop makes it give the mouse back
/// once more.
pub proof fn law_paused_means_hands_off(state: DaemonView, event: EventView)
    requires
        state.well_formed(),
        event.valid(),
        state.paused,
        state.stepped(event).state.paused,
        state.stepped(event).state.phase != Phase::Done,
    ensures
        forall|i: int|
            0 <= i < state.stepped(event).effects.len() ==> is_hands_off(
                #[trigger] state.stepped(event).effects[i],
            ),
        !state.stepped(event).state.touches_mouse(),
        !state.stepped(event).state.held,
{
    let end = state.stepped(event);
    lemma_step(state, event);
    if state.phase == Phase::Inbox {
        if let EventView::Mail { now, reload } = event {
            let pending = match reload {
                Some(cfg) => Some(cfg),
                None => state.pending,
            };
            if pending is Some && state.quiet(now) {
                let lines = logged(pending->0.warnings());
                assert(forall|i: int| 0 <= i < lines.len() ==> lines[i] is Log);
            }
        }
    }
}

/// A mouse that is found still to hold everything it was told is left alone.
pub proof fn law_a_mouse_in_order_is_left_alone(state: DaemonView, probe: ProbeView)
    requires
        state.phase == Phase::Probing,
        probe.matches(state.cfg.mapping),
    ensures
        ({
            let end = state.stepped(EventView::Probed { result: Ok(probe) });
            end.effects.len() == 0 && end.state == state.at(Phase::Listening)
        }),
{
}

/// The icon tells the truth: with the mouse there and the daemon not paused,
/// it says talking exactly while something is being done, and paused exactly
/// while the mouse is in Windows' hands.
pub proof fn law_the_icon_tells_the_truth(state: DaemonView)
    requires
        state.well_formed(),
    ensures
        state.status() == Status::Talking ==> World::of(state) != World::idle(),
        state.connected ==> (state.status() == Status::Talking <==> World::of(state)
            != World::idle()),
        state.status() == Status::Paused <==> state.paused,
        state.paused ==> World::of(state) == World::idle(),
{
}

/// Which line the loss or the return of the mouse deserves: one each time it
/// goes and one each time it comes back, however often it is looked for in
/// between.
pub proof fn law_only_changes_are_reported(state: DaemonView, ok: bool)
    ensures
        state.checked(ok).effects.len() == (if ok != state.connected {
            1nat
        } else {
            0nat
        }),
        state.checked(ok).state.connected == ok,
{
}

/// Reloading the settings that are already in force neither reconnects to
/// Discord nor hurries the token along.
pub proof fn law_reloading_the_same_changes_no_credentials(state: DaemonView, now: u64)
    requires
        state.well_formed(),
    ensures
        state.reloaded(now, state.cfg).state.next_refresh == state.next_refresh,
        state.reloaded(now, state.cfg).state.cfg == state.cfg,
        forall|i: int|
            0 <= i < state.reloaded(now, state.cfg).effects.len() ==> !(
                #[trigger] state.reloaded(now, state.cfg).effects[i] is Reconfigure),
{
    let end = state.reloaded(now, state.cfg);
    let lines = logged(state.cfg.warnings());
    assert(forall|i: int| 0 <= i < lines.len() ==> lines[i] is Log);
    assert forall|i: int| 0 <= i < end.effects.len() implies !(
        #[trigger] end.effects[i] is Reconfigure) by {}
}

/// A refresh that fails costs nothing: the tokens stay as they are, nothing
/// is written and Discord is left alone. There is another try in an hour.
pub proof fn law_a_failed_refresh_keeps_the_tokens(state: DaemonView, now: u64)
    ensures
        state.refreshed(now, None).state == (DaemonView {
            next_refresh: later(now, RETRY_WINDOW_NS),
            ..state
        }).at(Phase::Poll),
        state.refreshed(now, None).effects.len() == 0,
{
}

/// New tokens are taken on, saved and put to use, the same ones each time.
pub proof fn law_new_tokens_are_saved_and_used(
    state: DaemonView,
    now: u64,
    access: Seq<char>,
    refresh: Seq<char>,
)
    ensures
        ({
            let end = state.refreshed(now, Some((access, refresh)));
            &&& end.state.cfg == state.cfg.with_tokens(access, refresh)
            &&& end.effects.contains(EffectView::Persist { access, refresh })
            &&& end.effects.contains(EffectView::Reconfigure(end.state.cfg.discord))
            &&& end.state.next_refresh == later(now, REFRESH_WINDOW_NS)
        }),
{
    let end = state.refreshed(now, Some((access, refresh)));
    assert(end.effects[0] == EffectView::Persist { access, refresh });
    assert(end.effects[1] == EffectView::Reconfigure(end.state.cfg.discord));
}

/// Settings that were reloaded at a bad moment are kept until the moment is
/// good, unless newer ones take their place, and are put in force then.
pub proof fn law_reloaded_settings_wait_their_turn(
    state: DaemonView,
    now: u64,
    reload: Option<ConfigView>,
)
    requires
        state.pending is Some || reload is Some,
    ensures
        ({
            let newest = match reload {
                Some(cfg) => cfg,
                None => state.pending->0,
            };
            let end = state.mailed(now, reload).state;
            if state.quiet(now) {
                end.cfg == newest && end.pending is None
            } else {
                end.cfg == state.cfg && end.pending == Some(newest)
            }
        }),
{
}

/// The button does what the application in the foreground calls for, from
/// when it goes down until it comes up, and nothing else does.
pub proof fn law_a_press_lasts_until_its_release(
    state: DaemonView,
    now: u64,
    buttons: u16,
    exe: Option<Seq<char>>,
    now_later: u64,
    buttons_later: u16,
)
    requires
        state.well_formed(),
        !state.held,
        state.phase == Phase::Listening,
        buttons & state.cfg.bit() != 0,
        buttons_later & state.cfg.bit() == 0,
    ensures
        ({
            let action = picked(exe, state.cfg.compiled(), action_of(state.cfg.default_action));
            let down = state.buttons_changed(now, buttons);
            let talking = down.state.chosen(exe);
            let up = talking.state.buttons_changed(now_later, buttons_later);
            &&& down.effects.len() == 0 && down.state.phase == Phase::Choosing
            &&& talking.effects == start_effects(action)
            &&& up.effects == stop_effects(action)
            &&& !up.state.held && up.state.active == Action::Nothing
        }),
{
}

/// Presses and releases of any other button do nothing.
pub proof fn law_other_buttons_do_nothing(state: DaemonView, now: u64, buttons: u16)
    requires
        (buttons & state.cfg.bit() != 0) == state.held,
    ensures
        state.buttons_changed(now, buttons).effects.len() == 0,
        state.buttons_changed(now, buttons).state.held == state.held,
        state.buttons_changed(now, buttons).state.active == state.active,
{
}

/// A mouse that has just woken is told everything again at once, without
/// waiting for the next check.
pub proof fn law_waking_reasserts_at_once(state: DaemonView, now: u64, frame: Seq<u8>)
    requires
        state.phase == Phase::Listening,
        state.is_wake(frame),
        !state.paused,
    ensures
        state.stepped(EventView::Heard { now, frame }).state.request() == Request::Apply,
{
}

/// Whether an event is an answer to what the loop wants.
pub open spec fn answers(request: Request, event: EventView) -> bool {
    match request {
        Request::Turn => event is Turn,
        Request::Mail => event is Mail,
        Request::Time => event is Time,
        Request::Apply => event is Applied,
        Request::Probe => event is Probed,
        Request::Connect => event is Connected,
        Request::Refresh => event is Refreshed,
        Request::Listen => event is Heard || event is Quiet || event is Deaf,
        Request::Foreground => event is Foreground,
        Request::Stop => false,
    }
}

/// How far a pass of the loop has come.
pub open spec fn progress(phase: Phase) -> nat {
    match phase {
        Phase::Top => 0,
        Phase::Resuming => 1,
        Phase::Inbox => 2,
        Phase::Reloading => 3,
        Phase::Token => 4,
        Phase::Refreshing => 5,
        Phase::Poll => 6,
        Phase::Probing => 7,
        Phase::Repairing => 8,
        Phase::Reconnecting => 9,
        Phase::Listening => 10,
        Phase::Waking => 11,
        Phase::Choosing => 11,
        Phase::Done => 12,
    }
}

/// The loop always comes round: every answer takes it further, until it is at
/// its top again or done, so that a pass never takes more than a dozen
/// answers.
pub proof fn law_the_loop_comes_round(state: DaemonView, event: EventView)
    requires
        answers(state.request(), event),
    ensures
        ({
            let next = state.stepped(event).state.phase;
            next == Phase::Top || progress(next) > progress(state.phase)
        }),
        progress(state.phase) <= 12,
{
}

/// What the loop did not ask for changes nothing.
pub proof fn law_unasked_events_change_nothing(state: DaemonView, event: EventView)
    requires
        !answers(state.request(), event),
    ensures
        state.stepped(event).state == state,
        state.stepped(event).effects.len() == 0,
{
}

/// No pass of the loop goes by without listening for the button: the top is
/// only ever reached from there.
pub proof fn law_every_pass_listens(state: DaemonView, event: EventView)
    requires
        answers(state.request(), event),
        state.stepped(event).state.phase == Phase::Top,
    ensures
        state.phase == Phase::Listening || state.phase == Phase::Waking || state.phase
            == Phase::Choosing,
{
}

} // verus!
