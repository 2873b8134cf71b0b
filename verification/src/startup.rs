//! Getting going: waiting for the mouse to turn up, and what is said on the
//! way there.

use vstd::prelude::*;
use vstd::string::*;

use crate::connect::prefixed;
use crate::hidpp::{Error, ErrorView};
use crate::log::{complain, complained, lines_view, said, Line, LineView};

verus! {

/// How often to see whether to go on waiting, between one attempt and the
/// next.
pub const NAPS: u8 = 20;

/// How long to wait each time, in milliseconds.
pub const NAP_MS: u64 = 250;

/// What to do next about a mouse that has not turned up.
#[derive(Debug, Clone, Copy, PartialEq, Eq, Structural)]
pub enum Next {
    /// Try to set it up.
    Connect,
    /// See whether to go on, and if so wait for a moment.
    Nap,
}

/// What the wait knows.
#[derive(Debug, Clone, Copy, PartialEq, Eq, Structural)]
pub struct Waiting {
    /// Whether the log says so already. At sign-in the wait can go on for a
    /// minute, and the same line every five seconds buries the log.
    reported: bool,
    naps: u8,
}

pub struct WaitingView {
    pub reported: bool,
    /// Naps to be taken before the next attempt.
    pub naps: u8,
}

impl View for Waiting {
    type V = WaitingView;

    closed spec fn view(&self) -> WaitingView {
        WaitingView { reported: self.reported, naps: self.naps }
    }
}

impl WaitingView {
    pub open spec fn fresh() -> WaitingView {
        WaitingView { reported: false, naps: 0 }
    }

    pub open spec fn next(self) -> Next {
        if self.naps == 0 {
            Next::Connect
        } else {
            Next::Nap
        }
    }

    /// An attempt has failed.
    pub open spec fn failed(self) -> WaitingView {
        WaitingView { reported: true, naps: NAPS }
    }

    /// What there is to say about that.
    pub open spec fn report(self, e: ErrorView) -> Seq<LineView> {
        if self.reported {
            seq![]
        } else {
            seq![
                complained("could not set up the mouse: "@ + e.message()),
                complained("waiting for it; note that G HUB holds the HID++ channel open"@),
            ]
        }
    }

    /// A nap has been taken.
    pub open spec fn rested(self) -> WaitingView {
        WaitingView { naps: (self.naps - 1) as u8, ..self }
    }
}

impl Waiting {
    /// The first attempt comes first.
    pub fn new() -> (r: Waiting)
        ensures
            r@ == WaitingView::fresh(),
    {
        Waiting { reported: false, naps: 0 }
    }

    /// What to do next.
    pub fn next(&self) -> (r: Next)
        ensures
            r == self@.next(),
    {
        if self.naps == 0 {
            Next::Connect
        } else {
            Next::Nap
        }
    }

    /// An attempt has failed: the wait starts over.
    pub fn failed(&mut self, e: &Error, lines: &mut Vec<Line>)
        ensures
            final(self)@ == old(self)@.failed(),
            lines_view(final(lines)@) == lines_view(old(lines)@) + old(self)@.report(e@),
    {
        let ghost before = lines_view(lines@);
        if !self.reported {
            complain(lines, prefixed("could not set up the mouse: ", e));
            complain(
                lines,
                "waiting for it; note that G HUB holds the HID++ channel open".to_owned(),
            );
        }
        assert(lines_view(lines@) =~= before + old(self)@.report(e@));
        self.reported = true;
        self.naps = NAPS;
    }

    /// Whether to take a nap, which depends on whether to go on at all.
    pub fn rest(&mut self, running: bool) -> (r: bool)
        requires
            old(self)@.next() == Next::Nap,
        ensures
            r == running,
            final(self)@ == (if running {
                old(self)@.rested()
            } else {
                old(self)@
            }),
    {
        if running {
            self.naps = self.naps - 1;
        }
        running
    }
}

/// Something that happens in the course of a wait.
pub enum WaitEvent {
    Failed(ErrorView),
    Rested,
}

impl WaitingView {
    pub open spec fn after(self, event: WaitEvent) -> WaitingView {
        match event {
            WaitEvent::Failed(_) => self.failed(),
            WaitEvent::Rested => self.rested(),
        }
    }

    /// Everything that is said in the course of a wait.
    pub open spec fn said_in(self, events: Seq<WaitEvent>) -> Seq<LineView>
        decreases events.len(),
    {
        if events.len() == 0 {
            seq![]
        } else {
            let here = match events[0] {
                WaitEvent::Failed(e) => self.report(e),
                WaitEvent::Rested => seq![],
            };
            here + self.after(events[0]).said_in(events.skip(1))
        }
    }
}

proof fn lemma_reported_already(state: WaitingView, events: Seq<WaitEvent>)
    requires
        state.reported,
    ensures
        state.said_in(events) == Seq::<LineView>::empty(),
    decreases events.len(),
{
    if events.len() > 0 {
        lemma_reported_already(state.after(events[0]), events.skip(1));
        assert(state.said_in(events) =~= Seq::<LineView>::empty());
    }
}

/// However long the mouse stays away, that is said once: on the first failed
/// attempt, and never after that.
pub proof fn law_the_wait_is_reported_once(e: ErrorView, events: Seq<WaitEvent>)
    ensures
        WaitingView::fresh().said_in(seq![WaitEvent::Failed(e)] + events)
            == WaitingView::fresh().report(e),
{
    let all = seq![WaitEvent::Failed(e)] + events;
    assert(all.skip(1) =~= events);
    lemma_reported_already(WaitingView::fresh().failed(), events);
    assert(WaitingView::fresh().said_in(all) =~= WaitingView::fresh().report(e));
}

/// The state after that many naps.
pub open spec fn napped(state: WaitingView, n: nat) -> WaitingView
    decreases n,
{
    if n == 0 {
        state
    } else {
        napped(state, (n - 1) as nat).rested()
    }
}

/// Between one attempt and the next there are twenty occasions to leave, and
/// after those there is another attempt.
pub proof fn law_attempts_are_spaced_out(state: WaitingView, n: nat)
    requires
        n <= NAPS,
    ensures
        napped(state.failed(), n).naps == NAPS - n,
        napped(state.failed(), n).next() == (if n == NAPS {
            Next::Connect
        } else {
            Next::Nap
        }),
    decreases n,
{
    if n > 0 {
        law_attempts_are_spaced_out(state, (n - 1) as nat);
    }
}

/// The line that marks where a session starts in a log that outlives it.
pub fn starting_line(path: &str) -> (r: Line)
    ensures
        r@ == said("--- invisible-ptt starting on "@ + path@),
{
    let mut text = "--- invisible-ptt starting on ".to_owned();
    text.append(path);
    Line { error: false, text }
}

/// The line that says where the settings are, which is the one thing that has
/// to be said on a first run.
pub fn first_run_line(path: &str) -> (r: Line)
    ensures
        r@ == said(
            "first run: wrote a starter config to "@ + path@
                + ". It changes nothing until you edit it - Open settings file in the tray menu."@,
        ),
{
    let mut text = "first run: wrote a starter config to ".to_owned();
    text.append(path);
    text.append(". It changes nothing until you edit it - Open settings file in the tray menu.");
    Line { error: false, text }
}

/// Why there are no settings to start with.
pub fn no_config(path: &str, e: &str) -> (r: String)
    ensures
        r@ == "could not create "@ + path@ + ": "@ + e@,
{
    let mut text = "could not create ".to_owned();
    text.append(path);
    text.append(": ");
    text.append(e);
    text
}

/// What to say of tokens refreshed at the start, by whether they could be
/// saved.
pub fn refreshed_line(path: &str, saved: &Result<(), String>) -> (r: Line)
    ensures
        r@ == (match saved {
            Ok(_) => said("refreshed discord access token"@),
            Err(e) => complained(
                "warning: refreshed token but could not save it to "@ + path@ + ": "@ + e@,
            ),
        }),
{
    match saved {
        Ok(_) => Line { error: false, text: "refreshed discord access token".to_owned() },
        Err(e) => {
            let mut text = "warning: refreshed token but could not save it to ".to_owned();
            text.append(path);
            text.append(": ");
            text.append(e.as_str());
            Line { error: true, text }
        },
    }
}

/// The first attempt that fails says why, and that it goes on.
pub proof fn law_the_first_failure_says_why(e: ErrorView)
    ensures
        WaitingView::fresh().next() == Next::Connect,
        ({
            let lines = WaitingView::fresh().report(e);
            &&& lines.len() == 2
            &&& lines[0] == complained("could not set up the mouse: "@ + e.message())
            &&& lines[1].error
        }),
{
}

/// A failed attempt is followed by five seconds of waiting, a quarter of a
/// second at a time, and a nap takes nothing but its own time.
pub proof fn law_a_failure_is_followed_by_a_wait(state: WaitingView)
    ensures
        state.failed().naps * NAP_MS == 5_000,
        state.failed().next() == Next::Nap,
        state.failed().reported,
        state.naps > 0 ==> state.rested().naps == state.naps - 1 && state.rested().reported
            == state.reported,
        state.next() == Next::Connect <==> state.naps == 0,
{
}

/// Waiting goes on exactly as long as it is wanted: a nap is taken if the
/// daemon is to go on, and then the next attempt is one nap nearer.
pub proof fn law_a_wait_can_be_left(waiting: &mut Waiting, running: bool, r: bool)
    requires
        old(waiting)@.naps > 0,
        call_ensures(Waiting::rest, (waiting, running), r),
    ensures
        r == running,
        running ==> final(waiting)@.naps == old(waiting)@.naps - 1,
        !running ==> final(waiting)@ == old(waiting)@,
{
}

/// Waiting starts with an attempt. One that fails is followed by the wait and
/// is reported, behind what there is to say already, unless one has been.
pub proof fn law_waiting_goes_from_attempt_to_attempt(
    start: Waiting,
    waiting: &mut Waiting,
    e: &Error,
    lines: &mut Vec<Line>,
)
    requires
        call_ensures(Waiting::new, (), start),
        call_ensures(Waiting::failed, (waiting, e, lines), ()),
    ensures
        start@.naps == 0 && !start@.reported,
        final(waiting)@.naps == NAPS && final(waiting)@.reported,
        ({
            let (before, after) = (lines_view(old(lines)@), lines_view(final(lines)@));
            &&& old(waiting)@.reported ==> after == before
            &&& !old(waiting)@.reported ==> after.len() == before.len() + 2 && after.take(
                before.len() as int,
            ) == before && after[before.len() as int] == complained(
                "could not set up the mouse: "@ + e@.message(),
            )
        }),
{
    let (before, after) = (lines_view(old(lines)@), lines_view(final(lines)@));
    if old(waiting)@.reported {
        assert(after =~= before);
    } else {
        assert(after.take(before.len() as int) =~= before);
    }
}

/// What is said at the start names the file that it is about, and is a
/// complaint exactly if something went wrong.
pub proof fn law_what_is_said_at_the_start(
    path: &str,
    why: &str,
    saved: &Result<(), String>,
    starting: Line,
    first: Line,
    missing: String,
    refreshed: Line,
)
    requires
        call_ensures(starting_line, (path,), starting),
        call_ensures(first_run_line, (path,), first),
        call_ensures(no_config, (path, why), missing),
        call_ensures(refreshed_line, (path, saved), refreshed),
    ensures
        !starting@.error && starting@.text == "--- invisible-ptt starting on "@ + path@,
        !first@.error && ("first run: wrote a starter config to "@ + path@).is_prefix_of(
            first@.text,
        ),
        missing@ == "could not create "@ + path@ + ": "@ + why@,
        refreshed@.error <==> saved is Err,
        saved matches Err(e) ==> refreshed@.text
            == "warning: refreshed token but could not save it to "@ + path@ + ": "@ + e@,
{
    let lead = "first run: wrote a starter config to "@ + path@;
    assert(lead =~= first@.text.take(lead.len() as int));
}

} // verus!
