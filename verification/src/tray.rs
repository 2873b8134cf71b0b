//! The tray icon's menu, which is the daemon's entire user interface.

use vstd::prelude::*;
use vstd::string::*;

use crate::config::{load_config, Config, Loaded};
use crate::icon::Status;
use crate::log::{complain, complained, lines_view, said, say, Line};
use crate::text::{decimal, to_decimal};

verus! {

/// What a menu returns when nothing was picked. No entry has this number.
pub const ID_NOTHING: usize = 0;

pub const ID_SETTINGS: usize = 1;

pub const ID_LOG: usize = 2;

pub const ID_RELOAD: usize = 3;

pub const ID_AUTOSTART: usize = 4;

pub const ID_EXIT: usize = 5;

pub const ID_PAUSE: usize = 6;

/// An entry of the menu.
#[derive(Debug, Clone, Copy)]
pub enum Entry {
    /// The program's name, which cannot be picked.
    Title(&'static str),
    Separator,
    Item { id: usize, label: &'static str },
    /// One that is ticked or not.
    Tick { id: usize, label: &'static str, on: bool },
}

pub enum EntryView {
    Title(Seq<char>),
    Separator,
    Item { id: usize, label: Seq<char> },
    Tick { id: usize, label: Seq<char>, on: bool },
}

impl View for Entry {
    type V = EntryView;

    open spec fn view(&self) -> EntryView {
        match self {
            Entry::Title(label) => EntryView::Title(label@),
            Entry::Separator => EntryView::Separator,
            Entry::Item { id, label } => EntryView::Item { id: *id, label: label@ },
            Entry::Tick { id, label, on } => EntryView::Tick { id: *id, label: label@, on: *on },
        }
    }
}

/// The menu, from the top down.
pub open spec fn menu_entries(paused: bool, autostart: bool) -> Seq<EntryView> {
    seq![
        EntryView::Title("invisible-ptt"@),
        EntryView::Separator,
        EntryView::Tick { id: ID_PAUSE, label: "Pause"@, on: paused },
        EntryView::Item { id: ID_SETTINGS, label: "Open settings file"@ },
        EntryView::Item { id: ID_LOG, label: "Open log file"@ },
        EntryView::Item { id: ID_RELOAD, label: "Reload settings"@ },
        EntryView::Tick {
            id: ID_AUTOSTART,
            label: "Start automatically at sign-in"@,
            on: autostart,
        },
        EntryView::Separator,
        EntryView::Item { id: ID_EXIT, label: "Exit"@ },
    ]
}

/// The menu, from the top down. The ticks say what holds now.
pub fn menu(paused: bool, autostart: bool) -> (r: Vec<Entry>)
    ensures
        r@.map_values(|e: Entry| e@) == menu_entries(paused, autostart),
{
    let mut out: Vec<Entry> = Vec::new();
    out.push(Entry::Title("invisible-ptt"));
    out.push(Entry::Separator);
    out.push(Entry::Tick { id: ID_PAUSE, label: "Pause", on: paused });
    out.push(Entry::Item { id: ID_SETTINGS, label: "Open settings file" });
    out.push(Entry::Item { id: ID_LOG, label: "Open log file" });
    out.push(Entry::Item { id: ID_RELOAD, label: "Reload settings" });
    out.push(
        Entry::Tick { id: ID_AUTOSTART, label: "Start automatically at sign-in", on: autostart },
    );
    out.push(Entry::Separator);
    out.push(Entry::Item { id: ID_EXIT, label: "Exit" });
    assert(out@.map_values(|e: Entry| e@) =~= menu_entries(paused, autostart));
    out
}

/// What a pick asks for.
#[derive(Debug, Clone, Copy, PartialEq, Eq, Structural)]
pub enum Pick {
    /// Nothing: the menu was clicked away.
    Dismissed,
    OpenSettings,
    OpenLog,
    Reload,
    /// Start at sign-in from now on, or no longer.
    Autostart(bool),
    /// Pause, or go on.
    Pause(bool),
    Exit,
}

/// What picking the entry of that number asks for. A tick asks for the
/// opposite of what it says.
pub open spec fn pick_of(id: usize, paused: bool, autostart: bool) -> Pick {
    if id == ID_SETTINGS {
        Pick::OpenSettings
    } else if id == ID_LOG {
        Pick::OpenLog
    } else if id == ID_RELOAD {
        Pick::Reload
    } else if id == ID_AUTOSTART {
        Pick::Autostart(!autostart)
    } else if id == ID_EXIT {
        Pick::Exit
    } else if id == ID_PAUSE {
        Pick::Pause(!paused)
    } else {
        Pick::Dismissed
    }
}

/// What picking the entry of that number asks for.
pub fn picked(id: usize, paused: bool, autostart: bool) -> (r: Pick)
    ensures
        r == pick_of(id, paused, autostart),
{
    if id == ID_SETTINGS {
        Pick::OpenSettings
    } else if id == ID_LOG {
        Pick::OpenLog
    } else if id == ID_RELOAD {
        Pick::Reload
    } else if id == ID_AUTOSTART {
        Pick::Autostart(!autostart)
    } else if id == ID_EXIT {
        Pick::Exit
    } else if id == ID_PAUSE {
        Pick::Pause(!paused)
    } else {
        Pick::Dismissed
    }
}

/// The number of an entry that can be picked.
pub open spec fn number_of(entry: EntryView) -> Option<usize> {
    match entry {
        EntryView::Title(_) | EntryView::Separator => None,
        EntryView::Item { id, .. } => Some(id),
        EntryView::Tick { id, .. } => Some(id),
    }
}

/// Clicking the menu away picks nothing, every entry that can be picked does
/// something, and no two entries do the same.
pub proof fn law_every_entry_does_its_own_thing(paused: bool, autostart: bool, i: int, j: int)
    requires
        0 <= i < menu_entries(paused, autostart).len(),
        0 <= j < menu_entries(paused, autostart).len(),
    ensures
        pick_of(ID_NOTHING, paused, autostart) == Pick::Dismissed,
        number_of(menu_entries(paused, autostart)[i]) matches Some(id) ==> {
            &&& id != ID_NOTHING
            &&& pick_of(id, paused, autostart) != Pick::Dismissed
            &&& number_of(menu_entries(paused, autostart)[j]) matches Some(other) ==> i != j
                ==> pick_of(id, paused, autostart) != pick_of(other, paused, autostart)
        },
{
}

/// Unticking a tick undoes ticking it.
pub proof fn law_ticks_are_undone_by_themselves(paused: bool, autostart: bool)
    ensures
        pick_of(ID_PAUSE, paused, autostart) matches Pick::Pause(on) && on != paused && pick_of(
            ID_PAUSE,
            on,
            autostart,
        ) == Pick::Pause(paused),
        pick_of(ID_AUTOSTART, paused, autostart) matches Pick::Autostart(on) && on != autostart
            && pick_of(ID_AUTOSTART, paused, on) == Pick::Autostart(autostart),
{
}

/// What the icon says, in words, for whoever hovers over it.
pub open spec fn words_for(status: Status) -> Seq<char> {
    match status {
        Status::Waiting => "invisible-ptt - waiting for the mouse"@,
        Status::Ready => "invisible-ptt - ready"@,
        Status::Talking => "invisible-ptt - the button is down"@,
        Status::Paused => "invisible-ptt - paused"@,
    }
}

/// What the icon says, in words, for whoever hovers over it.
pub fn tip(status: Status) -> (r: &'static str)
    ensures
        r@ == words_for(status),
{
    match status {
        Status::Waiting => "invisible-ptt - waiting for the mouse",
        Status::Ready => "invisible-ptt - ready",
        Status::Talking => "invisible-ptt - the button is down",
        Status::Paused => "invisible-ptt - paused",
    }
}

/// What became of reloading the settings.
#[derive(Debug)]
pub enum Reload {
    /// Settings for the input loop, which only ever gets good ones.
    Send(Config),
    /// A message for whoever asked. Nothing has changed.
    Refuse(String),
}

/// Reloads the settings: good ones are sent on, and bad ones are said out loud
/// while those already running stay in effect.
pub fn reload(path: &str, loaded: Loaded, lines: &mut Vec<Line>) -> (r: Reload)
    ensures
        match loaded {
            Loaded::Parsed(draft) if draft.completed().valid() => {
                &&& r matches Reload::Send(cfg) && cfg@ == draft.completed()
                &&& lines_view(final(lines)@) == lines_view(old(lines)@).push(
                    said("reload requested from the tray"@),
                )
            },
            _ => {
                let why = match loaded {
                    Loaded::Unreadable(e) => "could not read "@ + path@ + ": "@ + e@,
                    Loaded::Malformed(e) => "bad config: "@ + e@,
                    Loaded::Parsed(draft) => "bad config: "@ + draft.completed().complaint(),
                };
                &&& r matches Reload::Refuse(message) && message@ == why
                    + "\n\nNothing was changed - the settings already running are still in effect."@
                &&& lines_view(final(lines)@) == lines_view(old(lines)@).push(
                    complained("reload failed: "@ + why),
                )
            },
        },
{
    match load_config(path, loaded) {
        Ok(cfg) => {
            say(lines, "reload requested from the tray".to_owned());
            Reload::Send(cfg)
        },
        Err(why) => {
            let mut line = "reload failed: ".to_owned();
            line.append(why.as_str());
            complain(lines, line);
            let mut message = why;
            message.append(
                "\n\nNothing was changed - the settings already running are still in effect.",
            );
            Reload::Refuse(message)
        },
    }
}

/// A path in quotes, for a command line.
pub open spec fn in_quotes(path: Seq<char>) -> Seq<char> {
    "\""@ + path + "\""@
}

/// A path in quotes, for a command line.
pub fn quoted(path: &str) -> (r: String)
    ensures
        r@ == in_quotes(path@),
{
    let mut out = "\"".to_owned();
    out.append(path);
    out.append("\"");
    out
}

/// The command that starts the daemon at sign-in, with the settings that it
/// runs with now.
pub fn autostart_command(exe: &str, config: &str) -> (r: String)
    ensures
        r@ == in_quotes(exe@) + " "@ + in_quotes(config@),
{
    let mut out = quoted(exe);
    out.append(" ");
    out.append(quoted(config).as_str());
    out
}

/// What to say of a change to starting at sign-in.
pub fn autostart_line(on: bool, outcome: &Result<(), String>) -> (r: Line)
    ensures
        r@ == (match outcome {
            Ok(_) => said(
                if on {
                    "will start at sign-in"@
                } else {
                    "will no longer start at sign-in"@
                },
            ),
            Err(e) => complained("could not change start at sign-in: "@ + e@),
        }),
{
    match outcome {
        Ok(_) => {
            let text = if on {
                "will start at sign-in"
            } else {
                "will no longer start at sign-in"
            };
            Line { error: false, text: text.to_owned() }
        },
        Err(e) => {
            let mut text = "could not change start at sign-in: ".to_owned();
            text.append(e.as_str());
            Line { error: true, text }
        },
    }
}

/// The largest number with which the shell reports that something failed.
pub const SHELL_ERROR: u64 = 32;

/// Whether the shell did what it was asked, going by what it returned.
pub fn shell_succeeded(returned: u64) -> (r: bool)
    ensures
        r == (returned > SHELL_ERROR),
{
    returned > SHELL_ERROR
}

/// What to open a file in.
#[derive(Debug, Clone, Copy, PartialEq, Eq, Structural)]
pub enum Editor {
    /// What the shell opens such files with.
    Handler,
    Notepad,
}

/// What to open a file in, going by what the shell returned when it was asked
/// for the program that such files are opened with.
pub fn editor(returned: u64) -> (r: Editor)
    ensures
        r == (if returned > SHELL_ERROR {
            Editor::Handler
        } else {
            Editor::Notepad
        }),
{
    if shell_succeeded(returned) {
        Editor::Handler
    } else {
        Editor::Notepad
    }
}

/// What to say of a file that the shell was asked to open, if it did not.
pub fn open_complaint(path: &str, returned: u64) -> (r: Option<Line>)
    ensures
        match r {
            Some(line) => returned <= SHELL_ERROR && line@ == complained(
                "could not open "@ + path@ + " (ShellExecute returned "@ + decimal(returned as nat)
                    + ")"@,
            ),
            None => returned > SHELL_ERROR,
        },
{
    if shell_succeeded(returned) {
        return None;
    }
    let mut text = "could not open ".to_owned();
    text.append(path);
    text.append(" (ShellExecute returned ");
    text.append(to_decimal(returned).as_str());
    text.append(")");
    Some(Line { error: true, text })
}

/// What an entry is called.
pub open spec fn label_of(entry: EntryView) -> Seq<char> {
    match entry {
        EntryView::Title(label) => label,
        EntryView::Separator => Seq::empty(),
        EntryView::Item { label, .. } => label,
        EntryView::Tick { label, .. } => label,
    }
}

/// Every entry does what it is called, and a tick is there exactly if what it
/// says holds.
pub proof fn law_an_entry_does_what_it_is_called(paused: bool, autostart: bool, i: int)
    requires
        0 <= i < menu_entries(paused, autostart).len(),
        number_of(menu_entries(paused, autostart)[i]) is Some,
    ensures
        ({
            let entry = menu_entries(paused, autostart)[i];
            let label = label_of(entry);
            let pick = pick_of(number_of(entry)->0, paused, autostart);
            &&& pick == Pick::OpenSettings <==> label == "Open settings file"@
            &&& pick == Pick::OpenLog <==> label == "Open log file"@
            &&& pick == Pick::Reload <==> label == "Reload settings"@
            &&& pick == Pick::Autostart(!autostart) <==> label
                == "Start automatically at sign-in"@
            &&& pick == Pick::Pause(!paused) <==> label == "Pause"@
            &&& pick == Pick::Exit <==> label == "Exit"@
            &&& entry matches EntryView::Tick { on, .. } ==> on == (if label == "Pause"@ {
                paused
            } else {
                autostart
            })
            &&& entry is Tick <==> label == "Pause"@ || label == "Start automatically at sign-in"@
        }),
{
    reveal_strlit("Open settings file");
    reveal_strlit("Open log file");
    reveal_strlit("Reload settings");
    reveal_strlit("Start automatically at sign-in");
    reveal_strlit("Pause");
    reveal_strlit("Exit");
    assert("Pause"@.len() == 5 && "Exit"@.len() == 4 && "Open settings file"@.len() == 18
        && "Open log file"@.len() == 13 && "Reload settings"@.len() == 15
        && "Start automatically at sign-in"@.len() == 30);
}

/// The menu has an entry for each of the six things that can be picked.
pub proof fn law_everything_can_be_picked(paused: bool, autostart: bool, pick: Pick)
    requires
        pick != Pick::Dismissed,
        pick matches Pick::Pause(on) ==> on != paused,
        pick matches Pick::Autostart(on) ==> on != autostart,
    ensures
        exists|i: int|
            0 <= i < menu_entries(paused, autostart).len() && number_of(
                #[trigger] menu_entries(paused, autostart)[i],
            ) is Some && pick_of(
                number_of(menu_entries(paused, autostart)[i])->0,
                paused,
                autostart,
            ) == pick,
{
    let entries = menu_entries(paused, autostart);
    assert(number_of(entries[2]) == Some(ID_PAUSE));
    assert(number_of(entries[3]) == Some(ID_SETTINGS));
    assert(number_of(entries[4]) == Some(ID_LOG));
    assert(number_of(entries[5]) == Some(ID_RELOAD));
    assert(number_of(entries[6]) == Some(ID_AUTOSTART));
    assert(number_of(entries[8]) == Some(ID_EXIT));
}

/// Each status has words of its own.
pub proof fn law_every_status_has_its_own_words(a: Status, b: Status)
    ensures
        words_for(a) == words_for(b) ==> a == b,
        "invisible-ptt - "@.is_prefix_of(words_for(a)),
{
    reveal_strlit("invisible-ptt - ");
    reveal_strlit("invisible-ptt - waiting for the mouse");
    reveal_strlit("invisible-ptt - ready");
    reveal_strlit("invisible-ptt - the button is down");
    reveal_strlit("invisible-ptt - paused");
    assert("invisible-ptt - ready"@.len() == 21 && "invisible-ptt - paused"@.len() == 22
        && "invisible-ptt - waiting for the mouse"@.len() == 37
        && "invisible-ptt - the button is down"@.len() == 34);
    assert("invisible-ptt - "@ =~= words_for(a).take(16));
}

/// A path in quotes is the path between two quotes.
pub proof fn law_quotes_go_around_a_path(path: Seq<char>)
    ensures
        in_quotes(path).len() == path.len() + 2,
        in_quotes(path).first() == '"',
        in_quotes(path).last() == '"',
        in_quotes(path).subrange(1, path.len() as int + 1) == path,
{
    reveal_strlit("\"");
    assert(in_quotes(path).subrange(1, path.len() as int + 1) =~= path);
}

/// Reloading sends on exactly the settings that can be loaded, as they are.
/// Otherwise it says why not, in a message and in the log, and sends nothing.
/// Either way it is one line more.
pub proof fn law_only_good_settings_are_sent(
    path: &str,
    loaded: Loaded,
    lines: &mut Vec<Line>,
    r: Reload,
)
    requires
        call_ensures(reload, (path, loaded, lines), r),
    ensures
        ({
            let good = loaded matches Loaded::Parsed(draft) && {
                let cfg = draft.completed();
                1 <= cfg.mapping.len() <= 16 && cfg.button < cfg.mapping.len()
            };
            let (before, after) = (lines_view(old(lines)@), lines_view(final(lines)@));
            &&& r is Send <==> good
            &&& r matches Reload::Send(cfg) ==> cfg@ == loaded->Parsed_0.completed()
            &&& after.len() == before.len() + 1
            &&& after.drop_last() == before
            &&& after.last().error == !good
            &&& r matches Reload::Refuse(message) ==> exists|why: Seq<char>|
                after.last().text == "reload failed: "@ + why && #[trigger] why.is_prefix_of(
                    message@,
                ) && why != message@
        }),
{
    let (before, after) = (lines_view(old(lines)@), lines_view(final(lines)@));
    assert(after.drop_last() =~= before);
    if let Reload::Refuse(message) = r {
        let why = match loaded {
            Loaded::Unreadable(e) => "could not read "@ + path@ + ": "@ + e@,
            Loaded::Malformed(e) => "bad config: "@ + e@,
            Loaded::Parsed(draft) => "bad config: "@ + draft.completed().complaint(),
        };
        reveal_strlit(
            "\n\nNothing was changed - the settings already running are still in effect.",
        );
        assert(why =~= message@.take(why.len() as int));
        assert(why.is_prefix_of(message@));
        assert(why.len() < message@.len());
    }
}

/// At sign-in the program is started with its settings: both paths are in
/// quotes, the program's first, with a space between.
pub proof fn law_what_is_started_at_sign_in(exe: &str, config: &str, r: String)
    requires
        call_ensures(autostart_command, (exe, config), r),
    ensures
        ({
            let n = exe@.len() as int;
            let m = config@.len() as int;
            &&& r@.len() == n + m + 5
            &&& r@[0] == '"' && r@.subrange(1, n + 1) == exe@ && r@[n + 1] == '"'
            &&& r@[n + 2] == ' '
            &&& r@[n + 3] == '"' && r@.subrange(n + 4, n + m + 4) == config@ && r@[n + m + 4] == '"'
        }),
{
    reveal_strlit("\"");
    reveal_strlit(" ");
    let n = exe@.len() as int;
    let m = config@.len() as int;
    assert(r@.subrange(1, n + 1) =~= exe@);
    assert(r@.subrange(n + 4, n + m + 4) =~= config@);
}

/// A change to starting at sign-in that went through is said as it was asked
/// for, and one that did not is complained about with the reason.
pub proof fn law_a_change_is_said_as_it_went(on: bool, outcome: &Result<(), String>, r: Line)
    requires
        call_ensures(autostart_line, (on, outcome), r),
    ensures
        r@.error <==> outcome is Err,
        outcome is Ok && on ==> r@.text == "will start at sign-in"@,
        outcome is Ok && !on ==> r@.text == "will no longer start at sign-in"@,
        outcome matches Err(e) ==> r@.text == "could not change start at sign-in: "@ + e@,
{
}

/// Up to 32 the shell reports a failure. Then a file is opened in Notepad, and
/// one that could not be opened is named along with the number.
pub proof fn law_what_the_shell_reports(
    path: &str,
    returned: u64,
    succeeded: bool,
    chosen: Editor,
    complaint: Option<Line>,
)
    requires
        call_ensures(shell_succeeded, (returned,), succeeded),
        call_ensures(editor, (returned,), chosen),
        call_ensures(open_complaint, (path, returned), complaint),
    ensures
        succeeded <==> returned > 32,
        chosen == Editor::Notepad <==> returned <= 32,
        complaint is Some <==> returned <= 32,
        complaint matches Some(line) ==> line@.error && ("could not open "@
            + path@).is_prefix_of(line@.text),
{
    if let Some(line) = complaint {
        let lead = "could not open "@ + path@;
        assert(lead =~= line@.text.take(lead.len() as int));
    }
}

} // verus!
