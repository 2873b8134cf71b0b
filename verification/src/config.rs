//! The settings file: what it says, what it may say, and what it means where
//! it says nothing.

use vstd::prelude::*;
use vstd::string::*;

use crate::action::{
    action_of, action_warnings, compiled_view, law_an_action_may_be_spelt_loosely, parse_action,
    picked, warn_about_action, Action,
};
use crate::log::{lines_view, Line, LineView};
use crate::text::{decimal, lower, same, to_decimal, to_lower};

verus! {

/// A long HID++ frame carries 16 parameter bytes, one per button, and the spy
/// reports button state as a 16-bit mask. Nothing here can address more.
pub const MAX_BUTTONS: usize = 16;

/// What holding the button does in one application.
#[derive(Debug, Clone)]
pub struct Rule {
    /// Executable name, of any case, such as `chrome.exe`.
    pub process: String,
    pub action: String,
}

#[verifier::ext_equal]
pub struct RuleView {
    pub process: Seq<char>,
    pub action: Seq<char>,
}

impl View for Rule {
    type V = RuleView;

    open spec fn view(&self) -> RuleView {
        RuleView { process: self.process@, action: self.action@ }
    }
}

/// Credentials for Discord. Every one of them may be empty.
#[derive(Debug, Clone)]
pub struct DiscordCfg {
    pub client_id: String,
    pub client_secret: String,
    pub access_token: String,
    /// Long-lived token that mints a fresh access token. It rotates on each
    /// refresh, so it is written back to the settings file.
    pub refresh_token: String,
}

#[verifier::ext_equal]
pub struct DiscordView {
    pub client_id: Seq<char>,
    pub client_secret: Seq<char>,
    pub access_token: Seq<char>,
    pub refresh_token: Seq<char>,
}

impl View for DiscordCfg {
    type V = DiscordView;

    open spec fn view(&self) -> DiscordView {
        DiscordView {
            client_id: self.client_id@,
            client_secret: self.client_secret@,
            access_token: self.access_token@,
            refresh_token: self.refresh_token@,
        }
    }
}

impl Default for DiscordCfg {
    fn default() -> (r: DiscordCfg)
        ensures
            r@ == (DiscordView {
                client_id: Seq::empty(),
                client_secret: Seq::empty(),
                access_token: Seq::empty(),
                refresh_token: Seq::empty(),
            }),
    {
        DiscordCfg {
            client_id: String::new(),
            client_secret: String::new(),
            access_token: String::new(),
            refresh_token: String::new(),
        }
    }
}

impl DiscordCfg {
    /// A second copy of the same credentials.
    pub fn duplicate(&self) -> (r: DiscordCfg)
        ensures
            r@ == self@,
    {
        DiscordCfg {
            client_id: self.client_id.clone(),
            client_secret: self.client_secret.clone(),
            access_token: self.access_token.clone(),
            refresh_token: self.refresh_token.clone(),
        }
    }
}

impl DiscordView {
    /// Whether a connection made with `old` has to be made again. The client
    /// secret plays no part in a connection.
    pub open spec fn differs_from(self, old: DiscordView) -> bool {
        ||| self.client_id != old.client_id
        ||| self.access_token != old.access_token
        ||| self.refresh_token != old.refresh_token
    }
}

/// Whether a connection made with `old` has to be made again with `new`.
pub fn credentials_changed(new: &DiscordCfg, old: &DiscordCfg) -> (r: bool)
    ensures
        r == new@.differs_from(old@),
{
    !same(new.client_id.as_str(), old.client_id.as_str()) || !same(
        new.access_token.as_str(),
        old.access_token.as_str(),
    ) || !same(new.refresh_token.as_str(), old.refresh_token.as_str())
}

/// The daemon's settings.
#[derive(Debug)]
pub struct Config {
    /// Spy index of the button to hijack: 0 left, 1 right, 2 middle, 3 back,
    /// 4 forward.
    pub button: u8,
    /// One entry per physical button: 0 hides it from the system, 1 to 16 are
    /// ordinary buttons.
    pub mapping: Vec<u8>,
    /// Used when the foreground process matches no rule.
    pub default_action: String,
    pub rules: Vec<Rule>,
    pub discord: DiscordCfg,
}

#[verifier::ext_equal]
pub struct ConfigView {
    pub button: u8,
    pub mapping: Seq<u8>,
    pub default_action: Seq<char>,
    pub rules: Seq<RuleView>,
    pub discord: DiscordView,
}

impl View for Config {
    type V = ConfigView;

    open spec fn view(&self) -> ConfigView {
        ConfigView {
            button: self.button,
            mapping: self.mapping@,
            default_action: self.default_action@,
            rules: self.rules@.map_values(|r: Rule| r@),
            discord: self.discord@,
        }
    }
}

/// Rules as they are matched: names in small letters, actions read.
pub type Compiled = Vec<(String, Action)>;

impl ConfigView {
    /// A mapping that fits the parameters of a frame.
    pub open spec fn fits_frame(self) -> bool {
        self.mapping.len() <= MAX_BUTTONS
    }

    /// A mapping that fits a frame, and a button that the mapping covers.
    pub open spec fn valid(self) -> bool {
        &&& 1 <= self.mapping.len() <= MAX_BUTTONS
        &&& self.button < self.mapping.len()
    }

    /// Whether the mapping hides the button that is being watched.
    pub open spec fn hides_button(self) -> bool {
        self.button < self.mapping.len() && self.mapping[self.button as int] == 0
    }

    /// The rules in the form in which they are matched.
    pub open spec fn compiled(self) -> Seq<(Seq<char>, Action)> {
        self.rules.map_values(|r: RuleView| (lower(r.process), action_of(r.action)))
    }

    /// The bit of the spy's button mask that belongs to the button.
    pub open spec fn bit(self) -> u16 {
        1u16 << self.button
    }

    /// The warnings that misspelt actions deserve, the default's first.
    pub open spec fn warnings(self) -> Seq<LineView> {
        action_warnings(self.default_action) + rule_warnings(self.rules)
    }

    /// What is wrong with settings that are not valid, in words.
    pub open spec fn complaint(self) -> Seq<char> {
        if self.mapping.len() == 0 || self.mapping.len() > MAX_BUTTONS {
            "mapping has "@ + decimal(self.mapping.len())
                + " entries; it needs one per physical button, 1 to "@ + decimal(
                MAX_BUTTONS as nat,
            )
        } else {
            "button = "@ + decimal(self.button as nat)
                + " but the mapping only covers buttons 0 to "@ + decimal(
                (self.mapping.len() - 1) as nat,
            )
        }
    }

    /// Whether the button is hidden, in words.
    pub open spec fn visibility(self) -> Seq<char> {
        if self.hides_button() {
            "button "@ + decimal(self.button as nat) + " is invisible to the OS"@
        } else {
            "button "@ + decimal(self.button as nat)
                + " still reaches Windows normally - put a 0 in mapping["@ + decimal(
                self.button as nat,
            ) + "] to hide it"@
        }
    }
}

impl Config {
    /// Rejects settings that would run off the end of a frame or watch a
    /// button that cannot be reported, saying why.
    pub fn validate(&self) -> (r: Result<(), String>)
        ensures
            match r {
                Ok(_) => self@.valid(),
                Err(why) => !self@.valid() && why@ == self@.complaint(),
            },
    {
        if self.mapping.len() == 0 || self.mapping.len() > MAX_BUTTONS {
            let mut why = "mapping has ".to_owned();
            why.append(to_decimal(self.mapping.len() as u64).as_str());
            why.append(" entries; it needs one per physical button, 1 to ");
            why.append(to_decimal(MAX_BUTTONS as u64).as_str());
            return Err(why);
        }
        if self.button as usize >= self.mapping.len() {
            let mut why = "button = ".to_owned();
            why.append(to_decimal(self.button as u64).as_str());
            why.append(" but the mapping only covers buttons 0 to ");
            why.append(to_decimal((self.mapping.len() - 1) as u64).as_str());
            return Err(why);
        }
        Ok(())
    }

    /// The bit of the spy's button mask that belongs to the button.
    pub fn bit(&self) -> (r: u16)
        requires
            self@.valid(),
        ensures
            r == self@.bit(),
    {
        1u16 << self.button
    }
}

/// The rules of `cfg` with their names in small letters and their actions
/// read, so that matching a foreground process is a plain comparison.
pub fn compile_rules(cfg: &Config) -> (r: Compiled)
    ensures
        compiled_view(r@) == cfg@.compiled(),
{
    let mut out: Compiled = Vec::new();
    let mut i: usize = 0;
    while i < cfg.rules.len()
        invariant
            i <= cfg.rules@.len(),
            compiled_view(out@) == cfg@.compiled().take(i as int),
        decreases cfg.rules@.len() - i,
    {
        let rule = &cfg.rules[i];
        let ghost before = out@;
        out.push((to_lower(rule.process.as_str()), parse_action(rule.action.as_str())));
        assert(compiled_view(out@) =~= compiled_view(before).push(cfg@.compiled()[i as int]));
        i += 1;
    }
    assert(cfg@.compiled().take(i as int) =~= cfg@.compiled());
    out
}

/// The warnings that the actions of `rules` deserve.
pub open spec fn rule_warnings(rules: Seq<RuleView>) -> Seq<LineView>
    decreases rules.len(),
{
    if rules.len() == 0 {
        Seq::empty()
    } else {
        rule_warnings(rules.drop_last()) + action_warnings(rules.last().action)
    }
}

/// Adds a warning for each action in `cfg` that spells nothing.
pub fn warn_about_config(cfg: &Config, lines: &mut Vec<Line>)
    ensures
        lines_view(final(lines)@) == lines_view(old(lines)@) + cfg@.warnings(),
{
    let ghost before = lines_view(lines@);
    warn_about_action(cfg.default_action.as_str(), lines);
    let mut i: usize = 0;
    assert(lines_view(lines@) =~= before + action_warnings(cfg@.default_action) + rule_warnings(
        cfg@.rules.take(0),
    ));
    while i < cfg.rules.len()
        invariant
            i <= cfg.rules@.len(),
            lines_view(lines@) == before + action_warnings(cfg@.default_action) + rule_warnings(
                cfg@.rules.take(i as int),
            ),
        decreases cfg.rules@.len() - i,
    {
        let ghost so_far = lines_view(lines@);
        warn_about_action(cfg.rules[i].action.as_str(), lines);
        proof {
            let rules = cfg@.rules;
            assert(rules.take(i + 1).drop_last() =~= rules.take(i as int));
            assert(so_far + action_warnings(rules[i as int].action) =~= before + action_warnings(
                cfg@.default_action,
            ) + rule_warnings(rules.take(i + 1)));
        }
        i += 1;
    }
    assert(cfg@.rules.take(i as int) =~= cfg@.rules);
    assert(lines_view(lines@) =~= before + cfg@.warnings());
}

/// Whether the mapping actually hides the button being watched, in words.
///
/// Hiding it takes two edits, the `0` in the mapping and an action, and doing
/// only the second is the easy mistake.
pub fn report_visibility(cfg: &Config) -> (r: String)
    ensures
        r@ == cfg@.visibility(),
{
    let mut line = "button ".to_owned();
    line.append(to_decimal(cfg.button as u64).as_str());
    if (cfg.button as usize) < cfg.mapping.len() && cfg.mapping[cfg.button as usize] == 0 {
        line.append(" is invisible to the OS");
    } else {
        line.append(" still reaches Windows normally - put a 0 in mapping[");
        line.append(to_decimal(cfg.button as u64).as_str());
        line.append("] to hide it");
    }
    line
}

/// What is done where the settings say nothing about it.
pub open spec fn absent_action() -> Seq<char> {
    "none"@
}

/// What is done where the settings say nothing about it.
pub fn default_action() -> (r: String)
    ensures
        r@ == absent_action(),
{
    "none".to_owned()
}

/// Credentials as the settings file gives them, some of them perhaps not.
#[derive(Debug)]
pub struct DiscordDraft {
    pub client_id: Option<String>,
    pub client_secret: Option<String>,
    pub access_token: Option<String>,
    pub refresh_token: Option<String>,
}

/// Settings as the file gives them, some of them perhaps not.
#[derive(Debug)]
pub struct Draft {
    pub button: u8,
    pub mapping: Vec<u8>,
    pub default_action: Option<String>,
    pub rules: Option<Vec<Rule>>,
    pub discord: Option<DiscordDraft>,
}

/// A text, or the one that stands in for it.
pub open spec fn text_or(text: Option<String>, otherwise: Seq<char>) -> Seq<char> {
    match text {
        Some(t) => t@,
        None => otherwise,
    }
}

impl DiscordDraft {
    /// What is not given is empty.
    pub open spec fn completed(self) -> DiscordView {
        DiscordView {
            client_id: text_or(self.client_id, Seq::empty()),
            client_secret: text_or(self.client_secret, Seq::empty()),
            access_token: text_or(self.access_token, Seq::empty()),
            refresh_token: text_or(self.refresh_token, Seq::empty()),
        }
    }

    /// The credentials, with what is not given left empty.
    pub fn complete(self) -> (r: DiscordCfg)
        ensures
            r@ == self.completed(),
    {
        DiscordCfg {
            client_id: given(self.client_id),
            client_secret: given(self.client_secret),
            access_token: given(self.access_token),
            refresh_token: given(self.refresh_token),
        }
    }
}

fn given(text: Option<String>) -> (r: String)
    ensures
        r@ == text_or(text, Seq::empty()),
{
    match text {
        Some(t) => t,
        None => String::new(),
    }
}

impl Draft {
    /// What is not given does nothing: no action, no rules, no credentials.
    pub open spec fn completed(self) -> ConfigView {
        ConfigView {
            button: self.button,
            mapping: self.mapping@,
            default_action: text_or(self.default_action, absent_action()),
            rules: match self.rules {
                Some(rules) => rules@.map_values(|r: Rule| r@),
                None => Seq::empty(),
            },
            discord: match self.discord {
                Some(discord) => discord.completed(),
                None => DiscordView {
                    client_id: Seq::empty(),
                    client_secret: Seq::empty(),
                    access_token: Seq::empty(),
                    refresh_token: Seq::empty(),
                },
            },
        }
    }

    /// The settings, with what is not given filled in.
    pub fn complete(self) -> (r: Config)
        ensures
            r@ == self.completed(),
    {
        let action = match self.default_action {
            Some(action) => action,
            None => default_action(),
        };
        let rules = match self.rules {
            Some(rules) => rules,
            None => Vec::new(),
        };
        let discord = match self.discord {
            Some(discord) => discord.complete(),
            None => DiscordCfg::default(),
        };
        let cfg = Config {
            button: self.button,
            mapping: self.mapping,
            default_action: action,
            rules,
            discord,
        };
        assert(cfg@.rules =~= self.completed().rules);
        cfg
    }
}

impl ConfigView {
    /// The same settings with other tokens.
    pub open spec fn with_tokens(self, access: Seq<char>, refresh: Seq<char>) -> ConfigView {
        ConfigView {
            discord: DiscordView { access_token: access, refresh_token: refresh, ..self.discord },
            ..self
        }
    }
}

impl Config {
    /// Takes on tokens that have been traded for the old ones.
    pub fn adopt_tokens(&mut self, access: String, refresh: String)
        ensures
            final(self)@ == old(self)@.with_tokens(access@, refresh@),
    {
        self.discord.access_token = access;
        self.discord.refresh_token = refresh;
    }
}

/// What reading the settings file came to.
#[derive(Debug)]
pub enum Loaded {
    /// It could not be read.
    Unreadable(String),
    /// What it holds are no settings.
    Malformed(String),
    Parsed(Draft),
}

/// The settings in a file, or what is wrong with it, in a sentence fit for a
/// message box.
pub fn load_config(path: &str, loaded: Loaded) -> (r: Result<Config, String>)
    ensures
        match loaded {
            Loaded::Unreadable(e) => r matches Err(why) && why@ == "could not read "@ + path@
                + ": "@ + e@,
            Loaded::Malformed(e) => r matches Err(why) && why@ == "bad config: "@ + e@,
            Loaded::Parsed(draft) => if draft.completed().valid() {
                r matches Ok(cfg) && cfg@ == draft.completed()
            } else {
                r matches Err(why) && why@ == "bad config: "@ + draft.completed().complaint()
            },
        },
{
    match loaded {
        Loaded::Unreadable(e) => {
            let mut why = "could not read ".to_owned();
            why.append(path);
            why.append(": ");
            why.append(e.as_str());
            Err(why)
        },
        Loaded::Malformed(e) => Err(bad_config(e.as_str())),
        Loaded::Parsed(draft) => {
            let cfg = draft.complete();
            match cfg.validate() {
                Ok(_) => Ok(cfg),
                Err(e) => Err(bad_config(e.as_str())),
            }
        },
    }
}

fn bad_config(e: &str) -> (r: String)
    ensures
        r@ == "bad config: "@ + e@,
{
    let mut why = "bad config: ".to_owned();
    why.append(e);
    why
}

/// Where the settings are.
#[derive(Debug, Clone, Copy, PartialEq, Eq, Structural)]
pub enum Place {
    /// Where the command line says.
    Argument,
    /// Beside the executable.
    Beside,
    /// In the user's own directory.
    User,
}

/// Where the settings are, if there is a place for them: what the command line
/// says always wins, and a file beside the executable does if it is there
/// already. It is never the working directory, which is wherever the shell
/// left it.
pub fn config_path(argument: bool, beside: bool, user: bool) -> (r: Option<Place>)
    ensures
        argument ==> r == Some(Place::Argument),
        !argument && beside ==> r == Some(Place::Beside),
        !argument && !beside && user ==> r == Some(Place::User),
        !argument && !beside && !user ==> r is None,
{
    if argument {
        Some(Place::Argument)
    } else if beside {
        Some(Place::Beside)
    } else if user {
        Some(Place::User)
    } else {
        None
    }
}

/// The settings of a first run. They are inert: nothing is hidden and nothing
/// is done. Installing the daemon must not be the moment at which a browser's
/// back button stops working.
pub open spec fn starter_settings() -> ConfigView {
    ConfigView {
        button: 3,
        mapping: seq![1, 2, 3, 4, 5],
        default_action: absent_action(),
        rules: Seq::empty(),
        discord: DiscordView {
            client_id: Seq::empty(),
            client_secret: Seq::empty(),
            access_token: Seq::empty(),
            refresh_token: Seq::empty(),
        },
    }
}

pub const ABOUT_THE_FILE: &'static str = "\
# invisible-ptt settings. As they stand they change nothing.
#
# To make a button push-to-talk:
#   1. say which one under `button`;
#   2. put a 0 in its place in `mapping`, which hides it from the system;
#   3. say what holding it does, under `default_action` or in a rule.
# After that, choose Reload settings in the tray menu.
";

pub const ABOUT_THE_BUTTON: &'static str = "\
# The button: 0 left, 1 right, 2 middle, 3 back, 4 forward.
";

pub const ABOUT_THE_MAPPING: &'static str = "\
# One entry per physical button, in that order. A 0 hides the button.
";

pub const ABOUT_ACTIONS: &'static str = "\
# none   does nothing
# rpc    unmutes Discord while the button is held (see [discord])
# key:X  holds down a key: a letter or digit, a name such as F13, or 0x7c
";

pub const ABOUT_RULES: &'static str = "\
# What holding the button does in one application only.
# [[rules]]
# process = \"game.exe\"
# action = \"key:V\"
";

pub const ABOUT_DISCORD: &'static str = "\
# What `rpc` takes.
";

/// Numbers in a row.
pub open spec fn listed(codes: Seq<u8>) -> Seq<char>
    decreases codes.len(),
{
    if codes.len() == 0 {
        Seq::empty()
    } else if codes.len() == 1 {
        decimal(codes[0] as nat)
    } else {
        listed(codes.drop_last()) + ", "@ + decimal(codes.last() as nat)
    }
}

/// A line that gives a number.
pub open spec fn number_line(key: Seq<char>, n: nat) -> Seq<char> {
    key + " = "@ + decimal(n) + "\n"@
}

/// A line that gives a list of numbers.
pub open spec fn list_line(key: Seq<char>, codes: Seq<u8>) -> Seq<char> {
    key + " = ["@ + listed(codes) + "]\n"@
}

/// A line that gives a text with nothing in it that needs escaping.
pub open spec fn text_line(key: Seq<char>, text: Seq<char>) -> Seq<char> {
    key + " = \""@ + text + "\"\n"@
}

/// A file that gives these settings, which have no rules, each with a note on
/// it.
pub open spec fn spelled(cfg: ConfigView) -> Seq<char> {
    ABOUT_THE_FILE@ + "\n"@ + ABOUT_THE_BUTTON@ + number_line("button"@, cfg.button as nat) + "\n"@
        + ABOUT_THE_MAPPING@ + list_line("mapping"@, cfg.mapping) + "\n"@ + ABOUT_ACTIONS@
        + text_line("default_action"@, cfg.default_action) + "\n"@ + ABOUT_RULES@ + "\n"@
        + ABOUT_DISCORD@ + "[discord]\n"@ + text_line("client_id"@, cfg.discord.client_id)
        + text_line("client_secret"@, cfg.discord.client_secret) + text_line(
        "access_token"@,
        cfg.discord.access_token,
    ) + text_line("refresh_token"@, cfg.discord.refresh_token)
}

fn append_list(out: &mut String, codes: &Vec<u8>)
    ensures
        final(out)@ == old(out)@ + listed(codes@),
{
    let ghost before = out@;
    let mut i: usize = 0;
    assert(out@ =~= before + listed(codes@.take(0)));
    while i < codes.len()
        invariant
            i <= codes@.len(),
            out@ == before + listed(codes@.take(i as int)),
        decreases codes@.len() - i,
    {
        let ghost so_far = out@;
        proof {
            assert(codes@.take(i + 1).drop_last() =~= codes@.take(i as int));
            assert(codes@.take(i + 1).last() == codes@[i as int]);
        }
        if i > 0 {
            out.append(", ");
        }
        out.append(to_decimal(codes[i] as u64).as_str());
        i += 1;
        assert(out@ =~= before + listed(codes@.take(i as int)));
    }
    assert(codes@.take(i as int) =~= codes@);
}

fn append_text_line(out: &mut String, key: &str, text: &str)
    ensures
        final(out)@ == old(out)@ + text_line(key@, text@),
{
    let ghost before = out@;
    out.append(key);
    out.append(" = \"");
    out.append(text);
    out.append("\"\n");
    assert(out@ =~= before + text_line(key@, text@));
}

/// A file that gives these settings, each with a note on it. The rules are
/// left out.
fn spell(cfg: &Config) -> (r: String)
    ensures
        r@ == spelled(cfg@),
{
    let mut out = ABOUT_THE_FILE.to_owned();
    out.append("\n");
    out.append(ABOUT_THE_BUTTON);
    let ghost so_far = out@;
    out.append("button");
    out.append(" = ");
    out.append(to_decimal(cfg.button as u64).as_str());
    out.append("\n");
    assert(out@ =~= so_far + number_line("button"@, cfg.button as nat));
    out.append("\n");
    out.append(ABOUT_THE_MAPPING);
    let ghost so_far = out@;
    out.append("mapping");
    out.append(" = [");
    append_list(&mut out, &cfg.mapping);
    out.append("]\n");
    assert(out@ =~= so_far + list_line("mapping"@, cfg@.mapping));
    out.append("\n");
    out.append(ABOUT_ACTIONS);
    append_text_line(&mut out, "default_action", cfg.default_action.as_str());
    out.append("\n");
    out.append(ABOUT_RULES);
    out.append("\n");
    out.append(ABOUT_DISCORD);
    out.append("[discord]\n");
    append_text_line(&mut out, "client_id", cfg.discord.client_id.as_str());
    append_text_line(&mut out, "client_secret", cfg.discord.client_secret.as_str());
    append_text_line(&mut out, "access_token", cfg.discord.access_token.as_str());
    append_text_line(&mut out, "refresh_token", cfg.discord.refresh_token.as_str());
    out
}

/// What is written on a first run: a file that gives the starter settings.
pub fn starter() -> (r: String)
    ensures
        r@ == spelled(starter_settings()),
{
    let cfg = Config {
        button: 3,
        mapping: vec![1, 2, 3, 4, 5],
        default_action: default_action(),
        rules: Vec::new(),
        discord: DiscordCfg::default(),
    };
    assert(cfg@.mapping =~= starter_settings().mapping);
    assert(cfg@.rules =~= starter_settings().rules);
    spell(&cfg)
}

/// A file that is read as giving the starter settings loads, leaves every
/// button with the system and does nothing in any application.
pub proof fn law_the_starter_loads_and_is_inert(draft: Draft, exe: Option<Seq<char>>)
    requires
        draft.completed() == starter_settings(),
    ensures
        draft.completed().valid(),
        forall|i: int|
            0 <= i < draft.completed().mapping.len() ==> draft.completed().mapping[i] != 0,
        action_of(draft.completed().default_action) == Action::Nothing,
        draft.completed().rules.len() == 0,
        !draft.completed().hides_button(),
        picked(
            exe,
            draft.completed().compiled(),
            action_of(draft.completed().default_action),
        ) == Action::Nothing,
{
    lemma_none_is_nothing();
    law_inert_settings_do_nothing(draft.completed(), exe);
}

proof fn lemma_none_is_nothing()
    ensures
        action_of(absent_action()) == Action::Nothing,
{
    let none = absent_action();
    assert(Seq::<char>::empty() + none + Seq::empty() =~= none);
    reveal_strlit("none");
    assert(lower(none) =~= none);
    law_an_action_may_be_spelt_loosely(Seq::empty(), none, Seq::empty());
}

/// Settings that hide no button, set no action and have no rules leave every
/// button with the system and do nothing in any application.
pub proof fn law_inert_settings_do_nothing(cfg: ConfigView, exe: Option<Seq<char>>)
    requires
        cfg.valid(),
        forall|i: int| 0 <= i < cfg.mapping.len() ==> cfg.mapping[i] != 0,
        action_of(cfg.default_action) == Action::Nothing,
        cfg.rules.len() == 0,
    ensures
        !cfg.hides_button(),
        picked(exe, cfg.compiled(), action_of(cfg.default_action)) == Action::Nothing,
{
}

/// Where a file gives nothing but a button and a mapping, it sets no action.
pub proof fn law_what_is_not_given_does_nothing(draft: Draft, exe: Option<Seq<char>>)
    requires
        draft.default_action is None,
        draft.rules is None,
    ensures
        picked(
            exe,
            draft.completed().compiled(),
            action_of(draft.completed().default_action),
        ) == Action::Nothing,
{
    lemma_none_is_nothing();
}

/// Settings are good exactly if their mapping has an entry for each of one to
/// sixteen buttons and the button is one of those.
pub proof fn law_which_settings_are_good(cfg: ConfigView)
    ensures
        cfg.valid() <==> 1 <= cfg.mapping.len() <= 16 && cfg.button < cfg.mapping.len(),
        cfg.valid() ==> cfg.fits_frame(),
        cfg.fits_frame() <==> cfg.mapping.len() <= 16,
{
}

/// Every button that settings can name has a bit of its own in sixteen, the
/// lowest for the first and each twice the one before.
pub proof fn law_every_button_has_its_own_bit(cfg: ConfigView, next: ConfigView)
    requires
        cfg.valid(),
        next.valid(),
    ensures
        cfg.button == 0 ==> cfg.bit() == 1,
        next.button == cfg.button + 1 ==> next.bit() == 2 * cfg.bit(),
        cfg.bit() != 0,
        cfg.button != next.button ==> cfg.bit() & next.bit() == 0,
{
    let (a, b) = (cfg.button, next.button);
    assert(a == 0 ==> 1u16 << a == 1) by (bit_vector);
    assert(a < 15 && b == a + 1 ==> 1u16 << b == 2 * (1u16 << a)) by (bit_vector);
    assert(a < 16 ==> 1u16 << a != 0) by (bit_vector);
    assert(a < 16 && b < 16 && a != b ==> (1u16 << a) & (1u16 << b) == 0) by (bit_vector);
}

/// A button is hidden exactly by a zero in its place in the mapping, whatever
/// stands in the other places, and that is what is said of it.
pub proof fn law_a_zero_hides_the_button(cfg: ConfigView)
    requires
        cfg.valid(),
    ensures
        cfg.hides_button() <==> cfg.mapping[cfg.button as int] == 0,
        cfg.hides_button() ==> cfg.visibility() == "button "@ + decimal(cfg.button as nat)
            + " is invisible to the OS"@,
        !cfg.hides_button() ==> cfg.visibility().take(7 + decimal(cfg.button as nat).len() as int)
            == "button "@ + decimal(cfg.button as nat) && cfg.visibility().len() > 30 + decimal(
            cfg.button as nat,
        ).len(),
{
    reveal_strlit("button ");
    reveal_strlit(" still reaches Windows normally - put a 0 in mapping[");
    if !cfg.hides_button() {
        let n = 7 + decimal(cfg.button as nat).len() as int;
        assert(cfg.visibility().take(n) =~= "button "@ + decimal(cfg.button as nat));
    }
}

/// Each rule is matched by its own name in small letters and stands for its
/// own action, in the order of the file.
pub proof fn law_every_rule_keeps_its_place(cfg: ConfigView, i: int)
    requires
        0 <= i < cfg.rules.len(),
    ensures
        cfg.compiled().len() == cfg.rules.len(),
        cfg.compiled()[i].0 == lower(cfg.rules[i].process),
        cfg.compiled()[i].1 == action_of(cfg.rules[i].action),
{
}

/// Whether an action is misspelt.
pub open spec fn is_misspelt(action: Seq<char>) -> bool {
    crate::action::recognised(action) is None
}

proof fn lemma_rule_warnings(rules: Seq<RuleView>)
    ensures
        rule_warnings(rules).len() == rules.filter(|r: RuleView| is_misspelt(r.action)).len(),
        forall|i: int|
            0 <= i < rule_warnings(rules).len() ==> (#[trigger] rule_warnings(rules)[i]).error,
    decreases rules.len(),
{
    reveal(Seq::filter);
    if rules.len() > 0 {
        lemma_rule_warnings(rules.drop_last());
    }
}

/// There is a warning for each action that is misspelt and for no other, and
/// the default's comes first.
pub proof fn law_every_misspelt_action_is_pointed_out(cfg: ConfigView)
    ensures
        cfg.warnings().len() == cfg.rules.filter(|r: RuleView| is_misspelt(r.action)).len() + (if is_misspelt(
            cfg.default_action,
        ) {
            1nat
        } else {
            0nat
        }),
        is_misspelt(cfg.default_action) ==> cfg.warnings()[0] == action_warnings(
            cfg.default_action,
        )[0],
        forall|i: int| 0 <= i < cfg.warnings().len() ==> (#[trigger] cfg.warnings()[i]).error,
{
    lemma_rule_warnings(cfg.rules);
    assert forall|i: int| 0 <= i < cfg.warnings().len() implies (
    #[trigger] cfg.warnings()[i]).error by {
        let first = action_warnings(cfg.default_action);
        if i >= first.len() {
            assert(cfg.warnings()[i] == rule_warnings(cfg.rules)[i - first.len()]);
        }
    }
}

/// A connection is made anew exactly if the id or a token is another. The
/// secret makes no difference.
pub proof fn law_what_calls_for_a_new_connection(new: DiscordView, old: DiscordView, secret: Seq<char>)
    ensures
        !new.differs_from(new),
        new.differs_from(old) == old.differs_from(new),
        (DiscordView { client_secret: secret, ..new }).differs_from(old) == new.differs_from(old),
        new.client_id != old.client_id ==> new.differs_from(old),
        new.access_token != old.access_token ==> new.differs_from(old),
        new.refresh_token != old.refresh_token ==> new.differs_from(old),
        !new.differs_from(old) ==> new.client_id == old.client_id && new.access_token
            == old.access_token && new.refresh_token == old.refresh_token,
{
}

/// What a file gives is kept as it is, each thing in its place.
pub proof fn law_what_is_given_is_kept(draft: Draft)
    ensures
        draft.completed().button == draft.button,
        draft.completed().mapping == draft.mapping@,
        draft.default_action matches Some(action) ==> draft.completed().default_action == action@,
        draft.default_action is None ==> draft.completed().default_action == "none"@,
        draft.rules matches Some(rules) ==> {
            &&& draft.completed().rules.len() == rules@.len()
            &&& forall|i: int|
                0 <= i < rules@.len() ==> {
                    let kept = #[trigger] draft.completed().rules[i];
                    kept.process == rules@[i].process@ && kept.action == rules@[i].action@
                }
        },
        draft.rules is None ==> draft.completed().rules.len() == 0,
        draft.discord matches Some(given) ==> {
            let kept = draft.completed().discord;
            &&& given.client_id matches Some(t) ==> kept.client_id == t@
            &&& given.client_secret matches Some(t) ==> kept.client_secret == t@
            &&& given.access_token matches Some(t) ==> kept.access_token == t@
            &&& given.refresh_token matches Some(t) ==> kept.refresh_token == t@
            &&& given.client_id is None ==> kept.client_id.len() == 0
            &&& given.client_secret is None ==> kept.client_secret.len() == 0
            &&& given.access_token is None ==> kept.access_token.len() == 0
            &&& given.refresh_token is None ==> kept.refresh_token.len() == 0
        },
        draft.discord is None ==> {
            let kept = draft.completed().discord;
            kept.client_id.len() == 0 && kept.client_secret.len() == 0 && kept.access_token.len()
                == 0 && kept.refresh_token.len() == 0
        },
{
}

/// Taking on tokens changes the two tokens, each in its own place, and nothing
/// else.
pub proof fn law_taking_on_tokens_changes_only_tokens(
    cfg: ConfigView,
    access: Seq<char>,
    refresh: Seq<char>,
)
    ensures
        ({
            let new = cfg.with_tokens(access, refresh);
            &&& new.discord.access_token == access && new.discord.refresh_token == refresh
            &&& new.discord.client_id == cfg.discord.client_id
            &&& new.discord.client_secret == cfg.discord.client_secret
            &&& new.button == cfg.button && new.mapping == cfg.mapping
            &&& new.default_action == cfg.default_action && new.rules == cfg.rules
        }),
{
}

/// What is said of bad settings names what is wrong with them: how long the
/// mapping is, or which button it does not cover.
pub proof fn law_bad_settings_are_named(cfg: ConfigView)
    requires
        !cfg.valid(),
    ensures
        cfg.mapping.len() == 0 || cfg.mapping.len() > 16 ==> ("mapping has "@ + decimal(
            cfg.mapping.len(),
        )).is_prefix_of(cfg.complaint()),
        1 <= cfg.mapping.len() <= 16 ==> ("button = "@ + decimal(cfg.button as nat)).is_prefix_of(
            cfg.complaint(),
        ),
{
    let lead = if cfg.mapping.len() == 0 || cfg.mapping.len() > 16 {
        "mapping has "@ + decimal(cfg.mapping.len())
    } else {
        "button = "@ + decimal(cfg.button as nat)
    };
    assert(lead =~= cfg.complaint().take(lead.len() as int));
}

/// The settings that are loaded are good ones, and are what the file gives. A
/// file that cannot be read, or that gives bad ones, is refused with a reason.
pub proof fn law_only_good_settings_are_loaded(
    path: &str,
    loaded: Loaded,
    r: Result<Config, String>,
)
    requires
        call_ensures(load_config, (path, loaded), r),
    ensures
        r matches Ok(cfg) ==> {
            &&& 1 <= cfg@.mapping.len() <= 16 && cfg@.button < cfg@.mapping.len()
            &&& loaded matches Loaded::Parsed(draft) && cfg@ == draft.completed()
        },
        r matches Err(why) ==> match loaded {
            Loaded::Unreadable(e) => why@ == "could not read "@ + path@ + ": "@ + e@,
            Loaded::Malformed(e) => why@ == "bad config: "@ + e@,
            Loaded::Parsed(draft) => {
                let cfg = draft.completed();
                &&& !(1 <= cfg.mapping.len() <= 16 && cfg.button < cfg.mapping.len())
                &&& why@ == "bad config: "@ + cfg.complaint()
            },
        },
{
}

/// Where the settings are: where the command line says if it says so, beside
/// the executable if they are there, and else in the user's directory if there
/// is one. There is no fourth place.
pub proof fn law_where_the_settings_are(
    argument: bool,
    beside: bool,
    user: bool,
    r: Option<Place>,
)
    requires
        call_ensures(config_path, (argument, beside, user), r),
    ensures
        r == Some(Place::Argument) <==> argument,
        r == Some(Place::Beside) <==> beside && !argument,
        r == Some(Place::User) <==> user && !beside && !argument,
{
}

/// Settings are refused exactly if they are bad.
pub proof fn law_bad_settings_are_refused(cfg: &Config, r: Result<(), String>)
    requires
        call_ensures(Config::validate, (cfg,), r),
    ensures
        r is Ok <==> 1 <= cfg@.mapping.len() <= 16 && cfg@.button < cfg@.mapping.len(),
{
}

/// What is wrong with settings ends in a limit: the most buttons that there
/// can be, which is sixteen, or the last that the mapping covers. A button
/// that the mapping does not cover is not hidden by it.
pub proof fn law_a_complaint_gives_the_limit(cfg: ConfigView)
    requires
        !cfg.valid(),
    ensures
        ({
            let limit = if 1 <= cfg.mapping.len() <= 16 {
                decimal((cfg.mapping.len() - 1) as nat)
            } else {
                decimal(16)
            };
            let text = cfg.complaint();
            text.len() >= limit.len() && text.skip(text.len() - limit.len()) == limit
        }),
        cfg.button >= cfg.mapping.len() ==> !cfg.hides_button(),
{
    let limit = if 1 <= cfg.mapping.len() <= 16 {
        decimal((cfg.mapping.len() - 1) as nat)
    } else {
        decimal(16)
    };
    let text = cfg.complaint();
    assert(text.skip(text.len() - limit.len()) =~= limit);
}

/// On a first run the back button is the one that is watched, of five that
/// all do what they always did, and there are no credentials.
pub proof fn law_how_a_first_run_is_set_up(i: int)
    requires
        0 <= i < 5,
    ensures
        starter_settings().button == 3,
        starter_settings().mapping.len() == 5,
        starter_settings().mapping[i] == i + 1,
        starter_settings().rules.len() == 0,
        starter_settings().discord.client_id.len() == 0,
        starter_settings().discord.client_secret.len() == 0,
        starter_settings().discord.access_token.len() == 0,
        starter_settings().discord.refresh_token.len() == 0,
{
}

/// A list of numbers has each of them in decimal, in order and with a comma
/// and a space between.
pub proof fn law_numbers_in_a_row(codes: Seq<u8>, last: u8)
    ensures
        listed(Seq::empty()).len() == 0,
        listed(seq![last]) == decimal(last as nat),
        codes.len() > 0 ==> listed(codes.push(last)) == listed(codes) + ", "@ + decimal(
            last as nat,
        ),
{
    assert(codes.push(last).drop_last() =~= codes);
}

} // verus!
