//! Setting up a mouse that has just been found: resolving its features, then
//! asserting the state the daemon wants and confirming that it took.

use vstd::prelude::*;
use vstd::string::*;

use crate::config::{report_visibility, Config, ConfigView};
use crate::device::{
    command, copy_bytes, probe_of, Command, CommandView, Device, Probe, ProbeView, FN_GET_MAPPING,
    FN_GET_MODE, FN_SET_MAPPING, FN_SET_MODE, FN_START_SPY,
};
use crate::hidpp::{
    feature_index, feature_params, feature_request, Error, ErrorView, Params,
    FEAT_MOUSE_BUTTON_SPY, FEAT_ONBOARD_PROFILES, FEAT_WIRELESS_DEVICE_STATUS, FN_GET_FEATURE,
    MODE_HOST, ROOT_INDEX,
};
use crate::log::{complain, complained, lines_view, said, say, Line, LineView};
use crate::text::{decimal, to_decimal};

verus! {

/// Which answer a connection is waiting for.
#[derive(Debug, Clone, Copy, PartialEq, Eq, Structural)]
pub enum Stage {
    Profiles,
    Spy,
    Wireless,
    ModeBefore,
    MappingBefore,
    SetMode,
    SetMapping,
    StartSpy,
    ModeAfter,
    MappingAfter,
    Ready,
}

/// A connection being set up.
#[derive(Debug, Clone, Copy)]
pub struct Connecting {
    pub stage: Stage,
    /// What has been resolved so far.
    pub device: Device,
    /// The first answer of the probe that is under way.
    pub mode: u8,
}

/// What has become of a connection.
#[derive(Debug)]
pub enum Progress {
    /// There is another call to make.
    Going,
    /// The mouse is set up.
    Ready(Device),
    /// It cannot be set up.
    Failed(Error),
}

pub enum ProgressView {
    Going,
    Ready(Device),
    Failed(ErrorView),
}

impl View for Progress {
    type V = ProgressView;

    open spec fn view(&self) -> ProgressView {
        match self {
            Progress::Going => ProgressView::Going,
            Progress::Ready(d) => ProgressView::Ready(*d),
            Progress::Failed(e) => ProgressView::Failed(e@),
        }
    }
}

/// What a call's outcome says.
pub open spec fn reply_view(reply: Result<Params, Error>) -> Result<Seq<u8>, ErrorView> {
    match reply {
        Ok(params) => Ok(params@),
        Err(e) => Err(e@),
    }
}

/// The index of `feature` that a reply of the root feature gives.
pub open spec fn index_in(reply: Result<Seq<u8>, ErrorView>, feature: u16) -> Result<
    u8,
    ErrorView,
> {
    match reply {
        Ok(params) => if params[0] == 0 {
            Err(ErrorView::FeatureMissing(feature))
        } else {
            Ok(params[0])
        },
        Err(e) => Err(e),
    }
}

/// One step of a connection: where it stands afterwards, what has become of
/// it, and what there is to say about it.
pub struct ConnectStep {
    pub state: Connecting,
    pub progress: ProgressView,
    pub lines: Seq<LineView>,
}

impl Connecting {
    pub open spec fn at(self, stage: Stage) -> Connecting {
        Connecting { stage, ..self }
    }

    pub open spec fn going(self, lines: Seq<LineView>) -> ConnectStep {
        ConnectStep { state: self, progress: ProgressView::Going, lines }
    }

    pub open spec fn failed(self, e: ErrorView) -> ConnectStep {
        ConnectStep {
            state: self.at(Stage::Profiles),
            progress: ProgressView::Failed(e),
            lines: Seq::empty(),
        }
    }

    pub open spec fn ready(self, lines: Seq<LineView>) -> ConnectStep {
        ConnectStep {
            state: self.at(Stage::Ready),
            progress: ProgressView::Ready(self.device),
            lines,
        }
    }

    /// The features that were found, in words.
    pub open spec fn features(self) -> Seq<char> {
        "onboard profiles = index "@ + decimal(self.device.profiles_idx as nat)
            + ", button spy = index "@ + decimal(self.device.spy_idx as nat) + ", wake events = "@
            + match self.device.wireless_idx {
            Some(i) => "index "@ + decimal(i as nat),
            None => "unsupported (polling only)"@,
        }
    }

    /// The call that the connection makes next.
    pub open spec fn next_command(self, cfg: ConfigView) -> Option<CommandView> {
        let d = self.device;
        match self.stage {
            Stage::Profiles => Some(
                command(ROOT_INDEX, FN_GET_FEATURE, feature_params(FEAT_ONBOARD_PROFILES)),
            ),
            Stage::Spy => Some(
                command(ROOT_INDEX, FN_GET_FEATURE, feature_params(FEAT_MOUSE_BUTTON_SPY)),
            ),
            Stage::Wireless => Some(
                command(ROOT_INDEX, FN_GET_FEATURE, feature_params(FEAT_WIRELESS_DEVICE_STATUS)),
            ),
            Stage::ModeBefore | Stage::ModeAfter => Some(d.probe_commands()[0]),
            Stage::MappingBefore | Stage::MappingAfter => Some(d.probe_commands()[1]),
            Stage::SetMode => Some(d.apply_commands(cfg.mapping)[0]),
            Stage::SetMapping => Some(d.apply_commands(cfg.mapping)[1]),
            Stage::StartSpy => Some(d.apply_commands(cfg.mapping)[2]),
            Stage::Ready => None,
        }
    }

    /// What a call's outcome does to the connection.
    ///
    /// The two features the daemon cannot do without have to be there, and
    /// asserting the state has to succeed. The wake feature is optional, and
    /// the two probes only have something to say.
    pub open spec fn answered(
        self,
        reply: Result<Seq<u8>, ErrorView>,
        cfg: ConfigView,
    ) -> ConnectStep {
        let n = cfg.mapping.len();
        match self.stage {
            Stage::Profiles => match index_in(reply, FEAT_ONBOARD_PROFILES) {
                Ok(i) => Connecting {
                    device: Device { profiles_idx: i, ..self.device },
                    ..self
                }.at(Stage::Spy).going(Seq::empty()),
                Err(e) => self.failed(e),
            },
            Stage::Spy => match index_in(reply, FEAT_MOUSE_BUTTON_SPY) {
                Ok(i) => Connecting {
                    device: Device { spy_idx: i, ..self.device },
                    ..self
                }.at(Stage::Wireless).going(Seq::empty()),
                Err(e) => self.failed(e),
            },
            Stage::Wireless => {
                let found = Connecting {
                    device: Device {
                        wireless_idx: match index_in(reply, FEAT_WIRELESS_DEVICE_STATUS) {
                            Ok(i) => Some(i),
                            Err(_) => None,
                        },
                        ..self.device
                    },
                    ..self
                };
                found.at(Stage::ModeBefore).going(seq![said(found.features())])
            },
            Stage::ModeBefore => match reply {
                Ok(params) => Connecting { mode: params[0], ..self }.at(
                    Stage::MappingBefore,
                ).going(Seq::empty()),
                Err(e) => self.at(Stage::SetMode).going(
                    seq![complained("warning: could not read the mouse state: "@ + e.message())],
                ),
            },
            Stage::MappingBefore => self.at(Stage::SetMode).going(
                match reply {
                    Ok(params) => seq![
                        said("mouse was: "@ + probe_of(self.mode, params, n).describe()),
                    ],
                    Err(e) => seq![
                        complained("warning: could not read the mouse state: "@ + e.message()),
                    ],
                },
            ),
            Stage::SetMode => match reply {
                Ok(_) => self.at(Stage::SetMapping).going(Seq::empty()),
                Err(e) => self.failed(e),
            },
            Stage::SetMapping => match reply {
                Ok(_) => self.at(Stage::StartSpy).going(Seq::empty()),
                Err(e) => self.failed(e),
            },
            Stage::StartSpy => match reply {
                Ok(_) => self.at(Stage::ModeAfter).going(
                    seq![said("connected"@), said(cfg.visibility())],
                ),
                Err(e) => self.failed(e),
            },
            Stage::ModeAfter => match reply {
                Ok(params) => Connecting { mode: params[0], ..self }.at(Stage::MappingAfter).going(
                    Seq::empty(),
                ),
                Err(e) => self.ready(
                    seq![
                        complained("warning: could not confirm the mouse state: "@ + e.message()),
                    ],
                ),
            },
            Stage::MappingAfter => self.ready(
                match reply {
                    Ok(params) => {
                        let found = probe_of(self.mode, params, n);
                        if found.matches(cfg.mapping) {
                            Seq::empty()
                        } else {
                            seq![
                                complained(
                                    "warning: the mouse did not take it: "@ + found.describe(),
                                ),
                            ]
                        }
                    },
                    Err(e) => seq![
                        complained("warning: could not confirm the mouse state: "@ + e.message()),
                    ],
                },
            ),
            Stage::Ready => self.ready(Seq::empty()),
        }
    }

    /// The start of a connection: nothing resolved yet.
    pub fn new() -> (r: Connecting)
        ensures
            r == (Connecting {
                stage: Stage::Profiles,
                device: Device { spy_idx: 0, profiles_idx: 0, wireless_idx: None },
                mode: 0,
            }),
            knows_its_features(r),
    {
        Connecting {
            stage: Stage::Profiles,
            device: Device { spy_idx: 0, profiles_idx: 0, wireless_idx: None },
            mode: 0,
        }
    }

    /// The call to make next, if there is one.
    pub fn command(&self, cfg: &Config) -> (r: Option<Command>)
        ensures
            match r {
                Some(c) => self.next_command(cfg@) == Some(c@),
                None => self.next_command(cfg@) is None,
            },
    {
        let d = self.device;
        let (feature_idx, function, params): (u8, u8, Vec<u8>) = match self.stage {
            Stage::Profiles => (
                ROOT_INDEX,
                FN_GET_FEATURE,
                feature_request(FEAT_ONBOARD_PROFILES),
            ),
            Stage::Spy => (ROOT_INDEX, FN_GET_FEATURE, feature_request(FEAT_MOUSE_BUTTON_SPY)),
            Stage::Wireless => (
                ROOT_INDEX,
                FN_GET_FEATURE,
                feature_request(FEAT_WIRELESS_DEVICE_STATUS),
            ),
            Stage::ModeBefore | Stage::ModeAfter => (d.profiles_idx, FN_GET_MODE, Vec::new()),
            Stage::MappingBefore | Stage::MappingAfter => (d.spy_idx, FN_GET_MAPPING, Vec::new()),
            Stage::SetMode => {
                let mut host: Vec<u8> = Vec::new();
                host.push(MODE_HOST);
                assert(host@ =~= seq![MODE_HOST]);
                (d.profiles_idx, FN_SET_MODE, host)
            },
            Stage::SetMapping => (d.spy_idx, FN_SET_MAPPING, copy_bytes(&cfg.mapping)),
            Stage::StartSpy => (d.spy_idx, FN_START_SPY, Vec::new()),
            Stage::Ready => {
                return None;
            },
        };
        Some(Command { feature_idx, function, params })
    }

    /// Takes the outcome of the call that was made. Anything worth logging is
    /// added to `lines`.
    pub fn answer(&mut self, reply: Result<Params, Error>, cfg: &Config, lines: &mut Vec<Line>) -> (r:
        Progress)
        requires
            cfg@.fits_frame(),
        ensures
            ({
                let step = old(self).answered(reply_view(reply), cfg@);
                &&& *final(self) == step.state
                &&& r@ == step.progress
                &&& lines_view(final(lines)@) == lines_view(old(lines)@) + step.lines
            }),
    {
        let ghost before = lines_view(lines@);
        let ghost was = *self;
        let ghost told = reply_view(reply);
        let r = match self.stage {
            Stage::Profiles => match resolved(reply, FEAT_ONBOARD_PROFILES) {
                Ok(i) => {
                    self.device.profiles_idx = i;
                    self.stage = Stage::Spy;
                    Progress::Going
                },
                Err(e) => {
                    self.stage = Stage::Profiles;
                    Progress::Failed(e)
                },
            },
            Stage::Spy => match resolved(reply, FEAT_MOUSE_BUTTON_SPY) {
                Ok(i) => {
                    self.device.spy_idx = i;
                    self.stage = Stage::Wireless;
                    Progress::Going
                },
                Err(e) => {
                    self.stage = Stage::Profiles;
                    Progress::Failed(e)
                },
            },
            Stage::Wireless => {
                self.device.wireless_idx = match resolved(reply, FEAT_WIRELESS_DEVICE_STATUS) {
                    Ok(i) => Some(i),
                    Err(_) => None,
                };
                self.stage = Stage::ModeBefore;
                say(lines, self.describe_features());
                Progress::Going
            },
            Stage::ModeBefore => {
                match reply {
                    Ok(params) => {
                        self.mode = params[0];
                        self.stage = Stage::MappingBefore;
                    },
                    Err(e) => {
                        complain(lines, prefixed("warning: could not read the mouse state: ", &e));
                        self.stage = Stage::SetMode;
                    },
                }
                Progress::Going
            },
            Stage::MappingBefore => {
                match reply {
                    Ok(params) => {
                        let mut text = "mouse was: ".to_owned();
                        text.append(Probe::new(self.mode, &params, cfg).describe().as_str());
                        say(lines, text);
                    },
                    Err(e) => {
                        complain(lines, prefixed("warning: could not read the mouse state: ", &e));
                    },
                }
                self.stage = Stage::SetMode;
                Progress::Going
            },
            Stage::SetMode => self.advance(reply, Stage::SetMapping),
            Stage::SetMapping => self.advance(reply, Stage::StartSpy),
            Stage::StartSpy => {
                if reply.is_ok() {
                    say(lines, "connected".to_owned());
                    say(lines, report_visibility(cfg));
                }
                self.advance(reply, Stage::ModeAfter)
            },
            Stage::ModeAfter => match reply {
                Ok(params) => {
                    self.mode = params[0];
                    self.stage = Stage::MappingAfter;
                    Progress::Going
                },
                Err(e) => {
                    complain(lines, prefixed("warning: could not confirm the mouse state: ", &e));
                    self.stage = Stage::Ready;
                    Progress::Ready(self.device)
                },
            },
            Stage::MappingAfter => {
                match reply {
                    Ok(params) => {
                        let found = Probe::new(self.mode, &params, cfg);
                        if !found.matches(cfg.mapping.as_slice()) {
                            let mut text = "warning: the mouse did not take it: ".to_owned();
                            text.append(found.describe().as_str());
                            complain(lines, text);
                        }
                    },
                    Err(e) => {
                        complain(
                            lines,
                            prefixed("warning: could not confirm the mouse state: ", &e),
                        );
                    },
                }
                self.stage = Stage::Ready;
                Progress::Ready(self.device)
            },
            Stage::Ready => Progress::Ready(self.device),
        };
        assert(lines_view(lines@) =~= before + was.answered(told, cfg@).lines);
        r
    }

    /// Goes on to `stage` if the call succeeded, and gives up otherwise.
    fn advance(&mut self, reply: Result<Params, Error>, stage: Stage) -> (r: Progress)
        ensures
            match reply {
                Ok(_) => *final(self) == old(self).at(stage) && r is Going,
                Err(e) => *final(self) == old(self).at(Stage::Profiles)
                    && r@ == ProgressView::Failed(e@),
            },
    {
        match reply {
            Ok(_) => {
                self.stage = stage;
                Progress::Going
            },
            Err(e) => {
                self.stage = Stage::Profiles;
                Progress::Failed(e)
            },
        }
    }

    fn describe_features(&self) -> (r: String)
        ensures
            r@ == self.features(),
    {
        let mut text = "onboard profiles = index ".to_owned();
        text.append(to_decimal(self.device.profiles_idx as u64).as_str());
        text.append(", button spy = index ");
        text.append(to_decimal(self.device.spy_idx as u64).as_str());
        text.append(", wake events = ");
        match self.device.wireless_idx {
            Some(i) => {
                let mut wake = "index ".to_owned();
                wake.append(to_decimal(i as u64).as_str());
                text.append(wake.as_str());
            },
            None => {
                text.append("unsupported (polling only)");
            },
        }
        text
    }
}

fn resolved(reply: Result<Params, Error>, feature: u16) -> (r: Result<u8, Error>)
    ensures
        match r {
            Ok(i) => index_in(reply_view(reply), feature) == Ok::<u8, ErrorView>(i),
            Err(e) => index_in(reply_view(reply), feature) == Err::<u8, ErrorView>(e@),
        },
{
    match reply {
        Ok(params) => feature_index(feature, &params),
        Err(e) => Err(e),
    }
}

/// `lead`, then the error in words.
pub fn prefixed(lead: &str, e: &Error) -> (r: String)
    ensures
        r@ == lead@ + e@.message(),
{
    let mut text = lead.to_owned();
    text.append(e.message().as_str());
    text
}

impl Stage {
    /// How many answers a connection is still waiting for at most.
    pub open spec fn answers_left(self) -> nat {
        match self {
            Stage::Profiles => 10,
            Stage::Spy => 9,
            Stage::Wireless => 8,
            Stage::ModeBefore => 7,
            Stage::MappingBefore => 6,
            Stage::SetMode => 5,
            Stage::SetMapping => 4,
            Stage::StartSpy => 3,
            Stage::ModeAfter => 2,
            Stage::MappingAfter => 1,
            Stage::Ready => 0,
        }
    }
}

/// Every answer either ends a connection or brings it nearer to its end, so
/// that it makes ten calls at most.
pub proof fn law_connecting_comes_to_an_end(
    state: Connecting,
    reply: Result<Seq<u8>, ErrorView>,
    cfg: ConfigView,
)
    requires
        state.stage != Stage::Ready,
    ensures
        state.answered(reply, cfg).progress is Going ==> state.answered(
            reply,
            cfg,
        ).state.stage.answers_left() < state.stage.answers_left(),
        state.answered(reply, cfg).state.stage == Stage::Ready <==> state.answered(
            reply,
            cfg,
        ).progress is Ready,
{
}

/// What a connection has resolved by the time that it uses it.
pub open spec fn knows_its_features(state: Connecting) -> bool {
    &&& state.stage.answers_left() < 10 ==> state.device.profiles_idx != 0
    &&& state.stage.answers_left() < 9 ==> state.device.spy_idx != 0
    &&& state.device.wireless_idx != Some(0u8)
}

/// The root feature has index 0, so no other feature does. A connection only
/// goes on once it knows where the features are that it is about to use.
pub proof fn law_features_are_resolved_before_use(
    state: Connecting,
    reply: Result<Seq<u8>, ErrorView>,
    cfg: ConfigView,
)
    requires
        knows_its_features(state),
        state.stage != Stage::Ready,
    ensures
        !(state.answered(reply, cfg).progress is Failed) ==> knows_its_features(
            state.answered(reply, cfg).state,
        ),
        state.answered(reply, cfg).progress matches ProgressView::Ready(dev) ==> dev.profiles_idx
            != 0 && dev.spy_idx != 0,
{
}

/// A mouse counts as set up only after it has acknowledged the mode, the
/// mapping and the spy, one after the other.
pub proof fn law_a_refused_write_is_no_connection(
    state: Connecting,
    e: ErrorView,
    cfg: ConfigView,
)
    requires
        state.stage == Stage::SetMode || state.stage == Stage::SetMapping || state.stage
            == Stage::StartSpy,
    ensures
        state.answered(Err(e), cfg).progress == ProgressView::Failed(e),
{
}

/// A mouse without the features that the daemon lives by is refused by name.
pub proof fn law_a_missing_feature_is_named(state: Connecting, params: Seq<u8>, cfg: ConfigView)
    requires
        params.len() == 16,
        params[0] == 0,
    ensures
        state.stage == Stage::Profiles ==> state.answered(Ok(params), cfg).progress
            == ProgressView::Failed(ErrorView::FeatureMissing(FEAT_ONBOARD_PROFILES)),
        state.stage == Stage::Spy ==> state.answered(Ok(params), cfg).progress
            == ProgressView::Failed(ErrorView::FeatureMissing(FEAT_MOUSE_BUTTON_SPY)),
        state.stage == Stage::Wireless ==> state.answered(Ok(params), cfg).progress is Going,
{
}

/// What a connection calls on its way, by how many answers it has yet to get:
/// the root feature, for onboard profiles, the button spy and the wake events
/// by their ids, the high byte first; then a look at the mouse, the full state
/// of the settings, and another look.
pub proof fn law_what_a_connection_calls(state: Connecting, cfg: ConfigView)
    ensures
        ({
            let left = state.stage.answers_left();
            let call = state.next_command(cfg);
            let (look, tell) = (
                state.device.probe_commands(),
                state.device.apply_commands(cfg.mapping),
            );
            &&& left == 10 ==> call == Some(command(0, 0, seq![0x81, 0x00]))
            &&& left == 9 ==> call == Some(command(0, 0, seq![0x81, 0x10]))
            &&& left == 8 ==> call == Some(command(0, 0, seq![0x1d, 0x4b]))
            &&& left == 7 || left == 2 ==> call == Some(look[0])
            &&& left == 6 || left == 1 ==> call == Some(look[1])
            &&& 3 <= left <= 5 ==> call == Some(tell[5 - left])
            &&& left == 0 ==> call is None
            &&& left <= 10
        }),
{
    assert(feature_params(FEAT_ONBOARD_PROFILES) =~= seq![0x81u8, 0x00]);
    assert(feature_params(FEAT_MOUSE_BUTTON_SPY) =~= seq![0x81u8, 0x10]);
    assert(feature_params(FEAT_WIRELESS_DEVICE_STATUS) =~= seq![0x1du8, 0x4b]);
}

/// A mouse that answers well is taken through every one of the calls, none
/// left out, and is set up at the end of them. It is known by the indices that
/// it gave itself, each for the feature that was asked for.
pub proof fn law_a_mouse_that_answers_is_set_up(
    state: Connecting,
    params: Seq<u8>,
    cfg: ConfigView,
)
    requires
        params.len() == 16,
        state.stage != Stage::Ready,
        params[0] != 0,
    ensures
        ({
            let step = state.answered(Ok(params), cfg);
            let left = state.stage.answers_left();
            &&& step.state.stage.answers_left() == left - 1
            &&& left > 1 ==> step.progress is Going
            &&& left == 1 ==> step.progress == ProgressView::Ready(state.device)
            &&& step.state.device == (Device {
                profiles_idx: if left == 10 {
                    params[0]
                } else {
                    state.device.profiles_idx
                },
                spy_idx: if left == 9 {
                    params[0]
                } else {
                    state.device.spy_idx
                },
                wireless_idx: if left == 8 {
                    Some(params[0])
                } else {
                    state.device.wireless_idx
                },
            })
        }),
{
}

/// A mouse without wake events does without, and looking at it may fail: the
/// connection goes on. Everything else that fails ends it, with the reason.
pub proof fn law_what_a_connection_can_do_without(
    state: Connecting,
    e: ErrorView,
    cfg: ConfigView,
)
    requires
        state.stage != Stage::Ready,
    ensures
        ({
            let step = state.answered(Err(e), cfg);
            let left = state.stage.answers_left();
            &&& left == 8 ==> step.progress is Going && step.state.device.wireless_idx is None
                && step.state.stage.answers_left() == 7
            &&& left == 7 || left == 6 ==> step.progress is Going
                && step.state.stage.answers_left() == 5
            &&& left == 2 || left == 1 ==> step.progress == ProgressView::Ready(state.device)
            &&& left >= 9 || 3 <= left <= 5 ==> step.progress == ProgressView::Failed(e)
            &&& left == 7 || left == 6 || left == 2 || left == 1 ==> step.lines.len() == 1
                && step.lines[0].error && step.state.device == state.device
        }),
{
}

/// A mouse that did not take what it was told is complained about, and one
/// that did is not: what counts is the mode of the first answer and as much of
/// the second as the settings cover.
pub proof fn law_a_mouse_that_did_not_take_it_is_reported(
    state: Connecting,
    mode: Seq<u8>,
    mapping: Seq<u8>,
    cfg: ConfigView,
)
    requires
        state.stage == Stage::ModeAfter,
        mode.len() == 16,
        mapping.len() == 16,
        cfg.fits_frame(),
    ensures
        ({
            let asked = state.answered(Ok(mode), cfg);
            let step = asked.state.answered(Ok(mapping), cfg);
            let took = mode[0] == 2 && mapping.take(cfg.mapping.len() as int) == cfg.mapping;
            &&& asked.lines.len() == 0
            &&& step.progress == ProgressView::Ready(state.device)
            &&& step.lines.len() == (if took {
                0nat
            } else {
                1nat
            })
            &&& !took ==> step.lines[0].error
        }),
{
}

/// Once the mouse has acknowledged everything that it was told, that is said,
/// and so is whether the button is hidden now.
pub proof fn law_being_connected_is_said(state: Connecting, params: Seq<u8>, cfg: ConfigView)
    requires
        state.stage == Stage::StartSpy,
    ensures
        state.answered(Ok(params), cfg).lines == seq![said("connected"@), said(cfg.visibility())],
        forall|e: ErrorView| (#[trigger] state.answered(Err(e), cfg)).lines.len() == 0,
{
}

/// What a connection says on its way. The features are said with the indices
/// at which they were found, once it has asked for all three, and so is the
/// state in which the mouse was, once it has read that. Nothing is said of a
/// call that is only on the way to one of these.
pub proof fn law_what_a_connection_says(state: Connecting, params: Seq<u8>, cfg: ConfigView)
    requires
        params.len() == 16,
        params[0] != 0,
    ensures
        ({
            let step = state.answered(Ok(params), cfg);
            let left = state.stage.answers_left();
            &&& left == 8 ==> step.lines == seq![
                said(
                    "onboard profiles = index "@ + decimal(state.device.profiles_idx as nat)
                        + ", button spy = index "@ + decimal(state.device.spy_idx as nat)
                        + ", wake events = "@ + ("index "@ + decimal(params[0] as nat)),
                ),
            ]
            &&& left == 6 ==> step.lines == seq![
                said(
                    "mouse was: "@ + (ProbeView {
                        mode: state.mode,
                        mapping: params.take(cfg.mapping.len() as int),
                    }).describe(),
                ),
            ]
            &&& left == 7 || left == 2 ==> step.state.mode == params[0]
            &&& left == 0 || left == 2 || left == 4 || left == 5 || left == 7 || left >= 9
                ==> step.lines.len() == 0
        }),
{
}

/// A mouse without wake events is said to have none.
pub proof fn law_missing_wake_events_are_said(state: Connecting, e: ErrorView, cfg: ConfigView)
    requires
        state.stage == Stage::Wireless,
    ensures
        ({
            let step = state.answered(Err(e), cfg);
            let tail = ", wake events = "@ + "unsupported (polling only)"@;
            &&& step.lines.len() == 1 && !step.lines[0].error
            &&& step.lines[0].text.len() >= tail.len()
            &&& step.lines[0].text.skip(step.lines[0].text.len() - tail.len()) == tail
        }),
{
    let text = state.answered(Err(e), cfg).lines[0].text;
    let tail = ", wake events = "@ + "unsupported (polling only)"@;
    assert(text.skip(text.len() - tail.len()) =~= tail);
}

/// What goes wrong while looking at the mouse is said with the reason, before
/// it is told anything as after.
pub proof fn law_a_look_that_fails_is_said(state: Connecting, e: ErrorView, cfg: ConfigView)
    ensures
        ({
            let step = state.answered(Err(e), cfg);
            let left = state.stage.answers_left();
            &&& left == 7 || left == 6 ==> step.lines == seq![
                complained("warning: could not read the mouse state: "@ + e.message()),
            ]
            &&& left == 2 || left == 1 ==> step.lines == seq![
                complained("warning: could not confirm the mouse state: "@ + e.message()),
            ]
        }),
{
}

/// An answer on a connection does what is said of one above, and what there is
/// to say comes behind what has been said.
pub proof fn law_a_connection_goes_from_call_to_call(
    connecting: &mut Connecting,
    reply: Result<Params, Error>,
    cfg: &Config,
    lines: &mut Vec<Line>,
    r: Progress,
)
    requires
        call_ensures(Connecting::answer, (connecting, reply, cfg, lines), r),
    ensures
        ({
            let step = old(connecting).answered(reply_view(reply), cfg@);
            &&& *final(connecting) == step.state
            &&& r@ == step.progress
            &&& lines_view(final(lines)@) == lines_view(old(lines)@) + step.lines
        }),
{
}

} // verus!
