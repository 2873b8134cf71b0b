//! Runs of calls on the mouse. The program around them makes one call after
//! the other and hands each outcome back.

use vstd::prelude::*;

use crate::config::{Config, ConfigView};
use crate::connect::reply_view;
use crate::device::{commands_view, probe_of, Command, CommandView, Device, Probe, ProbeView};
use crate::hidpp::{Error, ErrorView, Params};

verus! {

/// A run of calls.
#[derive(Debug)]
pub struct Run {
    pub commands: Vec<Command>,
    /// How many of them are behind it.
    pub made: usize,
    /// What those came back with that did not fail.
    pub replies: Vec<Params>,
    /// Whether a call that fails ends the run.
    pub strict: bool,
}

#[verifier::ext_equal]
pub struct RunView {
    pub commands: Seq<CommandView>,
    pub made: nat,
    pub replies: Seq<Seq<u8>>,
    pub strict: bool,
}

impl View for Run {
    type V = RunView;

    open spec fn view(&self) -> RunView {
        RunView {
            commands: commands_view(self.commands@),
            made: self.made as nat,
            replies: self.replies@.map_values(|p: Params| p@),
            strict: self.strict,
        }
    }
}

/// A run that has not begun.
pub open spec fn run_of(commands: Seq<CommandView>, strict: bool) -> RunView {
    RunView { commands, made: 0, replies: Seq::empty(), strict }
}

impl RunView {
    /// Whether there is no call left to make.
    pub open spec fn is_over(self) -> bool {
        self.made >= self.commands.len()
    }

    /// The call to make now.
    pub open spec fn next(self) -> Option<CommandView> {
        if self.is_over() {
            None
        } else {
            Some(self.commands[self.made as int])
        }
    }

    /// The run once the call has come back.
    pub open spec fn after(self, reply: Result<Seq<u8>, ErrorView>) -> RunView {
        match reply {
            Ok(params) => RunView {
                made: self.made + 1,
                replies: self.replies.push(params),
                ..self
            },
            Err(_) => RunView {
                made: if self.strict {
                    self.commands.len()
                } else {
                    self.made + 1
                },
                ..self
            },
        }
    }

    /// The run once several calls have come back.
    pub open spec fn after_all(self, replies: Seq<Result<Seq<u8>, ErrorView>>) -> RunView
        decreases replies.len(),
    {
        if replies.len() == 0 {
            self
        } else {
            self.after_all(replies.drop_last()).after(replies.last())
        }
    }

    /// What a probe has found once its two calls have come back, over the `n`
    /// buttons that the settings cover: the mode is the first byte of the
    /// first reply, and the mapping is the second.
    pub open spec fn probed(self, n: nat) -> Option<ProbeView> {
        if self.replies.len() == 2 {
            Some(probe_of(self.replies[0][0], self.replies[1], n))
        } else {
            None
        }
    }
}

impl Run {
    fn new(commands: Vec<Command>, strict: bool) -> (r: Run)
        ensures
            r@ == run_of(commands_view(commands@), strict),
    {
        let r = Run { commands, made: 0, replies: Vec::new(), strict };
        assert(r@ =~= run_of(commands_view(commands@), strict));
        r
    }

    /// The calls that assert the full desired state. The first that fails is
    /// the last.
    pub fn apply(device: Device, cfg: &Config) -> (r: Run)
        requires
            cfg@.fits_frame(),
        ensures
            r@ == run_of(device.apply_commands(cfg@.mapping), true),
    {
        Run::new(device.apply(cfg), true)
    }

    /// The calls that read the state back. The first that fails is the last.
    pub fn probe(device: Device) -> (r: Run)
        ensures
            r@ == run_of(device.probe_commands(), true),
    {
        Run::new(device.probe(), true)
    }

    /// The calls that give the mouse back, each made whatever became of the
    /// one before.
    pub fn restore(device: Device, cfg: &Config) -> (r: Run)
        requires
            cfg@.fits_frame(),
        ensures
            r@ == run_of(device.restore_commands(cfg@.mapping.len()), false),
    {
        Run::new(device.restore(cfg), false)
    }

    /// The call to make now, if one is left.
    pub fn next(&self) -> (r: Option<&Command>)
        ensures
            match r {
                Some(command) => self@.next() == Some(command@),
                None => self@.next() is None,
            },
    {
        if self.made < self.commands.len() {
            Some(&self.commands[self.made])
        } else {
            None
        }
    }

    /// Takes in what the call came back with, and hands on the failure if it
    /// ends the run.
    pub fn answer(&mut self, reply: Result<Params, Error>) -> (r: Option<Error>)
        requires
            !old(self)@.is_over(),
        ensures
            final(self)@ == old(self)@.after(reply_view(reply)),
            match r {
                Some(e) => old(self)@.strict && reply_view(reply) == Err::<Seq<u8>, _>(e@),
                None => !old(self)@.strict || reply is Ok,
            },
    {
        let ghost before = self@;
        let len: usize = self.commands.len();
        assert(self.made < len);
        match reply {
            Ok(params) => {
                self.made += 1;
                self.replies.push(params);
                assert(self@ =~= before.after(Ok(params@)));
                None
            },
            Err(e) => {
                if self.strict {
                    self.made = len;
                    assert(self@ =~= before.after(Err(e@)));
                    Some(e)
                } else {
                    self.made += 1;
                    assert(self@ =~= before.after(Err(e@)));
                    None
                }
            },
        }
    }

    /// What a probe has found, once both its calls have come back.
    pub fn probed(&self, cfg: &Config) -> (r: Option<Probe>)
        requires
            cfg@.fits_frame(),
        ensures
            match r {
                Some(probe) => self@.probed(cfg@.mapping.len()) == Some(probe@),
                None => self@.probed(cfg@.mapping.len()) is None,
            },
    {
        if self.replies.len() == 2 {
            Some(Probe::new(self.replies[0][0], &self.replies[1], cfg))
        } else {
            None
        }
    }
}

/// The first failure ends a run that is strict: no call is left, and what had
/// come back before it is all there is.
pub proof fn law_a_failure_ends_a_strict_run(run: RunView, why: ErrorView)
    requires
        run.strict,
    ensures
        run.after(Err(why)).next() is None,
        run.after(Err(why)).replies == run.replies,
{
}

/// Giving the mouse back makes each of its calls in turn, whatever the ones
/// before came back with.
pub proof fn law_restoring_makes_every_call(
    device: Device,
    n: nat,
    replies: Seq<Result<Seq<u8>, ErrorView>>,
)
    requires
        replies.len() < device.restore_commands(n).len(),
    ensures
        run_of(device.restore_commands(n), false).after_all(replies).next() == Some(
            device.restore_commands(n)[replies.len() as int],
        ),
{
    lemma_going_on(run_of(device.restore_commands(n), false), replies);
}

proof fn lemma_going_on(run: RunView, replies: Seq<Result<Seq<u8>, ErrorView>>)
    requires
        !run.strict,
    ensures
        run.after_all(replies).made == run.made + replies.len(),
        run.after_all(replies).commands == run.commands,
        !run.after_all(replies).strict,
    decreases replies.len(),
{
    if replies.len() > 0 {
        lemma_going_on(run, replies.drop_last());
    }
}

/// A probe that nothing failed has found what its two replies say.
pub proof fn law_a_probe_that_went_through_is_read(
    device: Device,
    mode: Seq<u8>,
    mapping: Seq<u8>,
    n: nat,
)
    ensures
        ({
            let over = run_of(device.probe_commands(), true).after(Ok(mode)).after(Ok(mapping));
            over.is_over() && over.probed(n) == Some(probe_of(mode[0], mapping, n))
        }),
{
}

/// A call that came back well is followed by the next one, and what it came
/// back with is kept behind what the ones before it did.
pub proof fn law_a_success_is_followed_by_the_next_call(run: RunView, params: Seq<u8>)
    ensures
        ({
            let after = run.after(Ok(params));
            &&& after.replies == run.replies.push(params)
            &&& after.commands == run.commands
            &&& run.made + 1 < run.commands.len() ==> after.next() == Some(
                run.commands[run.made as int + 1],
            )
            &&& run.made + 1 >= run.commands.len() ==> after.next() is None
        }),
        run_of(run.commands, run.strict).next() == (if run.commands.len() > 0 {
            Some(run.commands[0])
        } else {
            None
        }),
{
}

/// A run of which nothing failed has made every one of its calls.
pub proof fn law_a_run_that_goes_well_makes_every_call(
    commands: Seq<CommandView>,
    strict: bool,
    replies: Seq<Result<Seq<u8>, ErrorView>>,
)
    requires
        replies.len() <= commands.len(),
        forall|i: int| 0 <= i < replies.len() ==> (#[trigger] replies[i]) is Ok,
    ensures
        ({
            let run = run_of(commands, strict).after_all(replies);
            &&& run.next() == (if replies.len() < commands.len() {
                Some(commands[replies.len() as int])
            } else {
                None
            })
            &&& run.replies.len() == replies.len()
            &&& forall|i: int|
                0 <= i < replies.len() ==> (#[trigger] replies[i])->Ok_0 == run.replies[i]
        }),
{
    lemma_going_well(commands, strict, replies);
}

proof fn lemma_going_well(
    commands: Seq<CommandView>,
    strict: bool,
    replies: Seq<Result<Seq<u8>, ErrorView>>,
)
    requires
        forall|i: int| 0 <= i < replies.len() ==> (#[trigger] replies[i]) is Ok,
    ensures
        ({
            let run = run_of(commands, strict).after_all(replies);
            &&& run.made == replies.len()
            &&& run.commands == commands
            &&& run.replies.len() == replies.len()
            &&& forall|i: int|
                0 <= i < replies.len() ==> (#[trigger] replies[i])->Ok_0 == run.replies[i]
        }),
    decreases replies.len(),
{
    if replies.len() > 0 {
        let before = replies.drop_last();
        assert forall|i: int| 0 <= i < before.len() implies (#[trigger] before[i]) is Ok by {
            assert(before[i] == replies[i]);
        }
        lemma_going_well(commands, strict, before);
        assert(replies[replies.len() - 1] is Ok);
        let was = run_of(commands, strict).after_all(before);
        let run = run_of(commands, strict).after_all(replies);
        assert forall|i: int| 0 <= i < replies.len() implies (#[trigger] replies[i])->Ok_0
            == run.replies[i] by {
            if i < before.len() {
                assert(before[i] == replies[i]);
                assert(run.replies[i] == was.replies[i]);
            }
        }
    }
}

/// Taking the mouse over and looking at it stop at the first failure, and
/// giving it back does not.
pub proof fn law_which_runs_are_strict(
    device: Device,
    cfg: &Config,
    apply: Run,
    probe: Run,
    restore: Run,
)
    requires
        cfg@.fits_frame(),
        call_ensures(Run::apply, (device, cfg), apply),
        call_ensures(Run::probe, (device,), probe),
        call_ensures(Run::restore, (device, cfg), restore),
    ensures
        apply@ == run_of(device.apply_commands(cfg@.mapping), true),
        probe@ == run_of(device.probe_commands(), true),
        restore@ == run_of(device.restore_commands(cfg@.mapping.len()), false),
{
}

/// A failure is handed on exactly if it ends the run, and it is the one that
/// happened.
pub proof fn law_a_failure_is_handed_on(
    run: &mut Run,
    reply: Result<Params, Error>,
    r: Option<Error>,
)
    requires
        !old(run)@.is_over(),
        call_ensures(Run::answer, (run, reply), r),
    ensures
        r is Some <==> old(run)@.strict && reply is Err,
        r matches Some(e) ==> e@ == reply->Err_0@,
        r is Some ==> final(run)@.is_over(),
        reply is Ok ==> final(run)@.made == old(run)@.made + 1,
{
}

} // verus!
