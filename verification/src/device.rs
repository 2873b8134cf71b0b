//! The mouse: what is written to it, what is read back, and how a connection
//! to it is set up.

use vstd::prelude::*;
use vstd::string::*;

use crate::config::{Config, MAX_BUTTONS};
use crate::hidpp::{Params, MODE_HOST, MODE_ONBOARD};
use crate::text::{
    digits, hex, hex_value, law_a_hexadecimal_comes_back, law_padding_puts_zeros_in_front,
    to_padded_hex, zero_padded,
};

verus! {

/// ONBOARD PROFILES: choose between the host and the onboard profile.
pub const FN_SET_MODE: u8 = 1;

/// ONBOARD PROFILES: which of the two is in charge.
pub const FN_GET_MODE: u8 = 2;

/// MOUSE BUTTON SPY: start delivering raw button state.
pub const FN_START_SPY: u8 = 1;

/// MOUSE BUTTON SPY: stop delivering it.
pub const FN_STOP_SPY: u8 = 2;

/// MOUSE BUTTON SPY: read what each button counts as.
pub const FN_GET_MAPPING: u8 = 3;

/// MOUSE BUTTON SPY: write what each button counts as.
pub const FN_SET_MAPPING: u8 = 4;

/// One call to make on the mouse.
#[derive(Debug)]
pub struct Command {
    pub feature_idx: u8,
    pub function: u8,
    pub params: Vec<u8>,
}

#[verifier::ext_equal]
pub struct CommandView {
    pub feature_idx: u8,
    pub function: u8,
    pub params: Seq<u8>,
}

impl View for Command {
    type V = CommandView;

    open spec fn view(&self) -> CommandView {
        CommandView {
            feature_idx: self.feature_idx,
            function: self.function,
            params: self.params@,
        }
    }
}

/// What a list of commands says.
pub open spec fn commands_view(commands: Seq<Command>) -> Seq<CommandView> {
    commands.map_values(|c: Command| c@)
}

pub open spec fn command(feature_idx: u8, function: u8, params: Seq<u8>) -> CommandView {
    CommandView { feature_idx, function, params }
}

/// A command without parameters, or with a single one.
fn short_command(feature_idx: u8, function: u8, param: Option<u8>) -> (r: Command)
    ensures
        r@ == command(
            feature_idx,
            function,
            match param {
                Some(p) => seq![p],
                None => Seq::empty(),
            },
        ),
{
    let mut params: Vec<u8> = Vec::new();
    if let Some(p) = param {
        params.push(p);
    }
    let r = Command { feature_idx, function, params };
    assert(r@ =~= command(
        feature_idx,
        function,
        match param {
            Some(p) => seq![p],
            None => Seq::empty(),
        },
    ));
    r
}

pub(crate) fn copy_bytes(bytes: &Vec<u8>) -> (r: Vec<u8>)
    ensures
        r@ == bytes@,
{
    let mut out: Vec<u8> = Vec::new();
    let mut i: usize = 0;
    while i < bytes.len()
        invariant
            i <= bytes@.len(),
            out@ == bytes@.take(i as int),
        decreases bytes@.len() - i,
    {
        out.push(bytes[i]);
        i += 1;
    }
    assert(bytes@.take(i as int) =~= bytes@);
    out
}

/// A mouse that has been found, by the feature indices that its firmware
/// gave.
#[derive(Debug, Clone, Copy, PartialEq, Eq)]
pub struct Device {
    pub spy_idx: u8,
    pub profiles_idx: u8,
    /// Feature index of WirelessDeviceStatus, if the firmware has it. Its
    /// notification means "reconnected, reconfigure me".
    pub wireless_idx: Option<u8>,
}

/// The mapping that makes every one of `n` buttons an ordinary one.
pub open spec fn ordinary_mapping(n: nat) -> Seq<u8> {
    Seq::new(n, |i: int| (i + 1) as u8)
}

impl Device {
    /// What asserts the full desired state: host mode, mapping, and the spy.
    pub open spec fn apply_commands(self, mapping: Seq<u8>) -> Seq<CommandView> {
        seq![
            command(self.profiles_idx, FN_SET_MODE, seq![MODE_HOST]),
            command(self.spy_idx, FN_SET_MAPPING, mapping),
            command(self.spy_idx, FN_START_SPY, Seq::empty()),
        ]
    }

    /// What reads back as much of that state as can be read.
    pub open spec fn probe_commands(self) -> Seq<CommandView> {
        seq![
            command(self.profiles_idx, FN_GET_MODE, Seq::empty()),
            command(self.spy_idx, FN_GET_MAPPING, Seq::empty()),
        ]
    }

    /// What makes the first `n` buttons ordinary again, stops the spy and
    /// hands control back to the onboard profile.
    pub open spec fn restore_commands(self, n: nat) -> Seq<CommandView> {
        seq![
            command(self.spy_idx, FN_SET_MAPPING, ordinary_mapping(n)),
            command(self.spy_idx, FN_STOP_SPY, Seq::empty()),
            command(self.profiles_idx, FN_SET_MODE, seq![MODE_ONBOARD]),
        ]
    }

    /// The calls that assert the full desired state, in order. The first that
    /// fails ends them.
    ///
    /// All of it is volatile: the mouse forgets it when it sleeps. The spy is
    /// re-armed along with the rest, because a mapping without a spy is a
    /// button that does nothing at all.
    pub fn apply(&self, cfg: &Config) -> (r: Vec<Command>)
        requires
            cfg@.fits_frame(),
        ensures
            commands_view(r@) == self.apply_commands(cfg@.mapping),
    {
        let mut out: Vec<Command> = Vec::new();
        out.push(short_command(self.profiles_idx, FN_SET_MODE, Some(MODE_HOST)));
        out.push(
            Command {
                feature_idx: self.spy_idx,
                function: FN_SET_MAPPING,
                params: copy_bytes(&cfg.mapping),
            },
        );
        out.push(short_command(self.spy_idx, FN_START_SPY, None));
        assert(commands_view(out@) =~= self.apply_commands(cfg@.mapping));
        out
    }

    /// The calls that read the state back, writing nothing. Being reads they
    /// cannot glitch a held button.
    pub fn probe(&self) -> (r: Vec<Command>)
        ensures
            commands_view(r@) == self.probe_commands(),
    {
        let mut out: Vec<Command> = Vec::new();
        out.push(short_command(self.profiles_idx, FN_GET_MODE, None));
        out.push(short_command(self.spy_idx, FN_GET_MAPPING, None));
        assert(commands_view(out@) =~= self.probe_commands());
        out
    }

    /// The calls that give the mouse back, each made whatever became of the
    /// one before. They span exactly the buttons that the mapping spans:
    /// anything that was hidden is among those.
    pub fn restore(&self, cfg: &Config) -> (r: Vec<Command>)
        requires
            cfg@.fits_frame(),
        ensures
            commands_view(r@) == self.restore_commands(cfg@.mapping.len()),
    {
        let mut all: Vec<u8> = Vec::new();
        let mut i: usize = 0;
        while i < cfg.mapping.len()
            invariant
                i <= cfg.mapping@.len() <= MAX_BUTTONS,
                all@ == ordinary_mapping(i as nat),
            decreases cfg.mapping@.len() - i,
        {
            all.push((i + 1) as u8);
            assert(all@ =~= ordinary_mapping((i + 1) as nat));
            i += 1;
        }
        let mut out: Vec<Command> = Vec::new();
        out.push(Command { feature_idx: self.spy_idx, function: FN_SET_MAPPING, params: all });
        out.push(short_command(self.spy_idx, FN_STOP_SPY, None));
        out.push(short_command(self.profiles_idx, FN_SET_MODE, Some(MODE_ONBOARD)));
        assert(commands_view(out@) =~= self.restore_commands(cfg@.mapping.len()));
        out
    }
}

/// What the mouse reports its own state to be.
#[derive(Debug)]
pub struct Probe {
    pub mode: u8,
    pub mapping: Vec<u8>,
}

#[verifier::ext_equal]
pub struct ProbeView {
    pub mode: u8,
    pub mapping: Seq<u8>,
}

impl View for Probe {
    type V = ProbeView;

    open spec fn view(&self) -> ProbeView {
        ProbeView { mode: self.mode, mapping: self.mapping@ }
    }
}

/// `bytes` in hexadecimal, two digits each, with a space between.
pub open spec fn hex_list(bytes: Seq<u8>) -> Seq<char>
    decreases bytes.len(),
{
    if bytes.len() == 0 {
        Seq::empty()
    } else if bytes.len() == 1 {
        zero_padded(hex(bytes[0] as nat), 2)
    } else {
        hex_list(bytes.drop_last()) + " "@ + zero_padded(hex(bytes.last() as nat), 2)
    }
}

/// What a mode is called.
pub open spec fn mode_name(mode: u8) -> Seq<char> {
    if mode == MODE_HOST {
        "host"@
    } else if mode == MODE_ONBOARD {
        "onboard"@
    } else {
        "?"@
    }
}

impl ProbeView {
    /// Whether the mouse is in the state that applying `mapping` asserts,
    /// except for the spy, which cannot be read back at all.
    pub open spec fn matches(self, mapping: Seq<u8>) -> bool {
        self.mode == MODE_HOST && self.mapping == mapping
    }

    /// The state in words.
    pub open spec fn describe(self) -> Seq<char> {
        "mode="@ + zero_padded(hex(self.mode as nat), 2) + " ("@ + mode_name(self.mode)
            + "), mapping=["@ + hex_list(self.mapping) + "]"@
    }
}

/// What the two answers to a probe say, over the `n` buttons that the
/// settings cover.
pub open spec fn probe_of(mode: u8, mapping: Seq<u8>, n: nat) -> ProbeView {
    ProbeView { mode, mapping: mapping.take(n as int) }
}

impl Probe {
    /// Reads the two answers to a probe. Only the span that the settings cover
    /// counts: bytes past the last physical button are whatever the firmware
    /// feels like returning.
    pub fn new(mode: u8, mapping: &Params, cfg: &Config) -> (r: Probe)
        requires
            cfg@.fits_frame(),
        ensures
            r@ == probe_of(mode, mapping@, cfg@.mapping.len()),
    {
        let mut out: Vec<u8> = Vec::new();
        let mut i: usize = 0;
        while i < cfg.mapping.len()
            invariant
                cfg@.fits_frame(),
                i <= cfg.mapping@.len(),
                mapping@.len() == MAX_BUTTONS,
                out@ == mapping@.take(i as int),
            decreases cfg.mapping@.len() - i,
        {
            out.push(mapping[i]);
            i += 1;
        }
        Probe { mode, mapping: out }
    }

    /// Whether the mouse is already in the state that applying `mapping`
    /// asserts.
    pub fn matches(&self, mapping: &[u8]) -> (r: bool)
        ensures
            r == self@.matches(mapping@),
    {
        if self.mode != MODE_HOST || self.mapping.len() != mapping.len() {
            return false;
        }
        let mut i: usize = 0;
        while i < mapping.len()
            invariant
                self.mapping@.len() == mapping@.len(),
                self.mode == MODE_HOST,
                i <= mapping@.len(),
                forall|k: int| 0 <= k < i ==> self.mapping@[k] == mapping@[k],
            decreases mapping@.len() - i,
        {
            if self.mapping[i] != mapping[i] {
                return false;
            }
            i += 1;
        }
        assert(self.mapping@ =~= mapping@);
        true
    }

    /// One line for the log.
    pub fn describe(&self) -> (r: String)
        ensures
            r@ == self@.describe(),
    {
        let mut list = String::new();
        let mut i: usize = 0;
        while i < self.mapping.len()
            invariant
                i <= self.mapping@.len(),
                list@ == hex_list(self.mapping@.take(i as int)),
            decreases self.mapping@.len() - i,
        {
            proof {
                assert(self.mapping@.take(i + 1).drop_last() =~= self.mapping@.take(i as int));
            }
            let ghost before = list@;
            if i > 0 {
                list.append(" ");
            }
            list.append(to_padded_hex(self.mapping[i] as u64, 2).as_str());
            proof {
                let last = zero_padded(hex(self.mapping@[i as int] as nat), 2);
                if i == 0 {
                    assert(list@ =~= last);
                } else {
                    assert(list@ =~= before + " "@ + last);
                }
            }
            i += 1;
        }
        assert(self.mapping@.take(i as int) =~= self.mapping@);
        let mut out = "mode=".to_owned();
        out.append(to_padded_hex(self.mode as u64, 2).as_str());
        out.append(" (");
        if self.mode == MODE_HOST {
            out.append("host");
        } else if self.mode == MODE_ONBOARD {
            out.append("onboard");
        } else {
            out.append("?");
        }
        out.append("), mapping=[");
        out.append(list.as_str());
        out.append("]");
        out
    }
}

/// As much of a mouse as the calls here touch.
#[verifier::ext_equal]
pub struct Mouse {
    pub mode: u8,
    /// What each button counts as; 0 is hidden.
    pub mapping: Seq<u8>,
    pub spying: bool,
}

impl Mouse {
    /// The mouse after it has obeyed a call. A mapping fills the parameters of
    /// its frame, and what it does not reach is zero.
    pub open spec fn obeys(self, dev: Device, call: CommandView) -> Mouse {
        if call.feature_idx == dev.profiles_idx && call.function == FN_SET_MODE {
            Mouse { mode: call.params[0], ..self }
        } else if call.feature_idx == dev.spy_idx && call.function == FN_SET_MAPPING {
            Mouse {
                mapping: call.params + Seq::new(
                    (MAX_BUTTONS - call.params.len()) as nat,
                    |i: int| 0u8,
                ),
                ..self
            }
        } else if call.feature_idx == dev.spy_idx && call.function == FN_START_SPY {
            Mouse { spying: true, ..self }
        } else if call.feature_idx == dev.spy_idx && call.function == FN_STOP_SPY {
            Mouse { spying: false, ..self }
        } else {
            self
        }
    }

    /// The mouse after it has obeyed a list of calls.
    pub open spec fn obeys_all(self, dev: Device, calls: Seq<CommandView>) -> Mouse
        decreases calls.len(),
    {
        if calls.len() == 0 {
            self
        } else {
            self.obeys_all(dev, calls.drop_last()).obeys(dev, calls.last())
        }
    }

    /// What a probe of this mouse finds.
    pub open spec fn probed(self, n: nat) -> ProbeView {
        probe_of(self.mode, self.mapping, n)
    }
}

proof fn lemma_obeys_three(mouse: Mouse, dev: Device, a: CommandView, b: CommandView, c: CommandView)
    ensures
        mouse.obeys_all(dev, seq![a, b, c]) == mouse.obeys(dev, a).obeys(dev, b).obeys(dev, c),
{
    let all = seq![a, b, c];
    assert(all.drop_last() =~= seq![a, b]);
    assert(all.drop_last().drop_last() =~= seq![a]);
    assert(all.drop_last().drop_last().drop_last() =~= Seq::empty());
    reveal_with_fuel(Mouse::obeys_all, 4);
}

/// A mouse that obeyed everything that was applied is one that a probe finds
/// in order, and it is spying.
pub proof fn law_applied_state_is_what_a_probe_accepts(mouse: Mouse, dev: Device, mapping: Seq<u8>)
    requires
        mapping.len() <= MAX_BUTTONS,
        dev.spy_idx != dev.profiles_idx,
    ensures
        mouse.obeys_all(dev, dev.apply_commands(mapping)).probed(mapping.len()).matches(mapping),
        mouse.obeys_all(dev, dev.apply_commands(mapping)).spying,
{
    let calls = dev.apply_commands(mapping);
    lemma_obeys_three(mouse, dev, calls[0], calls[1], calls[2]);
    let after = mouse.obeys_all(dev, calls);
    assert(after.mapping.take(mapping.len() as int) =~= mapping);
}

/// Applying the same state again changes nothing.
pub proof fn law_applying_twice_is_applying_once(mouse: Mouse, dev: Device, mapping: Seq<u8>)
    requires
        mapping.len() <= MAX_BUTTONS,
        dev.spy_idx != dev.profiles_idx,
    ensures
        mouse.obeys_all(dev, dev.apply_commands(mapping)).obeys_all(
            dev,
            dev.apply_commands(mapping),
        ) == mouse.obeys_all(dev, dev.apply_commands(mapping)),
{
    let calls = dev.apply_commands(mapping);
    lemma_obeys_three(mouse, dev, calls[0], calls[1], calls[2]);
    lemma_obeys_three(mouse.obeys_all(dev, calls), dev, calls[0], calls[1], calls[2]);
}

/// A mouse that has been given back hides none of the buttons that the
/// settings cover, spies on none, and is in its onboard profile's hands,
/// whatever was done to it before.
pub proof fn law_a_restored_mouse_hides_nothing(mouse: Mouse, dev: Device, n: nat)
    requires
        n <= MAX_BUTTONS,
        dev.spy_idx != dev.profiles_idx,
    ensures
        ({
            let after = mouse.obeys_all(dev, dev.restore_commands(n));
            &&& after.mode == MODE_ONBOARD
            &&& !after.spying
            &&& forall|i: int| 0 <= i < n ==> after.mapping[i] == i + 1
            &&& forall|i: int| 0 <= i < n ==> after.mapping[i] != 0
        }),
{
    let calls = dev.restore_commands(n);
    lemma_obeys_three(mouse, dev, calls[0], calls[1], calls[2]);
}

/// Every call made on the mouse fits a frame.
pub proof fn law_commands_fit_a_frame(dev: Device, mapping: Seq<u8>)
    requires
        mapping.len() <= MAX_BUTTONS,
    ensures
        forall|i: int|
            0 <= i < 3 ==> (#[trigger] dev.apply_commands(mapping)[i]).params.len() <= MAX_BUTTONS,
        forall|i: int|
            0 <= i < 2 ==> (#[trigger] dev.probe_commands()[i]).params.len() <= MAX_BUTTONS,
        forall|i: int|
            0 <= i < 3 ==> (#[trigger] dev.restore_commands(mapping.len())[i]).params.len()
                <= MAX_BUTTONS,
{
}

/// A probe accepts a mouse in host mode whose buttons count as the mapping
/// says, and no other: one wrong button or another mode is enough.
pub proof fn law_a_probe_accepts_nothing_else(probe: ProbeView, mapping: Seq<u8>, i: int)
    ensures
        probe.matches(mapping) <==> probe.mode == 2 && probe.mapping == mapping,
        probe.matches(mapping) && 0 <= i < mapping.len() ==> probe.mapping.len() == mapping.len()
            && probe.mapping[i] == mapping[i],
        probe.mode != 2 ==> !probe.matches(mapping),
{
}

/// What a probe finds is the mode and the first so many bytes of the mapping,
/// as the mouse reported them.
pub proof fn law_a_probe_finds_what_was_reported(mode: u8, reply: Seq<u8>, n: nat)
    requires
        n <= reply.len(),
    ensures
        probe_of(mode, reply, n).mode == mode,
        probe_of(mode, reply, n).mapping.len() == n,
        forall|i: int| 0 <= i < n ==> probe_of(mode, reply, n).mapping[i] == reply[i],
{
}

/// A mouse that has been told the state of the settings is in host mode, and
/// each of its buttons counts as the settings say.
pub proof fn law_an_applied_mouse_does_as_told(mouse: Mouse, dev: Device, mapping: Seq<u8>)
    requires
        mapping.len() <= MAX_BUTTONS,
        dev.spy_idx != dev.profiles_idx,
    ensures
        ({
            let after = mouse.obeys_all(dev, dev.apply_commands(mapping));
            &&& after.mode == 2
            &&& after.spying
            &&& forall|i: int| 0 <= i < mapping.len() ==> after.mapping[i] == mapping[i]
        }),
{
    let calls = dev.apply_commands(mapping);
    lemma_obeys_three(mouse, dev, calls[0], calls[1], calls[2]);
}

/// Looking at a mouse changes nothing about it, and asks for the mode and then
/// for the mapping.
pub proof fn law_looking_changes_nothing(mouse: Mouse, dev: Device)
    requires
        dev.spy_idx != dev.profiles_idx,
    ensures
        mouse.obeys_all(dev, dev.probe_commands()) == mouse,
        dev.probe_commands().len() == 2,
        dev.probe_commands()[0].feature_idx == dev.profiles_idx,
        dev.probe_commands()[0].function == 2,
        dev.probe_commands()[1].feature_idx == dev.spy_idx,
        dev.probe_commands()[1].function == 3,
        dev.probe_commands()[0].params.len() == 0,
        dev.probe_commands()[1].params.len() == 0,
{
    reveal_with_fuel(Mouse::obeys_all, 3);
    let calls = dev.probe_commands();
    assert(calls.drop_last() =~= seq![calls[0]]);
    assert(calls.drop_last().drop_last() =~= Seq::empty());
}

/// Which functions of the two features the daemon calls, and in which order:
/// to take the mouse over, host mode first and the spy last, and to give it
/// back, the buttons first and the onboard profile last.
pub proof fn law_which_functions_are_called(dev: Device, mapping: Seq<u8>, n: nat)
    ensures
        ({
            let calls = dev.apply_commands(mapping);
            &&& calls.len() == 3
            &&& calls[0] == command(dev.profiles_idx, 1, seq![2])
            &&& calls[1] == command(dev.spy_idx, 4, mapping)
            &&& calls[2] == command(dev.spy_idx, 1, Seq::empty())
        }),
        ({
            let calls = dev.restore_commands(n);
            &&& calls.len() == 3
            &&& calls[0].feature_idx == dev.spy_idx && calls[0].function == 4
                && calls[0].params.len() == n
            &&& calls[1] == command(dev.spy_idx, 2, Seq::empty())
            &&& calls[2] == command(dev.profiles_idx, 1, seq![1])
        }),
{
}

/// The words for a state begin with its mode in two digits and give each
/// button in two digits, in order.
pub proof fn law_a_state_in_words(probe: ProbeView)
    ensures
        ("mode="@ + zero_padded(hex(probe.mode as nat), 2)).is_prefix_of(probe.describe()),
        probe.mapping.len() > 0 ==> hex_list(probe.mapping).len() >= 3 * probe.mapping.len() - 1,
{
    let lead = "mode="@ + zero_padded(hex(probe.mode as nat), 2);
    assert(lead =~= probe.describe().take(lead.len() as int));
    lemma_hex_list_len(probe.mapping);
}

proof fn lemma_hex_list_len(bytes: Seq<u8>)
    ensures
        bytes.len() > 0 ==> hex_list(bytes).len() >= 3 * bytes.len() - 1,
    decreases bytes.len(),
{
    reveal_strlit(" ");
    if bytes.len() > 1 {
        lemma_hex_list_len(bytes.drop_last());
    }
}

/// A byte is two digits, and they say which byte it is.
pub proof fn law_a_byte_is_two_digits(byte: u8)
    ensures
        zero_padded(hex(byte as nat), 2).len() == 2,
        hex_value(zero_padded(hex(byte as nat), 2)) == Some(byte as nat),
{
    let n = byte as nat;
    let padded = zero_padded(hex(n), 2);
    reveal_with_fuel(digits, 3);
    law_a_hexadecimal_comes_back(n);
    law_padding_puts_zeros_in_front(hex(n), 2);
    if n < 16 {
        reveal_with_fuel(hex_value, 3);
        assert(hex(n).len() == 1);
        assert(padded =~= seq!['0', hex(n)[0]]);
        assert(padded.drop_last() =~= seq!['0']);
        assert(padded.drop_last().drop_last() =~= Seq::empty());
        assert(hex(n).drop_last() =~= Seq::empty());
    } else {
        assert(hex(n).len() == 2);
        assert(padded =~= hex(n));
    }
}

/// Bytes in a list have two digits each, in order and with a space between.
pub proof fn law_bytes_are_listed_in_order(bytes: Seq<u8>, i: int)
    requires
        0 <= i < bytes.len(),
    ensures
        hex_list(bytes).len() == 3 * bytes.len() - 1,
        hex_list(bytes).subrange(3 * i, 3 * i + 2) == zero_padded(hex(bytes[i] as nat), 2),
        i > 0 ==> hex_list(bytes)[3 * i - 1] == ' ',
    decreases bytes.len(),
{
    reveal_strlit(" ");
    law_a_byte_is_two_digits(bytes.last());
    let digits = zero_padded(hex(bytes[i] as nat), 2);
    if bytes.len() == 1 {
        assert(hex_list(bytes).subrange(3 * i, 3 * i + 2) =~= digits);
    } else if i == bytes.len() - 1 {
        law_bytes_are_listed_in_order(bytes.drop_last(), 0);
        assert(hex_list(bytes).subrange(3 * i, 3 * i + 2) =~= digits);
    } else {
        let shorter = bytes.drop_last();
        law_bytes_are_listed_in_order(shorter, i);
        assert(hex_list(bytes).subrange(3 * i, 3 * i + 2) =~= hex_list(shorter).subrange(
            3 * i,
            3 * i + 2,
        ));
    }
}

/// A state in words: the mode in two digits and by its name, then the mapping
/// as a list. Two is called host and one onboard, and no other mode has a
/// name.
pub proof fn law_the_words_for_a_state(probe: ProbeView)
    ensures
        mode_name(2) == "host"@,
        mode_name(1) == "onboard"@,
        probe.mode != 1 && probe.mode != 2 ==> mode_name(probe.mode) == "?"@,
        ({
            let lead = "mode="@ + zero_padded(hex(probe.mode as nat), 2) + " ("@ + mode_name(
                probe.mode,
            ) + ")"@;
            let tail = ", mapping=["@ + hex_list(probe.mapping) + "]"@;
            probe.describe() == lead + tail
        }),
{
    reveal_strlit(")");
    reveal_strlit(", mapping=[");
    reveal_strlit("), mapping=[");
    assert("), mapping=["@ =~= ")"@ + ", mapping=["@);
    let lead = "mode="@ + zero_padded(hex(probe.mode as nat), 2) + " ("@ + mode_name(probe.mode)
        + ")"@;
    let tail = ", mapping=["@ + hex_list(probe.mapping) + "]"@;
    assert(probe.describe() =~= lead + tail);
}

} // verus!
