//! What the daemon asks of the machine it runs on, and how it reads the
//! answers.

use vstd::prelude::*;
use vstd::string::*;

use crate::text::{
    chars_of, decimal, digits, hex, law_a_decimal_comes_back, law_padding_puts_zeros_in_front,
    number_of, same, to_decimal, to_padded_decimal, to_padded_hex, to_upper, upper, zero_padded,
};

verus! {

/// The virtual-key code of a named key, whatever the case of the name; zero
/// for a name that is not in the table.
pub open spec fn vk_code(name: Seq<char>) -> u16 {
    let key = upper(name);
    if key == "PAUSE"@ {
        0x13
    } else if key == "SCROLLLOCK"@ {
        0x91
    } else if key == "RCTRL"@ || key == "RCONTROL"@ {
        0xa3
    } else if key == "LCTRL"@ || key == "LCONTROL"@ {
        0xa2
    } else if key == "RSHIFT"@ {
        0xa1
    } else if key == "RALT"@ || key == "RMENU"@ {
        0xa5
    } else if key == "F13"@ {
        0x7c
    } else if key == "F14"@ {
        0x7d
    } else if key == "F15"@ {
        0x7e
    } else if key == "F16"@ {
        0x7f
    } else if key == "F17"@ {
        0x80
    } else if key == "F18"@ {
        0x81
    } else if key == "F19"@ {
        0x82
    } else if key == "F20"@ {
        0x83
    } else if key == "F21"@ {
        0x84
    } else if key == "F22"@ {
        0x85
    } else if key == "F23"@ {
        0x86
    } else if key == "F24"@ {
        0x87
    } else {
        0
    }
}

/// The virtual-key code of a named key, or zero.
pub fn vk_by_name(name: &str) -> (vk: u16)
    ensures
        vk == vk_code(name@),
{
    let key = to_upper(name);
    let key = key.as_str();
    if same(key, "PAUSE") {
        0x13
    } else if same(key, "SCROLLLOCK") {
        0x91
    } else if same(key, "RCTRL") || same(key, "RCONTROL") {
        0xa3
    } else if same(key, "LCTRL") || same(key, "LCONTROL") {
        0xa2
    } else if same(key, "RSHIFT") {
        0xa1
    } else if same(key, "RALT") || same(key, "RMENU") {
        0xa5
    } else if same(key, "F13") {
        0x7c
    } else if same(key, "F14") {
        0x7d
    } else if same(key, "F15") {
        0x7e
    } else if same(key, "F16") {
        0x7f
    } else if same(key, "F17") {
        0x80
    } else if same(key, "F18") {
        0x81
    } else if same(key, "F19") {
        0x82
    } else if same(key, "F20") {
        0x83
    } else if same(key, "F21") {
        0x84
    } else if same(key, "F22") {
        0x85
    } else if same(key, "F23") {
        0x86
    } else if same(key, "F24") {
        0x87
    } else {
        0
    }
}

/// What separates the parts of a path.
pub open spec fn is_separator(c: char) -> bool {
    c == '\\' || c == '/'
}

/// The last part of a path: what follows its last separator.
pub open spec fn last_part(path: Seq<char>) -> Seq<char>
    decreases path.len(),
{
    if path.len() == 0 || is_separator(path.last()) {
        Seq::empty()
    } else {
        last_part(path.drop_last()).push(path.last())
    }
}

/// The last part of a path is the end of it, holds no separator, and is
/// preceded by one unless it is all of it.
pub proof fn law_the_last_part_is_what_follows_the_last_separator(path: Seq<char>)
    ensures
        last_part(path).len() <= path.len(),
        ({
            let from = path.len() - last_part(path).len();
            &&& last_part(path) == path.skip(from)
            &&& from > 0 ==> is_separator(path[from - 1])
            &&& forall|i: int| from <= i < path.len() ==> !is_separator(#[trigger] path[i])
        }),
    decreases path.len(),
{
    if path.len() > 0 && !is_separator(path.last()) {
        let shorter = path.drop_last();
        law_the_last_part_is_what_follows_the_last_separator(shorter);
        let from = path.len() - last_part(path).len();
        assert(last_part(path) =~= path.skip(from));
        assert forall|i: int| from <= i < path.len() implies !is_separator(#[trigger] path[i]) by {
            if i < shorter.len() {
                assert(shorter[i] == path[i]);
            }
        }
        if from > 0 {
            assert(shorter[from - 1] == path[from - 1]);
        }
    } else {
        assert(last_part(path) =~= path.skip(path.len() as int));
    }
}

/// The name of the executable that the foreground window belongs to, out of
/// the full path of its image, if that is known.
pub fn foreground_process(image: Option<String>) -> (r: Option<String>)
    ensures
        match image {
            Some(path) => r matches Some(name) && name@ == last_part(path@),
            None => r is None,
        },
{
    let path = match image {
        Some(path) => path,
        None => {
            return None;
        },
    };
    let chars = chars_of(path.as_str());
    let mut from: usize = chars.len();
    proof {
        law_the_last_part_is_what_follows_the_last_separator(path@);
    }
    while from > 0 && chars[from - 1] != '\\' && chars[from - 1] != '/'
        invariant
            chars@ == path@,
            from <= chars@.len(),
            forall|i: int| from <= i < path@.len() ==> !is_separator(#[trigger] path@[i]),
        decreases from,
    {
        from -= 1;
    }
    let mut name = String::new();
    let mut i: usize = from;
    while i < chars.len()
        invariant
            chars@ == path@,
            from <= i <= chars@.len(),
            name@ == path@.subrange(from as int, i as int),
        decreases chars@.len() - i,
    {
        name.push(chars[i]);
        i += 1;
        assert(name@ =~= path@.subrange(from as int, i as int));
    }
    proof {
        let start = path@.len() - last_part(path@).len();
        assert(start == from) by {
            if start < from {
                assert(is_separator(path@[from - 1]));
            }
            if from < start {
                assert(is_separator(path@[start - 1]));
            }
        }
        assert(name@ =~= path@.skip(from as int));
    }
    Some(name)
}

/// A reading of the clock.
#[derive(Debug, Clone, Copy)]
pub enum Clock {
    /// The wall clock.
    Local { year: u16, month: u16, day: u16, hour: u16, minute: u16, second: u16 },
    /// Seconds since the epoch, if it is past.
    Epoch(Option<u64>),
}

impl Clock {
    /// The reading in words.
    pub open spec fn words(self) -> Seq<char> {
        match self {
            Clock::Local { year, month, day, hour, minute, second } => {
                zero_padded(decimal(year as nat), 4) + "-"@ + zero_padded(decimal(month as nat), 2)
                    + "-"@ + zero_padded(decimal(day as nat), 2) + " "@ + zero_padded(
                    decimal(hour as nat),
                    2,
                ) + ":"@ + zero_padded(decimal(minute as nat), 2) + ":"@ + zero_padded(
                    decimal(second as nat),
                    2,
                )
            },
            Clock::Epoch(Some(secs)) => decimal(secs as nat),
            Clock::Epoch(None) => decimal(0),
        }
    }
}

/// A reading of the clock, for the front of a line in the log.
pub fn timestamp(clock: Clock) -> (r: String)
    ensures
        r@ == clock.words(),
{
    match clock {
        Clock::Local { year, month, day, hour, minute, second } => {
            let mut out = to_padded_decimal(year as u64, 4);
            out.append("-");
            out.append(to_padded_decimal(month as u64, 2).as_str());
            out.append("-");
            out.append(to_padded_decimal(day as u64, 2).as_str());
            out.append(" ");
            out.append(to_padded_decimal(hour as u64, 2).as_str());
            out.append(":");
            out.append(to_padded_decimal(minute as u64, 2).as_str());
            out.append(":");
            out.append(to_padded_decimal(second as u64, 2).as_str());
            out
        },
        Clock::Epoch(Some(secs)) => to_decimal(secs),
        Clock::Epoch(None) => to_decimal(0),
    }
}

/// A keystroke in words, for where none can be synthesised.
pub open spec fn keystroke(vk: u16, down: bool) -> Seq<char> {
    "[stub] key 0x"@ + zero_padded(hex(vk as nat), 2) + (if down {
        " down"@
    } else {
        " up"@
    })
}

/// A keystroke in words, for where none can be synthesised.
pub fn describe_key(vk: u16, down: bool) -> (r: String)
    ensures
        r@ == keystroke(vk, down),
{
    let mut out = "[stub] key 0x".to_owned();
    out.append(to_padded_hex(vk as u64, 2).as_str());
    if down {
        out.append(" down");
    } else {
        out.append(" up");
    }
    out
}

/// The directory that a user's settings go under.
#[derive(Debug, Clone, Copy, PartialEq, Eq, Structural)]
pub enum Base {
    /// The one that the environment names for settings.
    Named,
    /// `.config` in the home directory.
    Home,
    /// Neither is known.
    Unknown,
}

/// Which directory a user's settings go under, by what the environment names.
pub fn config_dir(named: bool, home: bool) -> (r: Base)
    ensures
        r == (if named {
            Base::Named
        } else if home {
            Base::Home
        } else {
            Base::Unknown
        }),
{
    if named {
        Base::Named
    } else if home {
        Base::Home
    } else {
        Base::Unknown
    }
}

/// The names that keys have.
pub open spec fn key_names() -> Seq<(Seq<char>, u16)> {
    seq![
        ("PAUSE"@, 0x13),
        ("SCROLLLOCK"@, 0x91),
        ("RCTRL"@, 0xa3),
        ("RCONTROL"@, 0xa3),
        ("LCTRL"@, 0xa2),
        ("LCONTROL"@, 0xa2),
        ("RSHIFT"@, 0xa1),
        ("RALT"@, 0xa5),
        ("RMENU"@, 0xa5),
        ("F13"@, 0x7c),
        ("F14"@, 0x7d),
        ("F15"@, 0x7e),
        ("F16"@, 0x7f),
        ("F17"@, 0x80),
        ("F18"@, 0x81),
        ("F19"@, 0x82),
        ("F20"@, 0x83),
        ("F21"@, 0x84),
        ("F22"@, 0x85),
        ("F23"@, 0x86),
        ("F24"@, 0x87),
    ]
}

/// A key is known by each of its names, whatever the case, and by no other: a
/// name that is not among them has no key.
pub proof fn law_a_key_is_known_by_its_names(name: Seq<char>)
    ensures
        forall|i: int|
            0 <= i < key_names().len() && upper(name) == (#[trigger] key_names()[i]).0 ==> vk_code(
                name,
            ) == key_names()[i].1,
        (forall|i: int|
            0 <= i < key_names().len() ==> (#[trigger] key_names()[i]).0 != upper(name))
            ==> vk_code(name) == 0,
{
    reveal_strlit("PAUSE");
    reveal_strlit("SCROLLLOCK");
    reveal_strlit("RCTRL");
    reveal_strlit("RCONTROL");
    reveal_strlit("LCTRL");
    reveal_strlit("LCONTROL");
    reveal_strlit("RSHIFT");
    reveal_strlit("RALT");
    reveal_strlit("RMENU");
    reveal_strlit("F13");
    reveal_strlit("F14");
    reveal_strlit("F15");
    reveal_strlit("F16");
    reveal_strlit("F17");
    reveal_strlit("F18");
    reveal_strlit("F19");
    reveal_strlit("F20");
    reveal_strlit("F21");
    reveal_strlit("F22");
    reveal_strlit("F23");
    reveal_strlit("F24");
    let key = upper(name);
    let names = key_names();
    assert(names[0].0 == "PAUSE"@ && names[1].0 == "SCROLLLOCK"@ && names[2].0 == "RCTRL"@
        && names[3].0 == "RCONTROL"@ && names[4].0 == "LCTRL"@ && names[5].0 == "LCONTROL"@
        && names[6].0 == "RSHIFT"@ && names[7].0 == "RALT"@ && names[8].0 == "RMENU"@);
    assert(names[9].0 == "F13"@ && names[10].0 == "F14"@ && names[11].0 == "F15"@ && names[12].0
        == "F16"@ && names[13].0 == "F17"@ && names[14].0 == "F18"@ && names[15].0 == "F19"@
        && names[16].0 == "F20"@ && names[17].0 == "F21"@ && names[18].0 == "F22"@ && names[19].0
        == "F23"@ && names[20].0 == "F24"@);
    assert forall|i: int|
        0 <= i < names.len() && key == (#[trigger] names[i]).0 implies vk_code(name)
        == names[i].1 by {
        assert(key.len() == names[i].0.len());
        assert(key.len() > 1 ==> key[1] == names[i].0[1]);
        assert(key.len() > 2 ==> key[2] == names[i].0[2]);
        assert(key[0] == names[i].0[0]);
    }
}

/// The name of an executable is what follows the last slash of its path, of
/// either kind.
pub proof fn law_a_name_is_what_follows_the_last_slash(dir: Seq<char>, slash: char, name: Seq<char>)
    requires
        slash == '\\' || slash == '/',
        !name.contains('\\'),
        !name.contains('/'),
    ensures
        last_part(dir.push(slash) + name) == name,
        last_part(name) == name,
    decreases name.len(),
{
    let path = dir.push(slash) + name;
    if name.len() == 0 {
        assert(path.last() == slash);
        assert(last_part(path) =~= name);
    } else {
        let shorter = name.drop_last();
        assert(name.contains(name.last()));
        assert(path.drop_last() =~= dir.push(slash) + shorter);
        assert forall|c: char| shorter.contains(c) implies name.contains(c) by {
            let i = choose|i: int| 0 <= i < shorter.len() && shorter[i] == c;
            assert(name[i] == c);
        }
        law_a_name_is_what_follows_the_last_slash(dir, slash, shorter);
        assert(shorter.push(name.last()) =~= name);
    }
}

proof fn lemma_padded_number(n: nat, width: nat)
    requires
        width == 2 && n < 100 || width == 4 && n < 10000,
    ensures
        zero_padded(decimal(n), width).len() == width,
        number_of(zero_padded(decimal(n), width), 10) == n,
{
    law_a_decimal_comes_back(n);
    reveal_with_fuel(digits, 5);
    law_padding_puts_zeros_in_front(decimal(n), width);
    lemma_leading_zeros(decimal(n), (width - decimal(n).len()) as nat);
    let zeros = Seq::new((width - decimal(n).len()) as nat, |i: int| '0');
    assert(zero_padded(decimal(n), width) =~= zeros + decimal(n));
}

proof fn lemma_leading_zeros(s: Seq<char>, k: nat)
    ensures
        number_of(Seq::new(k, |i: int| '0') + s, 10) == number_of(s, 10),
    decreases s.len(), k,
{
    let zeros = Seq::new(k, |i: int| '0');
    let all = zeros + s;
    if s.len() > 0 {
        lemma_leading_zeros(s.drop_last(), k);
        assert(all.drop_last() =~= zeros + s.drop_last());
    } else if k > 0 {
        lemma_leading_zeros(s, (k - 1) as nat);
        assert(all.drop_last() =~= Seq::new((k - 1) as nat, |i: int| '0') + s);
        assert(all.last() == '0');
    }
}

/// The wall clock can be read back from its words: year, month and day with
/// dashes between them, a space, and hour, minute and second with colons
/// between them, each in its own place and filled up with zeros.
pub proof fn law_the_clock_can_be_read_back(
    year: u16,
    month: u16,
    day: u16,
    hour: u16,
    minute: u16,
    second: u16,
)
    requires
        year < 10000,
        month < 100,
        day < 100,
        hour < 100,
        minute < 100,
        second < 100,
    ensures
        ({
            let words = (Clock::Local { year, month, day, hour, minute, second }).words();
            &&& words.len() == 19
            &&& number_of(words.subrange(0, 4), 10) == year
            &&& number_of(words.subrange(5, 7), 10) == month
            &&& number_of(words.subrange(8, 10), 10) == day
            &&& number_of(words.subrange(11, 13), 10) == hour
            &&& number_of(words.subrange(14, 16), 10) == minute
            &&& number_of(words.subrange(17, 19), 10) == second
            &&& words[4] == '-' && words[7] == '-' && words[10] == ' ' && words[13] == ':'
                && words[16] == ':'
        }),
{
    reveal_strlit("-");
    reveal_strlit(" ");
    reveal_strlit(":");
    lemma_padded_number(year as nat, 4);
    lemma_padded_number(month as nat, 2);
    lemma_padded_number(day as nat, 2);
    lemma_padded_number(hour as nat, 2);
    lemma_padded_number(minute as nat, 2);
    lemma_padded_number(second as nat, 2);
    let words = (Clock::Local { year, month, day, hour, minute, second }).words();
    assert(words.subrange(0, 4) =~= zero_padded(decimal(year as nat), 4));
    assert(words.subrange(5, 7) =~= zero_padded(decimal(month as nat), 2));
    assert(words.subrange(8, 10) =~= zero_padded(decimal(day as nat), 2));
    assert(words.subrange(11, 13) =~= zero_padded(decimal(hour as nat), 2));
    assert(words.subrange(14, 16) =~= zero_padded(decimal(minute as nat), 2));
    assert(words.subrange(17, 19) =~= zero_padded(decimal(second as nat), 2));
}

/// The name of what is in the foreground is the end of its path behind the
/// last slash, and unknown if the path is.
pub proof fn law_the_foreground_is_named_without_its_path(
    image: Option<String>,
    r: Option<String>,
)
    requires
        call_ensures(foreground_process, (image,), r),
    ensures
        r is Some <==> image is Some,
        r matches Some(name) ==> {
            let path = image->0@;
            let from = path.len() - name@.len();
            &&& 0 <= from && name@ == path.skip(from)
            &&& from > 0 ==> path[from - 1] == '\\' || path[from - 1] == '/'
            &&& forall|i: int|
                0 <= i < name@.len() ==> #[trigger] name@[i] != '\\' && name@[i] != '/'
        },
{
    if let Some(path) = image {
        law_the_last_part_is_what_follows_the_last_separator(path@);
        let from = path@.len() - last_part(path@).len();
        assert forall|i: int| 0 <= i < last_part(path@).len() implies #[trigger] last_part(
            path@,
        )[i] != '\\' && last_part(path@)[i] != '/' by {
            assert(last_part(path@)[i] == path@[from + i]);
            assert(!is_separator(path@[from + i]));
        }
    }
}

/// Where there is no wall clock, the seconds since the epoch can be read back
/// from their words.
pub proof fn law_seconds_can_be_read_back(secs: u64)
    ensures
        number_of(Clock::Epoch(Some(secs)).words(), 10) == secs,
        Clock::Epoch(None).words() == seq!['0'],
{
    law_a_decimal_comes_back(secs as nat);
    law_a_decimal_comes_back(0);
}

/// A keystroke in words says which key, in two digits or more, and which way
/// it goes.
pub proof fn law_a_keystroke_in_words(vk: u16)
    ensures
        ({
            let lead = "[stub] key 0x"@ + zero_padded(hex(vk as nat), 2);
            &&& keystroke(vk, true) == lead + " down"@
            &&& keystroke(vk, false) == lead + " up"@
        }),
        keystroke(vk, true) != keystroke(vk, false),
{
    reveal_strlit(" down");
    reveal_strlit(" up");
    assert(keystroke(vk, true).len() != keystroke(vk, false).len());
}

/// A directory that the environment names comes before the home directory.
pub proof fn law_a_named_directory_comes_first(named: bool, home: bool, r: Base)
    requires
        call_ensures(config_dir, (named, home), r),
    ensures
        r == Base::Named <==> named,
        r == Base::Home <==> home && !named,
{
}

} // verus!
