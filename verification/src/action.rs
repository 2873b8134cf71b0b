//! What holding the button does, and which application gets which action.

use vstd::prelude::*;
use vstd::string::*;

use crate::log::{complain, complained, lines_view, Line, LineView};
use crate::platform::{vk_by_name, vk_code};
use crate::text::{
    chars_of, hex_u16, is_blank, is_whitespace, law_trimming_removes_what_is_blank, lower, lower_char,
    parse_hex_u16, same, strip_prefix, stripped, to_lower, trim, trimmed, upper_char,
};

verus! {

/// What holding the button does.
#[derive(Debug, Clone, Copy, PartialEq, Eq, Structural)]
pub enum Action {
    /// Nothing at all.
    Nothing,
    /// A synthesised key, by virtual-key code.
    Key(u16),
    /// Discord, unmuted over its local pipe.
    Rpc,
}

/// The virtual-key code that the value of a `key:` action names, or zero.
pub open spec fn key_code(value: Seq<char>) -> u16 {
    match stripped(value, "0x"@) {
        Some(number) => match hex_u16(number) {
            Some(vk) => vk,
            None => 0,
        },
        None => if value.len() == 1 && (value[0] as u32) < 0x80 {
            // Letters and digits: the code is the capital's ASCII value.
            upper_char(value[0]) as u16
        } else {
            vk_code(value)
        },
    }
}

/// The action that a configuration string spells, if it spells one.
pub open spec fn recognised(text: Seq<char>) -> Option<Action> {
    let s = trimmed(text);
    if lower(s) == "rpc"@ {
        Some(Action::Rpc)
    } else if lower(s) == "none"@ || s.len() == 0 {
        Some(Action::Nothing)
    } else {
        match stripped(s, "key:"@) {
            Some(value) if key_code(trimmed(value)) != 0 => Some(
                Action::Key(key_code(trimmed(value))),
            ),
            _ => None,
        }
    }
}

/// The action that a configuration string asks for: a misspelt one does
/// nothing.
pub open spec fn action_of(text: Seq<char>) -> Action {
    match recognised(text) {
        Some(action) => action,
        None => Action::Nothing,
    }
}

fn key_value(value: &str) -> (vk: u16)
    ensures
        vk == key_code(value@),
{
    match strip_prefix(value, "0x") {
        Some(number) => match parse_hex_u16(number) {
            Some(vk) => vk,
            None => 0,
        },
        None => {
            let chars = chars_of(value);
            if chars.len() == 1 && (chars[0] as u32) < 0x80 {
                let c: u8 = chars[0] as u8;
                if 0x61 <= c && c <= 0x7a {
                    c as u16 - 32
                } else {
                    c as u16
                }
            } else {
                vk_by_name(value)
            }
        },
    }
}

/// The action that a configuration string spells, or nothing for a typo.
pub fn recognise(text: &str) -> (r: Option<Action>)
    ensures
        r == recognised(text@),
{
    let s = trim(text);
    let small = to_lower(s);
    if same(small.as_str(), "rpc") {
        return Some(Action::Rpc);
    }
    if same(small.as_str(), "none") || s.is_empty() {
        return Some(Action::Nothing);
    }
    if let Some(value) = strip_prefix(s, "key:") {
        let vk = key_value(trim(value));
        if vk != 0 {
            return Some(Action::Key(vk));
        }
    }
    None
}

/// The action that a configuration string asks for.
pub fn parse_action(s: &str) -> (action: Action)
    ensures
        action == action_of(s@),
{
    match recognise(s) {
        Some(action) => action,
        None => Action::Nothing,
    }
}

/// The warning that an action which spells nothing deserves: at runtime it is
/// indistinguishable from a button that simply does nothing.
pub open spec fn action_warnings(text: Seq<char>) -> Seq<LineView> {
    if recognised(text) is None {
        seq![
            complained(
                "warning: could not parse action '"@ + trimmed(text) + "', treating as none"@,
            ),
        ]
    } else {
        Seq::empty()
    }
}

/// Adds the warning that `text` deserves as an action, if it deserves one.
pub fn warn_about_action(text: &str, lines: &mut Vec<Line>)
    ensures
        lines_view(final(lines)@) == lines_view(old(lines)@) + action_warnings(text@),
{
    let ghost before = lines_view(lines@);
    if recognise(text).is_none() {
        let mut warning = "warning: could not parse action '".to_owned();
        warning.append(trim(text));
        warning.append("', treating as none");
        complain(lines, warning);
    }
    assert(lines_view(lines@) =~= before + action_warnings(text@));
}

/// The action of the first rule for `exe`, or else the default.
pub open spec fn matched(
    exe: Seq<char>,
    rules: Seq<(Seq<char>, Action)>,
    default: Action,
) -> Action
    decreases rules.len(),
{
    if rules.len() == 0 {
        default
    } else if rules[0].0 == exe {
        rules[0].1
    } else {
        matched(exe, rules.drop_first(), default)
    }
}

/// What a list of compiled rules says.
pub open spec fn compiled_view(rules: Seq<(String, Action)>) -> Seq<(Seq<char>, Action)> {
    rules.map_values(|r: (String, Action)| (r.0@, r.1))
}

/// The action for a foreground executable: the name is matched whole and
/// whatever its case, the first rule that fits wins, and without one the
/// default holds. The names in the rules are in small letters already.
pub fn match_action(exe: &str, rules: &[(String, Action)], default: Action) -> (r: Action)
    ensures
        r == matched(lower(exe@), compiled_view(rules@), default),
{
    let name = to_lower(exe);
    let ghost all = compiled_view(rules@);
    let mut i: usize = 0;
    assert(all.skip(0) =~= all);
    while i < rules.len()
        invariant
            i <= rules@.len(),
            all == compiled_view(rules@),
            name@ == lower(exe@),
            matched(name@, all, default) == matched(name@, all.skip(i as int), default),
        decreases rules@.len() - i,
    {
        if same(name.as_str(), rules[i].0.as_str()) {
            return rules[i].1;
        }
        assert(all.skip(i as int).drop_first() =~= all.skip(i + 1));
        i += 1;
    }
    default
}

/// The action for whatever is in the foreground.
pub open spec fn picked(
    exe: Option<Seq<char>>,
    rules: Seq<(Seq<char>, Action)>,
    default: Action,
) -> Action {
    match exe {
        Some(exe) => matched(lower(exe), rules, default),
        None => default,
    }
}

/// The action for whatever is in the foreground, or the default if that
/// cannot be told.
pub fn pick_action(exe: &Option<String>, rules: &[(String, Action)], default: Action) -> (r: Action)
    ensures
        r == picked(
            match exe {
                Some(name) => Some(name@),
                None => None,
            },
            compiled_view(rules@),
            default,
        ),
{
    match exe {
        Some(name) => match_action(name.as_str(), rules, default),
        None => default,
    }
}

/// Whitespace around an action makes no difference to it, and neither does
/// the case of `rpc` and `none`.
pub proof fn law_an_action_may_be_spelt_loosely(
    before: Seq<char>,
    text: Seq<char>,
    after: Seq<char>,
)
    requires
        is_blank(before),
        is_blank(after),
    ensures
        recognised(before + text + after) == recognised(text),
        lower(text) == "rpc"@ ==> recognised(before + text + after) == Some(Action::Rpc),
        lower(text) == "none"@ ==> recognised(before + text + after) == Some(Action::Nothing),
{
    law_trimming_removes_what_is_blank(before, text, after);
    reveal_strlit("rpc");
    reveal_strlit("none");
    if lower(text) == "rpc"@ || lower(text) == "none"@ {
        assert(lower(text).len() == text.len());
        assert(text.len() == "rpc"@.len() || text.len() == "none"@.len());
        assert(lower(text)[0] == lower_char(text[0]));
        assert(lower(text).last() == lower_char(text.last()));
        assert(trimmed(text) == text);
    }
}

/// No action ever asks for a key that does not exist.
pub proof fn law_a_key_action_has_a_key(text: Seq<char>)
    ensures
        action_of(text) matches Action::Key(vk) ==> vk != 0,
{
}

/// The first rule for an executable wins, and a rule is for an executable only
/// if it names it whole. Without one the default holds.
pub proof fn law_the_first_rule_wins(
    exe: Seq<char>,
    rules: Seq<(Seq<char>, Action)>,
    default: Action,
    i: int,
)
    requires
        0 <= i <= rules.len(),
        forall|j: int| 0 <= j < i ==> (#[trigger] rules[j]).0 != exe,
        i < rules.len() ==> rules[i].0 == exe,
    ensures
        matched(exe, rules, default) == (if i < rules.len() {
            rules[i].1
        } else {
            default
        }),
    decreases rules.len(),
{
    if i > 0 {
        let rest = rules.drop_first();
        assert(rules[0].0 != exe);
        assert forall|j: int| 0 <= j < i - 1 implies (#[trigger] rest[j]).0 != exe by {
            assert(rest[j] == rules[j + 1]);
        }
        law_the_first_rule_wins(exe, rest, default, i - 1);
    }
}

/// The case of an executable's name makes no difference.
pub proof fn law_matching_ignores_case(
    one: Seq<char>,
    other: Seq<char>,
    rules: Seq<(Seq<char>, Action)>,
    default: Action,
)
    requires
        lower(one) == lower(other),
    ensures
        picked(Some(one), rules, default) == picked(Some(other), rules, default),
{
}

/// The action for an application is that of the first rule that names it, in
/// capitals or small letters, whatever that action is. The default is for
/// applications that no rule names, and for when none is known.
pub proof fn law_the_first_rule_decides(
    exe: Seq<char>,
    rules: Seq<(Seq<char>, Action)>,
    default: Action,
    i: int,
)
    requires
        0 <= i <= rules.len(),
        forall|j: int| 0 <= j < i ==> (#[trigger] rules[j]).0 != lower(exe),
        i < rules.len() ==> rules[i].0 == lower(exe),
    ensures
        picked(Some(exe), rules, default) == (if i < rules.len() {
            rules[i].1
        } else {
            default
        }),
        picked(None, rules, default) == default,
{
    law_the_first_rule_wins(lower(exe), rules, default, i);
}

/// Rules that come after the first for an application make no difference to
/// it, and neither does the default.
pub proof fn law_later_rules_make_no_difference(
    exe: Seq<char>,
    before: Seq<(Seq<char>, Action)>,
    action: Action,
    after: Seq<(Seq<char>, Action)>,
    default: Action,
)
    requires
        forall|j: int| 0 <= j < before.len() ==> (#[trigger] before[j]).0 != lower(exe),
    ensures
        picked(Some(exe), before + seq![(lower(exe), action)] + after, default) == action,
        picked(Some(exe), before, default) == default,
{
    let all = before + seq![(lower(exe), action)] + after;
    let n = before.len() as int;
    assert(all[n] == (lower(exe), action));
    assert forall|j: int| 0 <= j < n implies (#[trigger] all[j]).0 != lower(exe) by {
        assert(all[j] == before[j]);
    }
    law_the_first_rule_decides(exe, all, default, n);
    law_the_first_rule_decides(exe, before, default, n);
}

/// What a configuration string may spell: Discord, nothing, or a key. What is
/// left spells nothing and is worth a warning, and does nothing.
pub proof fn law_what_an_action_may_be(text: Seq<char>)
    ensures
        action_of(text) == Action::Rpc <==> lower(trimmed(text)) == "rpc"@,
        recognised(text) == Some(Action::Nothing) <==> lower(trimmed(text)) == "none"@ || trimmed(
            text,
        ).len() == 0,
        action_of(text) is Key ==> trimmed(text).len() >= 4 && trimmed(text).take(4) == "key:"@,
        recognised(text) is None <==> action_warnings(text).len() == 1,
        recognised(text) is None ==> action_of(text) == Action::Nothing && action_warnings(
            text,
        )[0].error,
        recognised(text) is Some ==> action_warnings(text).len() == 0 && recognised(text) == Some(
            action_of(text),
        ),
{
    reveal_strlit("rpc");
    reveal_strlit("none");
    reveal_strlit("key:");
    let s = trimmed(text);
    assert("rpc"@.len() == 3 && "none"@.len() == 4 && "rpc"@ != "none"@);
    assert(lower(s).len() == s.len());
}

/// A key that is named behind a blank or two, in a string whose ends are not
/// blank.
proof fn lemma_key_text(blank: Seq<char>, value: Seq<char>)
    requires
        is_blank(blank),
        value.len() > 0,
        !is_whitespace(value.first()),
        !is_whitespace(value.last()),
    ensures
        recognised("key:"@ + blank + value) == (if key_code(value) != 0 {
            Some(Action::Key(key_code(value)))
        } else {
            None
        }),
{
    reveal_strlit("key:");
    reveal_strlit("rpc");
    reveal_strlit("none");
    let text = "key:"@ + blank + value;
    assert(text[0] == 'k' && text.last() == value.last());
    assert(trimmed(text) == text);
    assert(lower(text).len() == text.len());
    assert(text.skip(4) =~= blank + value);
    assert(text.take(4) =~= "key:"@);
    assert(blank + value =~= blank + value + Seq::<char>::empty());
    law_trimming_removes_what_is_blank(blank, value, Seq::empty());
    assert(trimmed(value) == value);
}

/// A key may be given by the character on it: a letter, of either case, stands
/// for the key with its capital, and any other character of ASCII for itself.
pub proof fn law_a_key_may_be_given_by_its_character(blank: Seq<char>, c: char)
    requires
        is_blank(blank),
        0x21 <= c as u32 <= 0x7e,
    ensures
        action_of("key:"@ + blank + seq![c]) == Action::Key(
            if 97 <= c as u32 <= 122 {
                (c as u32 - 32) as u16
            } else {
                c as u16
            },
        ),
{
    reveal_strlit("0x");
    lemma_key_text(blank, seq![c]);
    assert(stripped(seq![c], "0x"@) is None);
}

/// A key may be given by its number in hexadecimal.
pub proof fn law_a_key_may_be_given_by_its_number(blank: Seq<char>, number: Seq<char>, vk: u16)
    requires
        is_blank(blank),
        number.len() > 0,
        !is_whitespace(number.last()),
        hex_u16(number) == Some(vk),
        vk != 0,
    ensures
        action_of("key:"@ + blank + ("0x"@ + number)) == Action::Key(vk),
{
    reveal_strlit("0x");
    let value = "0x"@ + number;
    assert(value.take(2) =~= "0x"@);
    assert(value.skip(2) =~= number);
    lemma_key_text(blank, value);
}

/// A key may be given by its name, and a name that no key has spells nothing.
pub proof fn law_a_key_may_be_given_by_its_name(blank: Seq<char>, name: Seq<char>)
    requires
        is_blank(blank),
        name.len() > 1,
        !is_whitespace(name.first()),
        !is_whitespace(name.last()),
        name[0] != '0' || name[1] != 'x',
    ensures
        recognised("key:"@ + blank + name) == (if vk_code(name) != 0 {
            Some(Action::Key(vk_code(name)))
        } else {
            None
        }),
{
    reveal_strlit("0x");
    lemma_key_text(blank, name);
    if "0x"@.is_prefix_of(name) {
        assert(name.take(2)[0] == name[0] && name.take(2)[1] == name[1]);
    }
}

/// What looks like a number and is none, or is zero, spells no key.
pub proof fn law_a_bad_number_spells_no_key(blank: Seq<char>, number: Seq<char>)
    requires
        is_blank(blank),
        number.len() > 0 ==> !is_whitespace(number.last()),
        hex_u16(number) is None || hex_u16(number) == Some(0u16),
    ensures
        recognised("key:"@ + blank + ("0x"@ + number)) is None,
        action_of("key:"@ + blank + ("0x"@ + number)) == Action::Nothing,
{
    reveal_strlit("0x");
    let value = "0x"@ + number;
    assert(value.take(2) =~= "0x"@);
    assert(value.skip(2) =~= number);
    lemma_key_text(blank, value);
}

/// A character that is not ASCII is no key by itself: it would have to be the
/// name of one.
pub proof fn law_a_foreign_character_is_no_key(blank: Seq<char>, c: char)
    requires
        is_blank(blank),
        !is_whitespace(c),
        c as u32 >= 0x80,
    ensures
        recognised("key:"@ + blank + seq![c]) == (if vk_code(seq![c]) != 0 {
            Some(Action::Key(vk_code(seq![c])))
        } else {
            None
        }),
{
    reveal_strlit("0x");
    lemma_key_text(blank, seq![c]);
    assert(stripped(seq![c], "0x"@) is None);
}

/// Of the rules, the first whose name is that of the application in small
/// letters decides what is done, whatever it decides. Where there is none, and
/// where it cannot be told which application it is, that is the default.
pub proof fn law_what_is_picked(
    exe: &Option<String>,
    rules: &[(String, Action)],
    default: Action,
    r: Action,
    i: int,
)
    requires
        call_ensures(pick_action, (exe, rules, default), r),
        0 <= i <= rules@.len(),
        exe matches Some(name) ==> {
            &&& forall|j: int| 0 <= j < i ==> (#[trigger] rules@[j]).0@ != lower(name@)
            &&& i < rules@.len() ==> rules@[i].0@ == lower(name@)
        },
    ensures
        exe is Some && i < rules@.len() ==> r == rules@[i].1,
        exe is None || i == rules@.len() ==> r == default,
{
    if let Some(name) = exe {
        let all = compiled_view(rules@);
        assert forall|j: int| 0 <= j < i implies (#[trigger] all[j]).0 != lower(name@) by {
            assert(all[j].0 == rules@[j].0@);
        }
        law_the_first_rule_decides(name@, all, default, i);
    }
}

/// Reading an action gives the one that is spelt, and nothing is done for what
/// spells none. That, and only that, is worth a warning, which comes behind
/// what there is to say already and quotes it.
pub proof fn law_what_is_spelt_is_read(
    text: &str,
    spelt: Option<Action>,
    action: Action,
    lines: &mut Vec<Line>,
)
    requires
        call_ensures(recognise, (text,), spelt),
        call_ensures(parse_action, (text,), action),
        call_ensures(warn_about_action, (text, lines), ()),
    ensures
        spelt == recognised(text@),
        spelt is Some ==> action == spelt->0,
        spelt is None ==> action == Action::Nothing,
        ({
            let (before, after) = (lines_view(old(lines)@), lines_view(final(lines)@));
            &&& spelt is Some ==> after == before
            &&& spelt is None ==> after.len() == before.len() + 1 && after.drop_last() == before
                && after.last().error && after.last().text == "warning: could not parse action '"@
                + trimmed(text@) + "', treating as none"@
        }),
{
    let (before, after) = (lines_view(old(lines)@), lines_view(final(lines)@));
    if spelt is Some {
        assert(after =~= before);
    } else {
        assert(after.drop_last() =~= before);
    }
}

} // verus!
