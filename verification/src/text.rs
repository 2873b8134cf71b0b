//! Plain text: ASCII case, trimming, prefixes and numbers.
//!
//! Contracts speak of a string as the sequence of its characters.

use vstd::prelude::*;
use vstd::string::*;

verus! {

/// `String::push` appends one character to the end of the string.
pub assume_specification[ String::push ](s: &mut String, c: char)
    ensures
        final(s)@ == old(s)@.push(c),
;

/// The characters of `s`.
pub fn chars_of(s: &str) -> (r: Vec<char>)
    ensures
        r@ == s@,
{
    let mut out: Vec<char> = Vec::new();
    for c in it: s.chars()
        invariant
            it.seq() == s@,
            out@ == s@.take(it.index() as int),
    {
        out.push(c);
    }
    out
}

/// Whether two strings hold the same characters.
pub fn same(a: &str, b: &str) -> (r: bool)
    ensures
        r == (a@ == b@),
{
    let left = chars_of(a);
    let right = chars_of(b);
    if left.len() != right.len() {
        return false;
    }
    let mut i: usize = 0;
    while i < left.len()
        invariant
            left@ == a@,
            right@ == b@,
            left@.len() == right@.len(),
            i <= left@.len(),
            forall|k: int| 0 <= k < i ==> left@[k] == right@[k],
        decreases left@.len() - i,
    {
        if left[i] != right[i] {
            return false;
        }
        i += 1;
    }
    assert(a@ =~= b@);
    true
}

/// `c` with an ASCII capital letter made small.
pub open spec fn lower_char(c: char) -> char {
    if 'A' <= c && c <= 'Z' {
        (c as u32 + 32) as char
    } else {
        c
    }
}

/// `c` with an ASCII small letter made capital.
pub open spec fn upper_char(c: char) -> char {
    if 'a' <= c && c <= 'z' {
        (c as u32 - 32) as char
    } else {
        c
    }
}

/// `s` with every ASCII capital letter made small and nothing else changed.
pub open spec fn lower(s: Seq<char>) -> Seq<char> {
    Seq::new(s.len(), |i: int| lower_char(s[i]))
}

/// `s` with every ASCII small letter made capital and nothing else changed.
pub open spec fn upper(s: Seq<char>) -> Seq<char> {
    Seq::new(s.len(), |i: int| upper_char(s[i]))
}

fn make_lower(c: char) -> (r: char)
    ensures
        r == lower_char(c),
{
    if 'A' <= c && c <= 'Z' {
        (c as u8 + 32) as char
    } else {
        c
    }
}

fn make_upper(c: char) -> (r: char)
    ensures
        r == upper_char(c),
{
    if 'a' <= c && c <= 'z' {
        (c as u8 - 32) as char
    } else {
        c
    }
}

/// `s` in ASCII small letters.
pub fn to_lower(s: &str) -> (r: String)
    ensures
        r@ == lower(s@),
{
    let chars = chars_of(s);
    let mut out = String::new();
    let mut i: usize = 0;
    while i < chars.len()
        invariant
            chars@ == s@,
            i <= chars@.len(),
            out@ == lower(s@).take(i as int),
        decreases chars@.len() - i,
    {
        out.push(make_lower(chars[i]));
        i += 1;
    }
    assert(lower(s@).take(i as int) =~= lower(s@));
    out
}

/// `s` in ASCII capital letters.
pub fn to_upper(s: &str) -> (r: String)
    ensures
        r@ == upper(s@),
{
    let chars = chars_of(s);
    let mut out = String::new();
    let mut i: usize = 0;
    while i < chars.len()
        invariant
            chars@ == s@,
            i <= chars@.len(),
            out@ == upper(s@).take(i as int),
        decreases chars@.len() - i,
    {
        out.push(make_upper(chars[i]));
        i += 1;
    }
    assert(upper(s@).take(i as int) =~= upper(s@));
    out
}

/// The Unicode `White_Space` property.
pub open spec fn is_whitespace(c: char) -> bool {
    let u = c as u32;
    ||| 0x09 <= u <= 0x0d
    ||| u == 0x20
    ||| u == 0x85
    ||| u == 0xa0
    ||| u == 0x1680
    ||| 0x2000 <= u <= 0x200a
    ||| u == 0x2028
    ||| u == 0x2029
    ||| u == 0x202f
    ||| u == 0x205f
    ||| u == 0x3000
}

fn whitespace(c: char) -> (r: bool)
    ensures
        r == is_whitespace(c),
{
    let u: u32 = c as u32;
    (0x09 <= u && u <= 0x0d) || u == 0x20 || u == 0x85 || u == 0xa0 || u == 0x1680 || (0x2000 <= u
        && u <= 0x200a) || u == 0x2028 || u == 0x2029 || u == 0x202f || u == 0x205f || u == 0x3000
}

/// `s` without the whitespace it starts with.
pub open spec fn trim_start(s: Seq<char>) -> Seq<char>
    decreases s.len(),
{
    if s.len() > 0 && is_whitespace(s.first()) {
        trim_start(s.drop_first())
    } else {
        s
    }
}

/// `s` without the whitespace it ends with.
pub open spec fn trim_end(s: Seq<char>) -> Seq<char>
    decreases s.len(),
{
    if s.len() > 0 && is_whitespace(s.last()) {
        trim_end(s.drop_last())
    } else {
        s
    }
}

/// `s` without the whitespace at either end.
pub open spec fn trimmed(s: Seq<char>) -> Seq<char> {
    trim_end(trim_start(s))
}

/// `s` without the whitespace at either end.
pub fn trim(s: &str) -> (r: &str)
    ensures
        r@ == trimmed(s@),
{
    let chars = chars_of(s);
    let mut from: usize = 0;
    assert(s@.skip(0) =~= s@);
    while from < chars.len() && whitespace(chars[from])
        invariant
            chars@ == s@,
            from <= chars@.len(),
            trim_start(s@) == trim_start(s@.skip(from as int)),
        decreases chars@.len() - from,
    {
        assert(s@.skip(from as int).drop_first() =~= s@.skip(from + 1));
        from += 1;
    }
    assert(trim_start(s@) == s@.skip(from as int));
    let mut to: usize = chars.len();
    assert(s@.subrange(from as int, to as int) =~= s@.skip(from as int));
    while from < to && whitespace(chars[to - 1])
        invariant
            chars@ == s@,
            from <= to <= chars@.len(),
            trimmed(s@) == trim_end(s@.subrange(from as int, to as int)),
        decreases to,
    {
        assert(s@.subrange(from as int, to as int).drop_last() =~= s@.subrange(
            from as int,
            to - 1,
        ));
        to -= 1;
    }
    s.substring_char(from, to)
}

/// Whether `s` is whitespace throughout.
pub open spec fn is_blank(s: Seq<char>) -> bool {
    forall|i: int| 0 <= i < s.len() ==> is_whitespace(#[trigger] s[i])
}

proof fn lemma_trim_start_blank(blank: Seq<char>, s: Seq<char>)
    requires
        is_blank(blank),
    ensures
        trim_start(blank + s) == trim_start(s),
    decreases blank.len(),
{
    if blank.len() == 0 {
        assert(blank + s =~= s);
    } else {
        assert(is_whitespace(blank[0]));
        assert((blank + s).drop_first() =~= blank.drop_first() + s);
        lemma_trim_start_blank(blank.drop_first(), s);
    }
}

proof fn lemma_trim_end_blank(s: Seq<char>, blank: Seq<char>)
    requires
        is_blank(blank),
    ensures
        trim_end(s + blank) == trim_end(s),
    decreases blank.len(),
{
    if blank.len() == 0 {
        assert(s + blank =~= s);
    } else {
        assert(is_whitespace(blank[blank.len() - 1]));
        assert((s + blank).drop_last() =~= s + blank.drop_last());
        lemma_trim_end_blank(s, blank.drop_last());
    }
}

/// Text that is followed by whitespace loses the same at its start, unless
/// there is nothing but whitespace.
proof fn lemma_trim_start_before(s: Seq<char>, blank: Seq<char>)
    requires
        is_blank(blank),
    ensures
        trim_start(s).len() > 0 ==> trim_start(s + blank) == trim_start(s) + blank,
        trim_start(s).len() == 0 ==> trim_start(s + blank).len() == 0,
    decreases s.len(),
{
    if s.len() == 0 {
        assert(s + blank =~= blank + Seq::<char>::empty());
        lemma_trim_start_blank(blank, Seq::empty());
    } else if is_whitespace(s.first()) {
        assert((s + blank).drop_first() =~= s.drop_first() + blank);
        lemma_trim_start_before(s.drop_first(), blank);
    }
}

/// Whitespace around a text makes no difference once it is trimmed.
pub proof fn law_trimming_removes_what_is_blank(before: Seq<char>, s: Seq<char>, after: Seq<char>)
    requires
        is_blank(before),
        is_blank(after),
    ensures
        trimmed(before + s + after) == trimmed(s),
{
    assert(before + s + after =~= before + (s + after));
    lemma_trim_start_blank(before, s + after);
    lemma_trim_start_before(s, after);
    lemma_trim_end_blank(trim_start(s), after);
}

proof fn lemma_trim_start_first(s: Seq<char>)
    ensures
        trim_start(s).len() > 0 ==> !is_whitespace(trim_start(s).first()),
    decreases s.len(),
{
    if s.len() > 0 && is_whitespace(s.first()) {
        lemma_trim_start_first(s.drop_first());
    }
}

proof fn lemma_trim_end_ends(s: Seq<char>)
    ensures
        trim_end(s).len() > 0 ==> trim_end(s).first() == s.first() && !is_whitespace(
            trim_end(s).last(),
        ),
    decreases s.len(),
{
    if s.len() > 0 && is_whitespace(s.last()) {
        lemma_trim_end_ends(s.drop_last());
    }
}

/// What has been trimmed neither starts nor ends with whitespace, and trimming
/// it again changes nothing.
pub proof fn law_trimming_is_done_once(s: Seq<char>)
    ensures
        trimmed(s).len() > 0 ==> !is_whitespace(trimmed(s).first()) && !is_whitespace(
            trimmed(s).last(),
        ),
        trimmed(trimmed(s)) == trimmed(s),
{
    lemma_trim_start_first(s);
    lemma_trim_end_ends(trim_start(s));
}

/// Case does not survive being taken away: text that differs in the case of
/// ASCII letters alone is the same in small letters, and small letters stay
/// as they are.
pub proof fn law_lower_case_forgets_case(s: Seq<char>)
    ensures
        lower(lower(s)) == lower(s),
        lower(upper(s)) == lower(s),
        upper(lower(s)) == upper(s),
{
    assert(lower(lower(s)) =~= lower(s));
    assert(lower(upper(s)) =~= lower(s));
    assert(upper(lower(s)) =~= upper(s));
}

/// What follows `prefix` in `s`, if `s` starts with it.
pub open spec fn stripped(s: Seq<char>, prefix: Seq<char>) -> Option<Seq<char>> {
    if prefix.is_prefix_of(s) {
        Some(s.skip(prefix.len() as int))
    } else {
        None
    }
}

/// What follows `prefix` in `s`, if `s` starts with it.
pub fn strip_prefix<'a>(s: &'a str, prefix: &str) -> (r: Option<&'a str>)
    ensures
        match r {
            Some(rest) => stripped(s@, prefix@) == Some(rest@),
            None => stripped(s@, prefix@) is None,
        },
{
    let chars = chars_of(s);
    let lead = chars_of(prefix);
    if lead.len() > chars.len() {
        return None;
    }
    let mut i: usize = 0;
    while i < lead.len()
        invariant
            chars@ == s@,
            lead@ == prefix@,
            lead@.len() <= chars@.len(),
            i <= lead@.len(),
            forall|k: int| 0 <= k < i ==> chars@[k] == lead@[k],
        decreases lead@.len() - i,
    {
        if chars[i] != lead[i] {
            assert(s@.take(lead@.len() as int)[i as int] != prefix@[i as int]);
            return None;
        }
        i += 1;
    }
    assert(prefix@ =~= s@.take(prefix@.len() as int));
    Some(s.substring_char(lead.len(), chars.len()))
}

/// The digit that stands for `d`: `0` to `9`, then `a` to `f`.
pub open spec fn digit_char(d: nat) -> char {
    if d < 10 {
        ('0' as u32 + d) as char
    } else {
        ('a' as u32 + (d - 10)) as char
    }
}

/// `n` written in `base`, without leading zeros.
pub open spec fn digits(n: nat, base: nat) -> Seq<char>
    decreases n,
{
    if base < 2 || n < base {
        seq![digit_char(n)]
    } else {
        proof {
            vstd::arithmetic::div_mod::lemma_div_decreases(n as int, base as int);
        }
        digits(n / base, base).push(digit_char(n % base))
    }
}

/// `n` in decimal.
pub open spec fn decimal(n: nat) -> Seq<char> {
    digits(n, 10)
}

/// `n` in hexadecimal, small letters.
pub open spec fn hex(n: nat) -> Seq<char> {
    digits(n, 16)
}

/// `s` with zeros put in front until it is at least `width` long.
pub open spec fn zero_padded(s: Seq<char>, width: nat) -> Seq<char> {
    if s.len() < width {
        Seq::new((width - s.len()) as nat, |i: int| '0') + s
    } else {
        s
    }
}

fn push_digits(out: &mut String, n: u64, base: u64)
    requires
        2 <= base <= 16,
    ensures
        final(out)@ == old(out)@ + digits(n as nat, base as nat),
    decreases n,
{
    let ghost before = out@;
    proof {
        vstd::arithmetic::div_mod::lemma_mod_bound(n as int, base as int);
    }
    if n >= base {
        proof {
            vstd::arithmetic::div_mod::lemma_div_decreases(n as int, base as int);
        }
        push_digits(out, n / base, base);
        assert(out@ == before + digits((n / base) as nat, base as nat));
    } else {
        proof {
            vstd::arithmetic::div_mod::lemma_small_mod(n as nat, base as nat);
        }
    }
    let d: u8 = (n % base) as u8;
    if d < 10 {
        out.push((0x30 + d) as char);
    } else {
        out.push((0x61 + (d - 10)) as char);
    }
    assert(out@ =~= before + digits(n as nat, base as nat));
}

fn zeros(n: usize) -> (r: String)
    ensures
        r@ == Seq::new(n as nat, |i: int| '0'),
{
    let mut out = String::new();
    let mut i: usize = 0;
    while i < n
        invariant
            i <= n,
            out@ == Seq::new(i as nat, |k: int| '0'),
        decreases n - i,
    {
        out.push('0');
        i += 1;
    }
    out
}

fn in_base(n: u64, base: u64, width: usize) -> (r: String)
    requires
        2 <= base <= 16,
    ensures
        r@ == zero_padded(digits(n as nat, base as nat), width as nat),
{
    let mut body = String::new();
    push_digits(&mut body, n, base);
    assert(body@ =~= digits(n as nat, base as nat));
    let len: usize = body.as_str().unicode_len();
    if len < width {
        let mut out = zeros(width - len);
        out.append(body.as_str());
        out
    } else {
        body
    }
}

/// `n` in decimal.
pub fn to_decimal(n: u64) -> (r: String)
    ensures
        r@ == decimal(n as nat),
{
    in_base(n, 10, 0)
}

/// `n` in decimal, at least `width` digits.
pub fn to_padded_decimal(n: u64, width: usize) -> (r: String)
    ensures
        r@ == zero_padded(decimal(n as nat), width as nat),
{
    in_base(n, 10, width)
}

/// `n` in hexadecimal, at least `width` digits.
pub fn to_padded_hex(n: u64, width: usize) -> (r: String)
    ensures
        r@ == zero_padded(hex(n as nat), width as nat),
{
    in_base(n, 16, width)
}

/// What `c` counts for as a hexadecimal digit, of either case.
pub open spec fn hex_digit(c: char) -> Option<nat> {
    if '0' <= c && c <= '9' {
        Some((c as u32 - '0' as u32) as nat)
    } else if 'a' <= c && c <= 'f' {
        Some((c as u32 - 'a' as u32 + 10) as nat)
    } else if 'A' <= c && c <= 'F' {
        Some((c as u32 - 'A' as u32 + 10) as nat)
    } else {
        None
    }
}

/// The number that a run of hexadecimal digits stands for.
pub open spec fn hex_value(s: Seq<char>) -> Option<nat>
    decreases s.len(),
{
    if s.len() == 0 {
        Some(0)
    } else {
        match (hex_value(s.drop_last()), hex_digit(s.last())) {
            (Some(high), Some(low)) => Some(high * 16 + low),
            _ => None,
        }
    }
}

/// The 16-bit number written in hexadecimal by `s`: at least one digit, with
/// an optional plus sign in front.
pub open spec fn hex_u16(s: Seq<char>) -> Option<u16> {
    let body = if s.len() > 0 && s.first() == '+' {
        s.drop_first()
    } else {
        s
    };
    match hex_value(body) {
        Some(n) if body.len() > 0 && n <= u16::MAX => Some(n as u16),
        _ => None,
    }
}

fn hex_digit_value(c: char) -> (r: Option<u32>)
    ensures
        match r {
            Some(d) => hex_digit(c) == Some(d as nat) && d < 16,
            None => hex_digit(c) is None,
        },
{
    let u: u32 = c as u32;
    if 0x30 <= u && u <= 0x39 {
        Some(u - 0x30)
    } else if 0x61 <= u && u <= 0x66 {
        Some(u - 0x61 + 10)
    } else if 0x41 <= u && u <= 0x46 {
        Some(u - 0x41 + 10)
    } else {
        None
    }
}

/// Longer runs of digits stand for no smaller numbers, and a run that has
/// gone wrong does not recover.
proof fn lemma_hex_value_prefix(s: Seq<char>, k: int)
    requires
        0 <= k <= s.len(),
    ensures
        match (hex_value(s.take(k)), hex_value(s)) {
            (Some(a), Some(b)) => a <= b,
            (None, Some(b)) => false,
            _ => true,
        },
    decreases s.len() - k,
{
    if k == s.len() {
        assert(s.take(k) =~= s);
    } else {
        lemma_hex_value_prefix(s, k + 1);
        assert(s.take(k + 1).drop_last() =~= s.take(k));
    }
}

/// Reads a 16-bit hexadecimal number; nothing if `s` is not one.
pub fn parse_hex_u16(s: &str) -> (r: Option<u16>)
    ensures
        r == hex_u16(s@),
{
    let chars = chars_of(s);
    let from: usize = if chars.len() > 0 && chars[0] == '+' {
        1
    } else {
        0
    };
    let ghost body = s@.skip(from as int);
    proof {
        assert(s@.skip(0) =~= s@);
        assert(s@.len() > 0 ==> s@.skip(1) =~= s@.drop_first());
    }
    if chars.len() == from {
        return None;
    }
    let mut value: u32 = 0;
    let mut i: usize = from;
    while i < chars.len()
        invariant
            chars@ == s@,
            from <= i <= chars@.len(),
            body == s@.skip(from as int),
            value <= u16::MAX,
            hex_value(body.take(i - from)) == Some(value as nat),
            body == (if s@.len() > 0 && s@.first() == '+' {
                s@.drop_first()
            } else {
                s@
            }),
        decreases chars@.len() - i,
    {
        proof {
            assert(body.take(i + 1 - from).drop_last() =~= body.take(i - from));
            assert(body.take(i + 1 - from).last() == chars@[i as int]);
            lemma_hex_value_prefix(body, i + 1 - from);
        }
        match hex_digit_value(chars[i]) {
            None => {
                return None;
            },
            Some(d) => {
                value = value * 16 + d;
                if value > 0xffff {
                    return None;
                }
            },
        }
        i += 1;
    }
    assert(body.take(i - from) =~= body);
    Some(value as u16)
}

/// Two characters are the same in small letters exactly if they are the same
/// or two cases of one letter of ASCII, which are 32 apart. Text keeps its
/// length, and has no capital left.
pub proof fn law_only_case_is_taken_away(a: Seq<char>, b: Seq<char>, i: int)
    requires
        a.len() == b.len(),
        0 <= i < a.len(),
    ensures
        lower(a).len() == a.len(),
        upper(a).len() == a.len(),
        !(65 <= lower(a)[i] as u32 <= 90),
        !(97 <= upper(a)[i] as u32 <= 122),
        lower(a)[i] == lower(b)[i] <==> a[i] == b[i] || (65 <= a[i] as u32 <= 90 && b[i] as u32
            == a[i] as u32 + 32) || (65 <= b[i] as u32 <= 90 && a[i] as u32 == b[i] as u32 + 32),
        upper(a)[i] == upper(b)[i] <==> lower(a)[i] == lower(b)[i],
{
}

/// Whitespace is what separates words and lines, and no letter, digit or sign
/// of ASCII.
pub proof fn law_what_is_blank(c: char)
    ensures
        c == ' ' || c == '\t' || c == '\n' || c == '\r' ==> is_whitespace(c),
        c as u32 == 0xa0 || c as u32 == 0x3000 ==> is_whitespace(c),
        0x21 <= c as u32 <= 0x7e ==> !is_whitespace(c),
        (c as u32) < 0x80 && is_whitespace(c) ==> c == ' ' || 9 <= c as u32 <= 13,
        (c as u32) < 0x80 && 9 <= c as u32 <= 13 ==> is_whitespace(c),
        0x80 <= c as u32 <= 0x1fff ==> (is_whitespace(c) <==> c as u32 == 0x85 || c as u32 == 0xa0
            || c as u32 == 0x1680),
        0x2000 <= c as u32 <= 0x200a ==> is_whitespace(c),
        0x200b <= c as u32 <= 0x2fff ==> (is_whitespace(c) <==> c as u32 == 0x2028 || c as u32
            == 0x2029 || c as u32 == 0x202f || c as u32 == 0x205f),
        c as u32 > 0x3000 ==> !is_whitespace(c),
{
}

/// Trimming takes nothing off a text but the whitespace at its ends, and all
/// of that.
pub proof fn law_trimming_takes_off_blanks_alone(s: Seq<char>) -> (ends: (int, int))
    ensures
        0 <= ends.0 <= ends.1 <= s.len(),
        trimmed(s) == s.subrange(ends.0, ends.1),
        is_blank(s.take(ends.0)),
        is_blank(s.skip(ends.1)),
        ends.0 < ends.1 ==> !is_whitespace(s[ends.0]) && !is_whitespace(s[ends.1 - 1]),
{
    let from = lemma_trim_start_cut(s);
    let start = trim_start(s);
    let to = lemma_trim_end_cut(start);
    assert(trimmed(s) =~= s.subrange(from, from + to));
    lemma_trim_start_first(s);
    lemma_trim_end_ends(start);
    assert forall|i: int| 0 <= i < s.skip(from + to).len() implies is_whitespace(
        #[trigger] s.skip(from + to)[i],
    ) by {
        assert(start.skip(to)[i] == s.skip(from + to)[i]);
    }
    (from, from + to)
}

proof fn lemma_trim_start_cut(s: Seq<char>) -> (from: int)
    ensures
        0 <= from <= s.len(),
        trim_start(s) == s.skip(from),
        is_blank(s.take(from)),
    decreases s.len(),
{
    if s.len() > 0 && is_whitespace(s.first()) {
        let rest = s.drop_first();
        let n = lemma_trim_start_cut(rest);
        assert(rest.skip(n) =~= s.skip(n + 1));
        assert forall|i: int| 0 <= i < s.take(n + 1).len() implies is_whitespace(
            #[trigger] s.take(n + 1)[i],
        ) by {
            if i > 0 {
                assert(rest.take(n)[i - 1] == s[i]);
            }
        }
        n + 1
    } else {
        assert(s.skip(0) =~= s);
        0
    }
}

proof fn lemma_trim_end_cut(s: Seq<char>) -> (to: int)
    ensures
        0 <= to <= s.len(),
        trim_end(s) == s.take(to),
        is_blank(s.skip(to)),
    decreases s.len(),
{
    if s.len() > 0 && is_whitespace(s.last()) {
        let rest = s.drop_last();
        let n = lemma_trim_end_cut(rest);
        assert(rest.take(n) =~= s.take(n));
        assert forall|i: int| 0 <= i < s.skip(n).len() implies is_whitespace(
            #[trigger] s.skip(n)[i],
        ) by {
            if i + n < rest.len() {
                assert(rest.skip(n)[i] == s[i + n]);
            }
        }
        n
    } else {
        assert(s.take(s.len() as int) =~= s);
        s.len() as int
    }
}

/// What is left behind a prefix is what was put behind it, and nothing is left
/// where the prefix is not there.
pub proof fn law_a_prefix_comes_off_whole(s: Seq<char>, prefix: Seq<char>, rest: Seq<char>)
    ensures
        stripped(prefix + rest, prefix) == Some(rest),
        stripped(s, prefix) matches Some(left) ==> s == prefix + left,
        stripped(s, prefix) is None ==> s != prefix + rest,
{
    assert((prefix + rest).skip(prefix.len() as int) =~= rest);
    assert((prefix + rest).take(prefix.len() as int) =~= prefix);
    if prefix.is_prefix_of(s) {
        assert(s =~= prefix + s.skip(prefix.len() as int));
    }
}

/// The number that a run of digits stands for, in a base up to ten.
pub open spec fn number_of(s: Seq<char>, base: nat) -> int
    decreases s.len(),
{
    if s.len() == 0 {
        0
    } else {
        number_of(s.drop_last(), base) * base + (s.last() as u32 - 48)
    }
}

/// A number in decimal is made of digits, does not begin with a zero unless it
/// is zero, and is read back as it was.
pub proof fn law_a_decimal_comes_back(n: nat)
    ensures
        number_of(decimal(n), 10) == n,
        decimal(n).len() >= 1,
        forall|i: int| 0 <= i < decimal(n).len() ==> 48 <= #[trigger] decimal(n)[i] as u32 <= 57,
        n > 0 ==> decimal(n)[0] != '0',
        n == 0 ==> decimal(n) == seq!['0'],
    decreases n,
{
    if n >= 10 {
        law_a_decimal_comes_back(n / 10);
        assert(decimal(n).drop_last() =~= decimal(n / 10));
        assert(n == n / 10 * 10 + n % 10);
    } else {
        reveal_with_fuel(number_of, 2);
        assert(decimal(n).drop_last() =~= Seq::empty());
        assert(n == 0 ==> decimal(n) =~= seq!['0']);
    }
}

/// A number in hexadecimal is written in small digits and is read back as it
/// was.
pub proof fn law_a_hexadecimal_comes_back(n: nat)
    ensures
        hex_value(hex(n)) == Some(n),
        hex(n).len() >= 1,
        forall|i: int|
            0 <= i < hex(n).len() ==> {
                let c = #[trigger] hex(n)[i];
                48 <= c as u32 <= 57 || 97 <= c as u32 <= 102
            },
        n > 0 ==> hex(n)[0] != '0',
        n <= 0xffff ==> hex_u16(hex(n)) == Some(n as u16),
    decreases n,
{
    if n >= 16 {
        law_a_hexadecimal_comes_back(n / 16);
        assert(hex(n).drop_last() =~= hex(n / 16));
        assert(n == n / 16 * 16 + n % 16);
    } else {
        reveal_with_fuel(hex_value, 2);
        assert(hex(n).drop_last() =~= Seq::empty());
    }
    let first = hex(n)[0];
    assert(first != '+');
}

/// Padding puts zeros in front, as many as it takes to fill the width, and
/// none where it is filled already.
pub proof fn law_padding_puts_zeros_in_front(s: Seq<char>, width: nat)
    ensures
        zero_padded(s, width).len() == (if s.len() < width {
            width
        } else {
            s.len()
        }),
        zero_padded(s, width).skip(zero_padded(s, width).len() - s.len()) == s,
        forall|i: int|
            0 <= i < zero_padded(s, width).len() - s.len() ==> zero_padded(s, width)[i] == '0',
{
    assert(zero_padded(s, width).skip(zero_padded(s, width).len() - s.len()) =~= s);
}

/// What a hexadecimal number of sixteen bits is: digits of either case, at
/// least one, perhaps behind a plus sign, and no more than sixteen bits of it.
pub proof fn law_what_a_hexadecimal_number_is(s: Seq<char>, c: char)
    ensures
        hex_u16(Seq::empty()) is None,
        hex_u16(s) is Some && s[0] != '+' ==> hex_u16(seq!['+'] + s) == hex_u16(s),
        hex_value(s.push(c)) is Some <==> hex_value(s) is Some && (48 <= c as u32 <= 57 || 65
            <= c as u32 <= 70 || 97 <= c as u32 <= 102),
        hex_value(s.push(c)) matches Some(n) ==> n == 16 * hex_value(s)->0 + (if c as u32 <= 57 {
            c as u32 - 48
        } else if c as u32 <= 70 {
            c as u32 - 55
        } else {
            c as u32 - 87
        }),
        hex_value(s) matches Some(n) ==> n > 0xffff ==> hex_u16(s) is None,
{
    assert(s.push(c).drop_last() =~= s);
    assert((seq!['+'] + s).drop_first() =~= s);
    if s.len() > 0 && s.first() == '+' {
        lemma_hex_value_prefix(s, 1);
        assert(s.take(1).drop_last() =~= Seq::empty());
        assert(s.take(1).last() == '+');
        assert(hex_value(s.take(1)) is None);
    }
}

} // verus!
