//! What the daemon has to say for itself, and how much of it the log file
//! keeps.

use vstd::prelude::*;
use vstd::string::*;

verus! {

/// Rotate at a megabyte, keeping one older generation.
pub const MAX_BYTES: u64 = 1048576;

/// One line for the log.
#[derive(Debug)]
pub struct Line {
    /// Whether it reports trouble.
    pub error: bool,
    pub text: String,
}

#[verifier::ext_equal]
pub struct LineView {
    pub error: bool,
    pub text: Seq<char>,
}

impl View for Line {
    type V = LineView;

    open spec fn view(&self) -> LineView {
        LineView { error: self.error, text: self.text@ }
    }
}

/// A line that reports no trouble.
pub open spec fn said(text: Seq<char>) -> LineView {
    LineView { error: false, text }
}

/// A line that reports trouble.
pub open spec fn complained(text: Seq<char>) -> LineView {
    LineView { error: true, text }
}

/// What a list of lines says.
pub open spec fn lines_view(lines: Seq<Line>) -> Seq<LineView> {
    lines.map_values(|l: Line| l@)
}

/// Adds a line that reports no trouble.
pub fn say(lines: &mut Vec<Line>, text: String)
    ensures
        lines_view(final(lines)@) == lines_view(old(lines)@).push(said(text@)),
{
    let ghost before = lines@;
    lines.push(Line { error: false, text });
    assert(lines_view(lines@) =~= lines_view(before).push(said(text@)));
}

/// Adds a line that reports trouble.
pub fn complain(lines: &mut Vec<Line>, text: String)
    ensures
        lines_view(final(lines)@) == lines_view(old(lines)@).push(complained(text@)),
{
    let ghost before = lines@;
    lines.push(Line { error: true, text });
    assert(lines_view(lines@) =~= lines_view(before).push(complained(text@)));
}

/// A line as the log file holds it.
pub open spec fn stamped(stamp: Seq<char>, text: Seq<char>) -> Seq<char> {
    stamp + " "@ + text + "\n"@
}

/// A line as the log file holds it.
pub fn stamp_line(stamp: &str, text: &str) -> (r: String)
    ensures
        r@ == stamped(stamp@, text@),
{
    let mut out = stamp.to_owned();
    out.append(" ");
    out.append(text);
    out.append("\n");
    out
}

/// How much the log file holds.
pub struct Sink {
    written: u64,
}

impl Sink {
    /// The bytes in the file, as far as this process knows.
    pub closed spec fn written(&self) -> u64 {
        self.written
    }

    /// A log file that already holds `written` bytes.
    pub fn new(written: u64) -> (r: Sink)
        ensures
            r.written() == written,
    {
        Sink { written }
    }

    /// To be asked before each line: whether the file is full, and has to
    /// make way for an empty one first.
    pub fn rotate(&mut self) -> (r: bool)
        ensures
            r == (old(self).written() >= MAX_BYTES),
            final(self).written() == (if r {
                0
            } else {
                old(self).written()
            }),
            final(self).written() < MAX_BYTES,
    {
        if self.written >= MAX_BYTES {
            self.written = 0;
            true
        } else {
            false
        }
    }

    /// Notes that a line of `len` bytes went into the file.
    pub fn write(&mut self, len: u64)
        ensures
            final(self).written() == (if old(self).written() + len <= u64::MAX {
                old(self).written() + len
            } else {
                u64::MAX as int
            }),
    {
        self.written = self.written.saturating_add(len);
    }
}

/// What the file holds once lines of these lengths have gone into it, one
/// after the other.
pub open spec fn filled(written: nat, lens: Seq<nat>) -> nat
    decreases lens.len(),
{
    if lens.len() == 0 {
        written
    } else {
        let before = filled(written, lens.drop_last());
        (if before >= MAX_BYTES {
            0
        } else {
            before
        }) + lens.last()
    }
}

/// The file never grows past a mebibyte and a line.
pub proof fn law_the_log_stays_small(written: nat, lens: Seq<nat>, longest: nat)
    requires
        forall|i: int| 0 <= i < lens.len() ==> #[trigger] lens[i] <= longest,
        written <= MAX_BYTES + longest,
    ensures
        filled(written, lens) <= MAX_BYTES + longest,
    decreases lens.len(),
{
    if lens.len() > 0 {
        let before = lens.drop_last();
        assert forall|i: int| 0 <= i < before.len() implies #[trigger] before[i] <= longest by {
            assert(before[i] == lens[i]);
        }
        law_the_log_stays_small(written, before, longest);
        assert(lens[lens.len() - 1] <= longest);
    }
}

/// A line in the log is its time, its text and a line break, and the text can
/// be had back from it.
pub proof fn law_a_line_keeps_its_text(stamp: Seq<char>, text: Seq<char>)
    ensures
        stamped(stamp, text).len() == stamp.len() + text.len() + 2,
        stamped(stamp, text).take(stamp.len() as int) == stamp,
        stamped(stamp, text)[stamp.len() as int] == ' ',
        stamped(stamp, text).subrange(stamp.len() as int + 1, stamp.len() as int + 1 + text.len() as int) == text,
        stamped(stamp, text).last() == '\n',
{
    reveal_strlit(" ");
    reveal_strlit("\n");
    let line = stamped(stamp, text);
    assert(line.take(stamp.len() as int) =~= stamp);
    assert(line.subrange(stamp.len() as int + 1, stamp.len() as int + 1 + text.len() as int) =~= text);
}

/// The file is emptied exactly when it holds a mebibyte or more, and is added
/// to otherwise.
pub proof fn law_the_log_is_emptied_when_full(written: nat, len: nat)
    ensures
        written < 1048576 ==> filled(written, seq![len]) == written + len,
        written >= 1048576 ==> filled(written, seq![len]) == len,
{
    reveal_with_fuel(filled, 2);
    assert(seq![len].drop_last() =~= Seq::empty());
}

/// The file makes way for an empty one exactly when it holds a mebibyte, and
/// is never that full when a line goes into it.
pub proof fn law_a_full_log_makes_way(sink: &mut Sink, r: bool)
    requires
        call_ensures(Sink::rotate, (sink,), r),
    ensures
        r <==> old(sink).written() >= 1048576,
        r ==> final(sink).written() == 0,
        !r ==> final(sink).written() == old(sink).written(),
{
}

/// Every byte that is written counts.
pub proof fn law_every_byte_counts(sink: &mut Sink, len: u64)
    requires
        call_ensures(Sink::write, (sink, len), ()),
        old(sink).written() + len <= u64::MAX,
    ensures
        final(sink).written() == old(sink).written() + len,
{
}

/// A line says whether it reports trouble, and what it was given to say.
pub proof fn law_only_trouble_is_marked(text: Seq<char>)
    ensures
        !said(text).error,
        complained(text).error,
        said(text).text == text,
        complained(text).text == text,
{
}

} // verus!
