//! The access token: trading the refresh token for a fresh one, and writing
//! the rotated pair back into the settings file.

use toml_edit::{DocumentMut, ImDocument, Key, Table, Value};
use vstd::prelude::*;
use vstd::string::*;

use crate::config::{DiscordCfg, DiscordView};
use crate::json::{from_json, json_reply, parsed_view, text_view, Reply, ReplyView};
use crate::log::{complain, complained, lines_view, Line};
use crate::text::chars_of;

verus! {

/// Where tokens are traded.
pub const TOKEN_HOST: &'static str = "discord.com";

/// And under which path.
pub const TOKEN_PATH: &'static str = "/api/oauth2/token";

/// Two texts that belong together, such as an access token and a refresh
/// token.
pub open spec fn pair_view(pair: Option<(String, String)>) -> Option<(Seq<char>, Seq<char>)> {
    match pair {
        Some(pair) => Some((pair.0@, pair.1@)),
        None => None,
    }
}

impl DiscordView {
    /// Whether there is everything that a refresh takes.
    pub open spec fn can_refresh(self) -> bool {
        self.client_id.len() > 0 && self.client_secret.len() > 0 && self.refresh_token.len() > 0
    }

    /// The form that asks for a refresh.
    pub open spec fn refresh_form(self) -> Seq<char> {
        "grant_type=refresh_token&refresh_token="@ + self.refresh_token + "&client_id="@
            + self.client_id + "&client_secret="@ + self.client_secret
    }
}

/// The form to post for a refresh, if there is everything that one takes.
/// Tokens, ids and secrets are letters and digits, so nothing in it needs
/// encoding.
pub fn refresh_form(cfg: &DiscordCfg) -> (r: Option<String>)
    ensures
        r is Some <==> cfg@.can_refresh(),
        r matches Some(form) ==> form@ == cfg@.refresh_form(),
{
    if cfg.client_id.as_str().is_empty() || cfg.client_secret.as_str().is_empty()
        || cfg.refresh_token.as_str().is_empty() {
        return None;
    }
    let mut form = "grant_type=refresh_token&refresh_token=".to_owned();
    form.append(cfg.refresh_token.as_str());
    form.append("&client_id=");
    form.append(cfg.client_id.as_str());
    form.append("&client_secret=");
    form.append(cfg.client_secret.as_str());
    Some(form)
}

/// Why an answer without tokens has none: its description of the error, or
/// failing that the error itself, as far as that is a text.
pub open spec fn refusal(reply: ReplyView) -> Seq<char> {
    let field = match reply.get("error_description"@) {
        Some(field) => Some(field),
        None => reply.get("error"@),
    };
    match field {
        Some(f) => match f.text {
            Some(why) => why,
            None => "no tokens in response"@,
        },
        None => "no tokens in response"@,
    }
}

/// The tokens that an answer grants, or the line that says why it grants none.
pub open spec fn granted(reply: Result<ReplyView, Seq<char>>) -> Result<
    (Seq<char>, Seq<char>),
    Seq<char>,
> {
    match reply {
        Ok(r) => match (r.says("access_token"@), r.says("refresh_token"@)) {
            (Some(access), Some(refresh)) => Ok((access, refresh)),
            _ => Err("discord token refresh rejected: "@ + refusal(r)),
        },
        Err(e) => Err("discord token refresh: could not parse response: "@ + e),
    }
}

fn read_refusal(reply: &Reply) -> (r: String)
    ensures
        r@ == refusal(reply@),
{
    let field = match reply.get("error_description") {
        Some(field) => Some(field),
        None => reply.get("error"),
    };
    match field {
        Some(f) => match &f.text {
            Some(why) => why.clone(),
            None => "no tokens in response".to_owned(),
        },
        None => "no tokens in response".to_owned(),
    }
}

/// The tokens that an answer grants, or the line that says why it grants none.
pub fn read_grant(reply: &Result<Reply, String>) -> (r: Result<(String, String), String>)
    ensures
        match r {
            Ok(pair) => granted(parsed_view(*reply)) == Ok::<_, Seq<char>>((pair.0@, pair.1@)),
            Err(line) => granted(parsed_view(*reply)) == Err::<(Seq<char>, Seq<char>), _>(line@),
        },
{
    match reply {
        Ok(answer) => match (answer.says("access_token"), answer.says("refresh_token")) {
            (Some(access), Some(refresh)) => Ok((access, refresh)),
            _ => {
                let mut line = "discord token refresh rejected: ".to_owned();
                line.append(read_refusal(answer).as_str());
                Err(line)
            },
        },
        Err(e) => {
            let mut line = "discord token refresh: could not parse response: ".to_owned();
            line.append(e.as_str());
            Err(line)
        },
    }
}

/// The access token and the refresh token in the answer of the token endpoint.
/// There are none in what is no JSON and in an error response, which Discord
/// shapes as an error with a description.
pub fn parse_refresh_response(bytes: &[u8]) -> (r: Option<(String, String)>)
    ensures
        pair_view(r) == (match granted(json_reply(bytes@)) {
            Ok(pair) => Some(pair),
            Err(_) => None,
        }),
{
    match read_grant(&from_json(bytes)) {
        Ok(pair) => Some(pair),
        Err(_) => None,
    }
}

/// What posting the form came to.
pub open spec fn response_view(response: Result<Vec<u8>, String>) -> Result<Seq<u8>, Seq<char>> {
    match response {
        Ok(bytes) => Ok(bytes@),
        Err(e) => Err(e@),
    }
}

/// The tokens that a response brings, or the line that says why it brings
/// none.
pub open spec fn traded(response: Result<Seq<u8>, Seq<char>>) -> Result<
    (Seq<char>, Seq<char>),
    Seq<char>,
> {
    match response {
        Ok(bytes) => granted(json_reply(bytes)),
        Err(e) => Err("discord token refresh: "@ + e),
    }
}

/// The new access token and refresh token out of the response to the form, or
/// why the response was not to be had. Any failure is one line in the log and
/// no tokens, so that a passing network problem never costs a token that is
/// still good.
pub fn refresh(response: Result<Vec<u8>, String>, lines: &mut Vec<Line>) -> (r: Option<
    (String, String),
>)
    ensures
        match traded(response_view(response)) {
            Ok(pair) => pair_view(r) == Some(pair) && lines_view(final(lines)@) == lines_view(
                old(lines)@,
            ),
            Err(line) => r is None && lines_view(final(lines)@) == lines_view(old(lines)@).push(
                complained(line),
            ),
        },
{
    match response {
        Ok(bytes) => match read_grant(&from_json(bytes.as_slice())) {
            Ok(pair) => Some(pair),
            Err(line) => {
                complain(lines, line);
                None
            },
        },
        Err(e) => {
            let mut line = "discord token refresh: ".to_owned();
            line.append(e.as_str());
            complain(lines, line);
            None
        },
    }
}

/// A step into a document: a key of a table, or a place in a list.
#[derive(Debug)]
pub enum Step {
    Key(String),
    Place(usize),
}

pub enum StepView {
    Key(Seq<char>),
    Place(usize),
}

impl View for Step {
    type V = StepView;

    open spec fn view(&self) -> StepView {
        match self {
            Step::Key(key) => StepView::Key(key@),
            Step::Place(at) => StepView::Place(*at),
        }
    }
}

pub open spec fn path_view(path: Seq<Step>) -> Seq<StepView> {
    path.map_values(|s: Step| s@)
}

/// What is found at the end of a path into a document.
#[derive(Debug, PartialEq, Eq)]
pub struct Entry {
    /// If it is a value, how it is written, with the blanks and the comment
    /// beside it.
    pub body: Option<String>,
    /// The blanks and the comment behind its header if it is a table, and
    /// behind what is written if it is a value.
    pub beside: Option<String>,
    /// If it is a string, what it says.
    pub string: Option<String>,
}

#[verifier::ext_equal]
pub struct EntryView {
    pub body: Option<Seq<char>>,
    pub beside: Option<Seq<char>>,
    pub string: Option<Seq<char>>,
}

impl View for Entry {
    type V = EntryView;

    open spec fn view(&self) -> EntryView {
        EntryView {
            body: text_view(self.body),
            beside: text_view(self.beside),
            string: text_view(self.string),
        }
    }
}

pub open spec fn entry_view(entry: Option<Entry>) -> Option<EntryView> {
    match entry {
        Some(e) => Some(e@),
        None => None,
    }
}

/// Whether what `toml_edit` finds under a key of the document is a table, if
/// it finds anything there, or its account of why the text is no document.
pub uninterp spec fn is_table_in(text: Seq<char>, key: Seq<char>) -> Result<
    Option<bool>,
    Seq<char>,
>;

/// What `toml_edit` finds at the end of a path into a document, if it finds
/// anything there. It finds nothing in a text that is no document.
pub uninterp spec fn entry_in(text: Seq<char>, path: Seq<StepView>) -> Option<EntryView>;

/// The blanks and comments that `toml_edit` finds above what is at the end of a
/// path into a document: above its header if it is a table, and else above the
/// last key on the way to it.
pub uninterp spec fn above_in(text: Seq<char>, path: Seq<StepView>) -> Option<Seq<char>>;

/// What stands in a text before and after a value, if `toml_edit` finds one
/// under a key of a table and knows where it is written.
pub uninterp spec fn value_place(text: Seq<char>, table: Seq<char>, key: Seq<char>) -> Option<
    (Seq<char>, Seq<char>),
>;

/// What stands in a text before and after the end of the last value of a table
/// under a header of its own, or of the header if the table is empty, if
/// `toml_edit` finds such a table.
pub uninterp spec fn section_end(text: Seq<char>, table: Seq<char>) -> Option<
    (Seq<char>, Seq<char>),
>;

/// How `toml_edit` writes a string.
pub uninterp spec fn written(string: Seq<char>) -> Seq<char>;

/// The document that `toml_edit` writes once strings have been set in a table
/// of it, or its account of why the text is no document.
pub uninterp spec fn with_strings(
    text: Seq<char>,
    table: Seq<char>,
    entries: Seq<(Seq<char>, Seq<char>)>,
) -> Result<Seq<char>, Seq<char>>;

pub open spec fn edit_view(edit: Result<String, String>) -> Result<Seq<char>, Seq<char>> {
    match edit {
        Ok(text) => Ok(text@),
        Err(e) => Err(e@),
    }
}

/// How many times over `s` ends in `q`.
pub open spec fn run_at_end(s: Seq<char>, q: char) -> nat
    decreases s.len(),
{
    if s.len() > 0 && s.last() == q {
        run_at_end(s.drop_last(), q) + 1
    } else {
        0
    }
}

/// The longest run of quotes that `toml_edit` counts.
pub const LONGEST_RUN: usize = 255;

/// Whether no quote is repeated more often than `toml_edit` counts.
pub open spec fn is_writable(s: Seq<char>) -> bool {
    forall|n: int|
        0 <= n <= s.len() ==> run_at_end(#[trigger] s.take(n), '"') <= LONGEST_RUN && run_at_end(
            s.take(n),
            '\'',
        ) <= LONGEST_RUN
}

/// Whether tokens are made of what tokens are made of: letters, digits, and
/// what joins them.
pub open spec fn is_plain(s: Seq<char>) -> bool {
    forall|i: int| 0 <= i < s.len() ==> is_plain_char(#[trigger] s[i])
}

pub open spec fn is_plain_char(c: char) -> bool {
    'a' <= c <= 'z' || 'A' <= c <= 'Z' || '0' <= c <= '9' || c == '-' || c == '_' || c == '.'
}

proof fn lemma_run_of(s: Seq<char>, q: char)
    requires
        is_plain(s),
        !is_plain_char(q),
    ensures
        run_at_end(s, q) == 0,
{
    if s.len() > 0 {
        assert(is_plain_char(s[s.len() - 1]));
    }
}

/// Tokens made of what tokens are made of can be written.
pub proof fn law_plain_tokens_are_writable(s: Seq<char>)
    requires
        is_plain(s),
    ensures
        is_writable(s),
{
    assert forall|n: int| 0 <= n <= s.len() implies run_at_end(#[trigger] s.take(n), '"')
        <= LONGEST_RUN && run_at_end(s.take(n), '\'') <= LONGEST_RUN by {
        assert(is_plain(s.take(n)));
        lemma_run_of(s.take(n), '"');
        lemma_run_of(s.take(n), '\'');
    }
}

/// Whether no quote is repeated more often than `toml_edit` counts.
fn writable(s: &str) -> (r: bool)
    ensures
        r == is_writable(s@),
{
    let chars = chars_of(s);
    let mut double: usize = 0;
    let mut single: usize = 0;
    let mut i: usize = 0;
    while i < chars.len()
        invariant
            chars@ == s@,
            i <= chars@.len(),
            double == run_at_end(s@.take(i as int), '"'),
            single == run_at_end(s@.take(i as int), '\''),
            forall|n: int|
                0 <= n <= i ==> run_at_end(#[trigger] s@.take(n), '"') <= LONGEST_RUN && run_at_end(
                    s@.take(n),
                    '\'',
                ) <= LONGEST_RUN,
        decreases chars@.len() - i,
    {
        let c = chars[i];
        assert(s@.take(i + 1).drop_last() =~= s@.take(i as int));
        double = if c == '"' {
            double + 1
        } else {
            0
        };
        single = if c == '\'' {
            single + 1
        } else {
            0
        };
        i += 1;
        if double > LONGEST_RUN || single > LONGEST_RUN {
            assert(!is_writable(s@)) by {
                assert(run_at_end(s@.take(i as int), '"') == double);
                assert(run_at_end(s@.take(i as int), '\'') == single);
            }
            return false;
        }
    }
    true
}

/// `toml_edit::DocumentMut::from_str`, and `get` with `is_table_like` on the
/// document: whether what is under the key is a table, of either kind. It
/// depends on the text and the key alone.
#[verifier::external_body]
fn find_table(text: &str, key: &str) -> (r: Result<Option<bool>, String>)
    ensures
        (match r {
            Ok(found) => Ok(found),
            Err(e) => Err(e@),
        }) == is_table_in(text@, key@),
{
    let doc = text.parse::<DocumentMut>().map_err(|e| e.to_string())?;
    Ok(doc.get(key).map(|item| item.is_table_like()))
}

/// `toml_edit::DocumentMut::from_str`, and `get` on the document for each step
/// of the path. What is found is handed over as `Value::to_string`,
/// `Decor::suffix` and `Item::as_str` give it. It depends on the text and the
/// path alone.
#[verifier::external_body]
fn read_entry(text: &str, path: &Vec<Step>) -> (r: Option<Entry>)
    ensures
        entry_view(r) == entry_in(text@, path_view(path@)),
{
    let doc: DocumentMut = text.parse().ok()?;
    let mut item = doc.as_item();
    for step in path {
        match step {
            Step::Key(key) => item = item.get(key)?,
            Step::Place(at) => item = item.get(*at)?,
        }
    }
    let decor = item.as_table().map(Table::decor).or(item.as_value().map(Value::decor));
    let beside = decor.and_then(|d| d.suffix()?.as_str()).map(str::to_owned);
    let body = item.as_value().map(ToString::to_string);
    Some(Entry { body, beside, string: item.as_str().map(str::to_owned) })
}

/// `toml_edit::DocumentMut::from_str`, `get` on the document for each step of
/// the path, and `Decor::prefix`, of a table or else of the last key. It
/// depends on the text and the path alone.
#[verifier::external_body]
fn read_above(text: &str, path: &Vec<Step>) -> (r: Option<String>)
    ensures
        text_view(r) == above_in(text@, path_view(path@)),
{
    let doc: DocumentMut = text.parse().ok()?;
    let (mut key, mut item) = (None, doc.as_item());
    for step in path {
        match step {
            Step::Key(k) => (key, item) = (item.as_table_like()?.key(k), item.get(k)?),
            Step::Place(at) => item = item.get(*at)?,
        }
    }
    let decor = item.as_table().map(Table::decor).or(key.map(Key::leaf_decor))?;
    Some(decor.prefix()?.as_str()?.to_owned())
}

/// The path to a key of a table.
pub open spec fn key_path(table: Seq<char>, key: Seq<char>) -> Seq<StepView> {
    seq![StepView::Key(table), StepView::Key(key)]
}

/// What a text says at the end of a path, if there is a string.
pub open spec fn string_in(text: Seq<char>, path: Seq<StepView>) -> Option<Seq<char>> {
    match entry_in(text, path) {
        Some(e) => e.string,
        None => None,
    }
}

/// Whether a path leads to a key of a table, or beyond it.
pub open spec fn leads_into(path: Seq<StepView>, table: Seq<char>, key: Seq<char>) -> bool {
    path.len() >= 2 && path.take(2) == key_path(table, key)
}

/// Whether a path leads neither to one of the entries of a table, nor beyond
/// it, nor to what holds it.
pub open spec fn leads_elsewhere(
    path: Seq<StepView>,
    table: Seq<char>,
    entries: Seq<(Seq<char>, Seq<char>)>,
) -> bool {
    &&& path.len() > 0
    &&& path != seq![StepView::Key(table)]
    &&& forall|i: int|
        0 <= i < entries.len() ==> !leads_into(path, table, (#[trigger] entries[i]).0)
}

/// A text without the carriage returns in it.
pub open spec fn without_returns(s: Seq<char>) -> Seq<char> {
    s.filter(|c: char| c != '\r')
}

/// Whether a text that was there still is, but for carriage returns.
pub open spec fn keeps_text(new: Option<Seq<char>>, old: Option<Seq<char>>) -> bool {
    old matches Some(o) ==> new matches Some(n) && without_returns(n) == without_returns(o)
}

/// The blanks and the comment beside what is at the end of a path.
pub open spec fn beside_in(text: Seq<char>, path: Seq<StepView>) -> Option<Seq<char>> {
    match entry_in(text, path) {
        Some(e) => e.beside,
        None => None,
    }
}

/// Whether `new` has the comments that `old` has above and beside what is at
/// the end of a path.
pub open spec fn keeps_comments(new: Seq<char>, old: Seq<char>, path: Seq<StepView>) -> bool {
    &&& keeps_text(above_in(new, path), above_in(old, path))
    &&& keeps_text(beside_in(new, path), beside_in(old, path))
}

/// Whether a key of `new` holds a string, with the comments above and beside
/// it that it had in `old` if it held a string there.
pub open spec fn holds_string(
    new: Seq<char>,
    old: Seq<char>,
    path: Seq<StepView>,
    string: Seq<char>,
) -> bool {
    &&& string_in(new, path) == Some(string)
    &&& string_in(old, path) is Some ==> keeps_comments(new, old, path)
}

/// Whether `new` has the same entry as `old` at the end of a path: there or
/// not there, with the same value, and with the same comments above and beside
/// it.
pub open spec fn keeps_entry(new: Seq<char>, old: Seq<char>, path: Seq<StepView>) -> bool {
    &&& match (entry_in(new, path), entry_in(old, path)) {
        (Some(n), Some(o)) => n.body == o.body && n.string == o.string,
        (None, None) => true,
        _ => false,
    }
    &&& keeps_comments(new, old, path)
}

/// Whether `new` has these strings in a table, and every other entry of `old`
/// as it was there.
pub open spec fn differs_in_strings(
    new: Seq<char>,
    old: Seq<char>,
    table: Seq<char>,
    entries: Seq<(Seq<char>, Seq<char>)>,
) -> bool {
    &&& is_table_in(new, table) == Ok::<_, Seq<char>>(Some(true))
    &&& keeps_comments(new, old, seq![StepView::Key(table)])
    &&& forall|i: int|
        0 <= i < entries.len() ==> holds_string(
            new,
            old,
            key_path(table, (#[trigger] entries[i]).0),
            entries[i].1,
        )
    &&& forall|path: Seq<StepView>|
        leads_elsewhere(path, table, entries) ==> #[trigger] keeps_entry(new, old, path)
}

/// Whether a text is what stands before a place in it, something, and what
/// stands after the place.
pub open spec fn is_parted(text: Seq<char>, before: Seq<char>, after: Seq<char>) -> bool {
    &&& before.len() + after.len() <= text.len()
    &&& before == text.take(before.len() as int)
    &&& after == text.skip(text.len() - after.len())
}

/// Whether `new` differs from `old` in one string of a table, which still is
/// under its header if it was.
pub open spec fn differs_in_place(
    new: Seq<char>,
    old: Seq<char>,
    table: Seq<char>,
    key: Seq<char>,
    string: Seq<char>,
) -> bool {
    &&& differs_in_strings(new, old, table, seq![(key, string)])
    &&& section_end(old, table) is Some ==> section_end(new, table) is Some
}

/// Whether a key can be written without quotes.
pub open spec fn is_bare(key: Seq<char>) -> bool {
    &&& key.len() > 0
    &&& forall|i: int| 0 <= i < key.len() ==> is_plain_char(#[trigger] key[i]) && key[i] != '.'
}

/// Where the line ends that goes on at a place in a text: behind its line
/// break, or at the end of the text.
pub open spec fn line_end(s: Seq<char>, from: int) -> int
    decreases s.len() - from,
{
    if from < 0 || from >= s.len() {
        s.len() as int
    } else if s[from] == '\n' {
        from + 1
    } else {
        line_end(s, from + 1)
    }
}

/// A text with a line for a key put behind the line that a place in it is on.
pub open spec fn with_line(
    before: Seq<char>,
    after: Seq<char>,
    key: Seq<char>,
    value: Seq<char>,
) -> Seq<char> {
    let n = line_end(after, 0);
    let line = key + " = "@ + value + "\n"@;
    if n > 0 && after[n - 1] == '\n' {
        before + after.take(n) + line + after.skip(n)
    } else {
        before + after + "\n"@ + line
    }
}

/// `toml_edit::Value::from` a string, and `to_string`: the string as a value
/// of a document. It depends on the string alone, and one that is made of what
/// tokens are made of is written in quotes. Left out is what it panics on: a
/// string with more quotes in a row than a byte counts.
#[verifier::external_body]
fn write_string(string: &str) -> (r: String)
    requires
        is_writable(string@),
    ensures
        r@ == written(string@),
        is_plain(string@) ==> r@ == "\""@ + string@ + "\""@,
{
    Value::from(string).to_string()
}

/// `toml_edit::ImDocument::parse`, `get` for the table and the key, and
/// `Value::span` of the value under the key, handed over as the text before
/// the span and the text after it. It depends on the text, the table and the
/// key alone. Every string has a span, and where another string is written in
/// the place of a value, it is found under the key, with the comments that
/// were there, and every other entry is found as before.
#[verifier::external_body]
fn find_value(text: &str, table: &str, key: &str) -> (r: Option<(String, String)>)
    ensures
        pair_view(r) == value_place(text@, table@, key@),
        r is None ==> string_in(text@, key_path(table@, key@)) is None,
        r matches Some(place) ==> {
            &&& is_table_in(text@, table@) == Ok::<_, Seq<char>>(Some(true))
            &&& is_parted(text@, place.0@, place.1@)
            &&& forall|string: Seq<char>| #[trigger]
                is_writable(string) ==> differs_in_place(
                    place.0@ + written(string) + place.1@,
                    text@,
                    table@,
                    key@,
                    string,
                )
        },
{
    let doc = ImDocument::parse(text).ok()?;
    let span = doc.get(table)?.get(key)?.as_value()?.span()?;
    Some((text[..span.start].to_owned(), text[span.end..].to_owned()))
}

/// `toml_edit::ImDocument::parse`, `get` for the table, and `Table::span`,
/// which reaches from the header to the end of the last value under it, handed
/// over as the text up to there and the text from there on. It depends on the
/// text and the table alone. Where a line for another key is put behind the
/// line that ends there, the key is found with its string, and every other
/// entry is found as before.
#[verifier::external_body]
fn find_section(text: &str, table: &str) -> (r: Option<(String, String)>)
    ensures
        pair_view(r) == section_end(text@, table@),
        r matches Some(place) ==> {
            &&& is_table_in(text@, table@) == Ok::<_, Seq<char>>(Some(true))
            &&& text@ == place.0@ + place.1@
            &&& forall|key: Seq<char>, string: Seq<char>|
                is_bare(key) && #[trigger] is_writable(string) && #[trigger] entry_in(
                    text@,
                    key_path(table@, key),
                ) is None ==> differs_in_place(
                    with_line(place.0@, place.1@, key, written(string)),
                    text@,
                    table@,
                    key,
                    string,
                )
        },
{
    let doc = ImDocument::parse(text).ok()?;
    let end = doc.get(table)?.as_table()?.span()?.end;
    Some((text[..end].to_owned(), text[end..].to_owned()))
}

pub open spec fn entries_view(entries: Seq<(&str, &str)>) -> Seq<(Seq<char>, Seq<char>)> {
    entries.map_values(|e: (&str, &str)| (e.0@, e.1@))
}

/// `toml_edit::DocumentMut`: `from_str`, an assignment of `toml_edit::value`
/// through `IndexMut` for each entry, and `to_string`. The document that comes
/// of it depends on the text, the table and the entries alone. A text that is
/// no document gives its error, and every other text a document in which the
/// strings are found under their keys and every other entry is found as
/// before, with the comments above and beside it, but for the carriage returns
/// in them, which are dropped. Left out is what it panics on: a table's name
/// that is taken by something other than a table, and a string with more
/// quotes in a row than a byte counts. Left out are also keys that hold a
/// string already, which would lose the comment beside it. The order of the
/// entries, the blanks in front of an equals sign, and what follows the last
/// entry are not spoken of.
#[verifier::external_body]
fn set_strings(text: &str, table: &str, entries: &[(&str, &str)]) -> (r: Result<String, String>)
    requires
        entries@.len() > 0,
        is_table_in(text@, table@) != Ok::<_, Seq<char>>(Some(false)),
        forall|i: int|
            0 <= i < entries@.len() ==> is_writable((#[trigger] entries@[i]).1@) && string_in(
                text@,
                key_path(table@, entries@[i].0@),
            ) is None,
        forall|i: int, j: int|
            0 <= i < j < entries@.len() ==> (#[trigger] entries@[i]).0@ != (
            #[trigger] entries@[j]).0@,
    ensures
        edit_view(r) == with_strings(text@, table@, entries_view(entries@)),
        match is_table_in(text@, table@) {
            Ok(_) => r is Ok,
            Err(e) => r matches Err(why) && why@ == e,
        },
        r matches Ok(new) ==> differs_in_strings(new@, text@, table@, entries_view(entries@)),
{
    let mut doc = text.parse::<DocumentMut>().map_err(|e| e.to_string())?;
    for (key, string) in entries {
        doc[table][key] = toml_edit::value(*string);
    }
    Ok(doc.to_string())
}

fn push_part(out: &mut String, chars: &Vec<char>, from: usize, to: usize)
    requires
        from <= to <= chars@.len(),
    ensures
        final(out)@ == old(out)@ + chars@.subrange(from as int, to as int),
{
    let mut i: usize = from;
    assert(out@ =~= old(out)@ + chars@.subrange(from as int, from as int));
    while i < to
        invariant
            from <= i <= to <= chars@.len(),
            out@ == old(out)@ + chars@.subrange(from as int, i as int),
        decreases to - i,
    {
        assert(chars@.subrange(from as int, i + 1) =~= chars@.subrange(from as int, i as int).push(
            chars@[i as int],
        ));
        out.push(chars[i]);
        i += 1;
    }
}

/// A text with a line for a key put behind the line that a place in it is on.
fn put_line(before: &str, after: &str, key: &str, value: &str) -> (r: String)
    ensures
        r@ == with_line(before@, after@, key@, value@),
{
    let chars = chars_of(after);
    let mut n: usize = 0;
    while n < chars.len() && chars[n] != '\n'
        invariant
            n <= chars@.len(),
            chars@ == after@,
            forall|i: int| 0 <= i < n ==> chars@[i] != '\n',
            line_end(after@, 0) == line_end(after@, n as int),
        decreases chars@.len() - n,
    {
        n += 1;
    }
    let mut line = key.to_owned();
    line.append(" = ");
    line.append(value);
    line.append("\n");
    let mut out = before.to_owned();
    if n < chars.len() {
        push_part(&mut out, &chars, 0, n + 1);
        out.append(line.as_str());
        push_part(&mut out, &chars, n + 1, chars.len());
        assert(after@.subrange(0, n + 1) =~= after@.take(n + 1));
        assert(after@.subrange(n + 1, after@.len() as int) =~= after@.skip(n + 1));
    } else {
        out.append(after);
        out.append("\n");
        out.append(line.as_str());
    }
    out
}

/// A text with a string set in a table of it in place: where the value under
/// the key is written, and else, if the key is not there, on a line of its own
/// behind the last entry under the table's header. Nothing where neither can
/// be done.
pub open spec fn placed(
    text: Seq<char>,
    table: Seq<char>,
    key: Seq<char>,
    string: Seq<char>,
) -> Option<Seq<char>> {
    match value_place(text, table, key) {
        Some(place) => Some(place.0 + written(string) + place.1),
        None => match section_end(text, table) {
            Some(place) => if entry_in(text, key_path(table, key)) is None {
                Some(with_line(place.0, place.1, key, written(string)))
            } else {
                None
            },
            None => None,
        },
    }
}

/// Whether `new` is `old` but for the text of one string: everything before
/// the value under the key and everything after it is as it was, or a line is
/// put in for the key and nothing is taken out.
pub open spec fn keeps_layout(
    new: Seq<char>,
    old: Seq<char>,
    table: Seq<char>,
    key: Seq<char>,
    string: Seq<char>,
) -> bool {
    match value_place(old, table, key) {
        Some(place) => is_parted(old, place.0, place.1) && new == place.0 + written(string)
            + place.1,
        None => section_end(old, table) matches Some(place) && old == place.0 + place.1 && new
            == with_line(place.0, place.1, key, written(string)),
    }
}

/// Whether a string can be set in a table in place: it is to replace a string,
/// or the table has a header and no such key.
pub open spec fn has_place(text: Seq<char>, table: Seq<char>, key: Seq<char>) -> bool {
    ||| string_in(text, key_path(table, key)) is Some
    ||| section_end(text, table) is Some && entry_in(text, key_path(table, key)) is None
}

fn key_steps(table: &str, key: &str) -> (r: Vec<Step>)
    ensures
        path_view(r@) == key_path(table@, key@),
{
    let mut path: Vec<Step> = Vec::new();
    path.push(Step::Key(table.to_owned()));
    path.push(Step::Key(key.to_owned()));
    assert(path_view(path@) =~= key_path(table@, key@));
    path
}

fn place_string(text: &str, table: &str, key: &str, string: &str) -> (r: Option<String>)
    requires
        is_bare(key@),
        is_writable(string@),
    ensures
        text_view(r) == placed(text@, table@, key@, string@),
        match r {
            Some(new) => {
                &&& is_table_in(text@, table@) == Ok::<_, Seq<char>>(Some(true))
                &&& differs_in_place(new@, text@, table@, key@, string@)
                &&& keeps_layout(new@, text@, table@, key@, string@)
            },
            None => {
                &&& string_in(text@, key_path(table@, key@)) is None
                &&& !has_place(text@, table@, key@)
            },
        },
{
    match find_value(text, table, key) {
        Some(place) => {
            let mut new = place.0;
            new.append(write_string(string).as_str());
            new.append(place.1.as_str());
            Some(new)
        },
        None => match find_section(text, table) {
            Some(place) => match read_entry(text, &key_steps(table, key)) {
                None => {
                    let value = write_string(string);
                    Some(put_line(place.0.as_str(), place.1.as_str(), key, value.as_str()))
                },
                Some(_) => None,
            },
            None => None,
        },
    }
}

/// Putting in a line takes nothing out: the text is still there, with the line
/// and at most a line break before it somewhere in it.
pub proof fn law_a_line_is_only_put_in(
    before: Seq<char>,
    after: Seq<char>,
    key: Seq<char>,
    value: Seq<char>,
)
    ensures
        exists|n: int, put: Seq<char>|
            before.len() <= n <= before.len() + after.len() && with_line(before, after, key, value)
                == (before + after).take(n) + put + (before + after).skip(n),
{
    let text = before + after;
    let at = line_end(after, 0);
    let line = key + " = "@ + value + "\n"@;
    lemma_line_end(after, 0);
    if at > 0 && after[at - 1] == '\n' {
        let n = before.len() + at;
        assert(with_line(before, after, key, value) =~= text.take(n) + line + text.skip(n));
    } else {
        let n = text.len() as int;
        let put = "\n"@ + line;
        assert(with_line(before, after, key, value) =~= text.take(n) + put + text.skip(n));
    }
}

proof fn lemma_line_end(s: Seq<char>, from: int)
    requires
        0 <= from <= s.len(),
    ensures
        from <= line_end(s, from) <= s.len(),
    decreases s.len() - from,
{
    if from < s.len() && s[from] != '\n' {
        lemma_line_end(s, from + 1);
    }
}

/// What differs from a text in one string, and then in another, differs from
/// it in both.
proof fn lemma_two_strings(
    new: Seq<char>,
    mid: Seq<char>,
    old: Seq<char>,
    table: Seq<char>,
    first: (Seq<char>, Seq<char>),
    second: (Seq<char>, Seq<char>),
)
    requires
        first.0 != second.0,
        differs_in_strings(mid, old, table, seq![first]),
        differs_in_strings(new, mid, table, seq![second]),
    ensures
        differs_in_strings(new, old, table, seq![first, second]),
        differs_in_strings(new, old, table, seq![second, first]),
{
    let at_first = key_path(table, first.0);
    let at_second = key_path(table, second.0);
    lemma_key_path(table, first.0, second.0);
    lemma_key_path(table, second.0, first.0);
    assert(seq![first][0] == first && seq![second][0] == second);
    assert(holds_string(mid, old, at_first, first.1));
    assert(holds_string(new, mid, at_second, second.1));
    assert(leads_elsewhere(at_first, table, seq![second]));
    assert(leads_elsewhere(at_second, table, seq![first]));
    assert(keeps_entry(new, mid, at_first));
    assert(keeps_entry(mid, old, at_second));
    assert(holds_string(new, old, at_first, first.1));
    assert(holds_string(new, old, at_second, second.1));
    assert forall|path: Seq<StepView>|
        leads_elsewhere(path, table, seq![first, second]) || leads_elsewhere(
            path,
            table,
            seq![second, first],
        ) implies #[trigger] keeps_entry(new, old, path) by {
        let both = if leads_elsewhere(path, table, seq![first, second]) {
            seq![first, second]
        } else {
            seq![second, first]
        };
        assert(!leads_into(path, table, both[0].0) && !leads_into(path, table, both[1].0));
        assert(leads_elsewhere(path, table, seq![first]));
        assert(leads_elsewhere(path, table, seq![second]));
        assert(keeps_entry(mid, old, path));
        assert(keeps_entry(new, mid, path));
    }
}

proof fn lemma_key_path(table: Seq<char>, key: Seq<char>, other: Seq<char>)
    requires
        key != other,
    ensures
        !leads_into(key_path(table, key), table, other),
        key_path(table, key) != seq![StepView::Key(table)],
{
    let path = key_path(table, key);
    assert(path.take(2) =~= path);
    assert(path[1] == StepView::Key(key));
    assert(key_path(table, other)[1] == StepView::Key(other));
    assert(path.len() == 2 && seq![StepView::Key(table)].len() == 1);
}

/// The settings with rotated tokens in them. Each token is set in place if
/// that can be done, and otherwise by `toml_edit`.
pub open spec fn rotated(text: Seq<char>, access: Seq<char>, refresh: Seq<char>) -> Result<
    Seq<char>,
    Seq<char>,
> {
    let a = ("access_token"@, access);
    let r = ("refresh_token"@, refresh);
    match placed(text, "discord"@, a.0, access) {
        Some(mid) => match placed(mid, "discord"@, r.0, refresh) {
            Some(new) => Ok(new),
            None => with_strings(mid, "discord"@, seq![r]),
        },
        None => match placed(text, "discord"@, r.0, refresh) {
            Some(mid) => with_strings(mid, "discord"@, seq![a]),
            None => with_strings(text, "discord"@, seq![a, r]),
        },
    }
}

/// Whether `new` has these tokens where the settings have them, with the
/// comments that were there, and every other setting of `old` with the
/// comments on it.
pub open spec fn holds_tokens(
    new: Seq<char>,
    old: Seq<char>,
    access: Seq<char>,
    refresh: Seq<char>,
) -> bool {
    differs_in_strings(
        new,
        old,
        "discord"@,
        seq![("access_token"@, access), ("refresh_token"@, refresh)],
    )
}

/// Whether `new` is `old` with the text of the one token changed, and then that
/// of the other, and with not a character changed that is not theirs.
pub open spec fn changes_only_tokens(
    new: Seq<char>,
    old: Seq<char>,
    access: Seq<char>,
    refresh: Seq<char>,
) -> bool {
    exists|mid: Seq<char>| #[trigger]
        keeps_layout(mid, old, "discord"@, "access_token"@, access) && keeps_layout(
            new,
            mid,
            "discord"@,
            "refresh_token"@,
            refresh,
        )
}

/// Whether both tokens can be set in place: each is there as a string, or
/// `discord` has a header and the token is not there at all.
pub open spec fn has_places(text: Seq<char>) -> bool {
    has_place(text, "discord"@, "access_token"@) && has_place(text, "discord"@, "refresh_token"@)
}

/// Whether there is a place for these tokens in the settings: `discord` is
/// either absent or a table, and the tokens can be written.
pub open spec fn can_hold(text: Seq<char>, access: Seq<char>, refresh: Seq<char>) -> bool {
    &&& is_table_in(text, "discord"@) != Ok::<_, Seq<char>>(Some(false))
    &&& is_writable(access)
    &&& is_writable(refresh)
}

/// What setting the tokens comes to: the reason if the text is no document,
/// and else settings with the tokens in them.
pub open spec fn is_rotation(
    edit: Result<Seq<char>, Seq<char>>,
    text: Seq<char>,
    access: Seq<char>,
    refresh: Seq<char>,
) -> bool {
    match edit {
        Ok(new) => {
            &&& is_table_in(text, "discord"@) is Ok
            &&& holds_tokens(new, text, access, refresh)
            &&& has_places(text) ==> changes_only_tokens(new, text, access, refresh)
        },
        Err(why) => is_table_in(text, "discord"@) == Err::<Option<bool>, _>(why),
    }
}

proof fn lemma_token_keys()
    ensures
        is_bare("access_token"@),
        is_bare("refresh_token"@),
        "access_token"@ != "refresh_token"@,
{
    reveal_strlit("access_token");
    reveal_strlit("refresh_token");
    assert("access_token"@.len() < "refresh_token"@.len());
}

/// What has a place for a string still has it once another string is set in
/// place, and what has no string there still has none.
proof fn lemma_place_is_kept(
    new: Seq<char>,
    old: Seq<char>,
    table: Seq<char>,
    key: Seq<char>,
    string: Seq<char>,
    other: Seq<char>,
)
    requires
        other != key,
        differs_in_place(new, old, table, key, string),
    ensures
        has_place(old, table, other) ==> has_place(new, table, other),
        string_in(new, key_path(table, other)) == string_in(old, key_path(table, other)),
{
    lemma_key_path(table, other, key);
    assert(leads_elsewhere(key_path(table, other), table, seq![(key, string)]));
    assert(keeps_entry(new, old, key_path(table, other)));
}

/// The settings with rotated tokens written into them, in place.
pub fn rotate_tokens(text: &str, access_token: &str, refresh_token: &str) -> (r: Result<
    String,
    String,
>)
    requires
        can_hold(text@, access_token@, refresh_token@),
    ensures
        edit_view(r) == rotated(text@, access_token@, refresh_token@),
        is_rotation(edit_view(r), text@, access_token@, refresh_token@),
{
    let a = ("access_token", access_token);
    let b = ("refresh_token", refresh_token);
    let ghost one = ("access_token"@, access_token@);
    let ghost two = ("refresh_token"@, refresh_token@);
    proof {
        lemma_token_keys();
    }
    match place_string(text, "discord", "access_token", access_token) {
        Some(mid) => {
            proof {
                lemma_place_is_kept(mid@, text@, "discord"@, one.0, one.1, two.0);
            }
            match place_string(mid.as_str(), "discord", "refresh_token", refresh_token) {
                Some(new) => {
                    proof {
                        lemma_two_strings(new@, mid@, text@, "discord"@, one, two);
                    }
                    Ok(new)
                },
                None => {
                    let edit = set_strings(mid.as_str(), "discord", &[b]);
                    proof {
                        assert(entries_view([b]@) =~= seq![two]);
                        if edit is Ok {
                            lemma_two_strings(edit->Ok_0@, mid@, text@, "discord"@, one, two);
                        }
                    }
                    edit
                },
            }
        },
        None => match place_string(text, "discord", "refresh_token", refresh_token) {
            Some(mid) => {
                proof {
                    lemma_place_is_kept(mid@, text@, "discord"@, two.0, two.1, one.0);
                }
                let edit = set_strings(mid.as_str(), "discord", &[a]);
                proof {
                    assert(entries_view([a]@) =~= seq![one]);
                    if edit is Ok {
                        lemma_two_strings(edit->Ok_0@, mid@, text@, "discord"@, two, one);
                    }
                }
                edit
            },
            None => {
                let edit = set_strings(text, "discord", &[a, b]);
                proof {
                    assert(entries_view([a, b]@) =~= seq![one, two]);
                }
                edit
            },
        },
    }
}

/// The settings with rotated tokens written into them, in place: nothing where
/// there is no place for them, the reason where the text is no document, and
/// else the settings with the tokens, the comments on them and every other
/// setting with its comments. Where the tokens are there already, or `discord`
/// has a header, not a character changes but for theirs.
pub fn persist_tokens(text: &str, access_token: &str, refresh_token: &str) -> (r: Option<
    Result<String, String>,
>)
    ensures
        match r {
            None => !can_hold(text@, access_token@, refresh_token@),
            Some(edit) => {
                &&& can_hold(text@, access_token@, refresh_token@)
                &&& edit_view(edit) == rotated(text@, access_token@, refresh_token@)
                &&& is_rotation(edit_view(edit), text@, access_token@, refresh_token@)
            },
        },
{
    if !writable(access_token) || !writable(refresh_token) {
        return None;
    }
    match find_table(text, "discord") {
        Ok(Some(false)) => None,
        _ => Some(rotate_tokens(text, access_token, refresh_token)),
    }
}

fn read_string(text: &str, table: &str, key: &str) -> (r: Option<String>)
    ensures
        text_view(r) == string_in(text@, key_path(table@, key@)),
{
    match read_entry(text, &key_steps(table, key)) {
        Some(entry) => entry.string,
        None => None,
    }
}

/// The tokens in the settings, as far as they are there: the access token and
/// the refresh token.
pub fn saved_tokens(text: &str) -> (r: (Option<String>, Option<String>))
    ensures
        text_view(r.0) == string_in(text@, key_path("discord"@, "access_token"@)),
        text_view(r.1) == string_in(text@, key_path("discord"@, "refresh_token"@)),
{
    (read_string(text, "discord", "access_token"), read_string(text, "discord", "refresh_token"))
}

/// The blanks and comments above what stands at the end of a path into the
/// settings.
pub fn comments_above(text: &str, path: &Vec<Step>) -> (r: Option<String>)
    ensures
        text_view(r) == above_in(text@, path_view(path@)),
{
    read_above(text, path)
}

/// What stands at the end of a path into the settings.
pub fn setting(text: &str, path: &Vec<Step>) -> (r: Option<Entry>)
    ensures
        entry_view(r) == entry_in(text@, path_view(path@)),
{
    read_entry(text, path)
}

/// A refresh takes an id, a secret and a token. The form that asks for it says
/// so first, and gives each of the three in full and under its own name.
pub proof fn law_what_a_refresh_takes(cfg: DiscordView)
    ensures
        cfg.can_refresh() <==> cfg.client_id.len() > 0 && cfg.client_secret.len() > 0
            && cfg.refresh_token.len() > 0,
        ("grant_type=refresh_token&refresh_token="@ + cfg.refresh_token
            + "&client_id="@).is_prefix_of(cfg.refresh_form()),
        ({
            let tail = "&client_id="@ + cfg.client_id + "&client_secret="@ + cfg.client_secret;
            let form = cfg.refresh_form();
            &&& form.len() == "grant_type=refresh_token&refresh_token="@.len()
                + cfg.refresh_token.len() + tail.len()
            &&& form.skip(form.len() - tail.len()) == tail
        }),
{
    let form = cfg.refresh_form();
    let lead = "grant_type=refresh_token&refresh_token="@ + cfg.refresh_token + "&client_id="@;
    assert(lead =~= form.take(lead.len() as int));
    let tail = "&client_id="@ + cfg.client_id + "&client_secret="@ + cfg.client_secret;
    assert(form.skip(form.len() - tail.len()) =~= tail);
}

/// An answer grants tokens exactly if it has both as texts, and then those,
/// the access token first. One that does not is refused for the reason that it
/// gives: its description of the error rather than the error, if it has one.
pub proof fn law_what_an_answer_grants(reply: ReplyView)
    ensures
        granted(Ok(reply)) is Ok <==> reply.says("access_token"@) is Some && reply.says(
            "refresh_token"@,
        ) is Some,
        granted(Ok(reply)) matches Ok(pair) ==> reply.says("access_token"@) == Some(pair.0)
            && reply.says("refresh_token"@) == Some(pair.1),
        granted(Ok(reply)) matches Err(line) ==> {
            &&& reply.says("error_description"@) matches Some(why) ==> line
                == "discord token refresh rejected: "@ + why
            &&& reply.get("error_description"@) is None ==> (reply.says("error"@) matches Some(why)
                ==> line == "discord token refresh rejected: "@ + why)
        },
{
}

/// An answer that is no JSON, or that never came, grants nothing, and what is
/// said of it ends in the reason.
pub proof fn law_no_answer_grants_nothing(bytes: Seq<u8>, why: Seq<char>)
    ensures
        granted(Err(why)) matches Err(line) && line.skip(line.len() - why.len()) == why,
        traded(Err(why)) matches Err(line) && line.skip(line.len() - why.len()) == why,
        traded(Ok(bytes)) == granted(json_reply(bytes)),
{
    let one = "discord token refresh: could not parse response: "@ + why;
    let other = "discord token refresh: "@ + why;
    assert(one.skip(one.len() - why.len()) =~= why);
    assert(other.skip(other.len() - why.len()) =~= why);
}

/// Whether a text has the same character so many times in a row.
pub open spec fn has_run(s: Seq<char>, q: char, k: int) -> bool {
    exists|i: int| 0 <= i && i + k <= s.len() && #[trigger] is_run(s, q, i, i + k)
}

pub open spec fn is_run(s: Seq<char>, q: char, from: int, to: int) -> bool {
    forall|j: int| from <= j < to ==> #[trigger] s[j] == q
}

proof fn lemma_run_at_end(s: Seq<char>, q: char, k: int)
    requires
        0 <= k,
    ensures
        run_at_end(s, q) >= k <==> k <= s.len() && is_run(s, q, s.len() - k, s.len() as int),
    decreases s.len(),
{
    if s.len() > 0 && k > 0 {
        let shorter = s.drop_last();
        lemma_run_at_end(shorter, q, k - 1);
        if k <= s.len() && is_run(s, q, s.len() - k, s.len() as int) {
            assert(s[s.len() - 1] == q);
            assert(is_run(shorter, q, shorter.len() - (k - 1), shorter.len() as int));
        }
        if run_at_end(s, q) >= k {
            assert forall|j: int| s.len() - k <= j < s.len() implies #[trigger] s[j] == q by {
                if j < shorter.len() {
                    assert(shorter[j] == s[j]);
                }
            }
        }
    }
}

/// A token can be written exactly if it has neither kind of quote 256 times in
/// a row.
pub proof fn law_which_tokens_can_be_written(s: Seq<char>)
    ensures
        is_writable(s) <==> !has_run(s, '"', 256) && !has_run(s, '\'', 256),
{
    assert forall|q: char, i: int|
        0 <= i && i + 256 <= s.len() && #[trigger] is_run(s, q, i, i + 256) implies run_at_end(
        s.take(i + 256),
        q,
    ) > 255 by {
        let part = s.take(i + 256);
        assert forall|j: int| i <= j < i + 256 implies #[trigger] part[j] == q by {
            assert(s[j] == q);
        }
        lemma_run_at_end(part, q, 256);
    }
    assert forall|q: char, n: int|
        0 <= n <= s.len() && #[trigger] run_at_end(s.take(n), q) > 255 implies has_run(
        s,
        q,
        256,
    ) by {
        let part = s.take(n);
        lemma_run_at_end(part, q, 256);
        assert forall|j: int| n - 256 <= j < n - 256 + 256 implies #[trigger] s[j] == q by {
            assert(part[j] == q);
        }
        assert(is_run(s, q, n - 256, n - 256 + 256));
    }
}

/// Tokens that are made of what tokens are made of can always be saved, unless
/// `discord` is taken by something that is no table.
pub proof fn law_ordinary_tokens_can_be_saved(
    text: Seq<char>,
    access: Seq<char>,
    refresh: Seq<char>,
)
    requires
        is_plain(access),
        is_plain(refresh),
    ensures
        can_hold(text, access, refresh) <==> is_table_in(text, "discord"@) != Ok::<_, Seq<char>>(
            Some(false),
        ),
{
    law_plain_tokens_are_writable(access);
    law_plain_tokens_are_writable(refresh);
}

proof fn lemma_line_end_is_a_break(s: Seq<char>, from: int)
    requires
        0 <= from <= s.len(),
    ensures
        from <= line_end(s, from) <= s.len(),
        forall|i: int| from <= i < line_end(s, from) - 1 ==> #[trigger] s[i] != '\n',
        line_end(s, from) > from && s[line_end(s, from) - 1] != '\n' ==> line_end(s, from)
            == s.len(),
        line_end(s, from) == from ==> from == s.len(),
    decreases s.len() - from,
{
    if from < s.len() && s[from] != '\n' {
        lemma_line_end_is_a_break(s, from + 1);
    }
}

/// A line that is put in gives the key and the value with an equals sign
/// between them. It stands where the line of its place has ended, and where
/// that line has no end yet it is given one.
pub proof fn law_how_a_line_is_put_in(
    before: Seq<char>,
    after: Seq<char>,
    key: Seq<char>,
    value: Seq<char>,
) -> (n: int)
    ensures
        ({
            let text = before + after;
            let line = key + seq![' ', '=', ' '] + value + seq!['\n'];
            let new = with_line(before, after, key, value);
            &&& before.len() <= n <= text.len()
            // No line ends between the place and the new line but the last.
            &&& forall|i: int| before.len() <= i < n - 1 ==> #[trigger] text[i] != '\n'
            &&& if n > before.len() && text[n - 1] == '\n' {
                new == text.take(n) + line + text.skip(n)
            } else {
                n == text.len() && new == text + seq!['\n'] + line
            }
        }),
{
    reveal_strlit(" = ");
    reveal_strlit("\n");
    let text = before + after;
    let line = key + seq![' ', '=', ' '] + value + seq!['\n'];
    assert(" = "@ =~= seq![' ', '=', ' ']);
    assert("\n"@ =~= seq!['\n']);
    assert(line =~= key + " = "@ + value + "\n"@);
    let at = line_end(after, 0);
    lemma_line_end_is_a_break(after, 0);
    let n = before.len() + at;
    assert forall|i: int| before.len() <= i < n - 1 implies #[trigger] text[i] != '\n' by {
        assert(text[i] == after[i - before.len()]);
    }
    if at > 0 && after[at - 1] == '\n' {
        assert(text[n - 1] == '\n');
        assert(with_line(before, after, key, value) =~= text.take(n) + line + text.skip(n));
    } else {
        if at > 0 {
            assert(text[n - 1] == after[at - 1]);
        }
        assert(with_line(before, after, key, value) =~= text + seq!['\n'] + line);
    }
    n
}

/// An answer that grants nothing and gives no reason is refused all the same:
/// one whose description of the error is no text, or that has none and whose
/// error is no text either.
pub proof fn law_a_refusal_always_has_a_reason(reply: ReplyView)
    requires
        granted(Ok(reply)) is Err,
        reply.says("error_description"@) is None,
        reply.get("error_description"@) is Some || reply.says("error"@) is None,
    ensures
        granted(Ok(reply)) == Err::<(Seq<char>, Seq<char>), Seq<char>>(
            "discord token refresh rejected: "@ + "no tokens in response"@,
        ),
{
}

/// A form is there exactly if there is an id, a secret and a token, and then
/// it is the one that asks with them.
pub proof fn law_a_form_takes_all_three(cfg: &DiscordCfg, r: Option<String>)
    requires
        call_ensures(refresh_form, (cfg,), r),
    ensures
        r is Some <==> cfg@.client_id.len() > 0 && cfg@.client_secret.len() > 0
            && cfg@.refresh_token.len() > 0,
        r matches Some(form) ==> form@ == "grant_type=refresh_token&refresh_token="@
            + cfg@.refresh_token + "&client_id="@ + cfg@.client_id + "&client_secret="@
            + cfg@.client_secret,
{
}

/// What a response brings is the two tokens of its answer, or one line more
/// in the log and nothing. A response that never came brings nothing.
pub proof fn law_what_a_response_brings(
    response: Result<Vec<u8>, String>,
    lines: &mut Vec<Line>,
    r: Option<(String, String)>,
)
    requires
        call_ensures(refresh, (response, lines), r),
    ensures
        ({
            let (before, after) = (lines_view(old(lines)@), lines_view(final(lines)@));
            &&& r is Some ==> after == before
            &&& r is None ==> after.len() == before.len() + 1 && after.drop_last() == before
                && after.last().error
            &&& response matches Err(why) ==> r is None && after.last().text
                == "discord token refresh: "@ + why@
            &&& response matches Ok(bytes) ==> match json_reply(bytes@) {
                Ok(reply) => {
                    &&& r is Some <==> reply.says("access_token"@) is Some && reply.says(
                        "refresh_token"@,
                    ) is Some
                    &&& r matches Some(pair) ==> reply.says("access_token"@) == Some(pair.0@)
                        && reply.says("refresh_token"@) == Some(pair.1@)
                },
                Err(_) => r is None,
            }
        }),
{
    let (before, after) = (lines_view(old(lines)@), lines_view(final(lines)@));
    if r is None {
        assert(after.drop_last() =~= before);
    }
}

/// Reading an answer gives the same tokens, wherever it came from.
pub proof fn law_an_answer_is_read_for_its_tokens(bytes: &[u8], r: Option<(String, String)>)
    requires
        call_ensures(parse_refresh_response, (bytes,), r),
    ensures
        match json_reply(bytes@) {
            Ok(reply) => {
                &&& r is Some <==> reply.says("access_token"@) is Some && reply.says(
                    "refresh_token"@,
                ) is Some
                &&& r matches Some(pair) ==> reply.says("access_token"@) == Some(pair.0@)
                    && reply.says("refresh_token"@) == Some(pair.1@)
            },
            Err(_) => r is None,
        },
{
}

/// Letters of either case, digits, a hyphen, an underscore and a full stop are
/// what tokens are made of, and a quote, a blank or a line's end is not.
pub proof fn law_what_tokens_are_made_of(c: char)
    ensures
        97 <= c as u32 <= 122 || 65 <= c as u32 <= 90 || 48 <= c as u32 <= 57 ==> is_plain_char(c),
        c as u32 == 45 || c as u32 == 46 || c as u32 == 95 ==> is_plain_char(c),
        (c as u32) < 45 || c as u32 == 47 || c as u32 > 122 ==> !is_plain_char(c),
{
}

/// A string that is there is put in place of the one before it, with what is
/// around it as it was. One that is not there goes on a line of its own where
/// the table has an end, and nowhere if the key stands for something else.
pub proof fn law_where_a_string_goes(
    text: Seq<char>,
    table: Seq<char>,
    key: Seq<char>,
    string: Seq<char>,
)
    ensures
        value_place(text, table, key) matches Some(place) ==> (placed(text, table, key, string)
            matches Some(new) && new == place.0 + written(string) + place.1),
        value_place(text, table, key) is None ==> {
            &&& placed(text, table, key, string) is Some <==> section_end(text, table) is Some
                && entry_in(text, seq![StepView::Key(table), StepView::Key(key)]) is None
            &&& placed(text, table, key, string) matches Some(new) ==> (section_end(text, table)
                matches Some(place) && new == with_line(place.0, place.1, key, written(string)))
        },
{
    assert(key_path(table, key) =~= seq![StepView::Key(table), StepView::Key(key)]);
}

} // verus!
