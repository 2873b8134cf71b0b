//! Discord's local RPC, spoken over a pipe on the same machine, and the tokens
//! that it takes.
//!
//! A frame is an opcode and a length, 32 bits each with the low byte first,
//! and that many bytes of JSON.
//!
//! [`Rpc`] is the connection as a state machine. The program around it does
//! what it is handed, in order, and reports back what became of the last of
//! it, until nothing is handed back.

use vstd::prelude::*;
use vstd::string::*;

use crate::bytes::{law_le32_comes_back, le32, number_at, push_all, push_le32};
use crate::config::{DiscordCfg, DiscordView};
use crate::json::{
    found, from_json, json_reply, json_text, payload_view, scalars_view, text_view, to_json, Node,
    NodeView, Payload, Reply, ReplyView, Scalar, ScalarView,
};
use crate::log::{complained, Line, LineView};
use crate::text::{decimal, same, to_decimal};

verus! {

pub const OP_HANDSHAKE: u32 = 0;

pub const OP_FRAME: u32 = 1;

/// No more than this is read of any one frame.
pub const MAX_BODY: u32 = 1048576;

/// Bytes in front of a frame's body.
pub const HEADER_LEN: usize = 8;

/// How many pipes Discord may be listening on.
pub const PIPES: u8 = 10;

/// Where Windows keeps pipes.
pub const PIPE_DIR: &'static str = "\\\\.\\pipe\\";

/// The name of the pipe with a number.
pub open spec fn pipe_name(dir: Seq<char>, n: nat) -> Seq<char> {
    dir + "discord-ipc-"@ + decimal(n)
}

/// The pipes to try, in order: the first that opens is Discord's.
pub fn pipe_names(dir: &str) -> (r: Vec<String>)
    ensures
        r@.len() == PIPES,
        forall|i: int| 0 <= i < PIPES ==> (#[trigger] r@[i])@ == pipe_name(dir@, i as nat),
{
    let mut out: Vec<String> = Vec::new();
    let mut n: u8 = 0;
    while n < PIPES
        invariant
            n <= PIPES,
            out@.len() == n,
            forall|i: int| 0 <= i < n ==> (#[trigger] out@[i])@ == pipe_name(dir@, i as nat),
        decreases PIPES - n,
    {
        let mut name = dir.to_owned();
        name.append("discord-ipc-");
        name.append(to_decimal(n as u64).as_str());
        out.push(name);
        n += 1;
    }
    out
}

/// Where everything else keeps sockets: the user's runtime directory, or else
/// the one for temporary files.
pub fn socket_dir(runtime: Option<String>, temporary: Option<String>) -> (r: String)
    ensures
        r@ == (match (runtime, temporary) {
            (Some(dir), _) => dir@,
            (None, Some(dir)) => dir@,
            (None, None) => "/tmp"@,
        }) + "/"@,
{
    let mut dir = match runtime {
        Some(dir) => dir,
        None => match temporary {
            Some(dir) => dir,
            None => "/tmp".to_owned(),
        },
    };
    dir.append("/");
    dir
}

/// A frame: opcode, length and body.
pub open spec fn framed(op: u32, body: Seq<u8>) -> Seq<u8> {
    le32(op as nat) + le32(body.len()) + body
}

/// How much of a body is read, going by the header in front of it.
pub open spec fn announced(header: Seq<u8>) -> nat {
    if number_at(header, 4) <= MAX_BODY {
        number_at(header, 4)
    } else {
        MAX_BODY as nat
    }
}

/// The body that a reader takes off a stream.
pub open spec fn unframed(stream: Seq<u8>) -> Seq<u8> {
    stream.subrange(HEADER_LEN as int, HEADER_LEN + announced(stream))
}

/// What is written as a frame is read back as it was, whatever follows it,
/// as long as it is no longer than a reader takes.
pub proof fn law_a_frame_comes_back(op: u32, body: Seq<u8>, rest: Seq<u8>)
    requires
        body.len() <= MAX_BODY,
    ensures
        unframed(framed(op, body) + rest) == body,
        number_at(framed(op, body) + rest, 0) == op,
{
    let stream = framed(op, body) + rest;
    law_le32_comes_back(op as nat);
    law_le32_comes_back(body.len());
    let (first, second) = (le32(op as nat), le32(body.len()));
    assert(forall|i: int| 0 <= i < 4 ==> stream[i] == first[i]);
    assert(forall|i: int| 4 <= i < 8 ==> stream[i] == #[trigger] second[i - 4]);
    assert(stream[4] == second[0] && stream[5] == second[1] && stream[6] == second[2] && stream[7]
        == second[3]);
    assert(unframed(stream) =~= body);
}

/// No header makes a reader take more than a mebibyte.
pub proof fn law_no_frame_is_read_without_bound(header: Seq<u8>)
    ensures
        announced(header) <= MAX_BODY,
{
}

/// A frame around `body`.
pub fn frame(op: u32, body: &[u8]) -> (r: Vec<u8>)
    ensures
        r@ == framed(op, body@),
{
    let mut out: Vec<u8> = Vec::new();
    push_le32(&mut out, op as u64);
    push_le32(&mut out, body.len() as u64);
    push_all(&mut out, body);
    assert(out@ =~= framed(op, body@));
    out
}

/// A frame around an object.
pub fn write_frame(op: u32, value: &Payload) -> (r: Vec<u8>)
    ensures
        r@ == framed(op, json_text(payload_view(value@))),
{
    let body = to_json(value);
    frame(op, body.as_slice())
}

/// How many bytes to read after this header.
pub fn read_frame(header: [u8; 8]) -> (r: usize)
    ensures
        r == announced(header@),
{
    let len: u64 = header[4] as u64 + 256 * header[5] as u64 + 65536 * header[6] as u64 + 16777216
        * header[7] as u64;
    if len <= MAX_BODY as u64 {
        len as usize
    } else {
        MAX_BODY as usize
    }
}

/// A member that is a plain text.
pub open spec fn text_node(text: Seq<char>) -> NodeView {
    NodeView::Leaf(ScalarView::Text(text))
}

/// What opens a conversation.
pub open spec fn handshake_payload(client_id: Seq<char>) -> Seq<(Seq<char>, NodeView)> {
    seq![("v"@, NodeView::Leaf(ScalarView::Number(1))), ("client_id"@, text_node(client_id))]
}

/// A numbered command with one argument.
pub open spec fn command_payload(
    cmd: Seq<char>,
    argument: Seq<char>,
    value: ScalarView,
    nonce: u64,
) -> Seq<(Seq<char>, NodeView)> {
    seq![
        ("cmd"@, text_node(cmd)),
        ("args"@, NodeView::Object(seq![(argument, value)])),
        ("nonce"@, text_node(decimal(nonce as nat))),
    ]
}

/// What proves who is asking.
pub open spec fn authenticate_payload(token: Seq<char>, nonce: u64) -> Seq<
    (Seq<char>, NodeView),
> {
    command_payload("AUTHENTICATE"@, "access_token"@, ScalarView::Text(token), nonce)
}

/// What mutes, or ends it. There is no command to hold while talking, so
/// push-to-talk is expressed as muting oneself.
pub open spec fn voice_payload(mute: bool, nonce: u64) -> Seq<(Seq<char>, NodeView)> {
    command_payload("SET_VOICE_SETTINGS"@, "mute"@, ScalarView::Flag(mute), nonce)
}

fn handshake(client_id: &str) -> (r: Payload)
    ensures
        payload_view(r@) == handshake_payload(client_id@),
{
    let mut out: Payload = Vec::new();
    out.push(("v".to_owned(), Node::Leaf(Scalar::Number(1))));
    out.push(("client_id".to_owned(), Node::Leaf(Scalar::Text(client_id.to_owned()))));
    assert(payload_view(out@) =~= handshake_payload(client_id@));
    out
}

fn command(cmd: &str, argument: &str, value: Scalar, nonce: u64) -> (r: Payload)
    ensures
        payload_view(r@) == command_payload(cmd@, argument@, value@, nonce),
{
    let mut args: Vec<(String, Scalar)> = Vec::new();
    args.push((argument.to_owned(), value));
    assert(scalars_view(args@) =~= seq![(argument@, value@)]);
    let mut out: Payload = Vec::new();
    out.push(("cmd".to_owned(), Node::Leaf(Scalar::Text(cmd.to_owned()))));
    out.push(("args".to_owned(), Node::Object(args)));
    out.push(("nonce".to_owned(), Node::Leaf(Scalar::Text(to_decimal(nonce)))));
    assert(payload_view(out@) =~= command_payload(cmd@, argument@, value@, nonce));
    out
}

/// What Discord has against a request, if it answered with an error.
pub open spec fn objection(reply: ReplyView) -> Option<Seq<char>> {
    if reply.says("evt"@) == Some("ERROR"@) {
        let message = match reply.get("data"@) {
            Some(data) => data.says("message"@),
            None => None,
        };
        Some(
            match message {
                Some(m) => m,
                None => "unknown error"@,
            },
        )
    } else {
        None
    }
}

/// What Discord has against a request, if it answered with an error.
pub fn read_objection(reply: &Reply) -> (r: Option<String>)
    ensures
        text_view(r) == objection(reply@),
{
    let is_error = match reply.says("evt") {
        Some(evt) => same(evt.as_str(), "ERROR"),
        None => false,
    };
    if !is_error {
        return None;
    }
    let message = match reply.get("data") {
        Some(data) => data.says("message"),
        None => None,
    };
    match message {
        Some(m) => Some(m),
        None => Some("unknown error".to_owned()),
    }
}

/// What the bytes of an answer object to. Bytes that are no JSON object to
/// nothing.
pub open spec fn rejection(bytes: Seq<u8>) -> Option<Seq<char>> {
    match json_reply(bytes) {
        Ok(reply) => objection(reply),
        Err(_) => None,
    }
}

fn read_rejection(bytes: &[u8]) -> (r: Option<String>)
    ensures
        text_view(r) == rejection(bytes@),
{
    match from_json(bytes) {
        Ok(reply) => read_objection(&reply),
        Err(_) => None,
    }
}

/// How far a connection has come.
#[derive(Debug, Clone, Copy, PartialEq, Eq, Structural)]
pub enum Link {
    /// There is none.
    Closed,
    /// A pipe is being opened.
    Opening,
    /// The handshake is being written.
    Greeting,
    /// Its answer is being read.
    Welcome,
    /// The access token is being written.
    Proving,
    /// Its answer is being read.
    Verdict,
    /// The voice settings are being written.
    Speaking,
    /// There is one, at rest.
    Open,
}

/// Something to be done for the connection.
#[derive(Debug)]
pub enum Deed {
    /// Open the pipe, and say whether that worked.
    Open,
    /// Write these bytes, and say whether that worked.
    Write(Vec<u8>),
    /// Read one frame, and hand over its body.
    Read,
    /// Drop the pipe.
    Close,
    /// Put a line in the log.
    Log(Line),
}

pub enum DeedView {
    Open,
    Write(Seq<u8>),
    Read,
    Close,
    Log(LineView),
}

impl View for Deed {
    type V = DeedView;

    open spec fn view(&self) -> DeedView {
        match self {
            Deed::Open => DeedView::Open,
            Deed::Write(bytes) => DeedView::Write(bytes@),
            Deed::Read => DeedView::Read,
            Deed::Close => DeedView::Close,
            Deed::Log(line) => DeedView::Log(line@),
        }
    }
}

pub open spec fn deeds_view(deeds: Seq<Deed>) -> Seq<DeedView> {
    deeds.map_values(|d: Deed| d@)
}

/// What became of the last deed.
#[derive(Debug)]
pub enum Answer {
    Opened(bool),
    Wrote(bool),
    /// The body of a frame, unless reading failed.
    Received(Option<Vec<u8>>),
}

pub enum AnswerView {
    Opened(bool),
    Wrote(bool),
    Received(Option<Seq<u8>>),
}

impl View for Answer {
    type V = AnswerView;

    open spec fn view(&self) -> AnswerView {
        match self {
            Answer::Opened(ok) => AnswerView::Opened(*ok),
            Answer::Wrote(ok) => AnswerView::Wrote(*ok),
            Answer::Received(body) => AnswerView::Received(
                match body {
                    Some(bytes) => Some(bytes@),
                    None => None,
                },
            ),
        }
    }
}

/// What the connection knows.
#[verifier::ext_equal]
pub struct RpcView {
    pub client_id: Seq<char>,
    pub token: Seq<char>,
    /// Off for good: there is no client id. This is the only giving up that
    /// sticks. A Discord that is not running may be started any moment.
    pub gave_up: bool,
    /// Whether it has been said that Discord is not there.
    pub warned: bool,
    pub nonce: u64,
    pub link: Link,
    /// What the last press asked for.
    pub mute: bool,
}

/// What a step leads to.
pub struct RpcStep {
    pub state: RpcView,
    pub deeds: Seq<DeedView>,
}

/// The line that says that Discord is not there.
pub open spec fn unavailable_line() -> LineView {
    complained("discord rpc unavailable (is Discord running?); will retry"@)
}

/// The line that says why Discord would not have the access token.
pub open spec fn refused_line(why: Seq<char>) -> LineView {
    complained("discord authenticate failed: "@ + why)
}

impl RpcView {
    /// A connection that has yet to be made.
    pub open spec fn fresh(cfg: DiscordView) -> RpcView {
        RpcView {
            client_id: cfg.client_id,
            token: cfg.access_token,
            gave_up: cfg.client_id.len() == 0,
            warned: false,
            nonce: 0,
            link: Link::Closed,
            mute: false,
        }
    }

    pub open spec fn at(self, link: Link) -> RpcView {
        RpcView { link, ..self }
    }

    /// Whether nothing is under way.
    pub open spec fn idle(self) -> bool {
        self.link == Link::Closed || self.link == Link::Open
    }

    /// Room for the commands that are still to be numbered before the press is
    /// dealt with.
    pub open spec fn has_room(self) -> bool {
        match self.link {
            Link::Opening | Link::Greeting | Link::Welcome => self.nonce <= u64::MAX - 2,
            Link::Proving | Link::Verdict => self.nonce <= u64::MAX - 1,
            _ => true,
        }
    }

    /// The connection not to be had, which is said once.
    pub open spec fn unavailable(self, deeds: Seq<DeedView>) -> RpcStep {
        RpcStep {
            state: RpcView { link: Link::Closed, warned: true, ..self },
            deeds: if self.warned {
                deeds
            } else {
                deeds.push(DeedView::Log(unavailable_line()))
            },
        }
    }

    /// The voice settings asked for.
    pub open spec fn speaking(self) -> RpcStep {
        let nonce = (self.nonce + 1) as u64;
        RpcStep {
            state: RpcView { nonce, link: Link::Speaking, ..self },
            deeds: seq![
                DeedView::Write(framed(OP_FRAME, json_text(voice_payload(self.mute, nonce)))),
            ],
        }
    }

    /// The connection made: the next time that Discord is not there is worth
    /// a line again.
    pub open spec fn connected(self) -> RpcStep {
        RpcView { warned: false, ..self }.speaking()
    }

    /// The access token put forward.
    pub open spec fn proving(self) -> RpcStep {
        let nonce = (self.nonce + 1) as u64;
        RpcStep {
            state: RpcView { nonce, link: Link::Proving, ..self },
            deeds: seq![
                DeedView::Write(
                    framed(OP_FRAME, json_text(authenticate_payload(self.token, nonce))),
                ),
            ],
        }
    }

    /// Muting asked for, or its end.
    pub open spec fn pressed(self, mute: bool) -> RpcStep {
        if self.gave_up {
            RpcStep { state: self, deeds: seq![] }
        } else if self.link == Link::Open {
            RpcView { mute, ..self }.speaking()
        } else {
            RpcStep {
                state: RpcView { mute, link: Link::Opening, ..self },
                deeds: seq![DeedView::Open],
            }
        }
    }

    /// What is sent first.
    pub open spec fn greeting(self) -> DeedView {
        DeedView::Write(framed(OP_HANDSHAKE, json_text(handshake_payload(self.client_id))))
    }

    /// The last deed done, well or badly. What does not answer that deed
    /// changes nothing.
    pub open spec fn answered(self, answer: AnswerView) -> RpcStep {
        match (self.link, answer) {
            (Link::Opening, AnswerView::Opened(ok)) => if ok {
                RpcStep { state: self.at(Link::Greeting), deeds: seq![self.greeting()] }
            } else {
                self.unavailable(seq![])
            },
            (Link::Greeting, AnswerView::Wrote(ok)) => if ok {
                RpcStep { state: self.at(Link::Welcome), deeds: seq![DeedView::Read] }
            } else {
                self.unavailable(seq![DeedView::Close])
            },
            (Link::Welcome, AnswerView::Received(_)) => if self.token.len() == 0 {
                self.connected()
            } else {
                self.proving()
            },
            (Link::Proving, AnswerView::Wrote(ok)) => if ok {
                RpcStep { state: self.at(Link::Verdict), deeds: seq![DeedView::Read] }
            } else {
                self.unavailable(seq![DeedView::Close])
            },
            (Link::Verdict, AnswerView::Received(body)) => match body {
                Some(bytes) => match rejection(bytes) {
                    Some(why) => self.unavailable(
                        seq![DeedView::Log(refused_line(why)), DeedView::Close],
                    ),
                    None => self.connected(),
                },
                None => self.connected(),
            },
            (Link::Speaking, AnswerView::Wrote(ok)) => if ok {
                RpcStep { state: self.at(Link::Open), deeds: seq![] }
            } else {
                RpcStep { state: self.at(Link::Closed), deeds: seq![DeedView::Close] }
            },
            _ => RpcStep { state: self, deeds: seq![] },
        }
    }
}

/// The connection to Discord.
pub struct Rpc {
    client_id: String,
    token: String,
    gave_up: bool,
    warned: bool,
    nonce: u64,
    link: Link,
    mute: bool,
}

impl View for Rpc {
    type V = RpcView;

    closed spec fn view(&self) -> RpcView {
        RpcView {
            client_id: self.client_id@,
            token: self.token@,
            gave_up: self.gave_up,
            warned: self.warned,
            nonce: self.nonce,
            link: self.link,
            mute: self.mute,
        }
    }
}

fn line_deed(text: String) -> (r: Deed)
    ensures
        r@ == DeedView::Log(complained(text@)),
{
    Deed::Log(Line { error: true, text })
}

impl Rpc {
    /// A connection that has yet to be made, with these credentials.
    pub fn new(cfg: &DiscordCfg) -> (r: Rpc)
        ensures
            r@ == RpcView::fresh(cfg@),
    {
        Rpc {
            client_id: cfg.client_id.clone(),
            token: cfg.access_token.clone(),
            gave_up: cfg.client_id.as_str().is_empty(),
            warned: false,
            nonce: 0,
            link: Link::Closed,
            mute: false,
        }
    }

    /// Whether nothing is under way.
    pub fn is_idle(&self) -> (r: bool)
        ensures
            r == self@.idle(),
    {
        self.link == Link::Closed || self.link == Link::Open
    }

    /// The number of the last numbered command.
    pub fn nonce(&self) -> (r: u64)
        ensures
            r == self@.nonce,
    {
        self.nonce
    }

    /// Mutes, or ends it: what to do first.
    pub fn set_mute(&mut self, mute: bool) -> (r: Vec<Deed>)
        requires
            old(self)@.idle(),
            old(self)@.nonce <= u64::MAX - 2,
        ensures
            final(self)@ == old(self)@.pressed(mute).state,
            deeds_view(r@) == old(self)@.pressed(mute).deeds,
            final(self)@.has_room(),
    {
        let mut deeds: Vec<Deed> = Vec::new();
        if self.gave_up {
            assert(deeds_view(deeds@) =~= seq![]);
            return deeds;
        }
        self.mute = mute;
        if self.link == Link::Open {
            self.speak(&mut deeds);
        } else {
            self.link = Link::Opening;
            deeds.push(Deed::Open);
            assert(deeds_view(deeds@) =~= seq![DeedView::Open]);
        }
        deeds
    }

    /// Goes on from what became of the last deed: what to do next. When
    /// there is nothing to do, the press has been dealt with.
    pub fn answer(&mut self, answer: Answer) -> (r: Vec<Deed>)
        requires
            old(self)@.has_room(),
        ensures
            final(self)@ == old(self)@.answered(answer@).state,
            deeds_view(r@) == old(self)@.answered(answer@).deeds,
            final(self)@.has_room(),
    {
        let mut deeds: Vec<Deed> = Vec::new();
        assert(deeds_view(deeds@) =~= seq![]);
        match (self.link, answer) {
            (Link::Opening, Answer::Opened(ok)) => {
                if ok {
                    self.link = Link::Greeting;
                    let hello = handshake(self.client_id.as_str());
                    deeds.push(Deed::Write(write_frame(OP_HANDSHAKE, &hello)));
                    assert(deeds_view(deeds@) =~= seq![old(self)@.greeting()]);
                } else {
                    self.give_way(&mut deeds);
                }
            },
            (Link::Greeting, Answer::Wrote(ok)) => {
                self.listen_or_give_way(ok, Link::Welcome, &mut deeds);
            },
            (Link::Welcome, Answer::Received(_)) => {
                if self.token.as_str().is_empty() {
                    self.warned = false;
                    self.speak(&mut deeds);
                } else {
                    self.nonce = self.nonce + 1;
                    self.link = Link::Proving;
                    let proof_of_it = command(
                        "AUTHENTICATE",
                        "access_token",
                        Scalar::Text(self.token.clone()),
                        self.nonce,
                    );
                    deeds.push(Deed::Write(write_frame(OP_FRAME, &proof_of_it)));
                    assert(deeds_view(deeds@) =~= old(self)@.proving().deeds);
                }
            },
            (Link::Proving, Answer::Wrote(ok)) => {
                self.listen_or_give_way(ok, Link::Verdict, &mut deeds);
            },
            (Link::Verdict, Answer::Received(body)) => {
                let refusal = match &body {
                    Some(bytes) => read_rejection(bytes.as_slice()),
                    None => None,
                };
                match refusal {
                    Some(why) => {
                        let mut text = "discord authenticate failed: ".to_owned();
                        text.append(why.as_str());
                        deeds.push(line_deed(text));
                        deeds.push(Deed::Close);
                        assert(deeds_view(deeds@) =~= seq![
                            DeedView::Log(refused_line(why@)),
                            DeedView::Close,
                        ]);
                        self.give_way(&mut deeds);
                    },
                    None => {
                        self.warned = false;
                        self.speak(&mut deeds);
                    },
                }
            },
            (Link::Speaking, Answer::Wrote(ok)) => {
                if ok {
                    self.link = Link::Open;
                } else {
                    self.link = Link::Closed;
                    deeds.push(Deed::Close);
                    assert(deeds_view(deeds@) =~= seq![DeedView::Close]);
                }
            },
            _ => {},
        }
        deeds
    }

    fn speak(&mut self, deeds: &mut Vec<Deed>)
        requires
            old(self)@.nonce < u64::MAX,
            old(deeds)@.len() == 0,
        ensures
            final(self)@ == old(self)@.speaking().state,
            deeds_view(final(deeds)@) == old(self)@.speaking().deeds,
    {
        self.nonce = self.nonce + 1;
        self.link = Link::Speaking;
        let settings = command(
            "SET_VOICE_SETTINGS",
            "mute",
            Scalar::Flag(self.mute),
            self.nonce,
        );
        deeds.push(Deed::Write(write_frame(OP_FRAME, &settings)));
        assert(deeds_view(deeds@) =~= old(self)@.speaking().deeds);
    }

    fn give_way(&mut self, deeds: &mut Vec<Deed>)
        ensures
            final(self)@ == old(self)@.unavailable(deeds_view(old(deeds)@)).state,
            deeds_view(final(deeds)@) == old(self)@.unavailable(deeds_view(old(deeds)@)).deeds,
    {
        let ghost before = deeds_view(deeds@);
        self.link = Link::Closed;
        if !self.warned {
            deeds.push(
                line_deed("discord rpc unavailable (is Discord running?); will retry".to_owned()),
            );
            assert(deeds_view(deeds@) =~= before.push(DeedView::Log(unavailable_line())));
        }
        self.warned = true;
    }

    fn listen_or_give_way(&mut self, ok: bool, next: Link, deeds: &mut Vec<Deed>)
        requires
            old(deeds)@.len() == 0,
        ensures
            final(self)@ == (if ok {
                old(self)@.at(next)
            } else {
                old(self)@.unavailable(seq![DeedView::Close]).state
            }),
            deeds_view(final(deeds)@) == (if ok {
                seq![DeedView::Read]
            } else {
                old(self)@.unavailable(seq![DeedView::Close]).deeds
            }),
    {
        if ok {
            self.link = next;
            deeds.push(Deed::Read);
            assert(deeds_view(deeds@) =~= seq![DeedView::Read]);
        } else {
            deeds.push(Deed::Close);
            assert(deeds_view(deeds@) =~= seq![DeedView::Close]);
            self.give_way(deeds);
        }
    }
}

impl Link {
    /// How many answers a connection can still be waiting for.
    pub open spec fn answers_left(self) -> nat {
        match self {
            Link::Closed | Link::Open => 0,
            Link::Speaking => 1,
            Link::Verdict => 2,
            Link::Proving => 3,
            Link::Welcome => 4,
            Link::Greeting => 5,
            Link::Opening => 6,
        }
    }

    /// Whether an answer is one to the last deed.
    pub open spec fn awaits(self, answer: AnswerView) -> bool {
        match self {
            Link::Opening => answer is Opened,
            Link::Greeting | Link::Proving | Link::Speaking => answer is Wrote,
            Link::Welcome | Link::Verdict => answer is Received,
            Link::Closed | Link::Open => false,
        }
    }
}

/// Whether a deed is answered.
pub open spec fn is_answered(deed: DeedView) -> bool {
    deed is Open || deed is Write || deed is Read
}

/// Without a client id nothing is ever opened, written or said, and with one
/// no step ever gives up.
pub proof fn law_giving_up_is_for_want_of_a_client_id(
    cfg: DiscordView,
    state: RpcView,
    mute: bool,
    answer: AnswerView,
)
    ensures
        RpcView::fresh(cfg).gave_up <==> cfg.client_id.len() == 0,
        state.gave_up ==> state.pressed(mute).deeds.len() == 0,
        state.pressed(mute).state.gave_up == state.gave_up,
        state.answered(answer).state.gave_up == state.gave_up,
{
}

/// Every press is taken up: it is written at once to a Discord that is
/// connected, and looks for one that is not, however often that failed before.
pub proof fn law_every_press_is_taken_up(state: RpcView, mute: bool)
    requires
        state.idle(),
        !state.gave_up,
    ensures
        state.link == Link::Open ==> state.pressed(mute).deeds == seq![
            DeedView::Write(
                framed(OP_FRAME, json_text(voice_payload(mute, (state.nonce + 1) as u64))),
            ),
        ],
        state.link == Link::Closed ==> state.pressed(mute).deeds == seq![DeedView::Open],
        state.pressed(mute).state.mute == mute,
{
}

/// A connection that is under way waits for the answer to its last deed and
/// to no other, and each such answer brings the press nearer to its end: none
/// takes more than six.
pub proof fn law_a_press_comes_to_an_end(state: RpcView, mute: bool, answer: AnswerView)
    ensures
        state.idle() ==> state.pressed(mute).state.link.answers_left() <= 6,
        state.link.awaits(answer) ==> state.answered(answer).state.link.answers_left()
            < state.link.answers_left(),
        state.link.awaits(answer) ==> {
            let next = state.answered(answer);
            &&& next.state.idle() ==> forall|i: int|
                0 <= i < next.deeds.len() ==> !is_answered(#[trigger] next.deeds[i])
            &&& !next.state.idle() ==> next.deeds.len() == 1 && is_answered(next.deeds[0])
        },
        !state.link.awaits(answer) ==> state.answered(answer).state == state,
{
}

/// What a press asks for is what Discord is told: as long as the connection
/// is being made, nothing but the last press's wish is ever written as voice
/// settings.
pub proof fn law_discord_hears_the_last_press(state: RpcView, answer: AnswerView)
    requires
        state.answered(answer).state.link == Link::Speaking,
        state.link != Link::Speaking,
    ensures
        state.answered(answer).deeds == seq![
            DeedView::Write(
                framed(OP_FRAME, json_text(voice_payload(state.mute, (state.nonce + 1) as u64))),
            ),
        ],
        state.answered(answer).state.mute == state.mute,
{
}

/// A Discord that will not have the access token is told nothing more: the
/// pipe is dropped, the reason goes to the log, and the next press starts
/// over.
pub proof fn law_a_refused_token_ends_the_connection(state: RpcView, body: Seq<u8>)
    requires
        state.link == Link::Verdict,
        rejection(body) is Some,
    ensures
        ({
            let next = state.answered(AnswerView::Received(Some(body)));
            &&& next.state.link == Link::Closed
            &&& next.deeds.len() >= 2
            &&& next.deeds[0] == DeedView::Log(refused_line(rejection(body)->0))
            &&& next.deeds[1] == DeedView::Close
            &&& forall|i: int|
                0 <= i < next.deeds.len() ==> !is_answered(#[trigger] next.deeds[i])
        }),
{
}

/// No voice settings are written before the access token has been put forward,
/// if there is one.
pub proof fn law_the_token_comes_first(state: RpcView, answer: AnswerView)
    requires
        state.token.len() > 0,
        state.link == Link::Opening || state.link == Link::Greeting || state.link == Link::Welcome,
    ensures
        state.answered(answer).state.link != Link::Speaking,
        state.answered(answer).state.link != Link::Open,
{
}

/// Everything that happens to a connection.
pub enum RpcInput {
    Press(bool),
    Answer(AnswerView),
}

impl RpcView {
    pub open spec fn after(self, input: RpcInput) -> RpcStep {
        match input {
            RpcInput::Press(mute) => self.pressed(mute),
            RpcInput::Answer(answer) => self.answered(answer),
        }
    }

    /// Where a run of inputs leads.
    pub open spec fn after_all(self, inputs: Seq<RpcInput>) -> RpcView
        decreases inputs.len(),
    {
        if inputs.len() == 0 {
            self
        } else {
            self.after(inputs[0]).state.after_all(inputs.skip(1))
        }
    }

    /// What is done in the course of it.
    pub open spec fn deeds_of(self, inputs: Seq<RpcInput>) -> Seq<DeedView>
        decreases inputs.len(),
    {
        if inputs.len() == 0 {
            Seq::empty()
        } else {
            self.after(inputs[0]).deeds + self.after(inputs[0]).state.deeds_of(inputs.skip(1))
        }
    }
}

/// Whether a step numbers a command.
pub open spec fn numbers_a_command(from: Link, to: Link) -> bool {
    from != to && (to == Link::Proving || to == Link::Speaking)
}

/// Numbers are given out one by one, and none of them twice: a step that
/// writes a command gives it the next number, and no other step uses one up.
pub proof fn law_numbers_are_never_reused(state: RpcView, input: RpcInput)
    requires
        state.nonce < u64::MAX,
        state.link != Link::Speaking || input is Answer,
    ensures
        ({
            let next = state.after(input);
            let nonce = next.state.nonce;
            if numbers_a_command(state.link, next.state.link) {
                &&& nonce == state.nonce + 1
                &&& next.deeds == seq![
                    DeedView::Write(
                        framed(
                            OP_FRAME,
                            json_text(
                                if next.state.link == Link::Proving {
                                    authenticate_payload(state.token, nonce)
                                } else {
                                    voice_payload(next.state.mute, nonce)
                                },
                            ),
                        ),
                    ),
                ]
            } else {
                nonce == state.nonce
            }
        }),
{
}

/// A step that brings no connection says nothing that has been said before.
proof fn lemma_failing_quietly(state: RpcView, input: RpcInput)
    requires
        state.warned,
        state.link != Link::Open,
        state.link != Link::Speaking,
        state.after(input).state.link != Link::Speaking,
    ensures
        state.after(input).state.warned,
        state.after(input).state.link != Link::Open,
        forall|i: int|
            0 <= i < state.after(input).deeds.len() ==> #[trigger] state.after(input).deeds[i]
                != DeedView::Log(unavailable_line()),
{
    if let RpcInput::Answer(AnswerView::Received(Some(bytes))) = input {
        if let Some(why) = rejection(bytes) {
            reveal_strlit("discord authenticate failed: ");
            reveal_strlit("discord rpc unavailable (is Discord running?); will retry");
            assert(refused_line(why).text[8] == 'a');
            assert(unavailable_line().text[8] == 'r');
        }
    }
}

/// Once it has been said that Discord is not there, it is not said again
/// until there has been a connection, however many presses fail in between.
pub proof fn law_an_outage_is_reported_once(state: RpcView, inputs: Seq<RpcInput>)
    requires
        state.warned,
        state.link != Link::Open,
        forall|n: int|
            0 <= n <= inputs.len() ==> (#[trigger] state.after_all(inputs.take(n))).link
                != Link::Speaking,
    ensures
        forall|i: int|
            0 <= i < state.deeds_of(inputs).len() ==> #[trigger] state.deeds_of(inputs)[i]
                != DeedView::Log(unavailable_line()),
        state.after_all(inputs).warned,
    decreases inputs.len(),
{
    if inputs.len() > 0 {
        let next = state.after(inputs[0]);
        let rest = inputs.skip(1);
        assert(state.after_all(inputs.take(0)) == state);
        assert(inputs.take(1)[0] == inputs[0] && inputs.take(1).skip(1) =~= Seq::empty());
        assert(next.state.after_all(inputs.take(1).skip(1)) == next.state);
        assert(state.after_all(inputs.take(1)) == next.state);
        lemma_failing_quietly(state, inputs[0]);
        assert forall|n: int| 0 <= n <= rest.len() implies (#[trigger] next.state.after_all(
            rest.take(n),
        )).link != Link::Speaking by {
            assert(inputs.take(n + 1).skip(1) =~= rest.take(n));
            assert(inputs.take(n + 1)[0] == inputs[0]);
            assert(state.after_all(inputs.take(n + 1)).link != Link::Speaking);
        }
        law_an_outage_is_reported_once(next.state, rest);
        let (first, others) = (next.deeds, next.state.deeds_of(rest));
        assert forall|i: int| 0 <= i < state.deeds_of(inputs).len() implies #[trigger] state.deeds_of(
            inputs,
        )[i] != DeedView::Log(unavailable_line()) by {
            if i < first.len() {
                assert(state.deeds_of(inputs)[i] == first[i]);
            } else {
                assert(state.deeds_of(inputs)[i] == others[i - first.len()]);
            }
        }
    }
}

/// The number of bytes that is read behind a header is the one that the header
/// gives in its last four bytes, up to a mebibyte.
pub proof fn law_a_header_says_how_much_follows(op: nat, len: nat)
    requires
        len < 0x1_0000_0000,
    ensures
        announced(le32(op) + le32(len)) == (if len <= 1048576 {
            len
        } else {
            1048576
        }),
{
    law_le32_comes_back(len);
    let header = le32(op) + le32(len);
    let tail = le32(len);
    assert(header[4] == tail[0] && header[5] == tail[1] && header[6] == tail[2] && header[7]
        == tail[3]);
}

/// What a frame looks like on the wire: what kind it is, then how long its body
/// is, then the body.
pub proof fn law_a_frame_is_kind_length_and_body(op: u32, body: Seq<u8>)
    requires
        body.len() < 0x1_0000_0000,
    ensures
        framed(op, body).len() == 8 + body.len(),
        number_at(framed(op, body), 0) == op,
        number_at(framed(op, body), 4) == body.len(),
        framed(op, body).skip(8) == body,
{
    law_le32_comes_back(op as nat);
    law_le32_comes_back(body.len());
    let (first, second, all) = (le32(op as nat), le32(body.len()), framed(op, body));
    assert(all[0] == first[0] && all[1] == first[1] && all[2] == first[2] && all[3] == first[3]);
    assert(all[4] == second[0] && all[5] == second[1] && all[6] == second[2] && all[7]
        == second[3]);
    assert(all.skip(8) =~= body);
}

/// Whether a message has a member with a plain text.
pub open spec fn has_text(
    message: Seq<(Seq<char>, NodeView)>,
    key: Seq<char>,
    text: Seq<char>,
) -> bool {
    exists|i: int|
        0 <= i < message.len() && #[trigger] message[i] == (
            key,
            NodeView::Leaf(ScalarView::Text(text)),
        )
}

/// Whether a message has exactly one argument, of this name and value.
pub open spec fn has_argument(
    message: Seq<(Seq<char>, NodeView)>,
    key: Seq<char>,
    value: ScalarView,
) -> bool {
    exists|i: int|
        0 <= i < message.len() && (#[trigger] message[i]).0 == "args"@ && (
        message[i].1 matches NodeView::Object(args) && args.len() == 1 && args[0] == (key, value))
}

/// What Discord is told: who is calling, in the first version of the language,
/// when the conversation opens; the access token to prove it; and on each
/// press whether to be muted, which is what was asked for and not the
/// opposite. Every command carries its number.
pub proof fn law_what_discord_is_told(
    client_id: Seq<char>,
    token: Seq<char>,
    mute: bool,
    nonce: u64,
)
    ensures
        ({
            let hello = handshake_payload(client_id);
            &&& hello.len() == 2
            &&& hello.contains(("v"@, NodeView::Leaf(ScalarView::Number(1))))
            &&& has_text(hello, "client_id"@, client_id)
        }),
        ({
            let proof_of_it = authenticate_payload(token, nonce);
            &&& proof_of_it.len() == 3
            &&& has_text(proof_of_it, "cmd"@, "AUTHENTICATE"@)
            &&& has_argument(proof_of_it, "access_token"@, ScalarView::Text(token))
            &&& has_text(proof_of_it, "nonce"@, decimal(nonce as nat))
        }),
        ({
            let settings = voice_payload(mute, nonce);
            &&& settings.len() == 3
            &&& has_text(settings, "cmd"@, "SET_VOICE_SETTINGS"@)
            &&& has_argument(settings, "mute"@, ScalarView::Flag(mute))
            &&& has_text(settings, "nonce"@, decimal(nonce as nat))
        }),
{
    let hello = handshake_payload(client_id);
    assert(hello[0] == ("v"@, NodeView::Leaf(ScalarView::Number(1))));
    assert(hello[1] == ("client_id"@, NodeView::Leaf(ScalarView::Text(client_id))));
    let number = ("nonce"@, NodeView::Leaf(ScalarView::Text(decimal(nonce as nat))));
    let proof_of_it = authenticate_payload(token, nonce);
    assert(proof_of_it[0] == ("cmd"@, NodeView::Leaf(ScalarView::Text("AUTHENTICATE"@))));
    assert(proof_of_it[1].0 == "args"@ && proof_of_it[2] == number);
    let settings = voice_payload(mute, nonce);
    assert(settings[0] == ("cmd"@, NodeView::Leaf(ScalarView::Text("SET_VOICE_SETTINGS"@))));
    assert(settings[1].0 == "args"@ && settings[2] == number);
}

/// Discord objects exactly when it calls its answer an error. What it has to
/// say about that is the message among the data, if there is one.
pub proof fn law_only_an_error_is_an_objection(reply: ReplyView)
    ensures
        objection(reply) is Some <==> reply.members is Some && found(reply.members->0, "evt"@)
            is Some && found(reply.members->0, "evt"@)->0.text == Some("ERROR"@),
        objection(reply) matches Some(why) ==> {
            let data = found(reply.members->0, "data"@);
            let message = if data is Some && data->0.members is Some {
                found(data->0.members->0, "message"@)
            } else {
                None
            };
            why == (if message is Some && message->0 is Some {
                message->0->0
            } else {
                "unknown error"@
            })
        },
{
}

/// Bytes that are no JSON object to nothing, and others to what they say.
pub proof fn law_bytes_object_to_what_they_say(bytes: Seq<u8>)
    ensures
        json_reply(bytes) is Err ==> rejection(bytes) is None,
        json_reply(bytes) matches Ok(reply) ==> rejection(bytes) == objection(reply),
{
}

/// The one deed of writing a command under the next number.
pub open spec fn writes(deeds: Seq<DeedView>, op: u32, message: Seq<(Seq<char>, NodeView)>) -> bool {
    deeds.len() == 1 && deeds[0] == DeedView::Write(framed(op, json_text(message)))
}

/// Whatever Discord answers to the handshake, or if it answers nothing, the
/// connection goes on: to the access token if there is one, and straight to
/// the voice settings if there is none.
pub proof fn law_any_welcome_will_do(state: RpcView, body: Option<Seq<u8>>)
    requires
        state.link == Link::Welcome,
        state.nonce < u64::MAX,
    ensures
        ({
            let next = state.answered(AnswerView::Received(body));
            let nonce = (state.nonce + 1) as u64;
            &&& next.state.nonce == nonce
            &&& next.state.mute == state.mute && next.state.token == state.token
            &&& state.token.len() > 0 ==> next.state.link == Link::Proving && writes(
                next.deeds,
                1,
                authenticate_payload(state.token, nonce),
            )
            &&& state.token.len() == 0 ==> next.state.link == Link::Speaking && writes(
                next.deeds,
                1,
                voice_payload(state.mute, nonce),
            )
        }),
{
}

/// Only a rejection of the access token keeps the voice settings from being
/// written after it.
pub proof fn law_any_verdict_but_a_rejection_will_do(state: RpcView, body: Option<Seq<u8>>)
    requires
        state.link == Link::Verdict,
        state.nonce < u64::MAX,
    ensures
        ({
            let next = state.answered(AnswerView::Received(body));
            let nonce = (state.nonce + 1) as u64;
            let rejected = body is Some && rejection(body->0) is Some;
            &&& !rejected ==> next.state.link == Link::Speaking && writes(
                next.deeds,
                1,
                voice_payload(state.mute, nonce),
            )
            &&& !rejected ==> !next.state.warned
            &&& rejected ==> next.state.link == Link::Closed
        }),
{
}

/// What goes wrong on the way ends the press: the pipe is dropped if there is
/// one, that Discord is not there is said unless it has been, and the next
/// press starts over. A press that fails on a connection that was good says
/// nothing.
pub proof fn law_a_failure_ends_the_press(state: RpcView)
    ensures
        ({
            let next = state.answered(AnswerView::Opened(false));
            state.link == Link::Opening ==> {
                &&& next.state == (RpcView { link: Link::Closed, warned: true, ..state })
                &&& next.deeds.len() == (if state.warned {
                    0nat
                } else {
                    1nat
                })
                &&& !state.warned ==> next.deeds[0] == DeedView::Log(unavailable_line())
            }
        }),
        ({
            let next = state.answered(AnswerView::Wrote(false));
            &&& state.link == Link::Greeting || state.link == Link::Proving ==> {
                &&& next.state == (RpcView { link: Link::Closed, warned: true, ..state })
                &&& next.deeds.len() == (if state.warned {
                    1nat
                } else {
                    2nat
                })
                &&& next.deeds[0] == DeedView::Close
                &&& !state.warned ==> next.deeds[1] == DeedView::Log(unavailable_line())
            }
            &&& state.link == Link::Speaking ==> {
                &&& next.state == (RpcView { link: Link::Closed, ..state })
                &&& next.deeds.len() == 1 && next.deeds[0] == DeedView::Close
            }
        }),
{
}

/// A press with nothing connected, on a Discord that is there and has nothing
/// against the token: the pipe is opened, Discord is greeted, the token is put
/// forward, and the press is passed on, in that order and each once. Then the
/// connection stays open.
pub proof fn law_a_willing_discord_is_told_the_press(
    state: RpcView,
    mute: bool,
    welcome: Option<Seq<u8>>,
    verdict: Option<Seq<u8>>,
)
    requires
        state.link == Link::Closed,
        !state.gave_up,
        state.nonce <= u64::MAX - 2,
        verdict matches Some(bytes) ==> rejection(bytes) is None,
    ensures
        ({
            let (n, m) = ((state.nonce + 1) as u64, (state.nonce + 2) as u64);
            let opening = state.pressed(mute);
            let greeting = opening.state.answered(AnswerView::Opened(true));
            let waiting = greeting.state.answered(AnswerView::Wrote(true));
            let welcomed = waiting.state.answered(AnswerView::Received(welcome));
            &&& opening.deeds.len() == 1 && opening.deeds[0] == DeedView::Open
            &&& writes(greeting.deeds, 0, handshake_payload(state.client_id))
            &&& waiting.deeds.len() == 1 && waiting.deeds[0] == DeedView::Read
            &&& if state.token.len() == 0 {
                let end = welcomed.state.answered(AnswerView::Wrote(true));
                &&& writes(welcomed.deeds, 1, voice_payload(mute, n))
                &&& end.deeds.len() == 0 && end.state.link == Link::Open && !end.state.warned
            } else {
                let proved = welcomed.state.answered(AnswerView::Wrote(true));
                let believed = proved.state.answered(AnswerView::Received(verdict));
                let end = believed.state.answered(AnswerView::Wrote(true));
                &&& writes(welcomed.deeds, 1, authenticate_payload(state.token, n))
                &&& proved.deeds.len() == 1 && proved.deeds[0] == DeedView::Read
                &&& writes(believed.deeds, 1, voice_payload(mute, m))
                &&& end.deeds.len() == 0 && end.state.link == Link::Open && !end.state.warned
            }
        }),
{
}

/// A press on a connection that is open is passed on with nothing before it,
/// and the connection stays open.
pub proof fn law_an_open_connection_is_told_at_once(state: RpcView, mute: bool)
    requires
        state.link == Link::Open,
        !state.gave_up,
        state.nonce < u64::MAX,
    ensures
        ({
            let speaking = state.pressed(mute);
            let end = speaking.state.answered(AnswerView::Wrote(true));
            &&& writes(speaking.deeds, 1, voice_payload(mute, (state.nonce + 1) as u64))
            &&& end.deeds.len() == 0
            &&& end.state == (RpcView {
                nonce: (state.nonce + 1) as u64,
                mute,
                ..state
            })
        }),
{
}

/// A connection that has yet to be made has the credentials that it was given,
/// each in its own place, and starts from nothing.
pub proof fn law_a_fresh_connection_has_its_credentials(cfg: DiscordView)
    ensures
        RpcView::fresh(cfg).client_id == cfg.client_id,
        RpcView::fresh(cfg).token == cfg.access_token,
        RpcView::fresh(cfg).gave_up == (cfg.client_id.len() == 0),
        RpcView::fresh(cfg).link == Link::Closed,
        !RpcView::fresh(cfg).warned,
        RpcView::fresh(cfg).nonce == 0,
{
}

/// A rejected token is said with Discord's reason, and the pipe is dropped.
/// That Discord is not to be had is said after that, unless it has been.
pub proof fn law_a_rejection_is_said(state: RpcView, bytes: Seq<u8>)
    requires
        state.link == Link::Verdict,
        rejection(bytes) is Some,
    ensures
        ({
            let next = state.answered(AnswerView::Received(Some(bytes)));
            let why = rejection(bytes)->0;
            &&& next.deeds.len() == (if state.warned {
                2nat
            } else {
                3nat
            })
            &&& next.deeds[0] matches DeedView::Log(line) && line.error && line.text.len()
                >= why.len() && line.text.skip(line.text.len() - why.len()) == why
            &&& next.deeds[1] == DeedView::Close
            &&& !state.warned ==> next.deeds[2] == DeedView::Log(unavailable_line())
            &&& next.state == (RpcView { link: Link::Closed, warned: true, ..state })
        }),
{
    let why = rejection(bytes)->0;
    let text = refused_line(why).text;
    assert(text.skip(text.len() - why.len()) =~= why);
}

/// Without an id there is no one to speak for: no press does anything.
pub proof fn law_without_an_id_nothing_is_done(cfg: DiscordView, mute: bool)
    requires
        cfg.client_id.len() == 0,
    ensures
        ({
            let fresh = RpcView::fresh(cfg);
            fresh.pressed(mute).deeds.len() == 0 && fresh.pressed(mute).state == fresh
        }),
{
}

/// A press and an answer on a connection do what is said of them above.
pub proof fn law_a_connection_goes_from_step_to_step(
    rpc: &mut Rpc,
    mute: bool,
    answer: Answer,
    deeds: Vec<Deed>,
)
    ensures
        call_ensures(Rpc::set_mute, (rpc, mute), deeds) ==> final(rpc)@ == old(rpc)@.pressed(
            mute,
        ).state && deeds_view(deeds@) == old(rpc)@.pressed(mute).deeds,
        call_ensures(Rpc::answer, (rpc, answer), deeds) ==> final(rpc)@ == old(rpc)@.answered(
            answer@,
        ).state && deeds_view(deeds@) == old(rpc)@.answered(answer@).deeds,
{
}

/// A connection is idle exactly if nothing is under way on it, and its number
/// is that of the last command.
pub proof fn law_a_connection_says_where_it_stands(rpc: &Rpc, idle: bool, nonce: u64)
    requires
        call_ensures(Rpc::is_idle, (rpc,), idle),
        call_ensures(Rpc::nonce, (rpc,), nonce),
    ensures
        idle <==> rpc@.link == Link::Closed || rpc@.link == Link::Open,
        nonce == rpc@.nonce,
{
}

/// Discord is looked for under ten names in a directory, with the digits from
/// 0 to 9 at their ends, in that order.
pub proof fn law_ten_names_are_tried_in_order(dir: &str, r: Vec<String>, i: int)
    requires
        0 <= i < 10,
        call_ensures(pipe_names, (dir,), r),
    ensures
        r@.len() == 10,
        r@[i]@ == (dir@ + "discord-ipc-"@).push((48 + i) as char),
{
    let name = r@[i]@;
    assert(name == pipe_name(dir@, i as nat));
    assert(decimal(i as nat) =~= seq![(48 + i) as char]);
    assert(name =~= (dir@ + "discord-ipc-"@).push((48 + i) as char));
}

/// Sockets are in the runtime directory if there is one, else among the
/// temporary files, and in `/tmp` if nothing says where those are.
pub proof fn law_where_sockets_are(runtime: Option<String>, temporary: Option<String>, r: String)
    requires
        call_ensures(socket_dir, (runtime, temporary), r),
    ensures
        r@.len() > 0 && r@.last() == '/',
        runtime matches Some(dir) ==> r@.drop_last() == dir@,
        runtime is None ==> (temporary matches Some(dir) ==> r@.drop_last() == dir@),
        runtime is None && temporary is None ==> r@.drop_last() == "/tmp"@,
{
    reveal_strlit("/");
    let dir = match (runtime, temporary) {
        (Some(dir), _) => dir@,
        (None, Some(dir)) => dir@,
        (None, None) => "/tmp"@,
    };
    assert(r@.drop_last() =~= dir);
}

/// Of a frame, its header says how much is read, and never more than a
/// mebibyte.
pub proof fn law_a_frame_is_read_in_bounds(header: [u8; 8], r: usize)
    requires
        call_ensures(read_frame, (header,), r),
    ensures
        r <= 1048576,
        number_at(header@, 4) <= 1048576 ==> r == number_at(header@, 4),
        number_at(header@, 4) > 1048576 ==> r == 1048576,
{
}

/// A frame is what it is around, behind its kind and its length.
pub proof fn law_what_is_written_is_framed(
    op: u32,
    body: &[u8],
    around: Vec<u8>,
    value: &Payload,
    written: Vec<u8>,
)
    requires
        body@.len() <= u32::MAX,
        call_ensures(frame, (op, body), around),
        call_ensures(write_frame, (op, value), written),
    ensures
        around@.len() == 8 + body@.len(),
        number_at(around@, 0) == op,
        number_at(around@, 4) == body@.len(),
        around@.skip(8) == body@,
        written@.skip(8) == json_text(payload_view(value@)),
{
    law_le32_comes_back(op as nat);
    law_le32_comes_back(body@.len());
    let (first, second) = (le32(op as nat), le32(body@.len()));
    assert(forall|i: int| 0 <= i < 4 ==> around@[i] == first[i]);
    assert(around@[4] == second[0] && around@[5] == second[1] && around@[6] == second[2]
        && around@[7] == second[3]);
    assert(around@.skip(8) =~= body@);
    assert(written@.skip(8) =~= json_text(payload_view(value@)));
}

} // verus!
