//! Minimal HID++ 2.0, enough to drive ONBOARD PROFILES (0x8100) and MOUSE
//! BUTTON SPY (0x8110) on a Logitech mouse.
//!
//! Frame layout (long report, 20 bytes):
//!   [0] 0x11            report id
//!   [1] device index    0x01 = first device behind a receiver, 0xFF = wired
//!   [2] feature index   resolved at runtime via the ROOT feature
//!   [3] (fn << 4) | swId
//!   [4..20] parameters
//!
//! Responses echo our software id in the low nibble. Notifications carry
//! swId 0, with the event index in the high nibble - that is how a button
//! event is told apart from a command reply.

use std::collections::VecDeque;

use vstd::prelude::*;
use vstd::string::*;

use crate::text::{digits, hex, law_padding_puts_zeros_in_front, to_padded_hex, zero_padded};

verus! {

pub const REPORT_LONG: u8 = 0x11;

pub const REPORT_SHORT: u8 = 0x10;

/// Any non-zero 4-bit value.
pub const SW_ID: u8 = 0x0a;

/// The root feature; its index is always zero, so it is never resolved.
pub const FEAT_ROOT: u16 = 0x0000;

pub const FEAT_ONBOARD_PROFILES: u16 = 0x8100;

pub const FEAT_MOUSE_BUTTON_SPY: u16 = 0x8110;

/// Broadcasts an event when a wireless device reconnects and its volatile
/// state needs re-applying. Optional - not every firmware exposes it.
pub const FEAT_WIRELESS_DEVICE_STATUS: u16 = 0x1d4b;

pub const MODE_ONBOARD: u8 = 0x01;

pub const MODE_HOST: u8 = 0x02;

/// Logitech's USB vendor id.
pub const VENDOR_LOGITECH: u16 = 0x046d;

/// The vendor-defined collection on which HID++ lives.
pub const USAGE_PAGE_VENDOR: u16 = 0xff00;

/// The collection that takes long reports.
pub const USAGE_LONG: u16 = 0x02;

/// First paired device behind a receiver.
pub const INDEX_PAIRED: u8 = 0x01;

/// Wired, or addressed directly.
pub const INDEX_DIRECT: u8 = 0xff;

/// Feature index of an error page.
pub const ERROR_PAGE: u8 = 0xff;

/// Index of the root feature.
pub const ROOT_INDEX: u8 = 0x00;

/// ROOT: resolve a feature id.
pub const FN_GET_FEATURE: u8 = 0;

/// ROOT: protocol version, the cheapest liveness check there is.
pub const FN_GET_PROTOCOL_VERSION: u8 = 1;

/// How many reads a device gets to answer in; wireless can be laggy.
pub const READS_PER_CALL: u8 = 40;

/// Length of a long report.
pub const FRAME_LEN: usize = 20;

/// Parameter bytes in a long report.
pub const PARAMS_LEN: usize = 16;

/// A long report as it is read and written.
pub type Frame = [u8; 20];

/// The parameters of a reply.
pub type Params = [u8; 16];

/// Why a HID++ operation failed.
#[derive(Debug)]
pub enum Error {
    /// The operating system's account of it.
    Hid(String),
    NoDevice,
    Timeout,
    /// HID++ error page returned by the device.
    Device(u8),
    FeatureMissing(u16),
}

pub enum ErrorView {
    Hid(Seq<char>),
    NoDevice,
    Timeout,
    Device(u8),
    FeatureMissing(u16),
}

impl View for Error {
    type V = ErrorView;

    open spec fn view(&self) -> ErrorView {
        match self {
            Error::Hid(e) => ErrorView::Hid(e@),
            Error::NoDevice => ErrorView::NoDevice,
            Error::Timeout => ErrorView::Timeout,
            Error::Device(c) => ErrorView::Device(*c),
            Error::FeatureMissing(id) => ErrorView::FeatureMissing(*id),
        }
    }
}

impl ErrorView {
    /// The error in words.
    pub open spec fn message(self) -> Seq<char> {
        match self {
            ErrorView::Hid(e) => "hid error: "@ + e,
            ErrorView::NoDevice => "no Logitech HID++ interface found"@,
            ErrorView::Timeout => "device did not answer"@,
            ErrorView::Device(c) => "device returned HID++ error 0x"@ + zero_padded(
                hex(c as nat),
                2,
            ),
            ErrorView::FeatureMissing(id) => "device does not support feature 0x"@ + zero_padded(
                hex(id as nat),
                4,
            ),
        }
    }
}

impl Error {
    /// The error in words.
    pub fn message(&self) -> (r: String)
        ensures
            r@ == self@.message(),
    {
        match self {
            Error::Hid(e) => {
                let mut out = "hid error: ".to_owned();
                out.append(e.as_str());
                out
            },
            Error::NoDevice => "no Logitech HID++ interface found".to_owned(),
            Error::Timeout => "device did not answer".to_owned(),
            Error::Device(c) => {
                let mut out = "device returned HID++ error 0x".to_owned();
                out.append(to_padded_hex(*c as u64, 2).as_str());
                out
            },
            Error::FeatureMissing(id) => {
                let mut out = "device does not support feature 0x".to_owned();
                out.append(to_padded_hex(*id as u64, 4).as_str());
                out
            },
        }
    }
}

/// The bytes of a command: header, parameters, zeros to the end.
pub open spec fn request_bytes(
    dev_index: u8,
    feature_idx: u8,
    function: u8,
    params: Seq<u8>,
) -> Seq<u8> {
    seq![REPORT_LONG, dev_index, feature_idx, (function << 4) | SW_ID] + params + Seq::new(
        (PARAMS_LEN - params.len()) as nat,
        |i: int| 0u8,
    )
}

/// What a report that arrives while a command waits for its reply is.
pub enum Heard {
    /// Nothing was read.
    Silence,
    /// The device's error page for the command.
    Failure(u8),
    /// The reply.
    Reply,
    /// A notification, meant for the input loop.
    Notice,
    /// A reply to somebody else.
    Stray,
}

/// What the `n` bytes read into `buf` are to the command `request`.
pub open spec fn heard(request: Seq<u8>, n: nat, buf: Seq<u8>) -> Heard {
    if n == 0 {
        Heard::Silence
    } else if buf[0] == REPORT_SHORT && buf[2] == ERROR_PAGE && buf[3] == request[3] {
        Heard::Failure(buf[4])
    } else if buf[1] == request[1] && buf[2] == request[2] && buf[3] & 0x0f == SW_ID {
        Heard::Reply
    } else if buf[3] & 0x0f == 0 {
        Heard::Notice
    } else {
        Heard::Stray
    }
}

/// The notifications that wait after a read of `n` bytes into `buf` while
/// `request` waits for its reply.
pub open spec fn kept(request: Seq<u8>, pending: Seq<Frame>, n: nat, buf: Frame) -> Seq<Frame> {
    if heard(request, n, buf@) is Notice {
        pending.push(buf)
    } else {
        pending
    }
}

/// The notifications that wait after a whole run of reads.
pub open spec fn kept_all(
    request: Seq<u8>,
    pending: Seq<Frame>,
    reads: Seq<(nat, Frame)>,
) -> Seq<Frame>
    decreases reads.len(),
{
    if reads.len() == 0 {
        pending
    } else {
        let (n, buf) = reads.last();
        kept(request, kept_all(request, pending, reads.drop_last()), n, buf)
    }
}

/// The notifications among a run of reads.
pub open spec fn notices(request: Seq<u8>, reads: Seq<(nat, Frame)>) -> Seq<Frame> {
    reads.filter(|read: (nat, Frame)| heard(request, read.0, read.1@) is Notice).map_values(
        |read: (nat, Frame)| read.1,
    )
}

/// No notification that arrives while a command waits is lost, repeated or
/// put out of order: the queue grows by exactly those that arrived.
pub proof fn law_notifications_survive_a_call(
    request: Seq<u8>,
    pending: Seq<Frame>,
    reads: Seq<(nat, Frame)>,
)
    ensures
        kept_all(request, pending, reads) == pending + notices(request, reads),
    decreases reads.len(),
{
    reveal(Seq::filter);
    if reads.len() == 0 {
        assert(pending + notices(request, reads) =~= pending);
    } else {
        law_notifications_survive_a_call(request, pending, reads.drop_last());
        let (n, buf) = reads.last();
        let rest = notices(request, reads.drop_last());
        if heard(request, n, buf@) is Notice {
            assert(notices(request, reads) =~= rest.push(buf));
        } else {
            assert(notices(request, reads) =~= rest);
        }
        assert(kept_all(request, pending, reads) =~= pending + notices(request, reads));
    }
}

/// A report is never both a reply to a command and a notification: the
/// software id tells them apart.
pub proof fn law_a_reply_is_no_notification(request: Seq<u8>, n: nat, buf: Seq<u8>)
    requires
        heard(request, n, buf) is Reply,
    ensures
        !is_notification(n, buf),
{
}

/// Whether a read of `n` bytes into `buf` brought a notification.
pub open spec fn is_notification(n: nat, buf: Seq<u8>) -> bool {
    n > 0 && buf[3] & 0x0f == 0
}

/// The parameters of a reply of which `n` bytes were read: what was not read
/// counts as zero.
pub open spec fn reply_params(n: nat, buf: Seq<u8>) -> Seq<u8> {
    Seq::new(
        PARAMS_LEN as nat,
        |i: int|
            if i + 4 < n {
                buf[i + 4]
            } else {
                0
            },
    )
}

/// A command on its way: the report to write, and how many more reads the
/// device gets to answer it.
pub struct Call {
    pub frame: Frame,
    pub reads_left: u8,
}

/// One device on a HID++ channel.
pub struct HidPp {
    dev_index: u8,
    /// Notifications seen while waiting for a command reply.
    pending: VecDeque<Frame>,
}

impl HidPp {
    /// Which device on the channel this is.
    pub closed spec fn index(&self) -> u8 {
        self.dev_index
    }

    /// The notifications that have been heard and not handed out, oldest
    /// first.
    pub closed spec fn pending(&self) -> Seq<Frame> {
        self.pending@
    }

    pub fn new(dev_index: u8) -> (r: HidPp)
        ensures
            r.index() == dev_index,
            r.pending() == Seq::<Frame>::empty(),
    {
        HidPp { dev_index, pending: VecDeque::new() }
    }

    /// Prepares a command. Its report is to be written, and each read after
    /// that handed to [`HidPp::hear`] until it gives an outcome.
    pub fn call(&self, feature_idx: u8, function: u8, params: &[u8]) -> (r: Call)
        requires
            params@.len() <= PARAMS_LEN,
        ensures
            r.frame@ == request_bytes(self.index(), feature_idx, function, params@),
            r.reads_left == READS_PER_CALL,
    {
        let mut out: Frame = [0u8;20];
        out[0] = REPORT_LONG;
        out[1] = self.dev_index;
        out[2] = feature_idx;
        out[3] = (function << 4) | SW_ID;
        let mut i: usize = 0;
        while i < params.len()
            invariant
                i <= params@.len() <= PARAMS_LEN,
                out@.len() == FRAME_LEN,
                out@[0] == REPORT_LONG,
                out@[1] == self.dev_index,
                out@[2] == feature_idx,
                out@[3] == (function << 4) | SW_ID,
                forall|k: int| 0 <= k < i ==> out@[k + 4] == params@[k],
                forall|k: int| i + 4 <= k < FRAME_LEN ==> out@[k] == 0,
            decreases params@.len() - i,
        {
            out[i + 4] = params[i];
            i += 1;
        }
        assert(out@ =~= request_bytes(self.index(), feature_idx, function, params@)) by {
            let want = request_bytes(self.index(), feature_idx, function, params@);
            assert forall|k: int| 0 <= k < FRAME_LEN implies out@[k] == want[k] by {
                if 4 <= k < 4 + params@.len() {
                    assert(out@[(k - 4) + 4] == params@[k - 4]);
                }
            }
        }
        Call { frame: out, reads_left: READS_PER_CALL }
    }

    /// Takes one read of a command's answer: `n` bytes into `buf`. Gives the
    /// outcome once there is one, and keeps any notification for later.
    pub fn hear(&mut self, call: &mut Call, n: usize, buf: Frame) -> (r: Option<
        Result<Params, Error>,
    >)
        ensures
            final(self).index() == old(self).index(),
            final(call).frame == old(call).frame,
            old(call).reads_left == 0 ==> {
                &&& r == Some(Err::<Params, Error>(Error::Timeout))
                &&& final(call).reads_left == 0
                &&& final(self).pending() == old(self).pending()
            },
            old(call).reads_left > 0 ==> {
                let what = heard(old(call).frame@, n as nat, buf@);
                &&& final(call).reads_left == old(call).reads_left - 1
                &&& final(self).pending() == kept(
                    old(call).frame@,
                    old(self).pending(),
                    n as nat,
                    buf,
                )
                &&& match what {
                    Heard::Failure(code) => r == Some(Err::<Params, Error>(Error::Device(code))),
                    Heard::Reply => r matches Some(Ok(params)) && params@ == reply_params(
                        n as nat,
                        buf@,
                    ),
                    _ => if final(call).reads_left == 0 {
                        r == Some(Err::<Params, Error>(Error::Timeout))
                    } else {
                        r is None
                    },
                }
            },
    {
        if call.reads_left == 0 {
            return Some(Err(Error::Timeout));
        }
        call.reads_left = call.reads_left - 1;
        if n > 0 {
            if buf[0] == REPORT_SHORT && buf[2] == ERROR_PAGE && buf[3] == call.frame[3] {
                return Some(Err(Error::Device(buf[4])));
            }
            if buf[1] == call.frame[1] && buf[2] == call.frame[2] && (buf[3] & 0x0f) == SW_ID {
                return Some(Ok(read_params(n, &buf)));
            }
            if (buf[3] & 0x0f) == 0 {
                self.pending.push_back(buf);
            }
        }
        if call.reads_left == 0 {
            Some(Err(Error::Timeout))
        } else {
            None
        }
    }

    /// The oldest notification that is waiting. Without one, the next is to be
    /// read from the device and put to [`notification`].
    pub fn next_event(&mut self) -> (r: Option<Frame>)
        ensures
            final(self).index() == old(self).index(),
            match r {
                Some(event) => old(self).pending().len() > 0 && event == old(self).pending()[0]
                    && final(self).pending() == old(self).pending().drop_first(),
                None => old(self).pending().len() == 0 && final(self).pending() == old(
                    self,
                ).pending(),
            },
    {
        self.pending.pop_front()
    }
}

/// The parameters of a reply of which `n` bytes were read.
fn read_params(n: usize, buf: &Frame) -> (r: Params)
    ensures
        r@ == reply_params(n as nat, buf@),
{
    let mut out: Params = [0u8;16];
    let mut i: usize = 0;
    while i < PARAMS_LEN
        invariant
            i <= PARAMS_LEN,
            out@.len() == PARAMS_LEN,
            buf@.len() == FRAME_LEN,
            forall|k: int| 0 <= k < i ==> out@[k] == reply_params(n as nat, buf@)[k],
            forall|k: int| i <= k < PARAMS_LEN ==> out@[k] == 0,
        decreases PARAMS_LEN - i,
    {
        if n > i + 4 {
            out[i] = buf[i + 4];
        }
        i += 1;
    }
    assert(out@ =~= reply_params(n as nat, buf@));
    out
}

/// The notification that a read of `n` bytes brought, if it brought one.
pub fn notification(n: usize, buf: Frame) -> (r: Option<Frame>)
    ensures
        r == (if is_notification(n as nat, buf@) {
            Some(buf)
        } else {
            None
        }),
{
    if n > 0 && (buf[3] & 0x0f) == 0 {
        Some(buf)
    } else {
        None
    }
}

/// The parameters that ask the root feature for `feature`: its id, high byte
/// first.
pub open spec fn feature_params(feature: u16) -> Seq<u8> {
    seq![(feature / 256) as u8, (feature % 256) as u8]
}

/// The parameters that ask the root feature for `feature`.
pub fn feature_request(feature: u16) -> (r: Vec<u8>)
    ensures
        r@ == feature_params(feature),
{
    let mut out: Vec<u8> = Vec::new();
    out.push((feature / 256) as u8);
    out.push((feature % 256) as u8);
    out
}

/// Reads the root feature's answer: the device-specific index of `feature`,
/// where zero means that the device does not have it.
///
/// Indices are not stable across firmware revisions, so none is ever assumed.
pub fn feature_index(feature: u16, reply: &Params) -> (r: Result<u8, Error>)
    ensures
        r == (if reply@[0] == 0 {
            Err::<u8, Error>(Error::FeatureMissing(feature))
        } else {
            Ok(reply@[0])
        }),
{
    if reply[0] == 0 {
        Err(Error::FeatureMissing(feature))
    } else {
        Ok(reply[0])
    }
}

/// A collection that the operating system offers.
#[derive(Debug, Clone, Copy)]
pub struct Interface {
    pub vendor_id: u16,
    pub usage_page: u16,
    pub usage: u16,
}

impl Interface {
    /// Whether this is a Logitech vendor collection, the only kind on which
    /// HID++ is spoken.
    pub open spec fn speaks_hidpp(self) -> bool {
        self.vendor_id == VENDOR_LOGITECH && self.usage_page == USAGE_PAGE_VENDOR
    }
}

/// Where in `list` the vendor collections are that do, or do not, take long
/// reports, in the order of the list.
pub open spec fn positions(list: Seq<Interface>, long: bool) -> Seq<usize>
    decreases list.len(),
{
    if list.len() == 0 {
        Seq::empty()
    } else {
        let before = positions(list.drop_last(), long);
        let last = list.last();
        if last.speaks_hidpp() && (last.usage == USAGE_LONG) == long {
            before.push((list.len() - 1) as usize)
        } else {
            before
        }
    }
}

/// Every place, first with the index of a paired device and then with that of
/// a direct one.
pub open spec fn both_indices(places: Seq<usize>) -> Seq<(usize, u8)> {
    Seq::new(
        places.len() * 2,
        |k: int|
            (
                places[k / 2],
                if k % 2 == 0 {
                    INDEX_PAIRED
                } else {
                    INDEX_DIRECT
                },
            ),
    )
}

/// The collections worth opening and the device index to try on each, best
/// first.
///
/// A receiver exposes one vendor collection for short reports and one for
/// long ones. Only long reports are spoken here, so long collections come
/// first.
pub fn candidates(list: &Vec<Interface>) -> (r: Vec<(usize, u8)>)
    ensures
        r@ == candidates_of(list@),
{
    let mut out: Vec<(usize, u8)> = Vec::new();
    add_candidates(list, true, &mut out);
    add_candidates(list, false, &mut out);
    assert(out@ =~= both_indices(positions(list@, true) + positions(list@, false)));
    out
}

fn add_candidates(list: &Vec<Interface>, long: bool, out: &mut Vec<(usize, u8)>)
    ensures
        final(out)@ == old(out)@ + both_indices(positions(list@, long)),
{
    let ghost before = out@;
    let mut i: usize = 0;
    assert(out@ =~= before + both_indices(positions(list@.take(0), long)));
    while i < list.len()
        invariant
            i <= list@.len(),
            out@ == before + both_indices(positions(list@.take(i as int), long)),
        decreases list@.len() - i,
    {
        let info = list[i];
        let ghost so_far = out@;
        proof {
            assert(list@.take(i + 1).drop_last() =~= list@.take(i as int));
        }
        if info.vendor_id == VENDOR_LOGITECH && info.usage_page == USAGE_PAGE_VENDOR && (info.usage
            == USAGE_LONG) == long {
            out.push((i, INDEX_PAIRED));
            out.push((i, INDEX_DIRECT));
            assert(out@ =~= before + both_indices(positions(list@.take(i + 1), long)));
        }
        i += 1;
    }
    assert(list@.take(i as int) =~= list@);
}

/// The candidates of `list`, best first.
pub open spec fn candidates_of(list: Seq<Interface>) -> Seq<(usize, u8)> {
    both_indices(positions(list, true) + positions(list, false))
}

/// A search for the device that answers.
pub struct Search {
    candidates: Vec<(usize, u8)>,
    tried: usize,
}

impl Search {
    #[verifier::type_invariant]
    closed spec fn wf(&self) -> bool {
        self.tried <= self.candidates@.len()
    }

    /// The candidates that have not been tried, best first.
    pub closed spec fn untried(&self) -> Seq<(usize, u8)> {
        self.candidates@.skip(self.tried as int)
    }

    /// The next candidate to try: which collection, and as which device on it.
    /// The search is over at the first that answers. With no candidate left
    /// there is no device.
    pub fn next(&mut self) -> (r: Result<(usize, u8), Error>)
        ensures
            match r {
                Ok(candidate) => {
                    &&& old(self).untried().len() > 0
                    &&& candidate == old(self).untried()[0]
                    &&& final(self).untried() == old(self).untried().skip(1)
                },
                Err(e) => {
                    &&& e == Error::NoDevice
                    &&& old(self).untried().len() == 0
                    &&& final(self).untried().len() == 0
                },
            },
    {
        proof {
            use_type_invariant(&*self);
        }
        if self.tried < self.candidates.len() {
            let candidate = self.candidates[self.tried];
            self.tried = self.tried + 1;
            assert(self.untried() =~= old(self).untried().skip(1));
            Ok(candidate)
        } else {
            Err(Error::NoDevice)
        }
    }
}

impl HidPp {
    /// Looks for the Logitech HID++ interface among everything that the
    /// operating system offers. HID++ lives on a vendor-defined collection and
    /// not on the mouse collection, which Windows does not hand out.
    pub fn open(list: &Vec<Interface>) -> (r: Search)
        ensures
            r.untried() == candidates_of(list@),
    {
        let r = Search { candidates: candidates(list), tried: 0 };
        assert(r.untried() =~= candidates_of(list@));
        r
    }

    /// The cheapest liveness check there is: asking for the protocol version.
    pub fn ping(&self) -> (r: Call)
        ensures
            r.frame@ == request_bytes(
                self.index(),
                ROOT_INDEX,
                FN_GET_PROTOCOL_VERSION,
                Seq::empty(),
            ),
            r.reads_left == READS_PER_CALL,
    {
        let none: Vec<u8> = Vec::new();
        assert(none@ =~= Seq::empty());
        self.call(ROOT_INDEX, FN_GET_PROTOCOL_VERSION, none.as_slice())
    }
}

proof fn lemma_positions(list: Seq<Interface>, long: bool)
    requires
        list.len() <= usize::MAX,
    ensures
        forall|k: int|
            0 <= k < positions(list, long).len() ==> {
                let at = #[trigger] positions(list, long)[k];
                &&& at < list.len()
                &&& list[at as int].speaks_hidpp()
                &&& (list[at as int].usage == USAGE_LONG) == long
            },
    decreases list.len(),
{
    if list.len() > 0 {
        let (shorter, before) = (list.drop_last(), positions(list.drop_last(), long));
        lemma_positions(shorter, long);
        assert forall|k: int| 0 <= k < positions(list, long).len() implies {
            let at = #[trigger] positions(list, long)[k];
            &&& at < list.len()
            &&& list[at as int].speaks_hidpp()
            &&& (list[at as int].usage == USAGE_LONG) == long
        } by {
            if k < before.len() {
                assert(positions(list, long)[k] == before[k]);
                assert(shorter[before[k] as int] == list[before[k] as int]);
            }
        }
    }
}

proof fn lemma_position_of(list: Seq<Interface>, long: bool, i: int) -> (k: int)
    requires
        list.len() <= usize::MAX,
        0 <= i < list.len(),
        list[i].speaks_hidpp(),
        (list[i].usage == USAGE_LONG) == long,
    ensures
        0 <= k < positions(list, long).len(),
        positions(list, long)[k] == i,
    decreases list.len(),
{
    if i == list.len() - 1 {
        positions(list, long).len() - 1
    } else {
        lemma_position_of(list.drop_last(), long, i)
    }
}

/// Only Logitech's vendor collections are ever opened, and those for long
/// reports before any other.
pub proof fn law_long_collections_come_first(list: Seq<Interface>, i: int, j: int)
    requires
        list.len() <= usize::MAX,
        0 <= i < j < candidates_of(list).len(),
    ensures
        candidates_of(list)[i].0 < list.len(),
        candidates_of(list)[j].0 < list.len(),
        list[candidates_of(list)[i].0 as int].speaks_hidpp(),
        list[candidates_of(list)[j].0 as int].speaks_hidpp(),
        list[candidates_of(list)[j].0 as int].usage == USAGE_LONG
            ==> list[candidates_of(list)[i].0 as int].usage == USAGE_LONG,
{
    lemma_positions(list, true);
    lemma_positions(list, false);
    let (long, short) = (positions(list, true), positions(list, false));
    let all = long + short;
    assert(candidates_of(list)[i].0 == all[i / 2]);
    assert(candidates_of(list)[j].0 == all[j / 2]);
    if i / 2 < long.len() {
        assert(all[i / 2] == long[i / 2]);
    } else {
        assert(all[i / 2] == short[i / 2 - long.len()]);
    }
    if j / 2 < long.len() {
        assert(all[j / 2] == long[j / 2]);
    } else {
        assert(all[j / 2] == short[j / 2 - long.len()]);
    }
}

/// Every vendor collection is tried, both for a device that is paired with a
/// receiver and for one that is connected directly.
pub proof fn law_every_vendor_collection_is_tried(list: Seq<Interface>, i: int)
    requires
        list.len() <= usize::MAX,
        0 <= i < list.len(),
        list[i].speaks_hidpp(),
    ensures
        candidates_of(list).contains((i as usize, INDEX_PAIRED)),
        candidates_of(list).contains((i as usize, INDEX_DIRECT)),
{
    let is_long = list[i].usage == USAGE_LONG;
    let (long, short) = (positions(list, true), positions(list, false));
    let all = long + short;
    let k = lemma_position_of(list, is_long, i);
    let at = if is_long {
        k
    } else {
        long.len() + k
    };
    assert(all[at] == i);
    assert(candidates_of(list)[2 * at] == (i as usize, INDEX_PAIRED));
    assert(candidates_of(list)[2 * at + 1] == (i as usize, INDEX_DIRECT));
}

/// How a command is laid out: a long report of twenty bytes to the device and
/// the feature, the function in the high half of the fourth byte and the
/// software id in the low half, then the parameters as they are, and zeros.
pub proof fn law_how_a_command_is_laid_out(
    dev_index: u8,
    feature_idx: u8,
    function: u8,
    params: Seq<u8>,
)
    requires
        params.len() <= 16,
        function < 16,
    ensures
        ({
            let bytes = request_bytes(dev_index, feature_idx, function, params);
            &&& bytes.len() == 20
            &&& bytes[0] == 0x11 && bytes[1] == dev_index && bytes[2] == feature_idx
            &&& bytes[3] == 16 * function + 10
            &&& bytes.subrange(4, 4 + params.len() as int) == params
            &&& forall|i: int| 4 + params.len() <= i < 20 ==> bytes[i] == 0
        }),
{
    let bytes = request_bytes(dev_index, feature_idx, function, params);
    assert(function < 16 ==> (function << 4) | 0x0a == 16 * function + 10) by (bit_vector);
    assert(bytes.subrange(4, 4 + params.len() as int) =~= params);
}

/// The parameters of a reply are everything behind its header that was read,
/// byte for byte, and zeros for what was not.
pub proof fn law_a_reply_has_all_of_its_parameters(n: nat, buf: Seq<u8>)
    requires
        buf.len() == 20,
        n <= 20,
    ensures
        reply_params(n, buf).len() == 16,
        4 <= n ==> reply_params(n, buf).take(n - 4) == buf.subrange(4, n as int),
        forall|i: int| 0 <= i < 16 && n <= i + 4 ==> reply_params(n, buf)[i] == 0,
        n == 20 ==> reply_params(n, buf) == buf.subrange(4, 20),
{
    if 4 <= n {
        assert(reply_params(n, buf).take(n - 4) =~= buf.subrange(4, n as int));
    }
    assert(n == 20 ==> reply_params(n, buf) =~= buf.subrange(4, 20));
}

/// What a mouse sends back of a command, header and parameters, is heard as
/// the reply to it, and the parameters come back whole.
pub proof fn law_an_echo_comes_back_whole(
    dev_index: u8,
    feature_idx: u8,
    function: u8,
    params: Seq<u8>,
)
    requires
        params.len() <= 16,
        function < 16,
    ensures
        ({
            let frame = request_bytes(dev_index, feature_idx, function, params);
            &&& heard(frame, 20, frame) is Reply
            &&& reply_params(20, frame).take(params.len() as int) == params
            &&& forall|i: int| params.len() <= i < 16 ==> reply_params(20, frame)[i] == 0
        }),
{
    let frame = request_bytes(dev_index, feature_idx, function, params);
    law_how_a_command_is_laid_out(dev_index, feature_idx, function, params);
    law_what_a_report_is(frame, 20, frame);
    assert(reply_params(20, frame).take(params.len() as int) =~= params);
}

/// What a report is to a command that waits. The error page for that very
/// command is its failure, with the code in the fifth byte. What comes from the
/// same device and feature with the daemon's software id is its reply. What
/// carries no software id is a notification. Nothing else is any of these.
pub proof fn law_what_a_report_is(request: Seq<u8>, n: nat, buf: Seq<u8>)
    requires
        request.len() == 20,
        buf.len() == 20,
    ensures
        ({
            let what = heard(request, n, buf);
            let failure = n > 0 && buf[0] == 0x10 && buf[2] == 0xff && buf[3] == request[3];
            let reply = n > 0 && !failure && buf[1] == request[1] && buf[2] == request[2] && buf[3]
                % 16 == 10;
            &&& what is Silence <==> n == 0
            &&& what is Failure <==> failure
            &&& failure ==> what == Heard::Failure(buf[4])
            &&& what is Reply <==> reply
            &&& what is Notice <==> n > 0 && !failure && buf[3] % 16 == 0
        }),
        is_notification(n, buf) <==> n > 0 && buf[3] % 16 == 0,
{
    let id = buf[3];
    assert(id & 0x0f == id % 16) by (bit_vector);
}

/// A feature is asked for by its id, the high byte first.
pub proof fn law_a_feature_is_asked_for_by_its_id(feature: u16)
    ensures
        feature_params(feature).len() == 2,
        feature_params(feature)[0] * 256 + feature_params(feature)[1] == feature,
{
}

proof fn lemma_positions_ascend(list: Seq<Interface>, long: bool)
    requires
        list.len() <= usize::MAX,
    ensures
        forall|k: int, l: int|
            0 <= k < l < positions(list, long).len() ==> positions(list, long)[k] < positions(
                list,
                long,
            )[l],
    decreases list.len(),
{
    if list.len() > 0 {
        let shorter = list.drop_last();
        let (before, all) = (positions(shorter, long), positions(list, long));
        lemma_positions_ascend(shorter, long);
        lemma_positions(shorter, long);
        assert forall|k: int, l: int| 0 <= k < l < all.len() implies all[k] < all[l] by {
            assert(all[k] == before[k]);
            if l < before.len() {
                assert(all[l] == before[l]);
            }
        }
    }
}

/// Each collection that is tried is tried twice in a row: as the device that a
/// receiver has paired, then as one that is connected directly. Of two
/// collections of the same kind the one that is listed first is tried first,
/// so that none is tried again.
pub proof fn law_candidates_come_in_pairs_and_in_order(list: Seq<Interface>, i: int, j: int)
    requires
        list.len() <= usize::MAX,
        0 <= i,
        2 * i < candidates_of(list).len(),
        i < j,
        2 * j < candidates_of(list).len(),
    ensures
        candidates_of(list).len() % 2 == 0,
        candidates_of(list)[2 * i].1 == 0x01,
        candidates_of(list)[2 * i + 1].1 == 0xff,
        candidates_of(list)[2 * i].0 == candidates_of(list)[2 * i + 1].0,
        candidates_of(list)[2 * i].0 != candidates_of(list)[2 * j].0,
        (list[candidates_of(list)[2 * i].0 as int].usage == 0x02) == (list[candidates_of(
            list,
        )[2 * j].0 as int].usage == 0x02) ==> candidates_of(list)[2 * i].0 < candidates_of(
            list,
        )[2 * j].0,
{
    let (long, short) = (positions(list, true), positions(list, false));
    let all = long + short;
    lemma_positions_ascend(list, true);
    lemma_positions_ascend(list, false);
    lemma_positions(list, true);
    lemma_positions(list, false);
    assert((2 * i) / 2 == i && (2 * i + 1) / 2 == i && (2 * j) / 2 == j);
    assert(candidates_of(list)[2 * i].0 == all[i] && candidates_of(list)[2 * j].0 == all[j]);
    if i < long.len() {
        assert(all[i] == long[i]);
    } else {
        assert(all[i] == short[i - long.len()]);
    }
    if j < long.len() {
        assert(all[j] == long[j]);
    } else {
        assert(all[j] == short[j - long.len()]);
    }
}

/// Only what Logitech made speaks HID++, and only on its vendor collection.
pub proof fn law_who_speaks_hidpp(interface: Interface)
    ensures
        interface.speaks_hidpp() <==> interface.vendor_id == 0x046d && interface.usage_page
            == 0xff00,
{
}

/// What a read does to a command that waits, of the bytes that were read. The
/// reply ends it with its parameters, and the error page with its code. A
/// notification is kept for later, behind those that are waiting. Every read
/// counts, and the last one that brings nothing ends the command.
pub proof fn law_what_a_read_does(
    pp: &mut HidPp,
    call: &mut Call,
    n: usize,
    buf: Frame,
    r: Option<Result<Params, Error>>,
)
    requires
        call_ensures(HidPp::hear, (pp, call, n, buf), r),
        old(call).reads_left > 0,
    ensures
        ({
            let request = old(call).frame@;
            let failure = n > 0 && buf@[0] == 0x10 && buf@[2] == 0xff && buf@[3] == request[3];
            let reply = n > 0 && !failure && buf@[1] == request[1] && buf@[2] == request[2]
                && buf@[3] % 16 == 10;
            let notice = n > 0 && !failure && buf@[3] % 16 == 0;
            &&& final(call).reads_left == old(call).reads_left - 1
            &&& final(call).frame == old(call).frame
            &&& final(pp).index() == old(pp).index()
            &&& final(pp).pending() == (if notice {
                old(pp).pending().push(buf)
            } else {
                old(pp).pending()
            })
            &&& failure ==> r == Some(Err::<Params, Error>(Error::Device(buf@[4])))
            &&& reply ==> (r matches Some(Ok(params)) && forall|i: int|
                0 <= i < 16 ==> params@[i] == (if i + 4 < n {
                    buf@[i + 4]
                } else {
                    0
                }))
            &&& !failure && !reply ==> {
                &&& old(call).reads_left > 1 ==> r is None
                &&& old(call).reads_left == 1 ==> r == Some(Err::<Params, Error>(Error::Timeout))
            }
        }),
{
    law_what_a_report_is(old(call).frame@, n as nat, buf@);
}

/// A command goes to the device of the channel, and the device gets forty
/// reads to answer it in.
pub proof fn law_a_command_gets_forty_reads(
    pp: &HidPp,
    feature_idx: u8,
    function: u8,
    params: &[u8],
    call: Call,
)
    requires
        params@.len() <= 16,
        function < 16,
        call_ensures(HidPp::call, (pp, feature_idx, function, params), call),
    ensures
        call.reads_left == 40,
        call.frame@[1] == pp.index(),
        call.frame@[2] == feature_idx,
        call.frame@[3] == 16 * function + 10,
        call.frame@.subrange(4, 4 + params@.len() as int) == params@,
{
    law_how_a_command_is_laid_out(pp.index(), feature_idx, function, params@);
}

/// Notifications that were kept are handed out once each, the oldest first.
pub proof fn law_notifications_are_handed_out_in_order(pp: &mut HidPp, r: Option<Frame>)
    requires
        call_ensures(HidPp::next_event, (pp,), r),
    ensures
        r is Some <==> old(pp).pending().len() > 0,
        r matches Some(frame) ==> seq![frame] + final(pp).pending() == old(pp).pending(),
        r is None ==> final(pp).pending() == old(pp).pending(),
{
    if r is Some {
        assert(seq![r->0] + final(pp).pending() =~= old(pp).pending());
    }
}

/// A read brings a notification exactly if it brought anything and carries no
/// software id, and then the whole of it.
pub proof fn law_a_notification_is_handed_on_whole(n: usize, buf: Frame, r: Option<Frame>)
    requires
        call_ensures(notification, (n, buf), r),
    ensures
        r is Some <==> n > 0 && buf@[3] % 16 == 0,
        r matches Some(frame) ==> frame == buf,
{
    law_what_a_report_is(buf@, n as nat, buf@);
}

/// A feature is where the device says it is, and missing where it says zero.
pub proof fn law_a_feature_is_where_the_device_says(
    feature: u16,
    reply: &Params,
    r: Result<u8, Error>,
)
    requires
        call_ensures(feature_index, (feature, reply), r),
    ensures
        r matches Ok(i) ==> i == reply@[0] && i != 0,
        r matches Err(e) ==> e == Error::FeatureMissing(feature) && reply@[0] == 0,
{
}

/// A search goes through its candidates one after the other, and finds no
/// device once they are used up.
pub proof fn law_a_search_goes_through_its_candidates(
    search: &mut Search,
    r: Result<(usize, u8), Error>,
)
    requires
        call_ensures(Search::next, (search,), r),
    ensures
        r is Ok <==> old(search).untried().len() > 0,
        r matches Ok(candidate) ==> seq![candidate] + final(search).untried() == old(
            search,
        ).untried(),
        r matches Err(e) ==> e == Error::NoDevice,
{
    if r is Ok {
        assert(seq![r->Ok_0] + final(search).untried() =~= old(search).untried());
    }
}

/// A channel starts with nothing heard. A ping asks its device's root feature
/// for the version, with no parameters, and a search starts with everything
/// that is worth trying.
pub proof fn law_how_a_channel_starts(
    dev_index: u8,
    pp: HidPp,
    ping: Call,
    list: &Vec<Interface>,
    search: Search,
)
    requires
        call_ensures(HidPp::new, (dev_index,), pp),
        call_ensures(HidPp::ping, (&pp,), ping),
        call_ensures(HidPp::open, (list,), search),
    ensures
        pp.pending().len() == 0,
        ping.reads_left == 40,
        ping.frame@[1] == dev_index,
        ping.frame@[2] == 0,
        ping.frame@[3] == 0x1a,
        search.untried() == candidates_of(list@),
{
    law_how_a_command_is_laid_out(pp.index(), 0, 1, Seq::empty());
}

/// A feature is asked for with the high byte of its id first.
pub proof fn law_the_high_byte_of_a_feature_comes_first(feature: u16, r: Vec<u8>)
    requires
        call_ensures(feature_request, (feature,), r),
    ensures
        r@.len() == 2,
        256 * r@[0] + r@[1] == feature,
{
}

/// An error of the device is told by its code in two digits and a missing
/// feature by its id in four, at the end of the words for it.
pub proof fn law_an_error_ends_in_its_number(code: u8, id: u16)
    ensures
        ({
            let text = ErrorView::Device(code).message();
            text.skip(text.len() - 2) == zero_padded(hex(code as nat), 2)
        }),
        ({
            let text = ErrorView::FeatureMissing(id).message();
            text.skip(text.len() - 4) == zero_padded(hex(id as nat), 4)
        }),
{
    reveal_with_fuel(digits, 4);
    law_padding_puts_zeros_in_front(hex(code as nat), 2);
    law_padding_puts_zeros_in_front(hex(id as nat), 4);
    let (one, other) = (ErrorView::Device(code).message(), ErrorView::FeatureMissing(id).message());
    assert(hex(code as nat).len() <= 2);
    assert(hex(id as nat).len() <= 4);
    assert(one.skip(one.len() - 2) =~= zero_padded(hex(code as nat), 2));
    assert(other.skip(other.len() - 4) =~= zero_padded(hex(id as nat), 4));
}

} // verus!
