//! The little JSON that Discord is spoken to in: what is sent, as a list of
//! members, and what of an answer is looked at.

use vstd::prelude::*;
use vstd::string::*;

use crate::text::same;

verus! {

/// A value with nothing inside it.
#[derive(Debug)]
pub enum Scalar {
    Number(u64),
    Flag(bool),
    Text(String),
}

pub enum ScalarView {
    Number(u64),
    Flag(bool),
    Text(Seq<char>),
}

impl View for Scalar {
    type V = ScalarView;

    open spec fn view(&self) -> ScalarView {
        match self {
            Scalar::Number(n) => ScalarView::Number(*n),
            Scalar::Flag(b) => ScalarView::Flag(*b),
            Scalar::Text(s) => ScalarView::Text(s@),
        }
    }
}

/// A member of what is sent.
#[derive(Debug)]
pub enum Node {
    Leaf(Scalar),
    Object(Vec<(String, Scalar)>),
}

pub enum NodeView {
    Leaf(ScalarView),
    Object(Seq<(Seq<char>, ScalarView)>),
}

pub open spec fn scalars_view(members: Seq<(String, Scalar)>) -> Seq<(Seq<char>, ScalarView)> {
    members.map_values(|m: (String, Scalar)| (m.0@, m.1@))
}

impl View for Node {
    type V = NodeView;

    open spec fn view(&self) -> NodeView {
        match self {
            Node::Leaf(s) => NodeView::Leaf(s@),
            Node::Object(members) => NodeView::Object(scalars_view(members@)),
        }
    }
}

/// An object to be sent, member by member.
pub type Payload = Vec<(String, Node)>;

pub open spec fn payload_view(members: Seq<(String, Node)>) -> Seq<(Seq<char>, NodeView)> {
    members.map_values(|m: (String, Node)| (m.0@, m.1@))
}

/// The bytes that `serde_json` writes for an object with these members.
pub uninterp spec fn json_text(members: Seq<(Seq<char>, NodeView)>) -> Seq<u8>;

/// `serde_json::to_vec`, on an object with these members. What it writes
/// depends on the members alone.
#[verifier::external_body]
pub(crate) fn to_json(members: &Payload) -> (bytes: Vec<u8>)
    ensures
        bytes@ == json_text(payload_view(members@)),
{
    let leaf = |s: &Scalar| match s {
        Scalar::Number(n) => serde_json::Value::from(*n),
        Scalar::Flag(b) => serde_json::Value::from(*b),
        Scalar::Text(t) => serde_json::Value::from(t.as_str()),
    };
    let node = |n: &Node| match n {
        Node::Leaf(s) => leaf(s),
        Node::Object(inner) => inner.iter().map(|(k, s)| (k.clone(), leaf(s))).collect(),
    };
    let value: serde_json::Value = members.iter().map(|(k, n)| (k.clone(), node(n))).collect();
    serde_json::to_vec(&value).unwrap_or_default()
}

/// What is looked at of a member of an answer.
#[derive(Debug)]
pub struct Field {
    /// What it says, if it is a string.
    pub text: Option<String>,
    /// What its members say, if it is an object: each as far as it is a
    /// string.
    pub members: Option<Vec<(String, Option<String>)>>,
}

#[verifier::ext_equal]
pub struct FieldView {
    pub text: Option<Seq<char>>,
    pub members: Option<Seq<(Seq<char>, Option<Seq<char>>)>>,
}

pub open spec fn text_view(text: Option<String>) -> Option<Seq<char>> {
    match text {
        Some(t) => Some(t@),
        None => None,
    }
}

impl View for Field {
    type V = FieldView;

    open spec fn view(&self) -> FieldView {
        FieldView {
            text: text_view(self.text),
            members: match self.members {
                Some(members) => Some(
                    members@.map_values(|m: (String, Option<String>)| (m.0@, text_view(m.1))),
                ),
                None => None,
            },
        }
    }
}

/// An answer.
#[derive(Debug)]
pub struct Reply {
    /// Its members, if it is an object.
    pub members: Option<Vec<(String, Field)>>,
}

#[verifier::ext_equal]
pub struct ReplyView {
    pub members: Option<Seq<(Seq<char>, FieldView)>>,
}

impl View for Reply {
    type V = ReplyView;

    open spec fn view(&self) -> ReplyView {
        ReplyView {
            members: match self.members {
                Some(members) => Some(members@.map_values(|m: (String, Field)| (m.0@, m.1@))),
                None => None,
            },
        }
    }
}

/// What parsing came to.
pub open spec fn parsed_view(parsed: Result<Reply, String>) -> Result<ReplyView, Seq<char>> {
    match parsed {
        Ok(reply) => Ok(reply@),
        Err(e) => Err(e@),
    }
}

/// What `serde_json` makes of these bytes, or its account of why they are no
/// JSON.
pub uninterp spec fn json_reply(bytes: Seq<u8>) -> Result<ReplyView, Seq<char>>;

/// `serde_json::from_slice`, into a `serde_json::Value`, of which the members
/// are handed over with what `as_str` and `as_object` see in them. What comes
/// of it depends on the bytes alone.
#[verifier::external_body]
pub(crate) fn from_json(bytes: &[u8]) -> (r: Result<Reply, String>)
    ensures
        parsed_view(r) == json_reply(bytes@),
{
    let text = |v: &serde_json::Value| v.as_str().map(str::to_owned);
    let field = |v: &serde_json::Value| Field {
        text: text(v),
        members: v.as_object().map(|o| o.iter().map(|(k, m)| (k.clone(), text(m))).collect()),
    };
    match serde_json::from_slice::<serde_json::Value>(bytes) {
        Ok(v) => Ok(Reply {
            members: v.as_object().map(|o| o.iter().map(|(k, m)| (k.clone(), field(m))).collect()),
        }),
        Err(e) => Err(e.to_string()),
    }
}

/// The first member of that name.
pub open spec fn found<T>(members: Seq<(Seq<char>, T)>, key: Seq<char>) -> Option<T>
    decreases members.len(),
{
    if members.len() == 0 {
        None
    } else if members[0].0 == key {
        Some(members[0].1)
    } else {
        found(members.skip(1), key)
    }
}

impl FieldView {
    /// What the member of that name says, if it says anything.
    pub open spec fn says(self, key: Seq<char>) -> Option<Seq<char>> {
        match self.members {
            Some(members) => match found(members, key) {
                Some(text) => text,
                None => None,
            },
            None => None,
        }
    }
}

impl ReplyView {
    /// The member of that name.
    pub open spec fn get(self, key: Seq<char>) -> Option<FieldView> {
        match self.members {
            Some(members) => found(members, key),
            None => None,
        }
    }

    /// What the member of that name says, if it says anything.
    pub open spec fn says(self, key: Seq<char>) -> Option<Seq<char>> {
        match self.get(key) {
            Some(field) => field.text,
            None => None,
        }
    }
}

/// A copy of a text that may not be there.
pub(crate) fn copied(text: &Option<String>) -> (r: Option<String>)
    ensures
        text_view(r) == text_view(*text),
{
    match text {
        Some(t) => Some(t.clone()),
        None => None,
    }
}

impl Field {
    /// What the member of that name says, if it says anything.
    pub fn says(&self, key: &str) -> (r: Option<String>)
        ensures
            text_view(r) == self@.says(key@),
    {
        let Some(members) = &self.members else {
            return None;
        };
        let ghost all = self@.members->0;
        let mut i: usize = 0;
        assert(all.skip(0) =~= all);
        while i < members.len()
            invariant
                i <= members@.len(),
                all == members@.map_values(|m: (String, Option<String>)| (m.0@, text_view(m.1))),
                found(all, key@) == found(all.skip(i as int), key@),
                self@.members == Some(all),
            decreases members@.len() - i,
        {
            assert(all.skip(i as int)[0] == all[i as int]);
            assert(all.skip(i as int).skip(1) =~= all.skip(i + 1));
            if same(members[i].0.as_str(), key) {
                return copied(&members[i].1);
            }
            i += 1;
        }
        None
    }
}

impl Reply {
    /// The member of that name.
    pub fn get(&self, key: &str) -> (r: Option<&Field>)
        ensures
            match r {
                Some(field) => self@.get(key@) == Some(field@),
                None => self@.get(key@) is None,
            },
    {
        let Some(members) = &self.members else {
            return None;
        };
        let ghost all = self@.members->0;
        let mut i: usize = 0;
        assert(all.skip(0) =~= all);
        while i < members.len()
            invariant
                i <= members@.len(),
                all == members@.map_values(|m: (String, Field)| (m.0@, m.1@)),
                found(all, key@) == found(all.skip(i as int), key@),
                self@.members == Some(all),
            decreases members@.len() - i,
        {
            assert(all.skip(i as int)[0] == all[i as int]);
            assert(all.skip(i as int).skip(1) =~= all.skip(i + 1));
            if same(members[i].0.as_str(), key) {
                return Some(&members[i].1);
            }
            i += 1;
        }
        None
    }

    /// What the member of that name says, if it says anything.
    pub fn says(&self, key: &str) -> (r: Option<String>)
        ensures
            text_view(r) == self@.says(key@),
    {
        match self.get(key) {
            Some(field) => copied(&field.text),
            None => None,
        }
    }
}

/// The first member of a name is the one that counts, and without one there is
/// none.
pub proof fn law_the_first_member_of_a_name_counts<T>(
    members: Seq<(Seq<char>, T)>,
    key: Seq<char>,
    i: int,
)
    requires
        0 <= i <= members.len(),
        forall|j: int| 0 <= j < i ==> (#[trigger] members[j]).0 != key,
        i < members.len() ==> members[i].0 == key,
    ensures
        found(members, key) == (if i < members.len() {
            Some(members[i].1)
        } else {
            None
        }),
    decreases members.len(),
{
    if i > 0 {
        let rest = members.skip(1);
        assert(members[0].0 != key);
        assert forall|j: int| 0 <= j < i - 1 implies (#[trigger] rest[j]).0 != key by {
            assert(rest[j] == members[j + 1]);
        }
        law_the_first_member_of_a_name_counts(rest, key, i - 1);
    }
}

/// What an answer says under a name is the text of its first member of that
/// name, and that member's text alone: an answer that is no object says
/// nothing, and neither does a member that is no text.
pub proof fn law_an_answer_says_what_its_member_says(reply: ReplyView, key: Seq<char>)
    ensures
        reply.members is None ==> reply.get(key) is None && reply.says(key) is None,
        reply.members matches Some(members) ==> {
            &&& reply.get(key) == found(members, key)
            &&& found(members, key) matches Some(field) ==> reply.says(key) == field.text
            &&& found(members, key) is None ==> reply.says(key) is None
        },
{
}

/// And so it is within a member.
pub proof fn law_a_member_says_what_its_members_say(field: FieldView, key: Seq<char>)
    ensures
        field.members is None ==> field.says(key) is None,
        field.members matches Some(members) ==> {
            &&& found(members, key) matches Some(text) ==> field.says(key) == text
            &&& found(members, key) is None ==> field.says(key) is None
        },
{
}

/// An answer says of a name what its first member of that name says, and
/// nothing if it has none or if that is no text.
pub proof fn law_an_answer_is_asked_by_name(
    reply: &Reply,
    key: &str,
    r: Option<String>,
    members: Vec<(String, Field)>,
    i: int,
)
    requires
        reply.members == Some(members),
        0 <= i <= members@.len(),
        forall|j: int| 0 <= j < i ==> (#[trigger] members@[j]).0@ != key@,
        i < members@.len() ==> members@[i].0@ == key@,
        call_ensures(Reply::says, (reply, key), r),
    ensures
        i == members@.len() ==> r is None,
        i < members@.len() ==> text_view(r) == text_view(members@[i].1.text),
{
    let all = reply@.members->0;
    assert forall|j: int| 0 <= j < i implies (#[trigger] all[j]).0 != key@ by {
        assert(all[j].0 == members@[j].0@);
    }
    law_the_first_member_of_a_name_counts(all, key@, i);
}

} // verus!
