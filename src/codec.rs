//! JSON envelopes: building the text of an object from its members, and
//! reading the members of an object back out of text.
//!
//! A member value is held as its own JSON text, so that a payload whose inner
//! shape only a later consumer knows passes through unread.

use vstd::prelude::*;
use vstd::string::*;

verus! {

/// What `serde_json::to_string` gives for a string: its JSON string literal.
pub uninterp spec fn quoted(s: Seq<char>) -> Seq<char>;

/// The members of the JSON object that `text` holds, each value as its compact
/// JSON text, or `None` where `text` is not a JSON object.
pub uninterp spec fn object_members_of(text: Seq<char>) -> Option<Seq<(Seq<char>, Seq<char>)>>;

/// The string that the JSON text `text` holds, or `None` where it holds no string.
pub uninterp spec fn string_value(text: Seq<char>) -> Option<Seq<char>>;

/// The boolean that the JSON text `text` holds, or `None` where it holds none.
pub uninterp spec fn bool_value(text: Seq<char>) -> Option<bool>;

/// Relies on `serde_json::to_string` on a `str`: the JSON string literal of `s`,
/// which `serde_json` reads back as `s`. Serializing a string cannot fail.
#[verifier::external_body]
pub(crate) fn quote(s: &str) -> (r: String)
    ensures
        r@ == quoted(s@),
        string_value(r@) == Some(s@),
{
    match serde_json::to_string(s) {
        Ok(t) => t,
        Err(_) => String::new(),
    }
}

/// Relies on `serde_json::from_str` into a `serde_json::Map`, and on
/// `serde_json::Value::to_string` for each member's value.
#[verifier::external_body]
pub(crate) fn parse_object(text: &str) -> (r: Option<Vec<(String, String)>>)
    ensures
        match r {
            Some(v) => object_members_of(text@) == Some(members_view(v@)),
            None => object_members_of(text@) is None,
        },
{
    match serde_json::from_str::<serde_json::Map<String, serde_json::Value>>(text) {
        Ok(m) => Some(m.into_iter().map(|(k, v)| (k, v.to_string())).collect()),
        Err(_) => None,
    }
}

/// Relies on `serde_json::from_str` into a `String`.
#[verifier::external_body]
fn parse_string(text: &str) -> (r: Option<String>)
    ensures
        match r {
            Some(s) => string_value(text@) == Some(s@),
            None => string_value(text@) is None,
        },
{
    serde_json::from_str::<String>(text).ok()
}

/// Relies on `serde_json::from_str` into a `bool`.
#[verifier::external_body]
fn parse_bool(text: &str) -> (r: Option<bool>)
    ensures
        r == bool_value(text@),
{
    serde_json::from_str::<bool>(text).ok()
}

/// The members of an object, as key and value text.
pub open spec fn members_view(v: Seq<(String, String)>) -> Seq<(Seq<char>, Seq<char>)> {
    v.map_values(|p: (String, String)| (p.0@, p.1@))
}

/// The text of one member: the quoted key, a colon, the value's text.
pub open spec fn member_text(m: (Seq<char>, Seq<char>)) -> Seq<char> {
    quoted(m.0) + seq![':'] + m.1
}

/// The members written one after another, separated by commas.
pub open spec fn members_text(ms: Seq<(Seq<char>, Seq<char>)>) -> Seq<char>
    decreases ms.len(),
{
    if ms.len() == 0 {
        Seq::empty()
    } else if ms.len() == 1 {
        member_text(ms[0])
    } else {
        members_text(ms.drop_last()) + seq![','] + member_text(ms.last())
    }
}

/// The text of the JSON object with the members `ms`, in their order.
pub open spec fn object_text(ms: Seq<(Seq<char>, Seq<char>)>) -> Seq<char> {
    seq!['{'] + members_text(ms) + seq!['}']
}

/// The value of the first member named `key`.
pub open spec fn member(ms: Seq<(Seq<char>, Seq<char>)>, key: Seq<char>) -> Option<Seq<char>>
    decreases ms.len(),
{
    if ms.len() == 0 {
        None
    } else if ms[0].0 == key {
        Some(ms[0].1)
    } else {
        member(ms.drop_first(), key)
    }
}

/// Writes the JSON object whose members are `members`, in their order.
pub fn encode_object(members: &Vec<(String, String)>) -> (r: String)
    ensures
        r@ == object_text(members_view(members@)),
{
    let ghost ms = members_view(members@);
    let mut out = String::new();
    proof {
        reveal_strlit("{");
        reveal_strlit(":");
        reveal_strlit(",");
        reveal_strlit("}");
    }
    out.append("{");
    let mut i: usize = 0;
    while i < members.len()
        invariant
            i <= members.len(),
            ms == members_view(members@),
            out@ == seq!['{'] + members_text(ms.take(i as int)),
        decreases members.len() - i,
    {
        proof {
            reveal_strlit(":");
            reveal_strlit(",");
        }
        let ghost before = out@;
        if i > 0 {
            out.append(",");
        }
        let ghost mid = out@;
        assert(mid =~= if i > 0 { before + seq![','] } else { before });
        let key = quote(members[i].0.as_str());
        out.append(key.as_str());
        out.append(":");
        out.append(members[i].1.as_str());
        assert(out@ =~= mid + member_text(ms[i as int]));
        proof {
            let t = ms.take(i + 1);
            assert(t.drop_last() =~= ms.take(i as int));
            assert(t.last() == ms[i as int]);
            assert(ms[i as int] == (members@[i as int].0@, members@[i as int].1@));
            assert(out@ =~= seq!['{'] + members_text(t));
        }
        i += 1;
    }
    proof {
        reveal_strlit("}");
    }
    out.append("}");
    proof {
        assert(ms.take(members.len() as int) =~= ms);
    }
    out
}

/// Finds the first member named `key`.
fn find_member(members: &Vec<(String, String)>, key: &String) -> (r: Option<usize>)
    ensures
        match r {
            Some(i) => i < members.len() && member(members_view(members@), key@) == Some(
                members@[i as int].1@,
            ),
            None => member(members_view(members@), key@) is None,
        },
{
    let ghost ms = members_view(members@);
    let mut i: usize = 0;
    assert(ms.skip(0) =~= ms);
    while i < members.len()
        invariant
            i <= members.len(),
            ms == members_view(members@),
            member(ms, key@) == member(ms.skip(i as int), key@),
        decreases members.len() - i,
    {
        proof {
            assert(ms.skip(i as int).drop_first() =~= ms.skip(i + 1));
        }
        if members[i].0 == *key {
            return Some(i);
        }
        i += 1;
    }
    None
}

/// The value text of the member named `key`.
pub(crate) fn raw_member(members: &Vec<(String, String)>, key: &String) -> (r: Option<String>)
    ensures
        match r {
            Some(t) => member(members_view(members@), key@) == Some(t@),
            None => member(members_view(members@), key@) is None,
        },
{
    match find_member(members, key) {
        Some(i) => Some(members[i].1.clone()),
        None => None,
    }
}

/// The string held by the member named `key`.
pub(crate) fn string_member(members: &Vec<(String, String)>, key: &String) -> (r: Option<String>)
    ensures
        match r {
            Some(t) => string_of_member(members_view(members@), key@) == Some(t@),
            None => string_of_member(members_view(members@), key@) is None,
        },
{
    match find_member(members, key) {
        Some(i) => parse_string(members[i].1.as_str()),
        None => None,
    }
}

/// The boolean held by the member named `key`.
pub(crate) fn bool_member(members: &Vec<(String, String)>, key: &String) -> (r: Option<bool>)
    ensures
        r == bool_of_member(members_view(members@), key@),
{
    match find_member(members, key) {
        Some(i) => parse_bool(members[i].1.as_str()),
        None => None,
    }
}

/// The string held by the member named `key`, if there is one and it holds a string.
pub open spec fn string_of_member(ms: Seq<(Seq<char>, Seq<char>)>, key: Seq<char>) -> Option<
    Seq<char>,
> {
    match member(ms, key) {
        Some(t) => string_value(t),
        None => None,
    }
}

/// The boolean held by the member named `key`, if there is one and it holds a boolean.
pub open spec fn bool_of_member(ms: Seq<(Seq<char>, Seq<char>)>, key: Seq<char>) -> Option<bool> {
    match member(ms, key) {
        Some(t) => bool_value(t),
        None => None,
    }
}

/// Why an inbound message was discarded.
#[derive(PartialEq, Eq, Structural, Debug, Clone, Copy)]
pub enum CodecError {
    /// The text is not a JSON object with a string `type` and a `payload`.
    MalformedEnvelope,
    /// The payload does not have the shape that its `type` calls for.
    PayloadDecode,
}

/// The wire unit: a message type and the JSON text of its payload.
pub struct Envelope {
    pub kind: String,
    pub payload: String,
}

/// The members of the envelope of type `kind` around `payload`.
pub open spec fn envelope_members(kind: Seq<char>, payload: Seq<char>) -> Seq<
    (Seq<char>, Seq<char>),
> {
    seq![("type"@, quoted(kind)), ("payload"@, payload)]
}

/// The text of the envelope of type `kind` around `payload`.
pub open spec fn envelope_text(kind: Seq<char>, payload: Seq<char>) -> Seq<char> {
    object_text(envelope_members(kind, payload))
}

/// The type and payload that an object's members make, where `type` holds a
/// string and `payload` is present.
pub open spec fn envelope_of(ms: Seq<(Seq<char>, Seq<char>)>) -> Option<(Seq<char>, Seq<char>)> {
    match (string_of_member(ms, "type"@), member(ms, "payload"@)) {
        (Some(k), Some(p)) => Some((k, p)),
        _ => None,
    }
}

/// The type and payload that `text` holds, where it holds a well-formed envelope.
pub open spec fn decoded(text: Seq<char>) -> Option<(Seq<char>, Seq<char>)> {
    match object_members_of(text) {
        Some(ms) => envelope_of(ms),
        None => None,
    }
}

impl Envelope {
    /// The envelope's members: its quoted type under `type`, its payload under
    /// `payload`. Reading them back gives the same type and payload.
    pub fn to_members(&self) -> (r: Vec<(String, String)>)
        ensures
            members_view(r@) == envelope_members(self.kind@, self.payload@),
            envelope_of(members_view(r@)) == Some((self.kind@, self.payload@)),
    {
        let mut r: Vec<(String, String)> = Vec::new();
        r.push((String::from_str("type"), quote(self.kind.as_str())));
        r.push((String::from_str("payload"), self.payload.clone()));
        proof {
            let ms = members_view(r@);
            assert(ms =~= envelope_members(self.kind@, self.payload@));
            reveal_strlit("type");
            reveal_strlit("payload");
            assert("type"@.len() != "payload"@.len());
            assert(ms.drop_first()[0] == ms[1]);
            assert(member(ms.drop_first(), "payload"@) == Some(self.payload@));
            assert(member(ms, "type"@) == Some(quoted(self.kind@)));
            assert(member(ms, "payload"@) == Some(self.payload@));
        }
        r
    }

    /// Writes `{"type":<kind>,"payload":<payload>}`, whose members read back
    /// as this envelope's type and payload.
    pub fn encode(&self) -> (r: String)
        ensures
            r@ == envelope_text(self.kind@, self.payload@),
            envelope_of(envelope_members(self.kind@, self.payload@)) == Some(
                (self.kind@, self.payload@),
            ),
    {
        let members = self.to_members();
        encode_object(&members)
    }

    /// Reads an envelope out of an object's members.
    pub fn from_members(members: &Vec<(String, String)>) -> (r: Result<Envelope, CodecError>)
        ensures
            match r {
                Ok(e) => envelope_of(members_view(members@)) == Some((e.kind@, e.payload@)),
                Err(err) => err == CodecError::MalformedEnvelope && envelope_of(
                    members_view(members@),
                ) is None,
            },
    {
        let kind = string_member(members, &String::from_str("type"));
        let payload = raw_member(members, &String::from_str("payload"));
        match (kind, payload) {
            (Some(k), Some(p)) => Ok(Envelope { kind: k, payload: p }),
            _ => Err(CodecError::MalformedEnvelope),
        }
    }

    /// Reads an envelope out of text. The payload's inner shape is not checked.
    pub fn decode(text: &str) -> (r: Result<Envelope, CodecError>)
        ensures
            match r {
                Ok(e) => decoded(text@) == Some((e.kind@, e.payload@)),
                Err(err) => err == CodecError::MalformedEnvelope && decoded(text@) is None,
            },
    {
        match parse_object(text) {
            Some(members) => Envelope::from_members(&members),
            None => Err(CodecError::MalformedEnvelope),
        }
    }
}

} // verus!
