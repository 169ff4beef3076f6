//! The client's protocol engine: the registration handshake, the table of
//! command handlers, and the decision taken on each inbound message.
//!
//! The connection itself stays with the caller: `Client::new` hands back the
//! registration request to send first, and `Client::read` takes each inbound
//! text message and says what came of it, including any reply to send.

use crate::codec::{
    bool_member, bool_of_member, decoded, encode_object, envelope_text, member, members_view,
    object_members_of, object_text, parse_object, quote, quoted, raw_member, string_member,
    string_of_member, CodecError, Envelope,
};
use vstd::prelude::*;
use vstd::string::*;

verus! {

/// Connection parameters, fixed at construction.
pub struct ClientConfig {
    pub token: String,
    pub device: String,
    pub app: String,
    pub url: String,
}

/// The payload of a `registerResponse` message.
pub struct RegisterResponse {
    pub state: bool,
    pub message: String,
}

/// The payload of a `command` message; `meta` is held as JSON text.
pub struct Command {
    pub command: String,
    pub meta: String,
    pub callback_id: String,
}

/// The members of a registration request's payload.
pub open spec fn register_members(token: Seq<char>, device: Seq<char>, app: Seq<char>) -> Seq<
    (Seq<char>, Seq<char>),
> {
    seq![("gToken"@, quoted(token)), ("devName"@, quoted(device)), ("appName"@, quoted(app))]
}

/// The text of the registration request for the given identity.
pub open spec fn register_request_text(token: Seq<char>, device: Seq<char>, app: Seq<char>) -> Seq<
    char,
> {
    envelope_text("register"@, object_text(register_members(token, device, app)))
}

/// The members of a response's payload.
pub open spec fn response_members(callback_id: Seq<char>, meta: Seq<char>) -> Seq<
    (Seq<char>, Seq<char>),
> {
    seq![("callbackId"@, quoted(callback_id)), ("meta"@, quoted(meta))]
}

/// The text of the response carrying `meta` back under `callback_id`.
pub open spec fn response_text(callback_id: Seq<char>, meta: Seq<char>) -> Seq<char> {
    envelope_text("response"@, object_text(response_members(callback_id, meta)))
}

/// The state and message of a `registerResponse` payload, where it has both.
pub open spec fn register_response_of(payload: Seq<char>) -> Option<(bool, Seq<char>)> {
    match object_members_of(payload) {
        Some(ms) => match (bool_of_member(ms, "state"@), string_of_member(ms, "message"@)) {
            (Some(b), Some(m)) => Some((b, m)),
            _ => None,
        },
        None => None,
    }
}

/// The command name, `meta` text and callback identifier of a `command`
/// payload, where it has all three.
pub open spec fn command_of(payload: Seq<char>) -> Option<(Seq<char>, Seq<char>, Seq<char>)> {
    match object_members_of(payload) {
        Some(ms) => match (
            string_of_member(ms, "command"@),
            member(ms, "meta"@),
            string_of_member(ms, "callbackId"@),
        ) {
            (Some(c), Some(m), Some(cb)) => Some((c, m, cb)),
            _ => None,
        },
        None => None,
    }
}

/// Writes `members` as an object and wraps it as the payload of a `kind` envelope.
fn envelope(kind: &str, members: &Vec<(String, String)>) -> (r: String)
    ensures
        r@ == envelope_text(kind@, object_text(members_view(members@))),
{
    let e = Envelope { kind: String::from_str(kind), payload: encode_object(members) };
    e.encode()
}

/// Builds the registration request: a `register` envelope whose payload
/// carries the token, device and application identifiers verbatim.
pub fn construct_register_request(token: &str, device: &str, app: &str) -> (r: String)
    ensures
        r@ == register_request_text(token@, device@, app@),
        string_of_member(register_members(token@, device@, app@), "gToken"@) == Some(token@),
        string_of_member(register_members(token@, device@, app@), "devName"@) == Some(device@),
        string_of_member(register_members(token@, device@, app@), "appName"@) == Some(app@),
{
    let mut members: Vec<(String, String)> = Vec::new();
    members.push((String::from_str("gToken"), quote(token)));
    members.push((String::from_str("devName"), quote(device)));
    members.push((String::from_str("appName"), quote(app)));
    let ghost ms = register_members(token@, device@, app@);
    proof {
        assert(members_view(members@) =~= ms);
        reveal_strlit("gToken");
        reveal_strlit("devName");
        reveal_strlit("appName");
        assert("gToken"@.len() != "devName"@.len());
        assert("gToken"@.len() != "appName"@.len());
        assert("appName"@[0] != "devName"@[0]);
        assert(ms.drop_first()[0] == ms[1]);
        assert(ms.drop_first().drop_first()[0] == ms[2]);
        assert(member(ms.drop_first().drop_first(), "appName"@) == Some(quoted(app@)));
        assert(member(ms.drop_first(), "appName"@) == Some(quoted(app@)));
        assert(member(ms.drop_first(), "devName"@) == Some(quoted(device@)));
    }
    envelope("register", &members)
}

/// Builds the response to a command: a `response` envelope whose payload
/// carries `callback_id` back unchanged, and `meta` as the handler's result.
pub fn respond(callback_id: &str, meta: &str) -> (r: String)
    ensures
        r@ == response_text(callback_id@, meta@),
        string_of_member(response_members(callback_id@, meta@), "callbackId"@) == Some(
            callback_id@,
        ),
        string_of_member(response_members(callback_id@, meta@), "meta"@) == Some(meta@),
{
    let mut members: Vec<(String, String)> = Vec::new();
    members.push((String::from_str("callbackId"), quote(callback_id)));
    members.push((String::from_str("meta"), quote(meta)));
    let ghost ms = response_members(callback_id@, meta@);
    proof {
        assert(members_view(members@) =~= ms);
        reveal_strlit("callbackId");
        reveal_strlit("meta");
        assert("callbackId"@.len() != "meta"@.len());
        assert(ms.drop_first()[0] == ms[1]);
        assert(member(ms.drop_first(), "meta"@) == Some(quoted(meta@)));
    }
    envelope("response", &members)
}

impl RegisterResponse {
    /// Reads a `registerResponse` payload: a boolean `state` and a string `message`.
    pub fn decode(payload: &str) -> (r: Result<RegisterResponse, CodecError>)
        ensures
            match r {
                Ok(v) => register_response_of(payload@) == Some((v.state, v.message@)),
                Err(e) => e == CodecError::PayloadDecode && register_response_of(payload@) is None,
            },
    {
        match parse_object(payload) {
            Some(members) => {
                let state = bool_member(&members, &String::from_str("state"));
                let message = string_member(&members, &String::from_str("message"));
                match (state, message) {
                    (Some(b), Some(m)) => Ok(RegisterResponse { state: b, message: m }),
                    _ => Err(CodecError::PayloadDecode),
                }
            },
            None => Err(CodecError::PayloadDecode),
        }
    }
}

impl Command {
    /// Reads a `command` payload: a string `command`, any `meta`, and a string
    /// `callbackId`.
    pub fn decode(payload: &str) -> (r: Result<Command, CodecError>)
        ensures
            match r {
                Ok(c) => command_of(payload@) == Some((c.command@, c.meta@, c.callback_id@)),
                Err(e) => e == CodecError::PayloadDecode && command_of(payload@) is None,
            },
    {
        match parse_object(payload) {
            Some(members) => {
                let command = string_member(&members, &String::from_str("command"));
                let meta = raw_member(&members, &String::from_str("meta"));
                let callback_id = string_member(&members, &String::from_str("callbackId"));
                match (command, meta, callback_id) {
                    (Some(c), Some(m), Some(cb)) => Ok(
                        Command { command: c, meta: m, callback_id: cb },
                    ),
                    _ => Err(CodecError::PayloadDecode),
                }
            },
            None => Err(CodecError::PayloadDecode),
        }
    }
}

/// The handler of the last entry named `name`: a later registration under a
/// name takes the place of an earlier one.
pub open spec fn last_handler<H>(table: Seq<(String, H)>, name: Seq<char>) -> Option<H>
    decreases table.len(),
{
    if table.len() == 0 {
        None
    } else if table.last().0@ == name {
        Some(table.last().1)
    } else {
        last_handler(table.drop_last(), name)
    }
}

/// No two entries of `table` share a command name.
pub open spec fn names_unique<H>(table: Seq<(String, H)>) -> bool {
    forall|i: int, j: int|
        0 <= i < j < table.len() ==> #[trigger] table[i].0@ != #[trigger] table[j].0@
}

/// In a table without repeated names, a name is dispatched to the handler of
/// its one entry, and a name with no entry to none.
proof fn lemma_lookup_unique<H>(table: Seq<(String, H)>, name: Seq<char>)
    requires
        names_unique(table),
    ensures
        forall|i: int|
            0 <= i < table.len() && #[trigger] table[i].0@ == name ==> last_handler(table, name)
                == Some(table[i].1),
        (forall|i: int| 0 <= i < table.len() ==> #[trigger] table[i].0@ != name) ==> last_handler(
            table,
            name,
        ) is None,
    decreases table.len(),
{
    if table.len() > 0 {
        let rest = table.drop_last();
        assert(names_unique(rest)) by {
            assert forall|i: int, j: int| 0 <= i < j < rest.len() implies #[trigger] rest[i].0@
                != #[trigger] rest[j].0@ by {
                assert(table[i].0@ != table[j].0@);
            }
        }
        lemma_lookup_unique(rest, name);
        assert forall|i: int|
            0 <= i < table.len() && #[trigger] table[i].0@ == name implies last_handler(
                table,
                name,
            ) == Some(table[i].1) by {
            if i < table.len() - 1 {
                assert(rest[i] == table[i]);
                assert(table[i].0@ != table[table.len() - 1].0@);
            }
        }
        if forall|i: int| 0 <= i < table.len() ==> #[trigger] table[i].0@ != name {
            assert forall|i: int| 0 <= i < rest.len() implies #[trigger] rest[i].0@ != name by {
                assert(rest[i] == table[i]);
            }
            assert(table[table.len() - 1].0@ != name);
        }
    }
}

/// What came of one inbound message.
#[derive(Debug)]
pub enum Event {
    /// A `registerResponse` set the registration state to this value.
    Registered(bool),
    /// A registered handler returned a result; this response is to be sent.
    Replied(String),
    /// A registered handler returned nothing; no response is owed.
    NoReply,
    /// A `command` named no registered handler; it is dropped.
    Unregistered,
    /// A message of another type; it is ignored.
    Ignored,
}

/// The protocol state of one connection: whether the server has acknowledged
/// the registration, and the handlers by command name.
///
/// A handler takes the JSON text of a command's `meta` and may return a
/// result to send back.
pub struct Client<H> {
    registered: bool,
    handlers: Vec<(String, H)>,
}

impl<H: Fn(String) -> Option<String>> Client<H> {
    /// The registration state last reported by the server.
    pub closed spec fn registration(&self) -> bool {
        self.registered
    }

    /// The handler table, in order of registration.
    pub closed spec fn table(&self) -> Seq<(String, H)> {
        self.handlers@
    }

    /// The handler that a command named `name` is dispatched to.
    pub open spec fn handler(&self, name: Seq<char>) -> Option<H> {
        last_handler(self.table(), name)
    }

    /// Every handler accepts any `meta` text, and no command name has two entries.
    pub open spec fn wf(&self) -> bool {
        &&& forall|i: int, s: String|
            0 <= i < self.table().len() ==> #[trigger] call_requires(self.table()[i].1, (s,))
        &&& names_unique(self.table())
    }

    /// A client for `config` with no handlers and registration not yet
    /// acknowledged, together with the registration request that is to be sent
    /// before anything else.
    pub fn new(config: &ClientConfig) -> (r: (Client<H>, String))
        ensures
            r.0.wf(),
            !r.0.registration(),
            r.0.table().len() == 0,
            r.1@ == register_request_text(config.token@, config.device@, config.app@),
    {
        let request = construct_register_request(
            config.token.as_str(),
            config.device.as_str(),
            config.app.as_str(),
        );
        (Client { registered: false, handlers: Vec::new() }, request)
    }

    /// The registration state last reported by the server.
    pub fn registered(&self) -> (r: bool)
        ensures
            r == self.registration(),
    {
        self.registered
    }

    /// Registers `handler` for `command`, in place of any earlier one.
    pub fn on(&mut self, command: String, handler: H)
        requires
            old(self).wf(),
            forall|s: String| #[trigger] call_requires(handler, (s,)),
        ensures
            final(self).wf(),
            final(self).registration() == old(self).registration(),
            forall|name: Seq<char>|
                #[trigger] final(self).handler(name) == if name == command@ {
                    Some(handler)
                } else {
                    old(self).handler(name)
                },
    {
        let ghost name = command@;
        let ghost before = self.table();
        match self.find_handler(&command) {
            Some(i) => {
                self.handlers.set(i, (command, handler));
                proof {
                    let after = self.table();
                    assert(after =~= before.update(i as int, (after[i as int].0, handler)));
                    assert(names_unique(after)) by {
                        assert forall|a: int, b: int| 0 <= a < b < after.len() implies #[trigger] after[a].0@
                            != #[trigger] after[b].0@ by {
                            assert(before[a].0@ != before[b].0@);
                        }
                    }
                    assert forall|k: Seq<char>| #[trigger] self.handler(k) == if k == name {
                        Some(handler)
                    } else {
                        old(self).handler(k)
                    } by {
                        lemma_lookup_unique(before, k);
                        lemma_lookup_unique(after, k);
                        if k != name {
                            if exists|j: int| 0 <= j < after.len() && #[trigger] after[j].0@ == k {
                                let j = choose|j: int| 0 <= j < after.len() && #[trigger] after[j].0@ == k;
                                assert(after[j] == before[j]);
                            } else {
                                assert forall|j: int| 0 <= j < before.len() implies #[trigger] before[j].0@
                                    != k by {
                                    if j != i {
                                        assert(after[j] == before[j]);
                                    }
                                }
                            }
                        }
                    }
                }
            },
            None => {
                self.handlers.push((command, handler));
                proof {
                    let after = self.table();
                    assert(after.drop_last() =~= before);
                    assert(after.last().0@ == name);
                    assert(names_unique(after)) by {
                        lemma_lookup_unique(before, name);
                        assert forall|a: int, b: int| 0 <= a < b < after.len() implies #[trigger] after[a].0@
                            != #[trigger] after[b].0@ by {
                            if b == after.len() - 1 {
                                assert(after[a] == before[a]);
                                if before[a].0@ == name {
                                    assert(last_handler(before, name) == Some(before[a].1));
                                }
                            } else {
                                assert(before[a].0@ != before[b].0@);
                            }
                        }
                    }
                }
            },
        }
    }

    /// Finds the entry that a command named `name` is dispatched to.
    fn find_handler(&self, name: &String) -> (r: Option<usize>)
        ensures
            match r {
                Some(i) => i < self.table().len() && self.table()[i as int].0@ == name@
                    && self.handler(name@) == Some(self.table()[i as int].1),
                None => self.handler(name@) is None,
            },
    {
        let mut i: usize = self.handlers.len();
        proof {
            assert(self.table().take(i as int) =~= self.table());
        }
        while i > 0
            invariant
                i <= self.handlers.len(),
                self.handler(name@) == last_handler(self.table().take(i as int), name@),
            decreases i,
        {
            proof {
                let t = self.table().take(i as int);
                assert(t.drop_last() =~= self.table().take(i - 1));
            }
            if self.handlers[i - 1].0 == *name {
                return Some(i - 1);
            }
            i -= 1;
        }
        None
    }

    /// Takes one inbound text message and decides what comes of it.
    ///
    /// A `registerResponse` sets the registration state. A `command` naming a
    /// registered handler calls it once with the `meta` text; a result it
    /// returns comes back as the response to send, under the command's
    /// callback identifier. A `command` naming no handler, and a message of
    /// any other type, change nothing. A message that is not an envelope, or
    /// whose payload lacks the shape of its type, is an error and changes
    /// nothing. The handler table is never changed.
    pub fn read(&mut self, text: &str) -> (r: Result<Event, CodecError>)
        requires
            old(self).wf(),
        ensures
            final(self).wf(),
            final(self).table() == old(self).table(),
            decoded(text@) is None ==> r == Err::<Event, CodecError>(CodecError::MalformedEnvelope)
                && final(self).registration() == old(self).registration(),
            match decoded(text@) {
                Some((kind, payload)) => kind == "registerResponse"@ ==> match register_response_of(
                    payload,
                ) {
                    Some((state, _)) => r == Ok::<Event, CodecError>(Event::Registered(state))
                        && final(self).registration() == state,
                    None => r == Err::<Event, CodecError>(CodecError::PayloadDecode)
                        && final(self).registration() == old(self).registration(),
                },
                None => true,
            },
            match decoded(text@) {
                Some((kind, _)) => kind != "registerResponse"@ ==> final(self).registration()
                    == old(self).registration(),
                None => true,
            },
            match decoded(text@) {
                Some((kind, _)) => kind != "registerResponse"@ && kind != "command"@ ==> r == Ok::<
                    Event,
                    CodecError,
                >(Event::Ignored),
                None => true,
            },
            match decoded(text@) {
                Some((kind, payload)) => kind == "command"@ ==> match command_of(payload) {
                    None => r == Err::<Event, CodecError>(CodecError::PayloadDecode),
                    Some((command, meta, callback_id)) => match old(self).handler(command) {
                        None => r == Ok::<Event, CodecError>(Event::Unregistered),
                        Some(h) => match r {
                            Ok(Event::Replied(out)) => exists|arg: String, x: String|
                                arg@ == meta && #[trigger] call_ensures(h, (arg,), Some(x))
                                    && out@ == response_text(callback_id, x@),
                            Ok(Event::NoReply) => exists|arg: String|
                                arg@ == meta && #[trigger] call_ensures(h, (arg,), None::<String>),
                            _ => false,
                        },
                    },
                },
                None => true,
            },
    {
        proof {
            reveal_strlit("command");
            reveal_strlit("registerResponse");
            assert("command"@.len() != "registerResponse"@.len());
        }
        let envelope = match Envelope::decode(text) {
            Ok(e) => e,
            Err(e) => return Err(e),
        };
        if envelope.kind == String::from_str("registerResponse") {
            match RegisterResponse::decode(envelope.payload.as_str()) {
                Ok(v) => {
                    self.registered = v.state;
                    Ok(Event::Registered(v.state))
                },
                Err(e) => Err(e),
            }
        } else if envelope.kind == String::from_str("command") {
            let command = match Command::decode(envelope.payload.as_str()) {
                Ok(c) => c,
                Err(e) => return Err(e),
            };
            match self.find_handler(&command.command) {
                None => Ok(Event::Unregistered),
                Some(i) => {
                    let ghost meta = command.meta;
                    let ghost h = self.handler(command.command@)->Some_0;
                    let result = (self.handlers[i].1)(command.meta);
                    assert(call_ensures(h, (meta,), result));
                    match result {
                        Some(x) => Ok(Event::Replied(respond(command.callback_id.as_str(), x.as_str()))),
                        None => Ok(Event::NoReply),
                    }
                },
            }
        } else {
            Ok(Event::Ignored)
        }
    }
}

} // verus!
