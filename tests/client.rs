use std::cell::Cell;
use std::rc::Rc;

use serde_json::Value;
use wscmd::codec::{encode_object, CodecError, Envelope};
use wscmd::ws::{construct_register_request, respond, Client, ClientConfig, Command, Event, RegisterResponse};

type Handler = Box<dyn Fn(String) -> Option<String>>;

fn json(text: &str) -> Value {
    serde_json::from_str(text).unwrap()
}

fn config(token: &str, device: &str, app: &str) -> ClientConfig {
    ClientConfig {
        token: token.to_string(),
        device: device.to_string(),
        app: app.to_string(),
        url: "wss://host/ws".to_string(),
    }
}

fn client() -> Client<Handler> {
    Client::<Handler>::new(&config("t1", "d1", "a1")).0
}

fn replied(r: Result<Event, CodecError>) -> String {
    match r {
        Ok(Event::Replied(out)) => out,
        _ => panic!("expected a response to send"),
    }
}

#[test]
fn first_message_is_register_request() {
    let (c, request) = Client::<Handler>::new(&config("t1", "d1", "a1"));
    assert!(!c.registered());
    assert_eq!(
        json(&request),
        json(r#"{"type":"register","payload":{"gToken":"t1","devName":"d1","appName":"a1"}}"#)
    );
}

#[test]
fn register_request_exact_text() {
    assert_eq!(
        construct_register_request("t1", "d1", "a1"),
        r#"{"type":"register","payload":{"gToken":"t1","devName":"d1","appName":"a1"}}"#
    );
}

#[test]
fn register_request_keeps_values_verbatim() {
    let token = "a\"b\\c\nd";
    let device = "dev ü 设备";
    let app = "";
    let v = json(&construct_register_request(token, device, app));
    assert_eq!(v["type"], "register");
    assert_eq!(v["payload"]["gToken"], token);
    assert_eq!(v["payload"]["devName"], device);
    assert_eq!(v["payload"]["appName"], app);
    assert_eq!(v["payload"].as_object().unwrap().len(), 3);
}

#[test]
fn ping_command_gets_pong_response() {
    let mut c = client();
    let h: Handler = Box::new(|_meta: String| Some("pong".to_string()));
    c.on("ping".to_string(), h);
    let out = replied(c.read(r#"{"type":"command","payload":{"command":"ping","meta":{},"callbackId":"42"}}"#));
    assert_eq!(out, r#"{"type":"response","payload":{"callbackId":"42","meta":"pong"}}"#);
    assert_eq!(json(&out), json(r#"{"type":"response","payload":{"callbackId":"42","meta":"pong"}}"#));
}

#[test]
fn register_response_true_sets_state() {
    let mut c = client();
    let r = c.read(r#"{"type":"registerResponse","payload":{"state":true,"message":"ok"}}"#);
    assert!(matches!(r, Ok(Event::Registered(true))));
    assert!(c.registered());
}

#[test]
fn register_response_false_clears_state() {
    let mut c = client();
    c.read(r#"{"type":"registerResponse","payload":{"state":true,"message":"ok"}}"#).unwrap();
    let r = c.read(r#"{"type":"registerResponse","payload":{"state":false,"message":"no"}}"#);
    assert!(matches!(r, Ok(Event::Registered(false))));
    assert!(!c.registered());
}

#[test]
fn bad_register_response_leaves_state() {
    let mut c = client();
    c.read(r#"{"type":"registerResponse","payload":{"state":true,"message":"ok"}}"#).unwrap();
    let bad = [
        r#"{"type":"registerResponse","payload":{"state":"yes","message":"ok"}}"#,
        r#"{"type":"registerResponse","payload":{"state":false}}"#,
        r#"{"type":"registerResponse","payload":{"message":"no"}}"#,
        r#"{"type":"registerResponse","payload":[false]}"#,
    ];
    for text in bad {
        assert!(matches!(c.read(text), Err(CodecError::PayloadDecode)));
        assert!(c.registered());
    }
}

#[test]
fn handler_called_once_with_meta() {
    let mut c = client();
    let calls = Rc::new(Cell::new(0u32));
    let seen = Rc::new(std::cell::RefCell::new(String::new()));
    let (calls2, seen2) = (calls.clone(), seen.clone());
    let h: Handler = Box::new(move |meta: String| {
        calls2.set(calls2.get() + 1);
        *seen2.borrow_mut() = meta;
        Some("done".to_string())
    });
    c.on("run".to_string(), h);
    let out = replied(c.read(r#"{"type":"command","payload":{"command":"run","meta":{"n":[1,2]},"callbackId":"cb-7"}}"#));
    assert_eq!(calls.get(), 1);
    assert_eq!(json(&seen.borrow()), json(r#"{"n":[1,2]}"#));
    let v = json(&out);
    assert_eq!(v["type"], "response");
    assert_eq!(v["payload"]["callbackId"], "cb-7");
    assert_eq!(v["payload"]["meta"], "done");
}

#[test]
fn handler_without_result_sends_nothing() {
    let mut c = client();
    let h: Handler = Box::new(|_meta: String| None);
    c.on("quiet".to_string(), h);
    let r = c.read(r#"{"type":"command","payload":{"command":"quiet","meta":null,"callbackId":"1"}}"#);
    assert!(matches!(r, Ok(Event::NoReply)));
}

#[test]
fn unregistered_command_is_dropped() {
    let mut c = client();
    let calls = Rc::new(Cell::new(0u32));
    let calls2 = calls.clone();
    let h: Handler = Box::new(move |_meta: String| {
        calls2.set(calls2.get() + 1);
        Some("x".to_string())
    });
    c.on("ping".to_string(), h);
    let r = c.read(r#"{"type":"command","payload":{"command":"pong","meta":{},"callbackId":"42"}}"#);
    assert!(matches!(r, Ok(Event::Unregistered)));
    assert_eq!(calls.get(), 0);
    assert!(!c.registered());
    let out = replied(c.read(r#"{"type":"command","payload":{"command":"ping","meta":{},"callbackId":"43"}}"#));
    assert_eq!(json(&out)["payload"]["callbackId"], "43");
}

#[test]
fn later_registration_replaces_earlier() {
    let mut c = client();
    let first: Handler = Box::new(|_m: String| Some("first".to_string()));
    let second: Handler = Box::new(|_m: String| Some("second".to_string()));
    c.on("cmd".to_string(), first);
    c.on("cmd".to_string(), second);
    let out = replied(c.read(r#"{"type":"command","payload":{"command":"cmd","meta":1,"callbackId":"9"}}"#));
    assert_eq!(json(&out)["payload"]["meta"], "second");
}

#[test]
fn unknown_type_is_ignored() {
    let mut c = client();
    assert!(matches!(c.read(r#"{"type":"status","payload":{}}"#), Ok(Event::Ignored)));
    assert!(matches!(c.read(r#"{"type":"response","payload":{"callbackId":"1","meta":"x"}}"#), Ok(Event::Ignored)));
    assert!(!c.registered());
}

#[test]
fn malformed_envelopes_are_rejected() {
    let mut c = client();
    for text in [
        "not json",
        "[1,2]",
        r#"{"payload":{}}"#,
        r#"{"type":"command"}"#,
        r#"{"type":7,"payload":{}}"#,
    ] {
        assert!(matches!(c.read(text), Err(CodecError::MalformedEnvelope)));
    }
}

#[test]
fn bad_command_payload_is_rejected() {
    let mut c = client();
    let h: Handler = Box::new(|_m: String| Some("x".to_string()));
    c.on("ping".to_string(), h);
    for text in [
        r#"{"type":"command","payload":{"command":"ping","callbackId":"1"}}"#,
        r#"{"type":"command","payload":{"command":"ping","meta":{}}}"#,
        r#"{"type":"command","payload":{"command":5,"meta":{},"callbackId":"1"}}"#,
        r#"{"type":"command","payload":"ping"}"#,
    ] {
        assert!(matches!(c.read(text), Err(CodecError::PayloadDecode)));
    }
}

#[test]
fn envelope_round_trip_all_shapes() {
    let cases = [
        ("register", r#"{"gToken":"t","devName":"d","appName":"a"}"#),
        ("registerResponse", r#"{"state":true,"message":"hi"}"#),
        ("command", r#"{"command":"c","meta":{"x":[1,null,"s"]},"callbackId":"id"}"#),
        ("response", r#"{"callbackId":"id","meta":"r"}"#),
    ];
    for (kind, payload) in cases {
        let e = Envelope { kind: kind.to_string(), payload: payload.to_string() };
        let back = Envelope::decode(&e.encode()).unwrap();
        assert_eq!(back.kind, kind);
        assert_eq!(json(&back.payload), json(payload));
    }
}

#[test]
fn envelope_members_read_back() {
    let e = Envelope { kind: "com\"mand".to_string(), payload: "[1]".to_string() };
    let members = e.to_members();
    let back = Envelope::from_members(&members).unwrap();
    assert_eq!(back.kind, "com\"mand");
    assert_eq!(back.payload, "[1]");
}

#[test]
fn encode_object_exact_text() {
    let members = vec![
        ("a".to_string(), "1".to_string()),
        ("b\"".to_string(), "\"x\"".to_string()),
    ];
    assert_eq!(encode_object(&members), r#"{"a":1,"b\"":"x"}"#);
    assert_eq!(encode_object(&Vec::new()), "{}");
}

#[test]
fn respond_exact_text() {
    assert_eq!(respond("42", "a\"b"), r#"{"type":"response","payload":{"callbackId":"42","meta":"a\"b"}}"#);
}

#[test]
fn payload_decoders() {
    let r = RegisterResponse::decode(r#"{"message":"m","state":false,"extra":1}"#).unwrap();
    assert!(!r.state);
    assert_eq!(r.message, "m");
    let c = Command::decode(r#"{"command":"go","meta":"text","callbackId":"z"}"#).unwrap();
    assert_eq!(c.command, "go");
    assert_eq!(c.meta, "\"text\"");
    assert_eq!(c.callback_id, "z");
    assert!(matches!(Command::decode("{}"), Err(CodecError::PayloadDecode)));
}
