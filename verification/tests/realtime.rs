//! The WebSocket session channel.

use opus_api::auth::keys::{Scope, ScopeSet};
use opus_api::auth::middleware::{AuthState, Principal};
use opus_api::auth::rate_limit::RateLimiter;
use opus_api::db::Db;
use opus_api::error::{envelope_for_status, Error};
use opus_api::json::Json;
use opus_api::sse::SseParser;
use opus_api::upstream::control_plane::{upstream_error, Call, Method};
use opus_api::v1::ws::{
    connect, error_json, handle_client_frame, read_events, Action, Bridge, Event, Handled, Next,
    Phase, WsQuery,
};
use opus_api::v1::{enter, Area};
use serde_json::Value;

const CANNED: &str = "event: message\ndata: {\"id\":\"sevt_9\",\"type\":\"agent.message\"}\n\nevent: message\ndata: {\"id\":\"sevt_10\",\"type\":\"session.status_idle\"}\n\n";

const PREVIEW: &str = "event: message\ndata: {\"type\":\"event_start\",\"event\":{\"type\":\"agent.message\",\"id\":\"sevt_9\"}}\n\nevent: message\ndata: {\"type\":\"event_delta\",\"event_id\":\"sevt_9\",\"delta\":{\"type\":\"content_delta\",\"index\":0,\"content\":{\"type\":\"text\",\"text\":\"17 times \"}}}\n\nevent: message\ndata: {\"type\":\"event_delta\",\"event_id\":\"sevt_9\",\"delta\":{\"type\":\"content_delta\",\"index\":0,\"content\":{\"type\":\"text\",\"text\":\"23 is 391.\"}}}\n\n";

fn holder(scopes: &[Scope]) -> Principal {
    Principal {
        key_id: "k".to_owned(),
        name: "test".to_owned(),
        scopes: ScopeSet::from_scopes(scopes),
    }
}

fn both() -> Principal {
    holder(&[Scope::SessionsRead, Scope::SessionsWrite])
}

fn bridge(who: Principal, history: Option<bool>, deltas: Option<bool>) -> Bridge {
    Bridge::new(who, "sesn_live", "req_0123456789abcdef", &WsQuery { history, deltas })
}

fn json(text: &str) -> Json {
    Json::parse(text).unwrap()
}

fn frames(action: &Action) -> Vec<Value> {
    action.send.iter().map(|f| f.to_value()).collect()
}

fn asked(action: Action) -> Call {
    match action.next {
        Next::Ask(call) => call,
        _ => panic!("nothing is asked"),
    }
}

/// The frames for a chunk of the live stream.
fn live(b: &mut Bridge, parser: &mut SseParser, chunk: &str) -> Vec<Value> {
    let mut out = vec![];
    for event in read_events(parser, chunk.as_bytes()) {
        out.extend(frames(&b.step(Event::Upstream(event))));
    }
    out
}

/// The frame for a client frame, where nothing is asked upstream.
fn reply(b: &mut Bridge, text: &str) -> Value {
    assert_eq!(b.phase(), Phase::Live);
    let action = b.step(Event::Client(text.to_owned()));
    assert!(matches!(action.next, Next::Listen));
    let sent = frames(&action);
    assert_eq!(sent.len(), 1);
    sent[0].clone()
}

#[test]
fn websocket_hello_history_live_send_interrupt() {
    let mut b = bridge(both(), None, None);
    let mut parser = SseParser::default();

    let action = b.step(Event::Opened);
    let hello = frames(&action)[0].clone();
    assert_eq!(hello["type"], "hello");
    assert_eq!(hello["session_id"], "sesn_live");
    assert!(hello["request_id"].as_str().unwrap().starts_with("req_"));
    let call = asked(action);
    assert_eq!((call.method, call.path.as_str()), (Method::Get, "/sessions/sesn_live/events"));
    assert_eq!(b.phase(), Phase::Listing);

    // History: one event (sevt_1).
    let page = r#"{"data":[{"id":"sevt_1","type":"agent.message","content":[{"type":"text","text":"hi"}]}],"next_page":null,"prev_page":null}"#;
    let action = b.step(Event::Answered(Ok(json(page))));
    let sent = frames(&action);
    assert_eq!(sent.len(), 1);
    assert_eq!(sent[0]["type"], "event");
    assert_eq!(sent[0]["event"]["id"], "sevt_1");
    assert!(matches!(action.next, Next::Listen));

    // Then the stream's canned live frames (sevt_9, sevt_10).
    let sent = live(&mut b, &mut parser, &format!(": connected\n\n{CANNED}"));
    assert_eq!(sent.len(), 2);
    assert_eq!(sent[0]["event"]["id"], "sevt_9");
    assert_eq!(sent[1]["event"]["id"], "sevt_10");
    assert_eq!(sent[1]["event"]["type"], "session.status_idle");

    // A live event arrives; a duplicate of history does not.
    let sent = live(
        &mut b,
        &mut parser,
        "data: {\"id\": \"sevt_1\", \"type\": \"agent.message\"}\n\ndata: {\"id\": \"sevt_11\", \"type\": \"agent.message\", \"content\": [{\"type\": \"text\", \"text\": \"hi\"}]}\n\n",
    );
    assert_eq!(sent.len(), 1);
    assert_eq!(sent[0]["event"]["id"], "sevt_11", "sevt_1 was deduplicated");

    // Client frames.
    assert_eq!(reply(&mut b, r#"{"type": "ping"}"#)["type"], "pong");

    let action = b.step(Event::Client(
        r#"{"type": "message", "task": "and the driver version?"}"#.to_owned(),
    ));
    assert!(action.send.is_empty());
    let call = asked(action);
    assert_eq!((call.method, call.path.as_str()), (Method::Post, "/sessions/sesn_live/events"));
    assert_eq!(call.body.unwrap().to_value()["task"], "and the driver version?");
    assert_eq!(b.phase(), Phase::Posting);
    let action =
        b.step(Event::Answered(Ok(json(r#"{"data":[{"id":"sevt_2","type":"user.message"}]}"#))));
    let sent = frames(&action)[0].clone();
    assert_eq!(sent["type"], "sent", "{sent}");
    assert_eq!(sent["data"][0]["type"], "user.message");

    let call = asked(b.step(Event::Client(r#"{"type": "interrupt"}"#.to_owned())));
    assert_eq!((call.method, call.path.as_str()), (Method::Post, "/sessions/sesn_live/interrupt"));
    let action = b.step(Event::Answered(Ok(json(
        r#"{"data":[{"id":"sevt_3","type":"user.interrupt"}]}"#,
    ))));
    let sent = frames(&action)[0].clone();
    assert_eq!(sent["type"], "sent");
    assert_eq!(sent["data"][0]["type"], "user.interrupt");

    // Bad frames get an error frame and the socket stays open.
    let err = reply(&mut b, r#"{"type": "message", "task": ""}"#);
    assert_eq!(err["type"], "error");
    assert_eq!(err["error"]["type"], "invalid_request");
    assert_eq!(reply(&mut b, "not json")["error"]["type"], "invalid_request");
    assert_eq!(reply(&mut b, r#"{"type": "teleport"}"#)["error"]["type"], "invalid_request");
    assert_eq!(reply(&mut b, r#"{"type": "ping"}"#)["type"], "pong", "still open");

    let action = b.step(Event::ClientGone);
    assert!(action.send.is_empty());
    assert!(matches!(action.next, Next::Drop));
    assert_eq!(b.phase(), Phase::Closed);
}

#[test]
fn websocket_history_can_be_skipped() {
    let mut b = bridge(both(), Some(false), None);
    let action = b.step(Event::Opened);
    assert_eq!(frames(&action)[0]["type"], "hello");
    assert!(matches!(action.next, Next::Listen), "history was not listed");
    let sent = live(&mut b, &mut SseParser::default(), CANNED);
    assert_eq!(sent[0]["event"]["id"], "sevt_9", "straight to live");
}

#[test]
fn websocket_scopes_and_auth() {
    // No key: the upgrade itself is refused with the envelope.
    let mut auth = AuthState { db: Db::in_memory().unwrap(), limiter: RateLimiter::disabled() };
    assert_eq!(enter(&mut auth, Area::Sessions, None).unwrap_err().status(), 401);

    // Read-only key connects but cannot write.
    let reader = holder(&[Scope::SessionsRead]);
    let q = WsQuery { history: Some(false), deltas: None };
    assert!(connect(&reader, "sesn_live", &q).is_ok());
    let mut b = bridge(reader, Some(false), None);
    assert_eq!(frames(&b.step(Event::Opened))[0]["type"], "hello");
    let err = reply(&mut b, r#"{"type": "message", "task": "x"}"#);
    assert_eq!(err["error"]["type"], "forbidden");
    assert!(err["error"]["message"].as_str().unwrap().contains("sessions:write"));

    // Write-only key cannot connect at all.
    let writer = holder(&[Scope::SessionsWrite]);
    let e = connect(&writer, "sesn_live", &WsQuery { history: None, deltas: None }).err().unwrap();
    assert_eq!(e.status(), 403);
}

#[test]
fn websocket_unknown_session_is_a_clean_404() {
    let q = WsQuery { history: None, deltas: None };
    let call = connect(&both(), "sesn_missing", &q).ok().unwrap();
    assert_eq!((call.method, call.path.as_str()), (Method::Get, "/sessions/sesn_missing/stream"));
    let e = upstream_error(
        404,
        None,
        r#"{"error":{"type":"upstream","message":"not_found_error: session not found"}}"#,
    );
    assert_eq!(e.status(), 404);
    // A plain GET without the upgrade headers is a 400, in the envelope.
    assert_eq!(envelope_for_status(400, "not an upgrade").kind, "invalid_request");
    // Nothing but an id goes into the path.
    assert_eq!(connect(&both(), "a/b", &q).err().unwrap().status(), 400);
}

#[test]
fn websocket_closes_when_upstream_ends() {
    let mut b = bridge(both(), Some(false), None);
    assert_eq!(frames(&b.step(Event::Opened))[0]["type"], "hello");
    live(&mut b, &mut SseParser::default(), CANNED);
    let action = b.step(Event::UpstreamEnded);
    let last = frames(&action).last().unwrap().clone();
    assert_eq!(last["type"], "closed");
    assert_eq!(last["reason"], "upstream_closed");
    assert!(matches!(action.next, Next::Close));
    assert_eq!(b.phase(), Phase::Closed);
}

#[test]
fn websocket_tool_result_frame_and_deltas() {
    let q = WsQuery { history: Some(false), deltas: Some(true) };
    let call = connect(&both(), "sesn_live", &q).ok().unwrap();
    assert_eq!(call.query, vec![("event_deltas".to_owned(), "agent.message".to_owned())]);
    let mut b = bridge(both(), Some(false), Some(true));
    let mut parser = SseParser::default();
    assert_eq!(frames(&b.step(Event::Opened))[0]["type"], "hello");

    // With deltas on, the text fragments arrive as `delta` frames before the
    // buffered agent.message event; event_start is dropped.
    let sent = live(&mut b, &mut parser, &format!(": connected\n\n{PREVIEW}{CANNED}"));
    assert_eq!(sent.len(), 4, "{sent:?}");
    assert_eq!(sent[0]["type"], "delta");
    assert_eq!(sent[0]["event_id"], "sevt_9");
    assert_eq!(sent[0]["text"], "17 times ");
    assert_eq!(sent[1]["text"], "23 is 391.");
    assert_eq!(sent[2]["type"], "event");
    assert_eq!(sent[2]["event"]["id"], "sevt_9", "the authoritative event follows");
    assert_eq!(sent[3]["event"]["id"], "sevt_10");

    // A custom tool call arrives as a plain event; the client answers with a
    // tool_result frame.
    let sent = live(
        &mut b,
        &mut parser,
        "data: {\"id\": \"sevt_77\", \"type\": \"agent.custom_tool_use\", \"name\": \"play_music\", \"input\": {\"artist\": \"Daft Punk\"}}\n\n",
    );
    assert_eq!(sent[0]["event"]["type"], "agent.custom_tool_use");
    assert_eq!(sent[0]["event"]["input"]["artist"], "Daft Punk");
    let call = asked(b.step(Event::Client(
        r#"{"type": "tool_result", "custom_tool_use_id": "sevt_77", "content": "Now playing: Around the World"}"#
            .to_owned(),
    )));
    assert_eq!(
        (call.method, call.path.as_str()),
        (Method::Post, "/sessions/sesn_live/tool-results")
    );
    assert_eq!(call.body.unwrap().to_value()["results"][0]["custom_tool_use_id"], "sevt_77");
    let action = b.step(Event::Answered(Ok(json(
        r#"{"data":[{"type":"user.custom_tool_result","custom_tool_use_id":"sevt_77"}]}"#,
    ))));
    let sent = frames(&action)[0].clone();
    assert_eq!(sent["type"], "sent", "{sent}");
    assert_eq!(sent["data"][0]["type"], "user.custom_tool_result");

    // Malformed tool_result is an error frame, socket stays open.
    let err = reply(&mut b, r#"{"type": "tool_result", "content": "x"}"#);
    assert_eq!(err["type"], "error");
    assert_eq!(err["error"]["type"], "invalid_request");
}

#[test]
fn without_deltas_everything_on_the_stream_is_a_plain_event() {
    let mut b = bridge(both(), Some(false), None);
    b.step(Event::Opened);
    let sent = live(&mut b, &mut SseParser::default(), &format!("{PREVIEW}{CANNED}"));
    assert_eq!(sent.len(), 5);
    assert!(sent.iter().all(|f| f["type"] == "event"));
}

#[test]
fn history_is_paged_and_each_event_comes_once() {
    let mut b = bridge(both(), None, None);
    let call = asked(b.step(Event::Opened));
    assert_eq!(call.query, vec![("limit".to_owned(), "1000".to_owned())]);
    let action = b.step(Event::Answered(Ok(json(
        r#"{"data":[{"id":"a"},{"id":"b"}],"next_page":"p2"}"#,
    ))));
    assert!(action.send.is_empty());
    let call = asked(action);
    assert!(call.query.contains(&("page".to_owned(), "p2".to_owned())));
    let action =
        b.step(Event::Answered(Ok(json(r#"{"data":[{"id":"b"},{"id":"c"}],"next_page":""}"#))));
    let ids: Vec<Value> = frames(&action).iter().map(|f| f["event"]["id"].clone()).collect();
    assert_eq!(ids, ["a", "b", "c"]);
    assert_eq!(b.phase(), Phase::Live);
    // None of them comes again; what has no id always does.
    assert!(b.step(Event::Upstream(json(r#"{"id":"c"}"#))).send.is_empty());
    assert_eq!(b.step(Event::Upstream(json(r#"{"x":1}"#))).send.len(), 1);
    assert_eq!(b.step(Event::Upstream(json(r#"{"x":1}"#))).send.len(), 1);
}

#[test]
fn history_that_cannot_be_listed_is_an_error_frame() {
    let mut b = bridge(both(), None, None);
    b.step(Event::Opened);
    let action = b.step(Event::Answered(Err(Error::NotFound)));
    let sent = frames(&action);
    assert_eq!(sent[0]["type"], "error");
    assert_eq!(sent[0]["error"]["type"], "not_found");
    assert!(matches!(action.next, Next::Listen));
    // So is a post that failed.
    b.step(Event::Client(r#"{"type": "interrupt"}"#.to_owned()));
    let action = b.step(Event::Answered(Err(upstream_error(502, None, "down"))));
    assert_eq!(frames(&action)[0]["error"]["type"], "upstream");
    assert_eq!(b.phase(), Phase::Live);
}

#[test]
fn a_client_frame_comes_to_a_reply_or_a_call() {
    let who = both();
    assert!(matches!(
        handle_client_frame(&who, "s", r#"{"type":"ping"}"#),
        Handled::Reply(_)
    ));
    match handle_client_frame(&who, "s", r#"{"type":"message","task":"  hi  "}"#) {
        Handled::Ask(call) => assert_eq!(call.body.unwrap().to_value()["task"], "hi"),
        Handled::Reply(_) => panic!("a message is posted"),
    }
    let e = error_json(&Error::Db("secret path".to_owned())).to_value();
    assert_eq!(e["error"]["type"], "internal");
    assert!(!e.to_string().contains("secret path"));
}
