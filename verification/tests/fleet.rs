//! The fleet through the door: every proxied route, its scope, the upstream
//! request it produces, and how upstream errors map.

use opus_api::auth::keys::{Scope, ScopeSet};
use opus_api::auth::middleware::{AuthState, Principal};
use opus_api::auth::rate_limit::RateLimiter;
use opus_api::db::Db;
use opus_api::error::{Error, Transport};
use opus_api::json::Json;
use opus_api::upstream::control_plane::{
    retry_after_secs, upstream_error, Call, ControlPlane, Method, Request,
};
use opus_api::v1::keys::create_key;
use opus_api::v1::sessions::{
    CreateSession, CustomTool, EventsQuery, ListQuery, SendMessage, StreamQuery, ToolResult,
    ToolResults,
};
use opus_api::v1::usage::UsageQuery;
use opus_api::v1::{enter, fleet, inference, rig, sessions, usage, Area};
use serde_json::Value;

const CP_TOKEN: &str = "cp-secret";

fn holder(scopes: &[Scope]) -> Principal {
    Principal {
        key_id: "k".to_owned(),
        name: "test".to_owned(),
        scopes: ScopeSet::from_scopes(scopes),
    }
}

fn all_scopes() -> Principal {
    holder(&[
        Scope::FleetRead,
        Scope::SessionsRead,
        Scope::SessionsWrite,
        Scope::UsageRead,
        Scope::Inference,
    ])
}

fn value(text: &str) -> Value {
    serde_json::from_str(text).unwrap()
}

fn json(text: &str) -> Json {
    Json::parse(text).unwrap()
}

fn refusal(e: &Error) -> (u16, String) {
    (e.status(), e.envelope().kind)
}

fn cp_error(status: u16, kind: &str, message: &str) -> Error {
    let retry_after = if status == 503 { Some("5") } else { None };
    let body = format!("{{\"error\":{{\"type\":\"{kind}\",\"message\":\"{message}\"}}}}");
    upstream_error(status, retry_after, &body)
}

fn sent(call: Call) -> Request {
    ControlPlane::new("http://cp:8080/", CP_TOKEN).request(call)
}

fn path_of(call: &Call) -> String {
    let pairs: Vec<String> = call.query.iter().map(|(k, v)| format!("{k}={v}")).collect();
    if pairs.is_empty() {
        call.path.clone()
    } else {
        format!("{}?{}", call.path, pairs.join("&"))
    }
}

fn session(agent_slug: &str, task: &str) -> CreateSession {
    CreateSession {
        agent_slug: agent_slug.to_owned(),
        task: task.to_owned(),
        environment: None,
        repositories: vec![],
        tools: vec![],
        system_suffix: None,
        client: None,
        model: None,
    }
}

fn tool(kind: &str, name: &str, description: &str, schema: &str) -> CustomTool {
    CustomTool {
        kind: kind.to_owned(),
        name: name.to_owned(),
        description: description.to_owned(),
        input_schema: json(schema),
    }
}

#[test]
fn agents_are_wrapped_in_data_and_need_fleet_read() {
    let mut auth = AuthState { db: Db::in_memory().unwrap(), limiter: RateLimiter::disabled() };
    let key = create_key(&mut auth.db, "all", &[Scope::FleetRead]).unwrap().key;
    assert!(enter(&mut auth, Area::Fleet, Some(&format!("Bearer {key}"))).is_ok());
    let call = fleet::agents();
    assert_eq!((call.method, call.path.as_str()), (Method::Get, "/agents"));
    let answer = fleet::wrapped(json(r#"[{"slug":"jarvis"},{"slug":"gpu-compute"}]"#)).to_value();
    assert_eq!(answer["data"][0]["slug"], "jarvis");
    assert_eq!(answer["data"].as_array().unwrap().len(), 2);

    let narrow = create_key(&mut auth.db, "narrow", &[Scope::SessionsRead]).unwrap().key;
    let e = enter(&mut auth, Area::Fleet, Some(&format!("Bearer {narrow}"))).unwrap_err();
    assert_eq!(refusal(&e), (403, "forbidden".to_owned()));
}

#[test]
fn upstream_never_sees_the_client_key() {
    let mut auth = AuthState { db: Db::in_memory().unwrap(), limiter: RateLimiter::disabled() };
    let key = create_key(&mut auth.db, "all", &[Scope::FleetRead]).unwrap().key;
    assert!(enter(&mut auth, Area::Fleet, Some(&format!("Bearer {key}"))).is_ok());
    let request = sent(fleet::agents());
    assert_eq!(request.bearer, CP_TOKEN);
    assert_eq!(request.url, "http://cp:8080/agents");
    assert!(request.query.is_empty());
    assert!(request.body.is_none());
}

#[test]
fn the_base_address_loses_its_trailing_slashes() {
    assert_eq!(ControlPlane::new("http://cp:8080///", "t").base_url(), "http://cp:8080");
    assert_eq!(ControlPlane::new("http://cp", "t").base_url(), "http://cp");
}

#[test]
fn sessions_create_list_get_events_send_interrupt() {
    let who = all_scopes();

    let call = sessions::create(&who, Ok(session("jarvis", "Hey Jarvis"))).ok().unwrap();
    assert_eq!((call.method, call.path.as_str()), (Method::Post, "/sessions"));
    assert_eq!(
        call.body.unwrap().to_value(),
        value(r#"{"agent_slug": "jarvis", "task": "Hey Jarvis"}"#)
    );

    let call = sessions::list(
        &who,
        &ListQuery {
            agent_slug: Some("jarvis".to_owned()),
            limit: Some(5),
            page: None,
            order: Some("desc".to_owned()),
        },
    )
    .ok()
    .unwrap();
    let path = path_of(&call);
    assert!(path.starts_with("/sessions?"), "{path}");
    assert!(
        path.contains("agent_slug=jarvis")
            && path.contains("limit=5")
            && path.contains("order=desc"),
        "{path}"
    );

    let call = sessions::get(&who, "sesn_1").ok().unwrap();
    assert_eq!((call.method, path_of(&call).as_str()), (Method::Get, "/sessions/sesn_1"));

    let call = sessions::events(
        &who,
        "sesn_1",
        &EventsQuery {
            page: None,
            limit: Some(1),
            types: Some("agent.message,session.error".to_owned()),
            order: Some("desc".to_owned()),
        },
    )
    .ok()
    .unwrap();
    assert_eq!(call.path, "/sessions/sesn_1/events");
    assert!(call
        .query
        .contains(&("types".to_owned(), "agent.message,session.error".to_owned())));
    assert!(call.query.contains(&("limit".to_owned(), "1".to_owned())));
    assert!(call.query.contains(&("order".to_owned(), "desc".to_owned())));
    assert_eq!(call.query.len(), 3);

    let call = sessions::send(
        &who,
        "sesn_1",
        Ok(SendMessage { task: "and the driver version?".to_owned() }),
    )
    .ok()
    .unwrap();
    assert_eq!((call.method, call.path.as_str()), (Method::Post, "/sessions/sesn_1/events"));
    assert_eq!(call.body.unwrap().to_value()["task"], "and the driver version?");

    let call = sessions::interrupt(&who, "sesn_1").ok().unwrap();
    assert_eq!((call.method, call.path.as_str()), (Method::Post, "/sessions/sesn_1/interrupt"));
}

#[test]
fn session_scopes_split_reads_from_writes() {
    let reader = holder(&[Scope::SessionsRead]);
    let writer = holder(&[Scope::SessionsWrite]);
    let all = ListQuery { agent_slug: None, limit: None, page: None, order: None };

    assert!(sessions::list(&reader, &all).is_ok());
    let e = sessions::list(&writer, &all).err().unwrap();
    assert_eq!(e.status(), 403);
    assert!(e.public_message().contains("sessions:read"));

    assert!(sessions::create(&writer, Ok(session("jarvis", "x"))).is_ok());
    let e = sessions::create(&reader, Ok(session("jarvis", "x"))).err().unwrap();
    assert_eq!(e.status(), 403);
    assert!(e.public_message().contains("sessions:write"));
}

#[test]
fn session_validation_happens_before_upstream() {
    let who = all_scopes();
    let e = sessions::create(&who, Ok(session("jarvis", "   "))).err().unwrap();
    assert_eq!(refusal(&e), (400, "invalid_request".to_owned()));

    let e = sessions::get(&who, "../agents").err().unwrap();
    assert_eq!(refusal(&e), (400, "invalid_request".to_owned()));

    // A body that could not be read at all, such as one with unknown fields.
    let e = sessions::create(&who, Err("unknown field `budget`".to_owned())).err().unwrap();
    assert_eq!(refusal(&e), (400, "invalid_request".to_owned()));
    assert_eq!(e.public_message(), "invalid request: unknown field `budget`");
}

#[test]
fn upstream_errors_map_to_our_vocabulary() {
    // unknown_agent 404 → not_found 404
    let e = cp_error(404, "unknown_agent", "unknown agent slug `nope`");
    assert_eq!(refusal(&e), (404, "not_found".to_owned()));
    assert!(e.public_message().contains("nope"));

    // environment_not_provisioned 409 → conflict 409
    let e = cp_error(
        409,
        "environment_not_provisioned",
        "environment `unprovisioned` is defined but not provisioned yet",
    );
    assert_eq!(refusal(&e), (409, "conflict".to_owned()));

    // The model service's own 404 through the control plane → not_found
    let e = cp_error(404, "upstream", "not_found_error: session not found");
    assert_eq!(refusal(&e), (404, "not_found".to_owned()));

    // The model service's own 400 (rendered 502 by the control plane) → invalid_request 400
    let e =
        cp_error(502, "upstream", "invalid_request_error: Invalid session ID: sesn_malformed");
    assert_eq!(refusal(&e), (400, "invalid_request".to_owned()));
    assert!(e.public_message().contains("Invalid session ID"));

    // A genuine upstream failure stays 502 upstream
    let e = cp_error(502, "upstream", "overloaded_error: Overloaded");
    assert_eq!(refusal(&e), (502, "upstream".to_owned()));

    // invalid_request 400 → invalid_request 400
    let e = cp_error(400, "invalid_request", "since: expected RFC 3339");
    assert_eq!(refusal(&e), (400, "invalid_request".to_owned()));
}

#[test]
fn an_error_without_the_envelope_is_read_as_text() {
    let e = upstream_error(502, None, "<html>Bad Gateway</html>");
    assert_eq!(refusal(&e), (502, "upstream".to_owned()));
    assert_eq!(retry_after_secs(Some("17")), Some(17));
    assert_eq!(retry_after_secs(Some("Wed, 21 Oct 2026 07:28:00 GMT")), None);
    assert_eq!(retry_after_secs(Some("-1")), None);
    assert_eq!(retry_after_secs(Some("4294967295")), Some(4294967295));
    assert_eq!(retry_after_secs(Some("4294967296")), None);
    assert_eq!(retry_after_secs(None), None);
}

#[test]
fn stream_is_sse_passthrough() {
    let who = all_scopes();
    let q = StreamQuery { event_deltas: Some("agent.message".to_owned()) };
    let call = sessions::stream(&who, "sesn_1", &q).ok().unwrap();
    assert_eq!(call.method, Method::Get);
    assert_eq!(path_of(&call), "/sessions/sesn_1/stream?event_deltas=agent.message");
    let call = sessions::stream(&who, "sesn_1", &StreamQuery { event_deltas: None }).ok().unwrap();
    assert_eq!(path_of(&call), "/sessions/sesn_1/stream");
}

#[test]
fn usage_json_and_csv() {
    let q = UsageQuery {
        since: Some("2026-09-01".to_owned()),
        until: Some("2026-10-01".to_owned()),
    };
    assert_eq!(path_of(&usage::get(&q)), "/usage?since=2026-09-01&until=2026-10-01");
    let none = UsageQuery { since: None, until: None };
    assert_eq!(path_of(&usage::export_csv(&none)), "/usage/export.csv");
    assert_eq!(path_of(&usage::get(&none)), "/usage");

    let mut auth = AuthState { db: Db::in_memory().unwrap(), limiter: RateLimiter::disabled() };
    let narrow = create_key(&mut auth.db, "narrow", &[Scope::FleetRead]).unwrap().key;
    let e = enter(&mut auth, Area::Usage, Some(&format!("Bearer {narrow}"))).unwrap_err();
    assert_eq!(e.status(), 403);
}

#[test]
fn inference_models_chat_embeddings_and_rig_offline() {
    let call = inference::models();
    assert_eq!((call.method, call.path.as_str()), (Method::Get, "/inference/models"));

    // Buffered chat.
    let body = r#"{"model": "qwen3:8b", "messages": [{"role": "user", "content": "17*23"}], "stream": false}"#;
    let chat = inference::chat(Ok(json(body))).ok().unwrap();
    assert_eq!((chat.call.method, chat.call.path.as_str()), (Method::Post, "/inference/chat"));
    assert_eq!(chat.call.body.unwrap().to_value(), value(body));
    assert_eq!(chat.content_type, "application/json");

    // Streamed chat: NDJSON passthrough.
    let body = r#"{"model": "qwen3:8b", "messages": [{"role": "user", "content": "17*23"}]}"#;
    let chat = inference::chat(Ok(json(body))).ok().unwrap();
    assert_eq!(chat.content_type, "application/x-ndjson");

    // Shape check stops a bad body here.
    let e = inference::chat(Ok(json(r#"{"model": "qwen3:8b"}"#))).err().unwrap();
    assert_eq!(refusal(&e), (400, "invalid_request".to_owned()));
    assert!(e.public_message().contains("messages"));

    // Ollama's own 404 (unknown model) is the caller's problem.
    let e = cp_error(404, "inference", "model 'missing' not found");
    assert_eq!(
        refusal(&e),
        (400, "invalid_request".to_owned()),
        "type and status agree"
    );
    assert!(e.public_message().contains("missing"));

    let body = r#"{"model": "nomic-embed-text", "input": "hello"}"#;
    let call = inference::embeddings(Ok(json(body))).ok().unwrap();
    assert_eq!((call.method, call.path.as_str()), (Method::Post, "/inference/embeddings"));
    assert_eq!(call.body.unwrap().to_value(), value(body));

    // Rig off: 503 rig_offline with Retry-After, from any inference route.
    let e = cp_error(503, "rig_offline", "rig offline: 100.79.233.8:11434: connect error");
    assert_eq!(refusal(&e), (503, "rig_offline".to_owned()));
    assert_eq!(e.retry_after(), Some(5));
}

#[test]
fn a_body_for_the_models_is_an_object_with_the_right_fields() {
    for bad in [
        "[]",
        r#""text""#,
        r#"{"messages": []}"#,
        r#"{"model": 3, "messages": []}"#,
        r#"{"model": "", "messages": []}"#,
        r#"{"model": "m", "messages": "hello"}"#,
        r#"{"model": "m", "messages": {}}"#,
    ] {
        let e = inference::chat(Ok(json(bad))).err().unwrap();
        assert_eq!(refusal(&e), (400, "invalid_request".to_owned()), "{bad}");
    }
    for bad in [r#"{"model": "m"}"#, r#"{"model": "m", "input": 3}"#, r#"{"input": "x"}"#] {
        assert!(inference::embeddings(Ok(json(bad))).is_err(), "{bad}");
    }
    assert!(inference::embeddings(Ok(json(r#"{"model": "m", "input": ["a", "b"]}"#))).is_ok());
    assert!(inference::chat(Err("not JSON".to_owned())).is_err());
    assert!(inference::embeddings(Err("not JSON".to_owned())).is_err());
}

#[test]
fn rig_status_is_three_way() {
    let call = rig::call();
    assert_eq!((call.method, call.path.as_str()), (Method::Get, "/inference/models"));
    let online = rig::rig(
        200,
        r#"{"models":[{"name":"qwen3:8b","size":1},{"name":"nomic-embed-text:latest","size":2}]}"#,
    );
    assert_eq!(
        online.to_json().to_value(),
        value(
            r#"{"configured": true, "online": true, "models": ["qwen3:8b", "nomic-embed-text:latest"], "reason": null}"#
        )
    );

    let offline = rig::rig(
        503,
        r#"{"error": {"type": "rig_offline", "message": "rig offline: deadline has elapsed"}}"#,
    );
    assert!(!offline.online);
    assert!(offline.configured);
    assert!(offline.reason.unwrap().contains("deadline"));

    let absent = rig::rig(404, r#"{"error": {"type": "not_found", "message": "no route"}}"#);
    assert!(!absent.configured);

    // fleet:read, not inference: a dashboard key can see the rig line without
    // being able to run models.
    let mut auth = AuthState { db: Db::in_memory().unwrap(), limiter: RateLimiter::disabled() };
    let dash = create_key(&mut auth.db, "dash", &[Scope::FleetRead]).unwrap().key;
    let header = format!("Bearer {dash}");
    assert!(enter(&mut auth, Area::Fleet, Some(&header)).is_ok());
    assert_eq!(enter(&mut auth, Area::Inference, Some(&header)).unwrap_err().status(), 403);
}

#[test]
fn custom_tools_and_system_suffix_reach_upstream_verbatim() {
    let who = all_scopes();
    let mut body = session("jarvis", "play something");
    body.tools = vec![tool(
        "custom",
        "play_music",
        "Play music on this device.",
        r#"{"type": "object", "properties": {"title": {"type": "string"}}}"#,
    )];
    body.system_suffix = Some("Call me Sir.".to_owned());
    let sent = sessions::create(&who, Ok(body)).ok().unwrap().body.unwrap().to_value();
    assert_eq!(sent["tools"][0]["name"], "play_music");
    assert_eq!(
        sent["tools"][0]["input_schema"]["properties"]["title"]["type"],
        "string"
    );
    assert_eq!(sent["system_suffix"], "Call me Sir.");

    // Validation happens here, before any round trip.
    for bad in [
        tool("agent_toolset_20260401", "x", "d", "{}"),
        tool("custom", "Play Music", "d", "{}"),
        tool("custom", "x", "", "{}"),
        tool("custom", "x", "d", r#""nope""#),
    ] {
        let mut body = session("jarvis", "x");
        body.tools = vec![bad];
        let e = sessions::create(&who, Ok(body)).err().unwrap();
        assert_eq!(refusal(&e), (400, "invalid_request".to_owned()));
    }
}

#[test]
fn tools_are_few_and_distinct() {
    let who = all_scopes();
    let named = |n: usize| -> Vec<CustomTool> {
        (0..n).map(|i| tool("custom", &format!("tool_{i}"), "d", "{}")).collect()
    };
    let mut body = session("jarvis", "x");
    body.tools = named(32);
    assert!(sessions::create(&who, Ok(body)).is_ok());
    let mut body = session("jarvis", "x");
    body.tools = named(33);
    assert!(sessions::create(&who, Ok(body)).is_err());
    let mut body = session("jarvis", "x");
    body.tools = named(3);
    body.tools.push(tool("custom", "tool_1", "again", "{}"));
    assert!(sessions::create(&who, Ok(body)).is_err());
    let mut body = session("jarvis", "x");
    body.system_suffix = Some("é".repeat(4_000));
    assert!(sessions::create(&who, Ok(body)).is_ok());
    let mut body = session("jarvis", "x");
    body.system_suffix = Some("é".repeat(4_001));
    assert!(sessions::create(&who, Ok(body)).is_err());
}

#[test]
fn everything_named_in_a_session_is_forwarded() {
    let who = all_scopes();
    let mut body = session("jarvis", "x");
    body.environment = Some("cloud-default".to_owned());
    body.repositories = vec!["https://github.com/a/b".to_owned()];
    let sent = sessions::create(&who, Ok(body)).ok().unwrap().body.unwrap().to_value();
    assert_eq!(
        sent,
        value(
            r#"{"agent_slug":"jarvis","task":"x","environment":"cloud-default","repositories":["https://github.com/a/b"]}"#
        )
    );
}

#[test]
fn tool_results_route() {
    let who = all_scopes();
    let result = |id: &str, content: &str| ToolResult {
        custom_tool_use_id: id.to_owned(),
        content: content.to_owned(),
        is_error: false,
    };
    let call = sessions::tool_results(
        &who,
        "sesn_1",
        Ok(ToolResults { results: vec![result("sevt_42", "Now playing: Around the World")] }),
    )
    .ok()
    .unwrap();
    assert_eq!(
        (call.method, call.path.as_str()),
        (Method::Post, "/sessions/sesn_1/tool-results")
    );
    let sent = call.body.unwrap().to_value();
    assert_eq!(sent["results"][0]["content"], "Now playing: Around the World");
    assert_eq!(sent["results"][0]["custom_tool_use_id"], "sevt_42");

    let e = sessions::tool_results(&who, "sesn_1", Ok(ToolResults { results: vec![] }))
        .err()
        .unwrap();
    assert_eq!(refusal(&e), (400, "invalid_request".to_owned()));

    let reader = holder(&[Scope::SessionsRead]);
    let e = sessions::tool_results(
        &reader,
        "sesn_1",
        Ok(ToolResults { results: vec![result("sevt_42", "x")] }),
    )
    .err()
    .unwrap();
    assert_eq!(e.status(), 403);
}

#[test]
fn session_client_label_is_forwarded_and_validated() {
    let who = holder(&[Scope::SessionsWrite]);
    let mut body = session("jarvis", "hello");
    body.client = Some("quest".to_owned());
    let sent = sessions::create(&who, Ok(body)).ok().unwrap().body.unwrap().to_value();
    assert_eq!(sent["client"], "quest");

    let mut body = session("jarvis", "hello");
    body.client = Some("Quest 3!".to_owned());
    let e = sessions::create(&who, Ok(body)).err().unwrap();
    assert_eq!(refusal(&e), (400, "invalid_request".to_owned()));
}

#[test]
fn session_model_is_forwarded_and_shape_checked() {
    let who = holder(&[Scope::SessionsWrite]);
    let mut body = session("jarvis", "hello");
    body.model = Some("sonnet-5".to_owned());
    let sent = sessions::create(&who, Ok(body)).ok().unwrap().body.unwrap().to_value();
    assert_eq!(sent["model"], "sonnet-5");

    for bad in ["", "Sonnet Five", "sonnet-5; drop"] {
        let mut body = session("jarvis", "hello");
        body.model = Some(bad.to_owned());
        let e = sessions::create(&who, Ok(body)).err().unwrap();
        assert_eq!(refusal(&e), (400, "invalid_request".to_owned()), "{bad}");
    }
}

#[test]
fn an_id_goes_into_a_path_only_where_it_is_plain() {
    for good in ["sesn_1", "A-b_9", &"x".repeat(128)] {
        assert!(sessions::valid_id(good).is_ok(), "{good}");
    }
    for bad in ["", "a/b", "..", "a b", "a?b", "a%2Fb", "é", &"x".repeat(129)] {
        assert!(sessions::valid_id(bad).is_err(), "{bad}");
    }
}

#[test]
fn tool_result_ids_are_checked_and_errors_marked() {
    let who = all_scopes();
    let one = |id: &str, is_error: bool| ToolResults {
        results: vec![ToolResult {
            custom_tool_use_id: id.to_owned(),
            content: "x".to_owned(),
            is_error,
        }],
    };
    let sent = sessions::tool_results(&who, "s", Ok(one("sevt_1", true)))
        .ok()
        .unwrap()
        .body
        .unwrap()
        .to_value();
    assert_eq!(sent["results"][0]["is_error"], true);
    assert!(sessions::tool_results(&who, "s", Ok(one("", false))).is_err());
    assert!(sessions::tool_results(&who, "s", Err("bad body".to_owned())).is_err());
    assert!(sessions::send(&who, "s", Ok(SendMessage { task: " \n".to_owned() })).is_err());
    assert!(sessions::send(&who, "s", Err("bad body".to_owned())).is_err());
}

#[test]
fn a_control_plane_that_gives_no_answer_is_an_offline_rig() {
    let e = Error::UpstreamTransport(Transport {
        timed_out: false,
        connecting: true,
        text: "connect refused".to_owned(),
    });
    assert_eq!(
        rig::unanswered(&e).to_json().to_value(),
        value(
            r#"{"configured": true, "online": false, "models": [], "reason": "could not reach the control plane"}"#
        )
    );
}
