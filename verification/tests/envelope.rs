//! The error envelope, request ids, and the public documents.

use opus_api::auth::keys::Scope;
use opus_api::db::Db;
use opus_api::error::{envelope_for_status, envelope_with_phrase, Class, Error, Transport};
use opus_api::request_id::{assign, choose_id, error_body, RequestId, HEADER};
use opus_api::v1::health::health;
use opus_api::v1::keys::create_key;

fn upstream(status: u16, kind: &str, message: &str) -> Error {
    Error::Upstream {
        status,
        kind: kind.to_owned(),
        message: message.to_owned(),
        retry_after: None,
    }
}

fn transport(timed_out: bool) -> Error {
    Error::UpstreamTransport(Transport { timed_out, connecting: false, text: "reset".to_owned() })
}

#[test]
fn health_is_public_and_versioned() {
    let json = health("1.2.3").to_json().to_value();
    assert_eq!(json["status"], "ok");
    assert_eq!(json["version"], "1.2.3");
    assert_eq!(HEADER, "x-request-id");
    assert!(assign(None).is_some());
}

#[test]
fn axum_rejections_wear_the_envelope_too() {
    // Unknown route.
    assert_eq!(envelope_for_status(404, "").kind, "not_found");
    // Wrong method on a known route.
    assert_eq!(envelope_for_status(405, "").kind, "method_not_allowed");
    // Malformed JSON body, unknown field.
    for status in [400, 415, 422, 413] {
        assert_eq!(envelope_for_status(status, "Failed to parse").kind, "invalid_request");
    }
    assert_eq!(envelope_for_status(422, "Failed to parse").message, "Failed to parse");
    // With nothing said, the status speaks.
    assert_eq!(envelope_for_status(405, "").message, "method not allowed");
    assert_eq!(envelope_with_phrase(404, Some("Not Found"), "").message, "no such route");
    assert_eq!(envelope_for_status(503, "").message, "service unavailable");
    assert_eq!(envelope_with_phrase(599, None, "").message, "error");
    assert_eq!(envelope_for_status(500, "boom").kind, "internal");
}

#[test]
fn request_id_is_honoured_when_sane_and_replaced_otherwise() {
    assert_eq!(assign(Some("quest-42_abc")).unwrap().0, "quest-42_abc");

    let id = assign(Some("has spaces; and=bad")).unwrap();
    assert!(id.0.starts_with("req_"), "{}", id.0);
    let body = error_body(Error::NotFound.envelope(), &id).to_json().to_value();
    assert_eq!(body["error"]["request_id"], id.0.as_str(), "body id matches the header");
    assert_eq!(body["error"]["type"], "not_found");
    assert!(body["error"]["message"].is_string());
}

#[test]
fn a_request_id_is_short_and_plain() {
    let bytes = [0u8, 1, 2, 3, 0xfc, 0xfd, 0xfe, 0xff];
    let fresh = "req_00010203fcfdfeff";
    assert_eq!(choose_id(None, &bytes).0, fresh);
    assert_eq!(choose_id(Some(""), &bytes).0, fresh);
    assert_eq!(choose_id(Some(&"a".repeat(64)), &bytes).0, "a".repeat(64));
    assert_eq!(choose_id(Some(&"a".repeat(65)), &bytes).0, fresh);
    assert_eq!(choose_id(Some("é"), &bytes).0, fresh);
    // A fresh one would be honoured itself.
    assert_eq!(choose_id(Some(fresh), &[9; 8]).0, fresh);
    let (a, b) = (assign(None).unwrap().0, assign(None).unwrap().0);
    assert_ne!(a, b);
    assert_eq!(a.len(), 20);
    assert_eq!(RequestId(a.clone()).0, a);
}

#[test]
fn every_error_has_its_kind_and_status() {
    let cases = [
        (Error::Config("x".to_owned()), "internal", 500),
        (Error::Unauthorized, "unauthorized", 401),
        (Error::Forbidden("keys:admin"), "forbidden", 403),
        (Error::NotFound, "not_found", 404),
        (Error::InvalidRequest("x".to_owned()), "invalid_request", 400),
        (Error::RateLimited { retry_after_secs: 3 }, "rate_limited", 429),
        (Error::Db("x".to_owned()), "internal", 500),
        (upstream(404, "unknown_agent", "m"), "not_found", 404),
        (upstream(409, "environment_not_provisioned", "m"), "conflict", 409),
        (upstream(400, "invalid_request", "m"), "invalid_request", 400),
        (upstream(503, "rig_offline", "m"), "rig_offline", 503),
        (upstream(502, "upstream", "overloaded_error: m"), "upstream", 502),
        (upstream(502, "upstream", "invalid_request_error: m"), "invalid_request", 400),
        (transport(false), "upstream", 502),
    ];
    for (e, kind, status) in cases {
        assert_eq!((e.kind(), e.status()), (kind, status), "{e:?}");
        assert_eq!(e.envelope().kind, kind);
        assert!(e.class() == e.class());
    }
    assert!(Error::NotFound.class() == Class::NotFound);
}

#[test]
fn what_failed_inside_is_not_told() {
    for e in [Error::Db("/data/opus.db".to_owned()), Error::Config("/data/opus.db".to_owned())] {
        assert!(e.text().contains("/data/opus.db"));
        assert!(!e.public_message().contains("/data/opus.db"));
        assert!(!e.envelope().message.contains("/data/opus.db"));
    }
    assert_eq!(Error::Forbidden("keys:admin").public_message(), "missing scope `keys:admin`");
    assert_eq!(Error::InvalidRequest("x".to_owned()).text(), "invalid request: x");
    assert_eq!(upstream(404, "k", "m").text(), "upstream 404: k: m");
}

#[test]
fn who_should_wait_is_told_how_long() {
    assert_eq!(Error::RateLimited { retry_after_secs: 3 }.retry_after(), Some(3));
    let e = Error::Upstream {
        status: 503,
        kind: "rig_offline".to_owned(),
        message: String::new(),
        retry_after: Some(5),
    };
    assert_eq!(e.retry_after(), Some(5));
    assert_eq!(Error::NotFound.retry_after(), None);
}

#[test]
fn a_database_failure_is_internal() {
    let mut db = Db::in_memory().unwrap();
    let created = create_key(&mut db, "a", &[Scope::Voice]).unwrap();
    let row = db.key(&created.id).unwrap().unwrap();
    let e = db.insert_key(&row).unwrap_err();
    assert_eq!(e.kind(), "internal");
}

#[test]
fn a_rejected_credential_is_not_echoed() {
    let rejected = |kind: &str, message: &str| Error::Upstream {
        status: 401,
        kind: kind.to_owned(),
        message: message.to_owned(),
        retry_after: None,
    };
    let one = rejected("upstream", "bearer abc is wrong").public_message();
    assert_eq!(one, "the gateway's control-plane credential was rejected");
    assert_eq!(rejected("unauthorized", "no").public_message(), one);
    assert_eq!(rejected("voice", "said").public_message(), "said");
}
