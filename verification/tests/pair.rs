//! A device with no key gets one, approved by a client with `pair:approve`, with
//! the fixed device profile.

use opus_api::auth::keys::Scope;
use opus_api::auth::middleware::AuthState;
use opus_api::auth::rate_limit::{RateLimiter, SECOND};
use opus_api::db::Db;
use opus_api::error::Error;
use opus_api::v1::keys::create_key;
use opus_api::v1::me::me;
use opus_api::v1::pair::{
    approve, approve_from, claim, claim_at, code_from, peer, start, start_from, Approve, Bundle, Claim,
    Claimed, Pairings, TTL,
};
use opus_api::v1::{enter, Area};

fn door() -> AuthState {
    AuthState { db: Db::in_memory().unwrap(), limiter: RateLimiter::disabled() }
}

fn key(auth: &mut AuthState, name: &str, scopes: &[Scope]) -> String {
    create_key(&mut auth.db, name, scopes).unwrap().key
}

fn named(name: &str) -> Approve {
    Approve { name: name.to_owned(), wit_token: None, speaker: None }
}

fn with(token: &str) -> Claim {
    Claim { token: token.to_owned() }
}

fn bundle(claimed: Result<Claimed, Error>) -> Bundle {
    match claimed {
        Ok(Claimed::Collected(bundle)) => bundle,
        Ok(Claimed::Waiting) => panic!("not approved yet"),
        Err(e) => panic!("{e:?}"),
    }
}

#[test]
fn full_round_trip_mints_a_device_key_and_hands_it_over_once() {
    let mut auth = door();
    let mut pairings = Pairings::new();

    // The device starts: no key at all.
    assert!(enter(&mut auth, Area::PairOpen, None).is_ok());
    let started = start(&mut pairings, None).ok().unwrap();
    let code = started.code.clone();
    let token = started.token.clone();
    assert_eq!(code.len(), 6);
    assert!(code.chars().all(|c| c.is_ascii_digit()));
    assert_eq!(token.len(), 64);
    assert_eq!(started.to_json().to_value()["expires_in"], 600);

    // Not approved yet: nothing is handed over.
    assert!(matches!(claim(&mut pairings, &code, &with(&token)), Ok(Claimed::Waiting)));

    // An older key with the device's name exists; approval rotates it out.
    let old = key(&mut auth, "quest-3", &[Scope::SessionsRead]);
    assert!(enter(&mut auth, Area::Me, Some(&format!("Bearer {old}"))).is_ok());

    // The Mac approves.
    let mac = key(&mut auth, "mac", &[Scope::PairApprove]);
    assert!(enter(&mut auth, Area::PairApprove, Some(&format!("Bearer {mac}"))).is_ok());
    let approved = approve(
        &mut pairings,
        &mut auth.db,
        &code,
        Ok(Approve {
            name: "quest-3".to_owned(),
            wit_token: Some("wit-abc".to_owned()),
            speaker: Some("192.168.1.174:48100".to_owned()),
        }),
    )
    .ok()
    .unwrap();
    let wire = approved.to_json().to_value();
    assert_eq!(wire["name"], "quest-3");
    let scopes: Vec<&str> =
        wire["scopes"].as_array().unwrap().iter().map(|s| s.as_str().unwrap()).collect();
    assert_eq!(
        scopes,
        ["fleet:read", "sessions:read", "sessions:write", "voice", "ops:read"],
        "the fixed device profile"
    );
    assert!(wire.get("api_key").is_none(), "the approver never sees the key");

    assert_eq!(
        enter(&mut auth, Area::Me, Some(&format!("Bearer {old}"))).unwrap_err().status(),
        401,
        "the older quest-3 key was revoked"
    );

    // The device collects, once.
    let got = bundle(claim(&mut pairings, &code, &with(&token)));
    assert!(got.api_key.starts_with("osk_"));
    let wire = got.to_json().to_value();
    assert_eq!(wire["api_key"], got.api_key.as_str());
    assert_eq!(wire["wit_token"], "wit-abc");
    assert_eq!(wire["speaker"], "192.168.1.174:48100");
    assert_eq!(wire["key_id"], approved.key_id.as_str());

    let principal = enter(&mut auth, Area::Me, Some(&format!("Bearer {}", got.api_key)))
        .unwrap()
        .unwrap();
    let row = me(&auth.db, &principal).ok().unwrap();
    assert_eq!(row.name, "quest-3");
    assert_eq!(row.scopes.len(), 5);

    let e = claim(&mut pairings, &code, &with(&token)).err().unwrap();
    assert_eq!((e.status(), e.kind()), (404, "not_found"), "gone after the claim");
}

#[test]
fn a_code_alone_collects_nothing_and_a_wrong_code_cannot_be_approved() {
    let mut auth = door();
    let mut pairings = Pairings::new();
    let started = start(&mut pairings, None).ok().unwrap();
    let code = started.code.clone();
    assert!(approve(&mut pairings, &mut auth.db, &code, Ok(named("quest-3"))).is_ok());

    // Wrong token: as if the code did not exist.
    let e = claim(&mut pairings, &code, &with("0000")).err().unwrap();
    assert_eq!((e.status(), e.kind()), (404, "not_found"));
    assert!(claim(&mut pairings, &code, &with("")).is_err());

    // Unknown code cannot be approved; an approved code cannot be approved twice.
    let unknown = if code == "000000" { "000001" } else { "000000" };
    let e = approve(&mut pairings, &mut auth.db, unknown, Ok(named("x"))).err().unwrap();
    assert_eq!(e.status(), 404);
    let e = approve(&mut pairings, &mut auth.db, &code, Ok(named("quest-3"))).err().unwrap();
    assert_eq!(e.status(), 404);
    assert_eq!(auth.db.keys().unwrap().len(), 1);

    // The right token still collects.
    assert_eq!(bundle(claim(&mut pairings, &code, &with(&started.token))).name, "quest-3");
}

#[test]
fn approving_needs_the_scope_and_the_profile_cannot_be_widened() {
    let mut auth = door();
    let mut pairings = Pairings::new();
    let started = start(&mut pairings, None).ok().unwrap();

    let device = key(&mut auth, "quest-3", &[Scope::SessionsWrite, Scope::OpsRead]);
    let e = enter(&mut auth, Area::PairApprove, Some(&format!("Bearer {device}"))).unwrap_err();
    assert_eq!((e.status(), e.kind()), (403, "forbidden"));
    assert_eq!(enter(&mut auth, Area::PairApprove, None).unwrap_err().status(), 401);

    // The body has no way to ask for scopes at all.
    let e = approve(
        &mut pairings,
        &mut auth.db,
        &started.code,
        Err("unknown field `scopes`".to_owned()),
    )
    .err()
    .unwrap();
    assert_eq!(e.status(), 400);
}

#[test]
fn starting_is_rate_limited_per_address() {
    let mut pairings = Pairings::default();
    let mut last = 201;
    for _ in 0..12 {
        match start(&mut pairings, Some("203.0.113.7")) {
            Ok(_) => last = 201,
            Err(e) => {
                last = e.status();
                break;
            }
        }
    }
    assert_eq!(last, 429, "an address cannot mint codes without limit");
    assert!(start(&mut pairings, Some("203.0.113.8")).is_ok());
}

#[test]
fn the_address_is_the_first_that_the_proxy_names() {
    assert_eq!(peer(Some("203.0.113.7, 10.0.0.1")), "203.0.113.7");
    assert_eq!(peer(Some(" 203.0.113.7 ")), "203.0.113.7");
    assert_eq!(peer(None), "unknown");
}

#[test]
fn a_code_is_six_digits_of_the_bytes_drawn() {
    assert_eq!(code_from(&[0, 0, 0, 0]).len(), 6);
    assert_eq!(code_from(&[0, 0, 0, 0]), "000000");
    // Little-endian, the last six decimal digits.
    assert_eq!(code_from(&[0x40, 0x0d, 0x03, 0x00]), "200000");
    assert_eq!(code_from(&[0xff, 0xff, 0xff, 0xff]), "967295");
    for byte in 0..=255u8 {
        let code = code_from(&[byte, 255, byte, 7]);
        assert_eq!(code.len(), 6);
        assert!(code.chars().all(|c| c.is_ascii_digit()));
    }
}

#[test]
fn a_pairing_expires() {
    let mut db = Db::in_memory().unwrap();
    let mut pairings = Pairings::new();
    let token = "ab".repeat(32);
    let drawn = || Some((vec![1, 2, 3, 4], vec![7; 32]));
    let park = |pairings: &mut Pairings| {
        pairings.park("123456".to_owned(), "ab".repeat(32), 5 * SECOND);
    };
    park(&mut pairings);
    assert!(pairings.is_taken("123456"));
    assert!(!pairings.is_taken("654321"));
    // Still there at the last moment.
    let late = 5 * SECOND + TTL;
    assert!(matches!(
        claim_at(&mut pairings, "123456", &with(&token), late - 1),
        Ok(Claimed::Waiting)
    ));
    assert!(claim_at(&mut pairings, "123456", &with(&token), late + 1).is_err());

    // Approving counts from the start too.
    park(&mut pairings);
    let e = approve_from(
        &mut pairings,
        &mut db,
        "123456",
        Ok(named("quest-3")),
        drawn(),
        "2026-09-19T00:00:00Z",
        late + 1,
    )
    .err()
    .unwrap();
    assert_eq!(e.status(), 404);
    assert!(db.keys().unwrap().is_empty());
}

#[test]
fn an_approval_is_checked_first() {
    let mut db = Db::in_memory().unwrap();
    let mut pairings = Pairings::new();
    pairings.park("123456".to_owned(), "t".to_owned(), 0);
    let long = "n".repeat(65);
    let bodies = [
        named(""),
        named(&long),
        Approve {
            name: "quest-3".to_owned(),
            wit_token: None,
            speaker: Some("not an address!".to_owned()),
        },
    ];
    for body in bodies {
        let e = approve_from(
            &mut pairings,
            &mut db,
            "123456",
            Ok(body),
            Some((vec![1, 2, 3, 4], vec![7; 32])),
            "t",
            0,
        )
        .err()
        .unwrap();
        assert_eq!(e.status(), 400);
    }
    // What is empty is not passed on.
    let approved = approve_from(
        &mut pairings,
        &mut db,
        "123456",
        Ok(Approve {
            name: "quest-3".to_owned(),
            wit_token: Some(String::new()),
            speaker: Some(String::new()),
        }),
        Some((vec![1, 2, 3, 4], vec![7; 32])),
        "2026-09-19T00:00:00Z",
        0,
    )
    .ok()
    .unwrap();
    assert_eq!(approved.key_id, "01020304");
    let got = bundle(claim_at(&mut pairings, "123456", &with("t"), 0));
    assert_eq!(got.api_key, format!("osk_01020304_{}", "07".repeat(32)));
    assert_eq!((got.wit_token, got.speaker), (None, None));
}

#[test]
fn a_start_is_what_the_drawn_bytes_write() {
    let mut pairings = Pairings::default();
    let drawn = || Some((vec![0x40, 0x42, 0x0f, 0x00], vec![0xab; 32]));
    // 0x000f4240 is a million: its last six digits are zeros.
    let first = start_from(&mut pairings, "a", drawn(), 0).ok().unwrap().unwrap();
    assert_eq!(first.code, "000000");
    assert_eq!(first.token, "ab".repeat(32));
    assert_eq!(first.expires_in, 600);
    // The code is in use; other bytes have to be drawn.
    assert!(start_from(&mut pairings, "a", drawn(), 1).ok().unwrap().is_none());
    // Without random bytes no pairing is added, but the start counts.
    let e = start_from(&mut pairings, "a", None, 1).err().unwrap();
    assert_eq!((e.status(), e.kind()), (500, "internal"));
    // Ten minutes later the code is free again.
    let ten_minutes = 600_000_000_000;
    assert!(start_from(&mut pairings, "b", drawn(), ten_minutes).ok().unwrap().is_some());
    // The limit comes first, whatever was drawn.
    let mut refused = 0;
    for i in 0..40u8 {
        let e = match start_from(&mut pairings, "c", Some((vec![i, 1, 0, 0], vec![0; 32])), ten_minutes) {
            Ok(_) => continue,
            Err(e) => e,
        };
        assert_eq!(e.status(), 429);
        refused += 1;
    }
    assert!(refused > 0);
    assert_eq!(start_from(&mut pairings, "c", None, ten_minutes).err().unwrap().status(), 429);
}
