//! Keys, scopes, the limiter, and who is let in.

use opus_api::auth::keys::{mint, mint_from, parse, verify, Scope, ScopeSet};
use opus_api::auth::middleware::{authenticate, authenticate_at, require, AuthState, Principal};
use opus_api::auth::rate_limit::{RateLimiter, SECOND};
use opus_api::db::Db;
use opus_api::error::Error;
use opus_api::v1::keys::{create, create_key, create_key_from, list, revoke, scopes_json, CreateKey};
use opus_api::v1::me::me;
use opus_api::v1::{enter, enter_at, is_served, required_scope, Area};

const T0: i128 = 1_789_000_000_000_000_000;

fn door(per_minute: u32) -> AuthState {
    AuthState { db: Db::in_memory().unwrap(), limiter: RateLimiter::new(per_minute) }
}

fn bearer(key: &str) -> String {
    format!("Bearer {key}")
}

fn refusal(e: &Error) -> (u16, String) {
    (e.status(), e.envelope().kind)
}

fn who(auth: &mut AuthState, area: Area, key: Option<&str>) -> Result<Option<Principal>, Error> {
    let header = key.map(bearer);
    enter(auth, area, header.as_deref())
}

#[test]
fn mint_parse_verify() {
    let m = mint().unwrap();
    assert!(m.plaintext.starts_with("osk_"));
    let (id, secret) = parse(&m.plaintext).expect("well-formed");
    assert_eq!(id, m.id);
    assert!(verify(secret, &m.secret_sha256));
    assert!(!verify(&secret.replace('a', "b"), &m.secret_sha256) || !secret.contains('a'));
    let other = mint().unwrap();
    assert!(!verify(secret, &other.secret_sha256));
}

#[test]
fn parse_rejects_malformed() {
    assert!(parse("").is_none());
    assert!(parse("osk_").is_none());
    assert!(parse("osk_abcd_1234").is_none());
    assert!(parse("sk-ant-whatever").is_none());
    let m = mint().unwrap();
    assert!(parse(&m.plaintext[..m.plaintext.len() - 1]).is_none());
    assert!(parse(&format!("{}!", m.plaintext)).is_none());
}

#[test]
fn scopes_parse_and_join() {
    let s = Scope::parse_list(" sessions:write, fleet:read ,fleet:read").unwrap();
    assert_eq!(s, vec![Scope::FleetRead, Scope::SessionsWrite]);
    assert_eq!(Scope::join(&s), "fleet:read,sessions:write");
    assert_eq!(
        Scope::parse_list("fleet:read,admin").unwrap_err(),
        "unknown scope `admin`"
    );
    for sc in Scope::ALL {
        assert_eq!(Scope::parse(sc.as_str()), Some(sc));
        assert_eq!(scopes_json(&[sc]).to_text(), format!("[\"{}\"]", sc.as_str()));
    }
}

#[test]
fn a_key_is_written_from_its_bytes() {
    let m = mint_from(&[0x00, 0x0f, 0xa0, 0xff], &[0xab; 32]);
    assert_eq!(m.id, "000fa0ff");
    assert_eq!(m.plaintext, format!("osk_000fa0ff_{}", "ab".repeat(32)));
    assert_eq!(
        m.secret_sha256,
        "271a413bd339c5709fdceaec41f14f11e9fbfb5042d72d331c65f32b284cd09a"
    );
}

#[test]
fn a_secret_is_stored_as_its_sha256() {
    // The standard test vectors of the hash.
    assert!(verify(
        "abc",
        "ba7816bf8f01cfea414140de5dae2223b00361a396177a9cb410ff61f20015ad"
    ));
    assert!(verify(
        "",
        "e3b0c44298fc1c149afbf4c8996fb92427ae41e4649b934ca495991b7852b855"
    ));
    assert!(!verify(
        "abd",
        "ba7816bf8f01cfea414140de5dae2223b00361a396177a9cb410ff61f20015ad"
    ));
    assert!(!verify(
        "abc",
        "BA7816BF8F01CFEA414140DE5DAE2223B00361A396177A9CB410FF61F20015AD"
    ));
    assert!(!verify("abc", ""));
}

#[test]
fn a_scope_set_holds_what_it_was_made_of() {
    let set = ScopeSet::from_scopes(&[Scope::KeysAdmin, Scope::FleetRead, Scope::KeysAdmin]);
    assert!(set.has(Scope::FleetRead));
    assert!(set.has(Scope::KeysAdmin));
    assert!(!set.has(Scope::Voice));
    assert_eq!(set.iter(), vec![Scope::FleetRead, Scope::KeysAdmin]);
    assert_eq!(set.clone().iter(), set.iter());
    assert!(ScopeSet::from_scopes(&[]).iter().is_empty());
}

#[test]
fn minted_keys_differ() {
    let a = mint().unwrap();
    let b = mint().unwrap();
    assert_ne!(a.plaintext, b.plaintext);
    assert_eq!(a.plaintext.len(), 4 + 8 + 1 + 64);
}

#[test]
fn burst_then_429_then_refill() {
    let mut rl = RateLimiter::new(60); // 1/s sustained, burst 60
    let t0: u64 = 0;
    for _ in 0..60 {
        assert!(rl.check_at("k", t0).is_ok());
    }
    assert_eq!(rl.check_at("k", t0), Err(1));
    // Another key is unaffected.
    assert!(rl.check_at("other", t0).is_ok());
    // 2.5 s later: two tokens back.
    let t1 = t0 + 2_500_000_000;
    assert!(rl.check_at("k", t1).is_ok());
    assert!(rl.check_at("k", t1).is_ok());
    assert!(rl.check_at("k", t1).is_err());
}

#[test]
fn a_refusal_spends_nothing_and_asks_for_one_token_at_most() {
    for rate in [1u32, 7, 59, 60, 61, 300] {
        let mut rl = RateLimiter::new(rate);
        let most = (60 + rate - 1) / rate;
        for i in 0..rate {
            assert!(rl.check_at("k", i as u64).is_ok(), "call {i} of {rate}");
            let _ = rl.check_at("other", i as u64);
        }
        let at = rate as u64;
        for _ in 0..50 {
            let wait = rl.check_at("k", at).unwrap_err();
            assert!(1 <= wait && wait <= most, "{wait} > {most}");
        }
        // Fifty refusals later the token is there as soon as it would have been.
        assert!(rl.check_at("k", at + most as u64 * SECOND).is_ok());
    }
}

#[test]
fn zero_disables() {
    let mut rl = RateLimiter::disabled();
    for _ in 0..1000 {
        assert!(rl.check("k").is_ok());
    }
}

#[test]
fn waiting_as_told_is_enough() {
    let mut rl = RateLimiter::new(7);
    let mut now: u64 = 5 * SECOND;
    for _ in 0..7 {
        assert!(rl.check_at("k", now).is_ok());
    }
    for _ in 0..20 {
        let wait = rl.check_at("k", now).unwrap_err();
        assert!(wait >= 1);
        now += wait as u64 * SECOND;
        assert!(rl.check_at("k", now).is_ok());
    }
}

#[test]
fn the_wait_is_told_in_whole_seconds() {
    // One a minute: the next is a minute away.
    let mut rl = RateLimiter::new(1);
    assert_eq!(rl.check_at("k", 0), Ok(()));
    assert_eq!(rl.check_at("k", 0), Err(60));
    assert_eq!(rl.check_at("k", 59 * SECOND), Err(1));
    assert_eq!(rl.check_at("k", 59 * SECOND + 1), Err(1));
    assert_eq!(rl.check_at("k", 60 * SECOND), Ok(()));
    // A bucket never holds more than a minute's worth.
    assert_eq!(rl.check_at("k", 1_000 * SECOND), Ok(()));
    assert_eq!(rl.check_at("k", 1_000 * SECOND), Err(60));
}

#[test]
fn over_any_time_no_more_is_let_through_than_burst_and_rate() {
    let mut rl = RateLimiter::new(30);
    let mut through = 0u64;
    for ms in 0..20_000u64 {
        if rl.check_at("k", ms * 1_000_000).is_ok() {
            through += 1;
        }
    }
    // 30 at once and one every two seconds.
    assert_eq!(through, 30 + 9);
}

#[test]
fn rate_limit_is_per_key_with_retry_after() {
    let mut auth = door(5);
    let a = create_key(&mut auth.db, "a", &[Scope::FleetRead]).unwrap().key;
    let b = create_key(&mut auth.db, "b", &[Scope::FleetRead]).unwrap().key;
    for _ in 0..5 {
        assert!(enter_at(&mut auth, Area::Me, Some(&bearer(&a)), 0, T0).is_ok());
    }
    let e = enter_at(&mut auth, Area::Me, Some(&bearer(&a)), 0, T0).unwrap_err();
    assert_eq!(refusal(&e), (429, "rate_limited".to_owned()));
    assert_eq!(e.retry_after(), Some(12));
    assert!(
        enter_at(&mut auth, Area::Me, Some(&bearer(&b)), 0, T0).is_ok(),
        "another key is unaffected"
    );
    assert!(
        enter_at(&mut auth, Area::Public, None, 0, T0).is_ok(),
        "public routes are not limited"
    );
}

#[test]
fn me_needs_a_valid_key() {
    let mut auth = door(0);
    let e = who(&mut auth, Area::Me, None).unwrap_err();
    assert_eq!(refusal(&e), (401, "unauthorized".to_owned()));
    let e = who(&mut auth, Area::Me, Some("osk_not_a_key")).unwrap_err();
    assert_eq!(refusal(&e), (401, "unauthorized".to_owned()));

    // Well-formed but unknown id.
    let fake = format!("osk_{}_{}", "0".repeat(8), "f".repeat(64));
    let e = who(&mut auth, Area::Me, Some(&fake)).unwrap_err();
    assert_eq!(e.status(), 401);

    let created =
        create_key(&mut auth.db, "mac", &[Scope::FleetRead, Scope::SessionsRead]).unwrap();
    let principal = who(&mut auth, Area::Me, Some(&created.key)).unwrap().unwrap();
    let json = me(&auth.db, &principal).unwrap().to_json().to_value();
    assert_eq!(json["key_id"], created.id.as_str());
    assert_eq!(json["name"], "mac");
    assert_eq!(
        json["scopes"],
        serde_json::from_str::<serde_json::Value>(r#"["fleet:read","sessions:read"]"#).unwrap()
    );

    // Right id, wrong secret.
    let wrong = format!("osk_{}_{}", created.id, "0".repeat(64));
    assert_eq!(who(&mut auth, Area::Me, Some(&wrong)).unwrap_err().status(), 401);

    // Revoked.
    assert!(auth.db.revoke_key(&created.id).unwrap());
    let e = who(&mut auth, Area::Me, Some(&created.key)).unwrap_err();
    assert_eq!(refusal(&e), (401, "unauthorized".to_owned()));
    // A principal whose row is gone is not found out about either.
    let ghost = Principal {
        key_id: "nobody".to_owned(),
        name: "x".to_owned(),
        scopes: ScopeSet::from_scopes(&[]),
    };
    assert!(me(&auth.db, &ghost).is_err());
}

#[test]
fn only_a_bearer_header_counts() {
    let mut auth = door(0);
    let key = create_key(&mut auth.db, "mac", &[Scope::FleetRead]).unwrap().key;
    assert!(authenticate(&mut auth, Some(&bearer(&key))).is_ok());
    assert!(authenticate(&mut auth, Some(&key)).is_err());
    assert!(authenticate(&mut auth, Some(&format!("bearer {key}"))).is_err());
    assert!(authenticate(&mut auth, Some(&format!("Basic {key}"))).is_err());
    assert!(authenticate(&mut auth, Some("Bearer ")).is_err());
    assert!(authenticate(&mut auth, None).is_err());
}

#[test]
fn a_use_is_recorded_once_a_minute() {
    let mut auth = door(0);
    let created = create_key(&mut auth.db, "mac", &[Scope::FleetRead]).unwrap();
    let header = bearer(&created.key);
    let used = |auth: &AuthState| auth.db.key(&created.id).unwrap().unwrap().last_used_at;
    assert_eq!(used(&auth), None);
    authenticate_at(&mut auth, Some(&header), 0, T0).unwrap();
    let first = used(&auth).unwrap();
    authenticate_at(&mut auth, Some(&header), 0, T0 + 30 * 1_000_000_000).unwrap();
    assert_eq!(used(&auth).unwrap(), first);
    authenticate_at(&mut auth, Some(&header), 0, T0 + 90 * 1_000_000_000).unwrap();
    assert_ne!(used(&auth).unwrap(), first);
}

#[test]
fn keys_admin_scope_gates_key_management() {
    let mut auth = door(0);
    let device = create_key(&mut auth.db, "quest-3", &[Scope::SessionsWrite]).unwrap();
    let admin = create_key(&mut auth.db, "ops", &[Scope::KeysAdmin]).unwrap();

    let e = who(&mut auth, Area::Keys, Some(&device.key)).unwrap_err();
    assert_eq!(refusal(&e), (403, "forbidden".to_owned()));
    assert!(e.public_message().contains("keys:admin"));

    assert!(who(&mut auth, Area::Keys, Some(&admin.key)).unwrap().is_some());
    let json = list(&auth.db).unwrap().to_json().to_value();
    let rows = json["data"].as_array().unwrap();
    assert_eq!(rows.len(), 2);
    assert!(
        rows.iter().all(|k| k.get("secret_sha256").is_none()),
        "listing never shows hashes: {json}"
    );

    // Create over HTTP, then use the returned key.
    let created = create(
        &mut auth.db,
        &CreateKey {
            name: "jarvis-ios".to_owned(),
            scopes: vec![Scope::SessionsRead, Scope::SessionsWrite],
        },
    )
    .unwrap();
    assert!(created.key.starts_with("osk_"));
    let wire = created.to_json().to_value();
    assert_eq!(wire["key"], created.key.as_str());
    let principal = who(&mut auth, Area::Me, Some(&created.key)).unwrap().unwrap();
    assert_eq!(me(&auth.db, &principal).unwrap().name, "jarvis-ios");

    // keys:admin cannot be granted over HTTP.
    let e = create(
        &mut auth.db,
        &CreateKey { name: "evil".to_owned(), scopes: vec![Scope::KeysAdmin] },
    )
    .err()
    .unwrap();
    assert_eq!(refusal(&e), (400, "invalid_request".to_owned()));

    // Revoke, then it stops working; a second revoke is 404.
    assert!(revoke(&mut auth.db, &created.id).is_ok());
    assert_eq!(who(&mut auth, Area::Me, Some(&created.key)).unwrap_err().status(), 401);
    let e = revoke(&mut auth.db, &created.id).unwrap_err();
    assert_eq!(refusal(&e), (404, "not_found".to_owned()));
}

#[test]
fn a_key_needs_a_name_and_a_scope() {
    let mut db = Db::in_memory().unwrap();
    for name in ["", "   ", &"n".repeat(65)] {
        let e = create_key(&mut db, name, &[Scope::Voice]).err().unwrap();
        assert_eq!(refusal(&e), (400, "invalid_request".to_owned()), "{name}");
    }
    assert!(create_key(&mut db, "x", &[]).is_err());
    assert!(create_key(&mut db, &"é".repeat(64), &[Scope::Voice]).is_ok());
    assert_eq!(db.keys().unwrap().len(), 1);
}

#[test]
fn an_id_that_is_taken_is_a_database_failure() {
    let mut db = Db::in_memory().unwrap();
    let make = |db: &mut Db| {
        create_key_from(db, "mac", &[Scope::Voice], &[1, 2, 3, 4], &[9; 32], "2026-09-19T00:00:00Z")
    };
    let first = make(&mut db).unwrap();
    assert_eq!(first.id, "01020304");
    assert_eq!(first.created_at, "2026-09-19T00:00:00Z");
    let e = make(&mut db).err().unwrap();
    assert_eq!(refusal(&e), (500, "internal".to_owned()));
    assert_eq!(db.keys().unwrap().len(), 1);
}

#[test]
fn scopes_gate_the_areas() {
    let mut auth = door(0);
    let areas = [
        Area::Public,
        Area::PairOpen,
        Area::Me,
        Area::Keys,
        Area::Fleet,
        Area::Usage,
        Area::Inference,
        Area::Voice,
        Area::Ops,
        Area::PairApprove,
        Area::Sessions,
    ];
    for area in areas {
        let open = area == Area::Public || area == Area::PairOpen;
        assert_eq!(who(&mut auth, area, None).is_ok(), open, "{area:?}");
    }
    for scope in Scope::ALL {
        let key = create_key(&mut auth.db, scope.as_str(), &[scope]).unwrap().key;
        for area in areas {
            let admitted = match required_scope(area) {
                Some(needed) => needed == scope,
                None => true,
            };
            assert_eq!(who(&mut auth, area, Some(&key)).is_ok(), admitted, "{area:?} {scope:?}");
        }
    }
    assert!(is_served(Area::Fleet, false, 0));
    assert!(!is_served(Area::Voice, false, 3));
    assert!(is_served(Area::Voice, true, 0));
    assert!(!is_served(Area::Ops, true, 0));
    assert!(is_served(Area::Ops, false, 1));
}

#[test]
fn a_scope_is_asked_of_the_principal() {
    let reader = Principal {
        key_id: "k".to_owned(),
        name: "reader".to_owned(),
        scopes: ScopeSet::from_scopes(&[Scope::SessionsRead]),
    };
    assert!(reader.require(Scope::SessionsRead).is_ok());
    let e = reader.require(Scope::SessionsWrite).unwrap_err();
    assert_eq!(refusal(&e), (403, "forbidden".to_owned()));
    assert!(e.public_message().contains("sessions:write"));
    assert!(require(Scope::SessionsRead, Some(&reader)).is_ok());
    assert_eq!(require(Scope::SessionsRead, None).unwrap_err().status(), 401);
    assert_eq!(require(Scope::Voice, Some(&reader.clone())).unwrap_err().status(), 403);
}
