//! The table of keys.

use opus_api::auth::keys::Scope;
use opus_api::clock::now;
use opus_api::db::{Db, KeyRow};

const T0: i128 = 1_789_000_000_000_000_000;
const SECOND: i128 = 1_000_000_000;

fn row(id: &str) -> KeyRow {
    KeyRow {
        id: id.into(),
        name: "test".into(),
        secret_sha256: "ab".repeat(32),
        scopes: vec![Scope::FleetRead, Scope::SessionsWrite],
        created_at: now(),
        last_used_at: None,
        revoked_at: None,
    }
}

fn row_at(id: &str, created_at: &str) -> KeyRow {
    KeyRow { created_at: created_at.to_owned(), ..row(id) }
}

#[test]
fn insert_read_revoke_round_trip() {
    let mut db = Db::in_memory().unwrap();
    db.insert_key(&row("k1")).unwrap();
    let k = db.key("k1").unwrap().unwrap();
    assert_eq!(k.scopes, vec![Scope::FleetRead, Scope::SessionsWrite]);
    assert!(k.revoked_at.is_none());
    assert!(db.revoke_key("k1").unwrap());
    assert!(!db.revoke_key("k1").unwrap(), "second revoke is a no-op");
    assert!(db.key("k1").unwrap().unwrap().revoked_at.is_some());
    assert!(db.key("nope").unwrap().is_none());
    assert_eq!(db.keys().unwrap().len(), 1);
}

#[test]
fn touch_writes_at_most_once_a_minute() {
    let mut db = Db::in_memory().unwrap();
    db.insert_key(&row("k1")).unwrap();
    db.touch_key("k1").unwrap();
    let first = db.key("k1").unwrap().unwrap().last_used_at.unwrap();
    db.touch_key("k1").unwrap();
    let second = db.key("k1").unwrap().unwrap().last_used_at.unwrap();
    assert_eq!(first, second);
}

#[test]
fn a_use_is_written_again_after_a_minute() {
    let mut db = Db::in_memory().unwrap();
    db.insert_key(&row("k1")).unwrap();
    let used = |db: &Db| db.key("k1").unwrap().unwrap().last_used_at.unwrap();
    db.touch_key_at("k1", T0).unwrap();
    let first = used(&db);
    db.touch_key_at("k1", T0 + 59 * SECOND).unwrap();
    assert_eq!(used(&db), first);
    db.touch_key_at("k1", T0 + 61 * SECOND).unwrap();
    let later = used(&db);
    assert!(later > first);
    db.touch_key_at("nope", T0).unwrap();
    assert_eq!(db.keys().unwrap().len(), 1);
}

#[test]
fn a_revocation_is_dated_once() {
    let mut db = Db::in_memory().unwrap();
    db.insert_key(&row("k1")).unwrap();
    db.insert_key(&row("k2")).unwrap();
    assert!(db.revoke_key_at("k1", "2026-09-19T00:00:00Z").unwrap());
    assert!(!db.revoke_key_at("k1", "2026-09-20T00:00:00Z").unwrap());
    assert!(!db.revoke_key_at("nope", "2026-09-20T00:00:00Z").unwrap());
    assert_eq!(
        db.key("k1").unwrap().unwrap().revoked_at.as_deref(),
        Some("2026-09-19T00:00:00Z")
    );
    assert!(db.key("k2").unwrap().unwrap().revoked_at.is_none(), "other rows stay");
}

#[test]
fn keys_are_listed_oldest_first() {
    let mut db = Db::in_memory().unwrap();
    for (id, at) in [("c", "2026-02"), ("b", "2026-01"), ("a", "2026-02"), ("d", "2025-12")] {
        db.insert_key(&row_at(id, at)).unwrap();
    }
    let ids: Vec<String> = db.keys().unwrap().into_iter().map(|k| k.id).collect();
    assert_eq!(ids, ["d", "b", "a", "c"]);
}

#[test]
fn an_id_is_inserted_once() {
    let mut db = Db::in_memory().unwrap();
    db.insert_key(&row("k1")).unwrap();
    assert!(db.insert_key(&row("k1")).is_err());
    assert!(!db.load(row("k1")));
    assert!(db.load(row("k2")));
    assert_eq!(db.keys().unwrap().len(), 2);
}

#[test]
fn scopes_are_stored_as_text() {
    let stored = |scopes: &str| {
        KeyRow::from_columns(
            "k".to_owned(),
            "n".to_owned(),
            "h".to_owned(),
            scopes,
            "t".to_owned(),
            None,
            Some("r".to_owned()),
        )
    };
    let k = stored("sessions:write,fleet:read");
    assert_eq!(k.scopes, vec![Scope::FleetRead, Scope::SessionsWrite]);
    assert_eq!(k.revoked_at.as_deref(), Some("r"));
    assert!(k.scope_set().has(Scope::FleetRead));
    assert!(!k.scope_set().has(Scope::KeysAdmin));
    // A column that does not read grants nothing.
    assert!(stored("fleet:read,root").scopes.is_empty());
    let copy = k.clone();
    assert_eq!((copy.id, copy.scopes), (k.id, k.scopes));
}
