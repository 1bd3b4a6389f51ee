//! The `keys` command.

use opus_api::auth::keys::{parse, Scope};
use opus_api::cli::{keys_command, KeysAction};
use opus_api::db::{Db, KeyRow};

fn create(name: &str, scopes: &str) -> KeysAction {
    KeysAction::Create { name: name.to_owned(), scopes: scopes.to_owned() }
}

#[test]
fn a_new_key_is_printed_once() {
    let mut db = Db::in_memory().unwrap();
    let lines = keys_command(&mut db, create("mac", "keys:admin, fleet:read")).unwrap();
    assert_eq!(lines.len(), 5);
    let row = db.keys().unwrap().pop().unwrap();
    assert_eq!(lines[0], format!("id:      {}", row.id));
    assert_eq!(lines[1], "name:    mac");
    assert_eq!(lines[2], "scopes:  fleet:read,keys:admin");
    let key = lines[3].strip_prefix("key:     ").unwrap();
    assert_eq!(parse(key).unwrap().0, row.id);
    assert_eq!(lines[4], "(shown once — it is stored only as a hash)");
    assert!(row.scopes.contains(&Scope::KeysAdmin));
}

#[test]
fn a_key_that_cannot_be_made_is_refused() {
    let mut db = Db::in_memory().unwrap();
    let e = keys_command(&mut db, create("mac", "fleet:read,root")).unwrap_err();
    assert_eq!(e.text(), "invalid request: unknown scope `root`");
    assert!(keys_command(&mut db, create("", "fleet:read")).is_err());
    assert!(db.keys().unwrap().is_empty());
}

#[test]
fn keys_are_listed_one_a_line() {
    let mut db = Db::in_memory().unwrap();
    let row = |id: &str, used: Option<&str>, revoked: Option<&str>| KeyRow {
        id: id.to_owned(),
        name: "mac".to_owned(),
        secret_sha256: "h".to_owned(),
        scopes: vec![Scope::FleetRead],
        created_at: "2026-09-19T00:00:00Z".to_owned(),
        last_used_at: used.map(str::to_owned),
        revoked_at: revoked.map(str::to_owned),
    };
    assert!(db.load(row("b2", Some("U"), Some("R"))));
    assert!(db.load(row("a1", None, None)));
    let lines = keys_command(&mut db, KeysAction::List).unwrap();
    let expected = |id: &str, used: &str, mark: &str| {
        format!(
            "{}  {:<16} {:<60} created {}  last used {}  {}",
            id, "mac", "fleet:read", "2026-09-19T00:00:00Z", used, mark
        )
    };
    assert_eq!(lines, [expected("a1", "never", ""), expected("b2", "U", "REVOKED")]);
}

#[test]
fn a_key_is_revoked_once() {
    let mut db = Db::in_memory().unwrap();
    keys_command(&mut db, create("mac", "voice")).unwrap();
    let id = db.keys().unwrap()[0].id.clone();
    let revoke = || KeysAction::Revoke { id: id.clone() };
    assert_eq!(keys_command(&mut db, revoke()).unwrap(), [format!("revoked {id}")]);
    assert_eq!(keys_command(&mut db, revoke()).unwrap_err().kind(), "not_found");
}
