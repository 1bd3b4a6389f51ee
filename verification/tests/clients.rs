//! Who the clients are: one line for a name.

use opus_api::auth::keys::Scope;
use opus_api::db::{Db, KeyRow};
use opus_api::v1::clients::{clients_of, list};

fn row(id: &str, name: &str, created: &str, used: Option<&str>, revoked: bool) -> KeyRow {
    KeyRow {
        id: id.to_owned(),
        name: name.to_owned(),
        secret_sha256: "h".to_owned(),
        scopes: vec![Scope::FleetRead],
        created_at: created.to_owned(),
        last_used_at: used.map(str::to_owned),
        revoked_at: if revoked { Some("r".to_owned()) } else { None },
    }
}

#[test]
fn live_keys_of_a_name_are_one_client() {
    let mut db = Db::in_memory().unwrap();
    assert!(db.load(row("1", "quest-3", "2026-02", Some("2026-05"), false)));
    assert!(db.load(row("2", "quest-3", "2026-01", Some("2026-06"), false)));
    assert!(db.load(row("3", "mac", "2026-03", None, false)));
    assert!(db.load(row("4", "old", "2025-01", Some("2026-07"), true)));
    assert!(db.load(row("5", "quest-3", "2025-01", Some("2026-09"), true)));
    let wire = list(&db).ok().unwrap().to_json().to_value();
    let data = wire["data"].as_array().unwrap();
    assert_eq!(data.len(), 2);
    let quest = data.iter().find(|c| c["name"] == "quest-3").unwrap();
    assert_eq!(quest["last_seen_at"], "2026-06");
    assert_eq!(quest["since"], "2026-02");
    let mac = data.iter().find(|c| c["name"] == "mac").unwrap();
    assert!(mac["last_seen_at"].is_null());
    assert_eq!(mac["since"], "2026-03");
}

#[test]
fn no_rows_no_clients() {
    assert!(clients_of(&vec![]).is_empty());
    assert!(clients_of(&vec![row("1", "x", "t", None, true)]).is_empty());
    let one = clients_of(&vec![row("1", "x", "t", Some("u"), false)]);
    assert_eq!(one.len(), 1);
    assert_eq!(one[0].to_json().to_value()["name"], "x");
}

#[test]
fn a_listing_does_not_depend_on_id_secret_or_scopes() {
    let one = row("1", "mac", "2026-03", Some("2026-05"), false);
    let mut other = row("9", "mac", "2026-03", Some("2026-05"), false);
    other.secret_sha256 = "another".to_owned();
    other.scopes = vec![Scope::KeysAdmin];
    let a = clients_of(&vec![one])[0].to_json().to_value();
    let b = clients_of(&vec![other])[0].to_json().to_value();
    assert_eq!(a, b);
    assert_eq!(a.as_object().unwrap().len(), 3);
}
