//! `/v1/keys`: key administration, `keys:admin` only. The plaintext is returned
//! exactly once, from `create`; nothing can show it again.

use crate::auth::keys::{self, in_order, mint_from, scope_names, stored_hash, Scope, ScopeSet, ID_BYTES, PREFIX, SECRET_BYTES};
use crate::auth::middleware::{holder, opens};
use crate::clock::{stamp, stamp_text, unix_nanos};
use crate::db::{inserted, lists, revoked, Db, KeyRow, KeyRowView};
use crate::error::{outcome, Error, ErrorView, Result};
use crate::json::{field, has_just, items_field, text_array_view, text_field, text_or_null, Json, JsonView, Object};
use crate::text::{hex_of, hex_of_is_hex, trim, trimmed};
use crate::v1::sessions::bad;
use vstd::prelude::*;

verus! {

/// The longest name of a key, in characters.
pub const NAME_MAX_CHARS: usize = 64;

pub struct CreateKey {
    /// Who holds it: "mac", "quest-3", "jarvis-ios". 1 to 64 characters.
    pub name: String,
    /// At least one. `keys:admin` cannot be granted over HTTP: only the command
    /// line on the host mints admin keys.
    pub scopes: Vec<Scope>,
}

pub struct CreatedKey {
    pub id: String,
    pub name: String,
    pub scopes: Vec<Scope>,
    pub created_at: String,
    /// Shown once. Store it; it cannot be retrieved.
    pub key: String,
}

#[verifier::ext_equal]
pub struct CreatedKeyView {
    pub id: Seq<char>,
    pub name: Seq<char>,
    pub scopes: Seq<Scope>,
    pub created_at: Seq<char>,
    pub key: Seq<char>,
}

impl View for CreatedKey {
    type V = CreatedKeyView;

    open spec fn view(&self) -> CreatedKeyView {
        CreatedKeyView {
            id: self.id@,
            name: self.name@,
            scopes: self.scopes@,
            created_at: self.created_at@,
            key: self.key@,
        }
    }
}

impl DeepView for CreatedKey {
    type V = CreatedKeyView;

    open spec fn deep_view(&self) -> CreatedKeyView {
        self@
    }
}

pub struct KeyList {
    pub data: Vec<KeyRow>,
}

/// What is wrong with a request for a key, if anything is.
pub open spec fn key_fault(name: Seq<char>, scopes: Seq<Scope>) -> Option<Seq<char>> {
    if !(0 < trimmed(name).len() <= NAME_MAX_CHARS) {
        Some("name must be 1–64 characters"@)
    } else if scopes.len() == 0 {
        Some("at least one scope"@)
    } else {
        None
    }
}

/// The row of a key with that name and those scopes, written from those bytes.
pub open spec fn key_row(
    name: Seq<char>,
    scopes: Seq<Scope>,
    id: Seq<u8>,
    secret: Seq<u8>,
    created_at: Seq<char>,
) -> KeyRowView {
    KeyRowView {
        id: hex_of(id),
        name: trimmed(name),
        secret_sha256: stored_hash(hex_of(secret)),
        scopes: in_order(scopes.to_set()),
        created_at,
        last_used_at: None,
        revoked_at: None,
    }
}

/// What is returned for a row: what it holds, and the key itself.
pub open spec fn created_key(row: KeyRowView, key: Seq<char>) -> CreatedKeyView {
    CreatedKeyView {
        id: row.id,
        name: row.name,
        scopes: row.scopes,
        created_at: row.created_at,
        key,
    }
}

/// What a request for a key does, given the bytes that the key is written from
/// and the moment: a good one is stored and returned, unless its id is taken.
pub open spec fn key_created(
    before: Map<Seq<char>, KeyRowView>,
    after: Map<Seq<char>, KeyRowView>,
    name: Seq<char>,
    scopes: Seq<Scope>,
    id: Seq<u8>,
    secret: Seq<u8>,
    created_at: Seq<char>,
    r: std::result::Result<CreatedKeyView, ErrorView>,
) -> bool {
    let row = key_row(name, scopes, id, secret, created_at);
    match key_fault(name, scopes) {
        Some(fault) => r == bad::<CreatedKeyView>(fault) && after == before,
        None => if before.contains_key(row.id) {
            &&& r == Err::<CreatedKeyView, ErrorView>(
                ErrorView::Db("UNIQUE constraint failed: api_keys.id"@),
            )
            &&& after == before
        } else {
            &&& r == Ok::<CreatedKeyView, ErrorView>(
                created_key(row, PREFIX@ + hex_of(id) + "_"@ + hex_of(secret)),
            )
            &&& after == before.insert(row.id, row)
        },
    }
}

/// Validates and stores a new key; shared with the command line, which is the
/// only path allowed to include `keys:admin`. The bytes that the key is written
/// from are left to chance; where the system has none to give, nothing is
/// stored.
pub fn create_key(db: &mut Db, name: &str, scopes: &[Scope]) -> (r: Result<CreatedKey>)
    requires
        old(db).wf(),
    ensures
        final(db).wf(),
        ({
            ||| drawn_key_created(old(db)@, final(db)@, name@, scopes@, outcome(r))
            ||| outcome(r) == Err::<CreatedKeyView, ErrorView>(
                ErrorView::Config("os randomness"@),
            ) && final(db)@ == old(db)@ && key_fault(name@, scopes@) is None
        }),
{
    match checked_name(name, scopes) {
        Ok(_) => {},
        Err(e) => {
            proof {
                let id = Seq::new(ID_BYTES as nat, |i: int| 0u8);
                let secret = Seq::new(SECRET_BYTES as nat, |i: int| 0u8);
                let at = stamp_text(0);
                assert(key_created(old(db)@, db@, name@, scopes@, id, secret, at, Err(e@)));
            }
            return Err(e);
        },
    }
    let id = match keys::random_bytes(ID_BYTES) {
        Some(id) => id,
        None => {
            return Err(Error::Config("os randomness".to_owned()));
        },
    };
    let secret = match keys::random_bytes(SECRET_BYTES) {
        Some(secret) => secret,
        None => {
            return Err(Error::Config("os randomness".to_owned()));
        },
    };
    let nanos: i128 = unix_nanos();
    let at = stamp(nanos);
    let r = create_key_from(db, name, scopes, id.as_slice(), secret.as_slice(), at.as_str());
    assert(key_created(
        old(db)@,
        db@,
        name@,
        scopes@,
        id@,
        secret@,
        stamp_text(nanos),
        outcome(r),
    ));
    r
}

/// The same for some bytes, as many as a key has, and some moment.
pub open spec fn drawn_key_created(
    before: Map<Seq<char>, KeyRowView>,
    after: Map<Seq<char>, KeyRowView>,
    name: Seq<char>,
    scopes: Seq<Scope>,
    r: std::result::Result<CreatedKeyView, ErrorView>,
) -> bool {
    exists|id: Seq<u8>, secret: Seq<u8>, nanos: i128|
        id.len() == ID_BYTES && secret.len() == SECRET_BYTES && #[trigger] key_created(
            before,
            after,
            name,
            scopes,
            id,
            secret,
            stamp_text(nanos),
            r,
        )
}

/// The name without white space around it, where the request is good.
fn checked_name<'a>(name: &'a str, scopes: &[Scope]) -> (r: Result<&'a str>)
    ensures
        match key_fault(name@, scopes@) {
            Some(fault) => r matches Err(e) && e@ == ErrorView::InvalidRequest(fault),
            None => r matches Ok(name_trimmed) && name_trimmed@ == trimmed(name@),
        },
{
    let name = trim(name);
    let n: usize = name.unicode_len();
    if n == 0 || n > NAME_MAX_CHARS {
        return Err(Error::InvalidRequest("name must be 1–64 characters".to_owned()));
    }
    if scopes.len() == 0 {
        return Err(Error::InvalidRequest("at least one scope".to_owned()));
    }
    Ok(name)
}

/// Validates and stores the key that those bytes write.
pub fn create_key_from(
    db: &mut Db,
    name: &str,
    scopes: &[Scope],
    id: &[u8],
    secret: &[u8],
    created_at: &str,
) -> (r: Result<CreatedKey>)
    requires
        old(db).wf(),
    ensures
        final(db).wf(),
        key_created(
            old(db)@,
            final(db)@,
            name@,
            scopes@,
            id@,
            secret@,
            created_at@,
            outcome(r),
        ),
{
    let checked = match checked_name(name, scopes) {
        Ok(checked) => checked,
        Err(e) => {
            return Err(e);
        },
    };
    let scopes = ScopeSet::from_scopes(scopes).iter();
    let minted = mint_from(id, secret);
    let row = KeyRow {
        id: minted.id,
        name: checked.to_owned(),
        secret_sha256: minted.secret_sha256,
        scopes,
        created_at: created_at.to_owned(),
        last_used_at: None,
        revoked_at: None,
    };
    assert(inserted(row@) == row@);
    match db.insert_key(&row) {
        Ok(()) => {},
        Err(e) => {
            return Err(e);
        },
    }
    Ok(
        CreatedKey {
            id: row.id,
            name: row.name,
            scopes: row.scopes,
            created_at: row.created_at,
            key: minted.plaintext,
        },
    )
}

/// What a request for a key over HTTP comes to: as on the command line, but one
/// for `keys:admin` is refused and changes nothing.
pub open spec fn requested_key_created(
    before: Map<Seq<char>, KeyRowView>,
    after: Map<Seq<char>, KeyRowView>,
    name: Seq<char>,
    scopes: Seq<Scope>,
    r: std::result::Result<CreatedKeyView, ErrorView>,
) -> bool {
    if scopes.contains(Scope::KeysAdmin) {
        &&& r == bad::<CreatedKeyView>(
            "keys:admin can only be minted with `opus-api keys create` on the host"@,
        )
        &&& after == before
    } else {
        ||| drawn_key_created(before, after, name, scopes, r)
        ||| r == Err::<CreatedKeyView, ErrorView>(ErrorView::Config("os randomness"@)) && after
            == before && key_fault(name, scopes) is None
    }
}

/// `POST /keys`: as the command line, but without `keys:admin`.
pub fn create(db: &mut Db, body: &CreateKey) -> (r: Result<CreatedKey>)
    requires
        old(db).wf(),
    ensures
        final(db).wf(),
        requested_key_created(old(db)@, final(db)@, body.name@, body.scopes@, outcome(r)),
{
    let asked = ScopeSet::from_scopes(body.scopes.as_slice());
    if asked.has(Scope::KeysAdmin) {
        return Err(
            Error::InvalidRequest(
                "keys:admin can only be minted with `opus-api keys create` on the host".to_owned(),
            ),
        );
    }
    create_key(db, body.name.as_str(), body.scopes.as_slice())
}

/// `GET /keys`: every key, oldest first.
pub fn list(db: &Db) -> (r: Result<KeyList>)
    requires
        db.wf(),
    ensures
        r matches Ok(list) && lists(list.data.deep_view(), db@),
{
    match db.keys() {
        Ok(data) => Ok(KeyList { data }),
        Err(e) => Err(e),
    }
}

/// `DELETE /keys/{id}`: not found if there is no such key or it is revoked
/// already.
pub fn revoke(db: &mut Db, id: &str) -> (r: Result<()>)
    requires
        old(db).wf(),
    ensures
        final(db).wf(),
        exists|nanos: i128|
            #![trigger stamp_text(nanos)]
            final(db)@ == revoked(old(db)@, id@, stamp_text(nanos)),
        outcome(r) == (if old(db)@.contains_key(id@) && old(db)@[id@].revoked_at is None {
            Ok(())
        } else {
            Err(ErrorView::NotFound)
        }),
{
    match db.revoke_key(id) {
        Ok(true) => Ok(()),
        Ok(false) => Err(Error::NotFound),
        Err(e) => Err(e),
    }
}

// ---- documents -----------------------------------------------------------------

/// The scopes by their names.
pub open spec fn scopes_document(scopes: Seq<Scope>) -> JsonView {
    text_array_view(scope_names(scopes))
}

/// The scopes by their names.
pub fn scopes_json(scopes: &[Scope]) -> (r: Json)
    ensures
        r@ == scopes_document(scopes@),
{
    let mut names: Vec<String> = Vec::new();
    let n: usize = scopes.len();
    for i in 0..n
        invariant
            n == scopes@.len(),
            names.deep_view() == scope_names(scopes@.take(i as int)),
    {
        let ghost earlier = names.deep_view();
        names.push(scopes[i].as_str().to_owned());
        assert(names.deep_view() =~= earlier.push(keys::scope_name(scopes@[i as int])));
        assert(scope_names(scopes@.take(i + 1)) =~= earlier.push(
            keys::scope_name(scopes@[i as int]),
        ));
    }
    assert(scopes@.take(n as int) =~= scopes@);
    Json::text_array(&names)
}

/// A row as a listing shows it: everything but the hash.
pub open spec fn row_document(row: KeyRowView) -> JsonView {
    JsonView::Object(
        map![
            "id"@ => JsonView::Text(row.id),
            "name"@ => JsonView::Text(row.name),
            "scopes"@ => scopes_document(row.scopes),
            "created_at"@ => JsonView::Text(row.created_at),
            "last_used_at"@ => text_or_null(row.last_used_at),
            "revoked_at"@ => text_or_null(row.revoked_at),
        ],
    )
}

fn as_deref(text: &Option<String>) -> (r: Option<&str>)
    ensures
        r.deep_view() == text.deep_view(),
{
    match text {
        Some(text) => Some(text.as_str()),
        None => None,
    }
}

/// A row as a listing shows it.
pub fn row_json(row: &KeyRow) -> (r: Json)
    ensures
        r@ == row_document(row@),
{
    let mut o = Object::new();
    o.put_text("id", row.id.as_str());
    o.put_text("name", row.name.as_str());
    o.put("scopes", scopes_json(row.scopes.as_slice()));
    o.put_text("created_at", row.created_at.as_str());
    o.put("last_used_at", Json::optional_text(as_deref(&row.last_used_at)));
    o.put("revoked_at", Json::optional_text(as_deref(&row.revoked_at)));
    assert(o@ =~= row_document(row@)->Object_0);
    Json::Object(o)
}

/// The rows as a listing shows them.
pub open spec fn list_document(rows: Seq<KeyRowView>) -> JsonView {
    JsonView::Object(
        map![
            "data"@ => JsonView::Array(rows.map_values(|row: KeyRowView| row_document(row))),
        ],
    )
}

impl KeyList {
    /// `{"data": […]}`.
    pub fn to_json(&self) -> (r: Json)
        ensures
            r@ == list_document(self.data.deep_view()),
    {
        let mut rows: Vec<Json> = Vec::new();
        let n: usize = self.data.len();
        for i in 0..n
            invariant
                n == self.data@.len(),
                rows@.len() == i,
                forall|k: int|
                    0 <= k < i ==> (#[trigger] rows@[k])@ == row_document(self.data@[k]@),
        {
            rows.push(row_json(&self.data[i]));
        }
        let all = Json::array(rows);
        let ghost want = self.data.deep_view().map_values(|row: KeyRowView| row_document(row));
        assert(rows.deep_view() =~= want);
        let mut o = Object::new();
        o.put("data", all);
        assert(o@ =~= map!["data"@ => JsonView::Array(want)]);
        Json::Object(o)
    }
}

/// A new key, with the plaintext.
pub open spec fn created_document(created: CreatedKeyView) -> JsonView {
    JsonView::Object(
        map![
            "id"@ => JsonView::Text(created.id),
            "name"@ => JsonView::Text(created.name),
            "scopes"@ => scopes_document(created.scopes),
            "created_at"@ => JsonView::Text(created.created_at),
            "key"@ => JsonView::Text(created.key),
        ],
    )
}

impl CreatedKey {
    pub fn to_json(&self) -> (r: Json)
        ensures
            r@ == created_document(self@),
    {
        let mut o = Object::new();
        o.put_text("id", self.id.as_str());
        o.put_text("name", self.name.as_str());
        o.put("scopes", scopes_json(self.scopes.as_slice()));
        o.put_text("created_at", self.created_at.as_str());
        o.put_text("key", self.key.as_str());
        assert(o@ =~= created_document(self@)->Object_0);
        Json::Object(o)
    }
}

// ---- laws ------------------------------------------------------------------------

/// A new key opens its own row from then on, with the scopes that were asked for.
pub proof fn new_key_is_accepted(
    before: Map<Seq<char>, KeyRowView>,
    after: Map<Seq<char>, KeyRowView>,
    name: Seq<char>,
    scopes: Seq<Scope>,
    id: Seq<u8>,
    secret: Seq<u8>,
    created_at: Seq<char>,
    created: CreatedKeyView,
)
    requires
        id.len() == 4,
        secret.len() == 32,
        key_created(before, after, name, scopes, id, secret, created_at, Ok(created)),
    ensures
        holder(after, created.key) == Some(after[created.id]),
        after[created.id].name == created.name,
        after[created.id].scopes == created.scopes,
{
    hex_of_is_hex(id);
    hex_of_is_hex(secret);
    assert(opens(after, created.key, hex_of(id), hex_of(secret)));
    crate::auth::middleware::valid_key_finds_its_holder(
        after,
        created.key,
        hex_of(id),
        hex_of(secret),
    );
}

/// A listing never shows a hash: rows that differ in nothing else look the same.
pub proof fn listing_never_shows_a_hash(a: KeyRowView, hash: Seq<char>)
    ensures
        row_document(KeyRowView { secret_sha256: hash, ..a }) == row_document(a),
{
}

/// `keys:admin` is out of reach over HTTP: whatever is asked for, and whatever is
/// answered, a row that holds it afterwards was there before.
pub proof fn admin_keys_are_not_created_over_http(
    before: Map<Seq<char>, KeyRowView>,
    after: Map<Seq<char>, KeyRowView>,
    name: Seq<char>,
    scopes: Seq<Scope>,
    r: std::result::Result<CreatedKeyView, ErrorView>,
    id: Seq<char>,
)
    requires
        requested_key_created(before, after, name, scopes, r),
        after.contains_key(id),
        after[id].scopes.contains(Scope::KeysAdmin),
    ensures
        before.contains_key(id),
        before[id] == after[id],
{
    if !scopes.contains(Scope::KeysAdmin) {
        keys::in_order_holds_the_set(scopes);
        assert(!scopes.to_set().contains(Scope::KeysAdmin));
        let held = keys::in_order(scopes.to_set());
        if held.contains(Scope::KeysAdmin) {
            assert(held.to_set().contains(Scope::KeysAdmin));
        }
    }
}

/// A request for a key is good where its name has 1 to 64 characters, without the
/// white space around it, and it asks for a scope at all; otherwise it is told what
/// is wrong, the name first.
pub proof fn a_key_needs_a_name_and_a_scope(name: Seq<char>, scopes: Seq<Scope>)
    ensures
        key_fault(name, scopes) is None <==> 1 <= trimmed(name).len() <= 64 && scopes.len() > 0,
        trimmed(name).len() == 0 || trimmed(name).len() > 64 ==> key_fault(name, scopes) == Some(
            "name must be 1–64 characters"@,
        ),
        1 <= trimmed(name).len() <= 64 && scopes.len() == 0 ==> key_fault(name, scopes) == Some(
            "at least one scope"@,
        ),
{
}

/// A new key is what was asked for: it has the name, and just the scopes, each once;
/// it is unused and not revoked. It is stored as it is returned, under its id, with
/// the hash of the secret that it ends in. Nothing else changes.
pub proof fn a_new_key_is_what_was_asked_for(
    before: Map<Seq<char>, KeyRowView>,
    after: Map<Seq<char>, KeyRowView>,
    name: Seq<char>,
    scopes: Seq<Scope>,
    id: Seq<u8>,
    secret: Seq<u8>,
    created_at: Seq<char>,
    created: CreatedKeyView,
)
    requires
        id.len() == 4,
        secret.len() == 32,
        key_created(before, after, name, scopes, id, secret, created_at, Ok(created)),
    ensures
        created.name == trimmed(name),
        created.scopes.no_duplicates(),
        forall|s: Scope| #[trigger] created.scopes.contains(s) <==> scopes.contains(s),
        created.created_at == created_at,
        created.id == hex_of(id),
        created.id.len() == 8,
        created.key == "osk_"@ + created.id + "_"@ + hex_of(secret),
        !before.contains_key(created.id),
        after.contains_key(created.id),
        after[created.id].id == created.id,
        after[created.id].name == created.name,
        after[created.id].scopes == created.scopes,
        after[created.id].created_at == created.created_at,
        after[created.id].secret_sha256 == stored_hash(hex_of(secret)),
        after[created.id].last_used_at is None,
        after[created.id].revoked_at is None,
        after.remove(created.id) == before,
{
    keys::scopes_are_listed_in_order(scopes);
    hex_of_is_hex(id);
    assert(after.remove(created.id) =~= before);
}

/// A request that does not succeed changes nothing.
pub proof fn a_refused_key_changes_nothing(
    before: Map<Seq<char>, KeyRowView>,
    after: Map<Seq<char>, KeyRowView>,
    name: Seq<char>,
    scopes: Seq<Scope>,
    e: ErrorView,
)
    requires
        requested_key_created(before, after, name, scopes, Err(e)) || drawn_key_created(
            before,
            after,
            name,
            scopes,
            Err(e),
        ),
    ensures
        after == before,
{
}

/// A row is shown as it is, each thing under its name, and no more.
pub proof fn a_row_is_shown_as_it_is(row: KeyRowView)
    ensures
        text_field(row_document(row), "id"@) == Some(row.id),
        text_field(row_document(row), "name"@) == Some(row.name),
        field(row_document(row), "scopes"@) == Some(scopes_document(row.scopes)),
        text_field(row_document(row), "created_at"@) == Some(row.created_at),
        field(row_document(row), "last_used_at"@) == Some(text_or_null(row.last_used_at)),
        field(row_document(row), "revoked_at"@) == Some(text_or_null(row.revoked_at)),
        has_just(
            row_document(row),
            set!["id"@, "name"@, "scopes"@, "created_at"@, "last_used_at"@, "revoked_at"@],
        ),
{
    reveal_strlit("id");
    reveal_strlit("name");
    reveal_strlit("scopes");
    reveal_strlit("created_at");
    reveal_strlit("last_used_at");
    reveal_strlit("revoked_at");
    assert("id"@.len() == 2 && "name"@.len() == 4 && "scopes"@.len() == 6
        && "created_at"@.len() == 10 && "last_used_at"@.len() == 12 && "revoked_at"@.len() == 10);
    assert("created_at"@[0] != "revoked_at"@[0]);
    assert(row_document(row)->Object_0.dom() =~= set![
        "id"@,
        "name"@,
        "scopes"@,
        "created_at"@,
        "last_used_at"@,
        "revoked_at"@,
    ]);
}

/// A listing shows every row, in its place.
pub proof fn a_listing_shows_every_row(rows: Seq<KeyRowView>)
    ensures
        has_just(list_document(rows), set!["data"@]),
        items_field(list_document(rows), "data"@).len() == rows.len(),
        forall|i: int|
            0 <= i < rows.len() ==> #[trigger] items_field(list_document(rows), "data"@)[i]
                == row_document(rows[i]),
{
    assert(list_document(rows)->Object_0.dom() =~= set!["data"@]);
}

/// A new key is shown as it is, with the key itself.
pub proof fn a_new_key_is_shown_as_it_is(created: CreatedKeyView)
    ensures
        text_field(created_document(created), "id"@) == Some(created.id),
        text_field(created_document(created), "name"@) == Some(created.name),
        field(created_document(created), "scopes"@) == Some(scopes_document(created.scopes)),
        text_field(created_document(created), "created_at"@) == Some(created.created_at),
        text_field(created_document(created), "key"@) == Some(created.key),
        has_just(
            created_document(created),
            set!["id"@, "name"@, "scopes"@, "created_at"@, "key"@],
        ),
{
    reveal_strlit("id");
    reveal_strlit("name");
    reveal_strlit("scopes");
    reveal_strlit("created_at");
    reveal_strlit("key");
    assert("id"@.len() == 2 && "name"@.len() == 4 && "scopes"@.len() == 6
        && "created_at"@.len() == 10 && "key"@.len() == 3);
    assert(created_document(created)->Object_0.dom() =~= set![
        "id"@,
        "name"@,
        "scopes"@,
        "created_at"@,
        "key"@,
    ]);
}

/// Scopes are shown by their names, each in its place.
pub proof fn scopes_are_shown_by_their_names(scopes: Seq<Scope>)
    ensures
        scopes_document(scopes) matches JsonView::Array(items) && items.len() == scopes.len()
            && forall|i: int|
            0 <= i < scopes.len() ==> #[trigger] items[i] == JsonView::Text(
                keys::scope_name(scopes[i]),
            ),
{
}

/// Why a key is refused is told: over HTTP, `keys:admin` first; then what is wrong with
/// the request; then that its id is taken, or that there was no chance to draw one.
pub proof fn a_refused_key_is_told_why(
    before: Map<Seq<char>, KeyRowView>,
    after: Map<Seq<char>, KeyRowView>,
    name: Seq<char>,
    scopes: Seq<Scope>,
    e: ErrorView,
)
    requires
        requested_key_created(before, after, name, scopes, Err(e)),
    ensures
        scopes.contains(Scope::KeysAdmin) ==> e == ErrorView::InvalidRequest(
            "keys:admin can only be minted with `opus-api keys create` on the host"@,
        ),
        !scopes.contains(Scope::KeysAdmin) ==> (match key_fault(name, scopes) {
            Some(fault) => e == ErrorView::InvalidRequest(fault),
            None => e == ErrorView::Db("UNIQUE constraint failed: api_keys.id"@) || e
                == ErrorView::Config("os randomness"@),
        }),
{
}

} // verus!
