//! `GET /v1/me`: what the presented key is. The cheapest authenticated call: a
//! client's first request after configuration.

use crate::auth::keys::{in_order, Scope};
use crate::auth::middleware::{Principal, PrincipalView};
use crate::db::{Db, KeyRowView};
use crate::error::{outcome, Error, ErrorView, Result};
use crate::json::{field, has_just, text_field, Json, JsonView, Object};
use crate::v1::keys::{scopes_document, scopes_json};
use vstd::prelude::*;

verus! {

pub struct Me {
    /// The key's public id (the `osk_<id>_…` part).
    pub key_id: String,
    pub name: String,
    pub scopes: Vec<Scope>,
    pub created_at: String,
}

#[verifier::ext_equal]
pub struct MeView {
    pub key_id: Seq<char>,
    pub name: Seq<char>,
    pub scopes: Seq<Scope>,
    pub created_at: Seq<char>,
}

impl View for Me {
    type V = MeView;

    open spec fn view(&self) -> MeView {
        MeView {
            key_id: self.key_id@,
            name: self.name@,
            scopes: self.scopes@,
            created_at: self.created_at@,
        }
    }
}

impl DeepView for Me {
    type V = MeView;

    open spec fn deep_view(&self) -> MeView {
        self@
    }
}

/// What the presented key is: as the table has it, with the scopes it came with.
pub open spec fn told_of(
    rows: Map<Seq<char>, KeyRowView>,
    principal: PrincipalView,
) -> std::result::Result<MeView, ErrorView> {
    if rows.contains_key(principal.key_id) {
        let row = rows[principal.key_id];
        Ok(
            MeView {
                key_id: row.id,
                name: row.name,
                scopes: in_order(principal.scopes),
                created_at: row.created_at,
            },
        )
    } else {
        Err(ErrorView::Unauthorized)
    }
}

/// What the presented key is.
pub fn me(db: &Db, principal: &Principal) -> (r: Result<Me>)
    requires
        db.wf(),
    ensures
        outcome(r) == told_of(db@, principal@),
{
    match db.key(principal.key_id.as_str()) {
        Ok(Some(row)) => Ok(
            Me {
                key_id: row.id,
                name: row.name,
                scopes: principal.scopes.iter(),
                created_at: row.created_at,
            },
        ),
        Ok(None) => Err(Error::Unauthorized),
        Err(e) => Err(e),
    }
}

/// The answer on the wire.
pub open spec fn me_document(me: MeView) -> JsonView {
    JsonView::Object(
        map![
            "key_id"@ => JsonView::Text(me.key_id),
            "name"@ => JsonView::Text(me.name),
            "scopes"@ => scopes_document(me.scopes),
            "created_at"@ => JsonView::Text(me.created_at),
        ],
    )
}

impl Me {
    pub fn to_json(&self) -> (r: Json)
        ensures
            r@ == me_document(self@),
    {
        let mut o = Object::new();
        o.put_text("key_id", self.key_id.as_str());
        o.put_text("name", self.name.as_str());
        o.put("scopes", scopes_json(self.scopes.as_slice()));
        o.put_text("created_at", self.created_at.as_str());
        assert(o@ =~= me_document(self@)->Object_0);
        Json::Object(o)
    }
}

// ---- laws ---------------------------------------------------------------------------

/// The answer says what the presented key is, each thing under its name, and no more.
pub proof fn a_key_is_told_as_it_is(me: MeView)
    ensures
        text_field(me_document(me), "key_id"@) == Some(me.key_id),
        text_field(me_document(me), "name"@) == Some(me.name),
        field(me_document(me), "scopes"@) == Some(scopes_document(me.scopes)),
        text_field(me_document(me), "created_at"@) == Some(me.created_at),
        has_just(me_document(me), set!["key_id"@, "name"@, "scopes"@, "created_at"@]),
{
    reveal_strlit("key_id");
    reveal_strlit("name");
    reveal_strlit("scopes");
    reveal_strlit("created_at");
    assert("key_id"@.len() == 6 && "name"@.len() == 4 && "scopes"@.len() == 6
        && "created_at"@.len() == 10);
    assert("key_id"@[0] != "scopes"@[0]);
    assert(me_document(me)->Object_0.dom() =~= set!["key_id"@, "name"@, "scopes"@, "created_at"@]);
}

/// A client is told of its own row and of the scopes that it came with, each once;
/// one whose row is gone is not known.
pub proof fn a_client_is_told_of_itself(
    rows: Map<Seq<char>, KeyRowView>,
    principal: PrincipalView,
    scopes: Seq<Scope>,
)
    requires
        principal.scopes == scopes.to_set(),
        rows.contains_key(principal.key_id) ==> rows[principal.key_id].id == principal.key_id,
    ensures
        told_of(rows, principal) is Ok <==> rows.contains_key(principal.key_id),
        told_of(rows, principal) matches Err(e) ==> e == ErrorView::Unauthorized,
        told_of(rows, principal) matches Ok(me) ==> {
            &&& me.key_id == principal.key_id
            &&& me.name == rows[principal.key_id].name
            &&& me.created_at == rows[principal.key_id].created_at
            &&& me.scopes.no_duplicates()
            &&& forall|s: Scope| #[trigger] me.scopes.contains(s) <==> scopes.contains(s)
        },
{
    crate::auth::keys::in_order_holds_the_set(scopes);
    let listed = in_order(scopes.to_set());
    assert forall|s: Scope| #[trigger] listed.contains(s) <==> scopes.contains(s) by {
        assert(listed.to_set().contains(s) == scopes.to_set().contains(s));
    }
}

} // verus!
