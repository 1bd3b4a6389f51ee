//! `/v1/fleet`: the fleet as configured. Read-only by design; the fleet is not
//! defined through this API.

use crate::json::{field, has_just, Json, JsonView, Object};
use crate::upstream::control_plane::{getting, Call};
use vstd::prelude::*;

verus! {

/// `GET /fleet/agents`: what is asked of the control plane.
pub fn agents() -> (r: Call)
    ensures
        r@ == getting("/agents"@, Seq::empty()),
{
    let query: Vec<(String, String)> = Vec::new();
    assert(query.deep_view() =~= Seq::<(Seq<char>, Seq<char>)>::empty());
    Call::get("/agents".to_owned(), query)
}

/// The list on the wire.
pub open spec fn list_document(agents: JsonView) -> JsonView {
    JsonView::Object(map!["data"@ => agents])
}

/// The control plane answers a bare array; every list here is `{data}`.
pub fn wrapped(agents: Json) -> (r: Json)
    ensures
        r@ == list_document(agents@),
{
    let mut o = Object::new();
    o.put("data", agents);
    assert(o@ =~= map!["data"@ => agents@]);
    Json::Object(o)
}

/// The list is handed on as it came, and is all that is.
pub proof fn the_list_is_handed_on(agents: JsonView)
    ensures
        field(list_document(agents), "data"@) == Some(agents),
        has_just(list_document(agents), set!["data"@]),
{
    assert(list_document(agents)->Object_0.dom() =~= set!["data"@]);
}

} // verus!
