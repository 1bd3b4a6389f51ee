//! `GET /v1/health`: public, no auth, no upstream call: "the API process is up".
//! Whether the fleet behind it is reachable is a separate, authenticated question
//! (`/v1/rig`, `/v1/fleet/agents`).

use crate::json::{has_just, text_field, Json, JsonView, Object};
use vstd::prelude::*;

verus! {

pub struct Health {
    pub status: &'static str,
    pub version: &'static str,
}

/// The process is up, in that version.
pub fn health(version: &'static str) -> (r: Health)
    ensures
        r.status@ == "ok"@,
        r.version@ == version@,
{
    Health { status: "ok", version }
}

/// The answer on the wire.
pub open spec fn health_document(status: Seq<char>, version: Seq<char>) -> JsonView {
    JsonView::Object(
        map!["status"@ => JsonView::Text(status), "version"@ => JsonView::Text(version)],
    )
}

impl Health {
    pub fn to_json(&self) -> (r: Json)
        ensures
            r@ == health_document(self.status@, self.version@),
    {
        let mut o = Object::new();
        o.put_text("status", self.status);
        o.put_text("version", self.version);
        assert(o@ =~= map![
            "status"@ => JsonView::Text(self.status@),
            "version"@ => JsonView::Text(self.version@),
        ]);
        Json::Object(o)
    }
}

/// The answer says the status and the version, each under its name, and no more.
pub proof fn health_reads_back(status: Seq<char>, version: Seq<char>)
    ensures
        text_field(health_document(status, version), "status"@) == Some(status),
        text_field(health_document(status, version), "version"@) == Some(version),
        has_just(health_document(status, version), set!["status"@, "version"@]),
{
    reveal_strlit("status");
    reveal_strlit("version");
    assert("status"@.len() == 6 && "version"@.len() == 7);
    assert(health_document(status, version)->Object_0.dom() =~= set!["status"@, "version"@]);
}

} // verus!
