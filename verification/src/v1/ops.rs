//! `/v1/ops`: the stack's services at a glance, read-only. Only there when at
//! least one service token is configured.

use crate::json::{has_just, items_field, Json, JsonView, Object};
use crate::upstream::ops::{status_document, Status, StatusView};
use vstd::prelude::*;

verus! {

pub struct Hub {
    /// The configured services, hub order, without detail.
    pub services: Vec<Status>,
}

/// The rows without their details.
pub open spec fn bare(rows: Seq<StatusView>) -> Seq<StatusView> {
    rows.map_values(|row: StatusView| StatusView { detail: None, ..row })
}

/// `GET /ops`: the rows as the hub lists them.
pub fn hub(rows: Vec<Status>) -> (r: Hub)
    ensures
        r.services.deep_view() == bare(rows.deep_view()),
{
    let mut services: Vec<Status> = Vec::new();
    let n: usize = rows.len();
    for i in 0..n
        invariant
            n == rows@.len(),
            services@.len() == i,
            forall|k: int|
                0 <= k < i ==> (#[trigger] services@[k])@ == (StatusView {
                    detail: None,
                    ..rows@[k]@
                }),
    {
        services.push(rows[i].copy().without_detail());
    }
    assert(services.deep_view() =~= bare(rows.deep_view()));
    Hub { services }
}

/// The answer on the wire.
pub open spec fn hub_document(rows: Seq<StatusView>) -> JsonView {
    JsonView::Object(
        map![
            "services"@ => JsonView::Array(
                rows.map_values(|row: StatusView| status_document(row)),
            ),
        ],
    )
}

impl Hub {
    pub fn to_json(&self) -> (r: Json)
        ensures
            r@ == hub_document(self.services.deep_view()),
    {
        let mut rows: Vec<Json> = Vec::new();
        let n: usize = self.services.len();
        for i in 0..n
            invariant
                n == self.services@.len(),
                rows@.len() == i,
                forall|k: int|
                    0 <= k < i ==> (#[trigger] rows@[k])@ == status_document(self.services@[k]@),
        {
            rows.push(self.services[i].to_json());
        }
        let ghost want = self.services.deep_view().map_values(
            |row: StatusView| status_document(row),
        );
        assert(rows.deep_view() =~= want);
        let mut o = Object::new();
        o.put("services", Json::array(rows));
        assert(o@ =~= map!["services"@ => JsonView::Array(want)]);
        Json::Object(o)
    }
}

/// The hub shows every row in its place, as it is but for its detail, and nothing
/// else.
pub proof fn the_hub_shows_every_row(rows: Seq<StatusView>)
    ensures
        has_just(hub_document(bare(rows)), set!["services"@]),
        items_field(hub_document(bare(rows)), "services"@).len() == rows.len(),
        forall|i: int|
            0 <= i < rows.len() ==> #[trigger] items_field(
                hub_document(bare(rows)),
                "services"@,
            )[i] == status_document(StatusView { detail: None, ..rows[i] }),
{
    assert(hub_document(bare(rows))->Object_0.dom() =~= set!["services"@]);
}

} // verus!
