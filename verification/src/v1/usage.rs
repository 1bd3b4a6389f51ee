//! `/v1/usage`: spend rollups that the control plane keeps, per agent, and the
//! most recent sessions. `export.csv` is the audit trail, oldest first.

use crate::upstream::control_plane::{add_param, getting, with_param, Call};
use crate::v1::sessions::{hands_on, nothing_is_given_yet, one_more_param};
use vstd::prelude::*;

verus! {

pub struct UsageQuery {
    /// Inclusive lower bound on when the rollup was observed: RFC 3339, or
    /// `YYYY-MM-DD` for midnight UTC.
    pub since: Option<String>,
    /// Exclusive upper bound, same forms.
    pub until: Option<String>,
}

/// The query that is handed on: what the client left out is left out.
pub open spec fn usage_params(q: UsageQuery) -> Seq<(Seq<char>, Seq<char>)> {
    with_param(
        with_param(Seq::empty(), "since"@, q.since.deep_view()),
        "until"@,
        q.until.deep_view(),
    )
}

impl UsageQuery {
    /// The query that is handed on.
    pub fn pairs(&self) -> (r: Vec<(String, String)>)
        ensures
            r.deep_view() == usage_params(*self),
    {
        let mut query: Vec<(String, String)> = Vec::new();
        assert(query.deep_view() =~= Seq::<(Seq<char>, Seq<char>)>::empty());
        match &self.since {
            Some(since) => add_param(&mut query, "since", Some(since.as_str())),
            None => {},
        }
        match &self.until {
            Some(until) => add_param(&mut query, "until", Some(until.as_str())),
            None => {},
        }
        query
    }
}

/// `GET /usage`.
pub fn get(q: &UsageQuery) -> (r: Call)
    ensures
        r@ == getting("/usage"@, usage_params(*q)),
{
    Call::get("/usage".to_owned(), q.pairs())
}

/// `GET /usage/export.csv`.
pub fn export_csv(q: &UsageQuery) -> (r: Call)
    ensures
        r@ == getting("/usage/export.csv"@, usage_params(*q)),
{
    Call::get("/usage/export.csv".to_owned(), q.pairs())
}

/// The bounds are handed on as the client gave them, the lower one under `since` and
/// the upper one under `until`; nothing else is.
pub proof fn usage_is_asked_for_as_the_client_asked(q: UsageQuery)
    ensures
        hands_on(usage_params(q), "since"@, q.since.deep_view()),
        hands_on(usage_params(q), "until"@, q.until.deep_view()),
        forall|i: int|
            0 <= i < usage_params(q).len() ==> (#[trigger] usage_params(q)[i]).0 == "since"@
                || usage_params(q)[i].0 == "until"@,
{
    reveal_strlit("since");
    reveal_strlit("until");
    assert("since"@.len() == 5 && "until"@.len() == 5);
    assert("since"@[0] != "until"@[0]);
    let none = Seq::<(Seq<char>, Seq<char>)>::empty();
    let one = with_param(none, "since"@, q.since.deep_view());
    nothing_is_given_yet("since"@);
    nothing_is_given_yet("until"@);
    one_more_param(none, "since"@, q.since.deep_view(), "until"@, None);
    one_more_param(one, "until"@, q.until.deep_view(), "since"@, q.since.deep_view());
}

} // verus!
