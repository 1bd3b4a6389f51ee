//! Cloudflare (`GET /client/v4/zones`, then each zone's DNS records).

use super::{counted, flag, flag_json, int_json, int_or_zero, plural, Report, ReportView, State, Step, StepView};
use crate::json::{bool_field, field, has_just, int_field, integer_number, items_field, text_field, text_or_empty, Json, JsonView, Object};
use crate::text::{cat2, cat4, cat5, join, joined, same};
use vstd::prelude::*;

verus! {

/// A DNS record as it is shown.
pub open spec fn record_document(r: JsonView) -> JsonView {
    JsonView::Object(
        map![
            "type"@ => JsonView::Text(text_or_empty(r, "type"@)),
            "name"@ => JsonView::Text(text_or_empty(r, "name"@)),
            "content"@ => JsonView::Text(text_or_empty(r, "content"@)),
            "proxied"@ => flag(r, "proxied"@),
            "ttl"@ => int_or_zero(r, "ttl"@),
        ],
    )
}

fn record_json(r: &Json) -> (out: Json)
    ensures
        out@ == record_document(r@),
{
    let mut o = Object::new();
    o.put_text("type", r.text_or_empty("type"));
    o.put_text("name", r.text_or_empty("name"));
    o.put_text("content", r.text_or_empty("content"));
    o.put("proxied", flag_json(r, "proxied"));
    o.put("ttl", int_json(r, "ttl"));
    assert(o@ =~= record_document(r@)->Object_0);
    Json::Object(o)
}

/// A zone as it is shown, with its records.
pub open spec fn zone_document(zone: JsonView, records: JsonView) -> JsonView {
    JsonView::Object(
        map![
            "name"@ => JsonView::Text(text_or_empty(zone, "name"@)),
            "status"@ => JsonView::Text(text_or_empty(zone, "status"@)),
            "paused"@ => flag(zone, "paused"@),
            "records"@ => JsonView::Array(
                items_field(records, "result"@).map_values(|r: JsonView| record_document(r)),
            ),
        ],
    )
}

/// The zone answers for its names: it is active and not paused.
pub open spec fn in_service(zone: JsonView) -> bool {
    text_or_empty(zone, "status"@) == "active"@ && bool_field(zone, "paused"@) != Some(true)
}

/// A zone in one line.
pub open spec fn zone_line(zone: JsonView, records: JsonView) -> Seq<char> {
    text_or_empty(zone, "name"@) + " "@ + text_or_empty(zone, "status"@) + " · "@ + counted(
        items_field(records, "result"@).len(),
        "record"@,
        "records"@,
    )
}

/// How many of the first `n` zones are in service.
pub open spec fn active_among(zones: Seq<JsonView>, n: nat) -> nat
    decreases n,
{
    if n == 0 {
        0
    } else {
        active_among(zones, (n - 1) as nat) + if in_service(zones[n - 1]) {
            1nat
        } else {
            0nat
        }
    }
}

/// The report, from all answers: the zones, then the records of each.
pub open spec fn report_of(answers: Seq<JsonView>) -> ReportView {
    let zones = items_field(answers[0], "result"@);
    let n = zones.len();
    ReportView {
        state: if n == 0 {
            State::Unknown
        } else if active_among(zones, n) == n {
            State::Healthy
        } else {
            State::Warn
        },
        headline: if n == 0 {
            "no zones"@
        } else {
            joined(Seq::new(n, |i: int| zone_line(zones[i], answers[i + 1])), "; "@)
        },
        detail: JsonView::Object(
            map![
                "zones"@ => JsonView::Array(
                    Seq::new(n, |i: int| zone_document(zones[i], answers[i + 1])),
                ),
            ],
        ),
    }
}

/// What a check does next, given the answers it has.
pub open spec fn step_of(base: Seq<char>, answers: Seq<JsonView>) -> StepView {
    if answers.len() == 0 {
        StepView::Get(base + "/client/v4/zones"@)
    } else {
        let zones = items_field(answers[0], "result"@);
        let asked = answers.len() - 1;
        if asked < zones.len() {
            StepView::Get(
                base + "/client/v4/zones/"@ + text_or_empty(zones[asked], "id"@)
                    + "/dns_records?per_page=100"@,
            )
        } else {
            StepView::Done(report_of(answers))
        }
    }
}

/// What a check does next, given the answers it has.
pub fn check(base: &str, answers: &Vec<Json>) -> (r: Step)
    ensures
        r@ == step_of(base@, answers.deep_view()),
{
    if answers.len() == 0 {
        return Step::Get(cat2(base, "/client/v4/zones"));
    }
    assert(answers.deep_view()[0] == answers@[0]@);
    let zones = answers[0].items_at("result");
    let asked: usize = answers.len() - 1;
    if asked < zones.len() {
        let id = zones[asked].text_or_empty("id");
        assert(items_field(answers@[0]@, "result"@)[asked as int] == zones@[asked as int]@);
        Step::Get(cat4(base, "/client/v4/zones/", id, "/dns_records?per_page=100"))
    } else {
        Step::Done(report(answers))
    }
}

fn zone_json(zone: &Json, records: &Json) -> (r: Json)
    ensures
        r@ == zone_document(zone@, records@),
{
    let items = records.items_at("result");
    let mut out: Vec<Json> = Vec::new();
    let n: usize = items.len();
    for i in 0..n
        invariant
            n == items@.len(),
            out@.len() == i,
            forall|k: int| 0 <= k < i ==> (#[trigger] out@[k])@ == record_document(items@[k]@),
    {
        out.push(record_json(&items[i]));
    }
    let ghost shown = items_field(records@, "result"@).map_values(
        |r: JsonView| record_document(r),
    );
    assert(out.deep_view() =~= shown);
    let mut o = Object::new();
    o.put_text("name", zone.text_or_empty("name"));
    o.put_text("status", zone.text_or_empty("status"));
    o.put("paused", flag_json(zone, "paused"));
    o.put("records", Json::array(out));
    assert(o@ =~= zone_document(zone@, records@)->Object_0);
    Json::Object(o)
}

fn line_of(zone: &Json, records: &Json) -> (r: String)
    ensures
        r@ == zone_line(zone@, records@),
{
    let n: usize = records.items_at("result").len();
    cat5(
        zone.text_or_empty("name"),
        " ",
        zone.text_or_empty("status"),
        " · ",
        plural(n as u128, "record", "records").as_str(),
    )
}

fn is_in_service(zone: &Json) -> (r: bool)
    ensures
        r == in_service(zone@),
{
    let paused = match zone.bool_at("paused") {
        Some(true) => true,
        _ => false,
    };
    same(zone.text_or_empty("status"), "active") && !paused
}

fn report(answers: &Vec<Json>) -> (r: Report)
    requires
        answers@.len() > 0,
        answers@.len() > items_field(answers@[0]@, "result"@).len(),
    ensures
        r@ == report_of(answers.deep_view()),
{
    let ghost views = answers.deep_view();
    assert(views[0] == answers@[0]@);
    let zones = answers[0].items_at("result");
    let ghost all = items_field(views[0], "result"@);
    let n: usize = zones.len();
    let mut shown: Vec<Json> = Vec::new();
    let mut lines: Vec<String> = Vec::new();
    let mut active: usize = 0;
    for i in 0..n
        invariant
            n == zones@.len(),
            n < answers@.len(),
            views == answers.deep_view(),
            all == zones@.map_values(|j: Json| j@),
            shown@.len() == i,
            lines@.len() == i,
            forall|k: int|
                0 <= k < i ==> (#[trigger] shown@[k])@ == zone_document(all[k], views[k + 1]),
            forall|k: int|
                0 <= k < i ==> (#[trigger] lines@[k])@ == zone_line(all[k], views[k + 1]),
            active == active_among(all, i as nat),
            active <= i,
    {
        let zone = &zones[i];
        let records = &answers[i + 1];
        assert(all[i as int] == zone@);
        assert(views[i + 1] == records@);
        if is_in_service(zone) {
            active = active + 1;
        }
        lines.push(line_of(zone, records));
        shown.push(zone_json(zone, records));
    }
    let ghost documents = Seq::new(all.len(), |i: int| zone_document(all[i], views[i + 1]));
    let ghost texts = Seq::new(all.len(), |i: int| zone_line(all[i], views[i + 1]));
    assert(shown.deep_view() =~= documents);
    assert(lines.deep_view() =~= texts);
    let state = if n == 0 {
        State::Unknown
    } else if active == n {
        State::Healthy
    } else {
        State::Warn
    };
    let headline = if n == 0 {
        "no zones".to_owned()
    } else {
        join(&lines, "; ")
    };
    let mut detail = Object::new();
    detail.put("zones", Json::array(shown));
    assert(detail@ =~= map!["zones"@ => JsonView::Array(documents)]);
    Report { state, headline, detail: Json::Object(detail) }
}

// ---- laws ---------------------------------------------------------------------------

/// The zone is active and not paused.
pub open spec fn is_answering(zone: JsonView) -> bool {
    text_field(zone, "status"@) == Some("active"@) && bool_field(zone, "paused"@) != Some(true)
}

/// The state follows the zones: `ok` just where there is one and each is active and
/// not paused, `warn` where one is not, and `unknown` without zones.
pub proof fn the_state_follows_the_zones(answers: Seq<JsonView>)
    ensures
        ({
            let zones = items_field(answers[0], "result"@);
            let state = report_of(answers).state;
            let all = forall|i: int| 0 <= i < zones.len() ==> is_answering(#[trigger] zones[i]);
            &&& state == State::Unknown <==> zones.len() == 0
            &&& state == State::Healthy <==> zones.len() > 0 && all
            &&& state == State::Warn <==> !all
        }),
{
    let zones = items_field(answers[0], "result"@);
    active_among_the_first(zones, zones.len());
}

proof fn active_among_the_first(zones: Seq<JsonView>, n: nat)
    requires
        n <= zones.len(),
    ensures
        active_among(zones, n) <= n,
        active_among(zones, n) == n <==> forall|i: int|
            0 <= i < n ==> is_answering(#[trigger] zones[i]),
    decreases n,
{
    reveal_strlit("active");
    if n > 0 {
        active_among_the_first(zones, (n - 1) as nat);
        assert("active"@.len() == 6);
    }
}

/// Each zone is shown, in order, by its own name and status, with each of its own
/// records as it is; and each is told in a line with the number of its records.
pub proof fn each_zone_is_shown_as_it_is(answers: Seq<JsonView>, i: int, k: int)
    requires
        0 <= i < items_field(answers[0], "result"@).len(),
        0 <= k < items_field(answers[i + 1], "result"@).len(),
    ensures
        ({
            let zone = items_field(answers[0], "result"@)[i];
            let records = items_field(answers[i + 1], "result"@);
            let shown = items_field(report_of(answers).detail, "zones"@);
            let record = items_field(shown[i], "records"@)[k];
            &&& shown.len() == items_field(answers[0], "result"@).len()
            &&& has_just(shown[i], set!["name"@, "status"@, "paused"@, "records"@])
            &&& text_field(shown[i], "name"@) == Some(text_or_empty(zone, "name"@))
            &&& text_field(shown[i], "status"@) == Some(text_or_empty(zone, "status"@))
            &&& bool_field(shown[i], "paused"@) == Some(bool_field(zone, "paused"@) == Some(true))
            &&& items_field(shown[i], "records"@).len() == records.len()
            &&& has_just(record, set!["type"@, "name"@, "content"@, "proxied"@, "ttl"@])
            &&& text_field(record, "type"@) == Some(text_or_empty(records[k], "type"@))
            &&& text_field(record, "name"@) == Some(text_or_empty(records[k], "name"@))
            &&& text_field(record, "content"@) == Some(text_or_empty(records[k], "content"@))
            &&& bool_field(record, "proxied"@) == Some(
                bool_field(records[k], "proxied"@) == Some(true),
            )
            &&& int_field(records[k], "ttl"@) matches Some(ttl) ==> field(record, "ttl"@) == Some(
                JsonView::Number(integer_number(ttl)),
            )
        }),
{
    reveal_strlit("name");
    reveal_strlit("status");
    reveal_strlit("paused");
    reveal_strlit("records");
    reveal_strlit("type");
    reveal_strlit("content");
    reveal_strlit("proxied");
    reveal_strlit("ttl");
    assert("name"@.len() == 4 && "status"@.len() == 6 && "paused"@.len() == 6
        && "records"@.len() == 7 && "type"@.len() == 4 && "content"@.len() == 7
        && "proxied"@.len() == 7 && "ttl"@.len() == 3);
    assert("name"@[0] != "type"@[0]);
    assert("status"@[0] != "paused"@[0]);
    assert("records"@[0] != "content"@[0]);
    assert("records"@[0] != "proxied"@[0]);
    assert("content"@[0] != "proxied"@[0]);
    let zone = items_field(answers[0], "result"@)[i];
    let records = items_field(answers[i + 1], "result"@);
    let shown = items_field(report_of(answers).detail, "zones"@);
    assert(shown[i] == zone_document(zone, answers[i + 1]));
    assert(shown[i]->Object_0.dom() =~= set!["name"@, "status"@, "paused"@, "records"@]);
    let record = items_field(shown[i], "records"@)[k];
    assert(record == record_document(records[k]));
    assert(record->Object_0.dom() =~= set!["type"@, "name"@, "content"@, "proxied"@, "ttl"@]);
}

/// A single zone is told in a line: its name, its status, and how many records it
/// has.
pub proof fn a_zone_is_told_in_a_line(answers: Seq<JsonView>, name: Seq<char>, status: Seq<char>)
    requires
        items_field(answers[0], "result"@).len() == 1,
        text_field(items_field(answers[0], "result"@)[0], "name"@) == Some(name),
        text_field(items_field(answers[0], "result"@)[0], "status"@) == Some(status),
    ensures
        ({
            let n = items_field(answers[1], "result"@).len();
            report_of(answers).headline == name + " "@ + status + " · "@ + (if n == 1 {
                "1 record"@
            } else {
                crate::text::decimal(n) + " records"@
            })
        }),
{
    reveal_strlit("1 ");
    reveal_strlit("record");
    reveal_strlit("1 record");
    reveal_strlit(" ");
    reveal_strlit("records");
    reveal_strlit(" records");
    assert("1 "@ + "record"@ =~= "1 record"@);
    let n = items_field(answers[1], "result"@).len();
    assert(crate::text::decimal(n) + " "@ + "records"@ =~= crate::text::decimal(n) + " records"@);
}

/// The zones are asked for first, and then, in order, the records of each by its
/// own id; with these the report is complete.
pub proof fn each_zone_is_asked_for_its_records(base: Seq<char>, answers: Seq<JsonView>)
    ensures
        answers.len() == 0 ==> step_of(base, answers) == StepView::Get(
            base + "/client/v4/zones"@,
        ),
        answers.len() > 0 ==> {
            let zones = items_field(answers[0], "result"@);
            let next = answers.len() - 1;
            &&& next < zones.len() ==> (text_field(zones[next], "id"@) matches Some(id)
                ==> step_of(base, answers) == StepView::Get(
                base + "/client/v4/zones/"@ + id + "/dns_records?per_page=100"@,
            ))
            &&& next >= zones.len() ==> step_of(base, answers) == StepView::Done(
                report_of(answers),
            )
        },
{
}

/// Every zone is told in its line, one after another; without a zone that is told.
pub proof fn every_zone_is_told(answers: Seq<JsonView>)
    ensures
        ({
            let zones = items_field(answers[0], "result"@);
            report_of(answers).headline == (if zones.len() == 0 {
                "no zones"@
            } else {
                joined(
                    Seq::new(
                        zones.len(),
                        |i: int|
                            text_or_empty(zones[i], "name"@) + " "@ + text_or_empty(
                                zones[i],
                                "status"@,
                            ) + " · "@ + counted(
                                items_field(answers[i + 1], "result"@).len(),
                                "record"@,
                                "records"@,
                            ),
                    ),
                    "; "@,
                )
            })
        }),
{
    let zones = items_field(answers[0], "result"@);
    let told = Seq::new(
        zones.len(),
        |i: int|
            text_or_empty(zones[i], "name"@) + " "@ + text_or_empty(zones[i], "status"@) + " · "@
                + counted(items_field(answers[i + 1], "result"@).len(), "record"@, "records"@),
    );
    assert(Seq::new(zones.len(), |i: int| zone_line(zones[i], answers[i + 1])) =~= told);
}

} // verus!
