//! DigitalOcean (`GET /v2/droplets`, plus the monitoring agent's load and memory
//! gauges when the droplet has the agent). Metrics are best-effort: a droplet
//! without the agent still reports.
//!
//! A gauge arrives as the text of a number. What the texts come to (the load, and
//! how much of the memory is used) is worked out by the caller from
//! [`Readings`] and handed back as [`Figures`].

use super::{int_json, int_or_zero, text_in_or_empty, within_or_empty, Report, ReportView, State, Step, StepView};
use crate::json::{field, field_in, has_just, int_field, integer_number, item, items_field, items_of, pointed_first, text_array_view, text_field, text_in, text_or_empty, Json, JsonView, Object};
use crate::text::{cat2, cat3, cat4, cat5, join, joined, same, signed_decimal, signed_number};
use vstd::prelude::*;

verus! {

/// How many gauges are read for each droplet.
pub const GAUGES: usize = 3;

/// The latest values of a droplet's gauges, as they were given.
pub struct Readings {
    pub load: Option<String>,
    pub memory_total: Option<String>,
    pub memory_available: Option<String>,
}

#[verifier::ext_equal]
pub struct ReadingsView {
    pub load: Option<Seq<char>>,
    pub memory_total: Option<Seq<char>>,
    pub memory_available: Option<Seq<char>>,
}

impl View for Readings {
    type V = ReadingsView;

    open spec fn view(&self) -> ReadingsView {
        ReadingsView {
            load: self.load.deep_view(),
            memory_total: self.memory_total.deep_view(),
            memory_available: self.memory_available.deep_view(),
        }
    }
}

impl DeepView for Readings {
    type V = ReadingsView;

    open spec fn deep_view(&self) -> ReadingsView {
        self@
    }
}

/// What a droplet's readings come to: the numbers for its document, and their
/// texts for the headline where there is a number.
pub struct Figures {
    pub load_1: Json,
    pub load_text: Option<String>,
    pub memory_used_pct: Json,
    pub memory_text: Option<String>,
}

pub struct FiguresView {
    pub load_1: JsonView,
    pub load_text: Option<Seq<char>>,
    pub memory_used_pct: JsonView,
    pub memory_text: Option<Seq<char>>,
}

impl View for Figures {
    type V = FiguresView;

    open spec fn view(&self) -> FiguresView {
        FiguresView {
            load_1: self.load_1@,
            load_text: self.load_text.deep_view(),
            memory_used_pct: self.memory_used_pct@,
            memory_text: self.memory_text.deep_view(),
        }
    }
}

impl DeepView for Figures {
    type V = FiguresView;

    open spec fn deep_view(&self) -> FiguresView {
        self@
    }
}

/// The latest value of a gauge, or none when the agent isn't reporting:
/// `data.result[0].values[last][1]`.
pub open spec fn latest_value(body: JsonView) -> Option<Seq<char>> {
    let series = match field_in(body, "data"@, "result"@) {
        Some(result) => pointed_first(result),
        None => None,
    };
    let values = match series {
        Some(series) => field(series, "values"@),
        None => None,
    };
    match values {
        Some(JsonView::Array(values)) => if values.len() > 0 {
            match item(values.last(), 1) {
                Some(JsonView::Text(text)) => Some(text),
                _ => None,
            }
        } else {
            None
        },
        _ => None,
    }
}

/// The latest value of a gauge.
pub fn gauge(body: &Json) -> (r: Option<&str>)
    ensures
        r.deep_view() == latest_value(body@),
{
    let result = match body.get("data") {
        Some(data) => match data.get("result") {
            Some(result) => result,
            None => {
                return None;
            },
        },
        None => {
            return None;
        },
    };
    let series = match result.first() {
        Some(series) => series,
        None => {
            return None;
        },
    };
    let values = match series.get("values") {
        Some(values) => values,
        None => {
            return None;
        },
    };
    if !values.is_array() {
        return None;
    }
    let items = values.items();
    let n: usize = items.len();
    if n == 0 {
        return None;
    }
    assert(items_of(values@)[n - 1] == items@[n - 1]@);
    match items[n - 1].at(1) {
        Some(Json::Text(text)) => Some(text.as_str()),
        _ => None,
    }
}

/// The gauge that is read at that place.
pub open spec fn metric_of(k: int) -> Seq<char> {
    if k == 0 {
        "load_1"@
    } else if k == 1 {
        "memory_total"@
    } else {
        "memory_available"@
    }
}

/// The droplet's id; 0 without one.
pub open spec fn droplet_id(d: JsonView) -> int {
    match int_field(d, "id"@) {
        Some(id) => id as int,
        None => 0,
    }
}

/// Ten minutes before.
pub open spec fn window_start(end: i64) -> i64 {
    if end >= i64::MIN + 600 {
        (end - 600) as i64
    } else {
        i64::MIN
    }
}

/// The address of a gauge over the last ten minutes.
pub open spec fn gauge_url(base: Seq<char>, metric: Seq<char>, id: int, end: i64) -> Seq<char> {
    base + "/v2/monitoring/metrics/droplet/"@ + metric + "?host_id="@ + (signed_decimal(id)
        + "&start="@ + signed_decimal(window_start(end) as int) + "&end="@ + signed_decimal(
        end as int,
    ))
}

/// What was read for each droplet: after the droplets, three answers for each.
pub open spec fn readings_of(answers: Seq<JsonView>) -> Seq<ReadingsView> {
    Seq::new(
        items_field(answers[0], "droplets"@).len(),
        |i: int|
            ReadingsView {
                load: latest_value(answers[3 * i + 1]),
                memory_total: latest_value(answers[3 * i + 2]),
                memory_available: latest_value(answers[3 * i + 3]),
            },
    )
}

/// What a check does next at the Unix time `end`, given the answers it has. A
/// gauge that cannot be read is none.
pub open spec fn step_of(base: Seq<char>, answers: Seq<JsonView>, end: i64) -> StepView {
    if answers.len() == 0 {
        StepView::Get(base + "/v2/droplets?per_page=50"@)
    } else {
        let droplets = items_field(answers[0], "droplets"@);
        let asked = answers.len() - 1;
        if asked / 3 < droplets.len() {
            StepView::Try(
                gauge_url(base, metric_of(asked % 3), droplet_id(droplets[asked / 3]), end),
            )
        } else {
            StepView::Measure(readings_of(answers))
        }
    }
}

fn address_of_gauge(base: &str, metric: &str, id: i64, end: i64) -> (r: String)
    ensures
        r@ == gauge_url(base@, metric@, id as int, end),
{
    let start: i64 = if end >= i64::MIN + 600 {
        end - 600
    } else {
        i64::MIN
    };
    let window = cat5(
        signed_number(id).as_str(),
        "&start=",
        signed_number(start).as_str(),
        "&end=",
        signed_number(end).as_str(),
    );
    cat5(base, "/v2/monitoring/metrics/droplet/", metric, "?host_id=", window.as_str())
}

/// What a check does next at the Unix time `end`, given the answers it has.
pub fn check(base: &str, answers: &Vec<Json>, end: i64) -> (r: Step)
    ensures
        r@ == step_of(base@, answers.deep_view(), end),
{
    if answers.len() == 0 {
        return Step::Get(cat2(base, "/v2/droplets?per_page=50"));
    }
    assert(answers.deep_view()[0] == answers@[0]@);
    let droplets = answers[0].items_at("droplets");
    let asked: usize = answers.len() - 1;
    let at: usize = asked / GAUGES;
    if at < droplets.len() {
        let d = &droplets[at];
        assert(items_field(answers@[0]@, "droplets"@)[at as int] == d@);
        let id: i64 = match d.int_at("id") {
            Some(id) => id,
            None => 0,
        };
        let k: usize = asked % GAUGES;
        let metric = if k == 0 {
            "load_1"
        } else if k == 1 {
            "memory_total"
        } else {
            "memory_available"
        };
        Step::Try(address_of_gauge(base, metric, id, end))
    } else {
        Step::Measure(readings(answers))
    }
}

fn owned(text: Option<&str>) -> (r: Option<String>)
    ensures
        r.deep_view() == text.deep_view(),
{
    match text {
        Some(text) => Some(text.to_owned()),
        None => None,
    }
}

fn readings(answers: &Vec<Json>) -> (r: Vec<Readings>)
    requires
        answers@.len() > 0,
        (answers@.len() - 1) / 3 >= items_field(answers@[0]@, "droplets"@).len(),
    ensures
        r.deep_view() == readings_of(answers.deep_view()),
{
    let ghost views = answers.deep_view();
    assert(views[0] == answers@[0]@);
    let n: usize = answers[0].items_at("droplets").len();
    let have: usize = answers.len();
    let mut out: Vec<Readings> = Vec::new();
    for i in 0..n
        invariant
            n == items_field(views[0], "droplets"@).len(),
            views == answers.deep_view(),
            have == answers@.len(),
            (have - 1) / 3 >= n,
            out@.len() == i,
            forall|k: int| 0 <= k < i ==> (#[trigger] out@[k])@ == readings_of(views)[k],
    {
        assert(3 * i + 3 < have);
        let load = gauge(&answers[3 * i + 1]);
        let memory_total = gauge(&answers[3 * i + 2]);
        let memory_available = gauge(&answers[3 * i + 3]);
        assert(views[3 * i + 1] == answers@[3 * i + 1]@);
        assert(views[3 * i + 2] == answers@[3 * i + 2]@);
        assert(views[3 * i + 3] == answers@[3 * i + 3]@);
        out.push(
            Readings {
                load: owned(load),
                memory_total: owned(memory_total),
                memory_available: owned(memory_available),
            },
        );
    }
    assert(out.deep_view() =~= readings_of(views));
    out
}

/// The public addresses among the first `n` networks.
pub open spec fn public_ips(nets: Seq<JsonView>, n: nat) -> Seq<Seq<char>>
    decreases n,
{
    if n == 0 {
        Seq::empty()
    } else {
        let earlier = public_ips(nets, (n - 1) as nat);
        if text_field(nets[n - 1], "type"@) == Some("public"@) {
            match text_field(nets[n - 1], "ip_address"@) {
                Some(ip) => earlier.push(ip),
                None => earlier,
            }
        } else {
            earlier
        }
    }
}

/// The droplet's public addresses.
pub open spec fn ipv4_of(d: JsonView) -> Seq<Seq<char>> {
    match field_in(d, "networks"@, "v4"@) {
        Some(nets) => public_ips(items_of(nets), items_of(nets).len()),
        None => Seq::empty(),
    }
}

/// A droplet as it is shown.
pub open spec fn droplet_document(d: JsonView, figures: FiguresView) -> JsonView {
    JsonView::Object(
        map![
            "name"@ => JsonView::Text(text_or_empty(d, "name"@)),
            "status"@ => JsonView::Text(text_or_empty(d, "status"@)),
            "region"@ => JsonView::Text(text_in_or_empty(d, "region"@, "slug"@)),
            "ipv4"@ => text_array_view(ipv4_of(d)),
            "vcpus"@ => int_or_zero(d, "vcpus"@),
            "memory_mb"@ => int_or_zero(d, "memory"@),
            "disk_gb"@ => int_or_zero(d, "disk"@),
            "created_at"@ => JsonView::Text(text_or_empty(d, "created_at"@)),
            "load_1"@ => figures.load_1,
            "memory_used_pct"@ => figures.memory_used_pct,
        ],
    )
}

/// A droplet in one line.
pub open spec fn droplet_line(d: JsonView, figures: FiguresView) -> Seq<char> {
    let line = text_or_empty(d, "name"@) + " "@ + text_in_or_empty(d, "region"@, "slug"@) + " "@
        + text_or_empty(d, "status"@);
    let line = match figures.load_text {
        Some(load) => line + " · load "@ + load,
        None => line,
    };
    match figures.memory_text {
        Some(memory) => line + " · mem "@ + memory + "%"@,
        None => line,
    }
}

/// How many of the first `n` droplets are active.
pub open spec fn active_among(droplets: Seq<JsonView>, n: nat) -> nat
    decreases n,
{
    if n == 0 {
        0
    } else {
        active_among(droplets, (n - 1) as nat) + if text_or_empty(droplets[n - 1], "status"@)
            == "active"@ {
            1nat
        } else {
            0nat
        }
    }
}

/// The report, from the droplets and what their readings come to.
pub open spec fn report_of(body: JsonView, figures: Seq<FiguresView>) -> ReportView {
    let droplets = items_field(body, "droplets"@);
    let n = droplets.len();
    ReportView {
        state: if n == 0 {
            State::Unknown
        } else if active_among(droplets, n) == n {
            State::Healthy
        } else {
            State::Down
        },
        headline: if n == 0 {
            "no droplets"@
        } else {
            joined(Seq::new(n, |i: int| droplet_line(droplets[i], figures[i])), "; "@)
        },
        detail: JsonView::Object(
            map![
                "droplets"@ => JsonView::Array(
                    Seq::new(n, |i: int| droplet_document(droplets[i], figures[i])),
                ),
            ],
        ),
    }
}

fn addresses(d: &Json) -> (r: Vec<String>)
    ensures
        r.deep_view() == ipv4_of(d@),
{
    let mut out: Vec<String> = Vec::new();
    assert(out.deep_view() =~= Seq::<Seq<char>>::empty());
    let nets = match d.get("networks") {
        Some(networks) => match networks.get("v4") {
            Some(nets) => nets,
            None => {
                return out;
            },
        },
        None => {
            return out;
        },
    };
    let items = nets.items();
    let ghost views = items_of(nets@);
    let n: usize = items.len();
    for i in 0..n
        invariant
            n == items@.len(),
            views == items@.map_values(|j: Json| j@),
            out.deep_view() == public_ips(views, i as nat),
    {
        assert(views[i as int] == items@[i as int]@);
        let public = match items[i].text_at("type") {
            Some(kind) => same(kind, "public"),
            None => false,
        };
        if public {
            match items[i].text_at("ip_address") {
                Some(ip) => {
                    let ghost earlier = out.deep_view();
                    out.push(ip.to_owned());
                    assert(out.deep_view() =~= earlier.push(ip@));
                },
                None => {},
            }
        }
    }
    out
}

fn droplet_json(d: &Json, figures: &Figures) -> (r: Json)
    ensures
        r@ == droplet_document(d@, figures@),
{
    let mut o = Object::new();
    o.put_text("name", d.text_or_empty("name"));
    o.put_text("status", d.text_or_empty("status"));
    o.put_text("region", within_or_empty(d, "region", "slug"));
    o.put("ipv4", Json::text_array(&addresses(d)));
    o.put("vcpus", int_json(d, "vcpus"));
    o.put("memory_mb", int_json(d, "memory"));
    o.put("disk_gb", int_json(d, "disk"));
    o.put_text("created_at", d.text_or_empty("created_at"));
    o.put("load_1", figures.load_1.copy());
    o.put("memory_used_pct", figures.memory_used_pct.copy());
    assert(o@ =~= droplet_document(d@, figures@)->Object_0);
    Json::Object(o)
}

fn line_of(d: &Json, figures: &Figures) -> (r: String)
    ensures
        r@ == droplet_line(d@, figures@),
{
    let mut line = cat5(
        d.text_or_empty("name"),
        " ",
        within_or_empty(d, "region", "slug"),
        " ",
        d.text_or_empty("status"),
    );
    if let Some(load) = &figures.load_text {
        line = cat3(line.as_str(), " · load ", load.as_str());
    }
    if let Some(memory) = &figures.memory_text {
        line = cat4(line.as_str(), " · mem ", memory.as_str(), "%");
    }
    line
}

/// The report, from the droplets and what their readings come to.
pub fn report(body: &Json, figures: &Vec<Figures>) -> (r: Report)
    requires
        figures@.len() == items_field(body@, "droplets"@).len(),
    ensures
        r@ == report_of(body@, figures.deep_view()),
{
    let items = body.items_at("droplets");
    let ghost all = items_field(body@, "droplets"@);
    let ghost given = figures.deep_view();
    let n: usize = items.len();
    let mut shown: Vec<Json> = Vec::new();
    let mut lines: Vec<String> = Vec::new();
    let mut active: usize = 0;
    for i in 0..n
        invariant
            n == items@.len(),
            n == figures@.len(),
            all == items@.map_values(|j: Json| j@),
            given == figures.deep_view(),
            shown@.len() == i,
            lines@.len() == i,
            forall|k: int|
                0 <= k < i ==> (#[trigger] shown@[k])@ == droplet_document(all[k], given[k]),
            forall|k: int|
                0 <= k < i ==> (#[trigger] lines@[k])@ == droplet_line(all[k], given[k]),
            active == active_among(all, i as nat),
            active <= i,
    {
        let d = &items[i];
        assert(all[i as int] == d@);
        assert(given[i as int] == figures@[i as int]@);
        if same(d.text_or_empty("status"), "active") {
            active = active + 1;
        }
        lines.push(line_of(d, &figures[i]));
        shown.push(droplet_json(d, &figures[i]));
    }
    let ghost documents = Seq::new(all.len(), |i: int| droplet_document(all[i], given[i]));
    let ghost texts = Seq::new(all.len(), |i: int| droplet_line(all[i], given[i]));
    assert(shown.deep_view() =~= documents);
    assert(lines.deep_view() =~= texts);
    let state = if n == 0 {
        State::Unknown
    } else if active == n {
        State::Healthy
    } else {
        State::Down
    };
    let headline = if n == 0 {
        "no droplets".to_owned()
    } else {
        join(&lines, "; ")
    };
    let mut detail = Object::new();
    detail.put("droplets", Json::array(shown));
    assert(detail@ =~= map!["droplets"@ => JsonView::Array(documents)]);
    Report { state, headline, detail: Json::Object(detail) }
}

// ---- laws ---------------------------------------------------------------------------

/// The droplet is active.
pub open spec fn is_active(d: JsonView) -> bool {
    text_field(d, "status"@) == Some("active"@)
}

/// The state follows the droplets: `ok` just where there is one and each is active,
/// `down` where one is not, and `unknown` without droplets.
pub proof fn the_state_follows_the_droplets(body: JsonView, figures: Seq<FiguresView>)
    ensures
        ({
            let droplets = items_field(body, "droplets"@);
            let state = report_of(body, figures).state;
            let all = forall|i: int| 0 <= i < droplets.len() ==> is_active(#[trigger] droplets[i]);
            &&& state == State::Unknown <==> droplets.len() == 0
            &&& state == State::Healthy <==> droplets.len() > 0 && all
            &&& state == State::Down <==> !all
        }),
{
    let droplets = items_field(body, "droplets"@);
    active_among_the_first(droplets, droplets.len());
}

proof fn active_among_the_first(droplets: Seq<JsonView>, n: nat)
    requires
        n <= droplets.len(),
    ensures
        active_among(droplets, n) <= n,
        active_among(droplets, n) == n <==> forall|i: int|
            0 <= i < n ==> is_active(#[trigger] droplets[i]),
    decreases n,
{
    reveal_strlit("active");
    if n > 0 {
        active_among_the_first(droplets, (n - 1) as nat);
        assert("active"@.len() == 6);
    }
}

/// Each droplet is shown, in order, by its own name, status and region, its sizes,
/// its age, and what its own readings come to.
pub proof fn each_droplet_is_shown_as_it_is(body: JsonView, figures: Seq<FiguresView>, i: int)
    requires
        0 <= i < items_field(body, "droplets"@).len(),
    ensures
        ({
            let d = items_field(body, "droplets"@)[i];
            let shown = items_field(report_of(body, figures).detail, "droplets"@);
            &&& shown.len() == items_field(body, "droplets"@).len()
            &&& has_just(
                shown[i],
                set![
                    "name"@,
                    "status"@,
                    "region"@,
                    "ipv4"@,
                    "vcpus"@,
                    "memory_mb"@,
                    "disk_gb"@,
                    "created_at"@,
                    "load_1"@,
                    "memory_used_pct"@,
                ],
            )
            &&& text_field(shown[i], "name"@) == Some(text_or_empty(d, "name"@))
            &&& text_field(shown[i], "status"@) == Some(text_or_empty(d, "status"@))
            &&& text_field(shown[i], "region"@) == Some(text_in_or_empty(d, "region"@, "slug"@))
            &&& text_field(shown[i], "created_at"@) == Some(text_or_empty(d, "created_at"@))
            &&& field(shown[i], "vcpus"@) == Some(int_or_zero(d, "vcpus"@))
            &&& field(shown[i], "memory_mb"@) == Some(int_or_zero(d, "memory"@))
            &&& field(shown[i], "disk_gb"@) == Some(int_or_zero(d, "disk"@))
            &&& field(shown[i], "load_1"@) == Some(figures[i].load_1)
            &&& field(shown[i], "memory_used_pct"@) == Some(figures[i].memory_used_pct)
        }),
{
    reveal_strlit("name");
    reveal_strlit("status");
    reveal_strlit("region");
    reveal_strlit("ipv4");
    reveal_strlit("vcpus");
    reveal_strlit("memory_mb");
    reveal_strlit("disk_gb");
    reveal_strlit("created_at");
    reveal_strlit("load_1");
    reveal_strlit("memory_used_pct");
    assert("name"@.len() == 4 && "status"@.len() == 6 && "region"@.len() == 6
        && "ipv4"@.len() == 4 && "vcpus"@.len() == 5 && "memory_mb"@.len() == 9
        && "disk_gb"@.len() == 7 && "created_at"@.len() == 10 && "load_1"@.len() == 6
        && "memory_used_pct"@.len() == 15);
    assert("name"@[0] != "ipv4"@[0]);
    assert("status"@[0] != "region"@[0]);
    assert("status"@[0] != "load_1"@[0]);
    assert("region"@[0] != "load_1"@[0]);
    let d = items_field(body, "droplets"@)[i];
    let shown = items_field(report_of(body, figures).detail, "droplets"@);
    assert(shown[i] == droplet_document(d, figures[i]));
    assert(shown[i]->Object_0.dom() =~= set![
        "name"@,
        "status"@,
        "region"@,
        "ipv4"@,
        "vcpus"@,
        "memory_mb"@,
        "disk_gb"@,
        "created_at"@,
        "load_1"@,
        "memory_used_pct"@,
    ]);
}

/// An address is shown just where it is a public one of the droplet.
pub proof fn public_addresses_alone_are_shown(d: JsonView, nets: Seq<JsonView>, ip: Seq<char>)
    requires
        field_in(d, "networks"@, "v4"@) == Some(JsonView::Array(nets)),
    ensures
        ipv4_of(d).contains(ip) <==> exists|i: int|
            0 <= i < nets.len() && text_field(#[trigger] nets[i], "type"@) == Some("public"@)
                && text_field(nets[i], "ip_address"@) == Some(ip),
        items_field(
            droplet_document(
                d,
                FiguresView {
                    load_1: JsonView::Null,
                    load_text: None,
                    memory_used_pct: JsonView::Null,
                    memory_text: None,
                },
            ),
            "ipv4"@,
        ) == ipv4_of(d).map_values(|ip: Seq<char>| JsonView::Text(ip)),
{
    reveal_strlit("name");
    reveal_strlit("status");
    reveal_strlit("region");
    reveal_strlit("ipv4");
    reveal_strlit("vcpus");
    reveal_strlit("memory_mb");
    reveal_strlit("disk_gb");
    reveal_strlit("created_at");
    reveal_strlit("load_1");
    reveal_strlit("memory_used_pct");
    assert("name"@.len() == 4 && "status"@.len() == 6 && "region"@.len() == 6
        && "ipv4"@.len() == 4 && "vcpus"@.len() == 5 && "memory_mb"@.len() == 9
        && "disk_gb"@.len() == 7 && "created_at"@.len() == 10 && "load_1"@.len() == 6
        && "memory_used_pct"@.len() == 15);
    assert("name"@[0] != "ipv4"@[0]);
    assert("status"@[0] != "region"@[0]);
    assert("status"@[0] != "load_1"@[0]);
    assert("region"@[0] != "load_1"@[0]);
    public_among_the_first(nets, nets.len(), ip);
}

proof fn public_among_the_first(nets: Seq<JsonView>, n: nat, ip: Seq<char>)
    requires
        n <= nets.len(),
    ensures
        public_ips(nets, n).contains(ip) <==> exists|i: int|
            0 <= i < n && text_field(#[trigger] nets[i], "type"@) == Some("public"@) && text_field(
                nets[i],
                "ip_address"@,
            ) == Some(ip),
    decreases n,
{
    if n > 0 {
        let m = (n - 1) as nat;
        public_among_the_first(nets, m, ip);
        let earlier = public_ips(nets, m);
        let all = public_ips(nets, n);
        if all.contains(ip) {
            let k = choose|k: int| 0 <= k < all.len() && all[k] == ip;
            if k < earlier.len() {
                assert(earlier[k] == ip);
                assert(earlier.contains(ip));
            } else {
                assert(text_field(nets[n - 1], "ip_address"@) == Some(ip));
            }
        }
        if exists|i: int|
            0 <= i < n && text_field(#[trigger] nets[i], "type"@) == Some("public"@) && text_field(
                nets[i],
                "ip_address"@,
            ) == Some(ip) {
            let i = choose|i: int|
                0 <= i < n && text_field(#[trigger] nets[i], "type"@) == Some("public"@)
                    && text_field(nets[i], "ip_address"@) == Some(ip);
            if i < m {
                let k = earlier.index_of(ip);
                assert(all[k] == ip);
            } else {
                assert(all[all.len() - 1] == ip);
            }
        }
    }
}

/// A droplet is told in a line: its name, region and status, and its load and
/// memory where there are figures.
pub proof fn a_droplet_is_told_in_a_line(
    d: JsonView,
    figures: FiguresView,
    name: Seq<char>,
    region: Seq<char>,
    status: Seq<char>,
    load: Seq<char>,
    memory: Seq<char>,
)
    requires
        text_field(d, "name"@) == Some(name),
        text_in(d, "region"@, "slug"@) == Some(region),
        text_field(d, "status"@) == Some(status),
    ensures
        figures.load_text is None && figures.memory_text is None ==> droplet_line(d, figures)
            == name + " "@ + region + " "@ + status,
        figures.load_text == Some(load) && figures.memory_text is None ==> droplet_line(d, figures)
            == name + " "@ + region + " "@ + status + " · load "@ + load,
        figures.load_text is None && figures.memory_text == Some(memory) ==> droplet_line(
            d,
            figures,
        ) == name + " "@ + region + " "@ + status + " · mem "@ + memory + "%"@,
        figures.load_text == Some(load) && figures.memory_text == Some(memory) ==> droplet_line(
            d,
            figures,
        ) == name + " "@ + region + " "@ + status + " · load "@ + load + " · mem "@ + memory
            + "%"@,
{
}

/// The droplets are asked for first, and then, for each in order, its load, its
/// memory and its free memory over the last ten minutes; each answer is read as the
/// gauge that it was asked for.
pub proof fn each_gauge_is_asked_of_its_droplet(
    base: Seq<char>,
    answers: Seq<JsonView>,
    end: i64,
    i: int,
    id: i64,
)
    requires
        answers.len() > 0,
        end >= 0,
        0 <= i < items_field(answers[0], "droplets"@).len(),
        int_field(items_field(answers[0], "droplets"@)[i], "id"@) == Some(id),
    ensures
        step_of(base, Seq::empty(), end) == StepView::Get(base + "/v2/droplets?per_page=50"@),
        ({
            let window = "?host_id="@ + (signed_decimal(id as int) + "&start="@ + signed_decimal(
                end - 600,
            ) + "&end="@ + signed_decimal(end as int));
            let at = base + "/v2/monitoring/metrics/droplet/"@;
            &&& answers.len() == 3 * i + 1 ==> step_of(base, answers, end) == StepView::Try(
                at + "load_1"@ + window,
            )
            &&& answers.len() == 3 * i + 2 ==> step_of(base, answers, end) == StepView::Try(
                at + "memory_total"@ + window,
            )
            &&& answers.len() == 3 * i + 3 ==> step_of(base, answers, end) == StepView::Try(
                at + "memory_available"@ + window,
            )
        }),
        answers.len() == 3 * items_field(answers[0], "droplets"@).len() + 1 ==> (step_of(
            base,
            answers,
            end,
        ) matches StepView::Measure(readings) && readings.len() == items_field(
            answers[0],
            "droplets"@,
        ).len() && readings[i].load == latest_value(answers[3 * i + 1])
            && readings[i].memory_total == latest_value(answers[3 * i + 2])
            && readings[i].memory_available == latest_value(answers[3 * i + 3])),
{
    let window = "?host_id="@ + (signed_decimal(id as int) + "&start="@ + signed_decimal(end - 600)
        + "&end="@ + signed_decimal(end as int));
    let at = base + "/v2/monitoring/metrics/droplet/"@;
    let asked = answers.len() - 1;
    if 3 * i <= asked < 3 * i + 3 {
        assert(asked / 3 == i && asked % 3 == asked - 3 * i);
        let metric = metric_of(asked % 3);
        assert(gauge_url(base, metric, id as int, end) =~= at + metric + window);
    }
}

/// A gauge reads as its latest value.
pub proof fn a_gauge_reads_as_its_latest_value(
    body: JsonView,
    series: Seq<JsonView>,
    values: Seq<JsonView>,
    at: JsonView,
    value: Seq<char>,
)
    requires
        field_in(body, "data"@, "result"@) == Some(JsonView::Array(series)),
        series.len() > 0,
        field(series[0], "values"@) == Some(JsonView::Array(values)),
        values.len() > 0,
        values.last() == JsonView::Array(seq![at, JsonView::Text(value)]),
    ensures
        latest_value(body) == Some(value),
{
}

/// Every droplet is told in its line, one after another; without a droplet that is
/// told.
pub proof fn every_droplet_is_told(body: JsonView, figures: Seq<FiguresView>)
    ensures
        ({
            let droplets = items_field(body, "droplets"@);
            report_of(body, figures).headline == (if droplets.len() == 0 {
                "no droplets"@
            } else {
                joined(
                    Seq::new(droplets.len(), |i: int| droplet_line(droplets[i], figures[i])),
                    "; "@,
                )
            })
        }),
{
}

/// The public addresses stand in the order of the droplet's networks.
pub proof fn public_addresses_stand_in_order(nets: Seq<JsonView>, n: nat)
    requires
        n < nets.len(),
    ensures
        public_ips(nets, 0).len() == 0,
        text_field(nets[n as int], "type"@) == Some("public"@) ==> (text_field(
            nets[n as int],
            "ip_address"@,
        ) matches Some(ip) ==> public_ips(nets, n + 1) == public_ips(nets, n).push(ip)),
        text_field(nets[n as int], "type"@) != Some("public"@) || text_field(
            nets[n as int],
            "ip_address"@,
        ) is None ==> public_ips(nets, n + 1) == public_ips(nets, n),
{
}

} // verus!
