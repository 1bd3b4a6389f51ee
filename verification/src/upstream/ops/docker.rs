//! The Docker engine on the droplet, over its unix socket (mounted read-only into
//! the API's container). One call: `GET /containers/json`.

use super::{counted, plural, Report, ReportView, State, Step, StepView};
use crate::error::{outcome, Error, ErrorView, Result};
use crate::json::{field, has_just, int_field, items_field, items_of, parsed_list, pointed_first, text_array_view, text_field, text_or_empty, Json, JsonView, Object};
use crate::sse::{lossy, read_as};
use crate::text::{cat2, cat3, cat4, cat5, decimal, number, same, signed_decimal, signed_number, trim_start_of, without_leading};
use vstd::prelude::*;

verus! {

/// The path of the one call.
pub open spec fn containers_path() -> Seq<char> {
    "/containers/json?all=1"@
}

/// A failure on the way to the engine.
pub open spec fn engine_failure(status: u16, message: Seq<char>) -> ErrorView {
    ErrorView::Upstream { status, kind: "ops"@, message: "Docker: "@ + message, retry_after: None }
}

/// A failure on the way to the engine.
pub fn docker_err(message: &str) -> (r: Error)
    ensures
        r@ == engine_failure(502, message@),
{
    Error::Upstream {
        status: 502,
        kind: "ops".to_owned(),
        message: cat2("Docker: ", message),
        retry_after: None,
    }
}

/// The socket could not be opened.
pub fn socket_err(socket: &str, why: &str) -> (r: Error)
    ensures
        r@ == socket_failure(socket@, why@),
{
    let message = cat4("socket ", socket, ": ", why);
    Error::Upstream {
        status: 503,
        kind: "ops".to_owned(),
        message: cat2("Docker: ", message.as_str()),
        retry_after: None,
    }
}

/// A failure to reach the engine's socket.
pub open spec fn socket_failure(socket: Seq<char>, why: Seq<char>) -> ErrorView {
    engine_failure(503, "socket "@ + socket + ": "@ + why)
}

/// What the engine's answer reads as: a list of containers. Of a refusal, its text
/// is shown.
pub open spec fn list_of(
    status: u16,
    text: Seq<char>,
    body: std::result::Result<Seq<JsonView>, Seq<char>>,
) -> std::result::Result<JsonView, ErrorView> {
    if !(200 <= status < 300) {
        Err(engine_failure(502, decimal(status as nat) + " "@ + text))
    } else {
        match body {
            Ok(containers) => Ok(JsonView::Array(containers)),
            Err(why) => Err(engine_failure(502, "bad JSON: "@ + why)),
        }
    }
}

/// What the engine's answer reads as, from its bytes.
pub fn read_list(status: u16, body: &[u8]) -> (r: Result<Json>)
    ensures
        outcome(r) == list_of(status, read_as(body@), parsed_list(body@)),
{
    read_list_document(status, lossy(body).as_str(), Json::parse_list(body))
}

/// The same, given the text and what the bytes write.
pub fn read_list_document(
    status: u16,
    text: &str,
    body: std::result::Result<Vec<Json>, String>,
) -> (r: Result<Json>)
    ensures
        outcome(r) == list_of(
            status,
            text@,
            match body {
                Ok(containers) => Ok(containers.deep_view()),
                Err(why) => Err(why@),
            },
        ),
{
    if !(200 <= status && status < 300) {
        return Err(docker_err(cat3(number(status as u128).as_str(), " ", text).as_str()));
    }
    match body {
        Ok(containers) => Ok(Json::array(containers)),
        Err(why) => Err(docker_err(cat2("bad JSON: ", why.as_str()).as_str())),
    }
}

/// A port of a container, with the public one it is reached by where there is
/// one; none, where the engine does not say which port it is.
pub open spec fn port_text(p: JsonView) -> Option<Seq<char>> {
    let proto = match text_field(p, "Type"@) {
        Some(proto) => proto,
        None => "tcp"@,
    };
    match int_field(p, "PrivatePort"@) {
        Some(private) => Some(
            match int_field(p, "PublicPort"@) {
                Some(public) => signed_decimal(public as int) + "->"@ + signed_decimal(
                    private as int,
                ) + "/"@ + proto,
                None => signed_decimal(private as int) + "/"@ + proto,
            },
        ),
        None => None,
    }
}

/// The ports among the first `n`.
pub open spec fn port_texts(ports: Seq<JsonView>, n: nat) -> Seq<Seq<char>>
    decreases n,
{
    if n == 0 {
        Seq::empty()
    } else {
        let earlier = port_texts(ports, (n - 1) as nat);
        match port_text(ports[n - 1]) {
            Some(text) => earlier.push(text),
            None => earlier,
        }
    }
}

/// The container's first name, without the leading `/`.
pub open spec fn container_name(c: JsonView) -> Seq<char> {
    let first = match field(c, "Names"@) {
        Some(names) => pointed_first(names),
        None => None,
    };
    match first {
        Some(JsonView::Text(name)) => without_leading(name, '/'),
        _ => Seq::empty(),
    }
}

/// A container as it is shown.
pub open spec fn container_document(c: JsonView) -> JsonView {
    let ports = items_field(c, "Ports"@);
    JsonView::Object(
        map![
            "name"@ => JsonView::Text(container_name(c)),
            "image"@ => JsonView::Text(text_or_empty(c, "Image"@)),
            "state"@ => JsonView::Text(text_or_empty(c, "State"@)),
            "status"@ => JsonView::Text(text_or_empty(c, "Status"@)),
            "ports"@ => text_array_view(port_texts(ports, ports.len())),
        ],
    )
}

/// How many of the first `n` containers are running.
pub open spec fn running_among(containers: Seq<JsonView>, n: nat) -> nat
    decreases n,
{
    if n == 0 {
        0
    } else {
        running_among(containers, (n - 1) as nat) + if text_or_empty(
            containers[n - 1],
            "State"@,
        ) == "running"@ {
            1nat
        } else {
            0nat
        }
    }
}

/// The report, from the list.
pub open spec fn report_of(list: JsonView) -> ReportView {
    let containers = items_of(list);
    let n = containers.len();
    let running = running_among(containers, n);
    ReportView {
        state: if n == 0 {
            State::Unknown
        } else if running == n {
            State::Healthy
        } else if running == 0 {
            State::Down
        } else {
            State::Warn
        },
        headline: if n == 0 {
            counted(0, "container"@, "containers"@)
        } else {
            decimal(running) + "/"@ + decimal(n) + " running"@
        },
        detail: JsonView::Object(
            map![
                "containers"@ => JsonView::Array(
                    containers.map_values(|c: JsonView| container_document(c)),
                ),
            ],
        ),
    }
}

/// What a check does next, given the answers it has.
pub open spec fn step_of(answers: Seq<JsonView>) -> StepView {
    if answers.len() == 0 {
        StepView::Socket(containers_path())
    } else {
        StepView::Done(report_of(answers[0]))
    }
}

/// What a check does next, given the answers it has.
pub fn check(answers: &Vec<Json>) -> (r: Step)
    ensures
        r@ == step_of(answers.deep_view()),
{
    if answers.len() == 0 {
        Step::Socket("/containers/json?all=1".to_owned())
    } else {
        assert(answers.deep_view()[0] == answers@[0]@);
        Step::Done(report(&answers[0]))
    }
}

fn port_line(p: &Json) -> (r: Option<String>)
    ensures
        r.deep_view() == port_text(p@),
{
    let private: i64 = match p.int_at("PrivatePort") {
        Some(private) => private,
        None => {
            return None;
        },
    };
    let proto = match p.text_at("Type") {
        Some(proto) => proto,
        None => "tcp",
    };
    match p.int_at("PublicPort") {
        Some(public) => Some(
            cat5(
                signed_number(public).as_str(),
                "->",
                signed_number(private).as_str(),
                "/",
                proto,
            ),
        ),
        None => Some(cat3(signed_number(private).as_str(), "/", proto)),
    }
}

fn name_of(c: &Json) -> (r: &str)
    ensures
        r@ == container_name(c@),
{
    proof {
        reveal_strlit("");
        assert(""@ =~= Seq::empty());
    }
    match c.get("Names") {
        Some(names) => match names.first() {
            Some(Json::Text(name)) => trim_start_of(name.as_str(), '/'),
            _ => "",
        },
        None => "",
    }
}

fn container_json(c: &Json) -> (r: Json)
    ensures
        r@ == container_document(c@),
{
    let items = c.items_at("Ports");
    let ghost views = items_field(c@, "Ports"@);
    let mut ports: Vec<String> = Vec::new();
    let n: usize = items.len();
    assert(ports.deep_view() =~= port_texts(views, 0));
    for i in 0..n
        invariant
            n == items@.len(),
            views == items@.map_values(|j: Json| j@),
            ports.deep_view() == port_texts(views, i as nat),
    {
        assert(views[i as int] == items@[i as int]@);
        let ghost earlier = ports.deep_view();
        match port_line(&items[i]) {
            Some(text) => {
                ports.push(text);
                assert(ports.deep_view() =~= earlier.push(text@));
            },
            None => {},
        }
    }
    let mut o = Object::new();
    o.put_text("name", name_of(c));
    o.put_text("image", c.text_or_empty("Image"));
    o.put_text("state", c.text_or_empty("State"));
    o.put_text("status", c.text_or_empty("Status"));
    o.put("ports", Json::text_array(&ports));
    assert(o@ =~= container_document(c@)->Object_0);
    Json::Object(o)
}

fn report(list: &Json) -> (r: Report)
    ensures
        r@ == report_of(list@),
{
    let items = list.items();
    let ghost views = items_of(list@);
    let n: usize = items.len();
    let mut containers: Vec<Json> = Vec::new();
    let mut running: usize = 0;
    for i in 0..n
        invariant
            n == items@.len(),
            views == items@.map_values(|j: Json| j@),
            containers@.len() == i,
            forall|k: int|
                0 <= k < i ==> (#[trigger] containers@[k])@ == container_document(items@[k]@),
            running == running_among(views, i as nat),
            running <= i,
    {
        let c = &items[i];
        assert(views[i as int] == c@);
        if same(c.text_or_empty("State"), "running") {
            running = running + 1;
        }
        containers.push(container_json(c));
    }
    let ghost shown = views.map_values(|c: JsonView| container_document(c));
    assert(containers.deep_view() =~= shown);
    let state = if n == 0 {
        State::Unknown
    } else if running == n {
        State::Healthy
    } else if running == 0 {
        State::Down
    } else {
        State::Warn
    };
    let headline = if n == 0 {
        plural(0, "container", "containers")
    } else {
        cat4(number(running as u128).as_str(), "/", number(n as u128).as_str(), " running")
    };
    let mut detail = Object::new();
    detail.put("containers", Json::array(containers));
    assert(detail@ =~= map!["containers"@ => JsonView::Array(shown)]);
    Report { state, headline, detail: Json::Object(detail) }
}

// ---- laws ---------------------------------------------------------------------------

/// The container is running.
pub open spec fn is_running(c: JsonView) -> bool {
    text_field(c, "State"@) == Some("running"@)
}

/// The state follows the containers: `ok` just where there is one and each is
/// running, `down` just where there is one and none is, `warn` in between, and
/// `unknown` without containers. The headline counts those that are running.
pub proof fn the_state_follows_the_containers(list: JsonView)
    ensures
        ({
            let containers = items_of(list);
            let state = report_of(list).state;
            let all = forall|i: int|
                0 <= i < containers.len() ==> is_running(#[trigger] containers[i]);
            let some = exists|i: int|
                0 <= i < containers.len() && is_running(#[trigger] containers[i]);
            &&& state == State::Unknown <==> containers.len() == 0
            &&& state == State::Healthy <==> containers.len() > 0 && all
            &&& state == State::Down <==> containers.len() > 0 && !some
            &&& state == State::Warn <==> some && !all
            &&& report_of(list).headline == (if containers.len() == 0 {
                "0 containers"@
            } else {
                decimal(containers.filter(|c: JsonView| is_running(c)).len()) + "/"@ + decimal(
                    containers.len(),
                ) + " running"@
            })
        }),
{
    let containers = items_of(list);
    running_among_the_first(containers, containers.len());
    assert(containers.take(containers.len() as int) =~= containers);
    reveal_strlit("0 containers");
    reveal_strlit(" ");
    reveal_strlit("containers");
    assert(decimal(0) + " "@ + "containers"@ =~= "0 containers"@);
}

proof fn running_among_the_first(containers: Seq<JsonView>, n: nat)
    requires
        n <= containers.len(),
    ensures
        running_among(containers, n) == containers.take(n as int).filter(
            |c: JsonView| is_running(c),
        ).len(),
        running_among(containers, n) <= n,
        running_among(containers, n) > 0 <==> exists|i: int|
            0 <= i < n && is_running(#[trigger] containers[i]),
        running_among(containers, n) == n <==> forall|i: int|
            0 <= i < n ==> is_running(#[trigger] containers[i]),
    decreases n,
{
    reveal(Seq::filter);
    reveal_strlit("running");
    if n > 0 {
        let m = (n - 1) as nat;
        running_among_the_first(containers, m);
        assert(containers.take(n as int).drop_last() =~= containers.take(m as int));
        assert(containers.take(n as int).last() == containers[n - 1]);
        assert("running"@.len() == 7);
    }
}

/// Each container is shown, in order, by its own name without the leading `/`, its
/// image, its state, its status and its ports.
pub proof fn each_container_is_shown_as_it_is(list: JsonView, i: int, name: Seq<char>)
    requires
        0 <= i < items_of(list).len(),
        !(name.len() > 0 && name[0] == '/'),
    ensures
        ({
            let c = items_of(list)[i];
            let shown = items_field(report_of(list).detail, "containers"@);
            &&& shown.len() == items_of(list).len()
            &&& has_just(shown[i], set!["name"@, "image"@, "state"@, "status"@, "ports"@])
            &&& text_field(shown[i], "image"@) == Some(text_or_empty(c, "Image"@))
            &&& text_field(shown[i], "state"@) == Some(text_or_empty(c, "State"@))
            &&& text_field(shown[i], "status"@) == Some(text_or_empty(c, "Status"@))
            &&& (field(c, "Names"@) matches Some(JsonView::Array(names)) && names.len() > 0
                && names[0] == JsonView::Text("/"@ + name)) ==> text_field(shown[i], "name"@)
                == Some(name)
            &&& field(c, "Ports"@) matches Some(JsonView::Array(ports)) ==> items_field(
                shown[i],
                "ports"@,
            ).len() == ports.filter(|p: JsonView| int_field(p, "PrivatePort"@) is Some).len()
        }),
{
    reveal_strlit("name");
    reveal_strlit("image");
    reveal_strlit("state");
    reveal_strlit("status");
    reveal_strlit("ports");
    assert("name"@.len() == 4 && "image"@.len() == 5 && "state"@.len() == 5
        && "status"@.len() == 6 && "ports"@.len() == 5);
    assert("image"@[0] != "state"@[0]);
    assert("image"@[0] != "ports"@[0]);
    assert("state"@[0] != "ports"@[0]);
    reveal_strlit("/");
    let c = items_of(list)[i];
    let shown = items_field(report_of(list).detail, "containers"@);
    assert(shown[i] == container_document(c));
    assert(shown[i]->Object_0.dom() =~= set!["name"@, "image"@, "state"@, "status"@, "ports"@]);
    reveal_with_fuel(without_leading, 2);
    assert(("/"@ + name).drop_first() =~= name);
    if let Some(JsonView::Array(ports)) = field(c, "Ports"@) {
        ports_among_the_first(ports, ports.len());
        assert(ports.take(ports.len() as int) =~= ports);
    }
}

proof fn ports_among_the_first(ports: Seq<JsonView>, n: nat)
    requires
        n <= ports.len(),
    ensures
        port_texts(ports, n).len() == ports.take(n as int).filter(
            |p: JsonView| int_field(p, "PrivatePort"@) is Some,
        ).len(),
    decreases n,
{
    reveal(Seq::filter);
    if n > 0 {
        ports_among_the_first(ports, (n - 1) as nat);
        assert(ports.take(n as int).drop_last() =~= ports.take(n - 1));
        assert(ports.take(n as int).last() == ports[n - 1]);
    }
}

/// A port is written `private/protocol`, with `public->` before it where it is
/// published; the protocol is `tcp` where the engine names none.
pub proof fn a_port_is_written_as_it_is_published(
    p: JsonView,
    private: i64,
    public: i64,
    proto: Seq<char>,
)
    requires
        int_field(p, "PrivatePort"@) == Some(private),
        text_field(p, "Type"@) == Some(proto) || (text_field(p, "Type"@) is None && proto
            == "tcp"@),
    ensures
        int_field(p, "PublicPort"@) == Some(public) ==> port_text(p) == Some(
            signed_decimal(public as int) + "->"@ + signed_decimal(private as int) + "/"@ + proto,
        ),
        int_field(p, "PublicPort"@) is None ==> port_text(p) == Some(
            signed_decimal(private as int) + "/"@ + proto,
        ),
{
}

/// The engine is asked once, for all containers; what it refuses, or answers that is
/// no list, is a failure that says so.
pub proof fn the_engine_is_asked_once(answers: Seq<JsonView>, status: u16, text: Seq<char>)
    ensures
        answers.len() == 0 ==> step_of(answers) == StepView::Socket("/containers/json?all=1"@),
        answers.len() > 0 ==> step_of(answers) == StepView::Done(report_of(answers[0])),
        forall|list: Seq<JsonView>|
            200 <= status < 300 ==> #[trigger] list_of(status, text, Ok(list)) == Ok::<
                JsonView,
                ErrorView,
            >(JsonView::Array(list)),
        !(200 <= status < 300) ==> (list_of(status, text, Err(text)) matches Err(
            ErrorView::Upstream { message, .. },
        ) && message == "Docker: "@ + (decimal(status as nat) + " "@ + text)),
{
}

/// Where the engine says of each port which it is, all are shown, in order.
pub proof fn all_ports_are_shown(c: JsonView, ports: Seq<JsonView>, k: int)
    requires
        field(c, "Ports"@) == Some(JsonView::Array(ports)),
        forall|i: int|
            0 <= i < ports.len() ==> int_field(#[trigger] ports[i], "PrivatePort"@) is Some,
        0 <= k < ports.len(),
    ensures
        items_field(container_document(c), "ports"@).len() == ports.len(),
        items_field(container_document(c), "ports"@)[k] == JsonView::Text(port_text(ports[k])->0),
{
    reveal_strlit("name");
    reveal_strlit("image");
    reveal_strlit("state");
    reveal_strlit("status");
    reveal_strlit("ports");
    assert("name"@.len() == 4 && "image"@.len() == 5 && "state"@.len() == 5
        && "status"@.len() == 6 && "ports"@.len() == 5);
    assert("image"@[0] != "state"@[0]);
    assert("image"@[0] != "ports"@[0]);
    assert("state"@[0] != "ports"@[0]);
    all_port_texts(ports, ports.len());
}

proof fn all_port_texts(ports: Seq<JsonView>, n: nat)
    requires
        n <= ports.len(),
        forall|i: int|
            0 <= i < ports.len() ==> int_field(#[trigger] ports[i], "PrivatePort"@) is Some,
    ensures
        port_texts(ports, n) == Seq::new(n, |i: int| port_text(ports[i])->0),
    decreases n,
{
    if n > 0 {
        all_port_texts(ports, (n - 1) as nat);
        assert(int_field(ports[n - 1], "PrivatePort"@) is Some);
    }
    assert(port_texts(ports, n) =~= Seq::new(n, |i: int| port_text(ports[i])->0));
}

/// A failure on the way to the engine is told with what failed: the socket, by its
/// path, is not there; the engine refuses; or its answer does not read.
pub proof fn a_failing_engine_is_told(
    status: u16,
    text: Seq<char>,
    why: Seq<char>,
    socket: Seq<char>,
    body: std::result::Result<Seq<JsonView>, Seq<char>>,
)
    ensures
        list_of(status, text, body) is Ok <==> 200 <= status <= 299 && body is Ok,
        !(200 <= status <= 299) ==> (list_of(status, text, body) matches Err(
            ErrorView::Upstream { status: told, kind, message, retry_after },
        ) && told == 502 && kind == "ops"@ && retry_after is None && message == "Docker: "@ + (
        decimal(status as nat) + " "@ + text)),
        200 <= status <= 299 ==> (list_of(status, text, Err(why)) matches Err(
            ErrorView::Upstream { status: told, kind, message, retry_after },
        ) && told == 502 && kind == "ops"@ && retry_after is None && message
            == "Docker: bad JSON: "@ + why),
        socket_failure(socket, why) matches ErrorView::Upstream {
            status: told,
            kind,
            message,
            retry_after,
        } && told == 503 && kind == "ops"@ && retry_after is None && message == "Docker: socket "@
            + socket + ": "@ + why,
{
    reveal_strlit("Docker: ");
    reveal_strlit("bad JSON: ");
    reveal_strlit("Docker: bad JSON: ");
    reveal_strlit("socket ");
    reveal_strlit("Docker: socket ");
    assert("Docker: "@ + ("bad JSON: "@ + why) =~= "Docker: bad JSON: "@ + why);
    assert("Docker: "@ + ("socket "@ + socket + ": "@ + why) =~= "Docker: socket "@ + socket + ": "@
        + why);
}

/// The ports stand in the order of the engine's list; one that it does not number is
/// left out.
pub proof fn ports_stand_in_order(ports: Seq<JsonView>, n: nat)
    requires
        n < ports.len(),
    ensures
        port_texts(ports, 0).len() == 0,
        int_field(ports[n as int], "PrivatePort"@) is None ==> port_texts(ports, n + 1)
            == port_texts(ports, n),
        int_field(ports[n as int], "PrivatePort"@) is Some ==> (port_text(
            ports[n as int],
        ) matches Some(text) && port_texts(ports, n + 1) == port_texts(ports, n).push(text)),
{
}

} // verus!
