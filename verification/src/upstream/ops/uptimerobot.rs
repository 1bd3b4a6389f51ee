//! UptimeRobot (`POST /v2/getMonitors`, form-encoded, the key in the body).
//! Status codes: 0 paused, 1 not checked yet, 2 up, 8 seems down, 9 down.

use super::{counted, plural, Report, ReportView, State, Step, StepView};
use crate::error::{outcome, Error, ErrorView, Result};
use crate::json::{field, has_just, int_field, integer_number, items_field, pointed_first, text_field, text_in, text_or_empty, Json, JsonView, Object};
use crate::text::{cat2, cat3, cat4, cat5, chars_of, decimal, number, pieces, same, split};
use vstd::prelude::*;

verus! {

/// The text with what separates a form's fields escaped.
pub open spec fn form_escaped(s: Seq<char>) -> Seq<char>
    decreases s.len(),
{
    if s.len() == 0 {
        Seq::empty()
    } else {
        form_escaped(s.drop_last()) + if s.last() == '&' {
            "%26"@
        } else if s.last() == '=' {
            "%3D"@
        } else {
            seq![s.last()]
        }
    }
}

fn escape(s: &str) -> (r: String)
    ensures
        r@ == form_escaped(s@),
{
    let v = chars_of(s);
    let n: usize = v.len();
    let mut out = String::new();
    assert(s@.take(0) =~= Seq::empty());
    for i in 0..n
        invariant
            n == v@.len(),
            v@ == s@,
            out@ == form_escaped(s@.take(i as int)),
    {
        let c: char = v[i];
        let ghost earlier = out@;
        assert(s@.take(i + 1).drop_last() =~= s@.take(i as int));
        assert(s@.take(i + 1).last() == c);
        if c == '&' {
            out.append("%26");
        } else if c == '=' {
            out.append("%3D");
        } else {
            out.push(c);
            assert(earlier.push(c) =~= earlier + seq![c]);
        }
    }
    assert(s@.take(n as int) =~= s@);
    out
}

/// The form that asks for the monitors, with what they did over a day, a week and
/// a month.
pub open spec fn form_of(api_key: Seq<char>) -> Seq<char> {
    "api_key="@ + form_escaped(api_key)
        + "&format=json&response_times=1&response_times_limit=1&custom_uptime_ratios=1-7-30"@
}

/// The monitor's status code; one that is not given has not been checked yet.
pub open spec fn code_of(m: JsonView) -> i64 {
    match int_field(m, "status"@) {
        Some(code) => code,
        None => 1,
    }
}

pub open spec fn code_name(code: i64) -> Seq<char> {
    if code == 0 {
        "paused"@
    } else if code == 1 {
        "pending"@
    } else if code == 2 {
        "up"@
    } else if code == 8 {
        "seems_down"@
    } else if code == 9 {
        "down"@
    } else {
        "unknown"@
    }
}

fn name_of_code(code: i64) -> (r: &'static str)
    ensures
        r@ == code_name(code),
{
    if code == 0 {
        "paused"
    } else if code == 1 {
        "pending"
    } else if code == 2 {
        "up"
    } else if code == 8 {
        "seems_down"
    } else if code == 9 {
        "down"
    } else {
        "unknown"
    }
}

/// The uptime ratio at that place of the list `day-week-month`.
pub open spec fn ratio(m: JsonView, i: int) -> Seq<char> {
    match text_field(m, "custom_uptime_ratio"@) {
        Some(ratios) => if i < pieces(ratios, '-').len() {
            pieces(ratios, '-')[i]
        } else {
            Seq::empty()
        },
        None => Seq::empty(),
    }
}

/// The latest response time in milliseconds, or null.
pub open spec fn response_ms(m: JsonView) -> JsonView {
    let latest = match field(m, "response_times"@) {
        Some(times) => match pointed_first(times) {
            Some(first) => int_field(first, "value"@),
            None => None,
        },
        None => None,
    };
    match latest {
        Some(ms) => JsonView::Number(integer_number(ms)),
        None => JsonView::Null,
    }
}

/// A monitor as it is shown.
pub open spec fn monitor_document(m: JsonView) -> JsonView {
    JsonView::Object(
        map![
            "name"@ => JsonView::Text(text_or_empty(m, "friendly_name"@)),
            "url"@ => JsonView::Text(text_or_empty(m, "url"@)),
            "status"@ => JsonView::Text(code_name(code_of(m))),
            "uptime_24h"@ => JsonView::Text(ratio(m, 0)),
            "uptime_7d"@ => JsonView::Text(ratio(m, 1)),
            "uptime_30d"@ => JsonView::Text(ratio(m, 2)),
            "response_ms"@ => response_ms(m),
        ],
    )
}

/// How many of the first `n` monitors are up.
pub open spec fn up_among(monitors: Seq<JsonView>, n: nat) -> nat
    decreases n,
{
    if n == 0 {
        0
    } else {
        up_among(monitors, (n - 1) as nat) + if code_of(monitors[n - 1]) == 2 {
            1nat
        } else {
            0nat
        }
    }
}

/// How many of the first `n` monitors are down, or seem to be.
pub open spec fn down_among(monitors: Seq<JsonView>, n: nat) -> nat
    decreases n,
{
    if n == 0 {
        0
    } else {
        let code = code_of(monitors[n - 1]);
        down_among(monitors, (n - 1) as nat) + if code == 8 || code == 9 {
            1nat
        } else {
            0nat
        }
    }
}

/// The report, from the answer.
pub open spec fn report_of(body: JsonView) -> ReportView {
    let monitors = items_field(body, "monitors"@);
    let n = monitors.len();
    let up = up_among(monitors, n);
    let down = down_among(monitors, n);
    ReportView {
        state: if n == 0 {
            State::Unknown
        } else if down > 0 {
            State::Down
        } else if up < n {
            State::Warn
        } else {
            State::Healthy
        },
        headline: if n == 0 {
            counted(0, "monitor"@, "monitors"@)
        } else if down > 0 {
            decimal(up) + "/"@ + decimal(n) + " up · "@ + (decimal(down) + " down"@)
        } else {
            decimal(up) + "/"@ + decimal(n) + " up"@
        },
        detail: JsonView::Object(
            map![
                "monitors"@ => JsonView::Array(
                    monitors.map_values(|m: JsonView| monitor_document(m)),
                ),
            ],
        ),
    }
}

/// What a check does next, given the answers it has. An answer that does not say
/// `ok` is a refusal.
pub open spec fn step_of(
    base: Seq<char>,
    api_key: Seq<char>,
    answers: Seq<JsonView>,
) -> std::result::Result<StepView, ErrorView> {
    if answers.len() == 0 {
        Ok(StepView::Form(base + "/v2/getMonitors"@, form_of(api_key)))
    } else if text_field(answers[0], "stat"@) != Some("ok"@) {
        Err(
            ErrorView::Upstream {
                status: 400,
                kind: "ops"@,
                message: "UptimeRobot: "@ + match text_in(answers[0], "error"@, "message"@) {
                    Some(message) => message,
                    None => "request rejected"@,
                },
                retry_after: None,
            },
        )
    } else {
        Ok(StepView::Done(report_of(answers[0])))
    }
}

fn ratio_text(ratios: &Option<Vec<String>>, i: usize) -> (r: &str)
    ensures
        r@ == (match ratios {
            Some(ratios) => if i < ratios@.len() {
                ratios.deep_view()[i as int]
            } else {
                Seq::empty()
            },
            None => Seq::empty(),
        }),
{
    proof {
        reveal_strlit("");
        assert(""@ =~= Seq::empty());
    }
    match ratios {
        Some(ratios) => if i < ratios.len() {
            ratios[i].as_str()
        } else {
            ""
        },
        None => "",
    }
}

fn monitor_json(m: &Json) -> (r: Json)
    ensures
        r@ == monitor_document(m@),
{
    let code: i64 = match m.int_at("status") {
        Some(code) => code,
        None => 1,
    };
    let ratios = match m.text_at("custom_uptime_ratio") {
        Some(ratios) => Some(split(ratios, '-')),
        None => None,
    };
    let latest = match m.get("response_times") {
        Some(times) => match times.first() {
            Some(first) => first.int_at("value"),
            None => None,
        },
        None => None,
    };
    let mut o = Object::new();
    o.put_text("name", m.text_or_empty("friendly_name"));
    o.put_text("url", m.text_or_empty("url"));
    o.put_text("status", name_of_code(code));
    o.put_text("uptime_24h", ratio_text(&ratios, 0));
    o.put_text("uptime_7d", ratio_text(&ratios, 1));
    o.put_text("uptime_30d", ratio_text(&ratios, 2));
    match latest {
        Some(ms) => o.put("response_ms", Json::integer(ms)),
        None => o.put("response_ms", Json::Null),
    }
    assert(o@ =~= monitor_document(m@)->Object_0);
    Json::Object(o)
}

/// What a check does next, given the answers it has.
pub fn check(base: &str, api_key: &str, answers: &Vec<Json>) -> (r: Result<Step>)
    ensures
        outcome(r) == step_of(base@, api_key@, answers.deep_view()),
{
    if answers.len() == 0 {
        let form = cat3(
            "api_key=",
            escape(api_key).as_str(),
            "&format=json&response_times=1&response_times_limit=1&custom_uptime_ratios=1-7-30",
        );
        return Ok(Step::Form(cat2(base, "/v2/getMonitors"), form));
    }
    let body = &answers[0];
    assert(answers.deep_view()[0] == body@);
    let accepted = match body.text_at("stat") {
        Some(stat) => same(stat, "ok"),
        None => false,
    };
    if !accepted {
        let message = match body.text_within("error", "message") {
            Some(message) => message,
            None => "request rejected",
        };
        return Err(
            Error::Upstream {
                status: 400,
                kind: "ops".to_owned(),
                message: cat2("UptimeRobot: ", message),
                retry_after: None,
            },
        );
    }
    Ok(Step::Done(report(body)))
}

fn report(body: &Json) -> (r: Report)
    ensures
        r@ == report_of(body@),
{
    let items = body.items_at("monitors");
    let ghost views = items_field(body@, "monitors"@);
    let n: usize = items.len();
    let mut monitors: Vec<Json> = Vec::new();
    let mut up: usize = 0;
    let mut down: usize = 0;
    for i in 0..n
        invariant
            n == items@.len(),
            views == items@.map_values(|j: Json| j@),
            monitors@.len() == i,
            forall|k: int|
                0 <= k < i ==> (#[trigger] monitors@[k])@ == monitor_document(items@[k]@),
            up == up_among(views, i as nat),
            down == down_among(views, i as nat),
            up <= i,
            down <= i,
    {
        let m = &items[i];
        assert(views[i as int] == m@);
        let code: i64 = match m.int_at("status") {
            Some(code) => code,
            None => 1,
        };
        if code == 2 {
            up = up + 1;
        }
        if code == 8 || code == 9 {
            down = down + 1;
        }
        monitors.push(monitor_json(m));
    }
    let ghost shown = views.map_values(|m: JsonView| monitor_document(m));
    assert(monitors.deep_view() =~= shown);
    let state = if n == 0 {
        State::Unknown
    } else if down > 0 {
        State::Down
    } else if up < n {
        State::Warn
    } else {
        State::Healthy
    };
    let headline = if n == 0 {
        plural(0, "monitor", "monitors")
    } else if down > 0 {
        cat5(
            number(up as u128).as_str(),
            "/",
            number(n as u128).as_str(),
            " up · ",
            cat2(number(down as u128).as_str(), " down").as_str(),
        )
    } else {
        cat4(number(up as u128).as_str(), "/", number(n as u128).as_str(), " up")
    };
    let mut detail = Object::new();
    detail.put("monitors", Json::array(monitors));
    assert(detail@ =~= map!["monitors"@ => JsonView::Array(shown)]);
    Report { state, headline, detail: Json::Object(detail) }
}

// ---- laws ---------------------------------------------------------------------------

/// The monitor has that status code.
pub open spec fn has_code(m: JsonView, code: i64) -> bool {
    int_field(m, "status"@) == Some(code)
}

/// The monitor is down: the service says so, or that it seems so.
pub open spec fn is_down(m: JsonView) -> bool {
    has_code(m, 8) || has_code(m, 9)
}

/// A site that is down is never shown as healthy: the state is `down` where any
/// monitor is down or seems so; `ok` just where there is a monitor and each is up;
/// `warn` where none is down and one is not up; and `unknown` without monitors.
pub proof fn one_monitor_down_is_down(body: JsonView)
    ensures
        ({
            let monitors = items_field(body, "monitors"@);
            let state = report_of(body).state;
            let some_down = exists|i: int| 0 <= i < monitors.len() && is_down(#[trigger] monitors[i]);
            let all_up = forall|i: int|
                0 <= i < monitors.len() ==> has_code(#[trigger] monitors[i], 2);
            &&& state == State::Unknown <==> monitors.len() == 0
            &&& state == State::Down <==> some_down
            &&& state == State::Healthy <==> monitors.len() > 0 && all_up
            &&& state == State::Warn <==> monitors.len() > 0 && !some_down && !all_up
        }),
{
    let monitors = items_field(body, "monitors"@);
    among_the_first(monitors, monitors.len());
}

proof fn among_the_first(monitors: Seq<JsonView>, n: nat)
    requires
        n <= monitors.len(),
    ensures
        down_among(monitors, n) == monitors.take(n as int).filter(|m: JsonView| is_down(m)).len(),
        up_among(monitors, n) == monitors.take(n as int).filter(
            |m: JsonView| has_code(m, 2),
        ).len(),
        down_among(monitors, n) > 0 <==> exists|i: int|
            0 <= i < n && is_down(#[trigger] monitors[i]),
        up_among(monitors, n) <= n,
        up_among(monitors, n) == n <==> forall|i: int|
            0 <= i < n ==> has_code(#[trigger] monitors[i], 2),
    decreases n,
{
    reveal(Seq::filter);
    if n > 0 {
        let m = (n - 1) as nat;
        among_the_first(monitors, m);
        assert(monitors.take(n as int).drop_last() =~= monitors.take(m as int));
        assert(monitors.take(n as int).last() == monitors[n - 1]);
    }
}

/// The headline counts the monitors that are up, of all there are, and those that
/// are down, where there are any.
pub proof fn the_headline_counts_the_monitors(body: JsonView)
    ensures
        ({
            let monitors = items_field(body, "monitors"@);
            let up = monitors.filter(|m: JsonView| has_code(m, 2)).len();
            let down = monitors.filter(|m: JsonView| is_down(m)).len();
            let line = decimal(up) + "/"@ + decimal(monitors.len()) + " up"@;
            report_of(body).headline == (if monitors.len() == 0 {
                "0 monitors"@
            } else if down == 0 {
                line
            } else {
                line + " · "@ + decimal(down) + " down"@
            })
        }),
{
    let monitors = items_field(body, "monitors"@);
    among_the_first(monitors, monitors.len());
    assert(monitors.take(monitors.len() as int) =~= monitors);
    reveal_strlit("0 monitors");
    reveal_strlit(" ");
    reveal_strlit("monitors");
    reveal_strlit(" up");
    reveal_strlit(" · ");
    reveal_strlit(" up · ");
    assert(decimal(0) + " "@ + "monitors"@ =~= "0 monitors"@);
    let up = monitors.filter(|m: JsonView| has_code(m, 2)).len();
    let down = monitors.filter(|m: JsonView| is_down(m)).len();
    assert(decimal(up) + "/"@ + decimal(monitors.len()) + " up · "@ + (decimal(down) + " down"@)
        =~= decimal(up) + "/"@ + decimal(monitors.len()) + " up"@ + " · "@ + decimal(down)
        + " down"@);
}

/// Each monitor is shown, in order, by its own name and address, the word for its
/// status, its three uptime ratios and its latest response time.
pub proof fn each_monitor_is_shown_as_it_is(body: JsonView, i: int)
    requires
        0 <= i < items_field(body, "monitors"@).len(),
    ensures
        ({
            let m = items_field(body, "monitors"@)[i];
            let shown = items_field(report_of(body).detail, "monitors"@);
            &&& shown.len() == items_field(body, "monitors"@).len()
            &&& has_just(
                shown[i],
                set![
                    "name"@,
                    "url"@,
                    "status"@,
                    "uptime_24h"@,
                    "uptime_7d"@,
                    "uptime_30d"@,
                    "response_ms"@,
                ],
            )
            &&& text_field(shown[i], "name"@) == Some(text_or_empty(m, "friendly_name"@))
            &&& text_field(shown[i], "url"@) == Some(text_or_empty(m, "url"@))
            &&& has_code(m, 0) ==> text_field(shown[i], "status"@) == Some("paused"@)
            &&& has_code(m, 1) || int_field(m, "status"@) is None ==> text_field(
                shown[i],
                "status"@,
            ) == Some("pending"@)
            &&& has_code(m, 2) ==> text_field(shown[i], "status"@) == Some("up"@)
            &&& has_code(m, 8) ==> text_field(shown[i], "status"@) == Some("seems_down"@)
            &&& has_code(m, 9) ==> text_field(shown[i], "status"@) == Some("down"@)
            &&& text_field(m, "custom_uptime_ratio"@) matches Some(ratios) ==> (pieces(ratios, '-')
                =~= seq![
                text_or_empty(shown[i], "uptime_24h"@),
                text_or_empty(shown[i], "uptime_7d"@),
                text_or_empty(shown[i], "uptime_30d"@),
            ] || pieces(ratios, '-').len() != 3)
            &&& (field(m, "response_times"@) matches Some(JsonView::Array(times)) && times.len()
                > 0 && int_field(times[0], "value"@) is Some) ==> field(shown[i], "response_ms"@)
                == Some(
                JsonView::Number(
                    integer_number(
                        int_field(field(m, "response_times"@)->0->Array_0[0], "value"@)->0,
                    ),
                ),
            )
        }),
{
    reveal_strlit("name");
    reveal_strlit("url");
    reveal_strlit("status");
    reveal_strlit("uptime_24h");
    reveal_strlit("uptime_7d");
    reveal_strlit("uptime_30d");
    reveal_strlit("response_ms");
    assert("name"@.len() == 4 && "url"@.len() == 3 && "status"@.len() == 6
        && "uptime_24h"@.len() == 10 && "uptime_7d"@.len() == 9 && "uptime_30d"@.len() == 10
        && "response_ms"@.len() == 11);
    assert("uptime_24h"@[7] != "uptime_30d"@[7]);
    let m = items_field(body, "monitors"@)[i];
    let shown = items_field(report_of(body).detail, "monitors"@);
    assert(shown[i] == monitor_document(m));
    assert(shown[i]->Object_0.dom() =~= set![
        "name"@,
        "url"@,
        "status"@,
        "uptime_24h"@,
        "uptime_7d"@,
        "uptime_30d"@,
        "response_ms"@,
    ]);
}

/// The monitors are asked for once, with the key in the form; what is answered is
/// reported where it says `ok`, and is a refusal otherwise.
pub proof fn the_monitors_are_asked_for_once(
    base: Seq<char>,
    api_key: Seq<char>,
    answers: Seq<JsonView>,
)
    requires
        !api_key.contains('&'),
        !api_key.contains('='),
    ensures
        answers.len() == 0 ==> step_of(base, api_key, answers) == Ok::<StepView, ErrorView>(
            StepView::Form(
                base + "/v2/getMonitors"@,
                "api_key="@ + api_key
                    + "&format=json&response_times=1&response_times_limit=1&custom_uptime_ratios=1-7-30"@,
            ),
        ),
        answers.len() > 0 ==> (step_of(base, api_key, answers) is Ok <==> text_field(
            answers[0],
            "stat"@,
        ) == Some("ok"@)),
        answers.len() > 0 && text_field(answers[0], "stat"@) == Some("ok"@) ==> step_of(
            base,
            api_key,
            answers,
        ) == Ok::<StepView, ErrorView>(StepView::Done(report_of(answers[0]))),
{
    nothing_to_escape(api_key);
}

proof fn nothing_to_escape(s: Seq<char>)
    requires
        !s.contains('&'),
        !s.contains('='),
    ensures
        form_escaped(s) == s,
    decreases s.len(),
{
    if s.len() > 0 {
        assert(s[s.len() - 1] == s.last());
        let rest = s.drop_last();
        assert forall|c: char| rest.contains(c) implies s.contains(c) by {
            let k = choose|k: int| 0 <= k < rest.len() && rest[k] == c;
            assert(s[k] == c);
        }
        nothing_to_escape(rest);
        assert(rest + seq![s.last()] =~= s);
    } else {
        assert(s =~= Seq::empty());
    }
}

/// A key adds no field to the form: what is written for it holds neither `&` nor
/// `=`.
pub proof fn a_key_adds_no_field(api_key: Seq<char>)
    ensures
        !form_escaped(api_key).contains('&'),
        !form_escaped(api_key).contains('='),
    decreases api_key.len(),
{
    reveal_strlit("%26");
    reveal_strlit("%3D");
    if api_key.len() > 0 {
        a_key_adds_no_field(api_key.drop_last());
        let before = form_escaped(api_key.drop_last());
        let whole = form_escaped(api_key);
        assert forall|i: int| 0 <= i < whole.len() implies whole[i] != '&' && whole[i] != '=' by {
            if i < before.len() {
                assert(before.contains(whole[i]));
            }
        }
    }
}

/// The key is sent as it is but for `&` and `=`, which are sent by their codes.
pub proof fn a_key_is_sent_as_it_is(key: Seq<char>, c: char)
    ensures
        form_escaped(key.push('&')) == form_escaped(key) + seq!['%', '2', '6'],
        form_escaped(key.push('=')) == form_escaped(key) + seq!['%', '3', 'D'],
        c != '&' && c != '=' ==> form_escaped(key.push(c)) == form_escaped(key).push(c),
        form_escaped(Seq::empty()).len() == 0,
{
    reveal_strlit("%26");
    reveal_strlit("%3D");
    assert(key.push('&').drop_last() =~= key);
    assert(key.push('=').drop_last() =~= key);
    assert(key.push(c).drop_last() =~= key);
    assert("%26"@ =~= seq!['%', '2', '6']);
    assert("%3D"@ =~= seq!['%', '3', 'D']);
    assert(form_escaped(key) + seq![c] =~= form_escaped(key).push(c));
}

/// A refusal is told in the words of the service, where it has any.
pub proof fn a_refused_check_is_told(base: Seq<char>, key: Seq<char>, answers: Seq<JsonView>)
    requires
        answers.len() > 0,
        text_field(answers[0], "stat"@) != Some("ok"@),
    ensures
        step_of(base, key, answers) matches Err(
            ErrorView::Upstream { status, kind, message, retry_after },
        ) && {
            &&& status == 400
            &&& kind == "ops"@
            &&& retry_after is None
            &&& text_in(answers[0], "error"@, "message"@) matches Some(said) ==> message
                == "UptimeRobot: "@ + said
            &&& text_in(answers[0], "error"@, "message"@) is None ==> message
                == "UptimeRobot: request rejected"@
        },
{
    reveal_strlit("UptimeRobot: ");
    reveal_strlit("request rejected");
    reveal_strlit("UptimeRobot: request rejected");
    assert("UptimeRobot: "@ + "request rejected"@ =~= "UptimeRobot: request rejected"@);
}

} // verus!
