//! Tailscale (`GET /api/v2/tailnet/{tailnet}/devices`). A device counts as online
//! when the API says so, or when it was seen in the last five minutes.

use super::{flag, flag_json, Report, ReportView, State, Step, StepView};
use crate::clock::{ago, moment_of, whole_seconds};
use crate::json::{bool_field, field, has_just, items_field, text_field, text_or_empty, Json, JsonView, Object};
use crate::text::{cat2, cat3, cat4, cat5, decimal, join, joined, number, pieces, split};
use vstd::prelude::*;

verus! {

/// How recently a device must have been seen to count as online, in seconds.
pub const ONLINE_SECS: u128 = 300;

/// Whether the device is online, given how many seconds ago it was last seen: the
/// API says so, or it was seen recently.
pub open spec fn online_since(device: JsonView, ago: Option<int>) -> bool {
    bool_field(device, "online"@) == Some(true) || (ago matches Some(secs) && secs < ONLINE_SECS)
}

/// How many seconds before `now` the device was last seen, where that is known.
pub open spec fn seen_ago(device: JsonView, now: i128) -> Option<int> {
    match moment_of(text_or_empty(device, "lastSeen"@)) {
        Some(then) => Some(whole_seconds(then, now)),
        None => None,
    }
}

/// The device's name: the first part of its hostname, or else of its full name.
pub open spec fn device_name(device: JsonView) -> Seq<char> {
    let full = match text_field(device, "hostname"@) {
        Some(hostname) => hostname,
        None => text_or_empty(device, "name"@),
    };
    pieces(full, '.')[0]
}

/// A device as it is shown.
pub open spec fn device_document(device: JsonView, online: bool) -> JsonView {
    JsonView::Object(
        map![
            "name"@ => JsonView::Text(device_name(device)),
            "os"@ => JsonView::Text(text_or_empty(device, "os"@)),
            "online"@ => JsonView::Bool(online),
            "last_seen"@ => JsonView::Text(text_or_empty(device, "lastSeen"@)),
            "addresses"@ => match field(device, "addresses"@) {
                Some(addresses) => addresses,
                None => JsonView::Array(Seq::empty()),
            },
            "update_available"@ => flag(device, "updateAvailable"@),
        ],
    )
}

/// The names of the first `n` devices, of those that are online.
pub open spec fn online_names(devices: Seq<JsonView>, seen: Seq<Option<int>>, n: nat) -> Seq<
    Seq<char>,
>
    decreases n,
{
    if n == 0 {
        Seq::empty()
    } else {
        let earlier = online_names(devices, seen, (n - 1) as nat);
        if online_since(devices[n - 1], seen[n - 1]) {
            earlier.push(device_name(devices[n - 1]))
        } else {
            earlier
        }
    }
}

/// The report, from the devices and how many seconds ago each was seen.
pub open spec fn report_of(devices: Seq<JsonView>, seen: Seq<Option<int>>) -> ReportView {
    let n = devices.len();
    let online = online_names(devices, seen, n);
    ReportView {
        state: if n == 0 {
            State::Unknown
        } else if online.len() == 0 {
            State::Down
        } else if online.len() < n {
            State::Warn
        } else {
            State::Healthy
        },
        headline: if online.len() == 0 {
            "0/"@ + decimal(n) + " online"@
        } else {
            joined(online, ", "@) + " online ("@ + decimal(online.len()) + "/"@ + (decimal(n)
                + ")"@)
        },
        detail: JsonView::Object(
            map![
                "devices"@ => JsonView::Array(
                    Seq::new(
                        n,
                        |i: int| device_document(devices[i], online_since(devices[i], seen[i])),
                    ),
                ),
            ],
        ),
    }
}

/// What a check does next at the moment `now`, given the answers it has.
pub open spec fn step_of(
    base: Seq<char>,
    tailnet: Seq<char>,
    answers: Seq<JsonView>,
    now: i128,
) -> StepView {
    if answers.len() == 0 {
        StepView::Get(base + "/api/v2/tailnet/"@ + tailnet + "/devices"@)
    } else {
        let devices = items_field(answers[0], "devices"@);
        StepView::Done(
            report_of(devices, devices.map_values(|device: JsonView| seen_ago(device, now))),
        )
    }
}

/// What a check does next at the moment `now`, given the answers it has.
pub fn check(base: &str, tailnet: &str, answers: &Vec<Json>, now: i128) -> (r: Step)
    ensures
        r@ == step_of(base@, tailnet@, answers.deep_view(), now),
{
    if answers.len() == 0 {
        return Step::Get(cat4(base, "/api/v2/tailnet/", tailnet, "/devices"));
    }
    assert(answers.deep_view()[0] == answers@[0]@);
    let devices = answers[0].items_at("devices");
    let ghost views = items_field(answers@[0]@, "devices"@);
    let n: usize = devices.len();
    let mut seen: Vec<Option<u128>> = Vec::new();
    for i in 0..n
        invariant
            n == devices@.len(),
            views == devices@.map_values(|j: Json| j@),
            seen@.len() == i,
            forall|k: int| 0 <= k < i ==> as_ints(seen@)[k] == #[trigger] seen_ago(views[k], now),
    {
        assert(views[i as int] == devices@[i as int]@);
        let ghost earlier = seen@;
        seen.push(ago(devices[i].text_or_empty("lastSeen"), now));
        assert forall|k: int| 0 <= k < i + 1 implies as_ints(seen@)[k] == #[trigger] seen_ago(
            views[k],
            now,
        ) by {
            if k < i {
                assert(as_ints(earlier)[k] == seen_ago(views[k], now));
            }
        }
    }
    assert(as_ints(seen@) =~= views.map_values(|device: JsonView| seen_ago(device, now)));
    Step::Done(report(devices, &seen))
}

/// The seconds as mathematical integers.
pub open spec fn as_ints(seen: Seq<Option<u128>>) -> Seq<Option<int>> {
    seen.map_values(
        |secs: Option<u128>|
            match secs {
                Some(secs) => Some(secs as int),
                None => None,
            },
    )
}

fn first_part(text: &str) -> (r: String)
    ensures
        r@ == pieces(text@, '.')[0],
{
    let parts = split(text, '.');
    assert(parts.deep_view()[0] == parts@[0]@);
    parts[0].clone()
}

fn name_of(device: &Json) -> (r: String)
    ensures
        r@ == device_name(device@),
{
    match device.text_at("hostname") {
        Some(hostname) => first_part(hostname),
        None => first_part(device.text_or_empty("name")),
    }
}

fn device_json(device: &Json, online: bool) -> (r: Json)
    ensures
        r@ == device_document(device@, online),
{
    let mut o = Object::new();
    o.put_text("name", name_of(device).as_str());
    o.put_text("os", device.text_or_empty("os"));
    o.put("online", Json::Bool(online));
    o.put_text("last_seen", device.text_or_empty("lastSeen"));
    match device.get("addresses") {
        Some(addresses) => o.put("addresses", addresses.copy()),
        None => {
            let none: Vec<Json> = Vec::new();
            assert(none.deep_view() =~= Seq::<JsonView>::empty());
            o.put("addresses", Json::array(none));
        },
    }
    o.put("update_available", flag_json(device, "updateAvailable"));
    assert(o@ =~= device_document(device@, online)->Object_0);
    Json::Object(o)
}

fn is_online(device: &Json, ago: Option<u128>) -> (r: bool)
    ensures
        r == online_since(
            device@,
            match ago {
                Some(secs) => Some(secs as int),
                None => None,
            },
        ),
{
    match (device.bool_at("online"), ago) {
        (Some(true), _) => true,
        (_, Some(secs)) => secs < ONLINE_SECS,
        (_, None) => false,
    }
}

/// The report, from the devices and how many seconds ago each was seen.
pub fn report(devices: &[Json], seen: &Vec<Option<u128>>) -> (r: Report)
    requires
        seen@.len() == devices@.len(),
    ensures
        r@ == report_of(devices@.map_values(|j: Json| j@), as_ints(seen@)),
{
    let ghost views = devices@.map_values(|j: Json| j@);
    let ghost ints = as_ints(seen@);
    let n: usize = devices.len();
    let mut shown: Vec<Json> = Vec::new();
    let mut online: Vec<String> = Vec::new();
    assert(online.deep_view() =~= online_names(views, ints, 0));
    for i in 0..n
        invariant
            n == devices@.len(),
            n == seen@.len(),
            views == devices@.map_values(|j: Json| j@),
            ints == as_ints(seen@),
            shown@.len() == i,
            forall|k: int|
                0 <= k < i ==> (#[trigger] shown@[k])@ == device_document(
                    views[k],
                    online_since(views[k], ints[k]),
                ),
            online.deep_view() == online_names(views, ints, i as nat),
    {
        let device = &devices[i];
        assert(views[i as int] == device@);
        let up = is_online(device, seen[i]);
        if up {
            let ghost earlier = online.deep_view();
            online.push(name_of(device));
            assert(online.deep_view() =~= earlier.push(device_name(device@)));
        }
        shown.push(device_json(device, up));
    }
    let ghost documents = Seq::new(
        views.len(),
        |i: int| device_document(views[i], online_since(views[i], ints[i])),
    );
    assert(shown.deep_view() =~= documents);
    let count: usize = online.len();
    assert(count == online.deep_view().len());
    let state = if n == 0 {
        State::Unknown
    } else if count == 0 {
        State::Down
    } else if count < n {
        State::Warn
    } else {
        State::Healthy
    };
    let headline = if count == 0 {
        cat3("0/", number(n as u128).as_str(), " online")
    } else {
        cat5(
            join(&online, ", ").as_str(),
            " online (",
            number(count as u128).as_str(),
            "/",
            cat2(number(n as u128).as_str(), ")").as_str(),
        )
    };
    let mut detail = Object::new();
    detail.put("devices", Json::array(shown));
    assert(detail@ =~= map!["devices"@ => JsonView::Array(documents)]);
    Report { state, headline, detail: Json::Object(detail) }
}

// ---- laws ---------------------------------------------------------------------------

/// The device is online: the service says so, or it was seen less than five minutes
/// ago.
pub open spec fn is_up(device: JsonView, ago: Option<int>) -> bool {
    bool_field(device, "online"@) == Some(true) || (ago matches Some(secs) && secs < 300)
}

/// The state follows the devices: `ok` just where there is one and each is online,
/// `down` where there is one and none is, `warn` in between, and `unknown` without
/// devices.
pub proof fn the_state_follows_the_devices(devices: Seq<JsonView>, seen: Seq<Option<int>>)
    requires
        seen.len() == devices.len(),
    ensures
        ({
            let state = report_of(devices, seen).state;
            let all = forall|i: int|
                0 <= i < devices.len() ==> #[trigger] is_up(devices[i], seen[i]);
            let some = exists|i: int|
                0 <= i < devices.len() && #[trigger] is_up(devices[i], seen[i]);
            &&& state == State::Unknown <==> devices.len() == 0
            &&& state == State::Healthy <==> devices.len() > 0 && all
            &&& state == State::Down <==> devices.len() > 0 && !some
            &&& state == State::Warn <==> some && !all
        }),
{
    online_among_the_first(devices, seen, devices.len());
}

proof fn online_among_the_first(devices: Seq<JsonView>, seen: Seq<Option<int>>, n: nat)
    requires
        n <= devices.len(),
        seen.len() == devices.len(),
    ensures
        online_names(devices, seen, n).len() <= n,
        online_names(devices, seen, n).len() > 0 <==> exists|i: int|
            0 <= i < n && #[trigger] is_up(devices[i], seen[i]),
        online_names(devices, seen, n).len() == n <==> forall|i: int|
            0 <= i < n ==> #[trigger] is_up(devices[i], seen[i]),
        online_names(devices, seen, n).len() == n ==> online_names(devices, seen, n) == Seq::new(
            n,
            |i: int| device_name(devices[i]),
        ),
    decreases n,
{
    if n > 0 {
        let m = (n - 1) as nat;
        online_among_the_first(devices, seen, m);
        assert(is_up(devices[n - 1], seen[n - 1]) == online_since(devices[n - 1], seen[n - 1]));
    }
    if online_names(devices, seen, n).len() == n {
        assert(online_names(devices, seen, n) =~= Seq::new(n, |i: int| device_name(devices[i])));
    }
}

/// Each device is shown, in order, by the first part of its own hostname, with its
/// system, whether it is online, when it was seen, its addresses and whether it
/// wants an update.
pub proof fn each_device_is_shown_as_it_is(
    devices: Seq<JsonView>,
    seen: Seq<Option<int>>,
    i: int,
    host: Seq<char>,
)
    requires
        seen.len() == devices.len(),
        0 <= i < devices.len(),
        text_field(devices[i], "hostname"@) == Some(host),
        !host.contains('.'),
    ensures
        ({
            let d = devices[i];
            let shown = items_field(report_of(devices, seen).detail, "devices"@);
            &&& shown.len() == devices.len()
            &&& has_just(
                shown[i],
                set![
                    "name"@,
                    "os"@,
                    "online"@,
                    "last_seen"@,
                    "addresses"@,
                    "update_available"@,
                ],
            )
            &&& text_field(shown[i], "name"@) == Some(host)
            &&& bool_field(shown[i], "online"@) == Some(is_up(d, seen[i]))
            &&& text_field(shown[i], "os"@) == Some(text_or_empty(d, "os"@))
            &&& text_field(shown[i], "last_seen"@) == Some(text_or_empty(d, "lastSeen"@))
            &&& field(d, "addresses"@) is Some ==> field(shown[i], "addresses"@) == field(
                d,
                "addresses"@,
            )
            &&& field(d, "addresses"@) is None ==> field(shown[i], "addresses"@) == Some(
                JsonView::Array(Seq::empty()),
            )
            &&& bool_field(shown[i], "update_available"@) == Some(
                bool_field(d, "updateAvailable"@) == Some(true),
            )
        }),
{
    reveal_strlit("name");
    reveal_strlit("os");
    reveal_strlit("online");
    reveal_strlit("last_seen");
    reveal_strlit("addresses");
    reveal_strlit("update_available");
    assert("name"@.len() == 4 && "os"@.len() == 2 && "online"@.len() == 6
        && "last_seen"@.len() == 9 && "addresses"@.len() == 9 && "update_available"@.len() == 16);
    assert("last_seen"@[0] != "addresses"@[0]);
    let d = devices[i];
    let shown = items_field(report_of(devices, seen).detail, "devices"@);
    assert(shown[i] == device_document(d, online_since(d, seen[i])));
    assert(shown[i]->Object_0.dom() =~= set![
        "name"@,
        "os"@,
        "online"@,
        "last_seen"@,
        "addresses"@,
        "update_available"@,
    ]);
    crate::text::joined_pieces_come_back(seq![host], '.');
    assert(crate::text::joined(seq![host], seq!['.']) == host);
    assert(pieces(host, '.') == seq![host]);
}

/// The headline names the devices that are online, of how many; all of them, where
/// all are.
pub proof fn the_headline_names_who_is_online(devices: Seq<JsonView>, seen: Seq<Option<int>>)
    requires
        seen.len() == devices.len(),
        devices.len() > 0,
    ensures
        (forall|i: int| 0 <= i < devices.len() ==> #[trigger] is_up(devices[i], seen[i]))
            ==> report_of(devices, seen).headline == joined(
            Seq::new(devices.len(), |i: int| device_name(devices[i])),
            ", "@,
        ) + " online ("@ + decimal(devices.len()) + "/"@ + (decimal(devices.len()) + ")"@),
        (forall|i: int| 0 <= i < devices.len() ==> !#[trigger] is_up(devices[i], seen[i]))
            ==> report_of(devices, seen).headline == "0/"@ + decimal(devices.len()) + " online"@,
{
    online_among_the_first(devices, seen, devices.len());
    if forall|i: int| 0 <= i < devices.len() ==> !#[trigger] is_up(devices[i], seen[i]) {
        assert(online_names(devices, seen, devices.len()).len() == 0);
    }
}

/// The devices are asked for once, of the tailnet that is configured; how long ago
/// each was seen is counted from the moment of the check.
pub proof fn the_devices_are_asked_for_once(
    base: Seq<char>,
    tailnet: Seq<char>,
    answers: Seq<JsonView>,
    now: i128,
)
    ensures
        answers.len() == 0 ==> step_of(base, tailnet, answers, now) == StepView::Get(
            base + "/api/v2/tailnet/"@ + tailnet + "/devices"@,
        ),
        answers.len() > 0 ==> {
            let devices = items_field(answers[0], "devices"@);
            step_of(base, tailnet, answers, now) == StepView::Done(
                report_of(
                    devices,
                    devices.map_values(
                        |d: JsonView|
                            match moment_of(text_or_empty(d, "lastSeen"@)) {
                                Some(then) => Some(whole_seconds(then, now)),
                                None => None,
                            },
                    ),
                ),
            )
        },
{
    if answers.len() > 0 {
        let devices = items_field(answers[0], "devices"@);
        assert(devices.map_values(|device: JsonView| seen_ago(device, now)) =~= devices.map_values(
            |d: JsonView|
                match moment_of(text_or_empty(d, "lastSeen"@)) {
                    Some(then) => Some(whole_seconds(then, now)),
                    None => None,
                },
        ));
    }
}

/// Where some devices are online, these alone are named, in their order, and how many
/// they are of how many is told.
pub proof fn those_online_are_named_in_order(devices: Seq<JsonView>, seen: Seq<Option<int>>, n: nat)
    requires
        seen.len() == devices.len(),
        n < devices.len(),
    ensures
        online_names(devices, seen, 0).len() == 0,
        is_up(devices[n as int], seen[n as int]) ==> online_names(devices, seen, n + 1)
            == online_names(devices, seen, n).push(device_name(devices[n as int])),
        !is_up(devices[n as int], seen[n as int]) ==> online_names(devices, seen, n + 1)
            == online_names(devices, seen, n),
        is_up(devices[n as int], seen[n as int]) ==> ({
            let online = online_names(devices, seen, devices.len());
            report_of(devices, seen).headline == joined(online, ", "@) + " online ("@ + decimal(
                online.len(),
            ) + "/"@ + decimal(devices.len()) + ")"@
        }),
{
    online_among_the_first(devices, seen, devices.len());
    if is_up(devices[n as int], seen[n as int]) {
        let online = online_names(devices, seen, devices.len());
        assert(online.len() > 0);
        assert(report_of(devices, seen).headline =~= joined(online, ", "@) + " online ("@ + decimal(
            online.len(),
        ) + "/"@ + decimal(devices.len()) + ")"@);
    }
}

/// A device goes by the first part of its hostname, or else of its name.
pub proof fn a_device_goes_by_its_first_part(device: JsonView, first: Seq<char>, rest: Seq<char>)
    requires
        !first.contains('.'),
        rest.len() > 0 ==> rest[0] == '.',
    ensures
        text_field(device, "hostname"@) == Some(first + rest) ==> device_name(device) == first,
        text_field(device, "hostname"@) is None && text_field(device, "name"@) == Some(first + rest)
            ==> device_name(device) == first,
{
    crate::text::the_first_piece_ends_at_the_separator(first, rest, '.');
}

/// How long ago a device was seen is counted from the moment that it gives, in whole
/// seconds; where it gives none it is not known.
pub proof fn a_device_was_seen_when_it_says(device: JsonView, text: Seq<char>, then: i128, now: i128)
    requires
        text_field(device, "lastSeen"@) == Some(text),
    ensures
        moment_of(text) == Some(then) ==> seen_ago(device, now) == Some(whole_seconds(then, now)),
        moment_of(text) is None ==> seen_ago(device, now) is None,
{
}

} // verus!
