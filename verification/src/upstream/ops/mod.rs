//! The stack's services, watched read-only: UptimeRobot, Tailscale, Cloudflare,
//! Docker on the droplet, the droplet itself (DigitalOcean) and GitHub. Each
//! service turns its token into a one-line headline, a traffic-light state and a
//! detail document; the tokens stay here.
//!
//! Every service is polled at most once per [`TTL`] no matter how many panels
//! ask, and a service that cannot be reached reports `down` with the reason
//! rather than failing the whole hub.
//!
//! A poll is a series of requests. Each service says, from the answers it has so
//! far, what to ask next or what to report ([`Step`]); the HTTP client only
//! performs the requests.

pub mod cloudflare;
pub mod digitalocean;
pub mod docker;
pub mod github;
pub mod tailscale;
pub mod uptimerobot;

use self::digitalocean::{Readings, ReadingsView};
use crate::config::{OpsConfig, OpsConfigView};
use crate::error::{canonical_reason, error_text, outcome, reason_phrase, Error, ErrorView, Result, Transport};
use crate::json::{as_text, bool_field, field, has_just, int_field, integer_number, parsed_json, text_field, text_in, Json, JsonView, Object};
use crate::table::{age, Table};
use crate::text::{cat2, cat3, cat5, decimal, number, same};
use crate::v1::sessions::with_member;
use vstd::prelude::*;

verus! {

/// How long one poll of a service is reused, in nanoseconds: thirty seconds.
pub const TTL: u64 = 30_000_000_000;

#[derive(Debug, Clone, Copy, PartialEq, Eq, Structural)]
pub enum State {
    /// Everything the service reports is healthy.
    Healthy,
    /// Something needs a look (a paused monitor, a failed CI run, a stopped
    /// container).
    Warn,
    /// The service reports an outage, or could not be reached at all.
    Down,
    /// Nothing to judge yet.
    Unknown,
}

/// One service's poll result, before it is stamped and cached.
pub struct Report {
    pub state: State,
    pub headline: String,
    pub detail: Json,
}

pub struct ReportView {
    pub state: State,
    pub headline: Seq<char>,
    pub detail: JsonView,
}

impl View for Report {
    type V = ReportView;

    open spec fn view(&self) -> ReportView {
        ReportView { state: self.state, headline: self.headline@, detail: self.detail@ }
    }
}

impl DeepView for Report {
    type V = ReportView;

    open spec fn deep_view(&self) -> ReportView {
        self@
    }
}

/// What a poll does next.
pub enum Step {
    /// `GET` the address with the service's bearer.
    Get(String),
    /// The same, but a failure counts as no answer: it is taken as null.
    Try(String),
    /// `POST` the form to the address.
    Form(String, String),
    /// `GET` the path from the engine's socket.
    Socket(String),
    /// The answers are complete but for what these readings come to.
    Measure(Vec<Readings>),
    /// The answers are complete.
    Done(Report),
}

pub enum StepView {
    Get(Seq<char>),
    Try(Seq<char>),
    Form(Seq<char>, Seq<char>),
    Socket(Seq<char>),
    Measure(Seq<ReadingsView>),
    Done(ReportView),
}

impl View for Step {
    type V = StepView;

    open spec fn view(&self) -> StepView {
        match self {
            Step::Get(url) => StepView::Get(url@),
            Step::Try(url) => StepView::Try(url@),
            Step::Form(url, form) => StepView::Form(url@, form@),
            Step::Socket(path) => StepView::Socket(path@),
            Step::Measure(readings) => StepView::Measure(readings.deep_view()),
            Step::Done(report) => StepView::Done(report@),
        }
    }
}

impl DeepView for Step {
    type V = StepView;

    open spec fn deep_view(&self) -> StepView {
        self@
    }
}

// ---- what services share ----------------------------------------------------------

/// `1 monitor`, `2 monitors`.
pub open spec fn counted(n: nat, one: Seq<char>, many: Seq<char>) -> Seq<char> {
    if n == 1 {
        "1 "@ + one
    } else {
        decimal(n) + " "@ + many
    }
}

/// `1 monitor`, `2 monitors`.
pub fn plural(n: u128, one: &str, many: &str) -> (r: String)
    ensures
        r@ == counted(n as nat, one@, many@),
{
    if n == 1 {
        cat2("1 ", one)
    } else {
        cat3(number(n).as_str(), " ", many)
    }
}

/// The member of the member where it is a text, else the empty text.
pub open spec fn text_in_or_empty(v: JsonView, outer: Seq<char>, inner: Seq<char>) -> Seq<char> {
    match text_in(v, outer, inner) {
        Some(text) => text,
        None => Seq::empty(),
    }
}

/// The member of the member where it is a text, else the empty text.
pub fn within_or_empty<'a>(v: &'a Json, outer: &str, inner: &str) -> (r: &'a str)
    ensures
        r@ == text_in_or_empty(v@, outer@, inner@),
{
    match v.text_within(outer, inner) {
        Some(text) => text,
        None => {
            proof {
                reveal_strlit("");
                assert(""@ =~= Seq::empty());
            }
            ""
        },
    }
}

/// The integer member of that name; 0 without one.
pub open spec fn int_or_zero(v: JsonView, key: Seq<char>) -> JsonView {
    JsonView::Number(
        integer_number(
            match int_field(v, key) {
                Some(i) => i,
                None => 0,
            },
        ),
    )
}

/// The integer member of that name; 0 without one.
pub fn int_json(v: &Json, key: &str) -> (r: Json)
    ensures
        r@ == int_or_zero(v@, key@),
{
    match v.int_at(key) {
        Some(i) => Json::integer(i),
        None => Json::integer(0),
    }
}

/// The flag of that name; false without one.
pub open spec fn flag(v: JsonView, key: Seq<char>) -> JsonView {
    JsonView::Bool(bool_field(v, key) == Some(true))
}

/// The flag of that name; false without one.
pub fn flag_json(v: &Json, key: &str) -> (r: Json)
    ensures
        r@ == flag(v@, key@),
{
    match v.bool_at(key) {
        Some(true) => Json::Bool(true),
        _ => Json::Bool(false),
    }
}

/// What a service says of a refusal: its `message`, or, without one, its `error`.
pub open spec fn refusal_text(
    body: std::result::Result<JsonView, Seq<char>>,
    phrase: Option<Seq<char>>,
) -> Seq<char> {
    let said = match body {
        Ok(body) => match field(body, "message"@) {
            Some(message) => as_text(message),
            None => text_field(body, "error"@),
        },
        Err(_) => None,
    };
    match said {
        Some(text) => text,
        None => match phrase {
            Some(phrase) => phrase,
            None => "error"@,
        },
    }
}

/// What an answer reads as. A non-2xx becomes an upstream error carrying the
/// status, so the hub can say "GitHub: 401"; a 2xx that is not JSON is no usable
/// answer.
pub open spec fn answer_of(
    status: u16,
    body: std::result::Result<JsonView, Seq<char>>,
    service: Seq<char>,
    phrase: Option<Seq<char>>,
) -> std::result::Result<JsonView, ErrorView> {
    if 200 <= status < 300 {
        match body {
            Ok(body) => Ok(body),
            Err(text) => Err(
                ErrorView::UpstreamTransport { timed_out: false, connecting: false, text },
            ),
        }
    } else {
        Err(
            ErrorView::Upstream {
                status,
                kind: "ops"@,
                message: service + ": "@ + decimal(status as nat) + " "@ + refusal_text(
                    body,
                    phrase,
                ),
                retry_after: None,
            },
        )
    }
}

/// What an answer reads as, from its text.
pub fn read_json(status: u16, body: &str, service: &str) -> (r: Result<Json>)
    ensures
        outcome(r) == answer_of(status, parsed_json(body@), service@, reason_phrase(status)),
{
    read_document(status, Json::parse(body), service, canonical_reason(status))
}

/// The same, given what the text reads as and the standard phrase of the status.
pub fn read_document(
    status: u16,
    body: std::result::Result<Json, String>,
    service: &str,
    phrase: Option<&str>,
) -> (r: Result<Json>)
    ensures
        outcome(r) == answer_of(
            status,
            match body {
                Ok(body) => Ok(body@),
                Err(text) => Err(text@),
            },
            service@,
            phrase.deep_view(),
        ),
{
    if 200 <= status && status < 300 {
        return match body {
            Ok(body) => Ok(body),
            Err(text) => Err(
                Error::UpstreamTransport(Transport { timed_out: false, connecting: false, text }),
            ),
        };
    }
    let said = match &body {
        Ok(body) => match body.get("message") {
            Some(message) => message.as_text(),
            None => body.text_at("error"),
        },
        Err(_) => None,
    };
    let text = match said {
        Some(text) => text,
        None => match phrase {
            Some(phrase) => phrase,
            None => "error",
        },
    };
    let message = cat5(service, ": ", number(status as u128).as_str(), " ", text);
    Err(Error::Upstream { status, kind: "ops".to_owned(), message, retry_after: None })
}

/// What a failing service is called.
pub open spec fn provider(id: Seq<char>) -> Seq<char> {
    if id == "droplet"@ {
        "DigitalOcean"@
    } else {
        match service_name(id) {
            Some(name) => name,
            None => id,
        }
    }
}

/// What the answer to an HTTP request of a poll reads as; the engine's, over its
/// socket, is read by [`docker::read_list`].
pub fn read_answer(id: &str, status: u16, body: &str) -> (r: Result<Json>)
    ensures
        outcome(r) == answer_of(status, parsed_json(body@), provider(id@), reason_phrase(status)),
{
    if same(id, "droplet") {
        read_json(status, body, "DigitalOcean")
    } else {
        match name_of(id) {
            Some(name) => read_json(status, body, name),
            None => read_json(status, body, id),
        }
    }
}

/// Why a poll failed, as the hub row shows it. Never a token, never a URL with a
/// query string.
pub open spec fn reason_of(e: ErrorView) -> Seq<char> {
    match e {
        ErrorView::Upstream { message, .. } => message,
        ErrorView::UpstreamTransport { timed_out, connecting, .. } => if timed_out {
            "timed out"@
        } else if connecting {
            "could not connect"@
        } else {
            "no usable response"@
        },
        other => error_text(other),
    }
}

/// Why a poll failed, as the hub row shows it.
pub fn reason(e: &Error) -> (r: String)
    ensures
        r@ == reason_of(e@),
{
    match e {
        Error::Upstream { message, .. } => message.clone(),
        Error::UpstreamTransport(t) => if t.timed_out {
            "timed out".to_owned()
        } else if t.connecting {
            "could not connect".to_owned()
        } else {
            "no usable response".to_owned()
        },
        other => other.text(),
    }
}

// ---- the hub ------------------------------------------------------------------------

/// A service as the hub lists it. `detail` is only filled on the single-service
/// route.
pub struct Status {
    /// `uptimerobot`, `tailscale`, `cloudflare`, `docker`, `droplet`, `github`.
    pub id: String,
    /// Display name.
    pub name: String,
    pub state: State,
    /// One line for a list row.
    pub headline: String,
    /// RFC 3339, when this was last fetched from the service.
    pub checked_at: String,
    /// Service-specific; see each service.
    pub detail: Option<Json>,
}

pub struct StatusView {
    pub id: Seq<char>,
    pub name: Seq<char>,
    pub state: State,
    pub headline: Seq<char>,
    pub checked_at: Seq<char>,
    pub detail: Option<JsonView>,
}

impl View for Status {
    type V = StatusView;

    open spec fn view(&self) -> StatusView {
        StatusView {
            id: self.id@,
            name: self.name@,
            state: self.state,
            headline: self.headline@,
            checked_at: self.checked_at@,
            detail: self.detail.deep_view(),
        }
    }
}

impl DeepView for Status {
    type V = StatusView;

    open spec fn deep_view(&self) -> StatusView {
        self@
    }
}

impl Status {
    /// The same row.
    pub fn copy(&self) -> (r: Status)
        ensures
            r@ == self@,
    {
        Status {
            id: self.id.clone(),
            name: self.name.clone(),
            state: self.state,
            headline: self.headline.clone(),
            checked_at: self.checked_at.clone(),
            detail: match &self.detail {
                Some(detail) => Some(detail.copy()),
                None => None,
            },
        }
    }

    /// The row without its detail, as the hub lists it.
    pub fn without_detail(self) -> (r: Status)
        ensures
            r@ == (StatusView { detail: None, ..self@ }),
    {
        Status { detail: None, ..self }
    }

    /// The row on the wire; `detail` only where there is one.
    pub fn to_json(&self) -> (r: Json)
        ensures
            r@ == status_document(self@),
    {
        let mut o = Object::new();
        o.put_text("id", self.id.as_str());
        o.put_text("name", self.name.as_str());
        o.put_text("state", self.state.as_str());
        o.put_text("headline", self.headline.as_str());
        o.put_text("checked_at", self.checked_at.as_str());
        assert(o@ =~= map![
            "id"@ => JsonView::Text(self@.id),
            "name"@ => JsonView::Text(self@.name),
            "state"@ => JsonView::Text(state_name(self@.state)),
            "headline"@ => JsonView::Text(self@.headline),
            "checked_at"@ => JsonView::Text(self@.checked_at),
        ]);
        match &self.detail {
            Some(detail) => o.put("detail", detail.copy()),
            None => {},
        }
        Json::Object(o)
    }
}

pub open spec fn state_name(state: State) -> Seq<char> {
    match state {
        State::Healthy => "ok"@,
        State::Warn => "warn"@,
        State::Down => "down"@,
        State::Unknown => "unknown"@,
    }
}

impl State {
    /// The state's name on the wire.
    pub fn as_str(self) -> (r: &'static str)
        ensures
            r@ == state_name(self),
    {
        match self {
            State::Healthy => "ok",
            State::Warn => "warn",
            State::Down => "down",
            State::Unknown => "unknown",
        }
    }
}

pub open spec fn status_document(status: StatusView) -> JsonView {
    let members = map![
        "id"@ => JsonView::Text(status.id),
        "name"@ => JsonView::Text(status.name),
        "state"@ => JsonView::Text(state_name(status.state)),
        "headline"@ => JsonView::Text(status.headline),
        "checked_at"@ => JsonView::Text(status.checked_at),
    ];
    JsonView::Object(with_member(members, "detail"@, status.detail))
}

/// Where the services are.
pub struct BaseUrls {
    pub uptimerobot: String,
    pub tailscale: String,
    pub cloudflare: String,
    pub digitalocean: String,
    pub github: String,
}

impl Default for BaseUrls {
    fn default() -> (r: BaseUrls)
        ensures
            r.uptimerobot@ == "https://api.uptimerobot.com"@,
            r.tailscale@ == "https://api.tailscale.com"@,
            r.cloudflare@ == "https://api.cloudflare.com"@,
            r.digitalocean@ == "https://api.digitalocean.com"@,
            r.github@ == "https://api.github.com"@,
    {
        BaseUrls {
            uptimerobot: "https://api.uptimerobot.com".to_owned(),
            tailscale: "https://api.tailscale.com".to_owned(),
            cloudflare: "https://api.cloudflare.com".to_owned(),
            digitalocean: "https://api.digitalocean.com".to_owned(),
            github: "https://api.github.com".to_owned(),
        }
    }
}

/// The display name of a service, where there is one of that id.
pub open spec fn service_name(id: Seq<char>) -> Option<Seq<char>> {
    if id == "github"@ {
        Some("GitHub"@)
    } else if id == "uptimerobot"@ {
        Some("UptimeRobot"@)
    } else if id == "droplet"@ {
        Some("Droplet"@)
    } else if id == "docker"@ {
        Some("Docker"@)
    } else if id == "tailscale"@ {
        Some("Tailscale"@)
    } else if id == "cloudflare"@ {
        Some("Cloudflare"@)
    } else {
        None
    }
}

/// The display name of a service, where there is one of that id.
pub fn name_of(id: &str) -> (r: Option<&'static str>)
    ensures
        r.deep_view() == service_name(id@),
{
    if same(id, "github") {
        Some("GitHub")
    } else if same(id, "uptimerobot") {
        Some("UptimeRobot")
    } else if same(id, "droplet") {
        Some("Droplet")
    } else if same(id, "docker") {
        Some("Docker")
    } else if same(id, "tailscale") {
        Some("Tailscale")
    } else if same(id, "cloudflare") {
        Some("Cloudflare")
    } else {
        None
    }
}

/// The service has what it takes to be watched.
pub open spec fn watched(cfg: OpsConfigView, id: Seq<char>) -> bool {
    ||| id == "github"@ && cfg.github_token is Some
    ||| id == "uptimerobot"@ && cfg.uptimerobot_api_key is Some
    ||| id == "droplet"@ && cfg.digitalocean_token is Some
    ||| id == "docker"@ && cfg.docker_socket is Some
    ||| id == "tailscale"@ && cfg.tailscale_api_key is Some
    ||| id == "cloudflare"@ && cfg.cloudflare_api_token is Some
}

/// The ids with one more, where its service is watched.
pub open spec fn with_watched(
    ids: Seq<Seq<char>>,
    cfg: OpsConfigView,
    id: Seq<char>,
) -> Seq<Seq<char>> {
    if watched(cfg, id) {
        ids.push(id)
    } else {
        ids
    }
}

/// The services that are watched, in the order the hub shows them.
pub open spec fn watched_ids(cfg: OpsConfigView) -> Seq<Seq<char>> {
    let ids = with_watched(Seq::empty(), cfg, "github"@);
    let ids = with_watched(ids, cfg, "uptimerobot"@);
    let ids = with_watched(ids, cfg, "droplet"@);
    let ids = with_watched(ids, cfg, "docker"@);
    let ids = with_watched(ids, cfg, "tailscale"@);
    with_watched(ids, cfg, "cloudflare"@)
}

/// What is known of the services: each row with the moment it was kept, and the
/// polls that are under way, each with the moment it was begun.
#[verifier::ext_equal]
pub struct HubView {
    pub rows: Map<Seq<char>, (u64, StatusView)>,
    pub begun: Map<Seq<char>, u64>,
}

/// Nothing is known, and nothing is under way.
pub open spec fn empty_hub() -> HubView {
    HubView { rows: Map::empty(), begun: Map::empty() }
}

/// What a request for a service's row comes to.
pub enum Lookup {
    /// A row that is recent enough.
    Cached(Status),
    /// The service has to be polled, by the one who asked.
    Poll,
    /// Another who asked is polling the service: its row is there once that poll
    /// is recorded.
    Wait,
}

pub enum LookupView {
    Cached(StatusView),
    Poll,
    Wait,
}

impl DeepView for Lookup {
    type V = LookupView;

    open spec fn deep_view(&self) -> LookupView {
        match self {
            Lookup::Cached(status) => LookupView::Cached(status@),
            Lookup::Poll => LookupView::Poll,
            Lookup::Wait => LookupView::Wait,
        }
    }
}

/// What a request for a service's row comes to, and what is known from then on:
/// not found, where there is no such service or it is not watched; its row, while
/// that is fresh; else a poll, unless one was begun that is not given up yet. One
/// that is as old as a row may be counts as given up.
pub open spec fn asked(
    cfg: OpsConfigView,
    hub: HubView,
    id: Seq<char>,
    now: u64,
) -> (HubView, std::result::Result<LookupView, ErrorView>) {
    if !watched(cfg, id) {
        (hub, Err(ErrorView::NotFound))
    } else if hub.rows.contains_key(id) && age(hub.rows[id].0, now) < TTL {
        (hub, Ok(LookupView::Cached(hub.rows[id].1)))
    } else if hub.begun.contains_key(id) && age(hub.begun[id], now) < TTL {
        (hub, Ok(LookupView::Wait))
    } else {
        (HubView { begun: hub.begun.insert(id, now), ..hub }, Ok(LookupView::Poll))
    }
}

/// What is known once a poll came to that row: the row is kept, and the poll is no
/// longer under way.
pub open spec fn kept(hub: HubView, id: Seq<char>, row: StatusView, now: u64) -> HubView {
    HubView { rows: hub.rows.insert(id, (now, row)), begun: hub.begun.remove(id) }
}

/// A poll's outcome as a report: one that failed is a `down` row that says why.
pub open spec fn reported(polled: std::result::Result<ReportView, ErrorView>) -> ReportView {
    match polled {
        Ok(report) => report,
        Err(e) => ReportView {
            state: State::Down,
            headline: reason_of(e),
            detail: JsonView::Object(map!["error"@ => JsonView::Text(reason_of(e))]),
        },
    }
}

/// The row of a service, from its report.
pub open spec fn row_of(
    id: Seq<char>,
    name: Seq<char>,
    report: ReportView,
    checked_at: Seq<char>,
) -> StatusView {
    StatusView {
        id,
        name,
        state: report.state,
        headline: report.headline,
        checked_at,
        detail: Some(report.detail),
    }
}

/// What a poll of a service does next, given the answers it has, at the moment
/// `now` in nanoseconds since 1970.
pub open spec fn poll_step(
    cfg: OpsConfigView,
    urls: BaseUrls,
    id: Seq<char>,
    answers: Seq<JsonView>,
    now: i128,
) -> std::result::Result<StepView, ErrorView> {
    if id == "uptimerobot"@ {
        uptimerobot::step_of(
            urls.uptimerobot@,
            token_or_empty(cfg.uptimerobot_api_key),
            answers,
        )
    } else if id == "tailscale"@ {
        Ok(tailscale::step_of(urls.tailscale@, cfg.tailscale_tailnet, answers, now))
    } else if id == "cloudflare"@ {
        Ok(cloudflare::step_of(urls.cloudflare@, answers))
    } else if id == "droplet"@ {
        Ok(digitalocean::step_of(urls.digitalocean@, answers, unix_secs(now)))
    } else if id == "github"@ {
        Ok(github::step_of(urls.github@, cfg.github_org, answers))
    } else if id == "docker"@ {
        Ok(docker::step_of(answers))
    } else {
        Err(ErrorView::NotFound)
    }
}

pub open spec fn token_or_empty(token: Option<Seq<char>>) -> Seq<char> {
    match token {
        Some(token) => token,
        None => Seq::empty(),
    }
}

/// The bearer that a service's requests carry.
pub open spec fn bearer_of(cfg: OpsConfigView, id: Seq<char>) -> Seq<char> {
    if id == "tailscale"@ {
        token_or_empty(cfg.tailscale_api_key)
    } else if id == "cloudflare"@ {
        token_or_empty(cfg.cloudflare_api_token)
    } else if id == "droplet"@ {
        token_or_empty(cfg.digitalocean_token)
    } else if id == "github"@ {
        token_or_empty(cfg.github_token)
    } else {
        Seq::empty()
    }
}

/// The whole seconds since 1970, as far as they fit.
pub open spec fn unix_secs(nanos: i128) -> i64 {
    let secs = nanos / 1_000_000_000;
    if secs > i64::MAX {
        i64::MAX
    } else if secs < i64::MIN {
        i64::MIN
    } else {
        secs as i64
    }
}

fn seconds(nanos: i128) -> (r: i64)
    ensures
        r == unix_secs(nanos),
{
    let whole: i128 = nanos / 1_000_000_000;
    let floor: i128 = if nanos < 0 && whole * 1_000_000_000 != nanos {
        whole - 1
    } else {
        whole
    };
    assert(floor == nanos as int / 1_000_000_000);
    if floor > i64::MAX as i128 {
        i64::MAX
    } else if floor < i64::MIN as i128 {
        i64::MIN
    } else {
        floor as i64
    }
}

fn token(given: &Option<String>) -> (r: &str)
    ensures
        r@ == token_or_empty(given.deep_view()),
{
    proof {
        reveal_strlit("");
        assert(""@ =~= Seq::empty());
    }
    match given {
        Some(text) => text.as_str(),
        None => "",
    }
}

/// The moment of a poll as a row shows it; nothing, where it cannot be written.
pub fn checked_at(nanos: i128) -> (r: String)
    ensures
        r@ == (match crate::clock::rfc3339_of(nanos) {
            Some(text) => text,
            None => Seq::empty(),
        }),
{
    match crate::clock::rfc3339(nanos) {
        Some(text) => text,
        None => String::new(),
    }
}

pub struct Ops {
    cfg: OpsConfig,
    urls: BaseUrls,
    cache: Table<Status>,
    polls: Table<()>,
}

impl View for Ops {
    type V = HubView;

    closed spec fn view(&self) -> HubView {
        HubView {
            rows: self.cache@.map_values(|entry: (u64, Status)| (entry.0, entry.1@)),
            begun: self.polls@.map_values(|entry: (u64, ())| entry.0),
        }
    }
}

impl Ops {
    pub closed spec fn wf(self) -> bool {
        self.cache.wf() && self.polls.wf()
    }

    pub closed spec fn config(self) -> OpsConfigView {
        self.cfg@
    }

    pub closed spec fn addresses(self) -> BaseUrls {
        self.urls
    }

    pub fn new(cfg: OpsConfig) -> (r: Ops)
        ensures
            r.wf(),
            r@ == empty_hub(),
            r.config() == cfg@,
            r.addresses().github@ == "https://api.github.com"@,
            r.addresses().uptimerobot@ == "https://api.uptimerobot.com"@,
            r.addresses().tailscale@ == "https://api.tailscale.com"@,
            r.addresses().cloudflare@ == "https://api.cloudflare.com"@,
            r.addresses().digitalocean@ == "https://api.digitalocean.com"@,
    {
        Self::with_base_urls(cfg, BaseUrls::default())
    }

    pub fn with_base_urls(cfg: OpsConfig, urls: BaseUrls) -> (r: Ops)
        ensures
            r.wf(),
            r@ == empty_hub(),
            r.config() == cfg@,
            r.addresses() == urls,
    {
        let r = Ops { cfg, urls, cache: Table::new(), polls: Table::new() };
        assert(r@ =~= empty_hub());
        r
    }

    fn is_configured(&self, id: &str) -> (r: bool)
        ensures
            r == watched(self.config(), id@),
    {
        (same(id, "github") && self.cfg.github_token.is_some()) || (same(id, "uptimerobot")
            && self.cfg.uptimerobot_api_key.is_some()) || (same(id, "droplet")
            && self.cfg.digitalocean_token.is_some()) || (same(id, "docker")
            && self.cfg.docker_socket.is_some()) || (same(id, "tailscale")
            && self.cfg.tailscale_api_key.is_some()) || (same(id, "cloudflare")
            && self.cfg.cloudflare_api_token.is_some())
    }

    fn add_watched(&self, ids: &mut Vec<&'static str>, id: &'static str)
        ensures
            final(ids).deep_view() == with_watched(old(ids).deep_view(), self.config(), id@),
    {
        let ghost before = ids.deep_view();
        if self.is_configured(id) {
            ids.push(id);
            assert(ids.deep_view() =~= before.push(id@));
        }
    }

    /// The configured services' ids, hub order.
    pub fn configured(&self) -> (r: Vec<&'static str>)
        ensures
            r.deep_view() == watched_ids(self.config()),
    {
        let mut ids: Vec<&'static str> = Vec::new();
        assert(ids.deep_view() =~= Seq::<Seq<char>>::empty());
        self.add_watched(&mut ids, "github");
        self.add_watched(&mut ids, "uptimerobot");
        self.add_watched(&mut ids, "droplet");
        self.add_watched(&mut ids, "docker");
        self.add_watched(&mut ids, "tailscale");
        self.add_watched(&mut ids, "cloudflare");
        ids
    }

    /// What a request for a service's row comes to at the moment `now`, on the
    /// clock that polls are timed by. Who is told to poll is noted as doing so, until
    /// [`Ops::record`].
    pub fn status(&mut self, id: &str, now: u64) -> (r: Result<Lookup>)
        requires
            old(self).wf(),
        ensures
            final(self).wf(),
            final(self).config() == old(self).config(),
            final(self).addresses() == old(self).addresses(),
            (final(self)@, outcome(r)) == asked(old(self).config(), old(self)@, id@, now),
    {
        if !self.is_configured(id) {
            return Err(Error::NotFound);
        }
        match self.cache.get(id) {
            Some((at, status)) => if is_fresh(at, now) {
                return Ok(Lookup::Cached(status.copy()));
            },
            None => {},
        }
        match self.polls.get(id) {
            Some((at, _)) => if is_fresh(at, now) {
                return Ok(Lookup::Wait);
            },
            None => {},
        }
        self.polls.put(id, now, ());
        assert(self@ =~= asked(old(self).config(), old(self)@, id@, now).0);
        Ok(Lookup::Poll)
    }

    /// What a poll of a service does next, given the answers it has.
    pub fn poll(&self, id: &str, answers: &Vec<Json>, now: i128) -> (r: Result<Step>)
        ensures
            outcome(r) == poll_step(
                self.config(),
                self.addresses(),
                id@,
                answers.deep_view(),
                now,
            ),
    {
        if same(id, "uptimerobot") {
            uptimerobot::check(
                self.urls.uptimerobot.as_str(),
                token(&self.cfg.uptimerobot_api_key),
                answers,
            )
        } else if same(id, "tailscale") {
            Ok(
                tailscale::check(
                    self.urls.tailscale.as_str(),
                    self.cfg.tailscale_tailnet.as_str(),
                    answers,
                    now,
                ),
            )
        } else if same(id, "cloudflare") {
            Ok(cloudflare::check(self.urls.cloudflare.as_str(), answers))
        } else if same(id, "droplet") {
            Ok(digitalocean::check(self.urls.digitalocean.as_str(), answers, seconds(now)))
        } else if same(id, "github") {
            Ok(github::check(self.urls.github.as_str(), self.cfg.github_org.as_str(), answers))
        } else if same(id, "docker") {
            Ok(docker::check(answers))
        } else {
            Err(Error::NotFound)
        }
    }

    /// The bearer that a service's requests carry.
    pub fn bearer(&self, id: &str) -> (r: &str)
        ensures
            r@ == bearer_of(self.config(), id@),
    {
        proof {
            reveal_strlit("");
            assert(""@ =~= Seq::empty());
        }
        if same(id, "tailscale") {
            token(&self.cfg.tailscale_api_key)
        } else if same(id, "cloudflare") {
            token(&self.cfg.cloudflare_api_token)
        } else if same(id, "droplet") {
            token(&self.cfg.digitalocean_token)
        } else if same(id, "github") {
            token(&self.cfg.github_token)
        } else {
            ""
        }
    }

    /// The engine's socket.
    pub fn socket(&self) -> (r: &str)
        ensures
            r@ == token_or_empty(self.config().docker_socket),
    {
        token(&self.cfg.docker_socket)
    }

    /// Keeps what a poll of a service came to, as its row; the poll is then over.
    pub fn record(
        &mut self,
        id: &str,
        polled: Result<Report>,
        checked_at: String,
        now: u64,
    ) -> (r: Result<Status>)
        requires
            old(self).wf(),
        ensures
            final(self).wf(),
            final(self).config() == old(self).config(),
            final(self).addresses() == old(self).addresses(),
            match service_name(id@) {
                Some(name) => {
                    let row = row_of(id@, name, reported(outcome(polled)), checked_at@);
                    &&& outcome(r) == Ok::<StatusView, ErrorView>(row)
                    &&& final(self)@ == kept(old(self)@, id@, row, now)
                },
                None => {
                    &&& outcome(r) == Err::<StatusView, ErrorView>(ErrorView::NotFound)
                    &&& final(self)@ == old(self)@
                },
            },
    {
        let name = match name_of(id) {
            Some(name) => name,
            None => {
                return Err(Error::NotFound);
            },
        };
        let ghost outcome_of_poll = outcome(polled);
        let report = match polled {
            Ok(report) => report,
            Err(e) => down_report(&e),
        };
        assert(report@ == reported(outcome_of_poll));
        let status = Status {
            id: id.to_owned(),
            name: name.to_owned(),
            state: report.state,
            headline: report.headline,
            checked_at,
            detail: Some(report.detail),
        };
        self.cache.put(id, now, status.copy());
        let _ = self.polls.take(id);
        assert(self@ =~= kept(old(self)@, id@, status@, now));
        Ok(status)
    }
}

/// What was noted at that moment is not as old as a row may be.
fn is_fresh(at: u64, now: u64) -> (r: bool)
    ensures
        r == (age(at, now) < TTL),
{
    now <= at || now - at < TTL
}

fn down_report(e: &Error) -> (r: Report)
    ensures
        r@ == reported(Err(e@)),
{
    let why = reason(e);
    let mut detail = Object::new();
    detail.put_text("error", why.as_str());
    assert(detail@ =~= map!["error"@ => JsonView::Text(reason_of(e@))]);
    Report { state: State::Down, headline: why, detail: Json::Object(detail) }
}

// ---- laws ---------------------------------------------------------------------------

/// What happens to the hub: someone asks for a service's row, or a poll is recorded.
pub enum HubEvent {
    Asked { id: Seq<char>, now: u64 },
    Recorded { id: Seq<char>, row: StatusView, now: u64 },
}

impl HubEvent {
    /// The moment it happens at.
    pub open spec fn moment(self) -> u64 {
        match self {
            HubEvent::Asked { now, .. } => now,
            HubEvent::Recorded { now, .. } => now,
        }
    }
}

/// What is known once it has happened.
pub open spec fn happened(cfg: OpsConfigView, hub: HubView, event: HubEvent) -> HubView {
    match event {
        HubEvent::Asked { id, now } => asked(cfg, hub, id, now).0,
        HubEvent::Recorded { id, row, now } => kept(hub, id, row, now),
    }
}

/// The one who asks is told to poll that service.
pub open spec fn begins_a_poll(
    cfg: OpsConfigView,
    hub: HubView,
    event: HubEvent,
    id: Seq<char>,
) -> bool {
    event matches HubEvent::Asked { id: other, now } && other == id && asked(cfg, hub, id, now).1
        == Ok::<LookupView, ErrorView>(LookupView::Poll)
}

/// The hub's course: what is known before the first event and after each, as time
/// goes on.
pub open spec fn course(cfg: OpsConfigView, hubs: Seq<HubView>, events: Seq<HubEvent>) -> bool {
    &&& hubs.len() == events.len() + 1
    &&& forall|i: int|
        0 <= i < events.len() ==> hubs[i + 1] == happened(cfg, hubs[i], #[trigger] events[i])
    &&& forall|i: int, j: int|
        0 <= i <= j < events.len() ==> (#[trigger] events[i]).moment() <= (
        #[trigger] events[j]).moment()
}

/// A poll of the service was begun, or a row of it kept, at that moment or later.
spec fn polled_since(hub: HubView, id: Seq<char>, at: u64) -> bool {
    ||| hub.begun.contains_key(id) && hub.begun[id] >= at
    ||| hub.rows.contains_key(id) && hub.rows[id].0 >= at
}

proof fn polled_since_then(
    cfg: OpsConfigView,
    hubs: Seq<HubView>,
    events: Seq<HubEvent>,
    id: Seq<char>,
    i: int,
    j: int,
)
    requires
        course(cfg, hubs, events),
        0 <= i < j <= events.len(),
        begins_a_poll(cfg, hubs[i], events[i], id),
    ensures
        polled_since(hubs[j], id, events[i].moment()),
    decreases j,
{
    assert(hubs[j] == happened(cfg, hubs[j - 1], events[j - 1]));
    if i < j - 1 {
        polled_since_then(cfg, hubs, events, id, i, j - 1);
        assert(events[i].moment() <= events[j - 1].moment());
    }
}

/// A service is polled at most once in thirty seconds, however many ask, and
/// whether they ask one after the other or while a poll is under way: whatever
/// happens in between, two polls of it are begun that far apart.
pub proof fn polls_are_thirty_seconds_apart(
    cfg: OpsConfigView,
    hubs: Seq<HubView>,
    events: Seq<HubEvent>,
    id: Seq<char>,
    i: int,
    j: int,
)
    requires
        course(cfg, hubs, events),
        0 <= i < j < events.len(),
        begins_a_poll(cfg, hubs[i], events[i], id),
        begins_a_poll(cfg, hubs[j], events[j], id),
    ensures
        events[j].moment() - events[i].moment() >= 30_000_000_000,
{
    polled_since_then(cfg, hubs, events, id, i, j);
}

/// Between a poll and its record no one else is told to poll the service: they
/// wait, or get a row that is still fresh.
pub proof fn who_asks_during_a_poll_waits(cfg: OpsConfigView, hub: HubView, id: Seq<char>, now: u64)
    requires
        watched(cfg, id),
        hub.begun.contains_key(id),
        age(hub.begun[id], now) < 30_000_000_000,
    ensures
        asked(cfg, hub, id, now).0 == hub,
        asked(cfg, hub, id, now).1 == Ok::<LookupView, ErrorView>(
            if hub.rows.contains_key(id) && age(hub.rows[id].0, now) < 30_000_000_000 {
                LookupView::Cached(hub.rows[id].1)
            } else {
                LookupView::Wait
            },
        ),
{
}

/// A row that was recorded is what everyone is answered, unchanged, until it is
/// thirty seconds old or another takes its place. A `down` row is no exception.
pub proof fn a_row_is_reused_while_it_is_fresh(
    cfg: OpsConfigView,
    hubs: Seq<HubView>,
    events: Seq<HubEvent>,
    id: Seq<char>,
    row: StatusView,
    at: u64,
    i: int,
    j: int,
    now: u64,
)
    requires
        course(cfg, hubs, events),
        watched(cfg, id),
        0 <= i < j < events.len(),
        events[i] == (HubEvent::Recorded { id, row, now: at }),
        forall|k: int|
            i < k < j ==> !((#[trigger] events[k]) matches HubEvent::Recorded { id: other, .. }
                && other == id),
        events[j] == (HubEvent::Asked { id, now }),
        age(at, now) < 30_000_000_000,
    ensures
        asked(cfg, hubs[j], id, now).1 == Ok::<LookupView, ErrorView>(LookupView::Cached(row)),
        hubs[j + 1] == hubs[j],
{
    row_stays(cfg, hubs, events, id, row, at, i, j);
    assert(hubs[j + 1] == happened(cfg, hubs[j], events[j]));
}

proof fn row_stays(
    cfg: OpsConfigView,
    hubs: Seq<HubView>,
    events: Seq<HubEvent>,
    id: Seq<char>,
    row: StatusView,
    at: u64,
    i: int,
    j: int,
)
    requires
        course(cfg, hubs, events),
        0 <= i < j <= events.len(),
        events[i] == (HubEvent::Recorded { id, row, now: at }),
        forall|k: int|
            i < k < j ==> !((#[trigger] events[k]) matches HubEvent::Recorded { id: other, .. }
                && other == id),
    ensures
        hubs[j].rows.contains_key(id),
        hubs[j].rows[id] == (at, row),
    decreases j,
{
    assert(hubs[j] == happened(cfg, hubs[j - 1], events[j - 1]));
    if i < j - 1 {
        row_stays(cfg, hubs, events, id, row, at, i, j - 1);
    }
}

/// A poll that fails, however it fails, is a `down` row that says why: the hub
/// does not fail because one service did.
pub proof fn a_failed_poll_is_a_down_row(
    id: Seq<char>,
    name: Seq<char>,
    e: ErrorView,
    checked_at: Seq<char>,
)
    ensures
        row_of(id, name, reported(Err(e)), checked_at).state == State::Down,
        row_of(id, name, reported(Err(e)), checked_at).headline == reason_of(e),
{
}

/// Tokens are never reported: what a poll reports is the same whatever the tokens
/// are.
pub proof fn tokens_are_not_reported(
    a: OpsConfigView,
    b: OpsConfigView,
    urls: BaseUrls,
    id: Seq<char>,
    answers: Seq<JsonView>,
    now: i128,
)
    requires
        a.github_org == b.github_org,
        a.tailscale_tailnet == b.tailscale_tailnet,
        answers.len() > 0,
    ensures
        poll_step(a, urls, id, answers, now) == poll_step(b, urls, id, answers, now),
{
}

/// The hub lists a service exactly where it is watched.
pub proof fn the_hub_lists_what_is_watched(cfg: OpsConfigView, id: Seq<char>)
    ensures
        watched_ids(cfg).contains(id) <==> watched(cfg, id),
        watched(cfg, id) ==> service_name(id) is Some,
{
    let a = with_watched(Seq::empty(), cfg, "github"@);
    let b = with_watched(a, cfg, "uptimerobot"@);
    let c = with_watched(b, cfg, "droplet"@);
    let d = with_watched(c, cfg, "docker"@);
    let e = with_watched(d, cfg, "tailscale"@);
    one_more_watched(Seq::empty(), cfg, "github"@, id);
    one_more_watched(a, cfg, "uptimerobot"@, id);
    one_more_watched(b, cfg, "droplet"@, id);
    one_more_watched(c, cfg, "docker"@, id);
    one_more_watched(d, cfg, "tailscale"@, id);
    one_more_watched(e, cfg, "cloudflare"@, id);
}

proof fn one_more_watched(
    ids: Seq<Seq<char>>,
    cfg: OpsConfigView,
    added: Seq<char>,
    id: Seq<char>,
)
    ensures
        with_watched(ids, cfg, added).contains(id) <==> ids.contains(id) || (id == added && watched(
            cfg,
            added,
        )),
{
    let more = with_watched(ids, cfg, added);
    if ids.contains(id) {
        let k = choose|k: int| 0 <= k < ids.len() && ids[k] == id;
        assert(more[k] == id);
    }
    if id == added && watched(cfg, added) {
        assert(more[ids.len() as int] == id);
    }
    if more.contains(id) {
        let k = choose|k: int| 0 <= k < more.len() && more[k] == id;
        if k < ids.len() {
            assert(ids[k] == id);
        }
    }
}

/// The services go by these names; there is no other. What fails is called by the
/// provider's name.
pub proof fn the_services_go_by_their_names(id: Seq<char>)
    ensures
        service_name("github"@) == Some("GitHub"@),
        service_name("uptimerobot"@) == Some("UptimeRobot"@),
        service_name("droplet"@) == Some("Droplet"@),
        service_name("docker"@) == Some("Docker"@),
        service_name("tailscale"@) == Some("Tailscale"@),
        service_name("cloudflare"@) == Some("Cloudflare"@),
        service_name(id) is Some ==> set![
            "github"@,
            "uptimerobot"@,
            "droplet"@,
            "docker"@,
            "tailscale"@,
            "cloudflare"@,
        ].contains(id),
        provider("github"@) == "GitHub"@,
        provider("uptimerobot"@) == "UptimeRobot"@,
        provider("droplet"@) == "DigitalOcean"@,
        provider("tailscale"@) == "Tailscale"@,
        provider("cloudflare"@) == "Cloudflare"@,
{
    reveal_strlit("github");
    reveal_strlit("uptimerobot");
    reveal_strlit("droplet");
    reveal_strlit("docker");
    reveal_strlit("tailscale");
    reveal_strlit("cloudflare");
    assert("github"@.len() == 6 && "uptimerobot"@.len() == 11 && "droplet"@.len() == 7
        && "docker"@.len() == 6 && "tailscale"@.len() == 9 && "cloudflare"@.len() == 10);
    assert("github"@[0] != "docker"@[0]);
}

/// A service is watched where its own token is there, whatever other tokens are.
pub proof fn a_service_is_watched_by_its_own_token(cfg: OpsConfigView)
    ensures
        watched(cfg, "github"@) <==> cfg.github_token is Some,
        watched(cfg, "uptimerobot"@) <==> cfg.uptimerobot_api_key is Some,
        watched(cfg, "droplet"@) <==> cfg.digitalocean_token is Some,
        watched(cfg, "docker"@) <==> cfg.docker_socket is Some,
        watched(cfg, "tailscale"@) <==> cfg.tailscale_api_key is Some,
        watched(cfg, "cloudflare"@) <==> cfg.cloudflare_api_token is Some,
{
    reveal_strlit("github");
    reveal_strlit("uptimerobot");
    reveal_strlit("droplet");
    reveal_strlit("docker");
    reveal_strlit("tailscale");
    reveal_strlit("cloudflare");
    assert("github"@.len() == 6 && "uptimerobot"@.len() == 11 && "droplet"@.len() == 7
        && "docker"@.len() == 6 && "tailscale"@.len() == 9 && "cloudflare"@.len() == 10);
    assert("github"@[0] != "docker"@[0]);
}

/// With every token, the hub shows the six services in this order.
pub proof fn the_hub_shows_services_in_order(cfg: OpsConfigView)
    requires
        cfg.github_token is Some,
        cfg.uptimerobot_api_key is Some,
        cfg.digitalocean_token is Some,
        cfg.docker_socket is Some,
        cfg.tailscale_api_key is Some,
        cfg.cloudflare_api_token is Some,
    ensures
        watched_ids(cfg) == seq![
            "github"@,
            "uptimerobot"@,
            "droplet"@,
            "docker"@,
            "tailscale"@,
            "cloudflare"@,
        ],
{
    assert(watched_ids(cfg) =~= seq![
        "github"@,
        "uptimerobot"@,
        "droplet"@,
        "docker"@,
        "tailscale"@,
        "cloudflare"@,
    ]);
}

/// A service is polled at its own address, with what is configured for it.
pub proof fn a_service_is_polled_at_its_own_address(
    cfg: OpsConfigView,
    urls: BaseUrls,
    answers: Seq<JsonView>,
    now: i128,
)
    requires
        0 <= now <= 9_000_000_000_000_000_000,
    ensures
        poll_step(cfg, urls, "github"@, answers, now) == Ok::<StepView, ErrorView>(
            github::step_of(urls.github@, cfg.github_org, answers),
        ),
        poll_step(cfg, urls, "tailscale"@, answers, now) == Ok::<StepView, ErrorView>(
            tailscale::step_of(urls.tailscale@, cfg.tailscale_tailnet, answers, now),
        ),
        poll_step(cfg, urls, "cloudflare"@, answers, now) == Ok::<StepView, ErrorView>(
            cloudflare::step_of(urls.cloudflare@, answers),
        ),
        poll_step(cfg, urls, "droplet"@, answers, now) == Ok::<StepView, ErrorView>(
            digitalocean::step_of(urls.digitalocean@, answers, (now / 1_000_000_000) as i64),
        ),
        poll_step(cfg, urls, "docker"@, answers, now) == Ok::<StepView, ErrorView>(
            docker::step_of(answers),
        ),
        cfg.uptimerobot_api_key matches Some(key) ==> poll_step(
            cfg,
            urls,
            "uptimerobot"@,
            answers,
            now,
        ) == uptimerobot::step_of(urls.uptimerobot@, key, answers),
{
    reveal_strlit("github");
    reveal_strlit("uptimerobot");
    reveal_strlit("droplet");
    reveal_strlit("docker");
    reveal_strlit("tailscale");
    reveal_strlit("cloudflare");
    assert("github"@.len() == 6 && "uptimerobot"@.len() == 11 && "droplet"@.len() == 7
        && "docker"@.len() == 6 && "tailscale"@.len() == 9 && "cloudflare"@.len() == 10);
    assert("github"@[0] != "docker"@[0]);
}

/// A service's row is what its own poll reported: its state, headline and detail,
/// stamped with when that was.
pub proof fn a_row_is_what_was_reported(
    id: Seq<char>,
    name: Seq<char>,
    report: ReportView,
    at: Seq<char>,
)
    ensures
        ({
            let row = row_of(id, name, reported(Ok(report)), at);
            &&& row.id == id
            &&& row.name == name
            &&& row.state == report.state
            &&& row.headline == report.headline
            &&& row.detail == Some(report.detail)
            &&& row.checked_at == at
        }),
{
}

/// Why a poll failed is told in the row: what the service said, or what happened on
/// the way; the detail says the same.
pub proof fn a_failure_is_told_in_the_row(
    id: Seq<char>,
    name: Seq<char>,
    at: Seq<char>,
    status: u16,
    kind: Seq<char>,
    message: Seq<char>,
    text: Seq<char>,
)
    ensures
        reason_of(ErrorView::Upstream { status, kind, message, retry_after: None }) == message,
        reason_of(
            ErrorView::UpstreamTransport { timed_out: true, connecting: false, text },
        ) == "timed out"@,
        reason_of(
            ErrorView::UpstreamTransport { timed_out: false, connecting: true, text },
        ) == "could not connect"@,
        reason_of(
            ErrorView::UpstreamTransport { timed_out: false, connecting: false, text },
        ) == "no usable response"@,
        forall|e: ErrorView| #![trigger reported(Err(e))]
            text_field(reported(Err(e)).detail, "error"@) == Some(reported(Err(e)).headline)
                && reported(Err(e)).headline == reason_of(e),
{
}

/// A row on the wire is read back as it is: its parts under their names, its state
/// as `ok`, `warn`, `down` or `unknown`, its detail only where there is one.
pub proof fn a_row_reads_back(row: StatusView)
    ensures
        ({
            let wire = status_document(row);
            &&& text_field(wire, "id"@) == Some(row.id)
            &&& text_field(wire, "name"@) == Some(row.name)
            &&& text_field(wire, "headline"@) == Some(row.headline)
            &&& text_field(wire, "checked_at"@) == Some(row.checked_at)
            &&& field(wire, "detail"@) == row.detail
            &&& row.state == State::Healthy ==> text_field(wire, "state"@) == Some("ok"@)
            &&& row.state == State::Warn ==> text_field(wire, "state"@) == Some("warn"@)
            &&& row.state == State::Down ==> text_field(wire, "state"@) == Some("down"@)
            &&& row.state == State::Unknown ==> text_field(wire, "state"@) == Some("unknown"@)
            &&& row.detail is None ==> has_just(
                wire,
                set!["id"@, "name"@, "state"@, "headline"@, "checked_at"@],
            )
        }),
{
    reveal_strlit("id");
    reveal_strlit("name");
    reveal_strlit("state");
    reveal_strlit("headline");
    reveal_strlit("checked_at");
    reveal_strlit("detail");
    assert("id"@.len() == 2 && "name"@.len() == 4 && "state"@.len() == 5
        && "headline"@.len() == 8 && "checked_at"@.len() == 10 && "detail"@.len() == 6);
    if row.detail is None {
        assert(status_document(row)->Object_0.dom() =~= set![
            "id"@,
            "name"@,
            "state"@,
            "headline"@,
            "checked_at"@,
        ]);
    }
}

/// An answer is what the service sent, where its status is a success. A refusal
/// carries the service's name, the status, and what the service said: its `message`,
/// or else its `error`, or else what the status means.
pub proof fn an_answer_is_what_the_service_sent(
    status: u16,
    body: JsonView,
    service: Seq<char>,
    phrase: Seq<char>,
    said: Seq<char>,
)
    ensures
        200 <= status < 300 ==> answer_of(status, Ok(body), service, Some(phrase)) == Ok::<
            JsonView,
            ErrorView,
        >(body),
        200 <= status < 300 ==> (answer_of(status, Err(said), service, Some(phrase)) matches Err(
            e,
        ) && e is UpstreamTransport),
        !(200 <= status < 300) ==> {
            let head = service + ": "@ + decimal(status as nat) + " "@;
            &&& text_field(body, "message"@) == Some(said) ==> (answer_of(
                status,
                Ok(body),
                service,
                Some(phrase),
            ) matches Err(ErrorView::Upstream { status: s, message, .. }) && s == status && message
                == head + said)
            &&& field(body, "message"@) is None && text_field(body, "error"@) == Some(said) ==> (
            answer_of(status, Ok(body), service, Some(phrase)) matches Err(
                ErrorView::Upstream { message, .. },
            ) && message == head + said)
            &&& field(body, "message"@) is None && field(body, "error"@) is None ==> (answer_of(
                status,
                Ok(body),
                service,
                Some(phrase),
            ) matches Err(ErrorView::Upstream { message, .. }) && message == head + phrase)
            &&& answer_of(status, Err(said), service, Some(phrase)) matches Err(
                ErrorView::Upstream { message, .. },
            ) && message == head + phrase
        },
{
}

/// One thing is counted as one, and any other number as many.
pub proof fn things_are_counted_in_words(n: nat, one: Seq<char>, many: Seq<char>)
    ensures
        counted(1, one, many) == "1 "@ + one,
        n != 1 ==> counted(n, one, many) == decimal(n) + " "@ + many,
{
}

/// A service's requests carry its own token and no other's: those that know one by
/// its header carry it there, and the rest carry none.
pub proof fn requests_carry_their_own_token(cfg: OpsConfigView, id: Seq<char>, token: Seq<char>)
    ensures
        cfg.tailscale_api_key == Some(token) ==> bearer_of(cfg, "tailscale"@) == token,
        cfg.cloudflare_api_token == Some(token) ==> bearer_of(cfg, "cloudflare"@) == token,
        cfg.digitalocean_token == Some(token) ==> bearer_of(cfg, "droplet"@) == token,
        cfg.github_token == Some(token) ==> bearer_of(cfg, "github"@) == token,
        id != "tailscale"@ && id != "cloudflare"@ && id != "droplet"@ && id != "github"@
            ==> bearer_of(cfg, id).len() == 0,
        token_or_empty(Some(token)) == token,
        token_or_empty(None).len() == 0,
{
    reveal_strlit("github");
    reveal_strlit("droplet");
    reveal_strlit("tailscale");
    reveal_strlit("cloudflare");
    assert("github"@.len() == 6 && "droplet"@.len() == 7 && "tailscale"@.len() == 9
        && "cloudflare"@.len() == 10);
}

/// What a poll comes to is one of these: a service that is not watched is not found;
/// a row of the last thirty seconds is shown again; while a poll of the last thirty
/// seconds runs it is waited for; else a poll begins, and that is remembered.
pub proof fn a_lookup_is_answered_so(cfg: OpsConfigView, hub: HubView, id: Seq<char>, now: u64)
    ensures
        ({
            let (after, answer) = asked(cfg, hub, id, now);
            let fresh = hub.rows.contains_key(id) && now - hub.rows[id].0 < 30_000_000_000;
            let running = hub.begun.contains_key(id) && now - hub.begun[id] < 30_000_000_000;
            &&& !watched(cfg, id) ==> answer == Err::<LookupView, ErrorView>(ErrorView::NotFound)
            &&& watched(cfg, id) && fresh ==> answer == Ok::<LookupView, ErrorView>(
                LookupView::Cached(hub.rows[id].1),
            )
            &&& watched(cfg, id) && !fresh && running ==> answer == Ok::<LookupView, ErrorView>(
                LookupView::Wait,
            )
            &&& watched(cfg, id) && !fresh && !running ==> answer == Ok::<LookupView, ErrorView>(
                LookupView::Poll,
            ) && after.begun == hub.begun.insert(id, now)
            &&& !(watched(cfg, id) && !fresh && !running) ==> after == hub
            &&& after.rows == hub.rows
        }),
{
}

/// What is recorded is shown from then on, and its poll is over; other services are
/// as they were.
pub proof fn a_row_is_kept_for_its_service(
    cfg: OpsConfigView,
    hub: HubView,
    id: Seq<char>,
    other: Seq<char>,
    row: StatusView,
    now: u64,
)
    requires
        other != id,
    ensures
        watched(cfg, id) ==> asked(cfg, kept(hub, id, row, now), id, now).1 == Ok::<
            LookupView,
            ErrorView,
        >(LookupView::Cached(row)),
        !kept(hub, id, row, now).begun.contains_key(id),
        asked(cfg, kept(hub, id, row, now), other, now).1 == asked(cfg, hub, other, now).1,
        empty_hub().rows.dom() == Set::<Seq<char>>::empty(),
        empty_hub().begun.dom() == Set::<Seq<char>>::empty(),
{
}

/// Every failure is told: one that came with words in these, one that ran out of time
/// or found no one as that, and any other as a log has it.
pub proof fn every_failure_is_told(
    e: ErrorView,
    status: u16,
    kind: Seq<char>,
    message: Seq<char>,
    retry_after: Option<u32>,
    connecting: bool,
    text: Seq<char>,
)
    ensures
        reason_of(ErrorView::Upstream { status, kind, message, retry_after }) == message,
        reason_of(ErrorView::UpstreamTransport { timed_out: true, connecting, text })
            == "timed out"@,
        !(e is Upstream) && !(e is UpstreamTransport) ==> reason_of(e) == error_text(e),
        reported(Err(e)).state == State::Down,
        reported(Err(e)).detail matches JsonView::Object(m) && m.dom() == set!["error"@],
{
    assert(reported(Err(e)).detail->Object_0.dom() =~= set!["error"@]);
}

/// An answer that is refused has the status that it came with, and is told as an error
/// where nothing else can be said of it.
pub proof fn a_refused_answer_keeps_its_status(
    status: u16,
    body: std::result::Result<JsonView, Seq<char>>,
    service: Seq<char>,
    phrase: Option<Seq<char>>,
)
    ensures
        answer_of(status, body, service, phrase) is Ok <==> 200 <= status <= 299 && body is Ok,
        !(200 <= status <= 299) ==> (answer_of(status, body, service, phrase) matches Err(
            ErrorView::Upstream { status: told, kind, message, retry_after },
        ) && told == status && kind == "ops"@ && retry_after is None && (body is Err && phrase
            is None ==> message == service + ": "@ + decimal(status as nat) + " error"@)),
{
    reveal_strlit(" error");
    reveal_strlit("error");
    reveal_strlit(" ");
    let head = service + ": "@ + decimal(status as nat);
    assert(head + " "@ + "error"@ =~= head + " error"@);
}

/// What is missing in an answer has its plain value: no text, nought, or no.
pub proof fn what_is_missing_is_plain(v: JsonView, outer: Seq<char>, inner: Seq<char>, i: i64)
    ensures
        text_in(v, outer, inner) matches Some(text) ==> text_in_or_empty(v, outer, inner) == text,
        text_in(v, outer, inner) is None ==> text_in_or_empty(v, outer, inner).len() == 0,
        int_field(v, inner) == Some(i) ==> int_or_zero(v, inner) == JsonView::Number(
            integer_number(i),
        ),
        int_field(v, inner) is None ==> int_or_zero(v, inner) == JsonView::Number(
            integer_number(0),
        ),
        bool_field(v, inner) == Some(true) ==> flag(v, inner) == JsonView::Bool(true),
        bool_field(v, inner) != Some(true) ==> flag(v, inner) == JsonView::Bool(false),
{
}

/// The clock in whole seconds: those that have passed, where they fit.
pub proof fn the_clock_in_seconds(nanos: i128)
    requires
        0 <= nanos < 0x7fff_ffff_ffff_ffff * 1_000_000_000,
    ensures
        unix_secs(nanos) * 1_000_000_000 <= nanos,
        nanos < (unix_secs(nanos) + 1) * 1_000_000_000,
{
}

} // verus!
