//! `/v1/sessions`: start, list, inspect, message, stream, interrupt. Reads need
//! `sessions:read`, writes `sessions:write`; `GET` and `POST` share paths, so
//! each route checks its scope itself. What a route asks of the control plane is
//! a [`Call`], made only once the request has been found good.
//!
//! Session and event objects are passed through unchanged.

use crate::auth::keys::Scope;
use crate::auth::middleware::{allowed, Principal};
use crate::error::{outcome, Error, ErrorView, Result};
use crate::json::{bool_field, field, has_just, items_field, text_field, text_or_empty, Json, JsonView, Object};
use crate::text::{cat2, cat3, decimal, in_charset, is_blank, is_named_with, made_of, named_with, number, same, trimmed, Charset};
use crate::upstream::control_plane::{add_param, getting, posting, with_param, Call, CallView, Method};
use vstd::prelude::*;

verus! {

/// The longest `system_suffix`, in characters.
pub const SUFFIX_MAX_CHARS: usize = 4_000;

/// The most tools that a session can declare.
pub const TOOLS_MAX: usize = 32;

/// Something is refused with that message.
pub open spec fn bad<T>(message: Seq<char>) -> std::result::Result<T, ErrorView> {
    Err(ErrorView::InvalidRequest(message))
}

/// Session and agent ids are path segments upstream: 1 to 128 characters of
/// `[A-Za-z0-9_-]`, so that nothing else can be spliced into a URL.
pub open spec fn id_shaped(id: Seq<char>) -> bool {
    named_with(id, Charset::Id, 128)
}

/// Refuses an id of another shape.
pub fn valid_id(id: &str) -> (r: Result<()>)
    ensures
        outcome(r) == (if id_shaped(id@) {
            Ok(())
        } else {
            bad("session id has unexpected characters"@)
        }),
{
    if is_named_with(id, Charset::Id, 128) {
        Ok(())
    } else {
        Err(Error::InvalidRequest("session id has unexpected characters".to_owned()))
    }
}

// ---- start ------------------------------------------------------------------

pub struct CreateSession {
    /// A fleet agent: `jarvis`, `blueweb-client`, `blueweb-ops`, `gpu-compute`.
    pub agent_slug: String,
    /// The first user message. Its first line becomes the session title.
    pub task: String,
    /// Override the agent's default environment (`cloud-default`, `rig-gpu`,
    /// `blueweb-web`). Sessions on `rig-gpu` queue while the rig is off.
    pub environment: Option<String>,
    /// Extra `https://github.com/<owner>/<repo>` URLs to mount, on top of the
    /// agent's own. Only agents with a GitHub credential accept these.
    pub repositories: Vec<String>,
    /// Tools that the client executes, declared for this session only.
    pub tools: Vec<CustomTool>,
    /// Appended to the agent's system prompt for this session only, after a
    /// blank line: a client's personality or device context. At most 4000
    /// characters.
    pub system_suffix: Option<String>,
    /// Which client started the session: `quest`, `mac`, `tauri`. `[a-z0-9-]`,
    /// 1 to 32 characters.
    pub client: Option<String>,
    /// The model to run it on instead of the agent's own. `[a-z0-9.-]`, 1 to 64
    /// characters.
    pub model: Option<String>,
}

/// A client-executed tool. `input_schema` is a JSON Schema object.
pub struct CustomTool {
    /// Always `custom`.
    pub kind: String,
    /// `[a-z0-9_]`, 1 to 64 characters, unique within the session.
    pub name: String,
    /// What it does and when to use it: the model reads this.
    pub description: String,
    pub input_schema: Json,
}

#[verifier::ext_equal]
pub struct CustomToolView {
    pub kind: Seq<char>,
    pub name: Seq<char>,
    pub description: Seq<char>,
    pub input_schema: JsonView,
}

#[verifier::ext_equal]
pub struct CreateSessionView {
    pub agent_slug: Seq<char>,
    pub task: Seq<char>,
    pub environment: Option<Seq<char>>,
    pub repositories: Seq<Seq<char>>,
    pub tools: Seq<CustomToolView>,
    pub system_suffix: Option<Seq<char>>,
    pub client: Option<Seq<char>>,
    pub model: Option<Seq<char>>,
}

impl View for CustomTool {
    type V = CustomToolView;

    open spec fn view(&self) -> CustomToolView {
        CustomToolView {
            kind: self.kind@,
            name: self.name@,
            description: self.description@,
            input_schema: self.input_schema@,
        }
    }
}

impl DeepView for CustomTool {
    type V = CustomToolView;

    open spec fn deep_view(&self) -> CustomToolView {
        self@
    }
}

impl View for CreateSession {
    type V = CreateSessionView;

    open spec fn view(&self) -> CreateSessionView {
        CreateSessionView {
            agent_slug: self.agent_slug@,
            task: self.task@,
            environment: self.environment.deep_view(),
            repositories: self.repositories.deep_view(),
            tools: self.tools.deep_view(),
            system_suffix: self.system_suffix.deep_view(),
            client: self.client.deep_view(),
            model: self.model.deep_view(),
        }
    }
}

/// What is wrong with the tool at that place, if anything is.
pub open spec fn tool_fault(tools: Seq<CustomToolView>, i: int) -> Option<Seq<char>> {
    let tool = tools[i];
    if tool.kind != "custom"@ {
        Some("tool `"@ + tool.name + "`: type must be `custom`"@)
    } else if !named_with(tool.name, Charset::Tool, 64) {
        Some("tool name `"@ + tool.name + "` must be 1-64 chars of [a-z0-9_]"@)
    } else if exists|j: int| 0 <= j < i && (#[trigger] tools[j]).name == tool.name {
        Some("duplicate tool `"@ + tool.name + "`"@)
    } else if trimmed(tool.description).len() == 0 {
        Some("tool `"@ + tool.name + "` needs a description"@)
    } else if !(tool.input_schema is Object) {
        Some("tool `"@ + tool.name + "`: input_schema must be an object"@)
    } else {
        None
    }
}

/// What is wrong with the first of the first `n` tools that has a fault.
pub open spec fn first_tool_fault(tools: Seq<CustomToolView>, n: nat) -> Option<Seq<char>>
    decreases n,
{
    if n == 0 {
        None
    } else {
        match first_tool_fault(tools, (n - 1) as nat) {
            Some(fault) => Some(fault),
            None => tool_fault(tools, n - 1),
        }
    }
}

/// What is wrong with the tools, if anything is.
pub open spec fn tools_fault(tools: Seq<CustomToolView>) -> Option<Seq<char>> {
    if tools.len() > TOOLS_MAX {
        Some("at most 32 custom tools"@)
    } else {
        first_tool_fault(tools, tools.len())
    }
}

/// Refuses tools that cannot be declared.
pub fn validate_custom_tools(tools: &Vec<CustomTool>) -> (r: Result<()>)
    ensures
        outcome(r) == (match tools_fault(tools.deep_view()) {
            Some(fault) => bad(fault),
            None => Ok(()),
        }),
{
    let n: usize = tools.len();
    if n > TOOLS_MAX {
        return Err(Error::InvalidRequest("at most 32 custom tools".to_owned()));
    }
    for i in 0..n
        invariant
            n == tools@.len(),
            n <= TOOLS_MAX,
            first_tool_fault(tools.deep_view(), i as nat) is None,
    {
        let fault = fault_of_tool(tools, i);
        if let Some(fault) = fault {
            proof {
                fault_stays_first(tools.deep_view(), i + 1, n as nat);
            }
            return Err(Error::InvalidRequest(fault));
        }
    }
    Ok(())
}

proof fn fault_stays_first(tools: Seq<CustomToolView>, found: int, n: nat)
    requires
        0 <= found <= n,
        first_tool_fault(tools, found as nat) is Some,
    ensures
        first_tool_fault(tools, n) == first_tool_fault(tools, found as nat),
    decreases n,
{
    if found < n {
        fault_stays_first(tools, found, (n - 1) as nat);
    }
}

/// What is wrong with the tool at that place, if anything is.
fn fault_of_tool(tools: &Vec<CustomTool>, i: usize) -> (r: Option<String>)
    requires
        i < tools@.len(),
    ensures
        r.deep_view() == tool_fault(tools.deep_view(), i as int),
{
    let tool = &tools[i];
    let name = tool.name.as_str();
    assert(tools.deep_view()[i as int] == tool@);
    if !same(tool.kind.as_str(), "custom") {
        return Some(cat3("tool `", name, "`: type must be `custom`"));
    }
    if !is_named_with(name, Charset::Tool, 64) {
        return Some(cat3("tool name `", name, "` must be 1-64 chars of [a-z0-9_]"));
    }
    let mut twice = false;
    for j in 0..i
        invariant
            i < tools@.len(),
            name@ == tools@[i as int].name@,
            twice == exists|k: int|
                0 <= k < j && (#[trigger] tools.deep_view()[k]).name == name@,
    {
        assert(tools.deep_view()[j as int] == tools@[j as int]@);
        if same(tools[j].name.as_str(), name) {
            twice = true;
        }
    }
    if twice {
        Some(cat3("duplicate tool `", name, "`"))
    } else if is_blank(tool.description.as_str()) {
        Some(cat3("tool `", name, "` needs a description"))
    } else if !tool.input_schema.is_object() {
        Some(cat3("tool `", name, "`: input_schema must be an object"))
    } else {
        None
    }
}

/// What is wrong with a request to start a session, if anything is.
pub open spec fn session_fault(req: CreateSessionView) -> Option<Seq<char>> {
    if trimmed(req.task).len() == 0 {
        Some("task must not be empty"@)
    } else if !id_shaped(req.agent_slug) {
        Some("agent_slug has unexpected characters"@)
    } else if tools_fault(req.tools) is Some {
        tools_fault(req.tools)
    } else if req.system_suffix matches Some(suffix) && suffix.len() > SUFFIX_MAX_CHARS {
        Some("system_suffix is longer than 4000 characters"@)
    } else if req.client matches Some(client) && !named_with(client, Charset::Label, 32) {
        Some("client must be 1-32 chars of [a-z0-9-]"@)
    } else if req.model matches Some(model) && !named_with(model, Charset::Model, 64) {
        Some("model must be 1-64 chars of [a-z0-9.-]"@)
    } else {
        None
    }
}

/// The tool as it is declared to the control plane.
pub open spec fn tool_document(tool: CustomToolView) -> JsonView {
    JsonView::Object(
        map![
            "type"@ => JsonView::Text(tool.kind),
            "name"@ => JsonView::Text(tool.name),
            "description"@ => JsonView::Text(tool.description),
            "input_schema"@ => tool.input_schema,
        ],
    )
}

/// A document's members, with one more where there is a value for it.
pub open spec fn with_member(
    members: Map<Seq<char>, JsonView>,
    name: Seq<char>,
    value: Option<JsonView>,
) -> Map<Seq<char>, JsonView> {
    match value {
        Some(value) => members.insert(name, value),
        None => members,
    }
}

/// The text as a document, where there is one.
pub open spec fn text_document(text: Option<Seq<char>>) -> Option<JsonView> {
    match text {
        Some(text) => Some(JsonView::Text(text)),
        None => None,
    }
}

/// The request as it is handed to the control plane: what the client left out is
/// left out there too.
pub open spec fn session_document(req: CreateSessionView) -> JsonView {
    let members = map![
        "agent_slug"@ => JsonView::Text(req.agent_slug),
        "task"@ => JsonView::Text(req.task),
    ];
    let members = with_member(members, "environment"@, text_document(req.environment));
    let members = with_member(
        members,
        "repositories"@,
        if req.repositories.len() > 0 {
            Some(crate::json::text_array_view(req.repositories))
        } else {
            None
        },
    );
    let members = with_member(
        members,
        "tools"@,
        if req.tools.len() > 0 {
            Some(JsonView::Array(req.tools.map_values(|t: CustomToolView| tool_document(t))))
        } else {
            None
        },
    );
    let members = with_member(members, "system_suffix"@, text_document(req.system_suffix));
    let members = with_member(members, "client"@, text_document(req.client));
    let members = with_member(members, "model"@, text_document(req.model));
    JsonView::Object(members)
}

impl CustomTool {
    /// The tool as it is declared to the control plane.
    pub fn to_json(&self) -> (r: Json)
        ensures
            r@ == tool_document(self@),
    {
        let mut o = Object::new();
        o.put_text("type", self.kind.as_str());
        o.put_text("name", self.name.as_str());
        o.put_text("description", self.description.as_str());
        o.put("input_schema", self.input_schema.copy());
        assert(o@ =~= tool_document(self@)->Object_0);
        Json::Object(o)
    }
}

/// Gives the object a text as that member, where there is one.
pub fn put_optional(o: &mut Object, key: &str, text: &Option<String>)
    ensures
        final(o)@ == with_member(old(o)@, key@, text_document(text.deep_view())),
{
    match text {
        Some(text) => {
            o.put_text(key, text.as_str());
        },
        None => {},
    }
}

impl CreateSession {
    /// The request as it is handed to the control plane.
    pub fn to_json(&self) -> (r: Json)
        ensures
            r@ == session_document(self@),
    {
        let mut o = Object::new();
        o.put_text("agent_slug", self.agent_slug.as_str());
        o.put_text("task", self.task.as_str());
        assert(o@ =~= map![
            "agent_slug"@ => JsonView::Text(self@.agent_slug),
            "task"@ => JsonView::Text(self@.task),
        ]);
        put_optional(&mut o, "environment", &self.environment);
        if self.repositories.len() > 0 {
            o.put("repositories", Json::text_array(&self.repositories));
        }
        if self.tools.len() > 0 {
            let mut tools: Vec<Json> = Vec::new();
            let n: usize = self.tools.len();
            for i in 0..n
                invariant
                    n == self.tools@.len(),
                    tools@.len() == i,
                    forall|k: int|
                        0 <= k < i ==> (#[trigger] tools@[k])@ == tool_document(self.tools@[k]@),
            {
                tools.push(self.tools[i].to_json());
            }
            let all = Json::array(tools);
            assert(tools.deep_view() =~= self@.tools.map_values(
                |t: CustomToolView| tool_document(t),
            ));
            o.put("tools", all);
        }
        put_optional(&mut o, "system_suffix", &self.system_suffix);
        put_optional(&mut o, "client", &self.client);
        put_optional(&mut o, "model", &self.model);
        Json::Object(o)
    }

    /// What is wrong with the request, if anything is.
    pub fn fault(&self) -> (r: Result<()>)
        ensures
            outcome(r) == (match session_fault(self@) {
                Some(fault) => bad(fault),
                None => Ok(()),
            }),
    {
        if is_blank(self.task.as_str()) {
            return Err(Error::InvalidRequest("task must not be empty".to_owned()));
        }
        if valid_id(self.agent_slug.as_str()).is_err() {
            return Err(Error::InvalidRequest("agent_slug has unexpected characters".to_owned()));
        }
        match validate_custom_tools(&self.tools) {
            Ok(()) => {},
            Err(e) => {
                return Err(e);
            },
        }
        if let Some(suffix) = &self.system_suffix {
            if suffix.as_str().unicode_len() > SUFFIX_MAX_CHARS {
                return Err(
                    Error::InvalidRequest(
                        "system_suffix is longer than 4000 characters".to_owned(),
                    ),
                );
            }
        }
        if let Some(client) = &self.client {
            if !is_named_with(client.as_str(), Charset::Label, 32) {
                return Err(
                    Error::InvalidRequest("client must be 1-32 chars of [a-z0-9-]".to_owned()),
                );
            }
        }
        if let Some(model) = &self.model {
            if !is_named_with(model.as_str(), Charset::Model, 64) {
                return Err(
                    Error::InvalidRequest("model must be 1-64 chars of [a-z0-9.-]".to_owned()),
                );
            }
        }
        Ok(())
    }
}

/// What the body of a request reads as: an error's text, where it does not read.
pub open spec fn body_or_400<T: View>(body: std::result::Result<T, String>) -> std::result::Result<
    T::V,
    ErrorView,
> {
    match body {
        Ok(body) => Ok(body@),
        Err(text) => bad(text@),
    }
}

/// What a request to start a session leads to: the scope comes first, then the
/// shape of the body, then what it says.
pub open spec fn created(
    scopes: Set<Scope>,
    body: std::result::Result<CreateSessionView, ErrorView>,
) -> std::result::Result<CallView, ErrorView> {
    match (allowed(scopes, Scope::SessionsWrite), body) {
        (Err(e), _) => Err(e),
        (_, Err(e)) => Err(e),
        (Ok(_), Ok(req)) => match session_fault(req) {
            Some(fault) => bad(fault),
            None => Ok(posting("/sessions"@, session_document(req))),
        },
    }
}

/// `POST /sessions`. The body as it was read, or why it could not be.
pub fn create(who: &Principal, body: std::result::Result<CreateSession, String>) -> (r: Result<
    Call,
>)
    ensures
        outcome(r) == created(who@.scopes, body_or_400(body)),
{
    match who.require(Scope::SessionsWrite) {
        Ok(()) => {},
        Err(e) => {
            return Err(e);
        },
    }
    let req = match body {
        Ok(req) => req,
        Err(text) => {
            return Err(Error::InvalidRequest(text));
        },
    };
    match req.fault() {
        Ok(()) => Ok(Call::post("/sessions".to_owned(), req.to_json())),
        Err(e) => Err(e),
    }
}

// ---- list and get -------------------------------------------------------------

pub struct ListQuery {
    /// Only this agent's sessions.
    pub agent_slug: Option<String>,
    /// Page size; upstream's default applies when absent.
    pub limit: Option<u32>,
    /// Cursor from a previous response's `next_page`.
    pub page: Option<String>,
    /// `asc` or `desc` (default) by creation.
    pub order: Option<String>,
}

/// The query that is handed on: what the client left out is left out.
pub open spec fn list_params(q: ListQuery) -> Seq<(Seq<char>, Seq<char>)> {
    let query = with_param(Seq::empty(), "agent_slug"@, q.agent_slug.deep_view());
    let query = with_param(query, "limit"@, written_limit(q.limit));
    let query = with_param(query, "page"@, q.page.deep_view());
    with_param(query, "order"@, q.order.deep_view())
}

/// A limit in decimal, where there is one.
pub open spec fn written_limit(limit: Option<u32>) -> Option<Seq<char>> {
    match limit {
        Some(n) => Some(decimal(n as nat)),
        None => None,
    }
}

fn add_text(query: &mut Vec<(String, String)>, name: &str, value: &Option<String>)
    ensures
        final(query).deep_view() == with_param(
            old(query).deep_view(),
            name@,
            value.deep_view(),
        ),
{
    match value {
        Some(value) => add_param(query, name, Some(value.as_str())),
        None => add_param(query, name, None),
    }
}

fn add_limit(query: &mut Vec<(String, String)>, limit: Option<u32>)
    ensures
        final(query).deep_view() == with_param(
            old(query).deep_view(),
            "limit"@,
            written_limit(limit),
        ),
{
    match limit {
        Some(n) => {
            let text = number(n as u128);
            add_param(query, "limit", Some(text.as_str()));
        },
        None => {},
    }
}

fn no_query() -> (r: Vec<(String, String)>)
    ensures
        r.deep_view() == Seq::<(Seq<char>, Seq<char>)>::empty(),
{
    let query: Vec<(String, String)> = Vec::new();
    assert(query.deep_view() =~= Seq::<(Seq<char>, Seq<char>)>::empty());
    query
}

/// What a route with that scope leads to, given what it does once allowed.
pub open spec fn if_allowed(
    scopes: Set<Scope>,
    scope: Scope,
    call: std::result::Result<CallView, ErrorView>,
) -> std::result::Result<CallView, ErrorView> {
    match allowed(scopes, scope) {
        Ok(_) => call,
        Err(e) => Err(e),
    }
}

/// What a route about one session leads to, given what it does with its id.
pub open spec fn if_id(
    id: Seq<char>,
    call: std::result::Result<CallView, ErrorView>,
) -> std::result::Result<CallView, ErrorView> {
    if id_shaped(id) {
        call
    } else {
        bad("session id has unexpected characters"@)
    }
}

/// `/sessions/{id}` and what follows it.
pub open spec fn session_path(id: Seq<char>, rest: Seq<char>) -> Seq<char> {
    "/sessions/"@ + id + rest
}

/// What `GET /sessions` leads to.
pub open spec fn list_route(scopes: Set<Scope>, q: ListQuery) -> std::result::Result<
    CallView,
    ErrorView,
> {
    if_allowed(scopes, Scope::SessionsRead, Ok(getting("/sessions"@, list_params(q))))
}

/// `GET /sessions`.
pub fn list(who: &Principal, q: &ListQuery) -> (r: Result<Call>)
    ensures
        outcome(r) == list_route(who@.scopes, *q),
{
    match who.require(Scope::SessionsRead) {
        Ok(()) => {},
        Err(e) => {
            return Err(e);
        },
    }
    let mut query = no_query();
    add_text(&mut query, "agent_slug", &q.agent_slug);
    add_limit(&mut query, q.limit);
    add_text(&mut query, "page", &q.page);
    add_text(&mut query, "order", &q.order);
    Ok(Call::get("/sessions".to_owned(), query))
}

/// The scope and the shape of the id, in that order.
fn gate(who: &Principal, scope: Scope, id: &str) -> (r: Result<()>)
    ensures
        match allowed(who@.scopes, scope) {
            Err(e) => outcome(r) == Err::<(), ErrorView>(e),
            Ok(_) => outcome(r) == (if id_shaped(id@) {
                Ok(())
            } else {
                bad("session id has unexpected characters"@)
            }),
        },
{
    match who.require(scope) {
        Ok(()) => valid_id(id),
        Err(e) => Err(e),
    }
}

/// What `GET /sessions/{id}` leads to.
pub open spec fn get_route(scopes: Set<Scope>, id: Seq<char>) -> std::result::Result<
    CallView,
    ErrorView,
> {
    if_allowed(
        scopes,
        Scope::SessionsRead,
        if_id(id, Ok(getting(session_path(id, Seq::empty()), Seq::empty()))),
    )
}

/// `GET /sessions/{id}`.
pub fn get(who: &Principal, id: &str) -> (r: Result<Call>)
    ensures
        outcome(r) == get_route(who@.scopes, id@),
{
    match gate(who, Scope::SessionsRead, id) {
        Ok(()) => {
            assert("/sessions/"@ + id@ =~= session_path(id@, Seq::empty()));
            Ok(Call::get(cat2("/sessions/", id), no_query()))
        },
        Err(e) => Err(e),
    }
}

// ---- events -------------------------------------------------------------------

pub struct EventsQuery {
    pub page: Option<String>,
    pub limit: Option<u32>,
    /// Comma-separated event types, e.g. `agent.message,session.error`.
    pub types: Option<String>,
    /// `asc` (default) or `desc`. `desc` with `limit=1` is "the latest".
    pub order: Option<String>,
}

/// The query that is handed on: what the client left out is left out.
pub open spec fn events_params(q: EventsQuery) -> Seq<(Seq<char>, Seq<char>)> {
    let query = with_param(Seq::empty(), "page"@, q.page.deep_view());
    let query = with_param(query, "limit"@, written_limit(q.limit));
    let query = with_param(query, "types"@, q.types.deep_view());
    with_param(query, "order"@, q.order.deep_view())
}

/// What `GET /sessions/{id}/events` leads to.
pub open spec fn events_route(
    scopes: Set<Scope>,
    id: Seq<char>,
    q: EventsQuery,
) -> std::result::Result<CallView, ErrorView> {
    if_allowed(
        scopes,
        Scope::SessionsRead,
        if_id(id, Ok(getting(session_path(id, "/events"@), events_params(q)))),
    )
}

/// `GET /sessions/{id}/events`.
pub fn events(who: &Principal, id: &str, q: &EventsQuery) -> (r: Result<Call>)
    ensures
        outcome(r) == events_route(who@.scopes, id@, *q),
{
    match gate(who, Scope::SessionsRead, id) {
        Ok(()) => {},
        Err(e) => {
            return Err(e);
        },
    }
    let mut query = no_query();
    add_text(&mut query, "page", &q.page);
    add_limit(&mut query, q.limit);
    add_text(&mut query, "types", &q.types);
    add_text(&mut query, "order", &q.order);
    Ok(Call::get(cat3("/sessions/", id, "/events"), query))
}

pub struct SendMessage {
    /// A follow-up user message. Sending to an idle session resumes it.
    pub task: String,
}

#[verifier::ext_equal]
pub struct SendMessageView {
    pub task: Seq<char>,
}

impl View for SendMessage {
    type V = SendMessageView;

    open spec fn view(&self) -> SendMessageView {
        SendMessageView { task: self.task@ }
    }
}

/// `{"task": …}`.
pub open spec fn task_document(task: Seq<char>) -> JsonView {
    JsonView::Object(map!["task"@ => JsonView::Text(task)])
}

/// `{"task": …}`.
pub fn task_json(task: &str) -> (r: Json)
    ensures
        r@ == task_document(task@),
{
    let mut o = Object::new();
    o.put_text("task", task);
    assert(o@ =~= map!["task"@ => JsonView::Text(task@)]);
    Json::Object(o)
}

/// What `POST /sessions/{id}/events` leads to.
pub open spec fn send_route(
    scopes: Set<Scope>,
    id: Seq<char>,
    body: std::result::Result<SendMessageView, ErrorView>,
) -> std::result::Result<CallView, ErrorView> {
    if_allowed(
        scopes,
        Scope::SessionsWrite,
        if_id(
            id,
            match body {
                Err(e) => Err(e),
                Ok(req) => if trimmed(req.task).len() == 0 {
                    bad("task must not be empty"@)
                } else {
                    Ok(posting(session_path(id, "/events"@), task_document(req.task)))
                },
            },
        ),
    )
}

/// `POST /sessions/{id}/events`: a follow-up message.
pub fn send(who: &Principal, id: &str, body: std::result::Result<SendMessage, String>) -> (r:
    Result<Call>)
    ensures
        outcome(r) == send_route(who@.scopes, id@, body_or_400(body)),
{
    match gate(who, Scope::SessionsWrite, id) {
        Ok(()) => {},
        Err(e) => {
            return Err(e);
        },
    }
    let req = match body {
        Ok(req) => req,
        Err(text) => {
            return Err(Error::InvalidRequest(text));
        },
    };
    if is_blank(req.task.as_str()) {
        return Err(Error::InvalidRequest("task must not be empty".to_owned()));
    }
    Ok(Call::post(cat3("/sessions/", id, "/events"), task_json(req.task.as_str())))
}

// ---- tool results --------------------------------------------------------------

/// Answers to `agent.custom_tool_use` events.
pub struct ToolResults {
    pub results: Vec<ToolResult>,
}

pub struct ToolResult {
    /// The `id` of the `agent.custom_tool_use` event being answered.
    pub custom_tool_use_id: String,
    /// What the tool returned, as text.
    pub content: String,
    pub is_error: bool,
}

#[verifier::ext_equal]
pub struct ToolResultView {
    pub custom_tool_use_id: Seq<char>,
    pub content: Seq<char>,
    pub is_error: bool,
}

impl View for ToolResult {
    type V = ToolResultView;

    open spec fn view(&self) -> ToolResultView {
        ToolResultView {
            custom_tool_use_id: self.custom_tool_use_id@,
            content: self.content@,
            is_error: self.is_error,
        }
    }
}

impl DeepView for ToolResult {
    type V = ToolResultView;

    open spec fn deep_view(&self) -> ToolResultView {
        self@
    }
}

impl View for ToolResults {
    type V = Seq<ToolResultView>;

    open spec fn view(&self) -> Seq<ToolResultView> {
        self.results.deep_view()
    }
}

/// What is wrong with the results, if anything is.
pub open spec fn results_fault(results: Seq<ToolResultView>) -> Option<Seq<char>> {
    if results.len() == 0 {
        Some("results must not be empty"@)
    } else if exists|i: int|
        0 <= i < results.len() && !id_shaped((#[trigger] results[i]).custom_tool_use_id) {
        Some("custom_tool_use_id has unexpected characters"@)
    } else {
        None
    }
}

/// Refuses results that cannot be handed on.
pub fn validate_tool_results(req: &ToolResults) -> (r: Result<()>)
    ensures
        outcome(r) == (match results_fault(req@) {
            Some(fault) => bad(fault),
            None => Ok(()),
        }),
{
    let n: usize = req.results.len();
    if n == 0 {
        return Err(Error::InvalidRequest("results must not be empty".to_owned()));
    }
    for i in 0..n
        invariant
            n == req.results@.len(),
            n > 0,
            forall|k: int| 0 <= k < i ==> id_shaped((#[trigger] req@[k]).custom_tool_use_id),
    {
        assert(req@[i as int] == req.results@[i as int]@);
        if valid_id(req.results[i].custom_tool_use_id.as_str()).is_err() {
            return Err(
                Error::InvalidRequest("custom_tool_use_id has unexpected characters".to_owned()),
            );
        }
    }
    Ok(())
}

/// One result as it is handed on; `is_error` only where it is set.
pub open spec fn result_document(result: ToolResultView) -> JsonView {
    let members = map![
        "custom_tool_use_id"@ => JsonView::Text(result.custom_tool_use_id),
        "content"@ => JsonView::Text(result.content),
    ];
    JsonView::Object(
        with_member(
            members,
            "is_error"@,
            if result.is_error {
                Some(JsonView::Bool(true))
            } else {
                None
            },
        ),
    )
}

/// `{"results": […]}`.
pub open spec fn results_document(results: Seq<ToolResultView>) -> JsonView {
    JsonView::Object(
        map![
            "results"@ => JsonView::Array(results.map_values(|r: ToolResultView| result_document(r))),
        ],
    )
}

impl ToolResult {
    /// The result as it is handed on.
    pub fn to_json(&self) -> (r: Json)
        ensures
            r@ == result_document(self@),
    {
        let mut o = Object::new();
        o.put_text("custom_tool_use_id", self.custom_tool_use_id.as_str());
        o.put_text("content", self.content.as_str());
        assert(o@ =~= map![
            "custom_tool_use_id"@ => JsonView::Text(self@.custom_tool_use_id),
            "content"@ => JsonView::Text(self@.content),
        ]);
        if self.is_error {
            o.put("is_error", Json::Bool(true));
        }
        Json::Object(o)
    }
}

impl ToolResults {
    /// The results as they are handed on.
    pub fn to_json(&self) -> (r: Json)
        ensures
            r@ == results_document(self@),
    {
        let mut items: Vec<Json> = Vec::new();
        let n: usize = self.results.len();
        for i in 0..n
            invariant
                n == self.results@.len(),
                items@.len() == i,
                forall|k: int|
                    0 <= k < i ==> (#[trigger] items@[k])@ == result_document(self.results@[k]@),
        {
            items.push(self.results[i].to_json());
        }
        let all = Json::array(items);
        assert(items.deep_view() =~= self@.map_values(|r: ToolResultView| result_document(r)));
        let mut o = Object::new();
        o.put("results", all);
        assert(o@ =~= results_document(self@)->Object_0);
        Json::Object(o)
    }
}

/// What `POST /sessions/{id}/tool-results` leads to.
pub open spec fn results_route(
    scopes: Set<Scope>,
    id: Seq<char>,
    body: std::result::Result<Seq<ToolResultView>, ErrorView>,
) -> std::result::Result<CallView, ErrorView> {
    if_allowed(
        scopes,
        Scope::SessionsWrite,
        if_id(
            id,
            match body {
                Err(e) => Err(e),
                Ok(results) => match results_fault(results) {
                    Some(fault) => bad(fault),
                    None => Ok(
                        posting(session_path(id, "/tool-results"@), results_document(results)),
                    ),
                },
            },
        ),
    )
}

/// `POST /sessions/{id}/tool-results`: answers to the agent's tool calls.
pub fn tool_results(
    who: &Principal,
    id: &str,
    body: std::result::Result<ToolResults, String>,
) -> (r: Result<Call>)
    ensures
        outcome(r) == results_route(who@.scopes, id@, body_or_400(body)),
{
    match gate(who, Scope::SessionsWrite, id) {
        Ok(()) => {},
        Err(e) => {
            return Err(e);
        },
    }
    let req = match body {
        Ok(req) => req,
        Err(text) => {
            return Err(Error::InvalidRequest(text));
        },
    };
    match validate_tool_results(&req) {
        Ok(()) => Ok(Call::post(cat3("/sessions/", id, "/tool-results"), req.to_json())),
        Err(e) => Err(e),
    }
}

/// What `POST /sessions/{id}/interrupt` leads to.
pub open spec fn interrupt_route(scopes: Set<Scope>, id: Seq<char>) -> std::result::Result<
    CallView,
    ErrorView,
> {
    if_allowed(
        scopes,
        Scope::SessionsWrite,
        if_id(id, Ok(posting(session_path(id, "/interrupt"@), JsonView::Null))),
    )
}

/// `POST /sessions/{id}/interrupt`.
pub fn interrupt(who: &Principal, id: &str) -> (r: Result<Call>)
    ensures
        outcome(r) == interrupt_route(who@.scopes, id@),
{
    match gate(who, Scope::SessionsWrite, id) {
        Ok(()) => Ok(Call::post(cat3("/sessions/", id, "/interrupt"), Json::Null)),
        Err(e) => Err(e),
    }
}

// ---- stream --------------------------------------------------------------------

pub struct StreamQuery {
    /// Comma-separated subset of `agent.message,agent.thinking` to also receive
    /// as incremental deltas.
    pub event_deltas: Option<String>,
}

/// What `GET /sessions/{id}/stream` leads to.
pub open spec fn stream_route(
    scopes: Set<Scope>,
    id: Seq<char>,
    event_deltas: Option<Seq<char>>,
) -> std::result::Result<CallView, ErrorView> {
    if_allowed(
        scopes,
        Scope::SessionsRead,
        if_id(
            id,
            Ok(
                getting(
                    session_path(id, "/stream"@),
                    with_param(Seq::empty(), "event_deltas"@, event_deltas),
                ),
            ),
        ),
    )
}

/// `GET /sessions/{id}/stream`; what it answers is passed through byte for byte.
pub fn stream(who: &Principal, id: &str, q: &StreamQuery) -> (r: Result<Call>)
    ensures
        outcome(r) == stream_route(who@.scopes, id@, q.event_deltas.deep_view()),
{
    match gate(who, Scope::SessionsRead, id) {
        Ok(()) => {},
        Err(e) => {
            return Err(e);
        },
    }
    let mut query = no_query();
    add_text(&mut query, "event_deltas", &q.event_deltas);
    Ok(Call::get(cat3("/sessions/", id, "/stream"), query))
}

// ---- laws ------------------------------------------------------------------------

/// Reading and writing are split: without `sessions:write` nothing is started and
/// no route that writes asks anything of the control plane, whatever else the key
/// holds; without `sessions:read` no route that reads does.
pub proof fn session_scopes_split_reads_from_writes(
    scopes: Set<Scope>,
    body: std::result::Result<CreateSessionView, ErrorView>,
    call: std::result::Result<CallView, ErrorView>,
)
    ensures
        !scopes.contains(Scope::SessionsWrite) ==> {
            &&& created(scopes, body) == Err::<CallView, ErrorView>(
                ErrorView::Forbidden("sessions:write"@),
            )
            &&& if_allowed(scopes, Scope::SessionsWrite, call) == Err::<CallView, ErrorView>(
                ErrorView::Forbidden("sessions:write"@),
            )
        },
        !scopes.contains(Scope::SessionsRead) ==> if_allowed(scopes, Scope::SessionsRead, call)
            == Err::<CallView, ErrorView>(ErrorView::Forbidden("sessions:read"@)),
{
}

/// Whatever session id a client sends, the path that goes upstream has no
/// further segment and no query: the id holds neither `/` nor `?`.
pub proof fn nothing_is_spliced_into_a_path(id: Seq<char>, i: int)
    requires
        id_shaped(id),
        0 <= i < id.len(),
    ensures
        id[i] != '/' && id[i] != '?' && id[i] != '#' && id[i] != '%' && id[i] != '.',
{
    assert(crate::text::in_charset(id[i], Charset::Id));
}

/// A session that is started declares at most 32 tools, no two of one name.
pub proof fn declared_tools_are_distinct(req: CreateSessionView, i: int, j: int)
    requires
        session_fault(req) is None,
        0 <= j < i < req.tools.len(),
    ensures
        req.tools.len() <= 32,
        req.tools[i].name != req.tools[j].name,
{
    no_fault_before(req.tools, i, req.tools.len());
    assert(tool_fault(req.tools, i) is None);
}

proof fn no_fault_before(tools: Seq<CustomToolView>, i: int, n: nat)
    requires
        first_tool_fault(tools, n) is None,
        0 <= i < n,
    ensures
        tool_fault(tools, i) is None,
    decreases n,
{
    if i < n - 1 {
        no_fault_before(tools, i, (n - 1) as nat);
    }
}

/// What a document says of a tool: its members, each read by its name.
pub open spec fn tool_read(v: JsonView) -> CustomToolView {
    CustomToolView {
        kind: text_or_empty(v, "type"@),
        name: text_or_empty(v, "name"@),
        description: text_or_empty(v, "description"@),
        input_schema: match field(v, "input_schema"@) {
            Some(schema) => schema,
            None => JsonView::Null,
        },
    }
}

/// A tool reaches the control plane as the client declared it: each member is the
/// client's own, there is no other, and who reads the document finds the same tool.
pub proof fn a_tool_reads_back(tool: CustomToolView)
    ensures
        has_just(tool_document(tool), set!["type"@, "name"@, "description"@, "input_schema"@]),
        text_field(tool_document(tool), "type"@) == Some(tool.kind),
        text_field(tool_document(tool), "name"@) == Some(tool.name),
        text_field(tool_document(tool), "description"@) == Some(tool.description),
        field(tool_document(tool), "input_schema"@) == Some(tool.input_schema),
        tool_read(tool_document(tool)) == tool,
{
    reveal_strlit("type");
    reveal_strlit("name");
    reveal_strlit("description");
    reveal_strlit("input_schema");
    assert("type"@.len() == 4 && "name"@.len() == 4 && "description"@.len() == 11
        && "input_schema"@.len() == 12);
    assert("type"@[0] != "name"@[0]);
    assert(tool_document(tool)->Object_0.dom() =~= set![
        "type"@,
        "name"@,
        "description"@,
        "input_schema"@,
    ]);
}

/// What a document says of a request to start a session: each part read by its
/// name, a list that is not there as an empty one.
pub open spec fn request_read(v: JsonView) -> CreateSessionView {
    CreateSessionView {
        agent_slug: text_or_empty(v, "agent_slug"@),
        task: text_or_empty(v, "task"@),
        environment: text_field(v, "environment"@),
        repositories: items_field(v, "repositories"@).map_values(|j: JsonView| text_of(j)),
        tools: items_field(v, "tools"@).map_values(|j: JsonView| tool_read(j)),
        system_suffix: text_field(v, "system_suffix"@),
        client: text_field(v, "client"@),
        model: text_field(v, "model"@),
    }
}

/// The text of a document that is one.
pub open spec fn text_of(v: JsonView) -> Seq<char> {
    match v {
        JsonView::Text(text) => text,
        _ => Seq::empty(),
    }
}

/// A request reaches the control plane as the client sent it: who reads the
/// document finds the same request, and a part that the client left out is not
/// there.
pub proof fn a_request_reads_back(req: CreateSessionView)
    ensures
        request_read(session_document(req)) == req,
        field(session_document(req), "environment"@) is Some <==> req.environment is Some,
        field(session_document(req), "repositories"@) is Some <==> req.repositories.len() > 0,
        field(session_document(req), "tools"@) is Some <==> req.tools.len() > 0,
        field(session_document(req), "system_suffix"@) is Some <==> req.system_suffix is Some,
        field(session_document(req), "client"@) is Some <==> req.client is Some,
        field(session_document(req), "model"@) is Some <==> req.model is Some,
        forall|name: Seq<char>| #[trigger]
            field(session_document(req), name) is Some ==> set![
                "agent_slug"@,
                "task"@,
                "environment"@,
                "repositories"@,
                "tools"@,
                "system_suffix"@,
                "client"@,
                "model"@,
            ].contains(name),
{
    reveal_strlit("agent_slug");
    reveal_strlit("task");
    reveal_strlit("environment");
    reveal_strlit("repositories");
    reveal_strlit("tools");
    reveal_strlit("system_suffix");
    reveal_strlit("client");
    reveal_strlit("model");
    assert("agent_slug"@.len() == 10 && "task"@.len() == 4 && "environment"@.len() == 11
        && "repositories"@.len() == 12 && "tools"@.len() == 5 && "system_suffix"@.len() == 13
        && "client"@.len() == 6 && "model"@.len() == 5);
    assert("tools"@[0] != "model"@[0]);
    let doc = session_document(req);
    let read = request_read(doc);
    assert(read.repositories =~= req.repositories) by {
        if req.repositories.len() > 0 {
            assert(field(doc, "repositories"@) == Some(
                crate::json::text_array_view(req.repositories),
            ));
        }
    }
    assert(read.tools =~= req.tools) by {
        if req.tools.len() > 0 {
            assert(items_field(doc, "tools"@) == req.tools.map_values(
                |t: CustomToolView| tool_document(t),
            ));
            assert forall|i: int| 0 <= i < req.tools.len() implies #[trigger] read.tools[i]
                == req.tools[i] by {
                a_tool_reads_back(req.tools[i]);
            }
        }
    }
}

/// How many pairs of a query have that name.
pub open spec fn times_given(query: Seq<(Seq<char>, Seq<char>)>, name: Seq<char>) -> nat {
    query.filter(|pair: (Seq<char>, Seq<char>)| pair.0 == name).len()
}

/// The query names a parameter just where the client gave it: then once, and with
/// the client's value.
pub open spec fn hands_on(
    query: Seq<(Seq<char>, Seq<char>)>,
    name: Seq<char>,
    given: Option<Seq<char>>,
) -> bool {
    match given {
        Some(value) => times_given(query, name) == 1 && query.contains((name, value)),
        None => times_given(query, name) == 0,
    }
}

/// One more parameter of another name changes nothing for this one; one of this
/// name hands it on.
pub proof fn one_more_param(
    query: Seq<(Seq<char>, Seq<char>)>,
    added: Seq<char>,
    value: Option<Seq<char>>,
    name: Seq<char>,
    given: Option<Seq<char>>,
)
    ensures
        added != name && hands_on(query, name, given) ==> hands_on(
            with_param(query, added, value),
            name,
            given,
        ),
        hands_on(query, added, None) ==> hands_on(with_param(query, added, value), added, value),
{
    if let Some(v) = value {
        let more = query.push((added, v));
        assert(more.drop_last() =~= query);
        reveal_with_fuel(Seq::filter, 2);
        assert(more.last() == (added, v));
        assert(more.contains((added, v)));
        if let Some(g) = given {
            if query.contains((name, g)) {
                let k = query.index_of((name, g));
                assert(more[k] == (name, g));
            }
        }
    }
}

pub(crate) proof fn nothing_is_given_yet(name: Seq<char>)
    ensures
        hands_on(Seq::empty(), name, None),
{
    reveal_with_fuel(Seq::filter, 1);
}

/// A list is asked for as the client asked: each of its parameters is handed on
/// where the client gave it, once and unchanged, and none where the client did not.
/// A client that follows `next_page` gets the next page.
pub proof fn a_list_is_asked_for_as_the_client_asked(q: ListQuery)
    ensures
        hands_on(list_params(q), "agent_slug"@, q.agent_slug.deep_view()),
        hands_on(list_params(q), "limit"@, written_limit(q.limit)),
        hands_on(list_params(q), "page"@, q.page.deep_view()),
        hands_on(list_params(q), "order"@, q.order.deep_view()),
        q.limit matches Some(n) ==> written_limit(q.limit) == Some(decimal(n as nat)),
        q.limit is None ==> written_limit(q.limit) is None,
        forall|i: int|
            0 <= i < list_params(q).len() ==> set![
                "agent_slug"@,
                "limit"@,
                "page"@,
                "order"@,
            ].contains((#[trigger] list_params(q)[i]).0),
{
    reveal_strlit("agent_slug");
    reveal_strlit("limit");
    reveal_strlit("page");
    reveal_strlit("order");
    assert("agent_slug"@.len() == 10 && "limit"@.len() == 5 && "page"@.len() == 4
        && "order"@.len() == 5);
    assert("limit"@[0] != "order"@[0]);
    let none: Seq<(Seq<char>, Seq<char>)> = Seq::empty();
    let (slug, limit) = (q.agent_slug.deep_view(), written_limit(q.limit));
    let (page, order) = (q.page.deep_view(), q.order.deep_view());
    let a = with_param(none, "agent_slug"@, slug);
    let b = with_param(a, "limit"@, limit);
    let c = with_param(b, "page"@, page);
    nothing_is_given_yet("agent_slug"@);
    nothing_is_given_yet("limit"@);
    nothing_is_given_yet("page"@);
    nothing_is_given_yet("order"@);
    one_more_param(none, "agent_slug"@, slug, "limit"@, None);
    one_more_param(none, "agent_slug"@, slug, "page"@, None);
    one_more_param(none, "agent_slug"@, slug, "order"@, None);
    one_more_param(a, "limit"@, limit, "agent_slug"@, slug);
    one_more_param(a, "limit"@, limit, "page"@, None);
    one_more_param(a, "limit"@, limit, "order"@, None);
    one_more_param(b, "page"@, page, "agent_slug"@, slug);
    one_more_param(b, "page"@, page, "limit"@, limit);
    one_more_param(b, "page"@, page, "order"@, None);
    one_more_param(c, "order"@, order, "agent_slug"@, slug);
    one_more_param(c, "order"@, order, "limit"@, limit);
    one_more_param(c, "order"@, order, "page"@, page);
}

/// Events are asked for as the client asked, in the same way.
pub proof fn events_are_asked_for_as_the_client_asked(q: EventsQuery)
    ensures
        hands_on(events_params(q), "page"@, q.page.deep_view()),
        hands_on(events_params(q), "limit"@, written_limit(q.limit)),
        hands_on(events_params(q), "types"@, q.types.deep_view()),
        hands_on(events_params(q), "order"@, q.order.deep_view()),
        forall|i: int|
            0 <= i < events_params(q).len() ==> set![
                "page"@,
                "limit"@,
                "types"@,
                "order"@,
            ].contains((#[trigger] events_params(q)[i]).0),
{
    reveal_strlit("page");
    reveal_strlit("limit");
    reveal_strlit("types");
    reveal_strlit("order");
    assert("page"@.len() == 4 && "limit"@.len() == 5 && "types"@.len() == 5 && "order"@.len() == 5);
    assert("limit"@[0] != "types"@[0]);
    assert("limit"@[0] != "order"@[0]);
    assert("types"@[0] != "order"@[0]);
    let none: Seq<(Seq<char>, Seq<char>)> = Seq::empty();
    let (page, limit) = (q.page.deep_view(), written_limit(q.limit));
    let (types, order) = (q.types.deep_view(), q.order.deep_view());
    let a = with_param(none, "page"@, page);
    let b = with_param(a, "limit"@, limit);
    let c = with_param(b, "types"@, types);
    nothing_is_given_yet("page"@);
    nothing_is_given_yet("limit"@);
    nothing_is_given_yet("types"@);
    nothing_is_given_yet("order"@);
    one_more_param(none, "page"@, page, "limit"@, None);
    one_more_param(none, "page"@, page, "types"@, None);
    one_more_param(none, "page"@, page, "order"@, None);
    one_more_param(a, "limit"@, limit, "page"@, page);
    one_more_param(a, "limit"@, limit, "types"@, None);
    one_more_param(a, "limit"@, limit, "order"@, None);
    one_more_param(b, "types"@, types, "page"@, page);
    one_more_param(b, "types"@, types, "limit"@, limit);
    one_more_param(b, "types"@, types, "order"@, None);
    one_more_param(c, "order"@, order, "page"@, page);
    one_more_param(c, "order"@, order, "limit"@, limit);
    one_more_param(c, "order"@, order, "types"@, types);
}

/// A letter, a digit, `_` or `-`.
pub open spec fn plain_char(c: char) -> bool {
    'a' <= c <= 'z' || 'A' <= c <= 'Z' || '0' <= c <= '9' || c == '_' || c == '-'
}

/// A text of 1 to that many characters, each of which is allowed.
pub open spec fn spelled(s: Seq<char>, max: int, ok: spec_fn(char) -> bool) -> bool {
    1 <= s.len() <= max && forall|i: int| 0 <= i < s.len() ==> ok(#[trigger] s[i])
}

/// A tool that can be declared after those before it: of type `custom`, under a
/// name of its own of 1 to 64 small letters, digits and `_`, described, and with an
/// object for its schema.
pub open spec fn good_tool(tools: Seq<CustomToolView>, i: int) -> bool {
    &&& tools[i].kind == "custom"@
    &&& spelled(
        tools[i].name,
        64,
        |c: char| 'a' <= c <= 'z' || '0' <= c <= '9' || c == '_',
    )
    &&& forall|j: int| 0 <= j < i ==> (#[trigger] tools[j]).name != tools[i].name
    &&& trimmed(tools[i].description).len() > 0
    &&& tools[i].input_schema is Object
}

/// A request is good where its task says something, its agent and its label are
/// spelled right, it declares at most 32 good tools and its suffix is at most 4000
/// characters long.
pub open spec fn good_request(req: CreateSessionView) -> bool {
    &&& trimmed(req.task).len() > 0
    &&& spelled(req.agent_slug, 128, |c: char| plain_char(c))
    &&& req.tools.len() <= 32
    &&& forall|i: int| 0 <= i < req.tools.len() ==> #[trigger] good_tool(req.tools, i)
    &&& req.system_suffix matches Some(suffix) ==> suffix.len() <= 4000
    &&& req.client matches Some(client) ==> spelled(
        client,
        32,
        |c: char| 'a' <= c <= 'z' || '0' <= c <= '9' || c == '-',
    )
    &&& req.model matches Some(model) ==> spelled(
        model,
        64,
        |c: char| 'a' <= c <= 'z' || '0' <= c <= '9' || c == '.' || c == '-',
    )
}

/// A session is started for each good request of a key with `sessions:write`, and
/// for no other: then the request goes to `/sessions`. A bad one is refused as such.
pub proof fn a_session_is_started_for_good_requests_alone(
    scopes: Set<Scope>,
    req: CreateSessionView,
)
    ensures
        scopes.contains(Scope::SessionsWrite) && good_request(req) ==> (created(
            scopes,
            Ok(req),
        ) matches Ok(call) && call.method == Method::Post && call.path == "/sessions"@
            && call.query.len() == 0 && call.body == Some(session_document(req))),
        scopes.contains(Scope::SessionsWrite) && !good_request(req) ==> (created(
            scopes,
            Ok(req),
        ) matches Err(e) && e is InvalidRequest),
        !scopes.contains(Scope::SessionsWrite) ==> created(scopes, Ok(req)) is Err,
{
    spelling(req.agent_slug);
    if let Some(client) = req.client {
        spelling(client);
    }
    if let Some(model) = req.model {
        spelling(model);
    }
    good_tools_have_no_fault(req.tools, req.tools.len());
}

proof fn good_tools_have_no_fault(tools: Seq<CustomToolView>, n: nat)
    requires
        n <= tools.len(),
    ensures
        first_tool_fault(tools, n) is None <==> forall|i: int| 0 <= i < n ==> #[trigger] good_tool(
            tools,
            i,
        ),
    decreases n,
{
    if n > 0 {
        good_tools_have_no_fault(tools, (n - 1) as nat);
        spelling(tools[n - 1].name);
        assert(tool_fault(tools, n - 1) is None <==> good_tool(tools, n - 1));
    }
}

/// What the names of the character sets stand for.
proof fn spelling(s: Seq<char>)
    ensures
        named_with(s, Charset::Id, 128) <==> spelled(s, 128, |c: char| plain_char(c)),
        named_with(s, Charset::Tool, 64) <==> spelled(
            s,
            64,
            |c: char| 'a' <= c <= 'z' || '0' <= c <= '9' || c == '_',
        ),
        named_with(s, Charset::Label, 32) <==> spelled(
            s,
            32,
            |c: char| 'a' <= c <= 'z' || '0' <= c <= '9' || c == '-',
        ),
        named_with(s, Charset::Model, 64) <==> spelled(
            s,
            64,
            |c: char| 'a' <= c <= 'z' || '0' <= c <= '9' || c == '.' || c == '-',
        ),
{
    assert forall|i: int| 0 <= i < s.len() implies #[trigger] in_charset(s[i], Charset::Id)
        == plain_char(s[i]) by {}
    assert forall|set: Charset| made_of(s, set) == forall|i: int|
        0 <= i < s.len() ==> #[trigger] in_charset(s[i], set) by {}
}

/// What a document says of a tool's result.
pub open spec fn result_read(v: JsonView) -> ToolResultView {
    ToolResultView {
        custom_tool_use_id: text_or_empty(v, "custom_tool_use_id"@),
        content: text_or_empty(v, "content"@),
        is_error: bool_field(v, "is_error"@) == Some(true),
    }
}

/// Results reach the control plane as the client sent them, one for one and in
/// order: who reads the document finds the same results. `is_error` stands only
/// where it is set.
pub proof fn results_read_back(results: Seq<ToolResultView>)
    ensures
        has_just(results_document(results), set!["results"@]),
        items_field(results_document(results), "results"@).map_values(
            |v: JsonView| result_read(v),
        ) == results,
        forall|i: int|
            0 <= i < results.len() ==> (field(
                #[trigger] items_field(results_document(results), "results"@)[i],
                "is_error"@,
            ) is Some <==> results[i].is_error),
{
    reveal_strlit("results");
    reveal_strlit("custom_tool_use_id");
    reveal_strlit("content");
    reveal_strlit("is_error");
    assert("results"@.len() == 7 && "custom_tool_use_id"@.len() == 18 && "content"@.len() == 7
        && "is_error"@.len() == 8);
    assert("results"@[0] != "content"@[0]);
    assert(results_document(results)->Object_0.dom() =~= set!["results"@]);
    let items = items_field(results_document(results), "results"@);
    assert(items == results.map_values(|r: ToolResultView| result_document(r)));
    assert forall|i: int| 0 <= i < results.len() implies #[trigger] result_read(items[i])
        == results[i] && (field(items[i], "is_error"@) is Some <==> results[i].is_error) by {
        a_result_reads_back(results[i]);
    }
    assert(items.map_values(|v: JsonView| result_read(v)) =~= results);
}

proof fn a_result_reads_back(result: ToolResultView)
    ensures
        result_read(result_document(result)) == result,
        field(result_document(result), "is_error"@) is Some <==> result.is_error,
        text_field(result_document(result), "custom_tool_use_id"@) == Some(
            result.custom_tool_use_id,
        ),
        text_field(result_document(result), "content"@) == Some(result.content),
{
    reveal_strlit("custom_tool_use_id");
    reveal_strlit("content");
    reveal_strlit("is_error");
    assert("custom_tool_use_id"@.len() == 18 && "content"@.len() == 7 && "is_error"@.len() == 8);
}

/// Results are handed on where there are some and each answers a call with a plain
/// id of 1 to 128 characters, and nowhere else.
pub proof fn results_are_good_where_their_ids_are(results: Seq<ToolResultView>)
    ensures
        results_fault(results) is None <==> results.len() > 0 && forall|i: int|
            0 <= i < results.len() ==> spelled(
                (#[trigger] results[i]).custom_tool_use_id,
                128,
                |c: char| plain_char(c),
            ),
{
    assert forall|i: int| 0 <= i < results.len() implies id_shaped(
        (#[trigger] results[i]).custom_tool_use_id,
    ) == spelled(results[i].custom_tool_use_id, 128, |c: char| plain_char(c)) by {
        spelling(results[i].custom_tool_use_id);
    }
}

/// A message reaches the control plane as it was sent.
pub proof fn a_task_reads_back(task: Seq<char>)
    ensures
        has_just(task_document(task), set!["task"@]),
        text_field(task_document(task), "task"@) == Some(task),
{
    assert(task_document(task)->Object_0.dom() =~= set!["task"@]);
}

/// What is about a session goes to that session: its path is `/sessions/`, the id,
/// and what follows, where the id is 1 to 128 plain characters; no other id gets
/// that far.
pub proof fn a_call_goes_to_its_session(
    id: Seq<char>,
    rest: Seq<char>,
    call: std::result::Result<CallView, ErrorView>,
)
    ensures
        session_path(id, rest) == "/sessions/"@ + id + rest,
        spelled(id, 128, |c: char| plain_char(c)) ==> if_id(id, call) == call,
        !spelled(id, 128, |c: char| plain_char(c)) ==> (if_id(id, call) matches Err(e)
            && e is InvalidRequest),
{
    spelling(id);
}

/// The routes that read need `sessions:read` and a well-spelled id, and nothing else:
/// each then asks for its own part of the session, as the client asked.
pub proof fn reading_asks_for_the_session(
    scopes: Set<Scope>,
    id: Seq<char>,
    list: ListQuery,
    events: EventsQuery,
    deltas: Option<Seq<char>>,
)
    ensures
        ({
            let may = scopes.contains(Scope::SessionsRead);
            let named = spelled(id, 128, |c: char| plain_char(c));
            &&& list_route(scopes, list) is Ok <==> may
            &&& list_route(scopes, list) matches Ok(call) ==> call.method == Method::Get && call.path
                == "/sessions"@ && call.query == list_params(list) && call.body is None
            &&& get_route(scopes, id) is Ok <==> may && named
            &&& get_route(scopes, id) matches Ok(call) ==> call.method == Method::Get && call.path
                == "/sessions/"@ + id && call.query.len() == 0 && call.body is None
            &&& events_route(scopes, id, events) is Ok <==> may && named
            &&& events_route(scopes, id, events) matches Ok(call) ==> call.method == Method::Get
                && call.path == "/sessions/"@ + id + "/events"@ && call.query == events_params(
                events,
            ) && call.body is None
            &&& stream_route(scopes, id, deltas) is Ok <==> may && named
            &&& stream_route(scopes, id, deltas) matches Ok(call) ==> call.method == Method::Get
                && call.path == "/sessions/"@ + id + "/stream"@ && call.body is None && hands_on(
                call.query,
                "event_deltas"@,
                deltas,
            )
        }),
{
    spelling(id);
    nothing_is_given_yet("event_deltas"@);
    one_more_param(Seq::empty(), "event_deltas"@, deltas, "event_deltas"@, None);
    assert("/sessions/"@ + id + Seq::<char>::empty() =~= "/sessions/"@ + id);
}

/// The routes that write need `sessions:write`, a well-spelled id and a good body: a
/// message says something, results are there and name their calls. Each then posts to
/// its own part of the session what the client sent.
pub proof fn writing_posts_to_the_session(
    scopes: Set<Scope>,
    id: Seq<char>,
    message: SendMessageView,
    results: Seq<ToolResultView>,
)
    ensures
        ({
            let may = scopes.contains(Scope::SessionsWrite);
            let named = spelled(id, 128, |c: char| plain_char(c));
            let sent = send_route(scopes, id, Ok(message));
            let answered = results_route(scopes, id, Ok(results));
            let stopped = interrupt_route(scopes, id);
            &&& sent is Ok <==> may && named && trimmed(message.task).len() > 0
            &&& sent matches Ok(call) ==> call.method == Method::Post && call.path == "/sessions/"@
                + id + "/events"@ && call.query.len() == 0 && (call.body matches Some(body)
                && has_just(body, set!["task"@]) && text_field(body, "task"@) == Some(message.task))
            &&& answered is Ok <==> may && named && results.len() > 0 && forall|i: int|
                0 <= i < results.len() ==> spelled(
                    (#[trigger] results[i]).custom_tool_use_id,
                    128,
                    |c: char| plain_char(c),
                )
            &&& answered matches Ok(call) ==> call.method == Method::Post && call.path
                == "/sessions/"@ + id + "/tool-results"@ && call.query.len() == 0 && call.body
                == Some(results_document(results))
            &&& stopped is Ok <==> may && named
            &&& stopped matches Ok(call) ==> call.method == Method::Post && call.path
                == "/sessions/"@ + id + "/interrupt"@ && call.query.len() == 0 && call.body == Some(
                JsonView::Null,
            )
        }),
{
    spelling(id);
    a_task_reads_back(message.task);
    results_are_good_where_their_ids_are(results);
}

/// A refusal says why: the scope that is missing comes first, then the id, then what
/// is wrong with the body.
pub proof fn a_refused_route_says_why(
    scopes: Set<Scope>,
    id: Seq<char>,
    e: ErrorView,
    message: SendMessageView,
)
    ensures
        ({
            let may = scopes.contains(Scope::SessionsWrite);
            let named = spelled(id, 128, |c: char| plain_char(c));
            let sent = send_route(scopes, id, Ok(message));
            let unread = send_route(scopes, id, Err(e));
            let unanswered = results_route(scopes, id, Err(e));
            let empty = results_route(scopes, id, Ok(Seq::empty()));
            &&& !may ==> sent == Err::<CallView, ErrorView>(
                ErrorView::Forbidden("sessions:write"@),
            ) && unread == sent && unanswered == sent && interrupt_route(scopes, id) == sent
            &&& may && !named ==> sent == Err::<CallView, ErrorView>(
                ErrorView::InvalidRequest("session id has unexpected characters"@),
            ) && unread == sent && unanswered == sent && interrupt_route(scopes, id) == sent
            &&& may && named ==> unread == Err::<CallView, ErrorView>(e) && unanswered == unread
            &&& may && named && trimmed(message.task).len() == 0 ==> sent == Err::<
                CallView,
                ErrorView,
            >(ErrorView::InvalidRequest("task must not be empty"@))
            &&& may && named ==> empty == Err::<CallView, ErrorView>(
                ErrorView::InvalidRequest("results must not be empty"@),
            )
        }),
        !scopes.contains(Scope::SessionsRead) ==> get_route(scopes, id) == Err::<
            CallView,
            ErrorView,
        >(ErrorView::Forbidden("sessions:read"@)),
        scopes.contains(Scope::SessionsRead) && !spelled(id, 128, |c: char| plain_char(c))
            ==> get_route(scopes, id) == Err::<CallView, ErrorView>(
            ErrorView::InvalidRequest("session id has unexpected characters"@),
        ),
{
    spelling(id);
}

/// What is wrong with a tool is told by its name: its type, the name itself, that it
/// was declared before, that it is not described, or that its schema is no object.
pub proof fn a_bad_tool_is_told_by_its_name(tools: Seq<CustomToolView>, i: int)
    requires
        0 <= i < tools.len(),
    ensures
        ({
            let tool = tools[i];
            let typed = tool.kind == "custom"@;
            let named = spelled(
                tool.name,
                64,
                |c: char| 'a' <= c <= 'z' || '0' <= c <= '9' || c == '_',
            );
            let new = forall|j: int| 0 <= j < i ==> (#[trigger] tools[j]).name != tool.name;
            let described = trimmed(tool.description).len() > 0;
            let fault = tool_fault(tools, i);
            &&& !typed ==> fault == Some("tool `"@ + tool.name + "`: type must be `custom`"@)
            &&& typed && !named ==> fault == Some(
                "tool name `"@ + tool.name + "` must be 1-64 chars of [a-z0-9_]"@,
            )
            &&& typed && named && !new ==> fault == Some("duplicate tool `"@ + tool.name + "`"@)
            &&& typed && named && new && !described ==> fault == Some(
                "tool `"@ + tool.name + "` needs a description"@,
            )
            &&& typed && named && new && described && !(tool.input_schema is Object) ==> fault
                == Some("tool `"@ + tool.name + "`: input_schema must be an object"@)
        }),
{
    spelling(tools[i].name);
}

/// What is wrong with a request is told: the task first, then the agent, the tools,
/// the suffix, the label and the model.
pub proof fn a_bad_request_is_told_what_is_wrong(req: CreateSessionView)
    ensures
        ({
            let says = trimmed(req.task).len() > 0;
            let agent = spelled(req.agent_slug, 128, |c: char| plain_char(c));
            let tools = tools_fault(req.tools) is None;
            let suffix = req.system_suffix matches Some(s) ==> s.len() <= 4000;
            let client = req.client matches Some(s) ==> spelled(
                s,
                32,
                |c: char| 'a' <= c <= 'z' || '0' <= c <= '9' || c == '-',
            );
            let model = req.model matches Some(s) ==> spelled(
                s,
                64,
                |c: char| 'a' <= c <= 'z' || '0' <= c <= '9' || c == '.' || c == '-',
            );
            let fault = session_fault(req);
            &&& !says ==> fault == Some("task must not be empty"@)
            &&& says && !agent ==> fault == Some("agent_slug has unexpected characters"@)
            &&& says && agent && !tools ==> fault == tools_fault(req.tools)
            &&& says && agent && tools && !suffix ==> fault == Some(
                "system_suffix is longer than 4000 characters"@,
            )
            &&& says && agent && tools && suffix && !client ==> fault == Some(
                "client must be 1-32 chars of [a-z0-9-]"@,
            )
            &&& says && agent && tools && suffix && client && !model ==> fault == Some(
                "model must be 1-64 chars of [a-z0-9.-]"@,
            )
        }),
        req.tools.len() > 32 ==> tools_fault(req.tools) == Some("at most 32 custom tools"@),
        req.tools.len() <= 32 && tools_fault(req.tools) is Some ==> exists|i: int|
            0 <= i < req.tools.len() && tools_fault(req.tools) == #[trigger] tool_fault(
                req.tools,
                i,
            ) && forall|j: int| 0 <= j < i ==> #[trigger] tool_fault(req.tools, j) is None,
{
    spelling(req.agent_slug);
    if let Some(client) = req.client {
        spelling(client);
    }
    if let Some(model) = req.model {
        spelling(model);
    }
    if req.tools.len() <= 32 && tools_fault(req.tools) is Some {
        a_fault_has_its_tool(req.tools, req.tools.len());
    }
}

proof fn a_fault_has_its_tool(tools: Seq<CustomToolView>, n: nat)
    requires
        n <= tools.len(),
        first_tool_fault(tools, n) is Some,
    ensures
        exists|i: int|
            0 <= i < n && first_tool_fault(tools, n) == #[trigger] tool_fault(tools, i) && forall|
                j: int,
            |
                0 <= j < i ==> #[trigger] tool_fault(tools, j) is None,
    decreases n,
{
    let before = (n - 1) as nat;
    if first_tool_fault(tools, before) is Some {
        a_fault_has_its_tool(tools, before);
    } else {
        assert forall|j: int| 0 <= j < n - 1 implies #[trigger] tool_fault(tools, j) is None by {
            no_fault_before(tools, j, before);
        }
        assert(first_tool_fault(tools, n) == tool_fault(tools, n - 1));
    }
}

/// Results that name a call badly are told so, and so are those that are none.
pub proof fn bad_results_are_told(results: Seq<ToolResultView>)
    ensures
        results.len() == 0 ==> results_fault(results) == Some("results must not be empty"@),
        results.len() > 0 && results_fault(results) is Some ==> results_fault(results) == Some(
            "custom_tool_use_id has unexpected characters"@,
        ),
{
}

} // verus!
