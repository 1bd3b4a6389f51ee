//! `GET /v1/sessions/{id}/ws`: one WebSocket per session, for clients without
//! SSE (a Unity headset has `ClientWebSocket` and nothing else).
//!
//! Every frame is a JSON object with a `type`:
//!
//! server to client
//! - `{"type":"hello","session_id":…,"request_id":…}`: first frame.
//! - `{"type":"event","event":{…}}`: a session event, the same object the SSE
//!   stream and `/events` carry. History first (oldest first, unless
//!   `?history=false`), then live, deduplicated on `event.id`.
//! - `{"type":"delta","event_id":…,"text":…}`: with `?deltas=true`, a fragment
//!   of an `agent.message` as it is generated. The full event follows.
//! - `{"type":"sent","data":[…]}`: the events appended by a client frame.
//! - `{"type":"error","error":{"type":…,"message":…}}`: a client frame was
//!   rejected; the socket stays open.
//! - `{"type":"pong"}`: answer to `ping`.
//! - `{"type":"closed","reason":…}`: last frame before the server closes.
//!
//! client to server
//! - `{"type":"message","task":"…"}` (needs `sessions:write`)
//! - `{"type":"tool_result","custom_tool_use_id":…,"content":…,"is_error"?:…}`
//!   (needs `sessions:write`)
//! - `{"type":"interrupt"}` (needs `sessions:write`)
//! - `{"type":"ping"}`
//!
//! Connecting needs `sessions:read`. The bearer goes in the `Authorization`
//! header of the upgrade request, as on every other route.
//!
//! Ordering is the documented reconnect pattern: open the live stream *first*,
//! then list history, then forward live events that history did not already
//! contain, so nothing emitted between the two calls is lost. [`Bridge`] is the
//! conversation: what happens next to a socket, given what just happened.

use crate::auth::keys::Scope;
use crate::auth::middleware::Principal;
use crate::error::{class_of, kind_of, outcome, public_message, Error, ErrorView, Result};
use crate::json::{bool_field, field, field_in, has_just, items_field, parsed_json, text_field, text_in, text_or_empty, Json, JsonView, Object};
use crate::sse::{frames_in, unfinished, SseFrameView, SseParser};
use crate::text::{cat2, cat3, same, trim, trimmed};
use crate::upstream::control_plane::{add_param, getting, posting, with_param, Call, CallView, Method};
use crate::v1::sessions::{a_task_reads_back, bad, if_allowed, if_id, plain_char, result_read, results_are_good_where_their_ids_are, results_document, results_fault, results_read_back, session_path, spelled, task_document, task_json, valid_id, validate_tool_results, ToolResult, ToolResultView, ToolResults};
use vstd::hash_set::StringHashSet;
use vstd::prelude::*;

verus! {

pub struct WsQuery {
    /// Send the session's history before live events. Default true.
    pub history: Option<bool>,
    /// Also send text fragments as they are generated. Default false.
    pub deltas: Option<bool>,
}

/// The request for the live stream: with deltas, with the fragments of the agent's
/// messages.
pub open spec fn stream_call(session_id: Seq<char>, deltas: Option<bool>) -> CallView {
    getting(
        session_path(session_id, "/stream"@),
        with_param(
            Seq::empty(),
            "event_deltas"@,
            if deltas == Some(true) {
                Some("agent.message"@)
            } else {
                None
            },
        ),
    )
}

/// What opening a socket leads to.
pub open spec fn connect_route(
    scopes: Set<Scope>,
    session_id: Seq<char>,
    deltas: Option<bool>,
) -> std::result::Result<CallView, ErrorView> {
    if_allowed(
        scopes,
        Scope::SessionsRead,
        if_id(session_id, Ok(stream_call(session_id, deltas))),
    )
}

/// The live stream is opened before the upgrade, so that an unknown session is
/// a clean 404 rather than a socket that closes at once.
pub fn connect(who: &Principal, id: &str, q: &WsQuery) -> (r: Result<Call>)
    ensures
        outcome(r) == connect_route(who@.scopes, id@, q.deltas),
{
    match who.require(Scope::SessionsRead) {
        Ok(()) => {},
        Err(e) => {
            return Err(e);
        },
    }
    match valid_id(id) {
        Ok(()) => {},
        Err(e) => {
            return Err(e);
        },
    }
    let mut query: Vec<(String, String)> = Vec::new();
    assert(query.deep_view() =~= Seq::<(Seq<char>, Seq<char>)>::empty());
    match q.deltas {
        Some(true) => add_param(&mut query, "event_deltas", Some("agent.message")),
        _ => {},
    }
    Ok(Call::get(cat3("/sessions/", id, "/stream"), query))
}

// ---- frames ---------------------------------------------------------------------

pub open spec fn hello_frame(session_id: Seq<char>, request_id: Seq<char>) -> JsonView {
    JsonView::Object(
        map![
            "type"@ => JsonView::Text("hello"@),
            "session_id"@ => JsonView::Text(session_id),
            "request_id"@ => JsonView::Text(request_id),
        ],
    )
}

pub open spec fn event_frame(event: JsonView) -> JsonView {
    JsonView::Object(map!["type"@ => JsonView::Text("event"@), "event"@ => event])
}

pub open spec fn delta_frame(event_id: Seq<char>, text: Seq<char>) -> JsonView {
    JsonView::Object(
        map![
            "type"@ => JsonView::Text("delta"@),
            "event_id"@ => JsonView::Text(event_id),
            "text"@ => JsonView::Text(text),
        ],
    )
}

pub open spec fn sent_frame(answer: JsonView) -> JsonView {
    JsonView::Object(
        map![
            "type"@ => JsonView::Text("sent"@),
            "data"@ => match field(answer, "data"@) {
                Some(data) => data,
                None => JsonView::Null,
            },
        ],
    )
}

pub open spec fn error_frame(e: ErrorView) -> JsonView {
    JsonView::Object(
        map![
            "type"@ => JsonView::Text("error"@),
            "error"@ => JsonView::Object(
                map![
                    "type"@ => JsonView::Text(kind_of(class_of(e))),
                    "message"@ => JsonView::Text(public_message(e)),
                ],
            ),
        ],
    )
}

pub open spec fn pong_frame() -> JsonView {
    JsonView::Object(map!["type"@ => JsonView::Text("pong"@)])
}

pub open spec fn closed_frame(reason: Seq<char>) -> JsonView {
    JsonView::Object(
        map!["type"@ => JsonView::Text("closed"@), "reason"@ => JsonView::Text(reason)],
    )
}

fn typed(kind: &str) -> (r: Object)
    ensures
        r@ == map!["type"@ => JsonView::Text(kind@)],
{
    let mut o = Object::new();
    o.put_text("type", kind);
    assert(o@ =~= map!["type"@ => JsonView::Text(kind@)]);
    o
}

fn hello_json(session_id: &str, request_id: &str) -> (r: Json)
    ensures
        r@ == hello_frame(session_id@, request_id@),
{
    let mut o = typed("hello");
    o.put_text("session_id", session_id);
    o.put_text("request_id", request_id);
    assert(o@ =~= hello_frame(session_id@, request_id@)->Object_0);
    Json::Object(o)
}

fn event_json(event: Json) -> (r: Json)
    ensures
        r@ == event_frame(event@),
{
    let mut o = typed("event");
    o.put("event", event);
    assert(o@ =~= event_frame(event@)->Object_0);
    Json::Object(o)
}

fn delta_json(event_id: &str, text: &str) -> (r: Json)
    ensures
        r@ == delta_frame(event_id@, text@),
{
    let mut o = typed("delta");
    o.put_text("event_id", event_id);
    o.put_text("text", text);
    assert(o@ =~= delta_frame(event_id@, text@)->Object_0);
    Json::Object(o)
}

fn sent_json(answer: &Json) -> (r: Json)
    ensures
        r@ == sent_frame(answer@),
{
    let mut o = typed("sent");
    match answer.get("data") {
        Some(data) => o.put("data", data.copy()),
        None => o.put("data", Json::Null),
    }
    assert(o@ =~= sent_frame(answer@)->Object_0);
    Json::Object(o)
}

/// The frame that tells a client of a failure.
pub fn error_json(e: &Error) -> (r: Json)
    ensures
        r@ == error_frame(e@),
{
    let env = e.envelope();
    let mut detail = typed(env.kind.as_str());
    detail.put_text("message", env.message.as_str());
    assert(detail@ =~= map![
        "type"@ => JsonView::Text(kind_of(class_of(e@))),
        "message"@ => JsonView::Text(public_message(e@)),
    ]);
    let mut o = typed("error");
    o.put("error", Json::Object(detail));
    assert(o@ =~= error_frame(e@)->Object_0);
    Json::Object(o)
}

fn pong_json() -> (r: Json)
    ensures
        r@ == pong_frame(),
{
    Json::Object(typed("pong"))
}

fn closed_json(reason: &str) -> (r: Json)
    ensures
        r@ == closed_frame(reason@),
{
    let mut o = typed("closed");
    o.put_text("reason", reason);
    assert(o@ =~= closed_frame(reason@)->Object_0);
    Json::Object(o)
}

// ---- client frames ----------------------------------------------------------------

/// What a client frame leads to: an answer at once, or a call whose outcome is
/// the answer.
pub enum Handled {
    Reply(Json),
    Ask(Call),
}

pub enum HandledView {
    Reply(JsonView),
    Ask(CallView),
}

impl View for Handled {
    type V = HandledView;

    open spec fn view(&self) -> HandledView {
        match self {
            Handled::Reply(frame) => HandledView::Reply(frame@),
            Handled::Ask(call) => HandledView::Ask(call@),
        }
    }
}

/// The answer to a tool call that a `tool_result` frame carries.
pub open spec fn tool_result_of(frame: JsonView) -> Option<ToolResultView> {
    match (text_field(frame, "custom_tool_use_id"@), text_field(frame, "content"@)) {
        (Some(custom_tool_use_id), Some(content)) => Some(
            ToolResultView {
                custom_tool_use_id,
                content,
                is_error: bool_field(frame, "is_error"@) == Some(true),
            },
        ),
        _ => None,
    }
}

/// What a frame of some type asks for, from a client that may write.
pub open spec fn frame_call(session_id: Seq<char>, frame: JsonView) -> std::result::Result<
    CallView,
    ErrorView,
> {
    let kind = text_or_empty(frame, "type"@);
    if kind == "message"@ {
        let task = trimmed(text_or_empty(frame, "task"@));
        if task.len() == 0 {
            bad("`task` must be a non-empty string"@)
        } else {
            Ok(posting(session_path(session_id, "/events"@), task_document(task)))
        }
    } else if kind == "tool_result"@ {
        match tool_result_of(frame) {
            Some(result) => match results_fault(seq![result]) {
                Some(fault) => bad(fault),
                None => Ok(
                    posting(
                        session_path(session_id, "/tool-results"@),
                        results_document(seq![result]),
                    ),
                ),
            },
            None => bad("`custom_tool_use_id` and `content` must be strings"@),
        }
    } else {
        Ok(posting(session_path(session_id, "/interrupt"@), JsonView::Null))
    }
}

/// What a client frame leads to.
pub open spec fn handled(
    scopes: Set<Scope>,
    session_id: Seq<char>,
    parsed: std::result::Result<JsonView, Seq<char>>,
) -> HandledView {
    match parsed {
        Err(text) => HandledView::Reply(
            error_frame(ErrorView::InvalidRequest("frame is not JSON: "@ + text)),
        ),
        Ok(frame) => {
            let kind = text_or_empty(frame, "type"@);
            if kind == "ping"@ {
                HandledView::Reply(pong_frame())
            } else if kind == "message"@ || kind == "tool_result"@ || kind == "interrupt"@ {
                match if_allowed(scopes, Scope::SessionsWrite, frame_call(session_id, frame)) {
                    Ok(call) => HandledView::Ask(call),
                    Err(e) => HandledView::Reply(error_frame(e)),
                }
            } else {
                HandledView::Reply(
                    error_frame(
                        ErrorView::InvalidRequest(
                            "unknown frame type `"@ + kind
                                + "`; expected message, tool_result, interrupt or ping"@,
                        ),
                    ),
                )
            }
        },
    }
}

/// What a client frame leads to, from its text.
pub fn handle_client_frame(who: &Principal, session_id: &str, text: &str) -> (r: Handled)
    ensures
        r@ == handled(who@.scopes, session_id@, parsed_json(text@)),
{
    handle_client_document(who, session_id, Json::parse(text))
}

/// The same, given what the text reads as.
pub fn handle_client_document(
    who: &Principal,
    session_id: &str,
    parsed: std::result::Result<Json, String>,
) -> (r: Handled)
    ensures
        r@ == handled(
            who@.scopes,
            session_id@,
            match parsed {
                Ok(frame) => Ok(frame@),
                Err(text) => Err(text@),
            },
        ),
{
    let frame = match parsed {
        Ok(frame) => frame,
        Err(text) => {
            let e = Error::InvalidRequest(cat2("frame is not JSON: ", text.as_str()));
            return Handled::Reply(error_json(&e));
        },
    };
    let kind = frame.text_or_empty("type");
    if same(kind, "ping") {
        Handled::Reply(pong_json())
    } else if same(kind, "message") || same(kind, "tool_result") || same(kind, "interrupt") {
        match asked(who, session_id, &frame) {
            Ok(call) => Handled::Ask(call),
            Err(e) => Handled::Reply(error_json(&e)),
        }
    } else {
        let e = Error::InvalidRequest(
            cat3(
                "unknown frame type `",
                kind,
                "`; expected message, tool_result, interrupt or ping",
            ),
        );
        Handled::Reply(error_json(&e))
    }
}

/// What a frame asks for.
fn asked(who: &Principal, session_id: &str, frame: &Json) -> (r: Result<Call>)
    requires
        ({
            let kind = text_or_empty(frame@, "type"@);
            kind == "message"@ || kind == "tool_result"@ || kind == "interrupt"@
        }),
    ensures
        outcome(r) == if_allowed(
            who@.scopes,
            Scope::SessionsWrite,
            frame_call(session_id@, frame@),
        ),
{
    match who.require(Scope::SessionsWrite) {
        Ok(()) => {},
        Err(e) => {
            return Err(e);
        },
    }
    let kind = frame.text_or_empty("type");
    if same(kind, "message") {
        let task = trim(frame.text_or_empty("task"));
        if task.is_empty() {
            return Err(Error::InvalidRequest("`task` must be a non-empty string".to_owned()));
        }
        return Ok(Call::post(cat3("/sessions/", session_id, "/events"), task_json(task)));
    }
    if same(kind, "tool_result") {
        let result = match (frame.text_at("custom_tool_use_id"), frame.text_at("content")) {
            (Some(id), Some(content)) => ToolResult {
                custom_tool_use_id: id.to_owned(),
                content: content.to_owned(),
                is_error: match frame.bool_at("is_error") {
                    Some(true) => true,
                    _ => false,
                },
            },
            _ => {
                return Err(
                    Error::InvalidRequest(
                        "`custom_tool_use_id` and `content` must be strings".to_owned(),
                    ),
                );
            },
        };
        let ghost view = result@;
        let mut one: Vec<ToolResult> = Vec::new();
        one.push(result);
        let results = ToolResults { results: one };
        assert(results@ =~= seq![view]);
        return match validate_tool_results(&results) {
            Ok(()) => Ok(
                Call::post(cat3("/sessions/", session_id, "/tool-results"), results.to_json()),
            ),
            Err(e) => Err(e),
        };
    }
    Ok(Call::post(cat3("/sessions/", session_id, "/interrupt"), Json::Null))
}

// ---- the live stream ----------------------------------------------------------------

/// The events that frames carry; a frame whose data is not JSON carries none.
pub open spec fn events_of(frames: Seq<SseFrameView>) -> Seq<JsonView>
    decreases frames.len(),
{
    if frames.len() == 0 {
        Seq::empty()
    } else {
        let earlier = events_of(frames.drop_last());
        match parsed_json(frames.last().data) {
            Ok(event) => earlier.push(event),
            Err(_) => earlier,
        }
    }
}

/// The events that a chunk of the live stream completes.
pub fn read_events(parser: &mut SseParser, chunk: &[u8]) -> (r: Vec<Json>)
    requires
        old(parser)@.len() + chunk@.len() <= isize::MAX,
    ensures
        r.deep_view() == events_of(frames_in(old(parser)@ + chunk@)),
        final(parser)@ == unfinished(old(parser)@ + chunk@),
{
    parser.push(chunk);
    let frames = parser.frames();
    let mut out: Vec<Json> = Vec::new();
    let n: usize = frames.len();
    assert(out.deep_view() =~= events_of(frames.deep_view().take(0)));
    for i in 0..n
        invariant
            n == frames@.len(),
            out.deep_view() == events_of(frames.deep_view().take(i as int)),
    {
        let ghost seen = frames.deep_view().take(i + 1);
        let ghost earlier = out.deep_view();
        proof {
            assert(seen.drop_last() =~= frames.deep_view().take(i as int));
            assert(seen.last() == frames@[i as int]@);
        }
        match Json::parse(frames[i].data.as_str()) {
            Ok(event) => {
                out.push(event);
                assert(out.deep_view() =~= earlier.push(event@));
            },
            Err(_) => {},
        }
    }
    assert(frames.deep_view().take(n as int) =~= frames.deep_view());
    out
}

// ---- the conversation ---------------------------------------------------------------

/// Where a conversation stands.
#[derive(Debug, Clone, Copy, PartialEq, Eq, Structural)]
pub enum Phase {
    /// Nothing has been sent yet.
    Opening,
    /// A page of history was asked for.
    Listing,
    /// Live events and client frames go back and forth.
    Live,
    /// What a client frame asked for is under way.
    Posting,
    /// It is over.
    Closed,
}

/// What happened.
pub enum Event {
    /// The socket is open, and so is the live stream.
    Opened,
    /// What was asked of the control plane came back.
    Answered(Result<Json>),
    /// The live stream carried an event.
    Upstream(Json),
    /// The live stream ended.
    UpstreamEnded,
    /// The client sent a text frame.
    Client(String),
    /// The client is gone, or a frame could not be sent to it.
    ClientGone,
}

pub enum EventView {
    Opened,
    Answered(std::result::Result<JsonView, ErrorView>),
    Upstream(JsonView),
    UpstreamEnded,
    Client(Seq<char>),
    ClientGone,
}

impl View for Event {
    type V = EventView;

    open spec fn view(&self) -> EventView {
        match self {
            Event::Opened => EventView::Opened,
            Event::Answered(answer) => EventView::Answered(
                match answer {
                    Ok(answer) => Ok(answer@),
                    Err(e) => Err(e@),
                },
            ),
            Event::Upstream(event) => EventView::Upstream(event@),
            Event::UpstreamEnded => EventView::UpstreamEnded,
            Event::Client(text) => EventView::Client(text@),
            Event::ClientGone => EventView::ClientGone,
        }
    }
}

/// What to do once the frames are sent.
pub enum Next {
    /// Ask the control plane, and report what it answers.
    Ask(Call),
    /// Wait for the live stream or the client.
    Listen,
    /// Close the socket.
    Close,
    /// Nothing: the client is gone.
    Drop,
}

pub enum NextView {
    Ask(CallView),
    Listen,
    Close,
    Drop,
}

impl View for Next {
    type V = NextView;

    open spec fn view(&self) -> NextView {
        match self {
            Next::Ask(call) => NextView::Ask(call@),
            Next::Listen => NextView::Listen,
            Next::Close => NextView::Close,
            Next::Drop => NextView::Drop,
        }
    }
}

/// The frames to send, in order, and what to do then.
pub struct Action {
    pub send: Vec<Json>,
    pub next: Next,
}

#[verifier::ext_equal]
pub struct ActionView {
    pub send: Seq<JsonView>,
    pub next: NextView,
}

impl View for Action {
    type V = ActionView;

    open spec fn view(&self) -> ActionView {
        ActionView { send: self.send.deep_view(), next: self.next@ }
    }
}

/// One socket's conversation.
pub struct Bridge {
    session_id: String,
    request_id: String,
    history: bool,
    deltas: bool,
    who: Principal,
    seen: StringHashSet,
    collected: Vec<Json>,
    phase: Phase,
}

#[verifier::ext_equal]
pub struct BridgeView {
    pub session_id: Seq<char>,
    pub request_id: Seq<char>,
    pub history: bool,
    pub deltas: bool,
    pub scopes: Set<Scope>,
    /// The ids of the events that the client was sent.
    pub seen: Set<Seq<char>>,
    /// The history so far.
    pub collected: Seq<JsonView>,
    pub phase: Phase,
}

impl View for Bridge {
    type V = BridgeView;

    closed spec fn view(&self) -> BridgeView {
        BridgeView {
            session_id: self.session_id@,
            request_id: self.request_id@,
            history: self.history,
            deltas: self.deltas,
            scopes: self.who@.scopes,
            seen: self.seen@,
            collected: self.collected.deep_view(),
            phase: self.phase,
        }
    }
}

/// An event goes out unless the client was sent one of its id. One without an id
/// always goes out.
pub open spec fn delivered(seen: Set<Seq<char>>, event: JsonView) -> (
    Set<Seq<char>>,
    Option<JsonView>,
) {
    match text_field(event, "id"@) {
        Some(id) => if seen.contains(id) {
            (seen, None)
        } else {
            (seen.insert(id), Some(event_frame(event)))
        },
        None => (seen, Some(event_frame(event))),
    }
}

/// The frame, if there is one, as a list.
pub open spec fn listed(frame: Option<JsonView>) -> Seq<JsonView> {
    match frame {
        Some(frame) => seq![frame],
        None => Seq::empty(),
    }
}

/// The same for events one after another.
pub open spec fn delivered_all(seen: Set<Seq<char>>, events: Seq<JsonView>) -> (
    Set<Seq<char>>,
    Seq<JsonView>,
)
    decreases events.len(),
{
    if events.len() == 0 {
        (seen, Seq::empty())
    } else {
        let (seen, frames) = delivered_all(seen, events.drop_last());
        let (seen, frame) = delivered(seen, events.last());
        (seen, frames + listed(frame))
    }
}

/// The text fragment that an `event_delta` carries.
pub open spec fn delta_text(event: JsonView) -> Option<Seq<char>> {
    match field_in(event, "delta"@, "content"@) {
        Some(content) => text_field(content, "text"@),
        None => None,
    }
}

/// What a live event is passed on as. With deltas, the start of an event is not
/// passed on, and a fragment is passed on as its text.
pub open spec fn passed_on(seen: Set<Seq<char>>, deltas: bool, event: JsonView) -> (
    Set<Seq<char>>,
    Option<JsonView>,
) {
    let kind = text_field(event, "type"@);
    if deltas && kind == Some("event_start"@) {
        (seen, None)
    } else if deltas && kind == Some("event_delta"@) {
        (
            seen,
            match (text_field(event, "event_id"@), delta_text(event)) {
                (Some(event_id), Some(text)) => Some(delta_frame(event_id, text)),
                _ => None,
            },
        )
    } else {
        delivered(seen, event)
    }
}

/// The request for a page of the session's history, a thousand events at a time.
pub open spec fn history_call(session_id: Seq<char>, page: Option<Seq<char>>) -> CallView {
    getting(
        session_path(session_id, "/events"@),
        with_param(seq![("limit"@, "1000"@)], "page"@, page),
    )
}

/// The next page that a page of history points to.
pub open spec fn next_page(envelope: JsonView) -> Option<Seq<char>> {
    match text_field(envelope, "next_page"@) {
        Some(page) => if page.len() > 0 {
            Some(page)
        } else {
            None
        },
        None => None,
    }
}

/// Whether an event can happen there. While something is asked of the control
/// plane, nothing else is listened to but the client's leaving.
pub open spec fn expected(phase: Phase, event: EventView) -> bool {
    match event {
        EventView::Opened => phase == Phase::Opening,
        EventView::Answered(_) => phase == Phase::Listing || phase == Phase::Posting,
        EventView::Upstream(_) => phase == Phase::Live,
        EventView::UpstreamEnded => phase == Phase::Live,
        EventView::Client(_) => phase == Phase::Live,
        EventView::ClientGone => phase != Phase::Closed,
    }
}

/// Frames are sent and the conversation goes on listening.
pub open spec fn listening(b: BridgeView, seen: Set<Seq<char>>, send: Seq<JsonView>) -> (
    BridgeView,
    ActionView,
) {
    (
        BridgeView { seen, collected: Seq::empty(), phase: Phase::Live, ..b },
        ActionView { send, next: NextView::Listen },
    )
}

/// What happens next, given what just happened.
pub open spec fn stepped(b: BridgeView, event: EventView) -> (BridgeView, ActionView) {
    match event {
        EventView::Opened => {
            let hello = seq![hello_frame(b.session_id, b.request_id)];
            if b.history {
                (
                    BridgeView { collected: Seq::empty(), phase: Phase::Listing, ..b },
                    ActionView {
                        send: hello,
                        next: NextView::Ask(history_call(b.session_id, None)),
                    },
                )
            } else {
                listening(b, b.seen, hello)
            }
        },
        EventView::Answered(answer) => if b.phase == Phase::Listing {
            match answer {
                Ok(envelope) => {
                    let collected = b.collected + items_field(envelope, "data"@);
                    match next_page(envelope) {
                        Some(page) => (
                            BridgeView { collected, ..b },
                            ActionView {
                                send: Seq::empty(),
                                next: NextView::Ask(history_call(b.session_id, Some(page))),
                            },
                        ),
                        None => {
                            let (seen, frames) = delivered_all(b.seen, collected);
                            listening(b, seen, frames)
                        },
                    }
                },
                Err(e) => listening(b, b.seen, seq![error_frame(e)]),
            }
        } else {
            match answer {
                Ok(answer) => listening(b, b.seen, seq![sent_frame(answer)]),
                Err(e) => listening(b, b.seen, seq![error_frame(e)]),
            }
        },
        EventView::Upstream(event) => {
            let (seen, frame) = passed_on(b.seen, b.deltas, event);
            listening(b, seen, listed(frame))
        },
        EventView::UpstreamEnded => (
            BridgeView { collected: Seq::empty(), phase: Phase::Closed, ..b },
            ActionView { send: seq![closed_frame("upstream_closed"@)], next: NextView::Close },
        ),
        EventView::Client(text) => match handled(b.scopes, b.session_id, parsed_json(text)) {
            HandledView::Reply(frame) => listening(b, b.seen, seq![frame]),
            HandledView::Ask(call) => (
                BridgeView { collected: Seq::empty(), phase: Phase::Posting, ..b },
                ActionView { send: Seq::empty(), next: NextView::Ask(call) },
            ),
        },
        EventView::ClientGone => (
            BridgeView { collected: Seq::empty(), phase: Phase::Closed, ..b },
            ActionView { send: Seq::empty(), next: NextView::Drop },
        ),
    }
}

fn one_frame(frame: Json) -> (r: Vec<Json>)
    ensures
        r.deep_view() == seq![frame@],
{
    let mut out: Vec<Json> = Vec::new();
    out.push(frame);
    assert(out.deep_view() =~= seq![frame@]);
    out
}

fn no_frames() -> (r: Vec<Json>)
    ensures
        r.deep_view() == Seq::<JsonView>::empty(),
{
    let out: Vec<Json> = Vec::new();
    assert(out.deep_view() =~= Seq::<JsonView>::empty());
    out
}

fn history_request(session_id: &str, page: Option<&str>) -> (r: Call)
    ensures
        r@ == history_call(session_id@, page.deep_view()),
{
    let mut query: Vec<(String, String)> = Vec::new();
    query.push(("limit".to_owned(), "1000".to_owned()));
    assert(query.deep_view() =~= seq![("limit"@, "1000"@)]);
    add_param(&mut query, "page", page);
    Call::get(cat3("/sessions/", session_id, "/events"), query)
}

/// A conversation that has not begun.
pub open spec fn opening(
    scopes: Set<Scope>,
    session_id: Seq<char>,
    request_id: Seq<char>,
    q: WsQuery,
) -> BridgeView {
    BridgeView {
        session_id,
        request_id,
        history: q.history != Some(false),
        deltas: q.deltas == Some(true),
        scopes,
        seen: Set::empty(),
        collected: Seq::empty(),
        phase: Phase::Opening,
    }
}

impl Bridge {
    /// A conversation that has not begun.
    pub fn new(
        who: Principal,
        session_id: &str,
        request_id: &str,
        q: &WsQuery,
    ) -> (r: Bridge)
        ensures
            r@ == opening(who@.scopes, session_id@, request_id@, *q),
    {
        let history = match q.history {
            Some(false) => false,
            _ => true,
        };
        let deltas = match q.deltas {
            Some(true) => true,
            _ => false,
        };
        Bridge {
            session_id: session_id.to_owned(),
            request_id: request_id.to_owned(),
            history,
            deltas,
            who,
            seen: StringHashSet::new(),
            collected: no_frames(),
            phase: Phase::Opening,
        }
    }

    /// Where the conversation stands.
    pub fn phase(&self) -> (r: Phase)
        ensures
            r == self@.phase,
    {
        self.phase
    }

    fn deliver(&mut self, event: Json) -> (r: Option<Json>)
        ensures
            (final(self)@.seen, r.deep_view()) == delivered(old(self)@.seen, event@),
            final(self)@ == (BridgeView { seen: final(self)@.seen, ..old(self)@ }),
    {
        let fresh = match event.text_at("id") {
            Some(id) => self.seen.insert(id.to_owned()),
            None => true,
        };
        proof {
            let seen = old(self)@.seen;
            if let Some(id) = text_field(event@, "id"@) {
                assert(seen.contains(id) ==> seen.insert(id) =~= seen);
            }
        }
        if fresh {
            Some(event_json(event))
        } else {
            None
        }
    }

    fn pass_on(&mut self, event: Json) -> (r: Option<Json>)
        ensures
            (final(self)@.seen, r.deep_view()) == passed_on(
                old(self)@.seen,
                old(self)@.deltas,
                event@,
            ),
            final(self)@ == (BridgeView { seen: final(self)@.seen, ..old(self)@ }),
    {
        if self.deltas {
            if let Some(kind) = event.text_at("type") {
                if same(kind, "event_start") {
                    return None;
                }
                if same(kind, "event_delta") {
                    let text = match event.get("delta") {
                        Some(delta) => match delta.get("content") {
                            Some(content) => content.text_at("text"),
                            None => None,
                        },
                        None => None,
                    };
                    return match (event.text_at("event_id"), text) {
                        (Some(event_id), Some(text)) => Some(delta_json(event_id, text)),
                        _ => None,
                    };
                }
            }
        }
        self.deliver(event)
    }

    /// Adds a page to the history.
    fn collect(&mut self, envelope: &Json)
        ensures
            final(self)@ == (BridgeView {
                collected: old(self)@.collected + items_field(envelope@, "data"@),
                ..old(self)@
            }),
    {
        let items = envelope.items_at("data");
        let ghost all = items_field(envelope@, "data"@);
        let ghost earlier = self@.collected;
        let n: usize = items.len();
        assert(earlier + all.take(0) =~= earlier);
        for i in 0..n
            invariant
                n == items@.len(),
                all == items@.map_values(|j: Json| j@),
                self@ == (BridgeView {
                    collected: earlier + all.take(i as int),
                    ..old(self)@
                }),
        {
            let ghost so_far = self.collected.deep_view();
            self.collected.push(items[i].copy());
            assert(self.collected.deep_view() =~= so_far.push(items@[i as int]@));
            assert(all.take(i + 1) =~= all.take(i as int).push(all[i as int]));
            assert(earlier + all.take(i + 1) =~= (earlier + all.take(i as int)).push(all[i as int]));
        }
        assert(all.take(n as int) =~= all);
    }

    /// The frames of the whole history.
    fn deliver_history(&mut self) -> (r: Vec<Json>)
        ensures
            (final(self)@.seen, r.deep_view()) == delivered_all(
                old(self)@.seen,
                old(self)@.collected,
            ),
            final(self)@ == (BridgeView {
                seen: final(self)@.seen,
                collected: Seq::empty(),
                ..old(self)@
            }),
    {
        let mut events: Vec<Json> = no_frames();
        std::mem::swap(&mut events, &mut self.collected);
        let ghost all = events.deep_view();
        let ghost start = self@;
        let mut out: Vec<Json> = no_frames();
        let n: usize = events.len();
        assert(all.take(0) =~= Seq::<JsonView>::empty());
        for i in 0..n
            invariant
                n == events@.len(),
                all == events.deep_view(),
                (self@.seen, out.deep_view()) == delivered_all(start.seen, all.take(i as int)),
                self@ == (BridgeView { seen: self@.seen, ..start }),
        {
            proof {
                assert(all.take(i + 1).drop_last() =~= all.take(i as int));
                assert(all.take(i + 1).last() == events@[i as int]@);
            }
            let ghost so_far = out.deep_view();
            match self.deliver(events[i].copy()) {
                Some(frame) => {
                    out.push(frame);
                    assert(out.deep_view() =~= so_far + seq![frame@]);
                },
                None => {
                    assert(so_far + Seq::<JsonView>::empty() =~= so_far);
                },
            }
        }
        assert(all.take(n as int) =~= all);
        out
    }

    fn listen(&mut self, send: Vec<Json>) -> (r: Action)
        ensures
            (final(self)@, r@) == listening(old(self)@, old(self)@.seen, send.deep_view()),
    {
        self.collected = no_frames();
        self.phase = Phase::Live;
        Action { send, next: Next::Listen }
    }

    /// What happens next, given what just happened.
    pub fn step(&mut self, event: Event) -> (r: Action)
        requires
            expected(old(self)@.phase, event@),
        ensures
            (final(self)@, r@) == stepped(old(self)@, event@),
    {
        match event {
            Event::Opened => {
                let hello = one_frame(
                    hello_json(self.session_id.as_str(), self.request_id.as_str()),
                );
                if self.history {
                    self.collected = no_frames();
                    self.phase = Phase::Listing;
                    Action {
                        send: hello,
                        next: Next::Ask(history_request(self.session_id.as_str(), None)),
                    }
                } else {
                    self.listen(hello)
                }
            },
            Event::Answered(answer) => match answer {
                Ok(answer) => if self.phase == Phase::Listing {
                    self.turn_page(&answer)
                } else {
                    self.listen(one_frame(sent_json(&answer)))
                },
                Err(e) => self.listen(one_frame(error_json(&e))),
            },
            Event::Upstream(event) => {
                match self.pass_on(event) {
                    Some(frame) => self.listen(one_frame(frame)),
                    None => self.listen(no_frames()),
                }
            },
            Event::UpstreamEnded => {
                self.collected = no_frames();
                self.phase = Phase::Closed;
                Action { send: one_frame(closed_json("upstream_closed")), next: Next::Close }
            },
            Event::Client(text) => {
                match handle_client_frame(&self.who, self.session_id.as_str(), text.as_str()) {
                    Handled::Reply(frame) => self.listen(one_frame(frame)),
                    Handled::Ask(call) => {
                        self.collected = no_frames();
                        self.phase = Phase::Posting;
                        Action { send: no_frames(), next: Next::Ask(call) }
                    },
                }
            },
            Event::ClientGone => {
                self.collected = no_frames();
                self.phase = Phase::Closed;
                Action { send: no_frames(), next: Next::Drop }
            },
        }
    }

    /// A page of history came: the next one is asked for, or, after the last, the
    /// whole history goes out.
    fn turn_page(&mut self, envelope: &Json) -> (r: Action)
        requires
            old(self)@.phase == Phase::Listing,
        ensures
            (final(self)@, r@) == stepped(old(self)@, EventView::Answered(Ok(envelope@))),
    {
        self.collect(envelope);
        match envelope.text_at("next_page") {
            Some(page) => if page.unicode_len() > 0 {
                return Action {
                    send: no_frames(),
                    next: Next::Ask(history_request(self.session_id.as_str(), Some(page))),
                };
            },
            None => {},
        }
        let frames = self.deliver_history();
        self.listen(frames)
    }
}

// ---- laws ---------------------------------------------------------------------------

/// The id of the event that a frame shows, where it is an event frame and the
/// event has one.
pub open spec fn shown_id(frame: JsonView) -> Option<Seq<char>> {
    if text_field(frame, "type"@) == Some("event"@) {
        text_in(frame, "event"@, "id"@)
    } else {
        None
    }
}

/// The frames show each event once, none of those seen before, and all of those
/// seen after.
pub open spec fn shows_new_events(
    before: Set<Seq<char>>,
    after: Set<Seq<char>>,
    frames: Seq<JsonView>,
) -> bool {
    &&& before.subset_of(after)
    &&& forall|i: int|
        #![trigger frames[i]]
        0 <= i < frames.len() && shown_id(frames[i]) is Some ==> !before.contains(
            shown_id(frames[i])->0,
        ) && after.contains(shown_id(frames[i])->0)
    &&& forall|i: int, j: int|
        #![trigger frames[i], frames[j]]
        0 <= i < j < frames.len() && shown_id(frames[i]) is Some ==> shown_id(frames[i])
            != shown_id(frames[j])
}

proof fn only_event_frames_show_events()
    ensures
        forall|event: JsonView| #[trigger] shown_id(event_frame(event)) == text_field(event, "id"@),
        forall|s: Seq<char>, r: Seq<char>| #[trigger] shown_id(hello_frame(s, r)) is None,
        forall|e: Seq<char>, t: Seq<char>| #[trigger] shown_id(delta_frame(e, t)) is None,
        forall|answer: JsonView| #[trigger] shown_id(sent_frame(answer)) is None,
        forall|e: ErrorView| #[trigger] shown_id(error_frame(e)) is None,
        shown_id(pong_frame()) is None,
        forall|reason: Seq<char>| #[trigger] shown_id(closed_frame(reason)) is None,
{
    reveal_strlit("type");
    reveal_strlit("event");
    reveal_strlit("hello");
    reveal_strlit("session_id");
    reveal_strlit("request_id");
    reveal_strlit("delta");
    reveal_strlit("event_id");
    reveal_strlit("text");
    reveal_strlit("sent");
    reveal_strlit("data");
    reveal_strlit("error");
    reveal_strlit("pong");
    reveal_strlit("closed");
    reveal_strlit("reason");
    let key = "type"@;
    assert(key != "event"@ && key != "session_id"@ && key != "request_id"@ && key != "event_id"@
        && key != "data"@ && key != "error"@ && key != "reason"@) by {
        assert(key.len() == 4);
        assert("data"@[0] != key[0]);
    }
    assert(key != "text"@) by {
        assert("text"@[1] != key[1]);
    }
    assert("hello"@ != "event"@) by {
        assert("hello"@[0] != "event"@[0]);
    }
    assert("delta"@ != "event"@) by {
        assert("delta"@[0] != "event"@[0]);
    }
    assert("error"@ != "event"@) by {
        assert("error"@[1] != "event"@[1]);
    }
    assert("sent"@.len() != "event"@.len());
    assert("pong"@.len() != "event"@.len());
    assert("closed"@.len() != "event"@.len());
}

proof fn delivered_shows_new_events(seen: Set<Seq<char>>, event: JsonView)
    ensures
        shows_new_events(seen, delivered(seen, event).0, listed(delivered(seen, event).1)),
{
    only_event_frames_show_events();
}

proof fn delivered_all_shows_new_events(seen: Set<Seq<char>>, events: Seq<JsonView>)
    ensures
        shows_new_events(seen, delivered_all(seen, events).0, delivered_all(seen, events).1),
    decreases events.len(),
{
    if events.len() > 0 {
        delivered_all_shows_new_events(seen, events.drop_last());
        let (mid, frames) = delivered_all(seen, events.drop_last());
        delivered_shows_new_events(mid, events.last());
        let (after, frame) = delivered(mid, events.last());
        let all = frames + listed(frame);
        assert forall|i: int|
            #![trigger all[i]]
            0 <= i < all.len() && shown_id(all[i]) is Some implies !seen.contains(
            shown_id(all[i])->0,
        ) && after.contains(shown_id(all[i])->0) by {
            if i < frames.len() {
                assert(all[i] == frames[i]);
            } else {
                assert(all[i] == listed(frame)[i - frames.len()]);
            }
        }
        assert forall|i: int, j: int|
            #![trigger all[i], all[j]]
            0 <= i < j < all.len() && shown_id(all[i]) is Some implies shown_id(all[i])
            != shown_id(all[j]) by {
            assert(all[i] == frames[i]);
            if j < frames.len() {
                assert(all[j] == frames[j]);
            } else {
                assert(all[j] == listed(frame)[j - frames.len()]);
            }
        }
    }
}

/// A step shows only events that were not shown before, and remembers them.
pub proof fn a_step_shows_only_new_events(b: BridgeView, event: EventView)
    ensures
        shows_new_events(b.seen, stepped(b, event).0.seen, stepped(b, event).1.send),
{
    only_event_frames_show_events();
    match event {
        EventView::Answered(Ok(envelope)) => {
            let collected = b.collected + items_field(envelope, "data"@);
            delivered_all_shows_new_events(b.seen, collected);
        },
        EventView::Upstream(event) => {
            delivered_shows_new_events(b.seen, event);
        },
        _ => {},
    }
}

/// A conversation: what happened at each step, and where it stood before and
/// after.
pub open spec fn conversation(states: Seq<BridgeView>, events: Seq<EventView>) -> bool {
    &&& states.len() == events.len() + 1
    &&& forall|i: int|
        #![trigger events[i]]
        0 <= i < events.len() ==> states[i + 1] == stepped(states[i], events[i]).0
}

/// A client never sees the same event twice: over a whole conversation, history
/// and live, no two event frames show one id.
pub proof fn no_event_is_shown_twice(
    states: Seq<BridgeView>,
    events: Seq<EventView>,
    i: int,
    j: int,
    k: int,
    l: int,
)
    requires
        conversation(states, events),
        0 <= i <= j < events.len(),
        0 <= k < stepped(states[i], events[i]).1.send.len(),
        0 <= l < stepped(states[j], events[j]).1.send.len(),
        i < j || k < l,
        shown_id(stepped(states[i], events[i]).1.send[k]) is Some,
    ensures
        shown_id(stepped(states[i], events[i]).1.send[k]) != shown_id(
            stepped(states[j], events[j]).1.send[l],
        ),
{
    a_step_shows_only_new_events(states[i], events[i]);
    a_step_shows_only_new_events(states[j], events[j]);
    if i < j {
        let id = shown_id(stepped(states[i], events[i]).1.send[k])->0;
        assert(states[i + 1] == stepped(states[i], events[i]).0);
        seen_stays_seen(states, events, i + 1, j, id);
    }
}

proof fn seen_stays_seen(
    states: Seq<BridgeView>,
    events: Seq<EventView>,
    i: int,
    j: int,
    id: Seq<char>,
)
    requires
        conversation(states, events),
        0 <= i <= j <= events.len(),
        states[i].seen.contains(id),
    ensures
        states[j].seen.contains(id),
    decreases j - i,
{
    if i < j {
        a_step_shows_only_new_events(states[i], events[i]);
        assert(states[i + 1] == stepped(states[i], events[i]).0);
        seen_stays_seen(states, events, i + 1, j, id);
    }
}

/// What a live event is a preview of, and no event itself: with deltas, the start
/// of an event or a fragment of one.
pub open spec fn previews(deltas: bool, event: JsonView) -> bool {
    deltas && (text_field(event, "type"@) == Some("event_start"@) || text_field(event, "type"@)
        == Some("event_delta"@))
}

/// An event that the live stream carries is shown unless one of its id was.
pub proof fn no_live_event_is_lost(b: BridgeView, event: JsonView)
    requires
        b.phase == Phase::Live,
        !previews(b.deltas, event),
        text_field(event, "id"@) matches Some(id) ==> !b.seen.contains(id),
    ensures
        stepped(b, EventView::Upstream(event)).1.send == seq![event_frame(event)],
{
}

/// The full event is authoritative: a preview of it, sent before, does not keep it
/// from being shown.
pub proof fn a_preview_does_not_hide_its_event(b: BridgeView, preview: JsonView, event: JsonView)
    requires
        b.phase == Phase::Live,
        previews(b.deltas, preview),
        !previews(b.deltas, event),
        text_field(event, "id"@) matches Some(id) ==> !b.seen.contains(id),
    ensures
        stepped(
            stepped(b, EventView::Upstream(preview)).0,
            EventView::Upstream(event),
        ).1.send == seq![event_frame(event)],
{
}

/// One of the frames shows the event of that id.
pub open spec fn shows(frames: Seq<JsonView>, id: Seq<char>) -> bool {
    exists|k: int| 0 <= k < frames.len() && shown_id(#[trigger] frames[k]) == Some(id)
}

/// No event of the history is lost: once its last page is there, each event that
/// the pages hold is shown, unless one of its id was.
pub proof fn no_history_event_is_lost(b: BridgeView, envelope: JsonView, i: int)
    requires
        b.phase == Phase::Listing,
        next_page(envelope) is None,
        0 <= i < (b.collected + items_field(envelope, "data"@)).len(),
    ensures
        ({
            let event = (b.collected + items_field(envelope, "data"@))[i];
            let send = stepped(b, EventView::Answered(Ok(envelope))).1.send;
            match text_field(event, "id"@) {
                Some(id) => b.seen.contains(id) || shows(send, id),
                None => send.contains(event_frame(event)),
            }
        }),
{
    delivered_all_shows_each(b.seen, b.collected + items_field(envelope, "data"@), i);
}

proof fn delivered_all_shows_each(seen: Set<Seq<char>>, events: Seq<JsonView>, i: int)
    requires
        0 <= i < events.len(),
    ensures
        match text_field(events[i], "id"@) {
            Some(id) => seen.contains(id) || shows(delivered_all(seen, events).1, id),
            None => delivered_all(seen, events).1.contains(event_frame(events[i])),
        },
    decreases events.len(),
{
    let earlier = events.drop_last();
    let (mid, frames) = delivered_all(seen, earlier);
    let frame = delivered(mid, events.last()).1;
    let all = frames + listed(frame);
    if i < earlier.len() {
        delivered_all_shows_each(seen, earlier, i);
        match text_field(events[i], "id"@) {
            Some(id) => {
                if !seen.contains(id) {
                    still_shown(frames, listed(frame), id);
                }
            },
            None => {
                let k = choose|k: int| 0 <= k < frames.len() && frames[k] == event_frame(events[i]);
                assert(all[k] == frames[k]);
            },
        }
    } else {
        match text_field(events[i], "id"@) {
            Some(id) => {
                seen_was_shown(seen, events, id);
            },
            None => {
                assert(all[frames.len() as int] == event_frame(events[i]));
            },
        }
    }
}

proof fn still_shown(frames: Seq<JsonView>, more: Seq<JsonView>, id: Seq<char>)
    requires
        shows(frames, id),
    ensures
        shows(frames + more, id),
{
    let k = choose|k: int| 0 <= k < frames.len() && shown_id(#[trigger] frames[k]) == Some(id);
    assert((frames + more)[k] == frames[k]);
}

proof fn seen_was_shown(seen: Set<Seq<char>>, events: Seq<JsonView>, id: Seq<char>)
    requires
        delivered_all(seen, events).0.contains(id),
    ensures
        seen.contains(id) || shows(delivered_all(seen, events).1, id),
    decreases events.len(),
{
    if events.len() > 0 {
        let (mid, frames) = delivered_all(seen, events.drop_last());
        let frame = delivered(mid, events.last()).1;
        if mid.contains(id) {
            seen_was_shown(seen, events.drop_last(), id);
            if !seen.contains(id) {
                still_shown(frames, listed(frame), id);
            }
        } else {
            only_event_frames_show_events();
            let all = frames + listed(frame);
            assert(all[frames.len() as int] == event_frame(events.last()));
            assert(shown_id(all[frames.len() as int]) == Some(id));
        }
    }
}

/// Who may only read posts nothing: whatever such a client sends, nothing is asked
/// of the control plane.
pub proof fn a_reader_posts_nothing(b: BridgeView, text: Seq<char>)
    requires
        b.phase == Phase::Live,
        !b.scopes.contains(Scope::SessionsWrite),
    ensures
        stepped(b, EventView::Client(text)).1.next == NextView::Listen,
        stepped(b, EventView::Client(text)).0.phase == Phase::Live,
{
}

/// `hello` comes first: nothing is sent before the socket is open, and what is
/// sent then is `hello` alone.
pub proof fn hello_comes_first(b: BridgeView, event: EventView)
    requires
        b.phase == Phase::Opening,
        expected(b.phase, event),
    ensures
        stepped(b, event).1.send == (if event is Opened {
            seq![hello_frame(b.session_id, b.request_id)]
        } else {
            Seq::empty()
        }),
{
}

/// A conversation that is over stays over: nothing more can happen to it.
pub proof fn nothing_follows_the_end(b: BridgeView, event: EventView, later: EventView)
    requires
        expected(b.phase, event),
        event is UpstreamEnded || event is ClientGone,
    ensures
        !expected(stepped(b, event).0.phase, later),
        event is UpstreamEnded ==> stepped(b, event).1.send == seq![
            closed_frame("upstream_closed"@),
        ],
{
}

/// The frame tells a client of some error.
pub open spec fn tells_an_error(frame: JsonView) -> bool {
    exists|e: ErrorView| frame == #[trigger] error_frame(e)
}

/// A rejected client frame is answered with an error frame, and the socket stays
/// open: where nothing is asked of the control plane for it, what is sent is that
/// one frame, or the `pong` of a `ping`; where the control plane refuses what was
/// asked, its error is sent.
pub proof fn a_rejected_frame_keeps_the_socket_open(
    b: BridgeView,
    text: Seq<char>,
    refusal: ErrorView,
)
    ensures
        b.phase == Phase::Live && stepped(b, EventView::Client(text)).0.phase != Phase::Posting
            ==> {
            let (after, action) = stepped(b, EventView::Client(text));
            &&& after.phase == Phase::Live
            &&& action.next == NextView::Listen
            &&& action.send.len() == 1
            &&& tells_an_error(action.send[0]) || action.send[0] == pong_frame()
        },
        b.phase == Phase::Posting ==> {
            let (after, action) = stepped(b, EventView::Answered(Err(refusal)));
            &&& after.phase == Phase::Live
            &&& action.next == NextView::Listen
            &&& action.send == seq![error_frame(refusal)]
        },
{
}

/// A frame says in its `type` what it is.
pub open spec fn is_typed(frame: JsonView, kind: Seq<char>, names: Set<Seq<char>>) -> bool {
    text_field(frame, "type"@) == Some(kind) && has_just(frame, names)
}

/// Every frame says what it is and carries what it is about, and nothing else:
/// `hello` the session and the request, `event` the event itself, `delta` the event
/// that a fragment belongs to and the fragment, `sent` the events that the control
/// plane appended, `error` the kind and the message that the error has everywhere,
/// `closed` the reason.
pub proof fn frames_say_what_they_carry(
    session_id: Seq<char>,
    request_id: Seq<char>,
    event: JsonView,
    text: Seq<char>,
    e: ErrorView,
)
    ensures
        is_typed(
            hello_frame(session_id, request_id),
            "hello"@,
            set!["type"@, "session_id"@, "request_id"@],
        ),
        text_field(hello_frame(session_id, request_id), "session_id"@) == Some(session_id),
        text_field(hello_frame(session_id, request_id), "request_id"@) == Some(request_id),
        is_typed(event_frame(event), "event"@, set!["type"@, "event"@]),
        field(event_frame(event), "event"@) == Some(event),
        is_typed(delta_frame(session_id, text), "delta"@, set!["type"@, "event_id"@, "text"@]),
        text_field(delta_frame(session_id, text), "event_id"@) == Some(session_id),
        text_field(delta_frame(session_id, text), "text"@) == Some(text),
        is_typed(sent_frame(event), "sent"@, set!["type"@, "data"@]),
        field(event, "data"@) is Some ==> field(sent_frame(event), "data"@) == field(
            event,
            "data"@,
        ),
        field(event, "data"@) is None ==> field(sent_frame(event), "data"@) == Some(
            JsonView::Null,
        ),
        is_typed(error_frame(e), "error"@, set!["type"@, "error"@]),
        text_in(error_frame(e), "error"@, "type"@) == Some(kind_of(class_of(e))),
        text_in(error_frame(e), "error"@, "message"@) == Some(public_message(e)),
        is_typed(pong_frame(), "pong"@, set!["type"@]),
        is_typed(closed_frame(text), "closed"@, set!["type"@, "reason"@]),
        text_field(closed_frame(text), "reason"@) == Some(text),
{
    reveal_strlit("type");
    reveal_strlit("session_id");
    reveal_strlit("request_id");
    reveal_strlit("event");
    reveal_strlit("event_id");
    reveal_strlit("text");
    reveal_strlit("data");
    reveal_strlit("error");
    reveal_strlit("message");
    reveal_strlit("reason");
    assert("type"@.len() == 4 && "session_id"@.len() == 10 && "request_id"@.len() == 10
        && "event"@.len() == 5 && "event_id"@.len() == 8 && "text"@.len() == 4
        && "data"@.len() == 4 && "error"@.len() == 5 && "message"@.len() == 7
        && "reason"@.len() == 6);
    assert("type"@[1] != "text"@[1]);
    assert("type"@[0] != "data"@[0]);
    assert("session_id"@[0] != "request_id"@[0]);
    assert("event"@[1] != "error"@[1]);
    assert("text"@[0] != "data"@[0]);
    assert(hello_frame(session_id, request_id)->Object_0.dom() =~= set![
        "type"@,
        "session_id"@,
        "request_id"@,
    ]);
    assert(event_frame(event)->Object_0.dom() =~= set!["type"@, "event"@]);
    assert(delta_frame(session_id, text)->Object_0.dom() =~= set![
        "type"@,
        "event_id"@,
        "text"@,
    ]);
    assert(sent_frame(event)->Object_0.dom() =~= set!["type"@, "data"@]);
    assert(error_frame(e)->Object_0.dom() =~= set!["type"@, "error"@]);
    assert(pong_frame()->Object_0.dom() =~= set!["type"@]);
    assert(closed_frame(text)->Object_0.dom() =~= set!["type"@, "reason"@]);
}

/// A `tool_result` frame answers the tool call that it names with what the tool
/// returned: it leads to a call just where the client may write and the frame has a
/// plain id and a text. The call then posts one result, with the frame's own id,
/// its own content, and its own mark of an error.
pub proof fn a_tool_result_carries_what_the_tool_returned(
    scopes: Set<Scope>,
    session_id: Seq<char>,
    frame: JsonView,
)
    requires
        text_field(frame, "type"@) == Some("tool_result"@),
    ensures
        handled(scopes, session_id, Ok(frame)) is Ask <==> {
            &&& scopes.contains(Scope::SessionsWrite)
            &&& text_field(frame, "content"@) is Some
            &&& text_field(frame, "custom_tool_use_id"@) matches Some(id) && spelled(
                id,
                128,
                |c: char| plain_char(c),
            )
        },
        handled(scopes, session_id, Ok(frame)) matches HandledView::Ask(call) ==> {
            &&& call.method == Method::Post
            &&& call.path == "/sessions/"@ + session_id + "/tool-results"@
            &&& call.query.len() == 0
            &&& call.body matches Some(body) && {
                let results = items_field(body, "results"@);
                &&& results.len() == 1
                &&& text_field(results[0], "content"@) == text_field(frame, "content"@)
                &&& text_field(results[0], "custom_tool_use_id"@) == text_field(
                    frame,
                    "custom_tool_use_id"@,
                )
                &&& bool_field(results[0], "is_error"@) == Some(true) <==> bool_field(
                    frame,
                    "is_error"@,
                ) == Some(true)
            }
        },
{
    reveal_strlit("ping");
    reveal_strlit("message");
    reveal_strlit("tool_result");
    reveal_strlit("interrupt");
    reveal_strlit("results");
    reveal_strlit("content");
    reveal_strlit("custom_tool_use_id");
    reveal_strlit("is_error");
    assert("ping"@.len() == 4 && "message"@.len() == 7 && "tool_result"@.len() == 11
        && "interrupt"@.len() == 9 && "results"@.len() == 7 && "content"@.len() == 7
        && "custom_tool_use_id"@.len() == 18 && "is_error"@.len() == 8);
    assert("message"@[0] != "results"@[0]);
    assert("message"@[0] != "content"@[0]);
    assert("results"@[0] != "content"@[0]);
    if let Some(result) = tool_result_of(frame) {
        results_are_good_where_their_ids_are(seq![result]);
        assert(seq![result][0] == result);
        results_read_back(seq![result]);
        let body = results_document(seq![result]);
        let items = items_field(body, "results"@);
        assert(items.map_values(|v: JsonView| result_read(v)).len() == 1);
        assert(items.map_values(|v: JsonView| result_read(v))[0] == result);
        assert(items[0] == crate::v1::sessions::result_document(result));
    }
}

/// A `message` frame sends its task: it leads to a call just where the client may
/// write and the task says something. The call then posts the task to the session,
/// without white space around it.
pub proof fn a_message_carries_its_task(
    scopes: Set<Scope>,
    session_id: Seq<char>,
    frame: JsonView,
)
    requires
        text_field(frame, "type"@) == Some("message"@),
    ensures
        handled(scopes, session_id, Ok(frame)) is Ask <==> {
            &&& scopes.contains(Scope::SessionsWrite)
            &&& text_field(frame, "task"@) matches Some(task) && trimmed(task).len() > 0
        },
        handled(scopes, session_id, Ok(frame)) matches HandledView::Ask(call) ==> {
            &&& call.method == Method::Post
            &&& call.path == "/sessions/"@ + session_id + "/events"@
            &&& call.body matches Some(body) && has_just(body, set!["task"@]) && text_field(
                body,
                "task"@,
            ) == Some(trimmed(text_field(frame, "task"@)->0))
        },
{
    reveal_strlit("ping");
    reveal_strlit("message");
    reveal_strlit("tool_result");
    reveal_strlit("interrupt");
    assert("ping"@.len() == 4 && "message"@.len() == 7 && "tool_result"@.len() == 11
        && "interrupt"@.len() == 9);
    a_task_reads_back(trimmed(text_or_empty(frame, "task"@)));
}

/// An `interrupt` frame interrupts the session, where the client may write. A `ping`
/// is answered by a `pong`, whoever sends it. What is of no such type, or is not
/// JSON, is a bad request.
pub proof fn other_frames_do_what_they_say(
    scopes: Set<Scope>,
    session_id: Seq<char>,
    frame: JsonView,
    why: Seq<char>,
)
    ensures
        text_field(frame, "type"@) == Some("interrupt"@) && scopes.contains(Scope::SessionsWrite)
            ==> (handled(scopes, session_id, Ok(frame)) matches HandledView::Ask(call)
            && call.method == Method::Post && call.path == "/sessions/"@ + session_id
            + "/interrupt"@ && call.body == Some(JsonView::Null)),
        text_field(frame, "type"@) == Some("ping"@) ==> handled(scopes, session_id, Ok(frame))
            == HandledView::Reply(pong_frame()),
        !(text_field(frame, "type"@) matches Some(kind) && (kind == "message"@ || kind
            == "tool_result"@ || kind == "interrupt"@ || kind == "ping"@)) ==> (handled(
            scopes,
            session_id,
            Ok(frame),
        ) matches HandledView::Reply(reply) && text_in(reply, "error"@, "type"@) == Some(
            "invalid_request"@,
        )),
        handled(scopes, session_id, Err(why)) matches HandledView::Reply(reply) && text_in(
            reply,
            "error"@,
            "type"@,
        ) == Some("invalid_request"@),
{
    reveal_strlit("ping");
    reveal_strlit("message");
    reveal_strlit("tool_result");
    reveal_strlit("interrupt");
    assert("ping"@.len() == 4 && "message"@.len() == 7 && "tool_result"@.len() == 11
        && "interrupt"@.len() == 9);
    let unknown = ErrorView::InvalidRequest(
        "unknown frame type `"@ + text_or_empty(frame, "type"@)
            + "`; expected message, tool_result, interrupt or ping"@,
    );
    frames_say_what_they_carry(session_id, why, frame, why, unknown);
    frames_say_what_they_carry(
        session_id,
        why,
        frame,
        why,
        ErrorView::InvalidRequest("frame is not JSON: "@ + why),
    );
}

/// With deltas, a fragment is passed on with the id of its event and its own text;
/// without, it is an event like any other.
pub proof fn a_fragment_is_passed_on_as_its_text(
    b: BridgeView,
    event: JsonView,
    event_id: Seq<char>,
    text: Seq<char>,
)
    requires
        b.phase == Phase::Live,
        text_field(event, "type"@) == Some("event_delta"@),
        text_field(event, "event_id"@) == Some(event_id),
        field_in(event, "delta"@, "content"@) matches Some(content) && text_field(
            content,
            "text"@,
        ) == Some(text),
    ensures
        b.deltas ==> {
            let send = stepped(b, EventView::Upstream(event)).1.send;
            &&& send.len() == 1
            &&& text_field(send[0], "type"@) == Some("delta"@)
            &&& text_field(send[0], "event_id"@) == Some(event_id)
            &&& text_field(send[0], "text"@) == Some(text)
        },
        !b.deltas && text_field(event, "id"@) is None ==> stepped(
            b,
            EventView::Upstream(event),
        ).1.send == seq![event_frame(event)],
{
    reveal_strlit("event_start");
    reveal_strlit("event_delta");
    assert("event_start"@.len() == 11 && "event_delta"@.len() == 11);
    assert("event_start"@[6] != "event_delta"@[6]);
    frames_say_what_they_carry(event_id, text, event, text, ErrorView::NotFound);
}

/// History is shown oldest first: of events with ids of their own that were not
/// shown yet, each has its frame, in the order of the pages.
pub proof fn history_is_shown_in_order(b: BridgeView, envelope: JsonView)
    requires
        b.phase == Phase::Listing,
        !(text_field(envelope, "next_page"@) matches Some(page) && page.len() > 0),
        ({
            let events = b.collected + items_field(envelope, "data"@);
            &&& forall|i: int|
                0 <= i < events.len() ==> (text_field(#[trigger] events[i], "id"@) matches Some(id)
                    && !b.seen.contains(id))
            &&& forall|i: int, j: int|
                0 <= i < j < events.len() ==> text_field(#[trigger] events[i], "id"@)
                    != text_field(#[trigger] events[j], "id"@)
        }),
    ensures
        stepped(b, EventView::Answered(Ok(envelope))).1.send == (b.collected + items_field(
            envelope,
            "data"@,
        )).map_values(|event: JsonView| event_frame(event)),
        stepped(b, EventView::Answered(Ok(envelope))).0.phase == Phase::Live,
{
    new_events_are_all_shown(b.seen, b.collected + items_field(envelope, "data"@));
}

proof fn new_events_are_all_shown(seen: Set<Seq<char>>, events: Seq<JsonView>)
    requires
        forall|i: int|
            0 <= i < events.len() ==> (text_field(#[trigger] events[i], "id"@) matches Some(id)
                && !seen.contains(id)),
        forall|i: int, j: int|
            0 <= i < j < events.len() ==> text_field(#[trigger] events[i], "id"@) != text_field(
                #[trigger] events[j],
                "id"@,
            ),
    ensures
        delivered_all(seen, events).1 == events.map_values(|event: JsonView| event_frame(event)),
        forall|id: Seq<char>| #[trigger]
            delivered_all(seen, events).0.contains(id) <==> seen.contains(id) || exists|i: int|
                0 <= i < events.len() && text_field(#[trigger] events[i], "id"@) == Some(id),
    decreases events.len(),
{
    let frames = events.map_values(|event: JsonView| event_frame(event));
    if events.len() == 0 {
        assert(delivered_all(seen, events).1 =~= frames);
    } else {
        let earlier = events.drop_last();
        new_events_are_all_shown(seen, earlier);
        let known = delivered_all(seen, earlier).0;
        let id = text_field(events.last(), "id"@)->0;
        assert(!known.contains(id)) by {
            if known.contains(id) {
                assert(events[events.len() - 1] == events.last());
                let i = choose|i: int|
                    0 <= i < earlier.len() && text_field(#[trigger] earlier[i], "id"@) == Some(id);
                assert(earlier[i] == events[i]);
            }
        }
        assert(delivered_all(seen, events).1 =~= frames);
        assert forall|other: Seq<char>| #[trigger]
            delivered_all(seen, events).0.contains(other) <==> seen.contains(other) || exists|
                i: int,
            |
                0 <= i < events.len() && text_field(#[trigger] events[i], "id"@) == Some(other) by {
            if known.contains(other) && !seen.contains(other) {
                let i = choose|i: int|
                    0 <= i < earlier.len() && text_field(#[trigger] earlier[i], "id"@) == Some(
                        other,
                    );
                assert(events[i] == earlier[i]);
            }
            assert(events[events.len() - 1] == events.last());
            if exists|i: int|
                0 <= i < events.len() && text_field(#[trigger] events[i], "id"@) == Some(other) {
                let i = choose|i: int|
                    0 <= i < events.len() && text_field(#[trigger] events[i], "id"@) == Some(other);
                if i < earlier.len() {
                    assert(earlier[i] == events[i]);
                }
            }
        }
    }
}

/// History is listed from the session's own events, a thousand at a time, page by
/// page: as long as an answer names a next page, that page is asked for, and what
/// was answered is kept.
pub proof fn history_is_followed_page_by_page(b: BridgeView, envelope: JsonView, page: Seq<char>)
    requires
        b.phase == Phase::Listing,
        text_field(envelope, "next_page"@) == Some(page),
        page.len() > 0,
    ensures
        ({
            let (after, action) = stepped(b, EventView::Answered(Ok(envelope)));
            &&& after.collected == b.collected + items_field(envelope, "data"@)
            &&& after.phase == Phase::Listing
            &&& action.send.len() == 0
            &&& action.next matches NextView::Ask(call) && call.method == Method::Get && call.path
                == "/sessions/"@ + b.session_id + "/events"@ && call.query == seq![
                ("limit"@, "1000"@),
                ("page"@, page),
            ]
        }),
{
    assert(seq![("limit"@, "1000"@)].push(("page"@, page)) =~= seq![
        ("limit"@, "1000"@),
        ("page"@, page),
    ]);
}

/// A socket that opens is greeted, and its history is listed first, unless the
/// client asked for none.
pub proof fn history_comes_unless_it_is_declined(b: BridgeView)
    requires
        b.phase == Phase::Opening,
    ensures
        b.history ==> (stepped(b, EventView::Opened).1.next matches NextView::Ask(call)
            && call.method == Method::Get && call.path == "/sessions/"@ + b.session_id
            + "/events"@ && call.query == seq![("limit"@, "1000"@)]),
        !b.history ==> stepped(b, EventView::Opened).1.next == NextView::Listen,
{
}

/// What the control plane answered to a client frame is what the client is sent.
pub proof fn an_answer_is_sent_on(b: BridgeView, answer: JsonView)
    requires
        b.phase == Phase::Posting,
    ensures
        ({
            let send = stepped(b, EventView::Answered(Ok(answer))).1.send;
            &&& send.len() == 1
            &&& text_field(send[0], "type"@) == Some("sent"@)
            &&& field(answer, "data"@) is Some ==> field(send[0], "data"@) == field(
                answer,
                "data"@,
            )
        }),
        stepped(b, EventView::Answered(Ok(answer))).0.phase == Phase::Live,
{
    frames_say_what_they_carry(b.session_id, b.request_id, answer, b.session_id, ErrorView::NotFound);
}

/// The live stream is the session's own; fragments are asked for where the client
/// wants them, and only then.
pub proof fn the_live_stream_is_asked_for(session_id: Seq<char>, deltas: Option<bool>)
    ensures
        stream_call(session_id, deltas).method == Method::Get,
        stream_call(session_id, deltas).path == "/sessions/"@ + session_id + "/stream"@,
        stream_call(session_id, deltas).body is None,
        deltas == Some(true) ==> stream_call(session_id, deltas).query == seq![
            ("event_deltas"@, "agent.message"@),
        ],
        deltas != Some(true) ==> stream_call(session_id, deltas).query.len() == 0,
{
    if deltas == Some(true) {
        assert(stream_call(session_id, deltas).query =~= seq![
            ("event_deltas"@, "agent.message"@),
        ]);
    }
}

/// A socket is opened by who may read, for a session whose id is spelled right.
pub proof fn a_reader_opens_a_socket(scopes: Set<Scope>, session_id: Seq<char>, deltas: Option<bool>)
    ensures
        connect_route(scopes, session_id, deltas) is Ok <==> scopes.contains(Scope::SessionsRead)
            && spelled(session_id, 128, |c: char| plain_char(c)),
        connect_route(scopes, session_id, deltas) matches Ok(call) ==> call == stream_call(
            session_id,
            deltas,
        ),
        !scopes.contains(Scope::SessionsRead) ==> connect_route(scopes, session_id, deltas) == Err::<
            CallView,
            ErrorView,
        >(ErrorView::Forbidden("sessions:read"@)),
{
    crate::v1::sessions::a_call_goes_to_its_session(
        session_id,
        Seq::empty(),
        Ok(stream_call(session_id, deltas)),
    );
}

/// A conversation begins with nothing shown. It has history unless the client
/// declines it, and no deltas unless the client asks for them.
pub proof fn a_conversation_begins_anew(
    scopes: Set<Scope>,
    session_id: Seq<char>,
    request_id: Seq<char>,
    q: WsQuery,
)
    ensures
        ({
            let b = opening(scopes, session_id, request_id, q);
            &&& b.session_id == session_id
            &&& b.request_id == request_id
            &&& b.scopes == scopes
            &&& b.phase == Phase::Opening
            &&& q.history is None || q.history == Some(true) ==> b.history
            &&& q.history == Some(false) ==> !b.history
            &&& q.deltas is None || q.deltas == Some(false) ==> !b.deltas
            &&& q.deltas == Some(true) ==> b.deltas
            &&& forall|id: Seq<char>| !(#[trigger] b.seen.contains(id))
            &&& b.collected.len() == 0
        }),
{
}

/// Whatever happens, a conversation stays that of its session, its request and its
/// client.
pub proof fn a_conversation_stays_its_own(b: BridgeView, event: EventView)
    ensures
        ({
            let after = stepped(b, event).0;
            &&& after.session_id == b.session_id
            &&& after.request_id == b.request_id
            &&& after.history == b.history
            &&& after.deltas == b.deltas
            &&& after.scopes == b.scopes
        }),
{
}

/// What happens where: a socket opens once, answers come while something is asked,
/// events and frames while it is live, and a client can leave until it is over.
pub proof fn what_can_happen_where(phase: Phase, event: EventView)
    ensures
        phase == Phase::Opening ==> (expected(phase, event) <==> event is Opened || event
            is ClientGone),
        phase == Phase::Listing || phase == Phase::Posting ==> (expected(phase, event) <==> event
            is Answered || event is ClientGone),
        phase == Phase::Live ==> (expected(phase, event) <==> event is Upstream || event
            is UpstreamEnded || event is Client || event is ClientGone),
        phase == Phase::Closed ==> !expected(phase, event),
{
}

/// A history that cannot be listed is told as an error, and the conversation goes on
/// live: what is live is then shown.
pub proof fn a_failed_history_is_told(b: BridgeView, e: ErrorView)
    requires
        b.phase == Phase::Listing,
    ensures
        ({
            let (after, action) = stepped(b, EventView::Answered(Err(e)));
            &&& after.phase == Phase::Live
            &&& after.seen == b.seen
            &&& action.next == NextView::Listen
            &&& action.send.len() == 1
            &&& text_field(action.send[0], "type"@) == Some("error"@)
            &&& text_in(action.send[0], "error"@, "message"@) == Some(public_message(e))
        }),
{
    frames_say_what_they_carry(b.session_id, b.request_id, JsonView::Null, b.session_id, e);
}

/// How a conversation ends: where the live stream does, the client is told so and the
/// socket is closed; where the client leaves, nothing more is sent.
pub proof fn how_a_conversation_ends(b: BridgeView)
    ensures
        stepped(b, EventView::UpstreamEnded).0.phase == Phase::Closed,
        stepped(b, EventView::UpstreamEnded).1.next == NextView::Close,
        stepped(b, EventView::UpstreamEnded).1.send.len() == 1,
        text_field(stepped(b, EventView::UpstreamEnded).1.send[0], "type"@) == Some("closed"@),
        text_field(stepped(b, EventView::UpstreamEnded).1.send[0], "reason"@) == Some(
            "upstream_closed"@,
        ),
        stepped(b, EventView::ClientGone).0.phase == Phase::Closed,
        stepped(b, EventView::ClientGone).1.next == NextView::Drop,
        stepped(b, EventView::ClientGone).1.send.len() == 0,
{
    frames_say_what_they_carry(
        b.session_id,
        b.request_id,
        JsonView::Null,
        "upstream_closed"@,
        ErrorView::NotFound,
    );
}

/// What a client frame asks for is asked, and its answer is waited for; what it is
/// answered at once is sent.
pub proof fn a_client_frame_is_acted_on(b: BridgeView, text: Seq<char>)
    requires
        b.phase == Phase::Live,
    ensures
        ({
            let (after, action) = stepped(b, EventView::Client(text));
            match handled(b.scopes, b.session_id, parsed_json(text)) {
                HandledView::Ask(call) => after.phase == Phase::Posting && action.next
                    == NextView::Ask(call) && action.send.len() == 0,
                HandledView::Reply(frame) => after.phase == Phase::Live && action.next
                    == NextView::Listen && action.send == seq![frame],
            }
        }),
        stepped(b, EventView::Client(text)).0.seen == b.seen,
{
}

/// With deltas, the start of an event is not shown, and neither is a fragment that
/// does not say what it is of or has no text.
pub proof fn empty_previews_are_not_shown(b: BridgeView, event: JsonView)
    requires
        b.phase == Phase::Live,
        b.deltas,
        text_field(event, "type"@) == Some("event_start"@) || (text_field(event, "type"@) == Some(
            "event_delta"@,
        ) && (text_field(event, "event_id"@) is None || !(field_in(
            event,
            "delta"@,
            "content"@,
        ) matches Some(content) && text_field(content, "text"@) is Some))),
    ensures
        stepped(b, EventView::Upstream(event)).1.send.len() == 0,
        stepped(b, EventView::Upstream(event)).0.seen == b.seen,
{
    reveal_strlit("event_start");
    reveal_strlit("event_delta");
    assert("event_start"@.len() == 11 && "event_delta"@.len() == 11);
    assert("event_start"@[6] != "event_delta"@[6]);
}

/// Why a frame is refused is told: that the client may not write, that a message has
/// no task, that a result lacks a member, that the type is unknown, or that it is no
/// JSON.
pub proof fn a_refused_frame_is_told_why(
    scopes: Set<Scope>,
    session_id: Seq<char>,
    frame: JsonView,
    why: Seq<char>,
)
    ensures
        ({
            let kind = text_field(frame, "type"@);
            let reply = handled(scopes, session_id, Ok(frame));
            let writes = kind == Some("message"@) || kind == Some("tool_result"@) || kind == Some(
                "interrupt"@,
            );
            let may = scopes.contains(Scope::SessionsWrite);
            &&& writes && !may ==> reply == HandledView::Reply(
                error_frame(ErrorView::Forbidden("sessions:write"@)),
            )
            &&& may && kind == Some("message"@) && trimmed(text_or_empty(frame, "task"@)).len() == 0
                ==> reply == HandledView::Reply(
                error_frame(ErrorView::InvalidRequest("`task` must be a non-empty string"@)),
            )
            &&& may && kind == Some("tool_result"@) && (text_field(frame, "content"@) is None
                || text_field(frame, "custom_tool_use_id"@) is None) ==> reply
                == HandledView::Reply(
                error_frame(
                    ErrorView::InvalidRequest(
                        "`custom_tool_use_id` and `content` must be strings"@,
                    ),
                ),
            )
            &&& !writes && kind != Some("ping"@) ==> reply == HandledView::Reply(
                error_frame(
                    ErrorView::InvalidRequest(
                        "unknown frame type `"@ + text_or_empty(frame, "type"@)
                            + "`; expected message, tool_result, interrupt or ping"@,
                    ),
                ),
            )
        }),
        handled(scopes, session_id, Err(why)) == HandledView::Reply(
            error_frame(ErrorView::InvalidRequest("frame is not JSON: "@ + why)),
        ),
{
    reveal_strlit("ping");
    reveal_strlit("message");
    reveal_strlit("tool_result");
    reveal_strlit("interrupt");
    assert("ping"@.len() == 4 && "message"@.len() == 7 && "tool_result"@.len() == 11
        && "interrupt"@.len() == 9);
    reveal_strlit("");
}

/// The live stream's events are what its frames carry as JSON, in order; a frame whose
/// data is something else carries none.
pub proof fn each_frame_carries_its_event(frames: Seq<SseFrameView>, frame: SseFrameView)
    ensures
        parsed_json(frame.data) matches Ok(event) ==> events_of(frames.push(frame)) == events_of(
            frames,
        ).push(event),
        parsed_json(frame.data) is Err ==> events_of(frames.push(frame)) == events_of(frames),
        events_of(Seq::empty()).len() == 0,
{
    assert(frames.push(frame).drop_last() =~= frames);
}

} // verus!
