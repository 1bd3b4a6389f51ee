//! The control plane, the API's one upstream for the fleet: what is asked of
//! it, and how its refusals read.
//!
//! A route that talks to the control plane first decides on a [`Call`]; the
//! HTTP client performs it with the gateway's own credential, so that a
//! client's key never travels further than this process. A non-2xx is reduced
//! to [`Error::Upstream`] by [`upstream_error`]; [`crate::error`] decides what
//! the client sees.

use crate::error::{canonical_reason, reason_phrase, Error, ErrorView};
use crate::json::{or_null, parsed_json, text_in, Json, JsonView};
use crate::text::{cat2, parse_number, trim_end_of, without_trailing, written_number};
use vstd::prelude::*;

verus! {

#[derive(Debug, Clone, Copy, PartialEq, Eq, Structural)]
pub enum Method {
    Get,
    Post,
}

/// One request to the control plane.
pub struct Call {
    pub method: Method,
    pub path: String,
    pub query: Vec<(String, String)>,
    pub body: Option<Json>,
}

#[verifier::ext_equal]
pub struct CallView {
    pub method: Method,
    pub path: Seq<char>,
    pub query: Seq<(Seq<char>, Seq<char>)>,
    pub body: Option<JsonView>,
}

impl View for Call {
    type V = CallView;

    open spec fn view(&self) -> CallView {
        CallView {
            method: self.method,
            path: self.path@,
            query: self.query.deep_view(),
            body: self.body.deep_view(),
        }
    }
}

impl DeepView for Call {
    type V = CallView;

    open spec fn deep_view(&self) -> CallView {
        self@
    }
}

/// `GET path`.
pub open spec fn getting(path: Seq<char>, query: Seq<(Seq<char>, Seq<char>)>) -> CallView {
    CallView { method: Method::Get, path, query, body: None }
}

/// `POST path` with a JSON body.
pub open spec fn posting(path: Seq<char>, body: JsonView) -> CallView {
    CallView { method: Method::Post, path, query: Seq::empty(), body: Some(body) }
}

impl Call {
    /// `GET path` with that query.
    pub fn get(path: String, query: Vec<(String, String)>) -> (r: Call)
        ensures
            r@ == getting(path@, query.deep_view()),
    {
        Call { method: Method::Get, path, query, body: None }
    }

    /// `POST path` with that JSON body.
    pub fn post(path: String, body: Json) -> (r: Call)
        ensures
            r@ == posting(path@, body@),
    {
        let query: Vec<(String, String)> = Vec::new();
        assert(query.deep_view() =~= Seq::<(Seq<char>, Seq<char>)>::empty());
        Call { method: Method::Post, path, query, body: Some(body) }
    }

}

/// A request as it goes out: the whole address, and the bearer it carries.
pub struct Request {
    pub method: Method,
    pub url: String,
    pub bearer: String,
    pub query: Vec<(String, String)>,
    pub body: Option<Json>,
}

/// The control plane: where it is, and the gateway's own credential there.
pub struct ControlPlane {
    base_url: String,
    token: String,
}

impl ControlPlane {
    /// The address without a trailing `/`.
    pub closed spec fn address(self) -> Seq<char> {
        self.base_url@
    }

    /// The gateway's credential.
    pub closed spec fn credential(self) -> Seq<char> {
        self.token@
    }

    pub fn new(base_url: &str, token: &str) -> (r: ControlPlane)
        ensures
            r.address() == without_trailing(base_url@, '/'),
            r.credential() == token@,
    {
        ControlPlane { base_url: trim_end_of(base_url, '/').to_owned(), token: token.to_owned() }
    }

    pub fn base_url(&self) -> (r: &str)
        ensures
            r@ == self.address(),
    {
        self.base_url.as_str()
    }

    /// The call as it goes out. Whoever asked for it, it carries the gateway's
    /// credential and no other.
    pub fn request(&self, call: Call) -> (r: Request)
        ensures
            r.method == call@.method,
            r.url@ == self.address() + call@.path,
            r.bearer@ == self.credential(),
            r.query.deep_view() == call@.query,
            r.body.deep_view() == call@.body,
    {
        Request {
            method: call.method,
            url: cat2(self.base_url.as_str(), call.path.as_str()),
            bearer: self.token.clone(),
            query: call.query,
            body: call.body,
        }
    }
}

/// A query with the pair added where there is a value.
pub open spec fn with_param(
    query: Seq<(Seq<char>, Seq<char>)>,
    name: Seq<char>,
    value: Option<Seq<char>>,
) -> Seq<(Seq<char>, Seq<char>)> {
    match value {
        Some(value) => query.push((name, value)),
        None => query,
    }
}

/// Adds the pair where there is a value.
pub fn add_param(query: &mut Vec<(String, String)>, name: &str, value: Option<&str>)
    ensures
        final(query).deep_view() == with_param(
            old(query).deep_view(),
            name@,
            value.deep_view(),
        ),
{
    let ghost before = query.deep_view();
    match value {
        Some(value) => {
            query.push((name.to_owned(), value.to_owned()));
            assert(query.deep_view() =~= before.push((name@, value@)));
        },
        None => {},
    }
}

/// What a refusal of the control plane is reduced to: its own type and message
/// where its body gives them, else that it came from upstream and what its
/// status means.
pub open spec fn refusal(
    status: u16,
    retry_after: Option<Seq<char>>,
    body: JsonView,
    phrase: Option<Seq<char>>,
) -> ErrorView {
    ErrorView::Upstream {
        status,
        kind: match text_in(body, "error"@, "type"@) {
            Some(kind) => kind,
            None => "upstream"@,
        },
        message: match text_in(body, "error"@, "message"@) {
            Some(message) => message,
            None => match phrase {
                Some(phrase) => phrase,
                None => "upstream error"@,
            },
        },
        retry_after: seconds_of(retry_after),
    }
}

/// The seconds that a `Retry-After` header asks for, where it is a number.
pub open spec fn seconds_of(retry_after: Option<Seq<char>>) -> Option<u32> {
    match retry_after {
        Some(text) => match written_number(text, u32::MAX as nat) {
            Some(n) => Some(n as u32),
            None => None,
        },
        None => None,
    }
}

/// The seconds that a `Retry-After` header asks for, where it is a number.
pub fn retry_after_secs(header: Option<&str>) -> (r: Option<u32>)
    ensures
        r == seconds_of(header.deep_view()),
{
    match header {
        Some(text) => parse_number(text, u32::MAX),
        None => None,
    }
}

/// Reduce a non-2xx control-plane response to [`Error::Upstream`].
pub fn upstream_error(status: u16, retry_after: Option<&str>, body: &str) -> (r: Error)
    ensures
        r@ == refusal(
            status,
            retry_after.deep_view(),
            or_null(parsed_json(body@)),
            reason_phrase(status),
        ),
{
    let body = Json::parse_or_null(body);
    upstream_error_of(status, retry_after, &body, canonical_reason(status))
}

/// The same, given the body as a document and the standard phrase of the status.
pub fn upstream_error_of(
    status: u16,
    retry_after: Option<&str>,
    body: &Json,
    phrase: Option<&str>,
) -> (r: Error)
    ensures
        r@ == refusal(status, retry_after.deep_view(), body@, phrase.deep_view()),
{
    let kind = match body.text_within("error", "type") {
        Some(kind) => kind.to_owned(),
        None => "upstream".to_owned(),
    };
    let message = match body.text_within("error", "message") {
        Some(message) => message.to_owned(),
        None => match phrase {
            Some(phrase) => phrase.to_owned(),
            None => "upstream error".to_owned(),
        },
    };
    Error::Upstream { status, kind, message, retry_after: retry_after_secs(retry_after) }
}

// ---- laws ---------------------------------------------------------------------------

/// A refusal is told in the control plane's own words: its type and its message,
/// with its status and the seconds that it asks to wait. Without words it came from
/// upstream, and says what its status means.
pub proof fn a_refusal_keeps_its_words(
    status: u16,
    secs: u32,
    body: JsonView,
    kind: Seq<char>,
    message: Seq<char>,
    phrase: Seq<char>,
)
    ensures
        text_in(body, "error"@, "type"@) == Some(kind) && text_in(body, "error"@, "message"@)
            == Some(message) ==> refusal(
            status,
            Some(crate::text::decimal(secs as nat)),
            body,
            Some(phrase),
        ) == (ErrorView::Upstream { status, kind, message, retry_after: Some(secs) }),
        refusal(status, None, JsonView::Null, Some(phrase)) == (ErrorView::Upstream {
            status,
            kind: "upstream"@,
            message: phrase,
            retry_after: None,
        }),
{
    crate::text::a_decimal_reads_back(secs as nat, u32::MAX as nat);
}

/// A call asks for what it names and nothing else: a `GET` carries its query and no
/// body, a `POST` its body and no query.
pub proof fn a_call_is_what_it_names(
    path: Seq<char>,
    query: Seq<(Seq<char>, Seq<char>)>,
    body: JsonView,
)
    ensures
        getting(path, query).method == Method::Get,
        getting(path, query).path == path,
        getting(path, query).query == query,
        getting(path, query).body is None,
        posting(path, body).method == Method::Post,
        posting(path, body).path == path,
        posting(path, body).query.len() == 0,
        posting(path, body).body == Some(body),
{
}

/// Each part of a refusal has its own source: the type and the message come from the
/// body where it has them, each alone; else the type is `upstream`, and the message is
/// the phrase of the status, where there is one.
pub proof fn each_part_of_a_refusal_has_its_source(
    status: u16,
    retry_after: Option<Seq<char>>,
    body: JsonView,
    phrase: Option<Seq<char>>,
)
    ensures
        refusal(status, retry_after, body, phrase) matches ErrorView::Upstream {
            status: told,
            kind,
            message,
            retry_after: wait,
        } && {
            &&& told == status
            &&& wait == seconds_of(retry_after)
            &&& text_in(body, "error"@, "type"@) matches Some(given) ==> kind == given
            &&& text_in(body, "error"@, "type"@) is None ==> kind == "upstream"@
            &&& text_in(body, "error"@, "message"@) matches Some(given) ==> message == given
            &&& text_in(body, "error"@, "message"@) is None ==> (phrase matches Some(given)
                ==> message == given)
            &&& text_in(body, "error"@, "message"@) is None && phrase is None ==> message
                == "upstream error"@
        },
{
}

/// A wait is read where it is written as a number of seconds; without a header, or
/// with another text, there is none.
pub proof fn a_wait_is_read_as_seconds(secs: u32, text: Seq<char>)
    ensures
        seconds_of(Some(crate::text::decimal(secs as nat))) == Some(secs),
        seconds_of(None) is None,
        written_number(text, 0xffff_ffff) is None ==> seconds_of(Some(text)) is None,
{
    crate::text::a_decimal_reads_back(secs as nat, u32::MAX as nat);
}

/// A parameter is added where it has a value, behind those that are there.
pub proof fn a_param_is_added_where_it_has_a_value(
    query: Seq<(Seq<char>, Seq<char>)>,
    name: Seq<char>,
    value: Seq<char>,
)
    ensures
        with_param(query, name, Some(value)).len() == query.len() + 1,
        with_param(query, name, Some(value)).last() == (name, value),
        with_param(query, name, Some(value)).drop_last() == query,
        with_param(query, name, None) == query,
{
    assert(with_param(query, name, Some(value)).drop_last() =~= query);
}

} // verus!
