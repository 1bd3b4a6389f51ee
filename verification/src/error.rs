//! One error type, one wire shape. Every failure a client can see leaves as
//!
//! ```json
//! {"error":{"type":"unauthorized","message":"…","request_id":"req_…"}}
//! ```
//!
//! [`Error::envelope`] is that body without the request id, which
//! [`crate::request_id`] adds. What the web framework rejects on its own (bad
//! JSON, an unknown route, a wrong method) arrives as plain text and is folded
//! into the same envelope by [`envelope_for_status`]: a client never has to
//! parse two shapes.

use crate::text::{begins_with, cat3, cat5, decimal, lowercase, lowered, number, same, starts_with};
use vstd::prelude::*;

verus! {

/// A request that got no answer: whether it timed out, whether it failed while
/// connecting, and what the client said about it.
#[derive(Debug)]
pub struct Transport {
    pub timed_out: bool,
    pub connecting: bool,
    pub text: String,
}

#[derive(Debug)]
pub enum Error {
    // Startup only: never reaches a response.
    Config(String),
    // Caller errors.
    Unauthorized,
    Forbidden(&'static str),
    NotFound,
    InvalidRequest(String),
    RateLimited { retry_after_secs: u32 },
    // Our side and upstream.
    Db(String),
    /// A non-2xx from upstream, already reduced to its own
    /// `{error:{type,message}}` body. `status` is the upstream status; `kind`
    /// is upstream's type, which decides ours.
    Upstream { status: u16, kind: String, message: String, retry_after: Option<u32> },
    UpstreamTransport(Transport),
}

#[verifier::ext_equal]
pub enum ErrorView {
    Config(Seq<char>),
    Unauthorized,
    Forbidden(Seq<char>),
    NotFound,
    InvalidRequest(Seq<char>),
    RateLimited { retry_after_secs: u32 },
    Db(Seq<char>),
    Upstream { status: u16, kind: Seq<char>, message: Seq<char>, retry_after: Option<u32> },
    UpstreamTransport { timed_out: bool, connecting: bool, text: Seq<char> },
}

impl View for Error {
    type V = ErrorView;

    open spec fn view(&self) -> ErrorView {
        match self {
            Error::Config(text) => ErrorView::Config(text@),
            Error::Unauthorized => ErrorView::Unauthorized,
            Error::Forbidden(scope) => ErrorView::Forbidden(scope@),
            Error::NotFound => ErrorView::NotFound,
            Error::InvalidRequest(text) => ErrorView::InvalidRequest(text@),
            Error::RateLimited { retry_after_secs } => ErrorView::RateLimited {
                retry_after_secs: *retry_after_secs,
            },
            Error::Db(text) => ErrorView::Db(text@),
            Error::Upstream { status, kind, message, retry_after } => ErrorView::Upstream {
                status: *status,
                kind: kind@,
                message: message@,
                retry_after: *retry_after,
            },
            Error::UpstreamTransport(t) => ErrorView::UpstreamTransport {
                timed_out: t.timed_out,
                connecting: t.connecting,
                text: t.text@,
            },
        }
    }
}

pub type Result<T, E = Error> = std::result::Result<T, E>;

/// A result by what its value and its error stand for.
pub open spec fn outcome<T: DeepView>(r: Result<T, Error>) -> std::result::Result<
    T::V,
    ErrorView,
> {
    match r {
        Ok(v) => Ok(v.deep_view()),
        Err(e) => Err(e@),
    }
}

/// The envelope body minus the request id.
pub struct Envelope {
    pub kind: String,
    pub message: String,
}

#[verifier::ext_equal]
pub struct EnvelopeView {
    pub kind: Seq<char>,
    pub message: Seq<char>,
}

impl View for Envelope {
    type V = EnvelopeView;

    open spec fn view(&self) -> EnvelopeView {
        EnvelopeView { kind: self.kind@, message: self.message@ }
    }
}

/// What went wrong, in the vocabulary of the API.
#[derive(Clone, Copy, PartialEq, Eq, Structural)]
pub enum Class {
    Unauthorized,
    Forbidden,
    NotFound,
    Conflict,
    InvalidRequest,
    RateLimited,
    RigOffline,
    Upstream,
    Internal,
}

/// The class of an upstream failure. What a client can act on keeps its
/// meaning, wherever on the way it arose: the rig is off, a request is bad, a
/// thing does not exist, an environment is not ready. Anything else is the
/// gateway's failure to get an answer.
pub open spec fn upstream_class(status: u16, kind: Seq<char>, message: Seq<char>) -> Class {
    if kind == "rig_offline"@ {
        Class::RigOffline
    } else if kind == "invalid_request"@ {
        Class::InvalidRequest
    } else if kind == "unknown_agent"@ || kind == "unknown_environment"@ || kind == "not_found"@ {
        Class::NotFound
    } else if kind == "environment_not_provisioned"@ {
        Class::Conflict
    } else if kind == "inference"@ && 400 <= status < 500 {
        Class::InvalidRequest
    } else if kind == "upstream"@ && (status == 404 || begins_with(message, "not_found_error"@)) {
        Class::NotFound
    } else if kind == "upstream"@ && (status == 400 || begins_with(
        message,
        "invalid_request_error"@,
    )) {
        Class::InvalidRequest
    } else {
        Class::Upstream
    }
}

pub open spec fn class_of(e: ErrorView) -> Class {
    match e {
        ErrorView::Config(_) => Class::Internal,
        ErrorView::Unauthorized => Class::Unauthorized,
        ErrorView::Forbidden(_) => Class::Forbidden,
        ErrorView::NotFound => Class::NotFound,
        ErrorView::InvalidRequest(_) => Class::InvalidRequest,
        ErrorView::RateLimited { .. } => Class::RateLimited,
        ErrorView::Db(_) => Class::Internal,
        ErrorView::Upstream { status, kind, message, .. } => upstream_class(status, kind, message),
        ErrorView::UpstreamTransport { .. } => Class::Upstream,
    }
}

/// The `type` of a class on the wire.
pub open spec fn kind_of(class: Class) -> Seq<char> {
    match class {
        Class::Unauthorized => "unauthorized"@,
        Class::Forbidden => "forbidden"@,
        Class::NotFound => "not_found"@,
        Class::Conflict => "conflict"@,
        Class::InvalidRequest => "invalid_request"@,
        Class::RateLimited => "rate_limited"@,
        Class::RigOffline => "rig_offline"@,
        Class::Upstream => "upstream"@,
        Class::Internal => "internal"@,
    }
}

/// The HTTP status of a class.
pub open spec fn status_of(class: Class) -> u16 {
    match class {
        Class::Unauthorized => 401,
        Class::Forbidden => 403,
        Class::NotFound => 404,
        Class::Conflict => 409,
        Class::InvalidRequest => 400,
        Class::RateLimited => 429,
        Class::RigOffline => 503,
        Class::Upstream => 502,
        Class::Internal => 500,
    }
}

/// An overloaded voice provider: the one upstream failure that is worth
/// trying again, and so the one that keeps its 503.
pub open spec fn voice_overloaded(e: ErrorView) -> bool {
    e matches ErrorView::Upstream { status, kind, .. } && status == 503 && kind == "voice"@
}

pub open spec fn error_status(e: ErrorView) -> u16 {
    if voice_overloaded(e) {
        503
    } else {
        status_of(class_of(e))
    }
}

/// The error in words, for a log.
pub open spec fn error_text(e: ErrorView) -> Seq<char> {
    match e {
        ErrorView::Config(text) => "config: "@ + text,
        ErrorView::Unauthorized => "unauthorized"@,
        ErrorView::Forbidden(scope) => "missing scope `"@ + scope + "`"@,
        ErrorView::NotFound => "not found"@,
        ErrorView::InvalidRequest(text) => "invalid request: "@ + text,
        ErrorView::RateLimited { .. } => "rate limited"@,
        ErrorView::Db(text) => "database: "@ + text,
        ErrorView::Upstream { status, kind, message, .. } => "upstream "@ + decimal(status as nat)
            + ": "@ + kind + (": "@ + message),
        ErrorView::UpstreamTransport { text, .. } => "upstream transport: "@ + text,
    }
}

/// The message safe to return. Internal failures are not echoed, nor is what
/// the control plane says when it rejects the gateway's own credential.
pub open spec fn public_message(e: ErrorView) -> Seq<char> {
    match e {
        ErrorView::Config(_) | ErrorView::Db(_) => "internal error"@,
        ErrorView::UpstreamTransport { .. } => "could not reach the control plane"@,
        ErrorView::Upstream { status, kind, message, .. } => if status == 401 && kind != "voice"@ {
            "the gateway's control-plane credential was rejected"@
        } else {
            message
        },
        other => error_text(other),
    }
}

/// The seconds after which to try again, where the error says so.
pub open spec fn wait_of(e: ErrorView) -> Option<u32> {
    match e {
        ErrorView::RateLimited { retry_after_secs } => Some(retry_after_secs),
        ErrorView::Upstream { retry_after, .. } => retry_after,
        _ => None,
    }
}

impl Error {
    /// What went wrong, in the vocabulary of the API.
    pub fn class(&self) -> (r: Class)
        ensures
            r == class_of(self@),
    {
        match self {
            Error::Config(_) => Class::Internal,
            Error::Unauthorized => Class::Unauthorized,
            Error::Forbidden(_) => Class::Forbidden,
            Error::NotFound => Class::NotFound,
            Error::InvalidRequest(_) => Class::InvalidRequest,
            Error::RateLimited { .. } => Class::RateLimited,
            Error::Db(_) => Class::Internal,
            Error::Upstream { status, kind, message, .. } => {
                let kind = kind.as_str();
                let message = message.as_str();
                if same(kind, "rig_offline") {
                    Class::RigOffline
                } else if same(kind, "invalid_request") {
                    Class::InvalidRequest
                } else if same(kind, "unknown_agent") || same(kind, "unknown_environment") || same(
                    kind,
                    "not_found",
                ) {
                    Class::NotFound
                } else if same(kind, "environment_not_provisioned") {
                    Class::Conflict
                } else if same(kind, "inference") && 400 <= *status && *status < 500 {
                    Class::InvalidRequest
                } else if same(kind, "upstream") && (*status == 404 || starts_with(
                    message,
                    "not_found_error",
                )) {
                    Class::NotFound
                } else if same(kind, "upstream") && (*status == 400 || starts_with(
                    message,
                    "invalid_request_error",
                )) {
                    Class::InvalidRequest
                } else {
                    Class::Upstream
                }
            },
            Error::UpstreamTransport(_) => Class::Upstream,
        }
    }

    /// Stable machine-readable `type` for the envelope.
    pub fn kind(&self) -> (r: &'static str)
        ensures
            r@ == kind_of(class_of(self@)),
    {
        match self.class() {
            Class::Unauthorized => "unauthorized",
            Class::Forbidden => "forbidden",
            Class::NotFound => "not_found",
            Class::Conflict => "conflict",
            Class::InvalidRequest => "invalid_request",
            Class::RateLimited => "rate_limited",
            Class::RigOffline => "rig_offline",
            Class::Upstream => "upstream",
            Class::Internal => "internal",
        }
    }

    /// The HTTP status it is answered with.
    pub fn status(&self) -> (r: u16)
        ensures
            r == error_status(self@),
    {
        if let Error::Upstream { status, kind, .. } = self {
            if *status == 503 && same(kind.as_str(), "voice") {
                return 503;
            }
        }
        match self.class() {
            Class::Unauthorized => 401,
            Class::Forbidden => 403,
            Class::NotFound => 404,
            Class::Conflict => 409,
            Class::InvalidRequest => 400,
            Class::RateLimited => 429,
            Class::RigOffline => 503,
            Class::Upstream => 502,
            Class::Internal => 500,
        }
    }

    /// The error in words, for a log.
    pub fn text(&self) -> (r: String)
        ensures
            r@ == error_text(self@),
    {
        match self {
            Error::Config(text) => crate::text::cat2("config: ", text.as_str()),
            Error::Unauthorized => "unauthorized".to_owned(),
            Error::Forbidden(scope) => cat3("missing scope `", scope, "`"),
            Error::NotFound => "not found".to_owned(),
            Error::InvalidRequest(text) => crate::text::cat2("invalid request: ", text.as_str()),
            Error::RateLimited { .. } => "rate limited".to_owned(),
            Error::Db(text) => crate::text::cat2("database: ", text.as_str()),
            Error::Upstream { status, kind, message, .. } => {
                let status = number(*status as u128);
                let said = crate::text::cat2(": ", message.as_str());
                cat5("upstream ", status.as_str(), ": ", kind.as_str(), said.as_str())
            },
            Error::UpstreamTransport(t) => crate::text::cat2("upstream transport: ", t.text.as_str()),
        }
    }

    /// Message safe to return. Internal failures are not echoed.
    pub fn public_message(&self) -> (r: String)
        ensures
            r@ == public_message(self@),
    {
        match self {
            Error::Config(_) => "internal error".to_owned(),
            Error::Db(_) => "internal error".to_owned(),
            Error::UpstreamTransport(_) => "could not reach the control plane".to_owned(),
            Error::Upstream { status, kind, message, .. } => if *status == 401 && !same(
                kind.as_str(),
                "voice",
            ) {
                "the gateway's control-plane credential was rejected".to_owned()
            } else {
                message.clone()
            },
            other => other.text(),
        }
    }

    /// The body it is answered with, but for the request id.
    pub fn envelope(&self) -> (r: Envelope)
        ensures
            r@ == (EnvelopeView { kind: kind_of(class_of(self@)), message: public_message(self@) }),
    {
        Envelope { kind: self.kind().to_owned(), message: self.public_message() }
    }

    /// The seconds of its `Retry-After` header, where it has one.
    pub fn retry_after(&self) -> (r: Option<u32>)
        ensures
            r == wait_of(self@),
    {
        match self {
            Error::RateLimited { retry_after_secs } => Some(*retry_after_secs),
            Error::Upstream { retry_after, .. } => *retry_after,
            _ => None,
        }
    }
}

/// The standard phrase of an HTTP status, as the `http` crate has it.
pub uninterp spec fn reason_phrase(status: u16) -> Option<Seq<char>>;

/// `http::StatusCode::canonical_reason`, of a status given by its number: the
/// phrase that the crate's table holds for it, if the number is a status code
/// and stands in the table.
#[verifier::external_body]
pub(crate) fn canonical_reason(status: u16) -> (r: Option<&'static str>)
    ensures
        match r {
            Some(phrase) => reason_phrase(status) == Some(phrase@),
            None => reason_phrase(status) is None,
        },
{
    match http::StatusCode::from_u16(status) {
        Ok(code) => code.canonical_reason(),
        Err(_) => None,
    }
}

/// Its `type` follows the status.
pub open spec fn kind_for_status(status: u16) -> Seq<char> {
    if status == 404 {
        "not_found"@
    } else if status == 405 {
        "method_not_allowed"@
    } else if status == 401 {
        "unauthorized"@
    } else if status == 403 {
        "forbidden"@
    } else if status == 429 {
        "rate_limited"@
    } else if 400 <= status < 500 {
        "invalid_request"@
    } else {
        "internal"@
    }
}

/// Its message is the text, where there is one.
pub open spec fn message_for_status(
    status: u16,
    phrase: Option<Seq<char>>,
    text: Seq<char>,
) -> Seq<char> {
    if text.len() > 0 {
        text
    } else if status == 404 {
        "no such route"@
    } else if status == 405 {
        "method not allowed"@
    } else {
        (match phrase {
            Some(phrase) => phrase,
            None => "error"@,
        }).map_values(|c: char| lowered(c))
    }
}

/// Envelope for a response that the web framework produced on its own
/// (extractor rejections, no matching route or method). The `type` follows the
/// status; the text it wrote is the message.
pub fn envelope_for_status(status: u16, text: &str) -> (r: Envelope)
    ensures
        r@ == (EnvelopeView {
            kind: kind_for_status(status),
            message: message_for_status(status, reason_phrase(status), text@),
        }),
{
    envelope_with_phrase(status, canonical_reason(status), text)
}

/// The same, given the standard phrase of the status.
pub fn envelope_with_phrase(status: u16, phrase: Option<&str>, text: &str) -> (r: Envelope)
    ensures
        r@ == (EnvelopeView {
            kind: kind_for_status(status),
            message: message_for_status(
                status,
                match phrase {
                    Some(phrase) => Some(phrase@),
                    None => None,
                },
                text@,
            ),
        }),
{
    let kind = if status == 404 {
        "not_found"
    } else if status == 405 {
        "method_not_allowed"
    } else if status == 401 {
        "unauthorized"
    } else if status == 403 {
        "forbidden"
    } else if status == 429 {
        "rate_limited"
    } else if 400 <= status && status < 500 {
        "invalid_request"
    } else {
        "internal"
    };
    let message = if text.unicode_len() > 0 {
        text.to_owned()
    } else if status == 404 {
        "no such route".to_owned()
    } else if status == 405 {
        "method not allowed".to_owned()
    } else {
        match phrase {
            Some(phrase) => lowercase(phrase),
            None => lowercase("error"),
        }
    };
    Envelope { kind: kind.to_owned(), message }
}

// ---- laws -----------------------------------------------------------------

/// `type` and status always agree: errors of one `type` are answered with one
/// status, but for a voice provider that asks to be tried again.
pub proof fn kind_and_status_agree(a: ErrorView, b: ErrorView)
    requires
        kind_of(class_of(a)) == kind_of(class_of(b)),
        voice_overloaded(a) == voice_overloaded(b),
    ensures
        error_status(a) == error_status(b),
{
    kinds_differ();
}

proof fn kinds_differ()
    ensures
        forall|a: Class, b: Class| #[trigger] kind_of(a) == #[trigger] kind_of(b) ==> a == b,
{
    reveal_strlit("unauthorized");
    reveal_strlit("forbidden");
    reveal_strlit("not_found");
    reveal_strlit("conflict");
    reveal_strlit("invalid_request");
    reveal_strlit("rate_limited");
    reveal_strlit("rig_offline");
    reveal_strlit("upstream");
    reveal_strlit("internal");
    assert forall|a: Class, b: Class| #[trigger] kind_of(a) == #[trigger] kind_of(b) implies a
        == b by {
        assert(kind_of(a).len() == kind_of(b).len());
        assert(kind_of(a)[0] == kind_of(b)[0]);
        assert(kind_of(a)[1] == kind_of(b)[1]);
    }
}

/// The control plane rejected the gateway's own credential.
pub open spec fn credential_rejected(e: ErrorView) -> bool {
    e matches ErrorView::Upstream { status, kind, .. } && status == 401 && kind != "voice"@
}

/// What is internal is not echoed: two internal errors, two failures to reach the
/// control plane, and two rejections of the gateway's own credential read the same
/// to a client, whatever is behind them.
pub proof fn internal_failures_are_not_echoed(a: ErrorView, b: ErrorView)
    requires
        ({
            ||| class_of(a) == Class::Internal && class_of(b) == Class::Internal
            ||| a is UpstreamTransport && b is UpstreamTransport
            ||| credential_rejected(a) && credential_rejected(b)
        }),
    ensures
        public_message(a) == public_message(b),
{
}

/// Each kind of error has its `type` and its status: who is not known is 401, who
/// may not is 403, what is not there is 404, what clashes is 409, what is badly
/// asked is 400, who asks too often is 429, a rig that is off is 503, a failure
/// behind the gateway is 502, and one of its own is 500.
pub proof fn each_kind_has_its_status(
    text: Seq<char>,
    secs: u32,
    timed_out: bool,
    connecting: bool,
)
    ensures
        answered(ErrorView::Unauthorized) == ("unauthorized"@, 401u16),
        answered(ErrorView::Forbidden(text)) == ("forbidden"@, 403u16),
        answered(ErrorView::NotFound) == ("not_found"@, 404u16),
        answered(ErrorView::InvalidRequest(text)) == ("invalid_request"@, 400u16),
        answered(ErrorView::RateLimited { retry_after_secs: secs }) == (
            "rate_limited"@,
            429u16,
        ),
        answered(ErrorView::Config(text)) == ("internal"@, 500u16),
        answered(ErrorView::Db(text)) == ("internal"@, 500u16),
        answered(ErrorView::UpstreamTransport { timed_out, connecting, text }) == (
            "upstream"@,
            502u16,
        ),
{
}

/// What an error is answered with: its `type` and its status.
pub open spec fn answered(e: ErrorView) -> (Seq<char>, u16) {
    (kind_of(class_of(e)), error_status(e))
}

/// What the control plane refuses keeps its meaning for the client: a rig that is
/// off, a bad request, an agent, an environment or a thing that is not there, an
/// environment that is not ready, a body that the models refuse. A rejected
/// credential of the gateway, and any other refusal, is the gateway's failure.
pub proof fn a_refusal_keeps_its_meaning(
    status: u16,
    message: Seq<char>,
    retry_after: Option<u32>,
    detail: Seq<char>,
)
    ensures
        answered(refused(status, "rig_offline"@, message, retry_after)) == (
            "rig_offline"@,
            503u16,
        ),
        answered(refused(status, "invalid_request"@, message, retry_after)) == (
            "invalid_request"@,
            400u16,
        ),
        answered(refused(status, "unknown_agent"@, message, retry_after)) == (
            "not_found"@,
            404u16,
        ),
        answered(refused(status, "unknown_environment"@, message, retry_after)) == (
            "not_found"@,
            404u16,
        ),
        answered(refused(status, "not_found"@, message, retry_after)) == ("not_found"@, 404u16),
        answered(refused(status, "environment_not_provisioned"@, message, retry_after)) == (
            "conflict"@,
            409u16,
        ),
        400 <= status < 500 ==> answered(refused(status, "inference"@, message, retry_after)) == (
            "invalid_request"@,
            400u16,
        ),
        !(400 <= status < 500) ==> answered(refused(status, "inference"@, message, retry_after))
            == ("upstream"@, 502u16),
        answered(refused(404, "upstream"@, message, retry_after)) == ("not_found"@, 404u16),
        answered(refused(502, "upstream"@, "not_found_error"@ + detail, retry_after)) == (
            "not_found"@,
            404u16,
        ),
        answered(refused(502, "upstream"@, "invalid_request_error"@ + detail, retry_after)) == (
            "invalid_request"@,
            400u16,
        ),
        answered(refused(401, "unauthorized"@, message, retry_after)) == ("upstream"@, 502u16),
        answered(refused(503, "voice"@, message, retry_after)) == ("upstream"@, 503u16),
        status != 503 ==> answered(refused(status, "voice"@, message, retry_after)) == (
            "upstream"@,
            502u16,
        ),
{
    reveal_strlit("rig_offline");
    reveal_strlit("invalid_request");
    reveal_strlit("unknown_agent");
    reveal_strlit("unknown_environment");
    reveal_strlit("not_found");
    reveal_strlit("environment_not_provisioned");
    reveal_strlit("inference");
    reveal_strlit("upstream");
    reveal_strlit("unauthorized");
    reveal_strlit("voice");
    assert("rig_offline"@.len() == 11 && "invalid_request"@.len() == 15
        && "unknown_agent"@.len() == 13 && "unknown_environment"@.len() == 19
        && "not_found"@.len() == 9 && "environment_not_provisioned"@.len() == 27
        && "inference"@.len() == 9 && "upstream"@.len() == 8 && "unauthorized"@.len() == 12
        && "voice"@.len() == 5);
    assert("not_found"@[0] != "inference"@[0]);
    reveal_strlit("not_found_error");
    reveal_strlit("invalid_request_error");
    assert("not_found_error"@.len() == 15 && "invalid_request_error"@.len() == 21);
    let gone = "not_found_error"@ + detail;
    let wrong = "invalid_request_error"@ + detail;
    assert(gone.take(15) =~= "not_found_error"@);
    assert(wrong.take(21) =~= "invalid_request_error"@);
    assert(!begins_with(wrong, "not_found_error"@)) by {
        assert(wrong[0] == 'i');
        assert("not_found_error"@[0] == 'n');
        assert(wrong.take(15)[0] == 'i');
    }
}

/// A refusal of the control plane or of another provider.
pub open spec fn refused(
    status: u16,
    kind: Seq<char>,
    message: Seq<char>,
    retry_after: Option<u32>,
) -> ErrorView {
    ErrorView::Upstream { status, kind, message, retry_after }
}

/// What a client is told of an error: what it asked wrongly, which scope it lacks,
/// what a provider said; nothing of what failed inside, and never what was said of
/// the gateway's own credential.
pub proof fn a_client_is_told_what_concerns_it(
    text: Seq<char>,
    status: u16,
    kind: Seq<char>,
    retry_after: Option<u32>,
    timed_out: bool,
    connecting: bool,
)
    ensures
        public_message(ErrorView::InvalidRequest(text)) == "invalid request: "@ + text,
        public_message(ErrorView::Forbidden(text)) == "missing scope `"@ + text + "`"@,
        public_message(ErrorView::Unauthorized) == "unauthorized"@,
        public_message(ErrorView::NotFound) == "not found"@,
        public_message(ErrorView::Config(text)) == "internal error"@,
        public_message(ErrorView::Db(text)) == "internal error"@,
        public_message(ErrorView::UpstreamTransport { timed_out, connecting, text })
            == "could not reach the control plane"@,
        status != 401 || kind == "voice"@ ==> public_message(
            refused(status, kind, text, retry_after),
        ) == text,
        status == 401 && kind != "voice"@ ==> public_message(
            refused(status, kind, text, retry_after),
        ) == "the gateway's control-plane credential was rejected"@,
{
}

/// A response that has no envelope of its own gets one by its status: its text is
/// the message, where it has one.
pub proof fn a_bare_response_is_told_by_its_status(status: u16, phrase: Seq<char>, text: Seq<char>)
    ensures
        kind_for_status(404) == "not_found"@,
        kind_for_status(405) == "method_not_allowed"@,
        kind_for_status(401) == "unauthorized"@,
        kind_for_status(403) == "forbidden"@,
        kind_for_status(429) == "rate_limited"@,
        400 <= status < 500 && status != 404 && status != 405 && status != 401 && status != 403
            && status != 429 ==> kind_for_status(status) == "invalid_request"@,
        status >= 500 ==> kind_for_status(status) == "internal"@,
        text.len() > 0 ==> message_for_status(status, Some(phrase), text) == text,
        message_for_status(404, Some(phrase), Seq::empty()) == "no such route"@,
        message_for_status(405, Some(phrase), Seq::empty()) == "method not allowed"@,
        status != 404 && status != 405 ==> message_for_status(status, Some(phrase), Seq::empty())
            == phrase.map_values(|c: char| lowered(c)),
{
}

/// What comes through the control plane from further up is told by its status or by
/// how its message begins: not found, or badly asked. All else that a refusal can be
/// is a failure behind the gateway.
pub proof fn other_refusals_are_failures(
    status: u16,
    kind: Seq<char>,
    message: Seq<char>,
    retry_after: Option<u32>,
)
    ensures
        ({
            let missing = status == 404 || begins_with(message, "not_found_error"@);
            let wrong = status == 400 || begins_with(message, "invalid_request_error"@);
            let e = refused(status, "upstream"@, message, retry_after);
            &&& missing ==> answered(e) == ("not_found"@, 404u16)
            &&& !missing && wrong ==> answered(e) == ("invalid_request"@, 400u16)
            &&& !missing && !wrong ==> answered(e) == ("upstream"@, 502u16)
        }),
        kind != "rig_offline"@ && kind != "invalid_request"@ && kind != "unknown_agent"@ && kind
            != "unknown_environment"@ && kind != "not_found"@ && kind
            != "environment_not_provisioned"@ && kind != "inference"@ && kind != "upstream"@ && kind
            != "voice"@ ==> answered(refused(status, kind, message, retry_after)) == (
            "upstream"@,
            502u16,
        ),
{
    reveal_strlit("rig_offline");
    reveal_strlit("invalid_request");
    reveal_strlit("unknown_agent");
    reveal_strlit("unknown_environment");
    reveal_strlit("not_found");
    reveal_strlit("environment_not_provisioned");
    reveal_strlit("inference");
    reveal_strlit("upstream");
    reveal_strlit("voice");
    assert("rig_offline"@.len() == 11 && "invalid_request"@.len() == 15
        && "unknown_agent"@.len() == 13 && "unknown_environment"@.len() == 19
        && "not_found"@.len() == 9 && "environment_not_provisioned"@.len() == 27
        && "inference"@.len() == 9 && "upstream"@.len() == 8 && "voice"@.len() == 5);
    assert("not_found"@[0] != "inference"@[0]);
}

/// A client is asked to wait where it asked too often, as long as that takes, and
/// where a provider asks for it, as long as the provider says; by no other error.
pub proof fn a_wait_is_what_was_asked_for(
    e: ErrorView,
    secs: u32,
    status: u16,
    kind: Seq<char>,
    message: Seq<char>,
    retry_after: Option<u32>,
)
    ensures
        wait_of(ErrorView::RateLimited { retry_after_secs: secs }) == Some(secs),
        wait_of(refused(status, kind, message, retry_after)) == retry_after,
        !(e is RateLimited) && !(e is Upstream) ==> wait_of(e) is None,
{
}

/// A log has the whole error, with what kind it is; a client who asks too often is
/// told that.
pub proof fn a_log_has_the_whole_error(
    text: Seq<char>,
    status: u16,
    kind: Seq<char>,
    retry_after: Option<u32>,
    secs: u32,
    timed_out: bool,
    connecting: bool,
)
    ensures
        error_text(ErrorView::Config(text)) == "config: "@ + text,
        error_text(ErrorView::Db(text)) == "database: "@ + text,
        error_text(ErrorView::Unauthorized) == "unauthorized"@,
        error_text(ErrorView::Forbidden(text)) == "missing scope `"@ + text + "`"@,
        error_text(ErrorView::NotFound) == "not found"@,
        error_text(ErrorView::InvalidRequest(text)) == "invalid request: "@ + text,
        error_text(ErrorView::RateLimited { retry_after_secs: secs }) == "rate limited"@,
        error_text(refused(status, kind, text, retry_after)) == "upstream "@ + decimal(
            status as nat,
        ) + ": "@ + kind + ": "@ + text,
        error_text(ErrorView::UpstreamTransport { timed_out, connecting, text })
            == "upstream transport: "@ + text,
        public_message(ErrorView::RateLimited { retry_after_secs: secs }) == "rate limited"@,
{
    assert(error_text(refused(status, kind, text, retry_after)) =~= "upstream "@ + decimal(
        status as nat,
    ) + ": "@ + kind + ": "@ + text);
}

/// A response without a text or a phrase is told to be an error; one below 400 is not
/// the client's.
pub proof fn a_response_without_words(status: u16)
    requires
        status != 404,
        status != 405,
    ensures
        message_for_status(status, None, Seq::empty()) == "error"@,
        status < 400 ==> kind_for_status(status) == "internal"@,
{
    reveal_strlit("error");
    assert("error"@.map_values(|c: char| lowered(c)) =~= "error"@);
}

} // verus!
