//! The error body that all routes share.

use crate::json::{field, has_just, text_in, Json, JsonView, Object};
use vstd::prelude::*;

verus! {

/// `{"error":{"type","message","request_id"}}`: every non-2xx.
pub struct ErrorBody {
    pub error: ErrorDetail,
}

pub struct ErrorDetail {
    /// One of: unauthorized, forbidden, not_found, conflict, invalid_request,
    /// method_not_allowed, rate_limited, upstream, rig_offline, internal.
    pub kind: String,
    pub message: String,
    /// Echoed from, or set as, the `x-request-id` header. Quote it when reporting.
    pub request_id: String,
}

/// The body on the wire.
pub open spec fn error_document(
    kind: Seq<char>,
    message: Seq<char>,
    request_id: Seq<char>,
) -> JsonView {
    JsonView::Object(
        map![
            "error"@ => JsonView::Object(
                map![
                    "type"@ => JsonView::Text(kind),
                    "message"@ => JsonView::Text(message),
                    "request_id"@ => JsonView::Text(request_id),
                ],
            ),
        ],
    )
}

impl ErrorBody {
    pub fn to_json(&self) -> (r: Json)
        ensures
            r@ == error_document(
                self.error.kind@,
                self.error.message@,
                self.error.request_id@,
            ),
    {
        let mut detail = Object::new();
        detail.put_text("type", self.error.kind.as_str());
        detail.put_text("message", self.error.message.as_str());
        detail.put_text("request_id", self.error.request_id.as_str());
        let ghost members = map![
            "type"@ => JsonView::Text(self.error.kind@),
            "message"@ => JsonView::Text(self.error.message@),
            "request_id"@ => JsonView::Text(self.error.request_id@),
        ];
        assert(detail@ =~= members);
        let mut o = Object::new();
        o.put("error", Json::Object(detail));
        assert(o@ =~= map!["error"@ => JsonView::Object(members)]);
        Json::Object(o)
    }
}

/// The body says the kind, the message and the request's id, each under its name,
/// and no more.
pub proof fn an_error_reads_back(kind: Seq<char>, message: Seq<char>, request_id: Seq<char>)
    ensures
        text_in(error_document(kind, message, request_id), "error"@, "type"@) == Some(kind),
        text_in(error_document(kind, message, request_id), "error"@, "message"@) == Some(message),
        text_in(error_document(kind, message, request_id), "error"@, "request_id"@) == Some(
            request_id,
        ),
        has_just(error_document(kind, message, request_id), set!["error"@]),
        field(error_document(kind, message, request_id), "error"@) matches Some(detail) && has_just(
            detail,
            set!["type"@, "message"@, "request_id"@],
        ),
{
    reveal_strlit("type");
    reveal_strlit("message");
    reveal_strlit("request_id");
    assert("type"@.len() == 4 && "message"@.len() == 7 && "request_id"@.len() == 10);
    let body = error_document(kind, message, request_id);
    let detail = body->Object_0["error"@];
    assert(body->Object_0.dom() =~= set!["error"@]);
    assert(detail->Object_0.dom() =~= set!["type"@, "message"@, "request_id"@]);
}

} // verus!
