//! `/v1/inference`: the rig's local models (Ollama, via the control plane). Bodies
//! are Ollama's own (`/api/chat`, `/api/embed`) and pass through untouched after a
//! shape check; responses are Ollama's. Rig off is `503 rig_offline` with
//! `Retry-After`. Nothing retries elsewhere: that is the whole failover story.

use crate::error::{outcome, Error, ErrorView, Result};
use crate::json::{bool_field, field, text_field, Json, JsonView};
use crate::text::{cat4, is_blank, trimmed};
use crate::upstream::control_plane::{getting, posting, Call, CallView, Method};
use crate::v1::sessions::bad;
use vstd::prelude::*;

verus! {

/// What a member must be.
#[derive(Clone, Copy, PartialEq, Eq, Structural)]
pub enum Shape {
    Array,
    TextOrArray,
}

pub open spec fn shaped(v: JsonView, shape: Shape) -> bool {
    match shape {
        Shape::Array => v is Array,
        Shape::TextOrArray => v is Text || v is Array,
    }
}

pub open spec fn shape_name(shape: Shape) -> Seq<char> {
    match shape {
        Shape::Array => "an array"@,
        Shape::TextOrArray => "a string or an array"@,
    }
}

/// What is wrong with a body, if anything is: it must be an object that names a
/// model, with that member of that shape.
pub open spec fn body_fault(body: JsonView, name: Seq<char>, shape: Shape) -> Option<Seq<char>> {
    if !(body is Object) {
        Some("body must be a JSON object"@)
    } else if !(text_field(body, "model"@) matches Some(model) && trimmed(model).len() > 0) {
        Some("`model` must be a non-empty string"@)
    } else if !(field(body, name) matches Some(v) && shaped(v, shape)) {
        Some("`"@ + name + "` must be "@ + shape_name(shape))
    } else {
        None
    }
}

/// The same shape check the control plane makes, so a bad body is rejected here
/// rather than after a round trip.
pub fn validate(body: &Json, name: &str, shape: Shape) -> (r: Result<()>)
    ensures
        outcome(r) == (match body_fault(body@, name@, shape) {
            Some(fault) => bad(fault),
            None => Ok(()),
        }),
{
    if !body.is_object() {
        return Err(Error::InvalidRequest("body must be a JSON object".to_owned()));
    }
    let named = match body.text_at("model") {
        Some(model) => !is_blank(model),
        None => false,
    };
    if !named {
        return Err(Error::InvalidRequest("`model` must be a non-empty string".to_owned()));
    }
    let fits = match body.get(name) {
        Some(v) => match shape {
            Shape::Array => v.is_array(),
            Shape::TextOrArray => v.is_text() || v.is_array(),
        },
        None => false,
    };
    if !fits {
        let expected = match shape {
            Shape::Array => "an array",
            Shape::TextOrArray => "a string or an array",
        };
        return Err(Error::InvalidRequest(cat4("`", name, "` must be ", expected)));
    }
    Ok(())
}

/// What a body that is checked leads to.
pub open spec fn checked_post(
    body: std::result::Result<JsonView, ErrorView>,
    path: Seq<char>,
    name: Seq<char>,
    shape: Shape,
) -> std::result::Result<CallView, ErrorView> {
    match body {
        Err(e) => Err(e),
        Ok(body) => match body_fault(body, name, shape) {
            Some(fault) => bad(fault),
            None => Ok(posting(path, body)),
        },
    }
}

/// `GET /inference/models`.
pub fn models() -> (r: Call)
    ensures
        r@ == getting("/inference/models"@, Seq::empty()),
{
    let query: Vec<(String, String)> = Vec::new();
    assert(query.deep_view() =~= Seq::<(Seq<char>, Seq<char>)>::empty());
    Call::get("/inference/models".to_owned(), query)
}

/// A chat, and the type of what it answers: frames as they come, unless the body
/// says otherwise.
pub struct Chat {
    pub call: Call,
    pub content_type: &'static str,
}

/// The type of what a chat answers.
pub open spec fn answer_type(body: JsonView) -> Seq<char> {
    if bool_field(body, "stream"@) == Some(false) {
        "application/json"@
    } else {
        "application/x-ndjson"@
    }
}

/// `POST /inference/chat`.
pub fn chat(body: std::result::Result<Json, String>) -> (r: Result<Chat>)
    ensures
        match checked_post(
            crate::v1::sessions::body_or_400(body),
            "/inference/chat"@,
            "messages"@,
            Shape::Array,
        ) {
            Err(e) => r matches Err(error) && error@ == e,
            Ok(call) => r matches Ok(chat) && chat.call@ == call && chat.content_type@ == answer_type(
                body->Ok_0@,
            ),
        },
{
    let body = match body {
        Ok(body) => body,
        Err(text) => {
            return Err(Error::InvalidRequest(text));
        },
    };
    match validate(&body, "messages", Shape::Array) {
        Ok(()) => {},
        Err(e) => {
            return Err(e);
        },
    }
    let content_type = match body.bool_at("stream") {
        Some(false) => "application/json",
        _ => "application/x-ndjson",
    };
    Ok(Chat { call: Call::post("/inference/chat".to_owned(), body), content_type })
}

/// `POST /inference/embeddings`.
pub fn embeddings(body: std::result::Result<Json, String>) -> (r: Result<Call>)
    ensures
        outcome(r) == checked_post(
            crate::v1::sessions::body_or_400(body),
            "/inference/embeddings"@,
            "input"@,
            Shape::TextOrArray,
        ),
{
    let body = match body {
        Ok(body) => body,
        Err(text) => {
            return Err(Error::InvalidRequest(text));
        },
    };
    match validate(&body, "input", Shape::TextOrArray) {
        Ok(()) => Ok(Call::post("/inference/embeddings".to_owned(), body)),
        Err(e) => Err(e),
    }
}

// ---- laws ---------------------------------------------------------------------------

/// The body is an object that names a model.
pub open spec fn names_a_model(body: JsonView) -> bool {
    body is Object && exists|model: Seq<char>|
        field(body, "model"@) == Some(JsonView::Text(model)) && #[trigger] trimmed(model).len() > 0
}

/// A body is sent on where it is an object that names a model and has the member
/// that it is about: a chat has an array, embeddings have a text or an array. It is
/// sent on untouched, to the path it is for. Any other is refused.
pub proof fn good_bodies_are_sent_on_untouched(body: JsonView, path: Seq<char>, name: Seq<char>)
    ensures
        checked_post(Ok(body), path, name, Shape::Array) is Ok <==> {
            &&& names_a_model(body)
            &&& field(body, name) matches Some(v) && v is Array
        },
        checked_post(Ok(body), path, name, Shape::TextOrArray) is Ok <==> {
            &&& names_a_model(body)
            &&& field(body, name) matches Some(v) && (v is Text || v is Array)
        },
        forall|shape: Shape|
            #![trigger checked_post(Ok(body), path, name, shape)]
            checked_post(Ok(body), path, name, shape) matches Ok(call) ==> call.method
                == Method::Post && call.path == path && call.body == Some(body)
                && call.query.len() == 0,
        forall|shape: Shape|
            #![trigger checked_post(Ok(body), path, name, shape)]
            checked_post(Ok(body), path, name, shape) matches Err(e) ==> e is InvalidRequest,
{
    if let Some(model) = text_field(body, "model"@) {
        assert(field(body, "model"@) == Some(JsonView::Text(model)));
    }
}

/// What is wrong with a body is told: that it is no object, or that it names no
/// model, or which member it has not got, and what that is to be.
pub proof fn a_bad_body_is_told_what_is_wrong(body: JsonView, name: Seq<char>)
    ensures
        forall|shape: Shape| #[trigger]
            body_fault(body, name, shape) == Some("body must be a JSON object"@) <== !(
            body is Object),
        forall|shape: Shape| #[trigger]
            body_fault(body, name, shape) == Some("`model` must be a non-empty string"@)
                <== body is Object && !names_a_model(body),
        names_a_model(body) && !(field(body, name) matches Some(v) && v is Array) ==> body_fault(
            body,
            name,
            Shape::Array,
        ) == Some("`"@ + name + "` must be an array"@),
        names_a_model(body) && !(field(body, name) matches Some(v) && (v is Text || v is Array))
            ==> body_fault(body, name, Shape::TextOrArray) == Some(
            "`"@ + name + "` must be a string or an array"@,
        ),
{
    if let Some(model) = text_field(body, "model"@) {
        assert(field(body, "model"@) == Some(JsonView::Text(model)));
    }
    reveal_strlit("` must be ");
    reveal_strlit("` must be an array");
    reveal_strlit("` must be a string or an array");
    reveal_strlit("an array");
    reveal_strlit("a string or an array");
    assert("`"@ + name + "` must be "@ + "an array"@ =~= "`"@ + name + "` must be an array"@);
    assert("`"@ + name + "` must be "@ + "a string or an array"@ =~= "`"@ + name
        + "` must be a string or an array"@);
}

/// A chat answers with lines as they come, unless its body says that it is not to
/// stream.
pub proof fn a_chat_streams_unless_told_not_to(body: JsonView)
    ensures
        answer_type(body) == "application/json"@ <==> field(body, "stream"@) == Some(
            JsonView::Bool(false),
        ),
        answer_type(body) == "application/x-ndjson"@ <==> field(body, "stream"@) != Some(
            JsonView::Bool(false),
        ),
{
    reveal_strlit("application/json");
    reveal_strlit("application/x-ndjson");
    assert("application/json"@.len() == 16 && "application/x-ndjson"@.len() == 20);
}

} // verus!
