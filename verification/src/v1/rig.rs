//! `GET /v1/rig`: is the GPU rig there? Composed from the control plane's
//! `/inference/models` status so every client gets the same three-way answer
//! without parsing an error: not configured, offline, or online with model names.

use crate::error::{public_message, Error, ErrorView};
use crate::json::{bool_field, field, has_just, items_field, or_null, parsed_json, text_array_view, text_field, text_in, text_or_null, Json, JsonView, Object};
use crate::text::{cat2, decimal, number};
use crate::upstream::control_plane::{getting, Call};
use vstd::prelude::*;

verus! {

pub struct Rig {
    /// False when this deployment has no local inference at all.
    pub configured: bool,
    pub online: bool,
    /// Ollama model tags when online, e.g. `["qwen3:8b", "nomic-embed-text:latest"]`.
    pub models: Vec<String>,
    /// Why it is offline, when it is.
    pub reason: Option<String>,
}

#[verifier::ext_equal]
pub struct RigView {
    pub configured: bool,
    pub online: bool,
    pub models: Seq<Seq<char>>,
    pub reason: Option<Seq<char>>,
}

impl View for Rig {
    type V = RigView;

    open spec fn view(&self) -> RigView {
        RigView {
            configured: self.configured,
            online: self.online,
            models: self.models.deep_view(),
            reason: self.reason.deep_view(),
        }
    }
}

/// The names of the first `n` models, of those that have one.
pub open spec fn model_names(models: Seq<JsonView>, n: nat) -> Seq<Seq<char>>
    decreases n,
{
    if n == 0 {
        Seq::empty()
    } else {
        let earlier = model_names(models, (n - 1) as nat);
        match text_field(models[n - 1], "name"@) {
            Some(name) => earlier.push(name),
            None => earlier,
        }
    }
}

/// What the control plane's answer says of the rig.
pub open spec fn rig_view(status: u16, body: JsonView) -> RigView {
    if status == 404 {
        RigView { configured: false, online: false, models: Seq::empty(), reason: None }
    } else if status == 200 {
        let models = items_field(body, "models"@);
        RigView {
            configured: true,
            online: true,
            models: model_names(models, models.len()),
            reason: None,
        }
    } else {
        RigView {
            configured: true,
            online: false,
            models: Seq::empty(),
            reason: Some(
                match text_in(body, "error"@, "message"@) {
                    Some(message) => message,
                    None => "control plane answered "@ + decimal(status as nat),
                },
            ),
        }
    }
}

/// What is asked of the control plane.
pub fn call() -> (r: Call)
    ensures
        r@ == getting("/inference/models"@, Seq::empty()),
{
    let query: Vec<(String, String)> = Vec::new();
    assert(query.deep_view() =~= Seq::<(Seq<char>, Seq<char>)>::empty());
    Call::get("/inference/models".to_owned(), query)
}

/// What the control plane's answer says of the rig, from its text.
pub fn rig(status: u16, body: &str) -> (r: Rig)
    ensures
        r@ == rig_view(status, or_null(parsed_json(body@))),
{
    rig_of(status, &Json::parse_or_null(body))
}

/// The same, given what the text reads as.
pub fn rig_of(status: u16, body: &Json) -> (r: Rig)
    ensures
        r@ == rig_view(status, body@),
{
    let mut models: Vec<String> = Vec::new();
    assert(models.deep_view() =~= Seq::<Seq<char>>::empty());
    if status == 404 {
        return Rig { configured: false, online: false, models, reason: None };
    }
    if status == 200 {
        let items = body.items_at("models");
        let ghost views = items_field(body@, "models"@);
        let n: usize = items.len();
        for i in 0..n
            invariant
                n == items@.len(),
                views == items@.map_values(|j: Json| j@),
                models.deep_view() == model_names(views, i as nat),
        {
            assert(views[i as int] == items@[i as int]@);
            let ghost earlier = models.deep_view();
            match items[i].text_at("name") {
                Some(name) => {
                    models.push(name.to_owned());
                    assert(models.deep_view() =~= earlier.push(name@));
                },
                None => {},
            }
        }
        return Rig { configured: true, online: true, models, reason: None };
    }
    let reason = match body.text_within("error", "message") {
        Some(message) => message.to_owned(),
        None => cat2("control plane answered ", number(status as u128).as_str()),
    };
    Rig { configured: true, online: false, models, reason: Some(reason) }
}

/// What is said of the rig where the control plane gave no answer: it is offline,
/// and why.
pub open spec fn unanswered_view(e: ErrorView) -> RigView {
    RigView {
        configured: true,
        online: false,
        models: Seq::empty(),
        reason: Some(public_message(e)),
    }
}

/// What is said of the rig where the control plane gave no answer. The route
/// answers nonetheless.
pub fn unanswered(e: &Error) -> (r: Rig)
    ensures
        r@ == unanswered_view(e@),
{
    let models: Vec<String> = Vec::new();
    assert(models.deep_view() =~= Seq::<Seq<char>>::empty());
    Rig { configured: true, online: false, models, reason: Some(e.public_message()) }
}

/// The answer on the wire.
pub open spec fn rig_document(rig: RigView) -> JsonView {
    JsonView::Object(
        map![
            "configured"@ => JsonView::Bool(rig.configured),
            "online"@ => JsonView::Bool(rig.online),
            "models"@ => text_array_view(rig.models),
            "reason"@ => text_or_null(rig.reason),
        ],
    )
}

impl Rig {
    pub fn to_json(&self) -> (r: Json)
        ensures
            r@ == rig_document(self@),
    {
        let mut o = Object::new();
        o.put("configured", Json::Bool(self.configured));
        o.put("online", Json::Bool(self.online));
        o.put("models", Json::text_array(&self.models));
        match &self.reason {
            Some(reason) => o.put_text("reason", reason.as_str()),
            None => o.put("reason", Json::Null),
        }
        assert(o@ =~= rig_document(self@)->Object_0);
        Json::Object(o)
    }
}

// ---- laws ---------------------------------------------------------------------------

/// The answer is one of three: not configured; offline, and why; or online.
pub open spec fn three_way(rig: RigView) -> bool {
    ||| !rig.configured && !rig.online && rig.models.len() == 0 && rig.reason is None
    ||| rig.configured && !rig.online && rig.models.len() == 0 && rig.reason is Some
    ||| rig.configured && rig.online && rig.reason is None
}

/// Whatever the control plane answers, and whether it answers at all, a client is
/// told one of three things. Models are named only when the rig is online.
pub proof fn the_rig_answer_is_three_way(status: u16, body: JsonView, e: ErrorView)
    ensures
        three_way(rig_view(status, body)),
        three_way(unanswered_view(e)),
{
}

/// The control plane that has no inference says so by 404, and one that has answers
/// 200; the rig is online in that case alone, with the names that its models have,
/// and with no other.
pub proof fn the_rig_is_online_where_its_models_are_listed(status: u16, body: JsonView)
    ensures
        rig_view(status, body).configured <==> status != 404,
        rig_view(status, body).online <==> status == 200,
        forall|name: Seq<char>| #[trigger]
            rig_view(status, body).models.contains(name) <==> status == 200 && exists|i: int|
                0 <= i < items_field(body, "models"@).len() && text_field(
                    #[trigger] items_field(body, "models"@)[i],
                    "name"@,
                ) == Some(name),
{
    let models = items_field(body, "models"@);
    assert forall|name: Seq<char>| #[trigger]
        model_names(models, models.len()).contains(name) <==> exists|i: int|
        0 <= i < models.len() && text_field(#[trigger] models[i], "name"@) == Some(name) by {
        a_model_is_listed_by_its_name(models, models.len(), name);
    }
}

proof fn a_model_is_listed_by_its_name(models: Seq<JsonView>, n: nat, name: Seq<char>)
    requires
        n <= models.len(),
    ensures
        model_names(models, n).contains(name) <==> exists|i: int|
            0 <= i < n && text_field(#[trigger] models[i], "name"@) == Some(name),
    decreases n,
{
    if n > 0 {
        a_model_is_listed_by_its_name(models, (n - 1) as nat, name);
        let earlier = model_names(models, (n - 1) as nat);
        let all = model_names(models, n);
        if all.contains(name) {
            let k = all.index_of(name);
            if k < earlier.len() {
                assert(earlier[k] == name);
            } else {
                assert(text_field(models[n - 1], "name"@) == Some(name));
            }
        }
        if earlier.contains(name) {
            assert(all[earlier.index_of(name)] == name);
        }
        if text_field(models[n - 1], "name"@) == Some(name) {
            assert(all[earlier.len() as int] == name);
        }
    }
}

/// Where every model has a name, the names stand in the order of the models.
pub proof fn models_are_named_in_order(body: JsonView)
    requires
        forall|i: int|
            0 <= i < items_field(body, "models"@).len() ==> text_field(
                #[trigger] items_field(body, "models"@)[i],
                "name"@,
            ) is Some,
    ensures
        rig_view(200, body).models.len() == items_field(body, "models"@).len(),
        forall|i: int|
            0 <= i < items_field(body, "models"@).len() ==> text_field(
                #[trigger] items_field(body, "models"@)[i],
                "name"@,
            ) == Some(rig_view(200, body).models[i]),
{
    let models = items_field(body, "models"@);
    named_models_stand_in_order(models, models.len());
}

proof fn named_models_stand_in_order(models: Seq<JsonView>, n: nat)
    requires
        n <= models.len(),
        forall|i: int| 0 <= i < n ==> text_field(#[trigger] models[i], "name"@) is Some,
    ensures
        model_names(models, n).len() == n,
        forall|i: int|
            0 <= i < n ==> text_field(#[trigger] models[i], "name"@) == Some(
                model_names(models, n)[i],
            ),
    decreases n,
{
    if n > 0 {
        named_models_stand_in_order(models, (n - 1) as nat);
        assert(text_field(models[n - 1], "name"@) is Some);
    }
}

/// Why the rig is offline is what the control plane says of it, in the words of its
/// error where it gives any, and by its status where it gives none; where it does not
/// answer, it is why not.
pub proof fn the_reason_is_what_was_said(status: u16, body: JsonView, e: ErrorView)
    requires
        status != 200,
        status != 404,
    ensures
        text_in(body, "error"@, "message"@) matches Some(message) ==> rig_view(status, body).reason
            == Some(message),
        text_in(body, "error"@, "message"@) is None ==> rig_view(status, body).reason == Some(
            "control plane answered "@ + decimal(status as nat),
        ),
        unanswered_view(e).reason == Some(public_message(e)),
{
}

/// The answer says what is known of the rig, each thing under its name, and no more.
pub proof fn the_rig_reads_back(rig: RigView)
    ensures
        bool_field(rig_document(rig), "configured"@) == Some(rig.configured),
        bool_field(rig_document(rig), "online"@) == Some(rig.online),
        field(rig_document(rig), "models"@) == Some(text_array_view(rig.models)),
        field(rig_document(rig), "reason"@) == Some(text_or_null(rig.reason)),
        has_just(rig_document(rig), set!["configured"@, "online"@, "models"@, "reason"@]),
{
    reveal_strlit("configured");
    reveal_strlit("online");
    reveal_strlit("models");
    reveal_strlit("reason");
    assert("configured"@.len() == 10 && "online"@.len() == 6 && "models"@.len() == 6
        && "reason"@.len() == 6);
    assert("online"@[0] != "models"@[0]);
    assert("online"@[0] != "reason"@[0]);
    assert("models"@[0] != "reason"@[0]);
    assert(rig_document(rig)->Object_0.dom() =~= set![
        "configured"@,
        "online"@,
        "models"@,
        "reason"@,
    ]);
}

/// A model without a name is left out, and leaves the others in their order.
pub proof fn a_model_without_a_name_is_left_out(models: Seq<JsonView>, n: nat)
    requires
        n < models.len(),
    ensures
        model_names(models, 0).len() == 0,
        text_field(models[n as int], "name"@) is None ==> model_names(models, n + 1) == model_names(
            models,
            n,
        ),
        text_field(models[n as int], "name"@) matches Some(name) ==> model_names(models, n + 1)
            == model_names(models, n).push(name),
{
}

} // verus!
