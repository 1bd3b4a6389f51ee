//! JSON documents. `Json` holds a document as plain values, so that what the
//! library reads from one and puts into one can be stated and proved; text is
//! turned into documents and back by `serde_json`.

use crate::text::same;
use vstd::prelude::*;

verus! {

/// `serde_json::Number`, carried through as it is.
#[verifier::external_type_specification]
#[verifier::external_body]
pub struct ExNumber(serde_json::Number);

/// `serde_json::Value`, the document as `serde_json` holds it.
#[verifier::external_type_specification]
#[verifier::external_body]
pub struct ExValue(serde_json::Value);

/// `serde_json::Map`, the members of an object as `serde_json` holds them.
#[verifier::external_type_specification]
#[verifier::external_body]
#[verifier::reject_recursive_types(K)]
#[verifier::reject_recursive_types(V)]
pub struct ExMembers<K, V>(serde_json::Map<K, V>);

/// A JSON document.
pub enum Json {
    Null,
    Bool(bool),
    Number(serde_json::Number),
    Text(String),
    Array(Vec<Json>),
    Object(Object),
}

/// The members of a JSON object. Where a name occurs twice, the later one
/// counts.
pub struct Object {
    pub entries: Vec<(String, Json)>,
}

/// A JSON document as a mathematical value.
pub enum JsonView {
    Null,
    Bool(bool),
    Number(serde_json::Number),
    Text(Seq<char>),
    Array(Seq<JsonView>),
    Object(Map<Seq<char>, JsonView>),
}

impl Json {
    pub open spec fn model(self) -> JsonView
        decreases self, 0nat,
    {
        match self {
            Json::Null => JsonView::Null,
            Json::Bool(b) => JsonView::Bool(b),
            Json::Number(n) => JsonView::Number(n),
            Json::Text(s) => JsonView::Text(s@),
            Json::Array(items) => JsonView::Array(
                Seq::new(
                    items@.len(),
                    |i: int|
                        if 0 <= i < items@.len() {
                            items@[i].model()
                        } else {
                            JsonView::Null
                        },
                ),
            ),
            Json::Object(members) => JsonView::Object(members.first_members(members.entries@.len())),
        }
    }
}

impl Object {
    /// The members among the first `n` entries.
    pub open spec fn first_members(self, n: nat) -> Map<Seq<char>, JsonView>
        decreases self, n,
    {
        if n == 0 || n > self.entries@.len() {
            Map::empty()
        } else {
            let entry = self.entries@[n - 1];
            self.first_members((n - 1) as nat).insert(entry.0@, entry.1.model())
        }
    }
}

impl View for Json {
    type V = JsonView;

    open spec fn view(&self) -> JsonView {
        self.model()
    }
}

impl DeepView for Json {
    type V = JsonView;

    open spec fn deep_view(&self) -> JsonView {
        self.model()
    }
}

impl View for Object {
    type V = Map<Seq<char>, JsonView>;

    open spec fn view(&self) -> Map<Seq<char>, JsonView> {
        self.first_members(self.entries@.len())
    }
}

// ---- what serde_json does -------------------------------------------------------

/// The document that a `serde_json::Value` holds.
pub uninterp spec fn json_of(v: serde_json::Value) -> JsonView;

/// The members that a `serde_json::Map` holds, by name.
pub uninterp spec fn members_of(
    m: serde_json::Map<String, serde_json::Value>,
) -> Map<Seq<char>, JsonView>;

/// What `serde_json::from_str` makes of a text: the document it writes, or the
/// error's message.
pub uninterp spec fn parsed_json(text: Seq<char>) -> Result<JsonView, Seq<char>>;

/// What `serde_json::from_slice` makes of bytes that are to write an array: its
/// items, or the error's message.
pub uninterp spec fn parsed_list(bytes: Seq<u8>) -> Result<Seq<JsonView>, Seq<char>>;

/// The compact text that `serde_json` writes for a document.
pub uninterp spec fn json_text(v: JsonView) -> Seq<char>;

/// The integer that a number stands for, where `serde_json` can give it as an
/// `i64`.
pub uninterp spec fn number_as_i64(n: serde_json::Number) -> Option<i64>;

/// The number that `serde_json` makes of an integer.
pub uninterp spec fn integer_number(i: i64) -> serde_json::Number;

/// Calls `serde_json::from_str` for a `Value`: the result is named by
/// `parsed_json`, with the error as its message.
#[verifier::external_body]
fn parse_value(text: &str) -> (r: Result<serde_json::Value, String>)
    ensures
        match r {
            Ok(v) => parsed_json(text@) == Ok::<JsonView, Seq<char>>(json_of(v)),
            Err(e) => parsed_json(text@) == Err::<JsonView, Seq<char>>(e@),
        },
{
    serde_json::from_str::<serde_json::Value>(text).map_err(|e| e.to_string())
}

/// Calls `serde_json::from_slice` for a `Vec` of values: the result is named by
/// `parsed_list`, with the error as its message.
#[verifier::external_body]
fn parse_values(bytes: &[u8]) -> (r: Result<Vec<serde_json::Value>, String>)
    ensures
        match r {
            Ok(values) => parsed_list(bytes@) == Ok::<Seq<JsonView>, Seq<char>>(
                values@.map_values(|v: serde_json::Value| json_of(v)),
            ),
            Err(e) => parsed_list(bytes@) == Err::<Seq<JsonView>, Seq<char>>(e@),
        },
{
    serde_json::from_slice::<Vec<serde_json::Value>>(bytes).map_err(|e| e.to_string())
}

/// A `serde_json::Value`, opened one level deep.
enum Layer {
    Null,
    Bool(bool),
    Number(serde_json::Number),
    Text(String),
    Array(Vec<serde_json::Value>),
    Object(serde_json::Map<String, serde_json::Value>),
}

/// The document that a layer and what is under it make.
spec fn layered(layer: Layer) -> JsonView {
    match layer {
        Layer::Null => JsonView::Null,
        Layer::Bool(b) => JsonView::Bool(b),
        Layer::Number(n) => JsonView::Number(n),
        Layer::Text(s) => JsonView::Text(s@),
        Layer::Array(values) => JsonView::Array(
            values@.map_values(|v: serde_json::Value| json_of(v)),
        ),
        Layer::Object(m) => JsonView::Object(members_of(m)),
    }
}

/// Takes a `serde_json::Value` apart by its variants, which hold the document's
/// parts.
#[verifier::external_body]
fn open_value(v: serde_json::Value) -> (r: Layer)
    ensures
        json_of(v) == layered(r),
{
    match v {
        serde_json::Value::Null => Layer::Null,
        serde_json::Value::Bool(b) => Layer::Bool(b),
        serde_json::Value::Number(n) => Layer::Number(n),
        serde_json::Value::String(s) => Layer::Text(s),
        serde_json::Value::Array(a) => Layer::Array(a),
        serde_json::Value::Object(m) => Layer::Object(m),
    }
}

/// Makes a `serde_json::Value` by its variants, which hold the document's parts.
#[verifier::external_body]
fn close_value(layer: Layer) -> (v: serde_json::Value)
    ensures
        json_of(v) == layered(layer),
{
    match layer {
        Layer::Null => serde_json::Value::Null,
        Layer::Bool(b) => serde_json::Value::Bool(b),
        Layer::Number(n) => serde_json::Value::Number(n),
        Layer::Text(s) => serde_json::Value::String(s),
        Layer::Array(a) => serde_json::Value::Array(a),
        Layer::Object(m) => serde_json::Value::Object(m),
    }
}

/// `serde_json::Map::new` gives a map without members.
#[verifier::external_body]
fn no_members() -> (m: serde_json::Map<String, serde_json::Value>)
    ensures
        (members_of(m) == Map::<Seq<char>, JsonView>::empty()),
{
    serde_json::Map::new()
}

/// `serde_json::Map::insert` adds the member, or replaces the value of the one
/// that has its name.
#[verifier::external_body]
fn insert_member(
    m: &mut serde_json::Map<String, serde_json::Value>,
    key: String,
    value: serde_json::Value,
)
    ensures
        members_of(*final(m)) == members_of(*old(m)).insert(key@, json_of(value)),
{
    m.insert(key, value);
}

/// The members that entries make, the later one where a name occurs twice.
spec fn entered(entries: Seq<(String, serde_json::Value)>) -> Map<Seq<char>, JsonView>
    decreases entries.len(),
{
    if entries.len() == 0 {
        Map::empty()
    } else {
        entered(entries.drop_last()).insert(entries.last().0@, json_of(entries.last().1))
    }
}

/// `serde_json::Map::into_iter` hands out the members, each under its name.
#[verifier::external_body]
fn entries_of(m: serde_json::Map<String, serde_json::Value>) -> (r: Vec<
    (String, serde_json::Value),
>)
    ensures
        entered(r@) == members_of(m),
        forall|i: int, j: int|
            0 <= i < j < r@.len() ==> (#[trigger] r@[i]).0@ != (#[trigger] r@[j]).0@,
{
    m.into_iter().collect()
}

/// Entries of different names are members under their names.
proof fn entry_is_entered(entries: Seq<(String, serde_json::Value)>, i: int)
    requires
        0 <= i < entries.len(),
        forall|j: int, k: int|
            0 <= j < k < entries.len() ==> (#[trigger] entries[j]).0@ != (
            #[trigger] entries[k]).0@,
    ensures
        entered(entries).dom().finite(),
        entered(entries).contains_key(entries[i].0@),
        entered(entries)[entries[i].0@] == json_of(entries[i].1),
    decreases entries.len(),
{
    let earlier = entries.drop_last();
    if earlier.len() > 0 {
        let k = if i < earlier.len() {
            i
        } else {
            0
        };
        entry_is_entered(earlier, k);
        assert(earlier[k] == entries[k]);
    } else {
        assert(entered(earlier).dom() =~= Set::empty());
    }
}

/// The document that a `serde_json::Value` holds.
fn document_of(v: serde_json::Value) -> (r: Json)
    ensures
        r@ == json_of(v),
    decreases json_of(v),
{
    let ghost whole = json_of(v);
    match open_value(v) {
        Layer::Null => Json::Null,
        Layer::Bool(b) => Json::Bool(b),
        Layer::Number(n) => Json::Number(n),
        Layer::Text(s) => Json::Text(s),
        Layer::Array(values) => {
            let ghost all = values@;
            let mut items: Vec<Json> = Vec::new();
            for value in it: values
                invariant
                    it.seq() == all,
                    whole == json_of(v),
                    whole == JsonView::Array(all.map_values(|v: serde_json::Value| json_of(v))),
                    items@.len() == it.index(),
                    forall|k: int|
                        0 <= k < items@.len() ==> (#[trigger] items@[k])@ == json_of(all[k]),
            {
                proof {
                    let parts = whole->Array_0;
                    assert(parts[it.index()] == json_of(value));
                    assert(decreases_to!(whole => parts));
                    assert(decreases_to!(parts => parts[it.index()]));
                }
                items.push(document_of(value));
            }
            let r = Json::Array(items);
            assert(r@->Array_0 =~= whole->Array_0);
            r
        },
        Layer::Object(m) => {
            let entries = entries_of(m);
            let ghost all = entries@;
            let mut o = Object::new();
            assert(all.take(0) =~= Seq::<(String, serde_json::Value)>::empty());
            for entry in it: entries
                invariant
                    it.seq() == all,
                    whole == json_of(v),
                    whole == JsonView::Object(entered(all)),
                    forall|i: int, j: int|
                        0 <= i < j < all.len() ==> (#[trigger] all[i]).0@ != (#[trigger] all[j]).0@,
                    o@ == entered(all.take(it.index() as int)),
            {
                proof {
                    let i = it.index() as int;
                    entry_is_entered(all, i);
                    let parts = whole->Object_0;
                    assert(decreases_to!(whole => parts));
                    assert(decreases_to!(parts => parts[all[i].0@]));
                    assert(all.take(i + 1).drop_last() =~= all.take(i));
                    assert(all.take(i + 1).last() == all[i]);
                }
                let (key, value) = entry;
                o.put(key.as_str(), document_of(value));
            }
            assert(all.take(all.len() as int) =~= all);
            Json::Object(o)
        },
    }
}

/// A `serde_json::Value` that holds the document.
fn value_of(j: &Json) -> (v: serde_json::Value)
    ensures
        json_of(v) == j@,
    decreases j,
{
    let layer = match j {
        Json::Null => Layer::Null,
        Json::Bool(b) => Layer::Bool(*b),
        Json::Number(n) => Layer::Number(copy_of(n)),
        Json::Text(s) => Layer::Text(s.clone()),
        Json::Array(items) => {
            let mut values: Vec<serde_json::Value> = Vec::new();
            let n: usize = items.len();
            for i in 0..n
                invariant
                    n == items@.len(),
                    j == Json::Array(*items),
                    values@.len() == i,
                    forall|k: int|
                        0 <= k < i ==> json_of(#[trigger] values@[k]) == items@[k]@,
            {
                proof {
                    assert(decreases_to!(*j => j->Array_0));
                    assert(decreases_to!(*items => items[i as int]));
                }
                values.push(value_of(&items[i]));
            }
            let layer = Layer::Array(values);
            assert(layered(layer)->Array_0 =~= j@->Array_0);
            layer
        },
        Json::Object(o) => {
            let mut m = no_members();
            let n: usize = o.entries.len();
            for i in 0..n
                invariant
                    n == o.entries@.len(),
                    j == Json::Object(*o),
                    members_of(m) == o.first_members(i as nat),
            {
                let entry = &o.entries[i];
                proof {
                    assert(decreases_to!(*j => j->Object_0));
                    assert(decreases_to!(*o => o.entries));
                    assert(decreases_to!(o.entries => o.entries[i as int]));
                    assert(decreases_to!(o.entries[i as int] => o.entries[i as int].1));
                }
                insert_member(&mut m, entry.0.clone(), value_of(&entry.1));
            }
            Layer::Object(m)
        },
    };
    close_value(layer)
}

/// Calls `Value::to_string`, which writes compact JSON, the members of an object
/// in the order of their names; the text is named by `json_text`.
#[verifier::external_body]
fn print_value(v: &serde_json::Value) -> (r: String)
    ensures
        r@ == json_text(json_of(*v)),
{
    v.to_string()
}

/// Calls `Number::as_i64`: the integer where the number is one that an `i64`
/// can hold; named by `number_as_i64`.
#[verifier::external_body]
fn i64_of(n: &serde_json::Number) -> (r: Option<i64>)
    ensures
        r == number_as_i64(*n),
{
    n.as_i64()
}

/// Calls `Number::from` on an `i64`: a number that reads back as that integer.
#[verifier::external_body]
fn number_of(i: i64) -> (r: serde_json::Number)
    ensures
        r == integer_number(i),
        number_as_i64(r) == Some(i),
{
    serde_json::Number::from(i)
}

/// `Clone` of `serde_json::Number` gives the same number.
#[verifier::external_body]
fn copy_of(n: &serde_json::Number) -> (r: serde_json::Number)
    ensures
        r == *n,
{
    n.clone()
}

// ---- reading ----------------------------------------------------------------------

/// The member of that name, where the document is an object that has one.
pub open spec fn field(v: JsonView, key: Seq<char>) -> Option<JsonView> {
    match v {
        JsonView::Object(m) => if m.contains_key(key) {
            Some(m[key])
        } else {
            None
        },
        _ => None,
    }
}

/// The document is an object that has members of those names and no others.
pub open spec fn has_just(v: JsonView, names: Set<Seq<char>>) -> bool {
    v matches JsonView::Object(m) && m.dom() == names
}

/// The item at that place, where the document is an array that has one.
pub open spec fn item(v: JsonView, i: int) -> Option<JsonView> {
    match v {
        JsonView::Array(items) => if 0 <= i < items.len() {
            Some(items[i])
        } else {
            None
        },
        _ => None,
    }
}

/// The text, where the document is one.
pub open spec fn as_text(v: JsonView) -> Option<Seq<char>> {
    match v {
        JsonView::Text(s) => Some(s),
        _ => None,
    }
}

/// The items, where the document is an array; none otherwise.
pub open spec fn items_of(v: JsonView) -> Seq<JsonView> {
    match v {
        JsonView::Array(items) => items,
        _ => Seq::empty(),
    }
}

/// The member of that name, where it is a text.
pub open spec fn text_field(v: JsonView, key: Seq<char>) -> Option<Seq<char>> {
    match field(v, key) {
        Some(JsonView::Text(s)) => Some(s),
        _ => None,
    }
}

/// The member of that name where it is a text, else the empty text.
pub open spec fn text_or_empty(v: JsonView, key: Seq<char>) -> Seq<char> {
    match text_field(v, key) {
        Some(s) => s,
        None => Seq::empty(),
    }
}

/// The member of that name, where it is true or false.
pub open spec fn bool_field(v: JsonView, key: Seq<char>) -> Option<bool> {
    match field(v, key) {
        Some(JsonView::Bool(b)) => Some(b),
        _ => None,
    }
}

/// The member of that name, where it is an integer.
pub open spec fn int_field(v: JsonView, key: Seq<char>) -> Option<i64> {
    match field(v, key) {
        Some(JsonView::Number(n)) => number_as_i64(n),
        _ => None,
    }
}

/// The items of the member of that name, where it is an array; none otherwise.
pub open spec fn items_field(v: JsonView, key: Seq<char>) -> Seq<JsonView> {
    match field(v, key) {
        Some(w) => items_of(w),
        None => Seq::empty(),
    }
}

/// The document, where there is one; null otherwise.
pub open spec fn or_null(r: Result<JsonView, Seq<char>>) -> JsonView {
    match r {
        Ok(v) => v,
        Err(_) => JsonView::Null,
    }
}

/// The member of the member: `a/b`.
pub open spec fn field_in(v: JsonView, outer: Seq<char>, inner: Seq<char>) -> Option<JsonView> {
    match field(v, outer) {
        Some(w) => field(w, inner),
        None => None,
    }
}

/// The member of the member, where it is a text.
pub open spec fn text_in(v: JsonView, outer: Seq<char>, inner: Seq<char>) -> Option<Seq<char>> {
    match field(v, outer) {
        Some(w) => text_field(w, inner),
        None => None,
    }
}

/// What `0` points at: the first item of an array, or the member of that name.
pub open spec fn pointed_first(v: JsonView) -> Option<JsonView> {
    match v {
        JsonView::Object(_) => field(v, "0"@),
        _ => item(v, 0),
    }
}

impl Json {
    /// The document that the text writes, or why it writes none.
    pub fn parse(text: &str) -> (r: Result<Json, String>)
        ensures
            match r {
                Ok(j) => parsed_json(text@) == Ok::<JsonView, Seq<char>>(j@),
                Err(e) => parsed_json(text@) == Err::<JsonView, Seq<char>>(e@),
            },
    {
        match parse_value(text) {
            Ok(v) => Ok(document_of(v)),
            Err(e) => Err(e),
        }
    }

    /// The items of the array that the bytes write, or why they write none.
    pub fn parse_list(bytes: &[u8]) -> (r: Result<Vec<Json>, String>)
        ensures
            match r {
                Ok(items) => parsed_list(bytes@) == Ok::<Seq<JsonView>, Seq<char>>(
                    items.deep_view(),
                ),
                Err(e) => parsed_list(bytes@) == Err::<Seq<JsonView>, Seq<char>>(e@),
            },
    {
        match parse_values(bytes) {
            Ok(values) => {
                let ghost all = values@;
                let mut items: Vec<Json> = Vec::new();
                for value in it: values
                    invariant
                        it.seq() == all,
                        items@.len() == it.index(),
                        forall|k: int|
                            0 <= k < items@.len() ==> (#[trigger] items@[k])@ == json_of(all[k]),
                {
                    items.push(document_of(value));
                }
                assert(items.deep_view() =~= all.map_values(|v: serde_json::Value| json_of(v)));
                Ok(items)
            },
            Err(e) => Err(e),
        }
    }

    /// The document that the text writes; null, where it writes none.
    pub fn parse_or_null(text: &str) -> (r: Json)
        ensures
            r@ == or_null(parsed_json(text@)),
    {
        match Json::parse(text) {
            Ok(j) => j,
            Err(_) => Json::Null,
        }
    }

    /// The document as compact text.
    pub fn to_text(&self) -> (r: String)
        ensures
            r@ == json_text(self@),
    {
        print_value(&value_of(self))
    }

    /// The document that a `serde_json::Value` holds.
    pub fn from_value(v: serde_json::Value) -> (r: Json)
        ensures
            r@ == json_of(v),
    {
        document_of(v)
    }

    /// The document as a `serde_json::Value`.
    pub fn to_value(&self) -> (r: serde_json::Value)
        ensures
            json_of(r) == self@,
    {
        value_of(self)
    }

    /// The text as a document.
    pub fn text(s: &str) -> (r: Json)
        ensures
            r@ == JsonView::Text(s@),
    {
        Json::Text(s.to_owned())
    }

    /// The text as a document, or null where there is none.
    pub fn optional_text(text: Option<&str>) -> (r: Json)
        ensures
            r@ == text_or_null(text.deep_view()),
    {
        match text {
            Some(text) => Json::text(text),
            None => Json::Null,
        }
    }

    /// The integer as a document. It reads back as that integer.
    pub fn integer(i: i64) -> (r: Json)
        ensures
            r@ == JsonView::Number(integer_number(i)),
            number_as_i64(integer_number(i)) == Some(i),
    {
        Json::Number(number_of(i))
    }

    /// The documents as an array.
    pub fn array(items: Vec<Json>) -> (r: Json)
        ensures
            r@ == JsonView::Array(items.deep_view()),
    {
        let r = Json::Array(items);
        proof {
            array_model(items);
        }
        r
    }

    /// The texts as an array.
    pub fn text_array(texts: &Vec<String>) -> (r: Json)
        ensures
            r@ == text_array_view(texts.deep_view()),
    {
        let mut items: Vec<Json> = Vec::new();
        let n: usize = texts.len();
        for i in 0..n
            invariant
                n == texts@.len(),
                items@.len() == i,
                forall|k: int| 0 <= k < i ==> (#[trigger] items@[k])@ == JsonView::Text(texts@[k]@),
        {
            items.push(Json::text(texts[i].as_str()));
        }
        let r = Json::array(items);
        assert(items.deep_view() =~= texts.deep_view().map_values(
            |s: Seq<char>| JsonView::Text(s),
        ));
        r
    }

    /// The member of that name, where the document is an object that has one.
    pub fn get(&self, key: &str) -> (r: Option<&Json>)
        ensures
            match r {
                Some(j) => field(self@, key@) == Some(j@),
                None => field(self@, key@) is None,
            },
    {
        match self {
            Json::Object(members) => members.get(key),
            _ => None,
        }
    }

    /// The item at that place, where the document is an array that has one.
    pub fn at(&self, i: usize) -> (r: Option<&Json>)
        ensures
            match r {
                Some(j) => item(self@, i as int) == Some(j@),
                None => item(self@, i as int) is None,
            },
    {
        match self {
            Json::Array(items) => if i < items.len() {
                Some(&items[i])
            } else {
                None
            },
            _ => None,
        }
    }

    /// The text, where the document is one.
    pub fn as_text(&self) -> (r: Option<&str>)
        ensures
            r.deep_view() == as_text(self@),
    {
        match self {
            Json::Text(s) => Some(s.as_str()),
            _ => None,
        }
    }

    /// The items, where the document is an array; none otherwise.
    pub fn items(&self) -> (r: &[Json])
        ensures
            items_of(self@) == r@.map_values(|j: Json| j@),
    {
        match self {
            Json::Array(items) => {
                proof {
                    array_model(*items);
                }
                assert(items.deep_view() =~= items@.map_values(|j: Json| j@));
                items.as_slice()
            },
            _ => {
                let none: &[Json] = &[];
                assert(none@.map_values(|j: Json| j@) =~= Seq::<JsonView>::empty());
                none
            },
        }
    }

    /// Whether the document is an object.
    pub fn is_object(&self) -> (r: bool)
        ensures
            r == (self@ is Object),
    {
        matches!(self, Json::Object(_))
    }

    /// Whether the document is an array.
    pub fn is_array(&self) -> (r: bool)
        ensures
            r == (self@ is Array),
    {
        matches!(self, Json::Array(_))
    }

    /// Whether the document is a text.
    pub fn is_text(&self) -> (r: bool)
        ensures
            r == (self@ is Text),
    {
        matches!(self, Json::Text(_))
    }

    /// Whether the document is a number.
    pub fn is_number(&self) -> (r: bool)
        ensures
            r == (self@ is Number),
    {
        matches!(self, Json::Number(_))
    }

    /// The member of that name, where it is a text.
    pub fn text_at(&self, key: &str) -> (r: Option<&str>)
        ensures
            r.deep_view() == text_field(self@, key@),
    {
        match self.get(key) {
            Some(Json::Text(s)) => Some(s.as_str()),
            _ => None,
        }
    }

    /// The member of the member, where it is a text.
    pub fn text_within(&self, outer: &str, inner: &str) -> (r: Option<&str>)
        ensures
            r.deep_view() == text_in(self@, outer@, inner@),
    {
        match self.get(outer) {
            Some(j) => j.text_at(inner),
            None => None,
        }
    }

    /// What `0` points at: the first item of an array, or the member of that name.
    pub fn first(&self) -> (r: Option<&Json>)
        ensures
            match r {
                Some(j) => pointed_first(self@) == Some(j@),
                None => pointed_first(self@) is None,
            },
    {
        if self.is_object() {
            self.get("0")
        } else {
            self.at(0)
        }
    }

    /// The member of that name where it is a text, else the empty text.
    pub fn text_or_empty(&self, key: &str) -> (r: &str)
        ensures
            r@ == text_or_empty(self@, key@),
    {
        match self.text_at(key) {
            Some(s) => s,
            None => {
                proof {
                    reveal_strlit("");
                    assert(""@ =~= Seq::empty());
                }
                ""
            },
        }
    }

    /// The member of that name, where it is true or false.
    pub fn bool_at(&self, key: &str) -> (r: Option<bool>)
        ensures
            r == bool_field(self@, key@),
    {
        match self.get(key) {
            Some(Json::Bool(b)) => Some(*b),
            _ => None,
        }
    }

    /// The member of that name, where it is an integer.
    pub fn int_at(&self, key: &str) -> (r: Option<i64>)
        ensures
            r == int_field(self@, key@),
    {
        match self.get(key) {
            Some(Json::Number(n)) => i64_of(n),
            _ => None,
        }
    }

    /// The items of the member of that name, where it is an array; none otherwise.
    pub fn items_at(&self, key: &str) -> (r: &[Json])
        ensures
            items_field(self@, key@) == r@.map_values(|j: Json| j@),
    {
        match self.get(key) {
            Some(j) => j.items(),
            None => Json::Null.items(),
        }
    }

    /// A copy of the document.
    #[verifier::loop_isolation(false)]
    pub fn copy(&self) -> (r: Json)
        ensures
            r@ == self@,
        decreases self,
    {
        match self {
            Json::Null => Json::Null,
            Json::Bool(b) => Json::Bool(*b),
            Json::Number(n) => Json::Number(copy_of(n)),
            Json::Text(s) => Json::Text(s.clone()),
            Json::Array(items) => {
                let mut out: Vec<Json> = Vec::new();
                let n: usize = items.len();
                for i in 0..n
                    invariant
                        n == items@.len(),
                        self == Json::Array(*items),
                        out@.len() == i,
                        forall|k: int| 0 <= k < i ==> (#[trigger] out@[k])@ == items@[k]@,
                {
                    assert(decreases_to!(*items => items[i as int]));
                    out.push(items[i].copy());
                }
                proof {
                    array_model(*items);
                    assert(out.deep_view() =~= items.deep_view());
                }
                Json::array(out)
            },
            Json::Object(members) => {
                let mut out = Object::new();
                let n: usize = members.entries.len();
                for i in 0..n
                    invariant
                        n == members.entries@.len(),
                        self == Json::Object(*members),
                        out@ == members.first_members(i as nat),
                {
                    assert(decreases_to!(members.entries => members.entries[i as int]));
                    out.put(members.entries[i].0.as_str(), members.entries[i].1.copy());
                }
                Json::Object(out)
            },
        }
    }
}

/// The text as a document, or null where there is none.
pub open spec fn text_or_null(text: Option<Seq<char>>) -> JsonView {
    match text {
        Some(text) => JsonView::Text(text),
        None => JsonView::Null,
    }
}

/// The texts as a JSON array.
pub open spec fn text_array_view(texts: Seq<Seq<char>>) -> JsonView {
    JsonView::Array(texts.map_values(|s: Seq<char>| JsonView::Text(s)))
}

/// An array's document is the array of its items' documents.
proof fn array_model(items: Vec<Json>)
    ensures
        Json::Array(items).model() == JsonView::Array(items.deep_view()),
{
    assert(Json::Array(items).model()->Array_0 =~= items.deep_view());
}

impl Object {
    /// An object without members.
    pub fn new() -> (r: Object)
        ensures
            r@ == Map::<Seq<char>, JsonView>::empty(),
    {
        Object { entries: Vec::new() }
    }

    /// Gives the object that member, in place of one of the same name.
    pub fn put(&mut self, key: &str, value: Json)
        ensures
            final(self)@ == old(self)@.insert(key@, value@),
    {
        let ghost before = *self;
        self.entries.push((key.to_owned(), value));
        proof {
            same_first_members(before, *self, before.entries@.len());
        }
    }

    /// Gives the object a text as that member.
    pub fn put_text(&mut self, key: &str, text: &str)
        ensures
            final(self)@ == old(self)@.insert(key@, JsonView::Text(text@)),
    {
        self.put(key, Json::text(text));
    }

    /// The member of that name, where there is one.
    pub fn get(&self, key: &str) -> (r: Option<&Json>)
        ensures
            match r {
                Some(j) => self@.contains_key(key@) && self@[key@] == j@,
                None => !self@.contains_key(key@),
            },
    {
        let mut n: usize = self.entries.len();
        while n > 0
            invariant
                n <= self.entries@.len(),
                self@.contains_key(key@) == self.first_members(n as nat).contains_key(key@),
                self@.contains_key(key@) ==> self@[key@] == self.first_members(n as nat)[key@],
            decreases n,
        {
            let entry = &self.entries[n - 1];
            if same(entry.0.as_str(), key) {
                return Some(&entry.1);
            }
            n = n - 1;
        }
        None
    }
}

proof fn same_first_members(a: Object, b: Object, n: nat)
    requires
        n <= a.entries@.len() <= b.entries@.len(),
        forall|i: int| 0 <= i < n ==> a.entries@[i] == b.entries@[i],
    ensures
        a.first_members(n) == b.first_members(n),
    decreases n,
{
    if n > 0 {
        same_first_members(a, b, (n - 1) as nat);
    }
}

// ---- laws ---------------------------------------------------------------------------

/// A member is read by its name, as what it is: a text as its text, a truth value as
/// that, an array as its items.
pub proof fn a_member_is_read_as_what_it_is(
    members: Map<Seq<char>, JsonView>,
    key: Seq<char>,
    text: Seq<char>,
    truth: bool,
    n: serde_json::Number,
    items: Seq<JsonView>,
)
    requires
        members.contains_key(key),
    ensures
        field(JsonView::Object(members), key) == Some(members[key]),
        members[key] == JsonView::Text(text) ==> text_field(JsonView::Object(members), key) == Some(
            text,
        ) && text_or_empty(JsonView::Object(members), key) == text,
        members[key] == JsonView::Bool(truth) ==> bool_field(JsonView::Object(members), key)
            == Some(truth),
        members[key] == JsonView::Number(n) ==> int_field(JsonView::Object(members), key)
            == number_as_i64(n),
        members[key] == JsonView::Array(items) ==> items_field(JsonView::Object(members), key)
            == items,
{
}

/// What is not there, or is of another kind, is not read: there is no such text, truth
/// value or integer, the text is empty, and there are no items.
pub proof fn what_is_not_there_is_not_read(v: JsonView, key: Seq<char>)
    ensures
        !(v is Object) || !v->Object_0.contains_key(key) ==> field(v, key) is None,
        !(field(v, key) matches Some(w) && w is Text) ==> text_field(v, key) is None
            && text_or_empty(v, key).len() == 0,
        !(field(v, key) matches Some(w) && w is Bool) ==> bool_field(v, key) is None,
        !(field(v, key) matches Some(w) && w is Number) ==> int_field(v, key) is None,
        !(field(v, key) matches Some(w) && w is Array) ==> items_field(v, key).len() == 0,
{
}

/// A member of a member is read in two steps.
pub proof fn a_member_of_a_member(v: JsonView, w: JsonView, outer: Seq<char>, inner: Seq<char>)
    ensures
        field(v, outer) == Some(w) ==> field_in(v, outer, inner) == field(w, inner) && text_in(
            v,
            outer,
            inner,
        ) == text_field(w, inner),
        field(v, outer) is None ==> field_in(v, outer, inner) is None && text_in(v, outer, inner)
            is None,
{
}

/// An array is read by its places, from nought; `0` points at the first of them, or at
/// the member that is named so.
pub proof fn an_array_is_read_by_its_places(items: Seq<JsonView>, i: int, v: JsonView)
    ensures
        0 <= i < items.len() ==> item(JsonView::Array(items), i) == Some(items[i]),
        !(0 <= i < items.len()) ==> item(JsonView::Array(items), i) is None,
        !(v is Array) ==> item(v, i) is None && items_of(v).len() == 0,
        items_of(JsonView::Array(items)) == items,
        items.len() > 0 ==> pointed_first(JsonView::Array(items)) == Some(items[0]),
        items.len() == 0 ==> pointed_first(JsonView::Array(items)) is None,
        v is Object ==> pointed_first(v) == field(v, "0"@),
        v is Text || v is Number || v is Bool || v is Null ==> pointed_first(v) is None,
{
}

/// Texts are written as they are, each in its place; what is missing is written as
/// null, and what cannot be read is null.
pub proof fn texts_are_written_as_they_are(text: Seq<char>, texts: Seq<Seq<char>>, v: JsonView)
    ensures
        text_or_null(Some(text)) == JsonView::Text(text),
        text_or_null(None) == JsonView::Null,
        as_text(JsonView::Text(text)) == Some(text),
        !(v is Text) ==> as_text(v) is None,
        items_of(text_array_view(texts)).len() == texts.len(),
        forall|i: int|
            0 <= i < texts.len() ==> as_text(#[trigger] items_of(text_array_view(texts))[i])
                == Some(texts[i]),
        or_null(Ok(v)) == v,
        or_null(Err(text)) == JsonView::Null,
{
}

} // verus!
