//! JSON documents: parsing behind `serde_json`, then plain trees with lookups.
use vstd::prelude::*;

use crate::number::Double;
use crate::text;

verus! {

/// A JSON document as a plain tree.
#[derive(Debug)]
pub enum Json {
    Null,
    Bool(bool),
    /// A number as a double, if it can be had as one.
    Number(Option<Double>),
    Text(String),
    List(Vec<Json>),
    /// The entries of an object.
    Object(Vec<(String, Json)>),
}

/// What a [`Json`] says.
#[verifier::ext_equal]
pub enum JsonModel {
    Null,
    Bool(bool),
    Number(Option<Double>),
    Text(Seq<char>),
    List(Seq<JsonModel>),
    Object(Seq<(Seq<char>, JsonModel)>),
}

impl Json {
    pub open spec fn model(self) -> JsonModel
        decreases self,
    {
        match self {
            Json::Null => JsonModel::Null,
            Json::Bool(b) => JsonModel::Bool(b),
            Json::Number(n) => JsonModel::Number(n),
            Json::Text(t) => JsonModel::Text(t@),
            Json::List(items) => JsonModel::List(items_model(items@)),
            Json::Object(entries) => JsonModel::Object(entries_model(entries@)),
        }
    }
}

pub open spec fn items_model(items: Seq<Json>) -> Seq<JsonModel>
    decreases items,
{
    if items.len() == 0 {
        Seq::empty()
    } else {
        items_model(items.drop_last()).push(items.last().model())
    }
}

pub open spec fn entries_model(entries: Seq<(String, Json)>) -> Seq<(Seq<char>, JsonModel)>
    decreases entries,
{
    if entries.len() == 0 {
        Seq::empty()
    } else {
        entries_model(entries.drop_last()).push((entries.last().0@, entries.last().1.model()))
    }
}

impl DeepView for Json {
    type V = JsonModel;

    open spec fn deep_view(&self) -> JsonModel {
        self.model()
    }
}

pub proof fn lemma_items(items: Seq<Json>)
    ensures
        items_model(items).len() == items.len(),
        forall|i: int|
            0 <= i < items.len() ==> #[trigger] items_model(items)[i] == items[i].model(),
    decreases items.len(),
{
    if items.len() > 0 {
        let t = items.drop_last();
        lemma_items(t);
        assert forall|i: int| 0 <= i < items.len() implies #[trigger] items_model(items)[i]
            == items[i].model() by {
            if i < t.len() {
                assert(items_model(items)[i] == items_model(t)[i]);
                assert(t[i] == items[i]);
            }
        }
    }
}

pub proof fn lemma_entries(entries: Seq<(String, Json)>)
    ensures
        entries_model(entries).len() == entries.len(),
        forall|i: int|
            0 <= i < entries.len() ==> #[trigger] entries_model(entries)[i] == (
                entries[i].0@,
                entries[i].1.model(),
            ),
    decreases entries.len(),
{
    if entries.len() > 0 {
        let t = entries.drop_last();
        lemma_entries(t);
        assert forall|i: int| 0 <= i < entries.len() implies #[trigger] entries_model(entries)[i]
            == (entries[i].0@, entries[i].1.model()) by {
            if i < t.len() {
                assert(entries_model(entries)[i] == entries_model(t)[i]);
                assert(t[i] == entries[i]);
            }
        }
    }
}

// ---------------------------------------------------------------------------
// Lookups
// ---------------------------------------------------------------------------

/// The value of the first entry with `key`, or null.
pub open spec fn entry_of(entries: Seq<(Seq<char>, JsonModel)>, key: Seq<char>) -> JsonModel
    decreases entries.len(),
{
    if entries.len() == 0 {
        JsonModel::Null
    } else if entries[0].0 == key {
        entries[0].1
    } else {
        entry_of(entries.drop_first(), key)
    }
}

impl JsonModel {
    /// The field `key` of an object; null where there is none.
    pub open spec fn field(self, key: Seq<char>) -> JsonModel {
        match self {
            JsonModel::Object(entries) => entry_of(entries, key),
            _ => JsonModel::Null,
        }
    }

    /// The element `i` of a list; null where there is none.
    pub open spec fn item(self, i: int) -> JsonModel {
        match self {
            JsonModel::List(items) => if 0 <= i < items.len() {
                items[i]
            } else {
                JsonModel::Null
            },
            _ => JsonModel::Null,
        }
    }

    pub open spec fn as_text(self) -> Option<Seq<char>> {
        match self {
            JsonModel::Text(t) => Some(t),
            _ => None,
        }
    }

    pub open spec fn as_number(self) -> Option<Double> {
        match self {
            JsonModel::Number(n) => n,
            _ => None,
        }
    }

    /// The text of a field, or `default`.
    pub open spec fn text_or(self, key: Seq<char>, default: Seq<char>) -> Seq<char> {
        match self.field(key).as_text() {
            Some(t) => t,
            None => default,
        }
    }

    /// The number of a field, or `default`.
    pub open spec fn number_or(self, key: Seq<char>, default: Double) -> Double {
        match self.field(key).as_number() {
            Some(n) => n,
            None => default,
        }
    }

    /// The elements of a list field; none where there is no list.
    pub open spec fn list_or_none(self, key: Seq<char>) -> Seq<JsonModel> {
        match self.field(key) {
            JsonModel::List(items) => items,
            _ => Seq::empty(),
        }
    }
}

/// A field is what the first entry with its key says: entries with other keys, and entries behind
/// that one, make no difference. Without such an entry it is null, and so is any field of what is
/// no object.
pub proof fn law_field(entries: Seq<(Seq<char>, JsonModel)>, key: Seq<char>, i: int)
    ensures
        0 <= i < entries.len() && entries[i].0 == key && (forall|j: int|
            0 <= j < i ==> (#[trigger] entries[j]).0 != key) ==> JsonModel::Object(entries).field(
            key,
        ) == entries[i].1,
        (forall|j: int| 0 <= j < entries.len() ==> (#[trigger] entries[j]).0 != key)
            ==> JsonModel::Object(entries).field(key) == JsonModel::Null,
    decreases entries.len(),
{
    if entries.len() > 0 {
        let t = entries.drop_first();
        law_field(t, key, i - 1);
        if 0 < i < entries.len() && (forall|j: int| 0 <= j < i ==> (#[trigger] entries[j]).0 != key) {
            assert(entries[0].0 != key);
            assert forall|j: int| 0 <= j < i - 1 implies (#[trigger] t[j]).0 != key by {
                assert(t[j] == entries[j + 1]);
            }
        }
        if forall|j: int| 0 <= j < entries.len() ==> (#[trigger] entries[j]).0 != key {
            assert(entries[0].0 != key);
            assert forall|j: int| 0 <= j < t.len() implies (#[trigger] t[j]).0 != key by {
                assert(t[j] == entries[j + 1]);
            }
        }
    }
}

/// Texts, numbers and lists are read as they stand, and the default comes only where the field is
/// something else.
pub proof fn law_field_read(doc: JsonModel, key: Seq<char>, text: Seq<char>, number: Double)
    ensures
        doc.field(key) matches JsonModel::Text(t) ==> doc.text_or(key, text) == t,
        !(doc.field(key) is Text) ==> doc.text_or(key, text) == text,
        doc.field(key) matches JsonModel::Number(Some(n)) ==> doc.number_or(key, number) == n,
        !(doc.field(key) matches JsonModel::Number(Some(_))) ==> doc.number_or(key, number)
            == number,
        doc.field(key) matches JsonModel::List(items) ==> doc.list_or_none(key) == items,
        !(doc.field(key) is List) ==> doc.list_or_none(key).len() == 0,
{
}

impl Json {
    /// The field `key` of an object, unless it has none.
    pub fn field<'a>(&'a self, key: &str) -> (r: Option<&'a Json>)
        ensures
            match r {
                Some(j) => j.deep_view() == self.deep_view().field(key@),
                None => self.deep_view().field(key@) == JsonModel::Null,
            },
    {
        match self {
            Json::Object(entries) => {
                let mut i: usize = 0;
                let ghost all = entries_model(entries@);
                proof {
                    lemma_entries(entries@);
                    assert(all.skip(0) == all);
                }
                while i < entries.len()
                    invariant
                        i <= entries.len(),
                        all == entries_model(entries@),
                        entry_of(all, key@) == entry_of(all.skip(i as int), key@),
                        self.deep_view() == JsonModel::Object(all),
                    decreases entries.len() - i,
                {
                    proof {
                        lemma_entries(entries@);
                        assert(all.skip(i as int)[0] == all[i as int]);
                        assert(all.skip(i as int).drop_first() == all.skip(i + 1));
                    }
                    if text::same_str(entries[i].0.as_str(), key) {
                        return Some(&entries[i].1);
                    }
                    i = i + 1;
                }
                None
            },
            _ => None,
        }
    }

    /// The element `i` of a list, unless it has none.
    pub fn item<'a>(&'a self, i: usize) -> (r: Option<&'a Json>)
        ensures
            match r {
                Some(j) => j.deep_view() == self.deep_view().item(i as int),
                None => self.deep_view().item(i as int) == JsonModel::Null,
            },
    {
        match self {
            Json::List(items) => {
                proof {
                    lemma_items(items@);
                }
                if i < items.len() {
                    Some(&items[i])
                } else {
                    None
                }
            },
            _ => None,
        }
    }

    /// The text of a field, if it is a text.
    pub fn text_of(&self, key: &str) -> (r: Option<String>)
        ensures
            r.deep_view() == self.deep_view().field(key@).as_text(),
    {
        match self.field(key) {
            Some(Json::Text(t)) => Some(t.clone()),
            _ => None,
        }
    }

    /// The number of a field, if it is a number.
    pub fn number_of(&self, key: &str) -> (r: Option<Double>)
        ensures
            r == self.deep_view().field(key@).as_number(),
    {
        match self.field(key) {
            Some(Json::Number(n)) => *n,
            _ => None,
        }
    }

    /// The text of a field, or `default`.
    pub fn text_or(&self, key: &str, default: &str) -> (r: String)
        ensures
            r@ == self.deep_view().text_or(key@, default@),
    {
        match self.text_of(key) {
            Some(t) => t,
            None => default.to_owned(),
        }
    }

    /// The number of a field, or `default`.
    pub fn number_or(&self, key: &str, default: Double) -> (r: Double)
        ensures
            r == self.deep_view().number_or(key@, default),
    {
        match self.number_of(key) {
            Some(n) => n,
            None => default,
        }
    }
}

// ---------------------------------------------------------------------------
// Parsing
// ---------------------------------------------------------------------------

/// A value of `serde_json`, unopened.
#[verifier::external_type_specification]
#[verifier::external_body]
pub struct ExValue(serde_json::Value);

/// The tree that a value of `serde_json` holds.
pub uninterp spec fn value_tree(v: serde_json::Value) -> JsonModel;

/// One level of a value of `serde_json`.
enum Node {
    Null,
    Bool(bool),
    Number(Option<Double>),
    Text(String),
    List(Vec<serde_json::Value>),
    Object(Vec<(String, serde_json::Value)>),
}

impl Node {
    /// The tree of which this is the top level.
    spec fn tree(self) -> JsonModel {
        match self {
            Node::Null => JsonModel::Null,
            Node::Bool(b) => JsonModel::Bool(b),
            Node::Number(n) => JsonModel::Number(n),
            Node::Text(t) => JsonModel::Text(t@),
            Node::List(items) => JsonModel::List(
                items@.map_values(|v: serde_json::Value| value_tree(v)),
            ),
            Node::Object(entries) => JsonModel::Object(
                entries@.map_values(|e: (String, serde_json::Value)| (e.0@, value_tree(e.1))),
            ),
        }
    }
}

/// The variant of a `serde_json::Value` with what it carries: a number by `Number::as_f64`, the
/// entries of a map in the map's order.
#[verifier::external_body]
fn open_value(v: serde_json::Value) -> (r: Node)
    ensures
        r.tree() == value_tree(v),
{
    match v {
        serde_json::Value::Null => Node::Null,
        serde_json::Value::Bool(b) => Node::Bool(b),
        serde_json::Value::Number(n) => Node::Number(n.as_f64().map(|x| Double { bits: x.to_bits() })),
        serde_json::Value::String(t) => Node::Text(t),
        serde_json::Value::Array(items) => Node::List(items),
        serde_json::Value::Object(map) => Node::Object(map.into_iter().collect()),
    }
}

/// What `serde_json::from_str` makes of a text: a document, or the message of its error.
pub uninterp spec fn json_document(text: Seq<char>) -> Result<JsonModel, Seq<char>>;

/// A text parsed by `serde_json::from_str` into a `serde_json::Value`: a function of the text, as
/// is the message of the error where it is no document.
#[verifier::external_body]
fn parse_value(text: &str) -> (r: Result<serde_json::Value, String>)
    ensures
        match r {
            Ok(v) => json_document(text@) == Ok::<JsonModel, Seq<char>>(value_tree(v)),
            Err(e) => json_document(text@) == Err::<JsonModel, Seq<char>>(e@),
        },
{
    serde_json::from_str::<serde_json::Value>(text).map_err(|e| e.to_string())
}

/// A value opened all the way down.
fn json_of(v: serde_json::Value) -> (r: Json)
    ensures
        r.deep_view() == value_tree(v),
    decreases value_tree(v),
{
    let ghost tree = value_tree(v);
    match open_value(v) {
        Node::Null => Json::Null,
        Node::Bool(b) => Json::Bool(b),
        Node::Number(n) => Json::Number(n),
        Node::Text(t) => Json::Text(t),
        Node::List(items) => {
            let ghost below = items@.map_values(|v: serde_json::Value| value_tree(v));
            assert(tree == JsonModel::List(below));
            let mut out: Vec<Json> = Vec::new();
            for item in it: items
                invariant
                    tree == value_tree(v),
                    tree == JsonModel::List(below),
                    it.seq().map_values(|v: serde_json::Value| value_tree(v)) == below,
                    out@.len() == it.index(),
                    items_model(out@) == below.take(it.index()),
            {
                let ghost k = it.index();
                let ghost before = out@;
                assert(value_tree(item) == below[k]);
                assert(decreases_to!(tree => tree->List_0));
                assert(decreases_to!(tree->List_0 => tree->List_0[k]));
                out.push(json_of(item));
                assert(out@.drop_last() == before);
                assert(below.take(k + 1) == below.take(k).push(below[k]));
            }
            assert(below.take(below.len() as int) == below);
            Json::List(out)
        },
        Node::Object(entries) => {
            let ghost below = entries@.map_values(
                |e: (String, serde_json::Value)| (e.0@, value_tree(e.1)),
            );
            assert(tree == JsonModel::Object(below));
            let mut out: Vec<(String, Json)> = Vec::new();
            for entry in it: entries
                invariant
                    tree == value_tree(v),
                    tree == JsonModel::Object(below),
                    it.seq().map_values(
                        |e: (String, serde_json::Value)| (e.0@, value_tree(e.1)),
                    ) == below,
                    out@.len() == it.index(),
                    entries_model(out@) == below.take(it.index()),
            {
                let ghost k = it.index();
                let ghost before = out@;
                let (key, item) = entry;
                assert((key@, value_tree(item)) == below[k]);
                assert(decreases_to!(tree => tree->Object_0));
                assert(decreases_to!(tree->Object_0 => tree->Object_0[k]));
                assert(decreases_to!(tree->Object_0[k] => tree->Object_0[k].1));
                out.push((key, json_of(item)));
                assert(out@.drop_last() == before);
                assert(below.take(k + 1) == below.take(k).push(below[k]));
            }
            assert(below.take(below.len() as int) == below);
            Json::Object(out)
        },
    }
}

/// The document of a text, or the message that says why there is none.
pub fn parse(text: &str) -> (r: Result<Json, String>)
    ensures
        match r {
            Ok(j) => json_document(text@) == Ok::<JsonModel, Seq<char>>(j.deep_view()),
            Err(e) => json_document(text@) == Err::<JsonModel, Seq<char>>(e@),
        },
{
    match parse_value(text) {
        Ok(v) => Ok(json_of(v)),
        Err(e) => Err(e),
    }
}

// ---------------------------------------------------------------------------
// Lists of texts
// ---------------------------------------------------------------------------

/// What `serde_json::to_string` makes of a list of texts.
pub uninterp spec fn json_of_texts(list: Seq<Seq<char>>) -> Seq<char>;

/// What `serde_json::from_str` reads as a list of texts, if it can.
pub uninterp spec fn texts_of_json(text: Seq<char>) -> Option<Seq<Seq<char>>>;

/// A list of texts as JSON, by `serde_json::to_string`, which does not fail on such a list: a
/// function of the list. `serde_json::from_str` reads the result as the same list.
#[verifier::external_body]
pub(crate) fn write_texts(list: &Vec<String>) -> (r: String)
    ensures
        r@ == json_of_texts(list.deep_view()),
        texts_of_json(r@) == Some(list.deep_view()),
{
    serde_json::to_string(list).unwrap_or_default()
}

/// A list of texts from JSON, by `serde_json::from_str`, if it is one: a function of the text.
#[verifier::external_body]
pub(crate) fn read_texts(text: &str) -> (r: Option<Vec<String>>)
    ensures
        r.deep_view() == texts_of_json(text@),
{
    serde_json::from_str::<Vec<String>>(text).ok()
}

} // verus!
