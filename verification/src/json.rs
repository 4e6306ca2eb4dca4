//! JSON documents as plain values.

use vstd::prelude::*;
use crate::text;

verus! {

/// A JSON value. All but the constants also carry their compact text.
#[derive(Debug)]
pub enum Json {
    Null,
    Bool(bool),
    /// `whole` is the value where the number is an integer in the range of
    /// `i64`.
    Number { whole: Option<i64>, text: String },
    Text { value: String, text: String },
    List { items: Vec<Json>, text: String },
    /// The fields by their names.
    Record { names: Vec<String>, values: Vec<Json>, text: String },
}

/// A JSON value with its texts and lists as sequences.
pub enum JsonView {
    Null,
    Bool(bool),
    Number { whole: Option<i64>, text: Seq<char> },
    Text { value: Seq<char>, text: Seq<char> },
    List { items: Seq<JsonView>, text: Seq<char> },
    Record { names: Seq<Seq<char>>, values: Seq<JsonView>, text: Seq<char> },
}

pub open spec fn json_view(j: Json) -> JsonView
    decreases j,
{
    match j {
        Json::Null => JsonView::Null,
        Json::Bool(b) => JsonView::Bool(b),
        Json::Number { whole, text } => JsonView::Number { whole, text: text@ },
        Json::Text { value, text } => JsonView::Text { value: value@, text: text@ },
        Json::List { items, text } => JsonView::List { items: json_views(items@), text: text@ },
        Json::Record { names, values, text } => JsonView::Record {
            names: text::texts(names@),
            values: json_views(values@),
            text: text@,
        },
    }
}

pub open spec fn json_views(v: Seq<Json>) -> Seq<JsonView>
    decreases v,
{
    if v.len() == 0 {
        Seq::empty()
    } else {
        json_views(v.drop_last()).push(json_view(v.last()))
    }
}

impl View for Json {
    type V = JsonView;

    open spec fn view(&self) -> JsonView {
        json_view(*self)
    }
}

/// The views of a list stand where its items do.
pub proof fn lemma_json_views(v: Seq<Json>)
    ensures
        json_views(v).len() == v.len(),
        forall|i: int| 0 <= i < v.len() ==> #[trigger] json_views(v)[i] == v[i]@,
    decreases v.len(),
{
    if v.len() > 0 {
        lemma_json_views(v.drop_last());
        assert forall|i: int| 0 <= i < v.len() implies #[trigger] json_views(v)[i] == v[i]@ by {
            if i < v.len() - 1 {
                assert(json_views(v.drop_last())[i] == v.drop_last()[i]@);
            }
        }
    }
}

/// `serde_json::Value`, a parsed document.
#[verifier::external_type_specification]
#[verifier::external_body]
pub struct ExValue(serde_json::Value);

/// What `serde_json::from_str` reads from a text: the document, or the text
/// of the error.
pub uninterp spec fn json_of(text: Seq<char>) -> Result<JsonView, Seq<char>>;

/// `serde_json::from_str` into a `serde_json::Value`, converted node by node.
/// The result depends on the text alone; the grammar is left to the crate.
#[verifier::external_body]
pub(crate) fn parse_json(text: &str) -> (r: Result<Json, String>)
    ensures
        match r {
            Ok(j) => json_of(text@) == Ok::<JsonView, Seq<char>>(j@),
            Err(e) => json_of(text@) == Err::<JsonView, Seq<char>>(e@),
        },
{
    match serde_json::from_str::<serde_json::Value>(text) {
        Ok(v) => Ok(json_from(v)),
        Err(e) => Err(e.to_string()),
    }
}

/// What `serde_json::from_slice` reads from bytes: the document, or the text
/// of the error.
pub uninterp spec fn json_of_bytes(bytes: Seq<u8>) -> Result<JsonView, Seq<char>>;

/// `serde_json::from_slice` into a `serde_json::Value`, converted node by
/// node. The result depends on the bytes alone; the grammar is left to the
/// crate.
#[verifier::external_body]
pub(crate) fn parse_json_bytes(bytes: &Vec<u8>) -> (r: Result<Json, String>)
    ensures
        match r {
            Ok(j) => json_of_bytes(bytes@) == Ok::<JsonView, Seq<char>>(j@),
            Err(e) => json_of_bytes(bytes@) == Err::<JsonView, Seq<char>>(e@),
        },
{
    match serde_json::from_slice::<serde_json::Value>(bytes) {
        Ok(v) => Ok(json_from(v)),
        Err(e) => Err(e.to_string()),
    }
}

/// A `serde_json::Value` in the library's own type: one variant for each of
/// its variants, with the same contents and the compact text that
/// `Value::to_string` prints.
#[verifier::external_body]
fn json_from(v: serde_json::Value) -> Json {
    let text = v.to_string();
    match v {
        serde_json::Value::Null => Json::Null,
        serde_json::Value::Bool(b) => Json::Bool(b),
        serde_json::Value::Number(n) => Json::Number { whole: n.as_i64(), text },
        serde_json::Value::String(value) => Json::Text { value, text },
        serde_json::Value::Array(a) => Json::List { items: a.into_iter().map(json_from).collect(), text },
        serde_json::Value::Object(m) => {
            let (names, values) = m.into_iter().map(|(k, e)| (k, json_from(e))).unzip();
            Json::Record { names, values, text }
        },
    }
}

/// The value of the first field of that name from position `i` on.
pub open spec fn field_from(
    names: Seq<Seq<char>>,
    values: Seq<JsonView>,
    key: Seq<char>,
    i: int,
) -> Option<JsonView>
    decreases names.len() - i,
{
    if i < 0 || i >= names.len() || i >= values.len() {
        None
    } else if names[i] == key {
        Some(values[i])
    } else {
        field_from(names, values, key, i + 1)
    }
}

impl JsonView {
    /// The value of a record's field.
    pub open spec fn field(self, key: Seq<char>) -> Option<JsonView> {
        match self {
            JsonView::Record { names, values, .. } => field_from(names, values, key, 0),
            _ => None,
        }
    }

    /// The text of a text value.
    pub open spec fn as_text(self) -> Option<Seq<char>> {
        match self {
            JsonView::Text { value, .. } => Some(value),
            _ => None,
        }
    }

    /// The value of an integer.
    pub open spec fn as_int(self) -> Option<i64> {
        match self {
            JsonView::Number { whole, .. } => whole,
            _ => None,
        }
    }

    /// The items of a list.
    pub open spec fn as_list(self) -> Option<Seq<JsonView>> {
        match self {
            JsonView::List { items, .. } => Some(items),
            _ => None,
        }
    }

    /// The compact text of a value.
    pub open spec fn compact(self) -> Seq<char> {
        match self {
            JsonView::Null => "null"@,
            JsonView::Bool(b) => if b { "true"@ } else { "false"@ },
            JsonView::Number { text, .. } => text,
            JsonView::Text { text, .. } => text,
            JsonView::List { text, .. } => text,
            JsonView::Record { text, .. } => text,
        }
    }

    /// The text of a record's field.
    pub open spec fn text_field(self, key: Seq<char>) -> Option<Seq<char>> {
        match self.field(key) {
            Some(v) => v.as_text(),
            None => None,
        }
    }

    /// The text of a record's field, or a default.
    pub open spec fn text_field_or(self, key: Seq<char>, default: Seq<char>) -> Seq<char> {
        match self.text_field(key) {
            Some(s) => s,
            None => default,
        }
    }

    /// The integer of a record's field.
    pub open spec fn int_field(self, key: Seq<char>) -> Option<i64> {
        match self.field(key) {
            Some(v) => v.as_int(),
            None => None,
        }
    }
}

impl Json {
    pub fn get(&self, key: &str) -> (r: Option<&Json>)
        ensures
            match r {
                Some(v) => self@.field(key@) == Some(v@),
                None => self@.field(key@) is None,
            },
    {
        match self {
            Json::Record { names, values, .. } => {
                proof {
                    lemma_json_views(values@);
                }
                let ghost ns = text::texts(names@);
                let ghost vs = json_views(values@);
                let mut i: usize = 0;
                while i < names.len() && i < values.len()
                    invariant
                        i <= names@.len(),
                        i <= values@.len(),
                        ns == text::texts(names@),
                        vs == json_views(values@),
                        vs.len() == values@.len(),
                        forall|k: int| 0 <= k < values@.len() ==> #[trigger] vs[k] == values@[k]@,
                        self@.field(key@) == field_from(ns, vs, key@, i as int),
                    decreases names@.len() - i,
                {
                    assert(ns[i as int] == names@[i as int]@);
                    assert(vs[i as int] == values@[i as int]@);
                    if text::same(&names[i], key) {
                        return Some(&values[i]);
                    }
                    i = i + 1;
                }
                None
            },
            _ => None,
        }
    }

    pub fn is_record(&self) -> (r: bool)
        ensures
            r == (self@ is Record),
    {
        match self {
            Json::Record { .. } => true,
            _ => false,
        }
    }

    pub fn string(&self) -> (r: Option<&String>)
        ensures
            match r {
                Some(s) => self@.as_text() == Some(s@),
                None => self@.as_text() is None,
            },
    {
        match self {
            Json::Text { value, .. } => Some(value),
            _ => None,
        }
    }

    pub fn integer(&self) -> (r: Option<i64>)
        ensures
            r == self@.as_int(),
    {
        match self {
            Json::Number { whole, .. } => *whole,
            _ => None,
        }
    }

    pub fn compact_text(&self) -> (r: String)
        ensures
            r@ == self@.compact(),
    {
        match self {
            Json::Null => "null".to_owned(),
            Json::Bool(b) => if *b {
                "true".to_owned()
            } else {
                "false".to_owned()
            },
            Json::Number { text, .. } => text.clone(),
            Json::Text { text, .. } => text.clone(),
            Json::List { text, .. } => text.clone(),
            Json::Record { text, .. } => text.clone(),
        }
    }

    pub fn get_str(&self, key: &str) -> (r: Option<String>)
        ensures
            text::opt_text(r) == self@.text_field(key@),
    {
        match self.get(key) {
            Some(v) => match v.string() {
                Some(s) => Some(s.clone()),
                None => None,
            },
            None => None,
        }
    }

    pub fn get_str_or(&self, key: &str, default: &str) -> (r: String)
        ensures
            r@ == self@.text_field_or(key@, default@),
    {
        match self.get_str(key) {
            Some(s) => s,
            None => default.to_owned(),
        }
    }

    pub fn get_int(&self, key: &str) -> (r: Option<i64>)
        ensures
            r == self@.int_field(key@),
    {
        match self.get(key) {
            Some(v) => v.integer(),
            None => None,
        }
    }
}

} // verus!
