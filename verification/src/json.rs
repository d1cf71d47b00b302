//! JSON documents as plain values.
//!
//! Reading and printing JSON is `serde_json`'s work. What the library decides on is a [`Json`]:
//! the same document with its members in a list, which the contracts see as a [`Document`].
use serde_json::Value;
use vstd::prelude::*;
use crate::text::same_text;

verus! {

/// A JSON value of `serde_json`.
#[verifier::external_type_specification]
#[verifier::external_body]
pub struct ExValue(serde_json::Value);

/// A JSON document.
#[derive(Debug)]
pub enum Json {
    Null,
    Bool(bool),
    /// An integer that is not negative.
    Unsigned(u64),
    /// A negative integer.
    Signed(i64),
    /// Any other number, as it is printed.
    Fraction(String),
    Text(String),
    List(Vec<Json>),
    /// Members by key; of several with one key the last counts.
    Record(Vec<(String, Json)>),
}

/// What a JSON document says.
pub enum Document {
    Null,
    Bool(bool),
    Unsigned(u64),
    Signed(i64),
    Fraction(Seq<char>),
    Text(Seq<char>),
    List(Seq<Document>),
    Record(Map<Seq<char>, Document>),
}

/// What a document says.
pub open spec fn document(j: Json) -> Document
    decreases j,
{
    match j {
        Json::Null => Document::Null,
        Json::Bool(b) => Document::Bool(b),
        Json::Unsigned(n) => Document::Unsigned(n),
        Json::Signed(n) => Document::Signed(n),
        Json::Fraction(t) => Document::Fraction(t@),
        Json::Text(t) => Document::Text(t@),
        Json::List(items) => Document::List(item_documents(items@)),
        Json::Record(fields) => Document::Record(field_documents(fields@)),
    }
}

/// What the items of a list say.
pub open spec fn item_documents(items: Seq<Json>) -> Seq<Document>
    decreases items,
{
    if items.len() == 0 {
        Seq::empty()
    } else {
        item_documents(items.drop_last()).push(document(items.last()))
    }
}

/// What the members of a record say.
pub open spec fn field_documents(fields: Seq<(String, Json)>) -> Map<Seq<char>, Document>
    decreases fields,
{
    if fields.len() == 0 {
        Map::empty()
    } else {
        field_documents(fields.drop_last()).insert(
            fields.last().0@,
            document(fields.last().1),
        )
    }
}

impl View for Json {
    type V = Document;

    open spec fn view(&self) -> Document {
        document(*self)
    }
}

/// A member of a record.
pub open spec fn member(d: Document, key: Seq<char>) -> Option<Document> {
    match d {
        Document::Record(m) => if m.contains_key(key) {
            Some(m[key])
        } else {
            None
        },
        _ => None,
    }
}

/// The 64-bit integer that a document is.
pub open spec fn integer_of(d: Document) -> Option<i64> {
    match d {
        Document::Unsigned(n) => if n <= i64::MAX {
            Some(n as i64)
        } else {
            None
        },
        Document::Signed(n) => Some(n),
        _ => None,
    }
}

/// The text that a document is.
pub open spec fn text_of(d: Document) -> Option<Seq<char>> {
    match d {
        Document::Text(t) => Some(t),
        _ => None,
    }
}

/// What a value of `serde_json` says.
pub uninterp spec fn value_document(v: serde_json::Value) -> Document;

/// What a text says as JSON, where it is JSON.
pub uninterp spec fn parsed(text: Seq<char>) -> Option<Document>;

/// What a document says once built of `serde_json`'s own values.
pub uninterp spec fn built(d: Document) -> Document;

/// A document in print, without white space.
pub uninterp spec fn printed(d: Document) -> Seq<char>;

/// `serde_json::from_str`: the value that a text holds, `None` where the text is no JSON.
#[verifier::external_body]
fn value_of_text(text: &str) -> (r: Option<Value>)
    ensures
        match r {
            Some(v) => parsed(text@) == Some(value_document(v)),
            None => parsed(text@) is None,
        },
{
    serde_json::from_str(text).ok()
}

/// A value of `serde_json` as a document of the library, member by member and item by item.
#[verifier::external_body]
fn json_of_value(v: &Value) -> (r: Json)
    ensures
        r@ == value_document(*v),
{
    match v {
        Value::Null => Json::Null,
        Value::Bool(b) => Json::Bool(*b),
        Value::Number(n) => match (n.as_u64(), n.as_i64()) {
            (Some(u), _) => Json::Unsigned(u),
            (None, Some(i)) => Json::Signed(i),
            (None, None) => Json::Fraction(n.to_string()),
        },
        Value::String(s) => Json::Text(s.clone()),
        Value::Array(a) => Json::List(a.iter().map(json_of_value).collect()),
        Value::Object(m) => Json::Record(
            m.iter().map(|(k, x)| (k.clone(), json_of_value(x))).collect(),
        ),
    }
}

/// Whether a document holds no number but integers, at any depth.
pub open spec fn whole(d: Document) -> bool
    decreases d,
{
    match d {
        Document::Fraction(_) => false,
        Document::Signed(n) => n < 0,
        Document::List(s) => forall|i: int| 0 <= i < s.len() ==> whole(#[trigger] s[i]),
        Document::Record(m) => forall|k: Seq<char>|
            m.contains_key(k) ==> whole(#[trigger] m[k]),
        _ => true,
    }
}

/// A document of the library as a value of `serde_json`, member by member and item by item. A
/// fraction is read by `serde_json::Number`'s parser; the value of a document without fractions
/// says what the document says.
#[verifier::external_body]
fn value_of_json(j: &Json) -> (r: Value)
    ensures
        value_document(r) == built(j@),
        whole(j@) ==> value_document(r) == j@,
{
    match j {
        Json::Null => Value::Null,
        Json::Bool(b) => Value::Bool(*b),
        Json::Unsigned(n) => Value::from(*n),
        Json::Signed(n) => Value::from(*n),
        Json::Fraction(t) => t.parse().map_or(Value::Null, Value::Number),
        Json::Text(s) => Value::String(s.clone()),
        Json::List(a) => Value::Array(a.iter().map(value_of_json).collect()),
        Json::Record(m) => Value::Object(
            m.iter().map(|(k, x)| (k.clone(), value_of_json(x))).collect(),
        ),
    }
}

/// `serde_json::Value`'s compact print.
#[verifier::external_body]
fn text_of_value(v: &Value) -> (r: String)
    ensures
        r@ == printed(value_document(*v)),
{
    v.to_string()
}

/// Reads a JSON document: `None` where the text is no JSON.
pub fn parse_json(text: &str) -> (r: Option<Json>)
    ensures
        match r {
            Some(j) => parsed(text@) == Some(j@),
            None => parsed(text@) is None,
        },
{
    match value_of_text(text) {
        Some(v) => Some(json_of_value(&v)),
        None => None,
    }
}

/// Prints a JSON document without white space.
pub fn json_text(j: &Json) -> (r: String)
    ensures
        r@ == printed(built(j@)),
        whole(j@) ==> r@ == printed(j@),
{
    let v: Value = value_of_json(j);
    text_of_value(&v)
}

/// A record of one more member says what it said before and what that member says.
pub proof fn record_push(fields: Seq<(String, Json)>, key: String, value: Json)
    ensures
        field_documents(fields.push((key, value))) == field_documents(fields).insert(
            key@,
            document(value),
        ),
{
    assert(fields.push((key, value)).drop_last() =~= fields);
}

/// A list says, item by item, what its items say.
pub proof fn list_items(items: Seq<Json>)
    ensures
        item_documents(items).len() == items.len(),
        forall|i: int|
            0 <= i < items.len() ==> #[trigger] item_documents(items)[i] == document(items[i]),
    decreases items.len(),
{
    if items.len() > 0 {
        list_items(items.drop_last());
    }
}

impl Json {
    /// The member with the given key, where this is a record that has one.
    pub fn get(&self, key: &str) -> (r: Option<&Json>)
        ensures
            match r {
                Some(x) => member(self@, key@) == Some(x@),
                None => member(self@, key@) is None,
            },
    {
        match self {
            Json::Record(fields) => {
                let mut i: usize = fields.len();
                proof {
                    assert(fields@.take(fields@.len() as int) =~= fields@);
                }
                while i > 0
                    invariant
                        i <= fields@.len(),
                        self@ == Document::Record(field_documents(fields@)),
                        field_documents(fields@).contains_key(key@) == field_documents(
                            fields@.take(i as int),
                        ).contains_key(key@),
                        field_documents(fields@).contains_key(key@) ==> field_documents(
                            fields@,
                        )[key@] == field_documents(fields@.take(i as int))[key@],
                    decreases i,
                {
                    let ghost part = fields@.take(i as int);
                    proof {
                        assert(part.drop_last() =~= fields@.take(i - 1));
                        assert(part.last() == fields@[i - 1]);
                    }
                    if same_text(fields[i - 1].0.as_str(), key) {
                        return Some(&fields[i - 1].1);
                    }
                    i = i - 1;
                }
                None
            },
            _ => None,
        }
    }

    /// The 64-bit integer that this is.
    pub fn as_i64(&self) -> (r: Option<i64>)
        ensures
            r == integer_of(self@),
    {
        match self {
            Json::Unsigned(n) => if *n <= 0x7FFF_FFFF_FFFF_FFFF {
                Some(*n as i64)
            } else {
                None
            },
            Json::Signed(n) => Some(*n),
            _ => None,
        }
    }

    /// The text that this is.
    pub fn as_str(&self) -> (r: Option<&str>)
        ensures
            match r {
                Some(t) => text_of(self@) == Some(t@),
                None => text_of(self@) is None,
            },
    {
        match self {
            Json::Text(t) => Some(t.as_str()),
            _ => None,
        }
    }

    /// The items that this is a list of.
    pub fn as_list(&self) -> (r: Option<&Vec<Json>>)
        ensures
            match r {
                Some(v) => self@ matches Document::List(items) && items.len() == v@.len()
                    && forall|i: int| 0 <= i < v@.len() ==> #[trigger] items[i] == v@[i]@,
                None => !(self@ is List),
            },
    {
        match self {
            Json::List(v) => {
                proof {
                    list_items(v@);
                }
                Some(v)
            },
            _ => None,
        }
    }

    /// Whether this is null.
    pub fn is_null(&self) -> (r: bool)
        ensures
            r == (self@ is Null),
    {
        match self {
            Json::Null => true,
            _ => false,
        }
    }

    /// Whether this is a record.
    pub fn is_record(&self) -> (r: bool)
        ensures
            r == (self@ is Record),
    {
        match self {
            Json::Record(_) => true,
            _ => false,
        }
    }
}

/// A member is what a record holds under the key; other documents have none. An integer is one that
/// fits in 64 bits with a sign, and a text is a text alone.
pub proof fn members_integers_and_texts(
    d: Document,
    m: Map<Seq<char>, Document>,
    key: Seq<char>,
    n: u64,
    i: i64,
)
    ensures
        m.contains_key(key) ==> member(Document::Record(m), key) == Some(m[key]),
        !m.contains_key(key) ==> member(Document::Record(m), key) is None,
        !(d is Record) ==> member(d, key) is None,
        n <= 0x7FFF_FFFF_FFFF_FFFF ==> integer_of(Document::Unsigned(n)) == Some(n as i64),
        n > 0x7FFF_FFFF_FFFF_FFFF ==> integer_of(Document::Unsigned(n)) is None,
        integer_of(Document::Signed(i)) == Some(i),
        !(d is Unsigned) && !(d is Signed) ==> integer_of(d) is None,
        d is Text ==> text_of(d) == Some(d->Text_0),
        !(d is Text) ==> text_of(d) is None,
{
}

/// A record says under each key what the last of its members of that name says.
pub proof fn the_last_member_counts(fields: Seq<(String, Json)>, i: int)
    requires
        0 <= i < fields.len(),
        forall|j: int| i < j < fields.len() ==> (#[trigger] fields[j]).0@ != fields[i].0@,
    ensures
        field_documents(fields).contains_key(fields[i].0@),
        field_documents(fields)[fields[i].0@] == document(fields[i].1),
    decreases fields.len(),
{
    if i < fields.len() - 1 {
        let rest = fields.drop_last();
        assert forall|j: int| i < j < rest.len() implies (#[trigger] rest[j]).0@
            != rest[i].0@ by {
            assert(rest[j] == fields[j]);
        }
        the_last_member_counts(rest, i);
        assert(fields.last() == fields[fields.len() - 1]);
    }
}

} // verus!
