//! BSON and JSON values as plain data.
use vstd::prelude::*;

verus! {

/// A BSON value. A double is held as the decimal text of its value; a
/// Decimal128 and an ObjectId as their bytes; a date as milliseconds since the
/// Unix epoch.
#[derive(Debug, PartialEq)]
pub enum Bson {
    Null,
    Undefined,
    MinKey,
    MaxKey,
    Boolean(bool),
    Int32(i32),
    Int64(i64),
    Double(String),
    Decimal128([u8; 16]),
    String(String),
    Symbol(String),
    JavaScriptCode(String),
    ObjectId([u8; 12]),
    DateTime(i64),
    Timestamp { time: u32, increment: u32 },
    RegularExpression { pattern: String, options: String },
    Array(Vec<Bson>),
    Document(Vec<(String, Bson)>),
}

/// A JSON value. A number that is not an integer is held as its text.
#[derive(Debug, PartialEq)]
pub enum JsonValue {
    Null,
    Bool(bool),
    Int(i64),
    Float(String),
    String(String),
    Array(Vec<JsonValue>),
    Object(Vec<(String, JsonValue)>),
}

/// A BSON value as plain data.
pub enum BsonV {
    Null,
    Undefined,
    MinKey,
    MaxKey,
    Boolean(bool),
    Int32(i32),
    Int64(i64),
    Double(Seq<char>),
    Decimal128(Seq<u8>),
    String(Seq<char>),
    Symbol(Seq<char>),
    JavaScriptCode(Seq<char>),
    ObjectId(Seq<u8>),
    DateTime(i64),
    Timestamp { time: u32, increment: u32 },
    RegularExpression { pattern: Seq<char>, options: Seq<char> },
    Array(Seq<BsonV>),
    Document(Seq<(Seq<char>, BsonV)>),
}

/// A JSON value as plain data.
pub enum JsonV {
    Null,
    Bool(bool),
    Int(i64),
    Float(Seq<char>),
    String(Seq<char>),
    Array(Seq<JsonV>),
    Object(Seq<(Seq<char>, JsonV)>),
}

pub open spec fn bson_view(b: Bson) -> BsonV
    decreases b,
{
    match b {
        Bson::Null => BsonV::Null,
        Bson::Undefined => BsonV::Undefined,
        Bson::MinKey => BsonV::MinKey,
        Bson::MaxKey => BsonV::MaxKey,
        Bson::Boolean(v) => BsonV::Boolean(v),
        Bson::Int32(v) => BsonV::Int32(v),
        Bson::Int64(v) => BsonV::Int64(v),
        Bson::Double(v) => BsonV::Double(v@),
        Bson::Decimal128(v) => BsonV::Decimal128(v@),
        Bson::String(v) => BsonV::String(v@),
        Bson::Symbol(v) => BsonV::Symbol(v@),
        Bson::JavaScriptCode(v) => BsonV::JavaScriptCode(v@),
        Bson::ObjectId(v) => BsonV::ObjectId(v@),
        Bson::DateTime(v) => BsonV::DateTime(v),
        Bson::Timestamp { time, increment } => BsonV::Timestamp { time, increment },
        Bson::RegularExpression { pattern, options } => BsonV::RegularExpression { pattern: pattern@, options: options@ },
        Bson::Array(items) => BsonV::Array(bson_seq_view(items@)),
        Bson::Document(entries) => BsonV::Document(bson_entries_view(entries@)),
    }
}

pub open spec fn bson_seq_view(s: Seq<Bson>) -> Seq<BsonV>
    decreases s,
{
    if s.len() == 0 {
        Seq::empty()
    } else {
        bson_seq_view(s.subrange(0, s.len() - 1)).push(bson_view(s[s.len() - 1]))
    }
}

pub open spec fn bson_entries_view(s: Seq<(String, Bson)>) -> Seq<(Seq<char>, BsonV)>
    decreases s,
{
    if s.len() == 0 {
        Seq::empty()
    } else {
        bson_entries_view(s.subrange(0, s.len() - 1)).push((s[s.len() - 1].0@, bson_view(s[s.len() - 1].1)))
    }
}

pub proof fn lemma_bson_entries_view(s: Seq<(String, Bson)>)
    ensures
        bson_entries_view(s).len() == s.len(),
        forall|i: int| 0 <= i < s.len() ==> #[trigger] bson_entries_view(s)[i] == (s[i].0@, bson_view(s[i].1)),
    decreases s.len(),
{
    if s.len() > 0 {
        lemma_bson_entries_view(s.subrange(0, s.len() - 1));
    }
}

pub proof fn lemma_bson_seq_view(s: Seq<Bson>)
    ensures
        bson_seq_view(s).len() == s.len(),
        forall|i: int| 0 <= i < s.len() ==> #[trigger] bson_seq_view(s)[i] == bson_view(s[i]),
    decreases s.len(),
{
    if s.len() > 0 {
        lemma_bson_seq_view(s.subrange(0, s.len() - 1));
    }
}

impl View for Bson {
    type V = BsonV;

    open spec fn view(&self) -> BsonV {
        bson_view(*self)
    }
}

pub open spec fn json_view(j: JsonValue) -> JsonV
    decreases j,
{
    match j {
        JsonValue::Null => JsonV::Null,
        JsonValue::Bool(v) => JsonV::Bool(v),
        JsonValue::Int(v) => JsonV::Int(v),
        JsonValue::Float(v) => JsonV::Float(v@),
        JsonValue::String(v) => JsonV::String(v@),
        JsonValue::Array(items) => JsonV::Array(json_seq_view(items@)),
        JsonValue::Object(entries) => JsonV::Object(json_entries_view(entries@)),
    }
}

pub open spec fn json_seq_view(s: Seq<JsonValue>) -> Seq<JsonV>
    decreases s,
{
    if s.len() == 0 {
        Seq::empty()
    } else {
        json_seq_view(s.subrange(0, s.len() - 1)).push(json_view(s[s.len() - 1]))
    }
}

pub open spec fn json_entries_view(s: Seq<(String, JsonValue)>) -> Seq<(Seq<char>, JsonV)>
    decreases s,
{
    if s.len() == 0 {
        Seq::empty()
    } else {
        json_entries_view(s.subrange(0, s.len() - 1)).push((s[s.len() - 1].0@, json_view(s[s.len() - 1].1)))
    }
}

pub proof fn lemma_json_entries_view(s: Seq<(String, JsonValue)>)
    ensures
        json_entries_view(s).len() == s.len(),
        forall|i: int| 0 <= i < s.len() ==> #[trigger] json_entries_view(s)[i] == (s[i].0@, json_view(s[i].1)),
    decreases s.len(),
{
    if s.len() > 0 {
        lemma_json_entries_view(s.subrange(0, s.len() - 1));
    }
}

pub proof fn lemma_json_seq_view(s: Seq<JsonValue>)
    ensures
        json_seq_view(s).len() == s.len(),
        forall|i: int| 0 <= i < s.len() ==> #[trigger] json_seq_view(s)[i] == json_view(s[i]),
    decreases s.len(),
{
    if s.len() > 0 {
        lemma_json_seq_view(s.subrange(0, s.len() - 1));
    }
}

impl View for JsonValue {
    type V = JsonV;

    open spec fn view(&self) -> JsonV {
        json_view(*self)
    }
}

/// The document `{ k: v }`.
pub open spec fn bdoc1(k: Seq<char>, v: BsonV) -> BsonV {
    BsonV::Document(seq![(k, v)])
}

/// The document `{ k1: v1, k2: v2 }`.
pub open spec fn bdoc2(k1: Seq<char>, v1: BsonV, k2: Seq<char>, v2: BsonV) -> BsonV {
    BsonV::Document(seq![(k1, v1), (k2, v2)])
}

/// The document `{ k1: v1, k2: v2, k3: v3 }`.
pub open spec fn bdoc3(k1: Seq<char>, v1: BsonV, k2: Seq<char>, v2: BsonV, k3: Seq<char>, v3: BsonV) -> BsonV {
    BsonV::Document(seq![(k1, v1), (k2, v2), (k3, v3)])
}

/// A string value.
pub fn bson_str(s: &str) -> (r: Bson)
    ensures
        r@ == BsonV::String(s@),
{
    Bson::String(s.to_owned())
}

/// The document `{ key: value }`.
pub fn doc1(key: &str, value: Bson) -> (r: Bson)
    ensures
        r@ == bdoc1(key@, value@),
{
    let mut v: Vec<(String, Bson)> = Vec::new();
    v.push((key.to_owned(), value));
    assert(v@.subrange(0, 0) =~= Seq::<(String, Bson)>::empty());
    assert(bson_entries_view(v@.subrange(0, 0)) =~= Seq::empty());
    assert(bson_entries_view(v@) =~= seq![(key@, value@)]);
    Bson::Document(v)
}

/// The document `{ k1: v1, k2: v2 }`.
pub fn doc2(k1: &str, v1: Bson, k2: &str, v2: Bson) -> (r: Bson)
    ensures
        r@ == bdoc2(k1@, v1@, k2@, v2@),
{
    let mut v: Vec<(String, Bson)> = Vec::new();
    v.push((k1.to_owned(), v1));
    assert(v@.subrange(0, 0) =~= Seq::<(String, Bson)>::empty());
    assert(bson_entries_view(v@.subrange(0, 0)) =~= Seq::empty());
    assert(bson_entries_view(v@) =~= seq![(k1@, v1@)]);
    let ghost one = v@;
    v.push((k2.to_owned(), v2));
    assert(v@.subrange(0, 1) =~= one);
    assert(bson_entries_view(v@) =~= seq![(k1@, v1@), (k2@, v2@)]);
    Bson::Document(v)
}

/// The document `{ k1: v1, k2: v2, k3: v3 }`.
pub fn doc3(k1: &str, v1: Bson, k2: &str, v2: Bson, k3: &str, v3: Bson) -> (r: Bson)
    ensures
        r@ == bdoc3(k1@, v1@, k2@, v2@, k3@, v3@),
{
    let mut v: Vec<(String, Bson)> = Vec::new();
    v.push((k1.to_owned(), v1));
    assert(v@.subrange(0, 0) =~= Seq::<(String, Bson)>::empty());
    assert(bson_entries_view(v@.subrange(0, 0)) =~= Seq::empty());
    assert(bson_entries_view(v@) =~= seq![(k1@, v1@)]);
    let ghost one = v@;
    v.push((k2.to_owned(), v2));
    assert(v@.subrange(0, 1) =~= one);
    assert(bson_entries_view(v@) =~= seq![(k1@, v1@), (k2@, v2@)]);
    let ghost two = v@;
    v.push((k3.to_owned(), v3));
    assert(v@.subrange(0, 2) =~= two);
    assert(bson_entries_view(v@) =~= seq![(k1@, v1@), (k2@, v2@), (k3@, v3@)]);
    Bson::Document(v)
}

/// The array `[v1, v2]`.
pub fn pair(v1: Bson, v2: Bson) -> (r: Bson)
    ensures
        r@ == BsonV::Array(seq![v1@, v2@]),
{
    let mut v: Vec<Bson> = Vec::new();
    v.push(v1);
    assert(v@.subrange(0, 0) =~= Seq::<Bson>::empty());
    assert(bson_seq_view(v@.subrange(0, 0)) =~= Seq::empty());
    assert(bson_seq_view(v@) =~= seq![v1@]);
    let ghost one = v@;
    v.push(v2);
    assert(v@.subrange(0, 1) =~= one);
    assert(bson_seq_view(v@) =~= seq![v1@, v2@]);
    Bson::Array(v)
}

/// Appends an entry to a document's entries.
pub fn push_entry(entries: &mut Vec<(String, Bson)>, key: String, value: Bson)
    ensures
        bson_entries_view(final(entries)@) == bson_entries_view(old(entries)@).push((key@, value@)),
{
    let ghost before = entries@;
    entries.push((key, value));
    assert(entries@.subrange(0, entries@.len() - 1) =~= before);
}

/// Appends an element to an array's elements.
pub fn push_item(items: &mut Vec<Bson>, value: Bson)
    ensures
        bson_seq_view(final(items)@) == bson_seq_view(old(items)@).push(value@),
{
    let ghost before = items@;
    items.push(value);
    assert(items@.subrange(0, items@.len() - 1) =~= before);
}

/// A copy of a value.
pub fn clone_bson(b: &Bson) -> (r: Bson)
    ensures
        r@ == b@,
    decreases b,
{
    match b {
        Bson::Null => Bson::Null,
        Bson::Undefined => Bson::Undefined,
        Bson::MinKey => Bson::MinKey,
        Bson::MaxKey => Bson::MaxKey,
        Bson::Boolean(v) => Bson::Boolean(*v),
        Bson::Int32(v) => Bson::Int32(*v),
        Bson::Int64(v) => Bson::Int64(*v),
        Bson::Double(v) => Bson::Double(v.clone()),
        Bson::Decimal128(v) => Bson::Decimal128(*v),
        Bson::String(v) => Bson::String(v.clone()),
        Bson::Symbol(v) => Bson::Symbol(v.clone()),
        Bson::JavaScriptCode(v) => Bson::JavaScriptCode(v.clone()),
        Bson::ObjectId(v) => Bson::ObjectId(*v),
        Bson::DateTime(v) => Bson::DateTime(*v),
        Bson::Timestamp { time, increment } => Bson::Timestamp { time: *time, increment: *increment },
        Bson::RegularExpression { pattern, options } => Bson::RegularExpression {
            pattern: pattern.clone(),
            options: options.clone(),
        },
        Bson::Array(items) => Bson::Array(clone_bson_items(items)),
        Bson::Document(entries) => Bson::Document(clone_bson_entries(entries)),
    }
}

fn clone_bson_items(items: &Vec<Bson>) -> (r: Vec<Bson>)
    ensures
        bson_seq_view(r@) == bson_seq_view(items@),
    decreases items,
{
    let mut r: Vec<Bson> = Vec::new();
    let mut i: usize = 0;
    while i < items.len()
        invariant
            i <= items@.len(),
            bson_seq_view(r@) == bson_seq_view(items@.subrange(0, i as int)),
        decreases items.len() - i,
    {
        let ghost before = r@;
        r.push(clone_bson(&items[i]));
        proof {
            let s = items@.subrange(0, i + 1);
            assert(s.subrange(0, s.len() - 1) =~= items@.subrange(0, i as int));
            assert(r@.subrange(0, r@.len() - 1) =~= before);
        }
        i = i + 1;
    }
    assert(items@.subrange(0, i as int) =~= items@);
    r
}

pub fn clone_bson_entries(entries: &Vec<(String, Bson)>) -> (r: Vec<(String, Bson)>)
    ensures
        bson_entries_view(r@) == bson_entries_view(entries@),
    decreases entries,
{
    let mut r: Vec<(String, Bson)> = Vec::new();
    let mut i: usize = 0;
    while i < entries.len()
        invariant
            i <= entries@.len(),
            bson_entries_view(r@) == bson_entries_view(entries@.subrange(0, i as int)),
        decreases entries.len() - i,
    {
        let ghost before = r@;
        let v = clone_bson(&entries[i].1);
        r.push((entries[i].0.clone(), v));
        proof {
            let s = entries@.subrange(0, i + 1);
            assert(s.subrange(0, s.len() - 1) =~= entries@.subrange(0, i as int));
            assert(r@.subrange(0, r@.len() - 1) =~= before);
        }
        i = i + 1;
    }
    assert(entries@.subrange(0, i as int) =~= entries@);
    r
}

} // verus!
