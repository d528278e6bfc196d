//! Type-directed conversion between BSON and JSON.
use vstd::prelude::*;
use crate::bson::{json_view, lemma_json_entries_view, lemma_json_seq_view, push_entry, push_item, bson_view, lemma_bson_entries_view, lemma_bson_seq_view, bson_entries_view, bson_seq_view, json_entries_view, json_seq_view, Bson, BsonV, JsonV, JsonValue};
use crate::scalar_types::{BsonScalarType, MongoScalarType};
use crate::configuration::{find_entry, first_match, no_match};
use crate::types::{is_nullable, lemma_type_fields_view, type_view, spec_is_nullable, type_fields_view, Type, TypeV};

verus! {

/// The decimal digits of `n`.
pub open spec fn digits_text(n: nat) -> Seq<char>
    decreases n,
{
    let d = seq!['0', '1', '2', '3', '4', '5', '6', '7', '8', '9'][(n % 10) as int];
    if n < 10 {
        seq![d]
    } else {
        digits_text(n / 10).push(d)
    }
}

/// The decimal text of an integer, with a leading `-` for a negative one.
pub open spec fn decimal_text(n: int) -> Seq<char> {
    if n < 0 {
        seq!['-'] + digits_text((-n) as nat)
    } else {
        digits_text(n as nat)
    }
}

/// The lowercase hexadecimal digit of a value below 16.
pub open spec fn hex_digit(n: u8) -> char {
    seq!['0', '1', '2', '3', '4', '5', '6', '7', '8', '9', 'a', 'b', 'c', 'd', 'e', 'f'][(n % 16) as int]
}

/// Two lowercase hexadecimal digits per byte.
pub open spec fn hex_text(bytes: Seq<u8>) -> Seq<char>
    decreases bytes.len(),
{
    if bytes.len() == 0 {
        Seq::empty()
    } else {
        let b = bytes.last();
        hex_text(bytes.drop_last()).push(hex_digit(b / 16)).push(hex_digit(b % 16))
    }
}

/// Relies on `i64`'s `Display` through `ToString`: decimal digits, led by `-`
/// for a negative value.
#[verifier::external_body]
pub(crate) fn i64_text(n: i64) -> (r: String)
    ensures
        r@ == decimal_text(n as int),
{
    n.to_string()
}

/// The value of a text of decimal digits.
pub open spec fn digits_value(d: Seq<char>) -> int
    decreases d.len(),
{
    if d.len() == 0 {
        0
    } else {
        digits_value(d.drop_last()) * 10 + (d.last() as int - '0' as int)
    }
}

pub open spec fn all_digits(d: Seq<char>) -> bool {
    forall|i: int| 0 <= i < d.len() ==> '0' <= #[trigger] d[i] && d[i] <= '9'
}

/// An optional `+` or `-`, then one or more decimal digits, whose value fits
/// in an `i64`.
pub open spec fn i64_parse(s: Seq<char>) -> Option<i64> {
    let negative = s.len() > 0 && s[0] == '-';
    let digits = if s.len() > 0 && (s[0] == '-' || s[0] == '+') {
        s.subrange(1, s.len() as int)
    } else {
        s
    };
    let v = if negative {
        -digits_value(digits)
    } else {
        digits_value(digits)
    };
    if digits.len() > 0 && all_digits(digits) && i64::MIN <= v && v <= i64::MAX {
        Some(v as i64)
    } else {
        None
    }
}

/// Relies on `str::parse::<i64>` (`i64::from_str`): an optional sign, then
/// decimal digits, within the range of `i64`.
#[verifier::external_body]
fn parse_i64(s: &str) -> (r: Option<i64>)
    ensures
        r == i64_parse(s@),
{
    s.parse::<i64>().ok()
}

/// Relies on `bson::oid::ObjectId::to_hex`, which hex-encodes the twelve bytes
/// in lowercase.
#[verifier::external_body]
fn object_id_hex(bytes: [u8; 12]) -> (r: String)
    ensures
        r@ == hex_text(bytes@),
{
    mongodb::bson::oid::ObjectId::from_bytes(bytes).to_hex()
}

/// The value of a hexadecimal digit, in either case.
pub open spec fn hex_value(c: char) -> Option<int> {
    if '0' <= c && c <= '9' {
        Some(c as int - '0' as int)
    } else if 'a' <= c && c <= 'f' {
        Some(c as int - 'a' as int + 10)
    } else if 'A' <= c && c <= 'F' {
        Some(c as int - 'A' as int + 10)
    } else {
        None
    }
}

/// The twelve bytes that 24 hexadecimal digits encode, two digits per byte;
/// none for any other text.
pub open spec fn object_id_parse(s: Seq<char>) -> Option<Seq<u8>> {
    if s.len() == 24 && forall|i: int| 0 <= i < 24 ==> (#[trigger] hex_value(s[i])) is Some {
        Some(Seq::new(12, |k: int| (hex_value(s[2 * k])->Some_0 * 16 + hex_value(s[2 * k + 1])->Some_0) as u8))
    } else {
        None
    }
}

/// Relies on `bson::oid::ObjectId::parse_str`, which hex-decodes the text
/// (digits in either case) and takes exactly twelve bytes.
#[verifier::external_body]
fn object_id_from_hex(s: &str) -> (r: Option<[u8; 12]>)
    ensures
        match r {
            Some(b) => object_id_parse(s@) == Some(b@),
            None => object_id_parse(s@) is None,
        },
{
    match mongodb::bson::oid::ObjectId::parse_str(s) {
        Ok(oid) => Some(oid.bytes()),
        Err(_) => None,
    }
}

/// What `bson::Decimal128`'s `Display` writes for the value with these bytes.
pub uninterp spec fn decimal128_text(bytes: Seq<u8>) -> Seq<char>;

/// Relies on `bson::Decimal128`'s `Display`: the decimal text of the value.
#[verifier::external_body]
fn decimal128_to_string(bytes: [u8; 16]) -> (r: String)
    ensures
        r@ == decimal128_text(bytes@),
{
    mongodb::bson::Decimal128::from_bytes(bytes).to_string()
}

/// What `bson::Decimal128`'s `FromStr` makes of a text, as bytes.
pub uninterp spec fn decimal128_parse(s: Seq<char>) -> Option<Seq<u8>>;

/// Relies on `bson::Decimal128`'s `FromStr`: the value of a decimal text.
#[verifier::external_body]
fn decimal128_from_str(s: &str) -> (r: Option<[u8; 16]>)
    ensures
        match r {
            Some(b) => decimal128_parse(s@) == Some(b@),
            None => decimal128_parse(s@) is None,
        },
{
    match s.parse::<mongodb::bson::Decimal128>() {
        Ok(d) => Some(d.bytes()),
        Err(_) => None,
    }
}

/// What `bson::DateTime::try_to_rfc3339_string` makes of a date given in
/// milliseconds since the Unix epoch.
pub uninterp spec fn rfc3339_of(millis: int) -> Option<Seq<char>>;

/// Relies on `bson::DateTime::try_to_rfc3339_string`: the RFC 3339 text of a
/// date, where the date can be formatted.
#[verifier::external_body]
fn date_to_rfc3339(millis: i64) -> (r: Option<String>)
    ensures
        match r {
            Some(s) => rfc3339_of(millis as int) == Some(s@),
            None => rfc3339_of(millis as int) is None,
        },
{
    mongodb::bson::DateTime::from_millis(millis).try_to_rfc3339_string().ok()
}

/// What `bson::DateTime::parse_rfc3339_str` makes of a text, in milliseconds.
pub uninterp spec fn rfc3339_parse(s: Seq<char>) -> Option<i64>;

/// Relies on `bson::DateTime::parse_rfc3339_str`: the date that an RFC 3339
/// text gives.
#[verifier::external_body]
fn date_from_rfc3339(s: &str) -> (r: Option<i64>)
    ensures
        r == rfc3339_parse(s@),
{
    match mongodb::bson::DateTime::parse_rfc3339_str(s) {
        Ok(d) => Some(d.timestamp_millis()),
        Err(_) => None,
    }
}

/// An object of one entry.
pub open spec fn obj1(k: Seq<char>, v: JsonV) -> JsonV {
    JsonV::Object(seq![(k, v)])
}

/// An object of two entries.
pub open spec fn obj2(k1: Seq<char>, v1: JsonV, k2: Seq<char>, v2: JsonV) -> JsonV {
    JsonV::Object(seq![(k1, v1), (k2, v2)])
}

fn json_obj1(k: &str, v: JsonValue) -> (r: JsonValue)
    ensures
        r@ == obj1(k@, v@),
{
    let mut entries: Vec<(String, JsonValue)> = Vec::new();
    entries.push((k.to_owned(), v));
    assert(entries@.subrange(0, 0) =~= Seq::<(String, JsonValue)>::empty());
    assert(json_entries_view(entries@.subrange(0, 0)) =~= Seq::empty());
    assert(json_entries_view(entries@) =~= seq![(k@, v@)]);
    JsonValue::Object(entries)
}

fn json_obj2(k1: &str, v1: JsonValue, k2: &str, v2: JsonValue) -> (r: JsonValue)
    ensures
        r@ == obj2(k1@, v1@, k2@, v2@),
{
    let mut entries: Vec<(String, JsonValue)> = Vec::new();
    entries.push((k1.to_owned(), v1));
    assert(entries@.subrange(0, 0) =~= Seq::<(String, JsonValue)>::empty());
    assert(json_entries_view(entries@.subrange(0, 0)) =~= Seq::empty());
    assert(json_entries_view(entries@) =~= seq![(k1@, v1@)]);
    let ghost one = entries@;
    entries.push((k2.to_owned(), v2));
    assert(entries@.subrange(0, 1) =~= one);
    assert(json_entries_view(entries@) =~= seq![(k1@, v1@), (k2@, v2@)]);
    JsonValue::Object(entries)
}

/// Canonical extended JSON of a BSON value: type tags such as `$numberInt`,
/// `$numberDecimal` and `$oid` keep every BSON type.
pub open spec fn spec_ext_json(b: BsonV) -> JsonV
    decreases b,
{
    match b {
        BsonV::Null => JsonV::Null,
        BsonV::Undefined => obj1("$undefined"@, JsonV::Bool(true)),
        BsonV::MinKey => obj1("$minKey"@, JsonV::Int(1)),
        BsonV::MaxKey => obj1("$maxKey"@, JsonV::Int(1)),
        BsonV::Boolean(v) => JsonV::Bool(v),
        BsonV::Int32(n) => obj1("$numberInt"@, JsonV::String(decimal_text(n as int))),
        BsonV::Int64(n) => obj1("$numberLong"@, JsonV::String(decimal_text(n as int))),
        BsonV::Double(t) => obj1("$numberDouble"@, JsonV::String(t)),
        BsonV::Decimal128(d) => obj1("$numberDecimal"@, JsonV::String(decimal128_text(d))),
        BsonV::String(v) => JsonV::String(v),
        BsonV::Symbol(v) => obj1("$symbol"@, JsonV::String(v)),
        BsonV::JavaScriptCode(v) => obj1("$code"@, JsonV::String(v)),
        BsonV::ObjectId(o) => obj1("$oid"@, JsonV::String(hex_text(o))),
        BsonV::DateTime(ms) => obj1("$date"@, obj1("$numberLong"@, JsonV::String(decimal_text(ms as int)))),
        BsonV::Timestamp { time, increment } => obj1(
            "$timestamp"@,
            obj2("t"@, JsonV::Int(time as i64), "i"@, JsonV::Int(increment as i64)),
        ),
        BsonV::RegularExpression { pattern, options } => obj1(
            "$regularExpression"@,
            obj2("pattern"@, JsonV::String(pattern), "options"@, JsonV::String(options)),
        ),
        BsonV::Array(items) => JsonV::Array(spec_ext_json_items(items)),
        BsonV::Document(entries) => JsonV::Object(spec_ext_json_entries(entries)),
    }
}

pub open spec fn spec_ext_json_items(items: Seq<BsonV>) -> Seq<JsonV>
    decreases items,
{
    if items.len() == 0 {
        Seq::empty()
    } else {
        spec_ext_json_items(items.subrange(0, items.len() - 1)).push(spec_ext_json(items[items.len() - 1]))
    }
}

pub open spec fn spec_ext_json_entries(entries: Seq<(Seq<char>, BsonV)>) -> Seq<(Seq<char>, JsonV)>
    decreases entries,
{
    if entries.len() == 0 {
        Seq::empty()
    } else {
        spec_ext_json_entries(entries.subrange(0, entries.len() - 1)).push(
            (entries[entries.len() - 1].0, spec_ext_json(entries[entries.len() - 1].1)),
        )
    }
}

/// Canonical extended JSON of a BSON value.
pub fn to_ext_json(b: &Bson) -> (r: JsonValue)
    ensures
        r@ == spec_ext_json(b@),
    decreases b,
{
    match b {
        Bson::Null => JsonValue::Null,
        Bson::Undefined => json_obj1("$undefined", JsonValue::Bool(true)),
        Bson::MinKey => json_obj1("$minKey", JsonValue::Int(1)),
        Bson::MaxKey => json_obj1("$maxKey", JsonValue::Int(1)),
        Bson::Boolean(v) => JsonValue::Bool(*v),
        Bson::Int32(n) => json_obj1("$numberInt", JsonValue::String(i64_text(*n as i64))),
        Bson::Int64(n) => json_obj1("$numberLong", JsonValue::String(i64_text(*n))),
        Bson::Double(t) => json_obj1("$numberDouble", JsonValue::String(t.clone())),
        Bson::Decimal128(d) => json_obj1("$numberDecimal", JsonValue::String(decimal128_to_string(*d))),
        Bson::String(v) => JsonValue::String(v.clone()),
        Bson::Symbol(v) => json_obj1("$symbol", JsonValue::String(v.clone())),
        Bson::JavaScriptCode(v) => json_obj1("$code", JsonValue::String(v.clone())),
        Bson::ObjectId(o) => json_obj1("$oid", JsonValue::String(object_id_hex(*o))),
        Bson::DateTime(ms) => json_obj1("$date", json_obj1("$numberLong", JsonValue::String(i64_text(*ms)))),
        Bson::Timestamp { time, increment } => json_obj1(
            "$timestamp",
            json_obj2("t", JsonValue::Int(*time as i64), "i", JsonValue::Int(*increment as i64)),
        ),
        Bson::RegularExpression { pattern, options } => json_obj1(
            "$regularExpression",
            json_obj2("pattern", JsonValue::String(pattern.clone()), "options", JsonValue::String(options.clone())),
        ),
        Bson::Array(items) => JsonValue::Array(ext_json_items(items)),
        Bson::Document(entries) => JsonValue::Object(ext_json_entries(entries)),
    }
}

fn ext_json_items(items: &Vec<Bson>) -> (r: Vec<JsonValue>)
    ensures
        json_seq_view(r@) == spec_ext_json_items(bson_seq_view(items@)),
    decreases items,
{
    let mut r: Vec<JsonValue> = Vec::new();
    let mut i: usize = 0;
    while i < items.len()
        invariant
            i <= items@.len(),
            json_seq_view(r@) == spec_ext_json_items(bson_seq_view(items@.subrange(0, i as int))),
        decreases items.len() - i,
    {
        let ghost before = r@;
        r.push(to_ext_json(&items[i]));
        proof {
            let s = items@.subrange(0, i + 1);
            assert(s.subrange(0, s.len() - 1) =~= items@.subrange(0, i as int));
            assert(r@.subrange(0, r@.len() - 1) =~= before);
            let v = bson_seq_view(s);
            assert(v.subrange(0, v.len() - 1) =~= bson_seq_view(items@.subrange(0, i as int)));
        }
        i = i + 1;
    }
    assert(items@.subrange(0, i as int) =~= items@);
    r
}

fn ext_json_entries(entries: &Vec<(String, Bson)>) -> (r: Vec<(String, JsonValue)>)
    ensures
        json_entries_view(r@) == spec_ext_json_entries(bson_entries_view(entries@)),
    decreases entries,
{
    let mut r: Vec<(String, JsonValue)> = Vec::new();
    let mut i: usize = 0;
    while i < entries.len()
        invariant
            i <= entries@.len(),
            json_entries_view(r@) == spec_ext_json_entries(bson_entries_view(entries@.subrange(0, i as int))),
        decreases entries.len() - i,
    {
        let ghost before = r@;
        let v = to_ext_json(&entries[i].1);
        r.push((entries[i].0.clone(), v));
        proof {
            let s = entries@.subrange(0, i + 1);
            assert(s.subrange(0, s.len() - 1) =~= entries@.subrange(0, i as int));
            assert(r@.subrange(0, r@.len() - 1) =~= before);
            let v = bson_entries_view(s);
            assert(v.subrange(0, v.len() - 1) =~= bson_entries_view(entries@.subrange(0, i as int)));
        }
        i = i + 1;
    }
    assert(entries@.subrange(0, i as int) =~= entries@);
    r
}

/// The value under `key` in a document: that of its first entry named `key`.
pub open spec fn doc_get(doc: Seq<(Seq<char>, BsonV)>, key: Seq<char>) -> Option<BsonV> {
    if exists|i: int| 0 <= i < doc.len() && doc[i].0 == key {
        let i = choose|i: int| 0 <= i < doc.len() && doc[i].0 == key && forall|j: int| 0 <= j < i ==> doc[j].0 != key;
        Some(doc[i].1)
    } else {
        None
    }
}

/// Why a BSON value could not be converted to JSON.
#[derive(Debug, PartialEq)]
pub enum BsonToJsonError {
    /// The value does not have the expected type.
    TypeMismatch,
    /// A document lacks a field of a type that does not admit null.
    MissingObjectField(String),
    /// A date out of the range that can be formatted.
    DateOutOfRange,
}

/// The JSON form of a scalar of the given type; none where the value does not
/// have that type (an `Int` is accepted as a `Double`).
pub open spec fn spec_scalar_to_json(s: BsonScalarType, b: BsonV) -> Option<JsonV> {
    match (s, b) {
        (BsonScalarType::Null, BsonV::Null) => Some(JsonV::Null),
        (BsonScalarType::Null, BsonV::Undefined) => Some(JsonV::Null),
        (BsonScalarType::Undefined, BsonV::Null) => Some(JsonV::Null),
        (BsonScalarType::Undefined, BsonV::Undefined) => Some(JsonV::Null),
        (BsonScalarType::MinKey, BsonV::MinKey) => Some(JsonV::Object(Seq::empty())),
        (BsonScalarType::MaxKey, BsonV::MaxKey) => Some(JsonV::Object(Seq::empty())),
        (BsonScalarType::Bool, BsonV::Boolean(v)) => Some(JsonV::Bool(v)),
        (BsonScalarType::Double, BsonV::Double(t)) => Some(JsonV::Float(t)),
        (BsonScalarType::Double, BsonV::Int32(n)) => Some(JsonV::Int(n as i64)),
        (BsonScalarType::Int, BsonV::Int32(n)) => Some(JsonV::Int(n as i64)),
        (BsonScalarType::Long, BsonV::Int64(n)) => Some(JsonV::String(decimal_text(n as int))),
        (BsonScalarType::Decimal, BsonV::Decimal128(d)) => Some(JsonV::String(decimal128_text(d))),
        (BsonScalarType::String, BsonV::String(v)) => Some(JsonV::String(v)),
        (BsonScalarType::Symbol, BsonV::Symbol(v)) => Some(JsonV::String(v)),
        (BsonScalarType::Javascript, BsonV::JavaScriptCode(v)) => Some(JsonV::String(v)),
        (BsonScalarType::ObjectId, BsonV::ObjectId(o)) => Some(JsonV::String(hex_text(o))),
        (BsonScalarType::Date, BsonV::DateTime(ms)) => match rfc3339_of(ms as int) {
            Some(t) => Some(JsonV::String(t)),
            None => None,
        },
        (BsonScalarType::Timestamp, BsonV::Timestamp { time, increment }) => Some(
            obj2("t"@, JsonV::Int(time as i64), "i"@, JsonV::Int(increment as i64)),
        ),
        (BsonScalarType::Regex, BsonV::RegularExpression { pattern, options }) => Some(
            obj2("pattern"@, JsonV::String(pattern), "options"@, JsonV::String(options)),
        ),
        _ => None,
    }
}

/// The JSON form of a BSON value of type `t`; none where the value does not
/// have that type.
pub open spec fn spec_bson_to_json(t: TypeV, b: BsonV) -> Option<JsonV>
    decreases t, 0nat,
{
    match t {
        TypeV::Scalar(MongoScalarType::ExtendedJSON) => Some(spec_ext_json(b)),
        TypeV::Scalar(MongoScalarType::Bson(s)) => spec_scalar_to_json(s, b),
        TypeV::Object(_, fields) => match b {
            BsonV::Document(doc) => match spec_fields_to_json(fields, doc) {
                Some(entries) => Some(JsonV::Object(entries)),
                None => None,
            },
            _ => None,
        },
        TypeV::ArrayOf(e) => match b {
            BsonV::Array(items) => match spec_items_to_json(*e, items) {
                Some(js) => Some(JsonV::Array(js)),
                None => None,
            },
            _ => None,
        },
        TypeV::Nullable(e) => if b is Null || b is Undefined {
            Some(JsonV::Null)
        } else {
            spec_bson_to_json(*e, b)
        },
    }
}

/// Exactly the declared fields, in declaration order: a field that the
/// document lacks is null where its type admits null.
pub open spec fn spec_fields_to_json(
    fields: Seq<(Seq<char>, TypeV)>,
    doc: Seq<(Seq<char>, BsonV)>,
) -> Option<Seq<(Seq<char>, JsonV)>>
    decreases fields, 0nat,
{
    if fields.len() == 0 {
        Some(Seq::empty())
    } else {
        let init = spec_fields_to_json(fields.subrange(0, fields.len() - 1), doc);
        let name = fields[fields.len() - 1].0;
        let field_type = fields[fields.len() - 1].1;
        let value = match doc_get(doc, name) {
            Some(v) => spec_bson_to_json(field_type, v),
            None => if spec_is_nullable(field_type) {
                Some(JsonV::Null)
            } else {
                None
            },
        };
        match (init, value) {
            (Some(i), Some(v)) => Some(i.push((name, v))),
            _ => None,
        }
    }
}

/// Each element converted against the element type.
pub open spec fn spec_items_to_json(t: TypeV, items: Seq<BsonV>) -> Option<Seq<JsonV>>
    decreases t, items.len() + 1,
{
    if items.len() == 0 {
        Some(Seq::empty())
    } else {
        match (spec_items_to_json(t, items.subrange(0, items.len() - 1)), spec_bson_to_json(t, items[items.len() - 1])) {
            (Some(i), Some(v)) => Some(i.push(v)),
            _ => None,
        }
    }
}

proof fn lemma_fields_none_extends(fields: Seq<(Seq<char>, TypeV)>, doc: Seq<(Seq<char>, BsonV)>, i: int)
    requires
        0 <= i <= fields.len(),
        spec_fields_to_json(fields.subrange(0, i), doc) is None,
    ensures
        spec_fields_to_json(fields, doc) is None,
    decreases fields.len(),
{
    if i == fields.len() {
        assert(fields.subrange(0, i) =~= fields);
    } else {
        let init = fields.subrange(0, fields.len() - 1);
        assert(init.subrange(0, i) =~= fields.subrange(0, i));
        lemma_fields_none_extends(init, doc, i);
    }
}

proof fn lemma_items_none_extends(t: TypeV, items: Seq<BsonV>, i: int)
    requires
        0 <= i <= items.len(),
        spec_items_to_json(t, items.subrange(0, i)) is None,
    ensures
        spec_items_to_json(t, items) is None,
    decreases items.len(),
{
    if i == items.len() {
        assert(items.subrange(0, i) =~= items);
    } else {
        let init = items.subrange(0, items.len() - 1);
        assert(init.subrange(0, i) =~= items.subrange(0, i));
        lemma_items_none_extends(t, init, i);
    }
}

/// The JSON form of a scalar of the given type.
pub fn scalar_to_json(s: BsonScalarType, value: &Bson) -> (r: Result<JsonValue, BsonToJsonError>)
    ensures
        match r {
            Ok(j) => spec_scalar_to_json(s, value@) == Some(j@),
            Err(_) => spec_scalar_to_json(s, value@) is None,
        },
{
    match (s, value) {
        (BsonScalarType::Null, Bson::Null) => Ok(JsonValue::Null),
        (BsonScalarType::Null, Bson::Undefined) => Ok(JsonValue::Null),
        (BsonScalarType::Undefined, Bson::Null) => Ok(JsonValue::Null),
        (BsonScalarType::Undefined, Bson::Undefined) => Ok(JsonValue::Null),
        (BsonScalarType::MinKey, Bson::MinKey) => Ok(JsonValue::Object(Vec::new())),
        (BsonScalarType::MaxKey, Bson::MaxKey) => Ok(JsonValue::Object(Vec::new())),
        (BsonScalarType::Bool, Bson::Boolean(v)) => Ok(JsonValue::Bool(*v)),
        (BsonScalarType::Double, Bson::Double(t)) => Ok(JsonValue::Float(t.clone())),
        (BsonScalarType::Double, Bson::Int32(n)) => Ok(JsonValue::Int(*n as i64)),
        (BsonScalarType::Int, Bson::Int32(n)) => Ok(JsonValue::Int(*n as i64)),
        (BsonScalarType::Long, Bson::Int64(n)) => Ok(JsonValue::String(i64_text(*n))),
        (BsonScalarType::Decimal, Bson::Decimal128(d)) => Ok(JsonValue::String(decimal128_to_string(*d))),
        (BsonScalarType::String, Bson::String(v)) => Ok(JsonValue::String(v.clone())),
        (BsonScalarType::Symbol, Bson::Symbol(v)) => Ok(JsonValue::String(v.clone())),
        (BsonScalarType::Javascript, Bson::JavaScriptCode(v)) => Ok(JsonValue::String(v.clone())),
        (BsonScalarType::ObjectId, Bson::ObjectId(o)) => Ok(JsonValue::String(object_id_hex(*o))),
        (BsonScalarType::Date, Bson::DateTime(ms)) => match date_to_rfc3339(*ms) {
            Some(t) => Ok(JsonValue::String(t)),
            None => Err(BsonToJsonError::DateOutOfRange),
        },
        (BsonScalarType::Timestamp, Bson::Timestamp { time, increment }) => Ok(
            json_obj2("t", JsonValue::Int(*time as i64), "i", JsonValue::Int(*increment as i64)),
        ),
        (BsonScalarType::Regex, Bson::RegularExpression { pattern, options }) => Ok(
            json_obj2("pattern", JsonValue::String(pattern.clone()), "options", JsonValue::String(options.clone())),
        ),
        _ => Err(BsonToJsonError::TypeMismatch),
    }
}

/// The JSON form of a BSON value of the expected type.
pub fn bson_to_json(expected: &Type, value: &Bson) -> (r: Result<JsonValue, BsonToJsonError>)
    ensures
        match r {
            Ok(j) => spec_bson_to_json(expected@, value@) == Some(j@),
            Err(_) => spec_bson_to_json(expected@, value@) is None,
        },
    decreases expected, 0nat,
{
    match expected {
        Type::Scalar(MongoScalarType::ExtendedJSON) => Ok(to_ext_json(value)),
        Type::Scalar(MongoScalarType::Bson(s)) => scalar_to_json(*s, value),
        Type::Object(object_type) => match value {
            Bson::Document(doc) => match fields_to_json(&object_type.fields, doc) {
                Ok(entries) => Ok(JsonValue::Object(entries)),
                Err(e) => Err(e),
            },
            _ => Err(BsonToJsonError::TypeMismatch),
        },
        Type::ArrayOf(element_type) => match value {
            Bson::Array(items) => match items_to_json(element_type, items) {
                Ok(js) => Ok(JsonValue::Array(js)),
                Err(e) => Err(e),
            },
            _ => Err(BsonToJsonError::TypeMismatch),
        },
        Type::Nullable(underlying) => match value {
            Bson::Null | Bson::Undefined => Ok(JsonValue::Null),
            _ => bson_to_json(underlying, value),
        },
    }
}

fn fields_to_json(fields: &Vec<(String, Type)>, doc: &Vec<(String, Bson)>) -> (r: Result<Vec<(String, JsonValue)>, BsonToJsonError>)
    ensures
        match r {
            Ok(v) => spec_fields_to_json(type_fields_view(fields@), bson_entries_view(doc@)) == Some(json_entries_view(v@)),
            Err(_) => spec_fields_to_json(type_fields_view(fields@), bson_entries_view(doc@)) is None,
        },
    decreases fields, 0nat,
{
    let ghost docv = bson_entries_view(doc@);
    let ghost fv = type_fields_view(fields@);
    proof {
        lemma_bson_entries_view(doc@);
        lemma_type_fields_view(fields@);
        assert(fv.subrange(0, 0) =~= Seq::empty());
    }
    let mut r: Vec<(String, JsonValue)> = Vec::new();
    let mut i: usize = 0;
    while i < fields.len()
        invariant
            i <= fields@.len(),
            docv == bson_entries_view(doc@),
            fv == type_fields_view(fields@),
            fv.len() == fields@.len(),
            docv.len() == doc@.len(),
            forall|k: int| 0 <= k < doc@.len() ==> #[trigger] docv[k] == (doc@[k].0@, bson_view(doc@[k].1)),
            forall|k: int| 0 <= k < fields@.len() ==> #[trigger] fv[k] == (fields@[k].0@, type_view(fields@[k].1)),
            spec_fields_to_json(fv.subrange(0, i as int), docv) == Some(json_entries_view(r@)),
        decreases fields.len() - i,
    {
        let (name, field_type) = (&fields[i].0, &fields[i].1);
        let ghost pre = fv.subrange(0, i as int);
        let ghost cur = fv.subrange(0, i + 1);
        assert(cur.subrange(0, cur.len() - 1) =~= pre);
        assert(cur[cur.len() - 1] == (name@, field_type@));
        let found = find_entry(doc, name.as_str());
        let value = match found {
            Some(k) => {
                proof {
                    assert(docv[k as int].0 == name@);
                    assert forall|j: int| 0 <= j < k implies docv[j].0 != name@ by {
                        assert(docv[j] == (doc@[j].0@, bson_view(doc@[j].1)));
                    }
                    let c = choose|c: int| 0 <= c < docv.len() && docv[c].0 == name@ && forall|j: int| 0 <= j < c ==> docv[j].0 != name@;
                    assert(c == k as int);
                    assert(doc_get(docv, name@) == Some(bson_view(doc@[k as int].1)));
                }
                bson_to_json(field_type, &doc[k].1)
            },
            None => {
                proof {
                    assert forall|j: int| 0 <= j < docv.len() implies docv[j].0 != name@ by {
                        assert(docv[j] == (doc@[j].0@, bson_view(doc@[j].1)));
                    }
                    assert(doc_get(docv, name@) is None);
                }
                if is_nullable(field_type) {
                    Ok(JsonValue::Null)
                } else {
                    Err(BsonToJsonError::MissingObjectField(name.clone()))
                }
            },
        };
        match value {
            Ok(v) => {
                let ghost before = r@;
                r.push((name.clone(), v));
                assert(r@.subrange(0, r@.len() - 1) =~= before);
            },
            Err(e) => {
                proof {
                    lemma_fields_none_extends(fv, docv, i + 1);
                }
                return Err(e);
            },
        }
        i = i + 1;
    }
    assert(fv.subrange(0, i as int) =~= fv);
    Ok(r)
}

fn items_to_json(element_type: &Type, items: &Vec<Bson>) -> (r: Result<Vec<JsonValue>, BsonToJsonError>)
    ensures
        match r {
            Ok(v) => spec_items_to_json(element_type@, bson_seq_view(items@)) == Some(json_seq_view(v@)),
            Err(_) => spec_items_to_json(element_type@, bson_seq_view(items@)) is None,
        },
    decreases element_type, items@.len() + 1,
{
    let ghost iv = bson_seq_view(items@);
    proof {
        lemma_bson_seq_view(items@);
        assert(iv.subrange(0, 0) =~= Seq::empty());
    }
    let mut r: Vec<JsonValue> = Vec::new();
    let mut i: usize = 0;
    while i < items.len()
        invariant
            i <= items@.len(),
            iv == bson_seq_view(items@),
            iv.len() == items@.len(),
            forall|k: int| 0 <= k < items@.len() ==> #[trigger] iv[k] == bson_view(items@[k]),
            spec_items_to_json(element_type@, iv.subrange(0, i as int)) == Some(json_seq_view(r@)),
        decreases items.len() - i,
    {
        let ghost cur = iv.subrange(0, i + 1);
        assert(cur.subrange(0, cur.len() - 1) =~= iv.subrange(0, i as int));
        assert(cur[cur.len() - 1] == bson_view(items@[i as int]));
        match bson_to_json(element_type, &items[i]) {
            Ok(v) => {
                let ghost before = r@;
                r.push(v);
                assert(r@.subrange(0, r@.len() - 1) =~= before);
            },
            Err(e) => {
                proof {
                    lemma_items_none_extends(element_type@, iv, i + 1);
                }
                return Err(e);
            },
        }
        i = i + 1;
    }
    assert(iv.subrange(0, i as int) =~= iv);
    Ok(r)
}

/// Why a JSON value could not be converted to BSON.
#[derive(Debug, PartialEq)]
pub enum JsonToBsonError {
    /// The value does not have the expected type.
    TypeMismatch,
    /// An object lacks a field of a type that does not admit null.
    MissingObjectField(String),
    /// A text that should hold a number, an ObjectId or a date does not.
    CannotParse(String),
}

/// The BSON value of a JSON literal of the given scalar type; none where the
/// literal does not have that type.
pub open spec fn spec_json_to_scalar(s: BsonScalarType, j: JsonV) -> Option<BsonV> {
    match (s, j) {
        (BsonScalarType::Null, JsonV::Null) => Some(BsonV::Null),
        (BsonScalarType::Undefined, JsonV::Null) => Some(BsonV::Null),
        (BsonScalarType::Bool, JsonV::Bool(b)) => Some(BsonV::Boolean(b)),
        (BsonScalarType::Int, JsonV::Int(n)) => if i32::MIN <= n <= i32::MAX {
            Some(BsonV::Int32(n as i32))
        } else {
            None
        },
        (BsonScalarType::Double, JsonV::Int(n)) => if i32::MIN <= n <= i32::MAX {
            Some(BsonV::Int32(n as i32))
        } else {
            None
        },
        (BsonScalarType::Double, JsonV::Float(t)) => Some(BsonV::Double(t)),
        (BsonScalarType::Long, JsonV::Int(n)) => Some(BsonV::Int64(n)),
        (BsonScalarType::Long, JsonV::String(t)) => match i64_parse(t) {
            Some(n) => Some(BsonV::Int64(n)),
            None => None,
        },
        (BsonScalarType::Decimal, JsonV::String(t)) => match decimal128_parse(t) {
            Some(d) => Some(BsonV::Decimal128(d)),
            None => None,
        },
        (BsonScalarType::String, JsonV::String(t)) => Some(BsonV::String(t)),
        (BsonScalarType::Symbol, JsonV::String(t)) => Some(BsonV::Symbol(t)),
        (BsonScalarType::Javascript, JsonV::String(t)) => Some(BsonV::JavaScriptCode(t)),
        (BsonScalarType::ObjectId, JsonV::String(t)) => match object_id_parse(t) {
            Some(o) => Some(BsonV::ObjectId(o)),
            None => None,
        },
        (BsonScalarType::Date, JsonV::String(t)) => match rfc3339_parse(t) {
            Some(ms) => Some(BsonV::DateTime(ms)),
            None => None,
        },
        _ => None,
    }
}

/// The value of a JSON number that extended JSON leaves untagged: an `Int32`
/// where it fits, else an `Int64`.
pub open spec fn untagged_int(n: i64) -> BsonV {
    if i32::MIN <= n <= i32::MAX {
        BsonV::Int32(n as i32)
    } else {
        BsonV::Int64(n)
    }
}

/// The timestamp that `{ t, i }` gives.
pub open spec fn timestamp_payload(payload: JsonV) -> Option<BsonV> {
    match payload {
        JsonV::Object(es) => if es.len() == 2 && es[0].0 == "t"@ && es[1].0 == "i"@ {
            match (es[0].1, es[1].1) {
                (JsonV::Int(t), JsonV::Int(i)) => if 0 <= t <= u32::MAX && 0 <= i <= u32::MAX {
                    Some(BsonV::Timestamp { time: t as u32, increment: i as u32 })
                } else {
                    None
                },
                _ => None,
            }
        } else {
            None
        },
        _ => None,
    }
}

/// The regular expression that `{ pattern, options }` gives.
pub open spec fn regex_payload(payload: JsonV) -> Option<BsonV> {
    match payload {
        JsonV::Object(es) => if es.len() == 2 && es[0].0 == "pattern"@ && es[1].0 == "options"@ {
            match (es[0].1, es[1].1) {
                (JsonV::String(p), JsonV::String(o)) => Some(BsonV::RegularExpression { pattern: p, options: o }),
                _ => None,
            }
        } else {
            None
        },
        _ => None,
    }
}

/// The BSON value that a type-tagged object `{ tag: payload }` of extended
/// JSON stands for: none where `tag` is no type tag, `Some(None)` where the
/// payload does not fit the tag.
pub open spec fn spec_tagged_value(tag: Seq<char>, payload: JsonV) -> Option<Option<BsonV>> {
    if tag == "$numberInt"@ {
        Some(match payload {
            JsonV::String(t) => match i64_parse(t) {
                Some(n) => if i32::MIN <= n <= i32::MAX { Some(BsonV::Int32(n as i32)) } else { None },
                None => None,
            },
            _ => None,
        })
    } else if tag == "$numberLong"@ {
        Some(match payload {
            JsonV::String(t) => match i64_parse(t) {
                Some(n) => Some(BsonV::Int64(n)),
                None => None,
            },
            _ => None,
        })
    } else if tag == "$numberDouble"@ {
        Some(match payload {
            JsonV::String(t) => Some(BsonV::Double(t)),
            _ => None,
        })
    } else if tag == "$numberDecimal"@ {
        Some(match payload {
            JsonV::String(t) => match decimal128_parse(t) {
                Some(d) => Some(BsonV::Decimal128(d)),
                None => None,
            },
            _ => None,
        })
    } else if tag == "$oid"@ {
        Some(match payload {
            JsonV::String(t) => match object_id_parse(t) {
                Some(o) => Some(BsonV::ObjectId(o)),
                None => None,
            },
            _ => None,
        })
    } else if tag == "$symbol"@ {
        Some(match payload {
            JsonV::String(t) => Some(BsonV::Symbol(t)),
            _ => None,
        })
    } else if tag == "$code"@ {
        Some(match payload {
            JsonV::String(t) => Some(BsonV::JavaScriptCode(t)),
            _ => None,
        })
    } else if tag == "$date"@ {
        Some(match payload {
            JsonV::Object(es) => if es.len() == 1 && es[0].0 == "$numberLong"@ {
                match es[0].1 {
                    JsonV::String(t) => match i64_parse(t) {
                        Some(ms) => Some(BsonV::DateTime(ms)),
                        None => None,
                    },
                    _ => None,
                }
            } else {
                None
            },
            JsonV::String(t) => match rfc3339_parse(t) {
                Some(ms) => Some(BsonV::DateTime(ms)),
                None => None,
            },
            _ => None,
        })
    } else if tag == "$timestamp"@ {
        Some(timestamp_payload(payload))
    } else if tag == "$regularExpression"@ {
        Some(regex_payload(payload))
    } else if tag == "$undefined"@ {
        Some(if payload == JsonV::Bool(true) { Some(BsonV::Undefined) } else { None })
    } else if tag == "$minKey"@ {
        Some(if payload == JsonV::Int(1) { Some(BsonV::MinKey) } else { None })
    } else if tag == "$maxKey"@ {
        Some(if payload == JsonV::Int(1) { Some(BsonV::MaxKey) } else { None })
    } else {
        None
    }
}

/// The BSON value of extended JSON: a single-entry object whose key is a type
/// tag stands for that type; other values stand for themselves, an integer as
/// `Int32` where it fits.
pub open spec fn spec_ext_json_to_bson(j: JsonV) -> Option<BsonV>
    decreases j,
{
    match j {
        JsonV::Null => Some(BsonV::Null),
        JsonV::Bool(b) => Some(BsonV::Boolean(b)),
        JsonV::Int(n) => Some(untagged_int(n)),
        JsonV::Float(t) => Some(BsonV::Double(t)),
        JsonV::String(t) => Some(BsonV::String(t)),
        JsonV::Array(items) => match spec_ext_items_to_bson(items) {
            Some(bs) => Some(BsonV::Array(bs)),
            None => None,
        },
        JsonV::Object(entries) => {
            let tagged = if entries.len() == 1 {
                spec_tagged_value(entries[0].0, entries[0].1)
            } else {
                None
            };
            match tagged {
                Some(v) => v,
                None => match spec_ext_entries_to_bson(entries) {
                    Some(d) => Some(BsonV::Document(d)),
                    None => None,
                },
            }
        },
    }
}

pub open spec fn spec_ext_items_to_bson(items: Seq<JsonV>) -> Option<Seq<BsonV>>
    decreases items,
{
    if items.len() == 0 {
        Some(Seq::empty())
    } else {
        match (
            spec_ext_items_to_bson(items.subrange(0, items.len() - 1)),
            spec_ext_json_to_bson(items[items.len() - 1]),
        ) {
            (Some(i), Some(v)) => Some(i.push(v)),
            _ => None,
        }
    }
}

pub open spec fn spec_ext_entries_to_bson(entries: Seq<(Seq<char>, JsonV)>) -> Option<Seq<(Seq<char>, BsonV)>>
    decreases entries,
{
    if entries.len() == 0 {
        Some(Seq::empty())
    } else {
        match (
            spec_ext_entries_to_bson(entries.subrange(0, entries.len() - 1)),
            spec_ext_json_to_bson(entries[entries.len() - 1].1),
        ) {
            (Some(i), Some(v)) => Some(i.push((entries[entries.len() - 1].0, v))),
            _ => None,
        }
    }
}

/// The value under `key` in an object: that of its first entry named `key`.
pub open spec fn object_get(entries: Seq<(Seq<char>, JsonV)>, key: Seq<char>) -> Option<JsonV> {
    if exists|i: int| 0 <= i < entries.len() && entries[i].0 == key {
        let i = choose|i: int| 0 <= i < entries.len() && entries[i].0 == key && forall|j: int| 0 <= j < i ==> entries[j].0 != key;
        Some(entries[i].1)
    } else {
        None
    }
}

/// The BSON value of a JSON literal of type `t`; none where it does not have
/// that type.
pub open spec fn spec_json_to_bson(t: TypeV, j: JsonV) -> Option<BsonV>
    decreases t, 0nat,
{
    match t {
        TypeV::Scalar(MongoScalarType::ExtendedJSON) => spec_ext_json_to_bson(j),
        TypeV::Scalar(MongoScalarType::Bson(s)) => spec_json_to_scalar(s, j),
        TypeV::Object(_, fields) => match j {
            JsonV::Object(entries) => match spec_fields_to_bson(fields, entries) {
                Some(d) => Some(BsonV::Document(d)),
                None => None,
            },
            _ => None,
        },
        TypeV::ArrayOf(e) => match j {
            JsonV::Array(items) => match spec_items_to_bson(*e, items) {
                Some(bs) => Some(BsonV::Array(bs)),
                None => None,
            },
            _ => None,
        },
        TypeV::Nullable(e) => if j is Null {
            Some(BsonV::Null)
        } else {
            spec_json_to_bson(*e, j)
        },
    }
}

/// Exactly the declared fields, in declaration order: a field that the object
/// lacks is null where its type admits null.
pub open spec fn spec_fields_to_bson(
    fields: Seq<(Seq<char>, TypeV)>,
    entries: Seq<(Seq<char>, JsonV)>,
) -> Option<Seq<(Seq<char>, BsonV)>>
    decreases fields, 0nat,
{
    if fields.len() == 0 {
        Some(Seq::empty())
    } else {
        let init = spec_fields_to_bson(fields.subrange(0, fields.len() - 1), entries);
        let name = fields[fields.len() - 1].0;
        let field_type = fields[fields.len() - 1].1;
        let value = match object_get(entries, name) {
            Some(v) => spec_json_to_bson(field_type, v),
            None => if spec_is_nullable(field_type) {
                Some(BsonV::Null)
            } else {
                None
            },
        };
        match (init, value) {
            (Some(i), Some(v)) => Some(i.push((name, v))),
            _ => None,
        }
    }
}

pub open spec fn spec_items_to_bson(t: TypeV, items: Seq<JsonV>) -> Option<Seq<BsonV>>
    decreases t, items.len() + 1,
{
    if items.len() == 0 {
        Some(Seq::empty())
    } else {
        match (spec_items_to_bson(t, items.subrange(0, items.len() - 1)), spec_json_to_bson(t, items[items.len() - 1])) {
            (Some(i), Some(v)) => Some(i.push(v)),
            _ => None,
        }
    }
}

/// The BSON value of a JSON literal of the given scalar type.
pub fn json_to_scalar(s: BsonScalarType, value: &JsonValue) -> (r: Result<Bson, JsonToBsonError>)
    ensures
        match r {
            Ok(b) => spec_json_to_scalar(s, value@) == Some(b@),
            Err(_) => spec_json_to_scalar(s, value@) is None,
        },
{
    match (s, value) {
        (BsonScalarType::Null, JsonValue::Null) => Ok(Bson::Null),
        (BsonScalarType::Undefined, JsonValue::Null) => Ok(Bson::Null),
        (BsonScalarType::Bool, JsonValue::Bool(b)) => Ok(Bson::Boolean(*b)),
        (BsonScalarType::Int, JsonValue::Int(n)) | (BsonScalarType::Double, JsonValue::Int(n)) => {
            if i32::MIN as i64 <= *n && *n <= i32::MAX as i64 {
                Ok(Bson::Int32(*n as i32))
            } else {
                Err(JsonToBsonError::TypeMismatch)
            }
        },
        (BsonScalarType::Double, JsonValue::Float(t)) => Ok(Bson::Double(t.clone())),
        (BsonScalarType::Long, JsonValue::Int(n)) => Ok(Bson::Int64(*n)),
        (BsonScalarType::Long, JsonValue::String(t)) => match parse_i64(t.as_str()) {
            Some(n) => Ok(Bson::Int64(n)),
            None => Err(JsonToBsonError::CannotParse(t.clone())),
        },
        (BsonScalarType::Decimal, JsonValue::String(t)) => match decimal128_from_str(t.as_str()) {
            Some(d) => Ok(Bson::Decimal128(d)),
            None => Err(JsonToBsonError::CannotParse(t.clone())),
        },
        (BsonScalarType::String, JsonValue::String(t)) => Ok(Bson::String(t.clone())),
        (BsonScalarType::Symbol, JsonValue::String(t)) => Ok(Bson::Symbol(t.clone())),
        (BsonScalarType::Javascript, JsonValue::String(t)) => Ok(Bson::JavaScriptCode(t.clone())),
        (BsonScalarType::ObjectId, JsonValue::String(t)) => match object_id_from_hex(t.as_str()) {
            Some(o) => Ok(Bson::ObjectId(o)),
            None => Err(JsonToBsonError::CannotParse(t.clone())),
        },
        (BsonScalarType::Date, JsonValue::String(t)) => match date_from_rfc3339(t.as_str()) {
            Some(ms) => Ok(Bson::DateTime(ms)),
            None => Err(JsonToBsonError::CannotParse(t.clone())),
        },
        _ => Err(JsonToBsonError::TypeMismatch),
    }
}

fn is_tag(key: &String, tag: &str) -> (r: bool)
    ensures
        r == (key@ == tag@),
{
    *key == tag.to_owned()
}

fn string_payload(payload: &JsonValue) -> (r: Option<&String>)
    ensures
        match r {
            Some(t) => payload@ == JsonV::String(t@),
            None => !(payload@ is String),
        },
{
    match payload {
        JsonValue::String(t) => Some(t),
        _ => None,
    }
}

/// The BSON value of a type-tagged object of extended JSON.
fn tagged_value(tag: &String, payload: &JsonValue) -> (r: Option<Result<Bson, JsonToBsonError>>)
    ensures
        match r {
            None => spec_tagged_value(tag@, payload@) is None,
            Some(Ok(b)) => spec_tagged_value(tag@, payload@) == Some(Some(b@)),
            Some(Err(_)) => spec_tagged_value(tag@, payload@) == Some(None::<BsonV>),
        },
{
    let mismatch = JsonToBsonError::TypeMismatch;
    if is_tag(tag, "$numberInt") {
        Some(match string_payload(payload) {
            Some(t) => match parse_i64(t.as_str()) {
                Some(n) => if i32::MIN as i64 <= n && n <= i32::MAX as i64 {
                    Ok(Bson::Int32(n as i32))
                } else {
                    Err(mismatch)
                },
                None => Err(JsonToBsonError::CannotParse(t.clone())),
            },
            None => Err(mismatch),
        })
    } else if is_tag(tag, "$numberLong") {
        Some(match string_payload(payload) {
            Some(t) => match parse_i64(t.as_str()) {
                Some(n) => Ok(Bson::Int64(n)),
                None => Err(JsonToBsonError::CannotParse(t.clone())),
            },
            None => Err(mismatch),
        })
    } else if is_tag(tag, "$numberDouble") {
        Some(match string_payload(payload) {
            Some(t) => Ok(Bson::Double(t.clone())),
            None => Err(mismatch),
        })
    } else if is_tag(tag, "$numberDecimal") {
        Some(match string_payload(payload) {
            Some(t) => match decimal128_from_str(t.as_str()) {
                Some(d) => Ok(Bson::Decimal128(d)),
                None => Err(JsonToBsonError::CannotParse(t.clone())),
            },
            None => Err(mismatch),
        })
    } else if is_tag(tag, "$oid") {
        Some(match string_payload(payload) {
            Some(t) => match object_id_from_hex(t.as_str()) {
                Some(o) => Ok(Bson::ObjectId(o)),
                None => Err(JsonToBsonError::CannotParse(t.clone())),
            },
            None => Err(mismatch),
        })
    } else if is_tag(tag, "$symbol") {
        Some(match string_payload(payload) {
            Some(t) => Ok(Bson::Symbol(t.clone())),
            None => Err(mismatch),
        })
    } else if is_tag(tag, "$code") {
        Some(match string_payload(payload) {
            Some(t) => Ok(Bson::JavaScriptCode(t.clone())),
            None => Err(mismatch),
        })
    } else if is_tag(tag, "$date") {
        Some(match payload {
            JsonValue::Object(es) => {
                proof {
                    lemma_json_entries_view(es@);
                }
                if es.len() == 1 && is_tag(&es[0].0, "$numberLong") {
                    match string_payload(&es[0].1) {
                        Some(t) => match parse_i64(t.as_str()) {
                            Some(ms) => Ok(Bson::DateTime(ms)),
                            None => Err(JsonToBsonError::CannotParse(t.clone())),
                        },
                        None => Err(mismatch),
                    }
                } else {
                    Err(mismatch)
                }
            },
            JsonValue::String(t) => match date_from_rfc3339(t.as_str()) {
                Some(ms) => Ok(Bson::DateTime(ms)),
                None => Err(JsonToBsonError::CannotParse(t.clone())),
            },
            _ => Err(mismatch),
        })
    } else if is_tag(tag, "$timestamp") {
        Some(match payload {
            JsonValue::Object(es) => {
                proof {
                    lemma_json_entries_view(es@);
                }
                if es.len() == 2 && is_tag(&es[0].0, "t") && is_tag(&es[1].0, "i") {
                    match (&es[0].1, &es[1].1) {
                        (JsonValue::Int(t), JsonValue::Int(i)) => {
                            if 0 <= *t && *t <= u32::MAX as i64 && 0 <= *i && *i <= u32::MAX as i64 {
                                Ok(Bson::Timestamp { time: *t as u32, increment: *i as u32 })
                            } else {
                                Err(mismatch)
                            }
                        },
                        _ => Err(mismatch),
                    }
                } else {
                    Err(mismatch)
                }
            },
            _ => Err(mismatch),
        })
    } else if is_tag(tag, "$regularExpression") {
        Some(match payload {
            JsonValue::Object(es) => {
                proof {
                    lemma_json_entries_view(es@);
                }
                if es.len() == 2 && is_tag(&es[0].0, "pattern") && is_tag(&es[1].0, "options") {
                    match (&es[0].1, &es[1].1) {
                        (JsonValue::String(p), JsonValue::String(o)) => {
                            Ok(Bson::RegularExpression { pattern: p.clone(), options: o.clone() })
                        },
                        _ => Err(mismatch),
                    }
                } else {
                    Err(mismatch)
                }
            },
            _ => Err(mismatch),
        })
    } else if is_tag(tag, "$undefined") {
        Some(match payload {
            JsonValue::Bool(true) => Ok(Bson::Undefined),
            _ => Err(mismatch),
        })
    } else if is_tag(tag, "$minKey") {
        Some(match payload {
            JsonValue::Int(1) => Ok(Bson::MinKey),
            _ => Err(mismatch),
        })
    } else if is_tag(tag, "$maxKey") {
        Some(match payload {
            JsonValue::Int(1) => Ok(Bson::MaxKey),
            _ => Err(mismatch),
        })
    } else {
        None
    }
}

/// The BSON value of extended JSON.
pub fn ext_json_to_bson(value: &JsonValue) -> (r: Result<Bson, JsonToBsonError>)
    ensures
        match r {
            Ok(b) => spec_ext_json_to_bson(value@) == Some(b@),
            Err(_) => spec_ext_json_to_bson(value@) is None,
        },
    decreases value,
{
    match value {
        JsonValue::Null => Ok(Bson::Null),
        JsonValue::Bool(b) => Ok(Bson::Boolean(*b)),
        JsonValue::Int(n) => Ok(if i32::MIN as i64 <= *n && *n <= i32::MAX as i64 {
            Bson::Int32(*n as i32)
        } else {
            Bson::Int64(*n)
        }),
        JsonValue::Float(t) => Ok(Bson::Double(t.clone())),
        JsonValue::String(t) => Ok(Bson::String(t.clone())),
        JsonValue::Array(items) => match ext_items_to_bson(items) {
            Ok(bs) => Ok(Bson::Array(bs)),
            Err(e) => Err(e),
        },
        JsonValue::Object(entries) => {
            proof {
                lemma_json_entries_view(entries@);
            }
            let tagged = if entries.len() == 1 {
                tagged_value(&entries[0].0, &entries[0].1)
            } else {
                None
            };
            match tagged {
                Some(v) => v,
                None => match ext_entries_to_bson(entries) {
                    Ok(d) => Ok(Bson::Document(d)),
                    Err(e) => Err(e),
                },
            }
        },
    }
}

proof fn lemma_ext_items_none_extends(items: Seq<JsonV>, i: int)
    requires
        0 <= i <= items.len(),
        spec_ext_items_to_bson(items.subrange(0, i)) is None,
    ensures
        spec_ext_items_to_bson(items) is None,
    decreases items.len(),
{
    if i == items.len() {
        assert(items.subrange(0, i) =~= items);
    } else {
        let init = items.subrange(0, items.len() - 1);
        assert(init.subrange(0, i) =~= items.subrange(0, i));
        lemma_ext_items_none_extends(init, i);
    }
}

proof fn lemma_ext_entries_none_extends(entries: Seq<(Seq<char>, JsonV)>, i: int)
    requires
        0 <= i <= entries.len(),
        spec_ext_entries_to_bson(entries.subrange(0, i)) is None,
    ensures
        spec_ext_entries_to_bson(entries) is None,
    decreases entries.len(),
{
    if i == entries.len() {
        assert(entries.subrange(0, i) =~= entries);
    } else {
        let init = entries.subrange(0, entries.len() - 1);
        assert(init.subrange(0, i) =~= entries.subrange(0, i));
        lemma_ext_entries_none_extends(init, i);
    }
}

fn ext_items_to_bson(items: &Vec<JsonValue>) -> (r: Result<Vec<Bson>, JsonToBsonError>)
    ensures
        match r {
            Ok(v) => spec_ext_items_to_bson(json_seq_view(items@)) == Some(bson_seq_view(v@)),
            Err(_) => spec_ext_items_to_bson(json_seq_view(items@)) is None,
        },
    decreases items,
{
    let ghost iv = json_seq_view(items@);
    proof {
        lemma_json_seq_view(items@);
        assert(iv.subrange(0, 0) =~= Seq::empty());
    }
    let mut r: Vec<Bson> = Vec::new();
    let mut i: usize = 0;
    while i < items.len()
        invariant
            i <= items@.len(),
            iv == json_seq_view(items@),
            iv.len() == items@.len(),
            forall|k: int| 0 <= k < items@.len() ==> #[trigger] iv[k] == json_view(items@[k]),
            spec_ext_items_to_bson(iv.subrange(0, i as int)) == Some(bson_seq_view(r@)),
        decreases items.len() - i,
    {
        let ghost cur = iv.subrange(0, i + 1);
        assert(cur.subrange(0, cur.len() - 1) =~= iv.subrange(0, i as int));
        assert(cur[cur.len() - 1] == json_view(items@[i as int]));
        match ext_json_to_bson(&items[i]) {
            Ok(v) => push_item(&mut r, v),
            Err(e) => {
                proof {
                    lemma_ext_items_none_extends(iv, i + 1);
                }
                return Err(e);
            },
        }
        i = i + 1;
    }
    assert(iv.subrange(0, i as int) =~= iv);
    Ok(r)
}

fn ext_entries_to_bson(entries: &Vec<(String, JsonValue)>) -> (r: Result<Vec<(String, Bson)>, JsonToBsonError>)
    ensures
        match r {
            Ok(d) => spec_ext_entries_to_bson(json_entries_view(entries@)) == Some(bson_entries_view(d@)),
            Err(_) => spec_ext_entries_to_bson(json_entries_view(entries@)) is None,
        },
    decreases entries,
{
    let ghost ev = json_entries_view(entries@);
    proof {
        lemma_json_entries_view(entries@);
        assert(ev.subrange(0, 0) =~= Seq::empty());
    }
    let mut r: Vec<(String, Bson)> = Vec::new();
    let mut i: usize = 0;
    while i < entries.len()
        invariant
            i <= entries@.len(),
            ev == json_entries_view(entries@),
            ev.len() == entries@.len(),
            forall|k: int| 0 <= k < entries@.len() ==> #[trigger] ev[k] == (entries@[k].0@, json_view(entries@[k].1)),
            spec_ext_entries_to_bson(ev.subrange(0, i as int)) == Some(bson_entries_view(r@)),
        decreases entries.len() - i,
    {
        let ghost cur = ev.subrange(0, i + 1);
        assert(cur.subrange(0, cur.len() - 1) =~= ev.subrange(0, i as int));
        assert(cur[cur.len() - 1] == (entries@[i as int].0@, json_view(entries@[i as int].1)));
        match ext_json_to_bson(&entries[i].1) {
            Ok(v) => push_entry(&mut r, entries[i].0.clone(), v),
            Err(e) => {
                proof {
                    lemma_ext_entries_none_extends(ev, i + 1);
                }
                return Err(e);
            },
        }
        i = i + 1;
    }
    assert(ev.subrange(0, i as int) =~= ev);
    Ok(r)
}

proof fn lemma_fields_to_bson_none_extends(fields: Seq<(Seq<char>, TypeV)>, entries: Seq<(Seq<char>, JsonV)>, i: int)
    requires
        0 <= i <= fields.len(),
        spec_fields_to_bson(fields.subrange(0, i), entries) is None,
    ensures
        spec_fields_to_bson(fields, entries) is None,
    decreases fields.len(),
{
    if i == fields.len() {
        assert(fields.subrange(0, i) =~= fields);
    } else {
        let init = fields.subrange(0, fields.len() - 1);
        assert(init.subrange(0, i) =~= fields.subrange(0, i));
        lemma_fields_to_bson_none_extends(init, entries, i);
    }
}

proof fn lemma_items_to_bson_none_extends(t: TypeV, items: Seq<JsonV>, i: int)
    requires
        0 <= i <= items.len(),
        spec_items_to_bson(t, items.subrange(0, i)) is None,
    ensures
        spec_items_to_bson(t, items) is None,
    decreases items.len(),
{
    if i == items.len() {
        assert(items.subrange(0, i) =~= items);
    } else {
        let init = items.subrange(0, items.len() - 1);
        assert(init.subrange(0, i) =~= items.subrange(0, i));
        lemma_items_to_bson_none_extends(t, init, i);
    }
}

/// The BSON value of a JSON literal of the expected type.
pub fn json_to_bson(expected: &Type, value: &JsonValue) -> (r: Result<Bson, JsonToBsonError>)
    ensures
        match r {
            Ok(b) => spec_json_to_bson(expected@, value@) == Some(b@),
            Err(_) => spec_json_to_bson(expected@, value@) is None,
        },
    decreases expected, 0nat,
{
    match expected {
        Type::Scalar(MongoScalarType::ExtendedJSON) => ext_json_to_bson(value),
        Type::Scalar(MongoScalarType::Bson(s)) => json_to_scalar(*s, value),
        Type::Object(object_type) => match value {
            JsonValue::Object(entries) => match fields_to_bson(&object_type.fields, entries) {
                Ok(d) => Ok(Bson::Document(d)),
                Err(e) => Err(e),
            },
            _ => Err(JsonToBsonError::TypeMismatch),
        },
        Type::ArrayOf(element_type) => match value {
            JsonValue::Array(items) => match items_to_bson(element_type, items) {
                Ok(bs) => Ok(Bson::Array(bs)),
                Err(e) => Err(e),
            },
            _ => Err(JsonToBsonError::TypeMismatch),
        },
        Type::Nullable(underlying) => match value {
            JsonValue::Null => Ok(Bson::Null),
            _ => json_to_bson(underlying, value),
        },
    }
}

fn object_entry<'a>(entries: &'a Vec<(String, JsonValue)>, key: &str) -> (r: Option<&'a JsonValue>)
    ensures
        match r {
            Some(v) => object_get(json_entries_view(entries@), key@) == Some(v@),
            None => object_get(json_entries_view(entries@), key@) is None,
        },
{
    proof {
        lemma_json_entries_view(entries@);
    }
    let ghost ev = json_entries_view(entries@);
    match find_entry(entries, key) {
        Some(k) => {
            proof {
                assert(ev[k as int] == (entries@[k as int].0@, json_view(entries@[k as int].1)));
                assert forall|j: int| 0 <= j < k implies ev[j].0 != key@ by {
                    assert(ev[j] == (entries@[j].0@, json_view(entries@[j].1)));
                }
                let c = choose|c: int| 0 <= c < ev.len() && ev[c].0 == key@ && forall|j: int| 0 <= j < c ==> ev[j].0 != key@;
                assert(c == k as int);
            }
            Some(&entries[k].1)
        },
        None => {
            proof {
                assert forall|j: int| 0 <= j < ev.len() implies ev[j].0 != key@ by {
                    assert(ev[j] == (entries@[j].0@, json_view(entries@[j].1)));
                }
            }
            None
        },
    }
}

fn fields_to_bson(fields: &Vec<(String, Type)>, entries: &Vec<(String, JsonValue)>) -> (r: Result<Vec<(String, Bson)>, JsonToBsonError>)
    ensures
        match r {
            Ok(d) => spec_fields_to_bson(type_fields_view(fields@), json_entries_view(entries@)) == Some(bson_entries_view(d@)),
            Err(_) => spec_fields_to_bson(type_fields_view(fields@), json_entries_view(entries@)) is None,
        },
    decreases fields, 0nat,
{
    let ghost ev = json_entries_view(entries@);
    let ghost fv = type_fields_view(fields@);
    proof {
        lemma_type_fields_view(fields@);
        assert(fv.subrange(0, 0) =~= Seq::empty());
    }
    let mut r: Vec<(String, Bson)> = Vec::new();
    let mut i: usize = 0;
    while i < fields.len()
        invariant
            i <= fields@.len(),
            ev == json_entries_view(entries@),
            fv == type_fields_view(fields@),
            fv.len() == fields@.len(),
            forall|k: int| 0 <= k < fields@.len() ==> #[trigger] fv[k] == (fields@[k].0@, type_view(fields@[k].1)),
            spec_fields_to_bson(fv.subrange(0, i as int), ev) == Some(bson_entries_view(r@)),
        decreases fields.len() - i,
    {
        let (name, field_type) = (&fields[i].0, &fields[i].1);
        let ghost cur = fv.subrange(0, i + 1);
        assert(cur.subrange(0, cur.len() - 1) =~= fv.subrange(0, i as int));
        assert(cur[cur.len() - 1] == (name@, field_type@));
        let value = match object_entry(entries, name.as_str()) {
            Some(v) => json_to_bson(field_type, v),
            None => if is_nullable(field_type) {
                Ok(Bson::Null)
            } else {
                Err(JsonToBsonError::MissingObjectField(name.clone()))
            },
        };
        match value {
            Ok(v) => push_entry(&mut r, name.clone(), v),
            Err(e) => {
                proof {
                    lemma_fields_to_bson_none_extends(fv, ev, i + 1);
                }
                return Err(e);
            },
        }
        i = i + 1;
    }
    assert(fv.subrange(0, i as int) =~= fv);
    Ok(r)
}

fn items_to_bson(element_type: &Type, items: &Vec<JsonValue>) -> (r: Result<Vec<Bson>, JsonToBsonError>)
    ensures
        match r {
            Ok(v) => spec_items_to_bson(element_type@, json_seq_view(items@)) == Some(bson_seq_view(v@)),
            Err(_) => spec_items_to_bson(element_type@, json_seq_view(items@)) is None,
        },
    decreases element_type, items@.len() + 1,
{
    let ghost iv = json_seq_view(items@);
    proof {
        lemma_json_seq_view(items@);
        assert(iv.subrange(0, 0) =~= Seq::empty());
    }
    let mut r: Vec<Bson> = Vec::new();
    let mut i: usize = 0;
    while i < items.len()
        invariant
            i <= items@.len(),
            iv == json_seq_view(items@),
            iv.len() == items@.len(),
            forall|k: int| 0 <= k < items@.len() ==> #[trigger] iv[k] == json_view(items@[k]),
            spec_items_to_bson(element_type@, iv.subrange(0, i as int)) == Some(bson_seq_view(r@)),
        decreases items.len() - i,
    {
        let ghost cur = iv.subrange(0, i + 1);
        assert(cur.subrange(0, cur.len() - 1) =~= iv.subrange(0, i as int));
        assert(cur[cur.len() - 1] == json_view(items@[i as int]));
        match json_to_bson(element_type, &items[i]) {
            Ok(v) => push_item(&mut r, v),
            Err(e) => {
                proof {
                    lemma_items_to_bson_none_extends(element_type@, iv, i + 1);
                }
                return Err(e);
            },
        }
        i = i + 1;
    }
    assert(iv.subrange(0, i as int) =~= iv);
    Ok(r)
}

proof fn lemma_hex_digit_value(n: u8)
    requires
        n < 16,
    ensures
        hex_value(hex_digit(n)) == Some(n as int),
{
    if n == 0 { } else if n == 1 { } else if n == 2 { } else if n == 3 { } else if n == 4 { }
    else if n == 5 { } else if n == 6 { } else if n == 7 { } else if n == 8 { } else if n == 9 { }
    else if n == 10 { } else if n == 11 { } else if n == 12 { } else if n == 13 { } else if n == 14 { }
    else { }
}

proof fn lemma_hex_text_index(bytes: Seq<u8>)
    ensures
        hex_text(bytes).len() == 2 * bytes.len(),
        forall|k: int| 0 <= k < bytes.len() ==> {
            &&& #[trigger] hex_text(bytes)[2 * k] == hex_digit(bytes[k] / 16)
            &&& hex_text(bytes)[2 * k + 1] == hex_digit(bytes[k] % 16)
        },
    decreases bytes.len(),
{
    if bytes.len() > 0 {
        let init = bytes.drop_last();
        lemma_hex_text_index(init);
        let b = bytes.last();
        let t = hex_text(bytes);
        let ti = hex_text(init);
        assert(t == ti.push(hex_digit(b / 16)).push(hex_digit(b % 16)));
        assert forall|k: int| 0 <= k < bytes.len() implies {
            &&& #[trigger] hex_text(bytes)[2 * k] == hex_digit(bytes[k] / 16)
            &&& hex_text(bytes)[2 * k + 1] == hex_digit(bytes[k] % 16)
        } by {
            if k < bytes.len() - 1 {
                assert(init[k] == bytes[k]);
                assert(t[2 * k] == ti[2 * k]);
                assert(t[2 * k + 1] == ti[2 * k + 1]);
                assert(ti[2 * k] == hex_digit(init[k] / 16));
            } else {
                assert(2 * k == ti.len());
                assert(t[2 * k] == hex_digit(b / 16));
                assert(t[2 * k + 1] == hex_digit(b % 16));
            }
        }
    }
}

/// The hexadecimal text of an ObjectId parses back to it.
pub proof fn lemma_object_id_round_trip(bytes: Seq<u8>)
    requires
        bytes.len() == 12,
    ensures
        object_id_parse(hex_text(bytes)) == Some(bytes),
{
    let s = hex_text(bytes);
    lemma_hex_text_index(bytes);
    assert forall|i: int| 0 <= i < 24 implies (#[trigger] hex_value(s[i])) is Some by {
        let k = i / 2;
        lemma_hex_digit_value(bytes[k] / 16);
        lemma_hex_digit_value(bytes[k] % 16);
        assert(s[2 * k] == hex_digit(bytes[k] / 16));
        assert(s[2 * k + 1] == hex_digit(bytes[k] % 16));
        if i % 2 == 0 {
            assert(i == 2 * k);
        } else {
            assert(i == 2 * k + 1);
        }
    }
    let decoded = Seq::new(12, |k: int| (hex_value(s[2 * k])->Some_0 * 16 + hex_value(s[2 * k + 1])->Some_0) as u8);
    assert forall|k: int| 0 <= k < 12 implies decoded[k] == bytes[k] by {
        lemma_hex_digit_value(bytes[k] / 16);
        lemma_hex_digit_value(bytes[k] % 16);
        assert(s[2 * k] == hex_digit(bytes[k] / 16));
        assert(s[2 * k + 1] == hex_digit(bytes[k] % 16));
        assert((bytes[k] / 16) as int * 16 + (bytes[k] % 16) as int == bytes[k] as int);
    }
    assert(decoded =~= bytes);
}

proof fn lemma_digit_value(n: nat)
    requires
        n < 10,
    ensures
        seq!['0', '1', '2', '3', '4', '5', '6', '7', '8', '9'][n as int] as int - '0' as int == n,
        '0' <= seq!['0', '1', '2', '3', '4', '5', '6', '7', '8', '9'][n as int],
        seq!['0', '1', '2', '3', '4', '5', '6', '7', '8', '9'][n as int] <= '9',
{
    if n == 0 { } else if n == 1 { } else if n == 2 { } else if n == 3 { } else if n == 4 { }
    else if n == 5 { } else if n == 6 { } else if n == 7 { } else if n == 8 { } else { }
}

proof fn lemma_digits_text_value(n: nat)
    ensures
        digits_text(n).len() > 0,
        all_digits(digits_text(n)),
        digits_value(digits_text(n)) == n,
        digits_text(n)[0] != '-' && digits_text(n)[0] != '+',
    decreases n,
{
    lemma_digit_value(n % 10);
    let d = seq!['0', '1', '2', '3', '4', '5', '6', '7', '8', '9'][(n % 10) as int];
    assert(d as int - '0' as int == n % 10);
    if n >= 10 {
        lemma_digits_text_value(n / 10);
        let t = digits_text(n);
        assert(t.last() == d);
        assert(digits_value(t) == digits_value(t.drop_last()) * 10 + (t.last() as int - '0' as int));
        assert(t.drop_last() =~= digits_text(n / 10));
        assert(t[0] == digits_text(n / 10)[0]);
        assert forall|i: int| 0 <= i < t.len() implies '0' <= #[trigger] t[i] && t[i] <= '9' by {
            if i < t.len() - 1 {
                assert(t[i] == digits_text(n / 10)[i]);
            }
        }
        assert((n / 10) * 10 + n % 10 == n);
    } else {
        let t = digits_text(n);
        assert(t.drop_last() =~= Seq::<char>::empty());
        assert(t.last() == d);
        assert(n % 10 == n);
        assert(digits_value(t) == digits_value(t.drop_last()) * 10 + (t.last() as int - '0' as int));
    }
}

/// The decimal text of an `i64` parses back to it.
pub proof fn lemma_i64_text_round_trip(k: i64)
    ensures
        i64_parse(decimal_text(k as int)) == Some(k),
{
    let t = decimal_text(k as int);
    if k < 0 {
        let m = (-(k as int)) as nat;
        lemma_digits_text_value(m);
        assert(t.subrange(1, t.len() as int) =~= digits_text(m));
        assert(t[0] == '-');
    } else {
        lemma_digits_text_value(k as nat);
    }
}

/// Extended JSON reads back what it wrote for `b`: no document key in `b`
/// starts with `$` (such a key could be read as a type tag), `b` holds no
/// Decimal128 (whose text comes from the bson crate), and its ObjectIds have
/// twelve bytes.
pub open spec fn ext_json_faithful(b: BsonV) -> bool
    decreases b,
{
    match b {
        BsonV::Decimal128(_) => false,
        BsonV::ObjectId(o) => o.len() == 12,
        BsonV::Array(items) => faithful_items(items),
        BsonV::Document(entries) => faithful_entries(entries),
        _ => true,
    }
}

pub open spec fn faithful_items(items: Seq<BsonV>) -> bool
    decreases items,
{
    if items.len() == 0 {
        true
    } else {
        faithful_items(items.subrange(0, items.len() - 1)) && ext_json_faithful(items[items.len() - 1])
    }
}

pub open spec fn faithful_entries(entries: Seq<(Seq<char>, BsonV)>) -> bool
    decreases entries,
{
    if entries.len() == 0 {
        true
    } else {
        let last = entries[entries.len() - 1];
        faithful_entries(entries.subrange(0, entries.len() - 1)) && (last.0.len() == 0 || last.0[0] != '$')
            && ext_json_faithful(last.1)
    }
}

/// The type tags of extended JSON start with `$` and differ from each other
/// in their first characters.
proof fn lemma_tags_distinct()
    ensures
        "$numberInt"@.len() == 10,
        "$numberLong"@.len() == 11,
        "$numberDouble"@.len() == 13,
        "$numberDecimal"@.len() == 14,
        "$oid"@.len() == 4,
        "$symbol"@.len() == 7,
        "$code"@.len() == 5,
        "$date"@.len() == 5,
        "$timestamp"@.len() == 10,
        "$regularExpression"@.len() == 18,
        "$undefined"@.len() == 10,
        "$minKey"@.len() == 7,
        "$maxKey"@.len() == 7,
        "$numberInt"@[0] == '$',
        "$numberInt"@[1] == 'n',
        "$numberInt"@[7] == 'I',
        "$numberLong"@[0] == '$',
        "$numberLong"@[1] == 'n',
        "$numberLong"@[7] == 'L',
        "$numberDouble"@[0] == '$',
        "$numberDouble"@[1] == 'n',
        "$numberDouble"@[7] == 'D',
        "$numberDouble"@[8] == 'o',
        "$numberDecimal"@[0] == '$',
        "$numberDecimal"@[1] == 'n',
        "$numberDecimal"@[7] == 'D',
        "$numberDecimal"@[8] == 'e',
        "$oid"@[0] == '$',
        "$oid"@[1] == 'o',
        "$symbol"@[0] == '$',
        "$symbol"@[1] == 's',
        "$code"@[0] == '$',
        "$code"@[1] == 'c',
        "$date"@[0] == '$',
        "$date"@[1] == 'd',
        "$timestamp"@[0] == '$',
        "$timestamp"@[1] == 't',
        "$regularExpression"@[0] == '$',
        "$regularExpression"@[1] == 'r',
        "$undefined"@[0] == '$',
        "$undefined"@[1] == 'u',
        "$minKey"@[0] == '$',
        "$minKey"@[1] == 'm',
        "$minKey"@[2] == 'i',
        "$maxKey"@[0] == '$',
        "$maxKey"@[1] == 'm',
        "$maxKey"@[2] == 'a',
{
    reveal_strlit("$numberInt");
    reveal_strlit("$numberLong");
    reveal_strlit("$numberDouble");
    reveal_strlit("$numberDecimal");
    reveal_strlit("$oid");
    reveal_strlit("$symbol");
    reveal_strlit("$code");
    reveal_strlit("$date");
    reveal_strlit("$timestamp");
    reveal_strlit("$regularExpression");
    reveal_strlit("$undefined");
    reveal_strlit("$minKey");
    reveal_strlit("$maxKey");
}

proof fn lemma_untagged_key(k: Seq<char>, payload: JsonV)
    requires
        k.len() == 0 || k[0] != '$',
    ensures
        spec_tagged_value(k, payload) is None,
{
    lemma_tags_distinct();
}

/// Extended JSON written for a value reads back as that value.
pub proof fn lemma_ext_json_round_trip(b: BsonV)
    requires
        ext_json_faithful(b),
    ensures
        spec_ext_json_to_bson(spec_ext_json(b)) == Some(b),
    decreases b, 1nat,
{
    lemma_tags_distinct();
    reveal_strlit("t");
    reveal_strlit("i");
    reveal_strlit("pattern");
    reveal_strlit("options");
    match b {
        BsonV::Int32(n) => {
            lemma_i64_text_round_trip(n as i64);
        },
        BsonV::Int64(n) => {
            lemma_i64_text_round_trip(n);
        },
        BsonV::DateTime(ms) => {
            lemma_i64_text_round_trip(ms);
        },
        BsonV::ObjectId(o) => {
            lemma_object_id_round_trip(o);
        },
        BsonV::Array(items) => {
            lemma_ext_items_round_trip(items);
        },
        BsonV::Document(entries) => {
            lemma_ext_entries_round_trip(entries);
            let written = spec_ext_json_entries(entries);
            if entries.len() == 1 {
                assert(entries.subrange(0, 0) =~= Seq::<(Seq<char>, BsonV)>::empty());
                assert(spec_ext_json_entries(entries.subrange(0, 0)) =~= Seq::empty());
                assert(written[0].0 == entries[0].0);
                lemma_untagged_key(entries[0].0, written[0].1);
            }
        },
        BsonV::Timestamp { time, increment } => {
            let es = seq![("t"@, JsonV::Int(time as i64)), ("i"@, JsonV::Int(increment as i64))];
            let payload = JsonV::Object(es);
            assert(timestamp_payload(payload) == Some(b));
        },
        BsonV::RegularExpression { pattern, options } => {
            let es = seq![("pattern"@, JsonV::String(pattern)), ("options"@, JsonV::String(options))];
            let payload = JsonV::Object(es);
            assert(regex_payload(payload) == Some(b));
        },
        _ => {},
    }
}

proof fn lemma_ext_items_round_trip(items: Seq<BsonV>)
    requires
        faithful_items(items),
    ensures
        spec_ext_items_to_bson(spec_ext_json_items(items)) == Some(items),
    decreases items, 0nat,
{
    if items.len() > 0 {
        let init = items.subrange(0, items.len() - 1);
        lemma_ext_items_round_trip(init);
        lemma_ext_json_round_trip(items[items.len() - 1]);
        let w = spec_ext_json_items(items);
        assert(w.subrange(0, w.len() - 1) =~= spec_ext_json_items(init));
        assert(init.push(items[items.len() - 1]) =~= items);
    } else {
        assert(spec_ext_json_items(items) =~= Seq::<JsonV>::empty());
        assert(items =~= Seq::<BsonV>::empty());
    }
}

proof fn lemma_ext_entries_round_trip(entries: Seq<(Seq<char>, BsonV)>)
    requires
        faithful_entries(entries),
    ensures
        spec_ext_entries_to_bson(spec_ext_json_entries(entries)) == Some(entries),
    decreases entries, 0nat,
{
    if entries.len() > 0 {
        let init = entries.subrange(0, entries.len() - 1);
        lemma_ext_entries_round_trip(init);
        lemma_ext_json_round_trip(entries[entries.len() - 1].1);
        let w = spec_ext_json_entries(entries);
        assert(w.subrange(0, w.len() - 1) =~= spec_ext_json_entries(init));
        assert(init.push(entries[entries.len() - 1]) =~= entries);
    } else {
        assert(spec_ext_json_entries(entries) =~= Seq::<(Seq<char>, JsonV)>::empty());
        assert(entries =~= Seq::<(Seq<char>, BsonV)>::empty());
    }
}

/// For the scalar types whose JSON form the library states (all but dates and
/// decimals, whose texts come from the bson crate), a value converted to JSON
/// converts back to itself (undefined comes back as null).
pub proof fn lemma_scalar_bson_json_round_trip(s: BsonScalarType, b: BsonV)
    requires
        s is Null || s is Bool || s is Int || s is Double || s is Long || s is String || s is Symbol
            || s is Javascript || s is ObjectId,
        spec_scalar_to_json(s, b) is Some,
        !(b is Undefined),
        b is ObjectId ==> b->ObjectId_0.len() == 12,
    ensures
        spec_json_to_scalar(s, spec_scalar_to_json(s, b)->Some_0) == Some(b),
{
    if let BsonV::Int64(n) = b {
        lemma_i64_text_round_trip(n);
    }
    if let BsonV::ObjectId(o) = b {
        lemma_object_id_round_trip(o);
    }
}

/// For the same scalar types, a JSON literal that converts to BSON converts
/// back to itself.
pub proof fn lemma_scalar_json_bson_round_trip(s: BsonScalarType, j: JsonV)
    requires
        s is Null || s is Bool || s is Int || s is Double || s is String || s is Symbol || s is Javascript,
        spec_json_to_scalar(s, j) is Some,
    ensures
        spec_scalar_to_json(s, spec_json_to_scalar(s, j)->Some_0) == Some(j),
{
}

} // verus!
