//! Names under which a pipeline refers to request variables: the variable's
//! name and a fingerprint of the type it is bound at, so that one name bound
//! at two types gives two pipeline variables.
use vstd::prelude::*;
use crate::scalar_types::{BsonScalarType, MongoScalarType};
use crate::types::{lemma_type_fields_view, type_fields_view, type_view, Type, TypeV};

verus! {

/// A text made self-delimiting: each `_` doubled, then `_e` to close it.
pub open spec fn escaped(k: Seq<char>) -> Seq<char>
    decreases k.len(),
{
    if k.len() == 0 {
        seq!['_', 'e']
    } else {
        (if k[0] == '_' {
            seq!['_', '_']
        } else {
            seq![k[0]]
        }) + escaped(k.subrange(1, k.len() as int))
    }
}

/// The letter of a scalar type inside a fingerprint.
pub open spec fn scalar_letter(s: MongoScalarType) -> char {
    match s {
        MongoScalarType::Bson(BsonScalarType::Double) => 'a',
        MongoScalarType::Bson(BsonScalarType::Decimal) => 'b',
        MongoScalarType::Bson(BsonScalarType::Int) => 'c',
        MongoScalarType::Bson(BsonScalarType::Long) => 'd',
        MongoScalarType::Bson(BsonScalarType::String) => 'e',
        MongoScalarType::Bson(BsonScalarType::Date) => 'f',
        MongoScalarType::Bson(BsonScalarType::Timestamp) => 'g',
        MongoScalarType::Bson(BsonScalarType::BinData) => 'h',
        MongoScalarType::Bson(BsonScalarType::ObjectId) => 'i',
        MongoScalarType::Bson(BsonScalarType::Bool) => 'j',
        MongoScalarType::Bson(BsonScalarType::Null) => 'k',
        MongoScalarType::Bson(BsonScalarType::Regex) => 'l',
        MongoScalarType::Bson(BsonScalarType::Javascript) => 'm',
        MongoScalarType::Bson(BsonScalarType::JavascriptWithScope) => 'n',
        MongoScalarType::Bson(BsonScalarType::MinKey) => 'o',
        MongoScalarType::Bson(BsonScalarType::MaxKey) => 'p',
        MongoScalarType::Bson(BsonScalarType::Undefined) => 'q',
        MongoScalarType::Bson(BsonScalarType::DbPointer) => 'r',
        MongoScalarType::Bson(BsonScalarType::Symbol) => 's',
        MongoScalarType::ExtendedJSON => 't',
    }
}

/// A fingerprint of a type's structure: `s` and the scalar's letter, `a` or `n`
/// before an array's or a nullable's element, `o` before an object's name
/// (`0` for none, `1` and the name) and fields, each field `f`, its name and
/// its type, the list closed by `z`. Names are escaped.
pub open spec fn fingerprint(t: TypeV) -> Seq<char>
    decreases t, 1nat,
{
    match t {
        TypeV::Scalar(s) => seq!['s', scalar_letter(s)],
        TypeV::ArrayOf(e) => seq!['a'] + fingerprint(*e),
        TypeV::Nullable(e) => seq!['n'] + fingerprint(*e),
        TypeV::Object(name, fields) => seq!['o'] + (match name {
            None => seq!['0'],
            Some(n) => seq!['1'] + escaped(n),
        }) + fields_fingerprint(fields),
    }
}

pub open spec fn fields_fingerprint(fields: Seq<(Seq<char>, TypeV)>) -> Seq<char>
    decreases fields, 0nat,
{
    if fields.len() == 0 {
        seq!['z']
    } else {
        seq!['f'] + escaped(fields[0].0) + fingerprint(fields[0].1)
            + fields_fingerprint(fields.subrange(1, fields.len() as int))
    }
}

/// The name under which the pipeline refers to the request variable `name`
/// bound at type `t`: `v_<name>_<fingerprint>`.
pub open spec fn spec_query_variable_name(name: Seq<char>, t: TypeV) -> Seq<char> {
    "v_"@ + name + "_"@ + fingerprint(t)
}

proof fn lemma_escaped_injective(a: Seq<char>, b: Seq<char>, x: Seq<char>, y: Seq<char>)
    requires
        escaped(a) + x == escaped(b) + y,
    ensures
        a == b,
        x == y,
    decreases a.len(),
{
    let l = escaped(a) + x;
    let r = escaped(b) + y;
    if a.len() == 0 {
        if b.len() > 0 {
            let eb = escaped(b.subrange(1, b.len() as int));
            if b[0] == '_' {
                assert(l[1] == 'e');
                assert(r[1] == '_');
            } else {
                assert(l[0] == '_');
                assert(r[0] == b[0]);
            }
        }
        assert(x =~= l.subrange(2, l.len() as int));
        assert(y =~= r.subrange(2, r.len() as int));
    } else if b.len() == 0 {
        lemma_escaped_injective(b, a, y, x);
    } else {
        let ta = a.subrange(1, a.len() as int);
        let tb = b.subrange(1, b.len() as int);
        if a[0] == '_' {
            assert(l[0] == '_' && l[1] == '_');
            if b[0] != '_' {
                assert(r[0] == b[0]);
            }
            assert(escaped(ta) + x =~= l.subrange(2, l.len() as int));
            assert(escaped(tb) + y =~= r.subrange(2, r.len() as int));
        } else {
            assert(l[0] == a[0]);
            if b[0] == '_' {
                assert(r[0] == '_');
            }
            assert(r[0] == b[0]);
            assert(escaped(ta) + x =~= l.subrange(1, l.len() as int));
            assert(escaped(tb) + y =~= r.subrange(1, r.len() as int));
        }
        lemma_escaped_injective(ta, tb, x, y);
        assert(a =~= seq![a[0]] + ta);
        assert(b =~= seq![b[0]] + tb);
    }
}

/// Drops a common first element.
proof fn lemma_drop_head(c: char, x: Seq<char>, y: Seq<char>)
    requires
        seq![c] + x == seq![c] + y,
    ensures
        x == y,
{
    let s = seq![c] + x;
    assert(x =~= s.subrange(1, s.len() as int));
    assert(y =~= s.subrange(1, s.len() as int));
}

proof fn lemma_fingerprint_injective(t1: TypeV, t2: TypeV, r1: Seq<char>, r2: Seq<char>)
    requires
        fingerprint(t1) + r1 == fingerprint(t2) + r2,
    ensures
        t1 == t2,
        r1 == r2,
    decreases t1, 1nat,
{
    let l = fingerprint(t1) + r1;
    let r = fingerprint(t2) + r2;
    assert(l[0] == fingerprint(t1)[0]);
    assert(r[0] == fingerprint(t2)[0]);
    match t1 {
        TypeV::Scalar(s1) => {
            assert(l[0] == 's');
            if let TypeV::Scalar(s2) = t2 {
                assert(l[1] == scalar_letter(s1));
                assert(r[1] == scalar_letter(s2));
                assert(r1 =~= l.subrange(2, l.len() as int));
                assert(r2 =~= r.subrange(2, r.len() as int));
            }
        },
        TypeV::ArrayOf(e1) => {
            assert(l[0] == 'a');
            if let TypeV::ArrayOf(e2) = t2 {
                assert(seq!['a'] + (fingerprint(*e1) + r1) =~= l);
                assert(seq!['a'] + (fingerprint(*e2) + r2) =~= r);
                lemma_drop_head('a', fingerprint(*e1) + r1, fingerprint(*e2) + r2);
                lemma_fingerprint_injective(*e1, *e2, r1, r2);
            }
        },
        TypeV::Nullable(e1) => {
            assert(l[0] == 'n');
            if let TypeV::Nullable(e2) = t2 {
                assert(seq!['n'] + (fingerprint(*e1) + r1) =~= l);
                assert(seq!['n'] + (fingerprint(*e2) + r2) =~= r);
                lemma_drop_head('n', fingerprint(*e1) + r1, fingerprint(*e2) + r2);
                lemma_fingerprint_injective(*e1, *e2, r1, r2);
            }
        },
        TypeV::Object(name1, fields1) => {
            assert(l[0] == 'o');
            if let TypeV::Object(name2, fields2) = t2 {
                let n1 = match name1 { None => seq!['0'], Some(n) => seq!['1'] + escaped(n) };
                let n2 = match name2 { None => seq!['0'], Some(n) => seq!['1'] + escaped(n) };
                let rest1 = fields_fingerprint(fields1) + r1;
                let rest2 = fields_fingerprint(fields2) + r2;
                assert(seq!['o'] + (n1 + rest1) =~= l);
                assert(seq!['o'] + (n2 + rest2) =~= r);
                lemma_drop_head('o', n1 + rest1, n2 + rest2);
                assert((n1 + rest1)[0] == n1[0]);
                assert((n2 + rest2)[0] == n2[0]);
                match (name1, name2) {
                    (None, None) => {
                        assert(seq!['0'] + rest1 =~= n1 + rest1);
                        assert(seq!['0'] + rest2 =~= n2 + rest2);
                        lemma_drop_head('0', rest1, rest2);
                    },
                    (Some(a), Some(b)) => {
                        assert(seq!['1'] + (escaped(a) + rest1) =~= n1 + rest1);
                        assert(seq!['1'] + (escaped(b) + rest2) =~= n2 + rest2);
                        lemma_drop_head('1', escaped(a) + rest1, escaped(b) + rest2);
                        lemma_escaped_injective(a, b, rest1, rest2);
                    },
                    _ => {},
                }
                lemma_fields_fingerprint_injective(fields1, fields2, r1, r2);
            }
        },
    }
}

proof fn lemma_fields_fingerprint_injective(
    f1: Seq<(Seq<char>, TypeV)>,
    f2: Seq<(Seq<char>, TypeV)>,
    r1: Seq<char>,
    r2: Seq<char>,
)
    requires
        fields_fingerprint(f1) + r1 == fields_fingerprint(f2) + r2,
    ensures
        f1 == f2,
        r1 == r2,
    decreases f1, 0nat,
{
    let l = fields_fingerprint(f1) + r1;
    let r = fields_fingerprint(f2) + r2;
    assert(l[0] == fields_fingerprint(f1)[0]);
    assert(r[0] == fields_fingerprint(f2)[0]);
    if f1.len() == 0 {
        if f2.len() == 0 {
            lemma_drop_head('z', r1, r2);
        }
    } else if f2.len() > 0 {
        let t1 = f1.subrange(1, f1.len() as int);
        let t2 = f2.subrange(1, f2.len() as int);
        let rest1 = fingerprint(f1[0].1) + (fields_fingerprint(t1) + r1);
        let rest2 = fingerprint(f2[0].1) + (fields_fingerprint(t2) + r2);
        assert(seq!['f'] + (escaped(f1[0].0) + rest1) =~= l);
        assert(seq!['f'] + (escaped(f2[0].0) + rest2) =~= r);
        lemma_drop_head('f', escaped(f1[0].0) + rest1, escaped(f2[0].0) + rest2);
        lemma_escaped_injective(f1[0].0, f2[0].0, rest1, rest2);
        lemma_fingerprint_injective(f1[0].1, f2[0].1, fields_fingerprint(t1) + r1, fields_fingerprint(t2) + r2);
        lemma_fields_fingerprint_injective(t1, t2, r1, r2);
        assert(f1 =~= seq![f1[0]] + t1);
        assert(f2 =~= seq![f2[0]] + t2);
    }
}

fn escape(k: &str) -> (r: String)
    ensures
        r@ == escaped(k@),
{
    proof {
        reveal_strlit("__");
        reveal_strlit("_e");
    }
    let n = k.unicode_len();
    let mut r = String::new();
    let mut i: usize = 0;
    assert(k@.subrange(0, n as int) =~= k@);
    assert(r@ + escaped(k@) =~= escaped(k@));
    while i < n
        invariant
            n == k@.len(),
            i <= n,
            r@ + escaped(k@.subrange(i as int, n as int)) == escaped(k@),
        decreases n - i,
    {
        let c = k.get_char(i);
        let ghost rest = k@.subrange(i as int, n as int);
        assert(rest.subrange(1, rest.len() as int) =~= k@.subrange(i + 1, n as int));
        assert(rest[0] == c);
        let ghost before = r@;
        assert(escaped(rest) == (if rest[0] == '_' {
            seq!['_', '_']
        } else {
            seq![rest[0]]
        }) + escaped(rest.subrange(1, rest.len() as int)));
        if c == '_' {
            proof {
                reveal_strlit("__");
            }
            assert("__"@ =~= seq!['_', '_']);
            r.append("__");
            assert(r@ + escaped(k@.subrange(i + 1, n as int)) =~= before + escaped(rest));
        } else {
            let one = k.substring_char(i, i + 1);
            assert(one@ =~= seq![c]);
            r.append(one);
            assert(r@ + escaped(k@.subrange(i + 1, n as int)) =~= before + escaped(rest));
        }
        i = i + 1;
    }
    assert(k@.subrange(n as int, n as int) =~= Seq::<char>::empty());
    assert("_e"@ =~= seq!['_', 'e']);
    r.append("_e");
    assert(r@ =~= escaped(k@));
    r
}

fn scalar_fingerprint(s: MongoScalarType) -> (r: &'static str)
    ensures
        r@ == seq!['s', scalar_letter(s)],
{
    let r = match s {
        MongoScalarType::Bson(BsonScalarType::Double) => "sa",
        MongoScalarType::Bson(BsonScalarType::Decimal) => "sb",
        MongoScalarType::Bson(BsonScalarType::Int) => "sc",
        MongoScalarType::Bson(BsonScalarType::Long) => "sd",
        MongoScalarType::Bson(BsonScalarType::String) => "se",
        MongoScalarType::Bson(BsonScalarType::Date) => "sf",
        MongoScalarType::Bson(BsonScalarType::Timestamp) => "sg",
        MongoScalarType::Bson(BsonScalarType::BinData) => "sh",
        MongoScalarType::Bson(BsonScalarType::ObjectId) => "si",
        MongoScalarType::Bson(BsonScalarType::Bool) => "sj",
        MongoScalarType::Bson(BsonScalarType::Null) => "sk",
        MongoScalarType::Bson(BsonScalarType::Regex) => "sl",
        MongoScalarType::Bson(BsonScalarType::Javascript) => "sm",
        MongoScalarType::Bson(BsonScalarType::JavascriptWithScope) => "sn",
        MongoScalarType::Bson(BsonScalarType::MinKey) => "so",
        MongoScalarType::Bson(BsonScalarType::MaxKey) => "sp",
        MongoScalarType::Bson(BsonScalarType::Undefined) => "sq",
        MongoScalarType::Bson(BsonScalarType::DbPointer) => "sr",
        MongoScalarType::Bson(BsonScalarType::Symbol) => "ss",
        MongoScalarType::ExtendedJSON => "st",
    };
    proof {
        reveal_strlit("sa");
        reveal_strlit("sb");
        reveal_strlit("sc");
        reveal_strlit("sd");
        reveal_strlit("se");
        reveal_strlit("sf");
        reveal_strlit("sg");
        reveal_strlit("sh");
        reveal_strlit("si");
        reveal_strlit("sj");
        reveal_strlit("sk");
        reveal_strlit("sl");
        reveal_strlit("sm");
        reveal_strlit("sn");
        reveal_strlit("so");
        reveal_strlit("sp");
        reveal_strlit("sq");
        reveal_strlit("sr");
        reveal_strlit("ss");
        reveal_strlit("st");
    }
    assert(r@ =~= seq!['s', scalar_letter(s)]);
    r
}

fn type_fingerprint(t: &Type) -> (r: String)
    ensures
        r@ == fingerprint(t@),
    decreases t, 1nat,
{
    proof {
        reveal_strlit("s");
        reveal_strlit("a");
        reveal_strlit("n");
        reveal_strlit("o");
        reveal_strlit("0");
        reveal_strlit("1");
    }
    match t {
        Type::Scalar(s) => String::from_str(scalar_fingerprint(*s)),
        Type::ArrayOf(e) => {
            assert("a"@ =~= seq!['a']);
            String::from_str("a").concat(type_fingerprint(e).as_str())
        },
        Type::Nullable(e) => {
            assert("n"@ =~= seq!['n']);
            String::from_str("n").concat(type_fingerprint(e).as_str())
        },
        Type::Object(o) => {
            assert("o"@ =~= seq!['o']);
            assert("0"@ =~= seq!['0']);
            assert("1"@ =~= seq!['1']);
            let r = String::from_str("o");
            let r = match &o.name {
                None => r.concat("0"),
                Some(name) => r.concat("1").concat(escape(name.as_str()).as_str()),
            };
            let fields = fields_fingerprint_of(&o.fields);
            let r = r.concat(fields.as_str());
            assert(t@ == TypeV::Object(crate::types::opt_string_view(o.name), type_fields_view(o.fields@)));
            assert(r@ =~= fingerprint(t@));
            r
        },
    }
}

fn fields_fingerprint_of(fields: &Vec<(String, Type)>) -> (r: String)
    ensures
        r@ == fields_fingerprint(type_fields_view(fields@)),
    decreases fields, 0nat,
{
    proof {
        reveal_strlit("f");
        reveal_strlit("z");
        lemma_type_fields_view(fields@);
    }
    let ghost fv = type_fields_view(fields@);
    let n = fields.len();
    let mut r = String::new();
    let mut i: usize = 0;
    assert(fv.subrange(0, n as int) =~= fv);
    assert(r@ + fields_fingerprint(fv) =~= fields_fingerprint(fv));
    while i < n
        invariant
            n == fields@.len(),
            fv == type_fields_view(fields@),
            fv.len() == n,
            forall|k: int| 0 <= k < n ==> #[trigger] fv[k] == (fields@[k].0@, type_view(fields@[k].1)),
            i <= n,
            r@ + fields_fingerprint(fv.subrange(i as int, n as int)) == fields_fingerprint(fv),
        decreases n - i,
    {
        let ghost rest = fv.subrange(i as int, n as int);
        assert(rest.subrange(1, rest.len() as int) =~= fv.subrange(i + 1, n as int));
        assert(rest[0] == (fields@[i as int].0@, type_view(fields@[i as int].1)));
        let ghost before = r@;
        assert(fields_fingerprint(rest) == seq!['f'] + escaped(rest[0].0) + fingerprint(rest[0].1)
            + fields_fingerprint(rest.subrange(1, rest.len() as int)));
        proof {
            reveal_strlit("f");
        }
        assert("f"@ =~= seq!['f']);
        r.append("f");
        r.append(escape(fields[i].0.as_str()).as_str());
        r.append(type_fingerprint(&fields[i].1).as_str());
        assert(r@ + fields_fingerprint(fv.subrange(i + 1, n as int)) =~= before + fields_fingerprint(rest));
        i = i + 1;
    }
    assert(fv.subrange(n as int, n as int) =~= Seq::<(Seq<char>, TypeV)>::empty());
    assert("z"@ =~= seq!['z']);
    r.append("z");
    assert(r@ =~= fields_fingerprint(fv));
    r
}

/// The name under which the pipeline refers to a request variable bound at a type.
pub fn query_variable_name(name: &str, variable_type: &Type) -> (r: String)
    ensures
        r@ == spec_query_variable_name(name@, variable_type@),
{
    String::from_str("v_").concat(name).concat("_").concat(type_fingerprint(variable_type).as_str())
}

/// References to one variable name at two different types get two different
/// pipeline names; at one type they share one.
pub proof fn lemma_variable_names_distinguish_types(name: Seq<char>, t1: TypeV, t2: TypeV)
    ensures
        (spec_query_variable_name(name, t1) == spec_query_variable_name(name, t2)) <==> (t1 == t2),
{
    let p = "v_"@ + name + "_"@;
    if spec_query_variable_name(name, t1) == spec_query_variable_name(name, t2) {
        assert(fingerprint(t1) =~= spec_query_variable_name(name, t1).subrange(p.len() as int, spec_query_variable_name(name, t1).len() as int));
        assert(fingerprint(t2) =~= spec_query_variable_name(name, t2).subrange(p.len() as int, spec_query_variable_name(name, t2).len() as int));
        assert(fingerprint(t1) + Seq::<char>::empty() =~= fingerprint(t1));
        assert(fingerprint(t2) + Seq::<char>::empty() =~= fingerprint(t2));
        lemma_fingerprint_injective(t1, t2, Seq::empty(), Seq::empty());
    }
}

} // verus!
