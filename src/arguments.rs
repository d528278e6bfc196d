//! Arguments of native queries and procedures: checked against the declared
//! parameters and translated to BSON.
use vstd::prelude::*;
use crate::bson::{Bson, BsonV, JsonValue};
use crate::bson::{bson_entries_view, push_entry};
use crate::configuration::{entry_names, find_entry, first_match, joined, join_names, no_match, string_views};
use crate::scalar_types::MongoScalarType;
use crate::serialization::{json_to_bson, spec_json_to_bson, JsonToBsonError};
use crate::types::{Type, TypeV};
use crate::variables::{query_variable_name, spec_query_variable_name};

verus! {

/// An argument: a reference to a request variable, or a literal.
#[derive(Debug, PartialEq)]
pub enum Argument {
    Variable { name: String },
    Literal { value: JsonValue },
}

/// Why arguments do not fit the declared parameters.
#[derive(Debug, PartialEq)]
pub enum ArgumentError {
    /// Arguments for which no parameter is declared.
    Excess(Vec<String>),
    /// Literals that do not have their parameter's type.
    Invalid(Vec<(String, JsonToBsonError)>),
    /// Parameters for which no argument is given.
    Missing(Vec<String>),
}

/// The names of the arguments for which no parameter is declared, in order.
pub open spec fn excess_names<T>(params: Seq<(String, Type)>, args: Seq<(String, T)>) -> Seq<Seq<char>>
    decreases args.len(),
{
    if args.len() == 0 {
        Seq::empty()
    } else {
        excess_names(params, args.drop_last()) + if entry_names(params).contains(args.last().0@) {
            Seq::empty()
        } else {
            seq![args.last().0@]
        }
    }
}

/// The names of the parameters for which no argument is given, in order.
pub open spec fn missing_names(params: Seq<(String, Type)>, args: Seq<(String, Argument)>) -> Seq<Seq<char>>
    decreases params.len(),
{
    if params.len() == 0 {
        Seq::empty()
    } else {
        missing_names(params.drop_last(), args) + if entry_names(args).contains(params.last().0@) {
            Seq::empty()
        } else {
            seq![params.last().0@]
        }
    }
}

/// The BSON form of an argument for a parameter of type `t`: a variable as a
/// reference `$$<its pipeline name>`, a literal converted against the type.
pub open spec fn spec_argument_value(arg: Argument, t: TypeV) -> Option<BsonV> {
    match arg {
        Argument::Variable { name } => Some(BsonV::String("$$"@ + spec_query_variable_name(name@, t))),
        Argument::Literal { value } => spec_json_to_bson(t, value@),
    }
}

/// The first argument named `name`.
pub open spec fn argument_for(args: Seq<(String, Argument)>, name: Seq<char>) -> Argument {
    args[choose|i: int| first_match(args, name, i)].1
}

/// The names of the parameters whose argument does not convert.
pub open spec fn invalid_names(params: Seq<(String, Type)>, args: Seq<(String, Argument)>) -> Seq<Seq<char>>
    decreases params.len(),
{
    if params.len() == 0 {
        Seq::empty()
    } else {
        let p = params.last();
        invalid_names(params.drop_last(), args) + if spec_argument_value(argument_for(args, p.0@), p.1@) is None {
            seq![p.0@]
        } else {
            Seq::empty()
        }
    }
}

/// Each parameter with the BSON form of its argument, in parameter order.
pub open spec fn resolved_values(params: Seq<(String, Type)>, args: Seq<(String, Argument)>) -> Seq<(Seq<char>, BsonV)> {
    params.map_values(
        |p: (String, Type)| (p.0@, spec_argument_value(argument_for(args, p.0@), p.1@)->Some_0),
    )
}

/// Fails with the names of the arguments for which no parameter is declared.
pub fn validate_no_excess_arguments<T>(
    parameters: &Vec<(String, Type)>,
    arguments: &Vec<(String, T)>,
) -> (r: Result<(), ArgumentError>)
    ensures
        r is Ok <==> excess_names(parameters@, arguments@).len() == 0,
        r is Err ==> r->Err_0 is Excess && string_views(r->Err_0->Excess_0@) == excess_names(parameters@, arguments@),
{
    let mut excess: Vec<String> = Vec::new();
    let mut i: usize = 0;
    while i < arguments.len()
        invariant
            i <= arguments@.len(),
            string_views(excess@) == excess_names(parameters@, arguments@.take(i as int)),
        decreases arguments.len() - i,
    {
        let name = &arguments[i].0;
        assert(arguments@.take(i + 1).drop_last() =~= arguments@.take(i as int));
        let found = find_entry(parameters, name.as_str());
        proof {
            match found {
                Some(k) => {
                    assert(entry_names(parameters@)[k as int] == name@);
                },
                None => {
                    assert forall|j: int| 0 <= j < parameters@.len() implies entry_names(parameters@)[j] != name@ by {}
                },
            }
        }
        let ghost before = excess@;
        if found.is_none() {
            excess.push(name.clone());
        }
        i = i + 1;
        assert(string_views(excess@) =~= excess_names(parameters@, arguments@.take(i as int)));
    }
    assert(arguments@.take(i as int) =~= arguments@);
    if excess.len() > 0 {
        Err(ArgumentError::Excess(excess))
    } else {
        Ok(())
    }
}

fn argument_to_mongodb_expression(argument: &Argument, parameter_type: &Type) -> (r: Result<Bson, JsonToBsonError>)
    ensures
        match r {
            Ok(b) => spec_argument_value(*argument, parameter_type@) == Some(b@),
            Err(_) => spec_argument_value(*argument, parameter_type@) is None,
        },
{
    match argument {
        Argument::Variable { name } => {
            let variable_name = query_variable_name(name.as_str(), parameter_type);
            Ok(Bson::String(String::from_str("$$").concat(variable_name.as_str())))
        },
        Argument::Literal { value } => json_to_bson(parameter_type, value),
    }
}

/// Translates arguments to BSON against the declared parameters: excess
/// arguments, then missing ones, then literals that do not convert are
/// reported, each kind with every name concerned.
pub fn resolve_arguments(
    parameters: &Vec<(String, Type)>,
    arguments: Vec<(String, Argument)>,
) -> (r: Result<Vec<(String, Bson)>, ArgumentError>)
    ensures
        excess_names(parameters@, arguments@).len() > 0 ==> r is Err && r->Err_0 is Excess
            && string_views(r->Err_0->Excess_0@) == excess_names(parameters@, arguments@),
        excess_names(parameters@, arguments@).len() == 0 && missing_names(parameters@, arguments@).len() > 0
            ==> r is Err && r->Err_0 is Missing
            && string_views(r->Err_0->Missing_0@) == missing_names(parameters@, arguments@),
        excess_names(parameters@, arguments@).len() == 0 && missing_names(parameters@, arguments@).len() == 0
            && invalid_names(parameters@, arguments@).len() > 0 ==> r is Err && r->Err_0 is Invalid
            && r->Err_0->Invalid_0@.map_values(|e: (String, JsonToBsonError)| e.0@) == invalid_names(parameters@, arguments@),
        excess_names(parameters@, arguments@).len() == 0 && missing_names(parameters@, arguments@).len() == 0
            && invalid_names(parameters@, arguments@).len() == 0 ==> r is Ok
            && bson_entries_view(r->Ok_0@) == resolved_values(parameters@, arguments@),
{
    match validate_no_excess_arguments(parameters, &arguments) {
        Ok(()) => {},
        Err(e) => { return Err(e); },
    }
    let mut missing: Vec<String> = Vec::new();
    let mut i: usize = 0;
    while i < parameters.len()
        invariant
            i <= parameters@.len(),
            string_views(missing@) == missing_names(parameters@.take(i as int), arguments@),
        decreases parameters.len() - i,
    {
        let name = &parameters[i].0;
        assert(parameters@.take(i + 1).drop_last() =~= parameters@.take(i as int));
        let found = find_entry(&arguments, name.as_str());
        proof {
            match found {
                Some(k) => {
                    assert(entry_names(arguments@)[k as int] == name@);
                },
                None => {
                    assert forall|j: int| 0 <= j < arguments@.len() implies entry_names(arguments@)[j] != name@ by {}
                },
            }
        }
        if found.is_none() {
            missing.push(name.clone());
        }
        i = i + 1;
        assert(string_views(missing@) =~= missing_names(parameters@.take(i as int), arguments@));
    }
    assert(parameters@.take(i as int) =~= parameters@);
    if missing.len() > 0 {
        return Err(ArgumentError::Missing(missing));
    }
    let mut resolved: Vec<(String, Bson)> = Vec::new();
    let mut errors: Vec<(String, JsonToBsonError)> = Vec::new();
    let mut i: usize = 0;
    while i < parameters.len()
        invariant
            i <= parameters@.len(),
            missing_names(parameters@, arguments@).len() == 0,
            errors@.map_values(|e: (String, JsonToBsonError)| e.0@) == invalid_names(parameters@.take(i as int), arguments@),
            invalid_names(parameters@.take(i as int), arguments@).len() == 0 ==>
                bson_entries_view(resolved@) == resolved_values(parameters@.take(i as int), arguments@),
        decreases parameters.len() - i,
    {
        let (name, parameter_type) = (&parameters[i].0, &parameters[i].1);
        assert(parameters@.take(i + 1).drop_last() =~= parameters@.take(i as int));
        proof {
            lemma_missing_means_given(parameters@, arguments@, i as int);
        }
        let k = match find_entry(&arguments, name.as_str()) {
            Some(k) => k,
            None => {
                proof {
                    assert(entry_names(arguments@).contains(name@));
                    let j = choose|j: int| 0 <= j < entry_names(arguments@).len() && entry_names(arguments@)[j] == name@;
                    assert(arguments@[j].0@ == name@);
                }
                return Err(ArgumentError::Missing(Vec::new()));
            },
        };
        proof {
            let c = choose|c: int| first_match(arguments@, name@, c);
            assert(c == k as int) by {
                if c < k as int { } else if c > k as int { }
            }
        }
        let ghost prev_errors = errors@;
        match argument_to_mongodb_expression(&arguments[k].1, parameter_type) {
            Ok(b) => {
                push_entry(&mut resolved, name.clone(), b);
                assert(errors@.map_values(|e: (String, JsonToBsonError)| e.0@) =~= invalid_names(parameters@.take(i + 1), arguments@));
            },
            Err(e) => {
                errors.push((name.clone(), e));
                assert(errors@.map_values(|e: (String, JsonToBsonError)| e.0@) =~= prev_errors.map_values(|e: (String, JsonToBsonError)| e.0@).push(name@));
            },
        }
        i = i + 1;
        proof {
            if invalid_names(parameters@.take(i as int), arguments@).len() == 0 {
                assert(invalid_names(parameters@.take(i - 1), arguments@).len() == 0);
                assert(bson_entries_view(resolved@) =~= resolved_values(parameters@.take(i as int), arguments@));
            }
        }
    }
    assert(parameters@.take(i as int) =~= parameters@);
    if errors.len() > 0 {
        return Err(ArgumentError::Invalid(errors));
    }
    Ok(resolved)
}

proof fn lemma_missing_means_given(params: Seq<(String, Type)>, args: Seq<(String, Argument)>, i: int)
    requires
        0 <= i < params.len(),
        missing_names(params, args).len() == 0,
    ensures
        entry_names(args).contains(params[i].0@),
    decreases params.len(),
{
    if i < params.len() - 1 {
        assert(params.drop_last()[i] == params[i]);
        lemma_missing_means_given(params.drop_last(), args, i);
    }
}

/// What `indent::indent_all_by` makes of a text: each line that is not
/// empty, indented by `n` spaces.
pub uninterp spec fn indented_all_by(n: nat, text: Seq<char>) -> Seq<char>;

/// Relies on `indent::indent_all_by`, which prefixes every line that is not
/// empty with `n` spaces; a text of one line, without line breaks, just gets
/// the spaces in front.
#[verifier::external_body]
fn indent_all_by(n: usize, text: &str) -> (r: String)
    ensures
        r@ == indented_all_by(n as nat, text@),
        text@.len() > 0 && !text@.contains('\n') && !text@.contains('\r') ==> r@ == Seq::new(n as nat, |i: int| ' ')
            + text@,
{
    indent::indent_all_by(n, text)
}

/// The text of a conversion error.
pub open spec fn json_to_bson_error_text(e: JsonToBsonError) -> Seq<char> {
    match e {
        JsonToBsonError::TypeMismatch => "the value does not have the expected type"@,
        JsonToBsonError::MissingObjectField(name) => "missing field "@ + name@,
        JsonToBsonError::CannotParse(text) => "cannot parse "@ + text@,
    }
}

fn json_to_bson_error_message(e: &JsonToBsonError) -> (r: String)
    ensures
        r@ == json_to_bson_error_text(*e),
{
    match e {
        JsonToBsonError::TypeMismatch => String::from_str("the value does not have the expected type"),
        JsonToBsonError::MissingObjectField(name) => String::from_str("missing field ").concat(name.as_str()),
        JsonToBsonError::CannotParse(text) => String::from_str("cannot parse ").concat(text.as_str()),
    }
}

/// One entry of the report of invalid arguments: the name, then the error
/// indented below it.
pub open spec fn invalid_item(name: Seq<char>, e: JsonToBsonError) -> Seq<char> {
    "  "@ + name + ":\n"@ + indented_all_by(4, json_to_bson_error_text(e))
}

/// The report of invalid arguments, one entry per line group.
pub open spec fn invalid_items(errors: Seq<(String, JsonToBsonError)>) -> Seq<Seq<char>> {
    errors.map_values(|e: (String, JsonToBsonError)| invalid_item(e.0@, e.1))
}

fn format_errors(errors: &Vec<(String, JsonToBsonError)>) -> (r: String)
    ensures
        r@ == joined(invalid_items(errors@), "\n"@),
{
    let mut items: Vec<String> = Vec::new();
    let mut i: usize = 0;
    while i < errors.len()
        invariant
            i <= errors@.len(),
            items@.len() == i,
            forall|j: int| 0 <= j < i ==> (#[trigger] items@[j])@ == invalid_item(errors@[j].0@, errors@[j].1),
        decreases errors.len() - i,
    {
        let message = json_to_bson_error_message(&errors[i].1);
        let item = String::from_str("  ").concat(errors[i].0.as_str()).concat(":\n").concat(
            indent_all_by(4, message.as_str()).as_str(),
        );
        items.push(item);
        i = i + 1;
    }
    assert(string_views(items@) =~= invalid_items(errors@));
    join_names(&items, "\n")
}

/// The text of an argument error.
pub open spec fn argument_error_text(e: ArgumentError) -> Seq<char> {
    match e {
        ArgumentError::Excess(names) => "unknown variables or arguments: "@ + joined(string_views(names@), ", "@),
        ArgumentError::Invalid(errors) => "some variables or arguments are invalid:\n"@
            + joined(invalid_items(errors@), "\n"@),
        ArgumentError::Missing(names) => "missing variables or arguments: "@ + joined(string_views(names@), ", "@),
    }
}

impl ArgumentError {
    /// The text of this error.
    pub fn message(&self) -> (r: String)
        ensures
            r@ == argument_error_text(*self),
    {
        match self {
            ArgumentError::Excess(names) => {
                String::from_str("unknown variables or arguments: ").concat(join_names(names, ", ").as_str())
            },
            ArgumentError::Invalid(errors) => {
                String::from_str("some variables or arguments are invalid:\n").concat(format_errors(errors).as_str())
            },
            ArgumentError::Missing(names) => {
                String::from_str("missing variables or arguments: ").concat(join_names(names, ", ").as_str())
            },
        }
    }
}

} // verus!
