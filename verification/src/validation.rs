//! Validation of a query document against a schema: selections, fragments and literal
//! argument values.
use vstd::prelude::*;

use crate::assoc::{assoc_view, keys_distinct, lemma_assoc_dom, lemma_assoc_lookup, names_view, NameSet};
use crate::ast::{arguments_view, values_view, Argument, SpecArgument, SpecTypeRef, SpecValue, TypeRef, GqlValue};
use crate::error::{Error, Fallible};
use crate::order::{set_listing, sort_strings, sorted, str_le, strs_view};
use crate::ast::{
    selections_view, Definition, Field, FragmentSpread, InlineFragment, OperationDefinition, OperationType,
    QueryDocument, Selection, SelectionSet, SpecSelection,
};
use crate::query_ast::{
    cycle_message, find_fragment, first_named, fragment_count, fragment_cycle_error, fragment_named,
    lemma_sel_size_pos, lemma_sels_size_elem, lemma_stack_bound, operation_name_of, operations_of,
    sel_size, sels_size, stack_ok, stack_view,
};
use crate::schema_index::{
    fragment_applicable_result, is_composite_spec, field_of_spec, root_type_spec, type_missing_message,
    FieldInfo, OperationKind, SchemaIndex, SpecSchemaIndex, SpecFieldInfo, SpecInputValue, SpecTypeInfo, TypeInfo,
};
use crate::text::{cat3, join, join_spec, str_eq};
use crate::graphql_text::{query_reading, read_query};

verus! {

broadcast use vstd::std_specs::vec::group_vec_axioms;

/// The first failure among `rs`, in order; success when there is none.
pub open spec fn first_err(rs: Seq<Result<(), Seq<char>>>) -> Result<(), Seq<char>>
    decreases rs.len(),
{
    if rs.len() == 0 {
        Ok(())
    } else {
        match first_err(rs.drop_last()) {
            Err(m) => Err(m),
            Ok(_) => rs.last(),
        }
    }
}

/// A failure within a prefix is the failure of the whole.
pub proof fn lemma_first_err_prefix(rs: Seq<Result<(), Seq<char>>>, k: int)
    requires
        0 <= k <= rs.len(),
        first_err(rs.subrange(0, k)) is Err,
    ensures
        first_err(rs) == first_err(rs.subrange(0, k)),
    decreases rs.len() - k,
{
    if k == rs.len() {
        assert(rs.subrange(0, k) =~= rs);
    } else {
        assert(rs.subrange(0, k + 1).drop_last() =~= rs.subrange(0, k));
        lemma_first_err_prefix(rs, k + 1);
    }
}

/// How a literal value is named in messages.
pub open spec fn describe_spec(v: SpecValue) -> Seq<char> {
    match v {
        SpecValue::Variable(_) => "a variable"@,
        SpecValue::Int(_) => "an integer"@,
        SpecValue::Float(_) => "a float"@,
        SpecValue::Str(_) => "a string"@,
        SpecValue::Boolean(_) => "a boolean"@,
        SpecValue::Null => "null"@,
        SpecValue::Enum(_) => "an enum value"@,
        SpecValue::List(_) => "a list"@,
        SpecValue::Object(_) => "an object"@,
    }
}

/// "argument `a` on field `f` of type `p`".
pub open spec fn argument_site(arg: Seq<char>, field: Seq<char>, parent: Seq<char>) -> Seq<char> {
    "argument `"@ + arg + "` on field `"@ + field + "` of type `"@ + parent + "`"@
}

pub open spec fn mismatch_message(arg: Seq<char>, field: Seq<char>, parent: Seq<char>, expected: Seq<char>, v: SpecValue) -> Seq<char> {
    argument_site(arg, field, parent) + " expects "@ + expected + ", but got "@ + describe_spec(v)
}

pub open spec fn null_message(arg: Seq<char>, field: Seq<char>, parent: Seq<char>) -> Seq<char> {
    argument_site(arg, field, parent) + " does not accept null"@
}

pub open spec fn enum_member_message(
    arg: Seq<char>,
    field: Seq<char>,
    parent: Seq<char>,
    member: Seq<char>,
    named: Seq<char>,
    values: Set<Seq<char>>,
) -> Seq<char> {
    argument_site(arg, field, parent) + " is `"@ + member + "`, which is not a value of enum `"@ + named
        + "` (expected one of: "@ + join_spec(set_listing(values), ", "@) + ")"@
}

/// A literal of the built-in scalar `named` may be `v`; any literal fits a custom scalar.
pub open spec fn scalar_literal_fits(named: Seq<char>, v: SpecValue) -> bool {
    if named == "Int"@ {
        v is Int
    } else if named == "Float"@ {
        v is Int || v is Float
    } else if named == "String"@ {
        v is Str
    } else if named == "ID"@ {
        v is Str || v is Int
    } else if named == "Boolean"@ {
        v is Boolean
    } else {
        true
    }
}

/// Validation of a literal argument value against the argument's declared type. A variable
/// fits anywhere (its value is checked against its own declaration).
pub open spec fn arg_value_spec(
    types: Map<Seq<char>, SpecTypeInfo>,
    t: SpecTypeRef,
    v: SpecValue,
    arg: Seq<char>,
    field: Seq<char>,
    parent: Seq<char>,
) -> Result<(), Seq<char>>
    decreases v,
{
    match v {
        SpecValue::Variable(_) => Ok(()),
        SpecValue::Null => if t is NonNull {
            Err(null_message(arg, field, parent))
        } else {
            Ok(())
        },
        _ => match crate::ast::list_item_spec(t) {
            Some(item) => match v {
                SpecValue::List(items) => list_values_spec(types, item, items, arg, field, parent),
                _ => Err(mismatch_message(arg, field, parent, "a list"@, v)),
            },
            None => {
                let named = crate::ast::innermost_named_spec(crate::ast::unwrap_non_null_spec(t));
                if !types.contains_key(named) {
                    Ok(())
                } else {
                    match types[named] {
                        SpecTypeInfo::Enum { values } => match v {
                            SpecValue::Enum(member) => if values.contains(member) {
                                Ok(())
                            } else {
                                Err(enum_member_message(arg, field, parent, member, named, values))
                            },
                            _ => Err(mismatch_message(arg, field, parent, "a value of enum `"@ + named + "`"@, v)),
                        },
                        SpecTypeInfo::InputObject => match v {
                            SpecValue::Object(_) => Ok(()),
                            _ => Err(mismatch_message(arg, field, parent, "input object `"@ + named + "`"@, v)),
                        },
                        SpecTypeInfo::Scalar => if scalar_literal_fits(named, v) {
                            Ok(())
                        } else {
                            Err(mismatch_message(arg, field, parent, "a `"@ + named + "`"@, v))
                        },
                        _ => Ok(()),
                    }
                }
            },
        },
    }
}

/// Validation of each item of a list literal, in order; the first failure is the outcome.
pub open spec fn list_values_spec(
    types: Map<Seq<char>, SpecTypeInfo>,
    item: SpecTypeRef,
    items: Seq<SpecValue>,
    arg: Seq<char>,
    field: Seq<char>,
    parent: Seq<char>,
) -> Result<(), Seq<char>>
    decreases items,
{
    if items.len() == 0 {
        Ok(())
    } else {
        match list_values_spec(types, item, items.subrange(0, items.len() - 1), arg, field, parent) {
            Err(m) => Err(m),
            Ok(_) => arg_value_spec(types, item, items[items.len() - 1], arg, field, parent),
        }
    }
}

proof fn lemma_list_values_prefix(
    types: Map<Seq<char>, SpecTypeInfo>,
    item: SpecTypeRef,
    items: Seq<SpecValue>,
    arg: Seq<char>,
    field: Seq<char>,
    parent: Seq<char>,
    k: int,
)
    requires
        0 <= k <= items.len(),
        list_values_spec(types, item, items.subrange(0, k), arg, field, parent) is Err,
    ensures
        list_values_spec(types, item, items, arg, field, parent) == list_values_spec(types, item, items.subrange(0, k), arg, field, parent),
    decreases items.len() - k,
{
    if k == items.len() {
        assert(items.subrange(0, k) =~= items);
    } else {
        let next = items.subrange(0, k + 1);
        assert(next.subrange(0, next.len() - 1) =~= items.subrange(0, k));
        lemma_list_values_prefix(types, item, items, arg, field, parent, k + 1);
    }
}

/// How a literal value is named in messages.
pub fn describe_ast_value(value: &GqlValue) -> (r: &'static str)
    ensures
        r@ == describe_spec(value@),
{
    match value {
        GqlValue::Variable(_) => "a variable",
        GqlValue::Int(_) => "an integer",
        GqlValue::Float(_) => "a float",
        GqlValue::Str(_) => "a string",
        GqlValue::Boolean(_) => "a boolean",
        GqlValue::Null => "null",
        GqlValue::Enum(_) => "an enum value",
        GqlValue::List(_) => "a list",
        GqlValue::Object(_) => "an object",
    }
}

fn argument_site_text(arg: &str, field: &str, parent: &str) -> (r: String)
    ensures
        r@ == argument_site(arg@, field@, parent@),
{
    let mut s = cat3("argument `", arg, "` on field `");
    s.append(field);
    s.append("` of type `");
    s.append(parent);
    s.append("`");
    s
}

fn mismatch_error(arg: &str, field: &str, parent: &str, expected: &str, value: &GqlValue) -> (e: Error)
    ensures
        e@ == seq![mismatch_message(arg@, field@, parent@, expected@, value@)],
{
    let mut s = argument_site_text(arg, field, parent);
    s.append(" expects ");
    s.append(expected);
    s.append(", but got ");
    s.append(describe_ast_value(value));
    Error::msg(s)
}

/// Whether a literal of the built-in scalar `named` may be `value`.
fn scalar_literal_fits_exec(named: &str, value: &GqlValue) -> (r: bool)
    ensures
        r == scalar_literal_fits(named@, value@),
{
    if str_eq(named, "Int") {
        matches!(value, GqlValue::Int(_))
    } else if str_eq(named, "Float") {
        matches!(value, GqlValue::Int(_) | GqlValue::Float(_))
    } else if str_eq(named, "String") {
        matches!(value, GqlValue::Str(_))
    } else if str_eq(named, "ID") {
        matches!(value, GqlValue::Str(_) | GqlValue::Int(_))
    } else if str_eq(named, "Boolean") {
        matches!(value, GqlValue::Boolean(_))
    } else {
        true
    }
}

/// The members of an enum, sorted and joined with ", ".
pub fn enum_listing(members: &NameSet) -> (r: String)
    requires
        members.wf(),
    ensures
        r@ == join_spec(set_listing(members@), ", "@),
{
    listing_joined(members, ", ")
}

/// The members of a set of names in order, joined with `sep`.
pub fn listing_joined(members: &NameSet, sep: &str) -> (r: String)
    requires
        members.wf(),
    ensures
        r@ == join_spec(set_listing(members@), sep@),
{
    let mut copy: Vec<String> = Vec::new();
    let mut i: usize = 0;
    while i < members.names.len()
        invariant
            i <= members.names@.len(),
            copy@.len() == i,
            forall|j: int| 0 <= j < i ==> #[trigger] copy@[j]@ == members.names@[j]@,
        decreases members.names.len() - i,
    {
        copy.push(members.names[i].clone());
        i += 1;
    }
    proof {
        assert(strs_view(copy@) =~= names_view(members.names@));
    }
    let listed = sort_strings(copy);
    proof {
        crate::order::lemma_set_listing(names_view(members.names@), strs_view(listed@));
        assert(listed@.map_values(|s: String| s@) =~= strs_view(listed@));
    }
    join(&listed, sep)
}

/// Checks a literal argument value against the argument's declared type (see
/// `arg_value_spec`).
pub fn validate_argument_value(
    schema_index: &SchemaIndex,
    type_ref: &TypeRef,
    value: &GqlValue,
    arg_name: &str,
    field_name: &str,
    parent_type: &str,
) -> (r: Fallible<()>)
    requires
        schema_index.wf(),
    ensures
        match arg_value_spec(schema_index@.types, type_ref@, value@, arg_name@, field_name@, parent_type@) {
            Ok(_) => r is Ok,
            Err(m) => r matches Err(e) && e@ == seq![m],
        },
    decreases value@,
{
    match value {
        GqlValue::Variable(_) => {
            return Ok(());
        },
        GqlValue::Null => {
            if type_ref.is_non_null() {
                let mut s = argument_site_text(arg_name, field_name, parent_type);
                s.append(" does not accept null");
                return Err(Error::msg(s));
            }
            return Ok(());
        },
        _ => {},
    }
    match type_ref.as_list_item() {
        Some(item_type) => {
            match value {
                GqlValue::List(items) => {
                    let ghost vs = values_view(items@);
                    proof {
                        assert(value@ == SpecValue::List(vs));
                        assert(vs.subrange(0, 0) =~= Seq::<SpecValue>::empty());
                    }
                    let mut i: usize = 0;
                    while i < items.len()
                        invariant
                            i <= items@.len(),
                            schema_index.wf(),
                            vs == values_view(items@),
                            value@ == SpecValue::List(vs),
                            crate::ast::list_item_spec(type_ref@) == Some(item_type@),
                            list_values_spec(schema_index@.types, item_type@, vs.subrange(0, i as int), arg_name@, field_name@, parent_type@) is Ok,
                        decreases items.len() - i,
                    {
                        let ghost next = vs.subrange(0, i + 1);
                        proof {
                            assert(next.subrange(0, next.len() - 1) =~= vs.subrange(0, i as int));
                            assert(next[next.len() - 1] == items@[i as int]@);
                            assert(vs[i as int] == items@[i as int]@);
                            assert(decreases_to!(value@ => vs[i as int]));
                        }
                        let res = validate_argument_value(schema_index, item_type, &items[i], arg_name, field_name, parent_type);
                        proof {
                            assert(list_values_spec(schema_index@.types, item_type@, next, arg_name@, field_name@, parent_type@)
                                == arg_value_spec(schema_index@.types, item_type@, items@[i as int]@, arg_name@, field_name@, parent_type@));
                        }
                        match res {
                            Ok(_) => {
                                proof {
                                    assert(arg_value_spec(schema_index@.types, item_type@, items@[i as int]@, arg_name@, field_name@, parent_type@) is Ok);
                                    assert(list_values_spec(schema_index@.types, item_type@, next, arg_name@, field_name@, parent_type@) is Ok);
                                }
                            },
                            Err(e) => {
                                proof {
                                    lemma_list_values_prefix(schema_index@.types, item_type@, vs, arg_name@, field_name@, parent_type@, i + 1);
                                    assert(arg_value_spec(schema_index@.types, type_ref@, value@, arg_name@, field_name@, parent_type@)
                                        == list_values_spec(schema_index@.types, item_type@, vs, arg_name@, field_name@, parent_type@));
                                }
                                return Err(e);
                            },
                        }
                        i += 1;
                    }
                    proof {
                        assert(vs.subrange(0, items@.len() as int) =~= vs);
                    }
                    return Ok(());
                },
                _ => {
                    return Err(mismatch_error(arg_name, field_name, parent_type, "a list", value));
                },
            }
        },
        None => {},
    }
    let named = match type_ref.unwrap_non_null().innermost_named() {
        Some(n) => n,
        None => {
            return Ok(());
        },
    };
    match schema_index.type_info(named) {
        None => Ok(()),
        Some(TypeInfo::Enum(members)) => {
            match value {
                GqlValue::Enum(member) => {
                    if members.contains(member.as_str()) {
                        Ok(())
                    } else {
                        let mut s = argument_site_text(arg_name, field_name, parent_type);
                        s.append(" is `");
                        s.append(member.as_str());
                        s.append("`, which is not a value of enum `");
                        s.append(named);
                        s.append("` (expected one of: ");
                        let listing = enum_listing(members);
                        s.append(listing.as_str());
                        s.append(")");
                        Err(Error::msg(s))
                    }
                },
                _ => {
                    let expected = cat3("a value of enum `", named, "`");
                    Err(mismatch_error(arg_name, field_name, parent_type, expected.as_str(), value))
                },
            }
        },
        Some(TypeInfo::InputObject) => {
            match value {
                GqlValue::Object(_) => Ok(()),
                _ => {
                    let expected = cat3("input object `", named, "`");
                    Err(mismatch_error(arg_name, field_name, parent_type, expected.as_str(), value))
                },
            }
        },
        Some(TypeInfo::Scalar) => {
            if scalar_literal_fits_exec(named, value) {
                Ok(())
            } else {
                let expected = cat3("a `", named, "`");
                Err(mismatch_error(arg_name, field_name, parent_type, expected.as_str(), value))
            }
        },
        Some(_) => Ok(()),
    }
}


pub open spec fn undefined_argument_message(arg: Seq<char>, field: Seq<char>, parent: Seq<char>) -> Seq<char> {
    "argument `"@ + arg + "` is not defined on field `"@ + field + "` of type `"@ + parent + "`"@
}

pub open spec fn missing_argument_message(field: Seq<char>, parent: Seq<char>, arg: Seq<char>) -> Seq<char> {
    "field `"@ + field + "` on type `"@ + parent + "` is missing required argument `"@ + arg + "`"@
}

/// Validation of the arguments a field selection supplies, in order: each must be declared,
/// and its value must fit the declared type.
pub open spec fn supplied_args_spec(
    types: Map<Seq<char>, SpecTypeInfo>,
    fi: SpecFieldInfo,
    args: Seq<SpecArgument>,
    field: Seq<char>,
    parent: Seq<char>,
) -> Result<(), Seq<char>>
    decreases args.len(),
{
    if args.len() == 0 {
        Ok(())
    } else {
        match supplied_args_spec(types, fi, args.drop_last(), field, parent) {
            Err(m) => Err(m),
            Ok(_) => {
                let a = args.last();
                if fi.arguments.contains_key(a.name) {
                    arg_value_spec(types, fi.arguments[a.name].type_ref, a.value, a.name, field, parent)
                } else {
                    Err(undefined_argument_message(a.name, field, parent))
                }
            },
        }
    }
}

/// A required argument is non-null and has no default.
pub open spec fn required_spec(iv: SpecInputValue) -> bool {
    iv.type_ref is NonNull && !iv.has_default
}

/// Some supplied argument is named `name`.
pub open spec fn supplies(args: Seq<SpecArgument>, name: Seq<char>) -> bool {
    exists|i: int| 0 <= i < args.len() && args[i].name == name
}

/// The required arguments of a field that a selection leaves out.
pub open spec fn missing_required(fi: SpecFieldInfo, args: Seq<SpecArgument>) -> Set<Seq<char>> {
    Set::new(|n: Seq<char>| fi.arguments.contains_key(n) && required_spec(fi.arguments[n]) && !supplies(args, n))
}

/// The first name of a set in `String`'s order.
pub open spec fn least_name(s: Set<Seq<char>>) -> Seq<char> {
    choose|n: Seq<char>| s.contains(n) && forall|m: Seq<char>| s.contains(m) ==> str_le(n, m)
}

/// Validation of a field selection's arguments against the field's declaration: the supplied
/// ones first, then a required one left out (the first such name in `String`'s order).
pub open spec fn field_args_spec(
    types: Map<Seq<char>, SpecTypeInfo>,
    fi: SpecFieldInfo,
    args: Seq<SpecArgument>,
    field: Seq<char>,
    parent: Seq<char>,
) -> Result<(), Seq<char>> {
    match supplied_args_spec(types, fi, args, field, parent) {
        Err(m) => Err(m),
        Ok(_) => {
            let miss = missing_required(fi, args);
            if exists|n: Seq<char>| miss.contains(n) {
                Err(missing_argument_message(field, parent, least_name(miss)))
            } else {
                Ok(())
            }
        },
    }
}

/// Whether some argument of `args` is named `name`.
fn has_argument(args: &Vec<Argument>, name: &str) -> (r: bool)
    ensures
        r == supplies(arguments_view(args@), name@),
{
    let mut i: usize = 0;
    while i < args.len()
        invariant
            i <= args@.len(),
            forall|j: int| 0 <= j < i ==> args@[j].name@ != name@,
        decreases args.len() - i,
    {
        if str_eq(args[i].name.as_str(), name) {
            assert(arguments_view(args@)[i as int].name == name@);
            return true;
        }
        i += 1;
    }
    proof {
        if supplies(arguments_view(args@), name@) {
            let j = choose|j: int| 0 <= j < arguments_view(args@).len() && arguments_view(args@)[j].name == name@;
            assert(args@[j].name@ == name@);
        }
    }
    false
}

/// Checks the arguments of a field selection against the field's declaration (see
/// `field_args_spec`).
pub fn validate_field_arguments(
    schema_index: &SchemaIndex,
    field: &crate::ast::Field,
    field_info: &FieldInfo,
    parent_type: &str,
) -> (r: Fallible<()>)
    requires
        schema_index.wf(),
        field_info.wf(),
    ensures
        match field_args_spec(schema_index@.types, field_info@, arguments_view(field.arguments@), field.name@, parent_type@) {
            Ok(_) => r is Ok,
            Err(m) => r matches Err(e) && e@ == seq![m],
        },
{
    let ghost args = arguments_view(field.arguments@);
    let ghost types = schema_index@.types;
    let ghost fi = field_info@;
    let mut i: usize = 0;
    while i < field.arguments.len()
        invariant
            i <= field.arguments@.len(),
            schema_index.wf(),
            field_info.wf(),
            args == arguments_view(field.arguments@),
            types == schema_index@.types,
            fi == field_info@,
            supplied_args_spec(types, fi, args.subrange(0, i as int), field.name@, parent_type@) is Ok,
        decreases field.arguments.len() - i,
    {
        let ghost next = args.subrange(0, i + 1);
        proof {
            assert(next.drop_last() =~= args.subrange(0, i as int));
            assert(next.last() == field.arguments@[i as int]@);
        }
        let argument = &field.arguments[i];
        let arg_name = argument.name.as_str();
        let declared = match field_info.argument(arg_name) {
            Some(d) => d,
            None => {
                let mut s = cat3("argument `", arg_name, "` is not defined on field `");
                s.append(field.name.as_str());
                s.append("` of type `");
                s.append(parent_type);
                s.append("`");
                proof {
                    lemma_supplied_prefix(types, fi, args, field.name@, parent_type@, i + 1);
                }
                return Err(Error::msg(s));
            },
        };
        let res = validate_argument_value(schema_index, &declared.type_ref, &argument.value, arg_name, field.name.as_str(), parent_type);
        match res {
            Ok(_) => {},
            Err(e) => {
                proof {
                    lemma_supplied_prefix(types, fi, args, field.name@, parent_type@, i + 1);
                }
                return Err(e);
            },
        }
        i += 1;
    }
    proof {
        assert(args.subrange(0, field.arguments@.len() as int) =~= args);
    }
    let ghost fa = field_info.arguments@;
    let ghost miss = missing_required(fi, args);
    let mut best: Option<usize> = None;
    let mut j: usize = 0;
    while j < field_info.arguments.len()
        invariant
            j <= fa.len(),
            fa == field_info.arguments@,
            field_info.wf(),
            fi == field_info@,
            args == arguments_view(field.arguments@),
            miss == missing_required(fi, args),
            best is None ==> forall|k: int| 0 <= k < j ==> !miss.contains(#[trigger] fa[k].0@),
            best matches Some(b) ==> b < j && miss.contains(fa[b as int].0@) && forall|k: int|
                0 <= k < j && miss.contains(#[trigger] fa[k].0@) ==> str_le(fa[b as int].0@, fa[k].0@),
        decreases fa.len() - j,
    {
        proof {
            lemma_assoc_lookup(fa, j as int);
        }
        let name = field_info.arguments[j].0.as_str();
        if field_info.arguments[j].1.is_required() && !has_argument(&field.arguments, name) {
            proof {
                assert(miss.contains(fa[j as int].0@));
            }
            match best {
                None => {
                    best = Some(j);
                },
                Some(b) => {
                    if !crate::order::le(field_info.arguments[b].0.as_str(), name) {
                        proof {
                            crate::order::lemma_str_le_total(fa[b as int].0@, name@);
                            assert forall|k: int| 0 <= k < j + 1 && miss.contains(#[trigger] fa[k].0@) implies str_le(name@, fa[k].0@) by {
                                if k < j {
                                    crate::order::lemma_str_le_trans(name@, fa[b as int].0@, fa[k].0@);
                                } else {
                                    crate::order::lemma_str_le_refl(name@);
                                }
                            }
                        }
                        best = Some(j);
                    }
                },
            }
        } else {
            proof {
                assert(!miss.contains(fa[j as int].0@));
            }
        }
        proof {
            crate::order::lemma_str_le_refl(fa[j as int].0@);
        }
        j += 1;
    }
    match best {
        None => {
            proof {
                assert forall|n: Seq<char>| !miss.contains(n) by {
                    if miss.contains(n) {
                        lemma_assoc_dom(fa, n);
                        let k = choose|k: int| 0 <= k < fa.len() && fa[k].0@ == n;
                        assert(!miss.contains(fa[k].0@));
                    }
                }
            }
            Ok(())
        },
        Some(b) => {
            let name = field_info.arguments[b].0.as_str();
            proof {
                let bn = fa[b as int].0@;
                assert forall|m: Seq<char>| miss.contains(m) implies str_le(bn, m) by {
                    lemma_assoc_dom(fa, m);
                    let k = choose|k: int| 0 <= k < fa.len() && fa[k].0@ == m;
                    assert(miss.contains(fa[k].0@));
                }
                let c = least_name(miss);
                assert(miss.contains(c) && forall|m: Seq<char>| miss.contains(m) ==> str_le(c, m));
                crate::order::lemma_str_le_antisym(c, bn);
            }
            let mut s = cat3("field `", field.name.as_str(), "` on type `");
            s.append(parent_type);
            s.append("` is missing required argument `");
            s.append(name);
            s.append("`");
            Err(Error::msg(s))
        },
    }
}

proof fn lemma_supplied_prefix(
    types: Map<Seq<char>, SpecTypeInfo>,
    fi: SpecFieldInfo,
    args: Seq<SpecArgument>,
    field: Seq<char>,
    parent: Seq<char>,
    k: int,
)
    requires
        0 <= k <= args.len(),
        supplied_args_spec(types, fi, args.subrange(0, k), field, parent) is Err,
    ensures
        supplied_args_spec(types, fi, args, field, parent) == supplied_args_spec(types, fi, args.subrange(0, k), field, parent),
    decreases args.len() - k,
{
    if k == args.len() {
        assert(args.subrange(0, k) =~= args);
    } else {
        assert(args.subrange(0, k + 1).drop_last() =~= args.subrange(0, k));
        lemma_supplied_prefix(types, fi, args, field, parent, k + 1);
    }
}

/// Validation of the arguments of an introspection `__type` selection: only `name`, and it is
/// required. `Ok(true)` when a `name` was seen.
pub open spec fn introspection_scan(args: Seq<SpecArgument>) -> Result<bool, Seq<char>>
    decreases args.len(),
{
    if args.len() == 0 {
        Ok(false)
    } else {
        match introspection_scan(args.drop_last()) {
            Err(m) => Err(m),
            Ok(_) => if args.last().name == "name"@ {
                Ok(true)
            } else {
                Err("argument `"@ + args.last().name + "` is not defined on field `__type` of type `Query`"@)
            },
        }
    }
}

pub open spec fn introspection_args_spec(args: Seq<SpecArgument>) -> Result<(), Seq<char>> {
    match introspection_scan(args) {
        Err(m) => Err(m),
        Ok(seen) => if seen {
            Ok(())
        } else {
            Err("field `__type` on type `Query` is missing required argument `name`"@)
        },
    }
}

/// Checks the arguments of an introspection `__type` selection (see `introspection_args_spec`).
pub fn validate_introspection_type_arguments(field: &crate::ast::Field) -> (r: Fallible<()>)
    ensures
        match introspection_args_spec(arguments_view(field.arguments@)) {
            Ok(_) => r is Ok,
            Err(m) => r matches Err(e) && e@ == seq![m],
        },
{
    let ghost args = arguments_view(field.arguments@);
    let mut has_name = false;
    let mut i: usize = 0;
    while i < field.arguments.len()
        invariant
            i <= field.arguments@.len(),
            args == arguments_view(field.arguments@),
            introspection_scan(args.subrange(0, i as int)) == Ok::<bool, Seq<char>>(has_name),
        decreases field.arguments.len() - i,
    {
        proof {
            assert(args.subrange(0, i + 1).drop_last() =~= args.subrange(0, i as int));
            assert(args.subrange(0, i + 1).last() == field.arguments@[i as int]@);
        }
        let name = field.arguments[i].name.as_str();
        if str_eq(name, "name") {
            has_name = true;
        } else {
            proof {
                lemma_introspection_prefix(args, i + 1);
            }
            return Err(Error::msg(cat3("argument `", name, "` is not defined on field `__type` of type `Query`")));
        }
        i += 1;
    }
    proof {
        assert(args.subrange(0, field.arguments@.len() as int) =~= args);
    }
    if !has_name {
        return Err(Error::msg(String::from_str("field `__type` on type `Query` is missing required argument `name`")));
    }
    Ok(())
}

proof fn lemma_introspection_prefix(args: Seq<SpecArgument>, k: int)
    requires
        0 <= k <= args.len(),
        introspection_scan(args.subrange(0, k)) is Err,
    ensures
        introspection_scan(args) == introspection_scan(args.subrange(0, k)),
    decreases args.len() - k,
{
    if k == args.len() {
        assert(args.subrange(0, k) =~= args);
    } else {
        assert(args.subrange(0, k + 1).drop_last() =~= args.subrange(0, k));
        lemma_introspection_prefix(args, k + 1);
    }
}


pub open spec fn not_composite_message(parent: Seq<char>) -> Seq<char> {
    "type `"@ + parent + "` is not a composite type and cannot have a selection set"@
}

pub open spec fn unknown_field_message(parent: Seq<char>, field: Seq<char>) -> Seq<char> {
    "field `"@ + field + "` does not exist on type `"@ + parent + "`"@
}

pub open spec fn undefined_fragment_message(name: Seq<char>) -> Seq<char> {
    "fragment `"@ + name + "` is not defined"@
}

/// Validation of a selection set whose items are selected on `parent`. `stack` holds the
/// fragments being expanded, outermost first.
pub open spec fn vset_spec(
    idx: SpecSchemaIndex,
    items: Seq<SpecSelection>,
    parent: Seq<char>,
    defs: Seq<Definition>,
    stack: Seq<Seq<char>>,
) -> Result<(), Seq<char>>
    decreases fragment_count(defs) - stack.len(), sels_size(items), 2nat,
    when stack_ok(defs, stack)
{
    if items.len() == 0 {
        Ok(())
    } else if !idx.types.contains_key(parent) {
        Err(type_missing_message(parent))
    } else if !is_composite_spec(idx, parent) {
        Err(not_composite_message(parent))
    } else {
        vitems_spec(idx, items, parent, defs, stack)
    }
}

/// Validation of each item of a selection set, in order; the first failure is the outcome.
pub open spec fn vitems_spec(
    idx: SpecSchemaIndex,
    items: Seq<SpecSelection>,
    parent: Seq<char>,
    defs: Seq<Definition>,
    stack: Seq<Seq<char>>,
) -> Result<(), Seq<char>>
    decreases fragment_count(defs) - stack.len(), sels_size(items), 1nat,
    when stack_ok(defs, stack)
{
    if items.len() == 0 {
        Ok(())
    } else {
        proof {
            lemma_sel_size_pos(items.last());
        }
        match vitems_spec(idx, items.drop_last(), parent, defs, stack) {
            Err(m) => Err(m),
            Ok(_) => vone_spec(idx, items.last(), parent, defs, stack),
        }
    }
}

/// Validation of one selection made on `parent`.
pub open spec fn vone_spec(
    idx: SpecSchemaIndex,
    s: SpecSelection,
    parent: Seq<char>,
    defs: Seq<Definition>,
    stack: Seq<Seq<char>>,
) -> Result<(), Seq<char>>
    decreases fragment_count(defs) - stack.len(), sel_size(s), 0nat,
    when stack_ok(defs, stack)
{
    match s {
        SpecSelection::Field { name, arguments, selection_set, .. } => if name == "__typename"@ {
            if !is_composite_spec(idx, parent) {
                Err("`__typename` cannot be selected on non-composite type `"@ + parent + "`"@)
            } else if selection_set.len() > 0 {
                Err("`__typename` does not support a selection set"@)
            } else {
                Ok(())
            }
        } else if idx.query_root == parent && name == "__schema"@ {
            if selection_set.len() == 0 {
                Err("`__schema` requires a selection set"@)
            } else {
                vset_spec(idx, selection_set, "__Schema"@, defs, stack)
            }
        } else if idx.query_root == parent && name == "__type"@ {
            if selection_set.len() == 0 {
                Err("`__type` requires a selection set"@)
            } else {
                match introspection_args_spec(arguments) {
                    Err(m) => Err(m),
                    Ok(_) => vset_spec(idx, selection_set, "__Type"@, defs, stack),
                }
            }
        } else if idx.types.contains_key(parent) && idx.types[parent] is Union {
            Err("fields cannot be selected directly on union type `"@ + parent + "`; use fragments instead"@)
        } else {
            match field_of_spec(idx.types[parent], name) {
                None => Err(unknown_field_message(parent, name)),
                Some(fi) => match field_args_spec(idx.types, fi, arguments, name, parent) {
                    Err(m) => Err(m),
                    Ok(_) => {
                        let named = crate::ast::innermost_named_spec(fi.return_type);
                        if is_composite_spec(idx, named) {
                            if selection_set.len() == 0 {
                                Err("field `"@ + name + "` on type `"@ + parent + "` requires a selection set"@)
                            } else {
                                vset_spec(idx, selection_set, named, defs, stack)
                            }
                        } else if selection_set.len() > 0 {
                            Err("field `"@ + name + "` on type `"@ + parent + "` does not support a selection set"@)
                        } else {
                            Ok(())
                        }
                    },
                },
            }
        },
        SpecSelection::FragmentSpread { fragment_name, .. } => match fragment_named(defs, fragment_name) {
            None => Err(undefined_fragment_message(fragment_name)),
            Some(f) => {
                let tc = f.type_condition@;
                if !idx.types.contains_key(tc) {
                    Err(type_missing_message(tc))
                } else {
                    match fragment_applicable_result(idx, parent, tc) {
                        Err(m) => Err(m),
                        Ok(_) => if stack.contains(fragment_name) {
                            Err(cycle_message(stack.subrange(stack.index_of(fragment_name), stack.len() as int), fragment_name))
                        } else {
                            proof {
                                lemma_stack_bound(defs, stack, fragment_name);
                            }
                            vset_spec(idx, f.selection_set@, tc, defs, stack.push(fragment_name))
                        },
                    }
                }
            },
        },
        SpecSelection::InlineFragment { type_condition, selection_set, .. } => match type_condition {
            Some(tc) => if !idx.types.contains_key(tc) {
                Err(type_missing_message(tc))
            } else {
                match fragment_applicable_result(idx, parent, tc) {
                    Err(m) => Err(m),
                    Ok(_) => vset_spec(idx, selection_set, tc, defs, stack),
                }
            },
            None => if !idx.types.contains_key(parent) {
                Err(type_missing_message(parent))
            } else {
                vset_spec(idx, selection_set, parent, defs, stack)
            },
        },
    }
}

proof fn lemma_vitems_prefix(
    idx: SpecSchemaIndex,
    items: Seq<SpecSelection>,
    parent: Seq<char>,
    defs: Seq<Definition>,
    stack: Seq<Seq<char>>,
    k: int,
)
    requires
        stack_ok(defs, stack),
        0 <= k <= items.len(),
        vitems_spec(idx, items.subrange(0, k), parent, defs, stack) is Err,
    ensures
        vitems_spec(idx, items, parent, defs, stack) == vitems_spec(idx, items.subrange(0, k), parent, defs, stack),
    decreases items.len() - k,
{
    if k == items.len() {
        assert(items.subrange(0, k) =~= items);
    } else {
        assert(items.subrange(0, k + 1).drop_last() =~= items.subrange(0, k));
        lemma_vitems_prefix(idx, items, parent, defs, stack, k + 1);
    }
}

/// "field `field` does not exist on type `parent`".
pub fn unknown_field_error(parent: &str, field: &str) -> (e: Error)
    ensures
        e@ == seq![unknown_field_message(parent@, field@)],
{
    let mut s = cat3("field `", field, "` does not exist on type `");
    s.append(parent);
    s.append("`");
    Error::msg(s)
}

/// Fails with the cycle diagnostic when `next` is already being expanded.
pub fn detect_fragment_cycle(stack: &Vec<String>, next: &str) -> (r: Fallible<()>)
    requires
        stack_view(stack@).no_duplicates(),
    ensures
        r is Ok <==> !stack_view(stack@).contains(next@),
        r matches Err(e) ==> e@ == seq![cycle_message(
            stack_view(stack@).subrange(stack_view(stack@).index_of(next@), stack@.len() as int),
            next@,
        )],
{
    match crate::query_ast::stack_position(stack, next) {
        Some(pos) => Err(fragment_cycle_error(stack, pos, next)),
        None => Ok(()),
    }
}

/// Checks a selection set made on `parent_type` (see `vset_spec`).
pub fn validate_selection_set(
    schema_index: &SchemaIndex,
    selection_set: &SelectionSet,
    parent_type: &str,
    doc: &QueryDocument,
    stack: &mut Vec<String>,
) -> (r: Fallible<()>)
    requires
        schema_index.wf(),
        stack_ok(doc.definitions@, stack_view(old(stack)@)),
    ensures
        final(stack)@ == old(stack)@,
        match vset_spec(schema_index@, selection_set@, parent_type@, doc.definitions@, stack_view(old(stack)@)) {
            Ok(_) => r is Ok,
            Err(m) => r matches Err(e) && e@ == seq![m],
        },
    decreases fragment_count(doc.definitions@) - stack@.len(), sels_size(selection_set@), 2nat,
{
    let ghost defs = doc.definitions@;
    let ghost st = stack_view(stack@);
    let ghost all = selection_set@;
    if selection_set.items.len() == 0 {
        return Ok(());
    }
    let parent_info = match schema_index.type_info(parent_type) {
        Some(info) => info,
        None => {
            return Err(Error::msg(cat3("type `", parent_type, "` not found in schema")));
        },
    };
    if !schema_index.is_composite_type(parent_type) {
        return Err(Error::msg(cat3("type `", parent_type, "` is not a composite type and cannot have a selection set")));
    }
    let mut i: usize = 0;
    assert(all.subrange(0, 0) =~= Seq::<SpecSelection>::empty());
    while i < selection_set.items.len()
        invariant
            i <= selection_set.items@.len(),
            schema_index.wf(),
            defs == doc.definitions@,
            all == selection_set@,
            all == selections_view(selection_set.items@),
            stack@ == old(stack)@,
            st == stack_view(stack@),
            stack_ok(defs, st),
            schema_index@.types.contains_key(parent_type@),
            is_composite_spec(schema_index@, parent_type@),
            all.len() > 0,
            parent_info@ == schema_index@.types[parent_type@],
            parent_info.wf(),
            vitems_spec(schema_index@, all.subrange(0, i as int), parent_type@, defs, st) is Ok,
        decreases selection_set.items.len() - i,
    {
        proof {
            assert(all.subrange(0, i + 1).drop_last() =~= all.subrange(0, i as int));
            assert(all.subrange(0, i + 1).last() == all[i as int]);
            assert(all[i as int] == selection_set.items@[i as int]@);
            lemma_sels_size_elem(all, i as int);
        }
        let res = match &selection_set.items[i] {
            Selection::Field(field) => validate_field_selection(schema_index, parent_type, parent_info, field, doc, stack),
            Selection::FragmentSpread(spread) => validate_fragment_spread(schema_index, parent_type, spread, doc, stack),
            Selection::InlineFragment(fragment) => validate_inline_fragment(schema_index, parent_type, fragment, doc, stack),
        };
        match res {
            Ok(_) => {},
            Err(e) => {
                proof {
                    lemma_vitems_prefix(schema_index@, all, parent_type@, defs, st, i + 1);
                }
                return Err(e);
            },
        }
        i += 1;
    }
    proof {
        assert(all.subrange(0, selection_set.items@.len() as int) =~= all);
    }
    Ok(())
}

/// Checks a field selected on `parent_type` (see the field case of `vone_spec`).
pub fn validate_field_selection(
    schema_index: &SchemaIndex,
    parent_type: &str,
    parent_info: &TypeInfo,
    field: &Field,
    doc: &QueryDocument,
    stack: &mut Vec<String>,
) -> (r: Fallible<()>)
    requires
        schema_index.wf(),
        stack_ok(doc.definitions@, stack_view(old(stack)@)),
        schema_index@.types.contains_key(parent_type@),
        parent_info@ == schema_index@.types[parent_type@],
        parent_info.wf(),
    ensures
        final(stack)@ == old(stack)@,
        match vone_spec(schema_index@, Selection::Field(*field)@, parent_type@, doc.definitions@, stack_view(old(stack)@)) {
            Ok(_) => r is Ok,
            Err(m) => r matches Err(e) && e@ == seq![m],
        },
    decreases fragment_count(doc.definitions@) - stack@.len(), sel_size(Selection::Field(*field)@), 0nat,
{
    let name = field.name.as_str();
    let has_subselection = field.selection_set.items.len() > 0;
    proof {
        assert(field.selection_set@.len() == field.selection_set.items@.len());
        assert(sels_size(field.selection_set@) < sel_size(Selection::Field(*field)@));
    }
    if str_eq(name, "__typename") {
        if !schema_index.is_composite_type(parent_type) {
            return Err(Error::msg(cat3("`__typename` cannot be selected on non-composite type `", parent_type, "`")));
        }
        if has_subselection {
            return Err(Error::msg(String::from_str("`__typename` does not support a selection set")));
        }
        return Ok(());
    }
    if schema_index.is_query_root(parent_type) {
        if str_eq(name, "__schema") {
            if !has_subselection {
                return Err(Error::msg(String::from_str("`__schema` requires a selection set")));
            }
            return validate_selection_set(schema_index, &field.selection_set, "__Schema", doc, stack);
        }
        if str_eq(name, "__type") {
            if !has_subselection {
                return Err(Error::msg(String::from_str("`__type` requires a selection set")));
            }
            validate_introspection_type_arguments(field)?;
            return validate_selection_set(schema_index, &field.selection_set, "__Type", doc, stack);
        }
    }
    if schema_index.is_union_type(parent_type) {
        return Err(Error::msg(cat3("fields cannot be selected directly on union type `", parent_type, "`; use fragments instead")));
    }
    let field_info = match schema_index.field(parent_info, name) {
        Some(f) => f,
        None => {
            return Err(unknown_field_error(parent_type, name));
        },
    };
    validate_field_arguments(schema_index, field, field_info, parent_type)?;
    match field_info.composite_type(schema_index) {
        Some(next_type) => {
            if !has_subselection {
                let mut s = cat3("field `", name, "` on type `");
                s.append(parent_type);
                s.append("` requires a selection set");
                return Err(Error::msg(s));
            }
            validate_selection_set(schema_index, &field.selection_set, next_type, doc, stack)
        },
        None => {
            if has_subselection {
                let mut s = cat3("field `", name, "` on type `");
                s.append(parent_type);
                s.append("` does not support a selection set");
                return Err(Error::msg(s));
            }
            Ok(())
        },
    }
}

/// Checks a fragment spread made on `parent_type` (see the spread case of `vone_spec`).
pub fn validate_fragment_spread(
    schema_index: &SchemaIndex,
    parent_type: &str,
    spread: &FragmentSpread,
    doc: &QueryDocument,
    stack: &mut Vec<String>,
) -> (r: Fallible<()>)
    requires
        schema_index.wf(),
        stack_ok(doc.definitions@, stack_view(old(stack)@)),
    ensures
        final(stack)@ == old(stack)@,
        match vone_spec(schema_index@, Selection::FragmentSpread(*spread)@, parent_type@, doc.definitions@, stack_view(old(stack)@)) {
            Ok(_) => r is Ok,
            Err(m) => r matches Err(e) && e@ == seq![m],
        },
    decreases fragment_count(doc.definitions@) - stack@.len(), sel_size(Selection::FragmentSpread(*spread)@), 0nat,
{
    let name = spread.fragment_name.as_str();
    let fragment = match find_fragment(doc, name) {
        Some(f) => f,
        None => {
            return Err(Error::msg(cat3("fragment `", name, "` is not defined")));
        },
    };
    let condition_type = fragment.type_condition.as_str();
    schema_index.ensure_type_exists(condition_type)?;
    schema_index.ensure_fragment_applicable(parent_type, condition_type)?;
    detect_fragment_cycle(stack, name)?;
    proof {
        lemma_stack_bound(doc.definitions@, stack_view(stack@), name@);
    }
    let ghost before = stack@;
    stack.push(spread.fragment_name.clone());
    proof {
        assert(stack_view(stack@) =~= stack_view(before).push(name@));
    }
    let result = validate_selection_set(schema_index, &fragment.selection_set, condition_type, doc, stack);
    stack.pop();
    proof {
        assert(stack@ =~= before);
    }
    result
}

/// Checks an inline fragment made on `parent_type` (see the inline case of `vone_spec`).
pub fn validate_inline_fragment(
    schema_index: &SchemaIndex,
    parent_type: &str,
    fragment: &InlineFragment,
    doc: &QueryDocument,
    stack: &mut Vec<String>,
) -> (r: Fallible<()>)
    requires
        schema_index.wf(),
        stack_ok(doc.definitions@, stack_view(old(stack)@)),
    ensures
        final(stack)@ == old(stack)@,
        match vone_spec(schema_index@, Selection::InlineFragment(*fragment)@, parent_type@, doc.definitions@, stack_view(old(stack)@)) {
            Ok(_) => r is Ok,
            Err(m) => r matches Err(e) && e@ == seq![m],
        },
    decreases fragment_count(doc.definitions@) - stack@.len(), sel_size(Selection::InlineFragment(*fragment)@), 0nat,
{
    proof {
        assert(fragment.selection_set@.len() == fragment.selection_set.items@.len());
        assert(sels_size(fragment.selection_set@) < sel_size(Selection::InlineFragment(*fragment)@));
    }
    let target_type: &str = match &fragment.type_condition {
        Some(name) => {
            let condition_type = name.as_str();
            schema_index.ensure_type_exists(condition_type)?;
            schema_index.ensure_fragment_applicable(parent_type, condition_type)?;
            condition_type
        },
        None => {
            schema_index.ensure_type_exists(parent_type)?;
            parent_type
        },
    };
    validate_selection_set(schema_index, &fragment.selection_set, target_type, doc, stack)
}


/// The kind of an operation; a bare selection set is a query.
pub open spec fn operation_kind_spec(t: OperationType) -> OperationKind {
    match t {
        OperationType::Mutation => OperationKind::Mutation,
        OperationType::Subscription => OperationKind::Subscription,
        OperationType::Query | OperationType::Shorthand => OperationKind::Query,
    }
}

/// How an operation kind is written in messages.
pub open spec fn kind_label(k: OperationKind) -> Seq<char> {
    match k {
        OperationKind::Query => "Query"@,
        OperationKind::Mutation => "Mutation"@,
        OperationKind::Subscription => "Subscription"@,
    }
}

/// The operations a validation covers: the one named `name`, or the only one.
pub open spec fn select_operations_spec(defs: Seq<Definition>, name: Option<Seq<char>>) -> Result<OperationDefinition, Seq<char>> {
    let ops = operations_of(defs);
    if ops.len() == 0 {
        Err("graphql query_document must define at least one operation"@)
    } else {
        match name {
            Some(n) => match first_named(ops, n) {
                Some(op) => Ok(op),
                None => Err("operation `"@ + n + "` not found in query_document"@),
            },
            None => if ops.len() > 1 {
                Err("operation_name is required when query_document defines multiple operations"@)
            } else {
                Ok(ops[0])
            },
        }
    }
}

/// Validation of one operation: its root type must exist, then its selection set is checked
/// on it.
pub open spec fn validate_operation_spec(idx: SpecSchemaIndex, op: OperationDefinition, defs: Seq<Definition>) -> Result<(), Seq<char>> {
    let kind = operation_kind_spec(op.operation_type);
    match root_type_spec(idx, kind) {
        None => Err("no root type found for "@ + kind_label(kind)),
        Some(root) => if !idx.types.contains_key(root) {
            Err(type_missing_message(root))
        } else {
            vset_spec(idx, op.selection_set@, root, defs, Seq::empty())
        },
    }
}

/// Validation of a query document against a schema.
pub open spec fn validate_document_spec(idx: SpecSchemaIndex, defs: Seq<Definition>, name: Option<Seq<char>>) -> Result<(), Seq<char>> {
    match select_operations_spec(defs, name) {
        Err(m) => Err(m),
        Ok(op) => validate_operation_spec(idx, op, defs),
    }
}

pub fn operation_kind(op: &OperationDefinition) -> (r: OperationKind)
    ensures
        r == operation_kind_spec(op.operation_type),
{
    match op.operation_type {
        OperationType::Mutation => OperationKind::Mutation,
        OperationType::Subscription => OperationKind::Subscription,
        OperationType::Query | OperationType::Shorthand => OperationKind::Query,
    }
}

/// The operations to validate (see `select_operations_spec`): always exactly one.
pub fn select_operations<'a>(doc: &'a QueryDocument, operation_name: Option<&str>) -> (r: Fallible<Vec<&'a OperationDefinition>>)
    ensures
        match select_operations_spec(doc.definitions@, match operation_name { Some(n) => Some(n@), None => None }) {
            Ok(op) => r matches Ok(v) && v@.len() == 1 && *v@[0] == op,
            Err(m) => r matches Err(e) && e@ == seq![m],
        },
{
    let operations = crate::query_ast::collect_operations(doc);
    if operations.len() == 0 {
        return Err(Error::msg(String::from_str("graphql query_document must define at least one operation")));
    }
    match operation_name {
        Some(name) => {
            let mut i: usize = 0;
            let ghost ops = operations_of(doc.definitions@);
            assert(ops.subrange(0, ops.len() as int) =~= ops);
            while i < operations.len()
                invariant
                    i <= operations@.len(),
                    operation_name == Some(name),
                    ops.len() > 0,
                    ops == operations_of(doc.definitions@),
                    operations@.len() == ops.len(),
                    forall|k: int| 0 <= k < operations@.len() ==> *operations@[k] == ops[k],
                    first_named(ops, name@) == first_named(ops.subrange(i as int, ops.len() as int), name@),
                decreases operations.len() - i,
            {
                let ghost rest = ops.subrange(i as int, ops.len() as int);
                proof {
                    assert(rest[0] == ops[i as int]);
                    assert(rest.drop_first() =~= ops.subrange(i + 1, ops.len() as int));
                }
                let op = operations[i];
                match operation_name_of(op) {
                    Some(n) => {
                        if str_eq(n, name) {
                            let mut v: Vec<&OperationDefinition> = Vec::new();
                            v.push(op);
                            return Ok(v);
                        }
                    },
                    None => {},
                }
                i += 1;
            }
            Err(Error::msg(cat3("operation `", name, "` not found in query_document")))
        },
        None => {
            if operations.len() > 1 {
                return Err(Error::msg(String::from_str("operation_name is required when query_document defines multiple operations")));
            }
            Ok(operations)
        },
    }
}

/// Checks one operation against the schema (see `validate_operation_spec`).
pub fn validate_operation(schema_index: &SchemaIndex, operation: &OperationDefinition, doc: &QueryDocument) -> (r: Fallible<()>)
    requires
        schema_index.wf(),
    ensures
        match validate_operation_spec(schema_index@, *operation, doc.definitions@) {
            Ok(_) => r is Ok,
            Err(m) => r matches Err(e) && e@ == seq![m],
        },
{
    let kind = operation_kind(operation);
    let root = match schema_index.root_type(kind) {
        Some(r) => r,
        None => {
            let label = match kind {
                OperationKind::Query => "Query",
                OperationKind::Mutation => "Mutation",
                OperationKind::Subscription => "Subscription",
            };
            return Err(Error::msg(crate::text::cat2("no root type found for ", label)));
        },
    };
    schema_index.ensure_type_exists(root)?;
    let mut stack: Vec<String> = Vec::new();
    proof {
        assert(stack_view(stack@) =~= Seq::<Seq<char>>::empty());
    }
    validate_selection_set(schema_index, &operation.selection_set, root, doc, &mut stack)
}

/// Checks a query document against a schema: the selected operation's selections, fragment
/// spreads and literal arguments (see `validate_document_spec`).
pub fn validate_document(schema_index: &SchemaIndex, doc: &QueryDocument, operation_name: Option<&str>) -> (r: Fallible<()>)
    requires
        schema_index.wf(),
    ensures
        match validate_document_spec(schema_index@, doc.definitions@, match operation_name { Some(n) => Some(n@), None => None }) {
            Ok(_) => r is Ok,
            Err(m) => r matches Err(e) && e@ == seq![m],
        },
{
    let operations = select_operations(doc, operation_name)?;
    let ghost name_view = match operation_name { Some(n) => Some(n@), None => None };
    let mut i: usize = 0;
    while i < operations.len()
        invariant
            schema_index.wf(),
            i <= operations@.len(),
            operations@.len() == 1,
            name_view == match operation_name { Some(n) => Some(n@), None => None },
            select_operations_spec(doc.definitions@, name_view) == Ok::<OperationDefinition, Seq<char>>(*operations@[0]),
            i == 0 || validate_operation_spec(schema_index@, *operations@[0], doc.definitions@) is Ok,
        decreases operations.len() - i,
    {
        validate_operation(schema_index, operations[i], doc)?;
        i += 1;
    }
    Ok(())
}


/// Validation of a query text against a schema: the text read as a GraphQL document (its
/// parser's message under "failed to parse GraphQL query document" when it is not one), then
/// the document checked (see `validate_document_spec`).
pub open spec fn validate_query_text_spec(idx: SpecSchemaIndex, query: Seq<char>, name: Option<Seq<char>>) -> Result<(), Seq<Seq<char>>> {
    match query_reading(query) {
        Err(m) => Err(seq!["failed to parse GraphQL query document"@, m]),
        Ok(doc) => match validate_document_spec(idx, doc.definitions@, name) {
            Ok(_) => Ok(()),
            Err(m) => Err(seq![m]),
        },
    }
}

/// Checks a query text against a schema (see `validate_query_text_spec`).
pub fn validate_query_document(schema_index: &SchemaIndex, query_document: &str, operation_name: Option<&str>) -> (r: Fallible<()>)
    requires
        schema_index.wf(),
    ensures
        match validate_query_text_spec(schema_index@, query_document@, match operation_name { Some(n) => Some(n@), None => None }) {
            Ok(_) => r is Ok,
            Err(m) => r matches Err(e) && e@ == m,
        },
{
    let doc = match read_query(query_document) {
        Ok(d) => d,
        Err(m) => {
            return Err(Error::msg(m).context(String::from_str("failed to parse GraphQL query document")));
        },
    };
    validate_document(schema_index, &doc, operation_name)
}


/// The built-in scalar names are distinct texts.
proof fn lemma_builtin_scalar_names_distinct()
    ensures
        "Int"@.len() == 3,
        "Float"@.len() == 5,
        "String"@.len() == 6,
        "ID"@.len() == 2,
        "Boolean"@.len() == 7,
{
    reveal_strlit("Int");
    reveal_strlit("Float");
    reveal_strlit("String");
    reveal_strlit("ID");
    reveal_strlit("Boolean");
}

/// A literal argument value whose declared type (not a list) names one of the schema's scalars
/// is accepted exactly when it is of that scalar's kind: `Int` an integer literal, `Float` an
/// integer or float literal, `String` a string literal, `ID` a string or integer literal,
/// `Boolean` a boolean literal; a custom scalar takes any literal. Every other literal for a
/// built-in scalar is refused.
pub proof fn lemma_builtin_scalar_literals(
    types: Map<Seq<char>, SpecTypeInfo>,
    t: SpecTypeRef,
    named: Seq<char>,
    v: SpecValue,
    arg: Seq<char>,
    field: Seq<char>,
    parent: Seq<char>,
)
    requires
        crate::ast::list_item_spec(t) is None,
        named == crate::ast::innermost_named_spec(crate::ast::unwrap_non_null_spec(t)),
        types.contains_key(named),
        types[named] is Scalar,
        !(v is Variable),
        !(v is Null),
    ensures
        named == "Int"@ ==> (arg_value_spec(types, t, v, arg, field, parent) is Ok <==> v is Int),
        named == "Float"@ ==> (arg_value_spec(types, t, v, arg, field, parent) is Ok <==> (v is Int || v is Float)),
        named == "String"@ ==> (arg_value_spec(types, t, v, arg, field, parent) is Ok <==> v is Str),
        named == "ID"@ ==> (arg_value_spec(types, t, v, arg, field, parent) is Ok <==> (v is Str || v is Int)),
        named == "Boolean"@ ==> (arg_value_spec(types, t, v, arg, field, parent) is Ok <==> v is Boolean),
        named != "Int"@ && named != "Float"@ && named != "String"@ && named != "ID"@ && named != "Boolean"@
            ==> arg_value_spec(types, t, v, arg, field, parent) is Ok,
{
    lemma_builtin_scalar_names_distinct();
}


/// A literal argument value whose declared type (not a list) names an enum is accepted
/// exactly when it is an enum value that is one of the enum's members.
pub proof fn lemma_enum_literals(
    types: Map<Seq<char>, SpecTypeInfo>,
    t: SpecTypeRef,
    named: Seq<char>,
    v: SpecValue,
    arg: Seq<char>,
    field: Seq<char>,
    parent: Seq<char>,
)
    requires
        crate::ast::list_item_spec(t) is None,
        named == crate::ast::innermost_named_spec(crate::ast::unwrap_non_null_spec(t)),
        types.contains_key(named),
        types[named] is Enum,
        !(v is Variable),
        !(v is Null),
    ensures
        arg_value_spec(types, t, v, arg, field, parent) is Ok <==> (v matches SpecValue::Enum(m) && types[named]->Enum_values.contains(m)),
{
}

} // verus!
