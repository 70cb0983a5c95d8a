//! Validation of the variables a request supplies against the operation's variable
//! definitions: presence, nullability and input coercion of each declared type. Variables
//! the operation does not declare are ignored, as GraphQL servers ignore them.
use vstd::prelude::*;

use crate::ast::{
    innermost_named_spec, list_item_spec, unwrap_non_null_spec, variable_definitions_view, OperationDefinition,
    OperationType, SpecOperation, SpecTypeRef, SpecVariableDefinition, TypeRef, VariableDefinition,
};
use crate::error::{Error, Fallible};
use crate::json::{entry_get, json_items_view, json_kind, json_kind_spec, object_get, Json, SpecJson};
use crate::order::set_listing;
use crate::schema_index::{kind_name, SchemaIndex, SpecTypeInfo, TypeInfo};
use crate::text::{cat2, cat3, join_spec, str_eq};

verus! {

broadcast use vstd::std_specs::vec::group_vec_axioms;

/// A type reference as written: `Name`, `[T]`, `T!`.
pub open spec fn render_type_spec(t: SpecTypeRef) -> Seq<char>
    decreases t,
{
    match t {
        SpecTypeRef::Named(n) => n,
        SpecTypeRef::List(inner) => "["@ + render_type_spec(*inner) + "]"@,
        SpecTypeRef::NonNull(inner) => render_type_spec(*inner) + "!"@,
    }
}

/// "variable `$name`".
pub open spec fn variable_site(name: Seq<char>) -> Seq<char> {
    "variable `$"@ + name + "`"@
}

pub open spec fn supplied_kind_message(name: Seq<char>, t: SpecTypeRef, v: SpecJson) -> Seq<char> {
    variable_site(name) + " is declared as `"@ + render_type_spec(t) + "` but a "@ + json_kind_spec(v) + " was supplied"@
}

pub open spec fn absent_message(name: Seq<char>, t: SpecTypeRef) -> Seq<char> {
    variable_site(name) + " is declared as `"@ + render_type_spec(t) + "` but no value was supplied"@
}

/// Input coercion for the built-in scalars; a custom scalar accepts anything.
pub open spec fn scalar_accepts_spec(named: Seq<char>, v: SpecJson) -> bool {
    if named == "Int"@ {
        v matches SpecJson::Number(Some(_), _)
    } else if named == "Float"@ {
        v is Number
    } else if named == "String"@ {
        v is Str
    } else if named == "ID"@ {
        v is Str || v matches SpecJson::Number(Some(_), _)
    } else if named == "Boolean"@ {
        v is Bool
    } else {
        true
    }
}

/// Validation of a supplied value against a declared variable type.
pub open spec fn var_value_spec(types: Map<Seq<char>, SpecTypeInfo>, t: SpecTypeRef, v: SpecJson, name: Seq<char>) -> Result<(), Seq<char>>
    decreases v,
{
    match v {
        SpecJson::Null => if t is NonNull {
            Err(variable_site(name) + " does not accept null (declared `"@ + render_type_spec(t) + "`)"@)
        } else {
            Ok(())
        },
        _ => match list_item_spec(t) {
            Some(item) => match v {
                SpecJson::List(items) => var_items_spec(types, item, items, name),
                _ => Err(supplied_kind_message(name, t, v)),
            },
            None => {
                let named = innermost_named_spec(unwrap_non_null_spec(t));
                if !types.contains_key(named) {
                    Err(variable_site(name) + " is declared as `"@ + named + "`, which is not a type in the schema"@)
                } else {
                    match types[named] {
                        SpecTypeInfo::Enum { values } => match v {
                            SpecJson::Str(member) => if values.contains(member) {
                                Ok(())
                            } else {
                                Err(variable_site(name) + " is `"@ + member + "`, which is not a value of enum `"@ + named
                                    + "` (expected one of: "@ + join_spec(set_listing(values), ", "@) + ")"@)
                            },
                            _ => Err(variable_site(name) + " is declared as enum `"@ + named + "` but a "@ + json_kind_spec(v)
                                + " was supplied"@),
                        },
                        SpecTypeInfo::InputObject => if v is Object {
                            Ok(())
                        } else {
                            Err(supplied_kind_message(name, t, v))
                        },
                        SpecTypeInfo::Scalar => if scalar_accepts_spec(named, v) {
                            Ok(())
                        } else {
                            Err(supplied_kind_message(name, t, v))
                        },
                        other => Err(variable_site(name) + " cannot be declared as "@ + kind_name(other) + " type `"@ + named + "`"@),
                    }
                }
            },
        },
    }
}

/// Validation of each item of a supplied list, in order.
pub open spec fn var_items_spec(types: Map<Seq<char>, SpecTypeInfo>, item: SpecTypeRef, items: Seq<SpecJson>, name: Seq<char>) -> Result<(), Seq<char>>
    decreases items,
{
    if items.len() == 0 {
        Ok(())
    } else {
        match var_items_spec(types, item, items.subrange(0, items.len() - 1), name) {
            Err(m) => Err(m),
            Ok(_) => var_value_spec(types, item, items[items.len() - 1], name),
        }
    }
}

proof fn lemma_var_items_prefix(types: Map<Seq<char>, SpecTypeInfo>, item: SpecTypeRef, items: Seq<SpecJson>, name: Seq<char>, k: int)
    requires
        0 <= k <= items.len(),
        var_items_spec(types, item, items.subrange(0, k), name) is Err,
    ensures
        var_items_spec(types, item, items, name) == var_items_spec(types, item, items.subrange(0, k), name),
    decreases items.len() - k,
{
    if k == items.len() {
        assert(items.subrange(0, k) =~= items);
    } else {
        let next = items.subrange(0, k + 1);
        assert(next.subrange(0, next.len() - 1) =~= items.subrange(0, k));
        lemma_var_items_prefix(types, item, items, name, k + 1);
    }
}

/// The value supplied for the variable `name`: the entry of that name when the variables are
/// an object.
pub open spec fn supplied_value(vars: Option<SpecJson>, name: Seq<char>) -> Option<SpecJson> {
    match vars {
        Some(SpecJson::Object(es)) => entry_get(es, name),
        _ => None,
    }
}

/// Validation of one variable definition: an absent or null value is allowed unless the type
/// is non-null without a default; a supplied value must fit the type.
pub open spec fn var_def_spec(types: Map<Seq<char>, SpecTypeInfo>, d: SpecVariableDefinition, vars: Option<SpecJson>) -> Result<(), Seq<char>> {
    match supplied_value(vars, d.name) {
        Some(v) => if v is Null {
            if d.var_type is NonNull && d.default_value is None {
                Err(absent_message(d.name, d.var_type))
            } else {
                Ok(())
            }
        } else {
            var_value_spec(types, d.var_type, v, d.name)
        },
        None => if d.var_type is NonNull && d.default_value is None {
            Err(absent_message(d.name, d.var_type))
        } else {
            Ok(())
        },
    }
}

/// Validation of the definitions in order; the first failure is the outcome.
pub open spec fn var_defs_spec(types: Map<Seq<char>, SpecTypeInfo>, defs: Seq<SpecVariableDefinition>, vars: Option<SpecJson>) -> Result<(), Seq<char>>
    decreases defs.len(),
{
    if defs.len() == 0 {
        Ok(())
    } else {
        match var_defs_spec(types, defs.drop_last(), vars) {
            Err(m) => Err(m),
            Ok(_) => var_def_spec(types, defs.last(), vars),
        }
    }
}

/// The variable definitions of an operation; a bare selection set declares none.
pub open spec fn declared_variables(op: SpecOperation) -> Seq<SpecVariableDefinition> {
    if op.operation_type == OperationType::Shorthand {
        Seq::empty()
    } else {
        op.variable_definitions
    }
}

pub open spec fn validate_variables_spec(types: Map<Seq<char>, SpecTypeInfo>, op: SpecOperation, vars: Option<SpecJson>) -> Result<(), Seq<char>> {
    var_defs_spec(types, declared_variables(op), vars)
}

/// A type reference as written (see `render_type_spec`).
pub fn render_type(type_ref: &TypeRef) -> (r: String)
    ensures
        r@ == render_type_spec(type_ref@),
    decreases type_ref,
{
    match type_ref {
        TypeRef::Named(name) => name.clone(),
        TypeRef::List(inner) => {
            let s = render_type(inner);
            cat3("[", s.as_str(), "]")
        },
        TypeRef::NonNull(inner) => {
            let s = render_type(inner);
            cat2(s.as_str(), "!")
        },
    }
}

fn variable_site_text(name: &str) -> (r: String)
    ensures
        r@ == variable_site(name@),
{
    cat3("variable `$", name, "`")
}

fn supplied_kind_error(name: &str, type_ref: &TypeRef, value: &Json) -> (e: Error)
    ensures
        e@ == seq![supplied_kind_message(name@, type_ref@, value@)],
{
    let mut s = variable_site_text(name);
    s.append(" is declared as `");
    let rendered = render_type(type_ref);
    s.append(rendered.as_str());
    s.append("` but a ");
    s.append(json_kind(value));
    s.append(" was supplied");
    Error::msg(s)
}

/// Input coercion for the built-in scalars (see `scalar_accepts_spec`).
pub fn scalar_accepts(named: &str, value: &Json) -> (r: bool)
    ensures
        r == scalar_accepts_spec(named@, value@),
{
    let is_int = match value {
        Json::Number(n) => n.as_i64.is_some(),
        _ => false,
    };
    if str_eq(named, "Int") {
        is_int
    } else if str_eq(named, "Float") {
        matches!(value, Json::Number(_))
    } else if str_eq(named, "String") {
        matches!(value, Json::Str(_))
    } else if str_eq(named, "ID") {
        matches!(value, Json::Str(_)) || is_int
    } else if str_eq(named, "Boolean") {
        matches!(value, Json::Bool(_))
    } else {
        true
    }
}

/// Checks a supplied value against a declared variable type (see `var_value_spec`).
pub fn validate_value(schema: &SchemaIndex, type_ref: &TypeRef, value: &Json, name: &str) -> (r: Fallible<()>)
    requires
        schema.wf(),
    ensures
        match var_value_spec(schema@.types, type_ref@, value@, name@) {
            Ok(_) => r is Ok,
            Err(m) => r matches Err(e) && e@ == seq![m],
        },
    decreases *value,
{
    if let Json::Null = value {
        if type_ref.is_non_null() {
            let mut s = variable_site_text(name);
            s.append(" does not accept null (declared `");
            let rendered = render_type(type_ref);
            s.append(rendered.as_str());
            s.append("`)");
            return Err(Error::msg(s));
        }
        return Ok(());
    }
    match type_ref.as_list_item() {
        Some(item_type) => {
            return match value {
                Json::List(items) => validate_items(schema, item_type, items, name),
                _ => Err(supplied_kind_error(name, type_ref, value)),
            };
        },
        None => {},
    }
    let named = match type_ref.unwrap_non_null().innermost_named() {
        Some(n) => n,
        None => {
            return Ok(());
        },
    };
    let info = match schema.type_info(named) {
        Some(i) => i,
        None => {
            let mut s = variable_site_text(name);
            s.append(" is declared as `");
            s.append(named);
            s.append("`, which is not a type in the schema");
            return Err(Error::msg(s));
        },
    };
    let acceptable = match info {
        TypeInfo::Enum(members) => {
            match value {
                Json::Str(member) => {
                    if !members.contains(member.as_str()) {
                        let mut s = variable_site_text(name);
                        s.append(" is `");
                        s.append(member.as_str());
                        s.append("`, which is not a value of enum `");
                        s.append(named);
                        s.append("` (expected one of: ");
                        let listing = crate::validation::enum_listing(members);
                        s.append(listing.as_str());
                        s.append(")");
                        return Err(Error::msg(s));
                    }
                    true
                },
                _ => {
                    let mut s = variable_site_text(name);
                    s.append(" is declared as enum `");
                    s.append(named);
                    s.append("` but a ");
                    s.append(json_kind(value));
                    s.append(" was supplied");
                    return Err(Error::msg(s));
                },
            }
        },
        TypeInfo::InputObject => matches!(value, Json::Object(_)),
        TypeInfo::Scalar => scalar_accepts(named, value),
        other => {
            let mut s = variable_site_text(name);
            s.append(" cannot be declared as ");
            s.append(other.kind());
            s.append(" type `");
            s.append(named);
            s.append("`");
            return Err(Error::msg(s));
        },
    };
    if !acceptable {
        return Err(supplied_kind_error(name, type_ref, value));
    }
    Ok(())
}

/// Checks each item of a supplied list against the item type (see `var_items_spec`).
fn validate_items(schema: &SchemaIndex, item_type: &TypeRef, items: &Vec<Json>, name: &str) -> (r: Fallible<()>)
    requires
        schema.wf(),
    ensures
        match var_items_spec(schema@.types, item_type@, json_items_view(items@), name@) {
            Ok(_) => r is Ok,
            Err(m) => r matches Err(e) && e@ == seq![m],
        },
    decreases *items,
{
    let ghost iv = json_items_view(items@);
    let mut i: usize = 0;
    assert(iv.subrange(0, 0) =~= Seq::<SpecJson>::empty());
    while i < items.len()
        invariant
            i <= items@.len(),
            schema.wf(),
            iv == json_items_view(items@),
            var_items_spec(schema@.types, item_type@, iv.subrange(0, i as int), name@) is Ok,
        decreases items.len() - i,
    {
        let ghost next = iv.subrange(0, i + 1);
        proof {
            assert(iv[i as int] == items@[i as int]@);
            assert(next.subrange(0, next.len() - 1) =~= iv.subrange(0, i as int));
            assert(next[next.len() - 1] == iv[i as int]);
            assert(decreases_to!(*items => items[i as int]));
        }
        let res = validate_value(schema, item_type, &items[i], name);
        proof {
            assert(var_items_spec(schema@.types, item_type@, next, name@) == var_value_spec(schema@.types, item_type@, iv[i as int], name@));
        }
        match res {
            Ok(_) => {},
            Err(e) => {
                proof {
                    lemma_var_items_prefix(schema@.types, item_type@, iv, name@, i + 1);
                }
                return Err(e);
            },
        }
        i += 1;
    }
    proof {
        assert(iv.subrange(0, items@.len() as int) =~= iv);
    }
    Ok(())
}

/// The value supplied for `name` when the variables are an object.
fn supplied<'a>(variables: Option<&'a Json>, name: &str) -> (r: Option<&'a Json>)
    ensures
        r matches Some(v) ==> supplied_value(match variables { Some(j) => Some(j@), None => None }, name@) == Some(v@),
        r is None ==> supplied_value(match variables { Some(j) => Some(j@), None => None }, name@) is None,
{
    match variables {
        Some(Json::Object(entries)) => object_get(entries, name),
        _ => None,
    }
}

/// Checks the supplied variables against the operation's variable definitions (see
/// `validate_variables_spec`).
pub fn validate_variables(schema: &SchemaIndex, operation: &OperationDefinition, variables: Option<&Json>) -> (r: Fallible<()>)
    requires
        schema.wf(),
    ensures
        match validate_variables_spec(schema@.types, operation@, match variables { Some(j) => Some(j@), None => None }) {
            Ok(_) => r is Ok,
            Err(m) => r matches Err(e) && e@ == seq![m],
        },
{
    let ghost vars = match variables { Some(j) => Some(j@), None => None };
    if operation.operation_type == OperationType::Shorthand {
        return Ok(());
    }
    let defs = &operation.variable_definitions;
    let ghost dv = variable_definitions_view(defs@);
    let mut i: usize = 0;
    assert(dv.subrange(0, 0) =~= Seq::<SpecVariableDefinition>::empty());
    while i < defs.len()
        invariant
            i <= defs@.len(),
            schema.wf(),
            dv == variable_definitions_view(defs@),
            declared_variables(operation@) == dv,
            vars == match variables { Some(j) => Some(j@), None => None },
            var_defs_spec(schema@.types, dv.subrange(0, i as int), vars) is Ok,
        decreases defs.len() - i,
    {
        let ghost next = dv.subrange(0, i + 1);
        proof {
            assert(next.drop_last() =~= dv.subrange(0, i as int));
            assert(next.last() == defs@[i as int]@);
        }
        let definition: &VariableDefinition = &defs[i];
        let name = definition.name.as_str();
        let res: Fallible<()> = match supplied(variables, name) {
            Some(value) => {
                if let Json::Null = value {
                    check_absent(definition)
                } else {
                    validate_value(schema, &definition.var_type, value, name)
                }
            },
            None => check_absent(definition),
        };
        proof {
            assert(var_defs_spec(schema@.types, next, vars) == var_def_spec(schema@.types, defs@[i as int]@, vars));
        }
        match res {
            Ok(_) => {},
            Err(e) => {
                proof {
                    lemma_var_defs_prefix(schema@.types, dv, vars, i + 1);
                }
                return Err(e);
            },
        }
        i += 1;
    }
    proof {
        assert(dv.subrange(0, defs@.len() as int) =~= dv);
    }
    Ok(())
}

/// An absent (or null) value: an error when the type is non-null and has no default.
fn check_absent(definition: &VariableDefinition) -> (r: Fallible<()>)
    ensures
        definition.var_type@ is NonNull && definition.default_value is None ==> (r matches Err(e) && e@ == seq![absent_message(definition.name@, definition.var_type@)]),
        !(definition.var_type@ is NonNull && definition.default_value is None) ==> r is Ok,
{
    if definition.var_type.is_non_null() && definition.default_value.is_none() {
        let mut s = variable_site_text(definition.name.as_str());
        s.append(" is declared as `");
        let rendered = render_type(&definition.var_type);
        s.append(rendered.as_str());
        s.append("` but no value was supplied");
        return Err(Error::msg(s));
    }
    Ok(())
}

proof fn lemma_var_defs_prefix(types: Map<Seq<char>, SpecTypeInfo>, defs: Seq<SpecVariableDefinition>, vars: Option<SpecJson>, k: int)
    requires
        0 <= k <= defs.len(),
        var_defs_spec(types, defs.subrange(0, k), vars) is Err,
    ensures
        var_defs_spec(types, defs, vars) == var_defs_spec(types, defs.subrange(0, k), vars),
    decreases defs.len() - k,
{
    if k == defs.len() {
        assert(defs.subrange(0, k) =~= defs);
    } else {
        assert(defs.subrange(0, k + 1).drop_last() =~= defs.subrange(0, k));
        lemma_var_defs_prefix(types, defs, vars, k + 1);
    }
}


proof fn lemma_entry_get_insert(es: Seq<(Seq<char>, SpecJson)>, pos: int, k: Seq<char>, v: SpecJson, name: Seq<char>)
    requires
        0 <= pos <= es.len(),
        name != k,
    ensures
        entry_get(es.insert(pos, (k, v)), name) == entry_get(es, name),
    decreases es.len(),
{
    let ins = es.insert(pos, (k, v));
    if pos == 0 {
        assert(ins.drop_first() =~= es);
    } else {
        assert(ins[0] == es[0]);
        if es[0].0 != name {
            assert(ins.drop_first() =~= es.drop_first().insert(pos - 1, (k, v)));
            lemma_entry_get_insert(es.drop_first(), pos - 1, k, v, name);
        }
    }
}

proof fn lemma_defs_ignore_extra(
    types: Map<Seq<char>, SpecTypeInfo>,
    defs: Seq<SpecVariableDefinition>,
    es: Seq<(Seq<char>, SpecJson)>,
    pos: int,
    k: Seq<char>,
    v: SpecJson,
)
    requires
        0 <= pos <= es.len(),
        forall|i: int| 0 <= i < defs.len() ==> (#[trigger] defs[i]).name != k,
    ensures
        var_defs_spec(types, defs, Some(SpecJson::Object(es.insert(pos, (k, v))))) == var_defs_spec(
            types,
            defs,
            Some(SpecJson::Object(es)),
        ),
    decreases defs.len(),
{
    if defs.len() > 0 {
        let pre = defs.drop_last();
        assert forall|i: int| 0 <= i < pre.len() implies (#[trigger] pre[i]).name != k by {
            assert(pre[i] == defs[i]);
        }
        lemma_defs_ignore_extra(types, pre, es, pos, k, v);
        assert(defs.last() == defs[defs.len() - 1]);
        lemma_entry_get_insert(es, pos, k, v, defs.last().name);
    }
}

/// Supplying a variable the operation does not declare changes nothing: with one more entry,
/// anywhere in the variables object, under a name no declaration has, the outcome is the same.
pub proof fn lemma_undeclared_variables_ignored(
    types: Map<Seq<char>, SpecTypeInfo>,
    op: SpecOperation,
    es: Seq<(Seq<char>, SpecJson)>,
    pos: int,
    name: Seq<char>,
    value: SpecJson,
)
    requires
        0 <= pos <= es.len(),
        forall|i: int| 0 <= i < declared_variables(op).len() ==> (#[trigger] declared_variables(op)[i]).name != name,
    ensures
        validate_variables_spec(types, op, Some(SpecJson::Object(es.insert(pos, (name, value))))) == validate_variables_spec(
            types,
            op,
            Some(SpecJson::Object(es)),
        ),
{
    lemma_defs_ignore_extra(types, declared_variables(op), es, pos, name, value);
}

proof fn lemma_defs_fail_from(
    types: Map<Seq<char>, SpecTypeInfo>,
    defs: Seq<SpecVariableDefinition>,
    vars: Option<SpecJson>,
    k: int,
)
    requires
        0 <= k < defs.len(),
        var_def_spec(types, defs[k], vars) is Err,
    ensures
        var_defs_spec(types, defs, vars) is Err,
    decreases defs.len(),
{
    if k < defs.len() - 1 {
        let pre = defs.drop_last();
        assert(pre[k] == defs[k]);
        lemma_defs_fail_from(types, pre, vars, k);
    }
}

/// A request that leaves out a variable declared non-null without a default is refused.
pub proof fn lemma_missing_required_variable_refused(
    types: Map<Seq<char>, SpecTypeInfo>,
    op: SpecOperation,
    vars: Option<SpecJson>,
    k: int,
)
    requires
        0 <= k < declared_variables(op).len(),
        declared_variables(op)[k].var_type is NonNull,
        declared_variables(op)[k].default_value is None,
        supplied_value(vars, declared_variables(op)[k].name) is None,
    ensures
        validate_variables_spec(types, op, vars) is Err,
{
    lemma_defs_fail_from(types, declared_variables(op), vars, k);
}


/// The built-in scalar names are distinct texts.
proof fn lemma_scalar_names_distinct()
    ensures
        "Int"@.len() == 3,
        "Float"@.len() == 5,
        "String"@.len() == 6,
        "ID"@.len() == 2,
        "Boolean"@.len() == 7,
{
    reveal_strlit("Int");
    reveal_strlit("Float");
    reveal_strlit("String");
    reveal_strlit("ID");
    reveal_strlit("Boolean");
}

/// A supplied value (not null) for a variable whose declared type (not a list) names one of
/// the schema's scalars is accepted exactly when it is of that scalar's JSON form: `Int` an
/// integer number, `Float` any number, `String` a string, `ID` a string or an integer
/// number, `Boolean` a boolean; a custom scalar takes any value. Every other value for a
/// built-in scalar is refused.
pub proof fn lemma_builtin_scalar_variables(
    types: Map<Seq<char>, SpecTypeInfo>,
    t: SpecTypeRef,
    named: Seq<char>,
    v: SpecJson,
    name: Seq<char>,
)
    requires
        list_item_spec(t) is None,
        named == innermost_named_spec(unwrap_non_null_spec(t)),
        types.contains_key(named),
        types[named] is Scalar,
        !(v is Null),
    ensures
        named == "Int"@ ==> (var_value_spec(types, t, v, name) is Ok <==> v matches SpecJson::Number(Some(_), _)),
        named == "Float"@ ==> (var_value_spec(types, t, v, name) is Ok <==> v is Number),
        named == "String"@ ==> (var_value_spec(types, t, v, name) is Ok <==> v is Str),
        named == "ID"@ ==> (var_value_spec(types, t, v, name) is Ok <==> (v is Str || v matches SpecJson::Number(Some(_), _))),
        named == "Boolean"@ ==> (var_value_spec(types, t, v, name) is Ok <==> v is Bool),
        named != "Int"@ && named != "Float"@ && named != "String"@ && named != "ID"@ && named != "Boolean"@
            ==> var_value_spec(types, t, v, name) is Ok,
{
    lemma_scalar_names_distinct();
}


/// A supplied value (not null) for a variable whose declared type (not a list) names an enum
/// is accepted exactly when it is a string naming one of the enum's members.
pub proof fn lemma_enum_variables(types: Map<Seq<char>, SpecTypeInfo>, t: SpecTypeRef, named: Seq<char>, v: SpecJson, name: Seq<char>)
    requires
        list_item_spec(t) is None,
        named == innermost_named_spec(unwrap_non_null_spec(t)),
        types.contains_key(named),
        types[named] is Enum,
        !(v is Null),
    ensures
        var_value_spec(types, t, v, name) is Ok <==> (v matches SpecJson::Str(m) && types[named]->Enum_values.contains(m)),
{
}

} // verus!
