//! Validation of a GraphQL response against the schema and the operation that asked for it.
use vstd::prelude::*;

use crate::ast::{innermost_named_spec, list_item_spec, unwrap_non_null_spec, Field, OperationType, QueryDocument, Selection, SpecSelection, SpecTypeRef, TypeRef};
use crate::error::{Error, Fallible};
use crate::json::{entry_get, json_entries_view, json_items_view, json_kind, json_kind_spec, object_get, Json, SpecJson};
use crate::order::set_listing;
use crate::query_ast::{collect_fields, collect_fields_spec, collected_view, field_name_spec, has_key_spec, inline_operation, parse_and_inline_spec, sub_selections};
use crate::schema_index::{field_type_spec, is_composite_spec, root_type_spec, OperationKind, SchemaIndex, SpecSchemaIndex, SpecTypeInfo, TypeInfo};
use crate::text::{cat2, cat3, decimal, decimal_spec, join_spec, str_eq};
use crate::validation::{enum_listing, operation_kind_spec};
use crate::graphql_text::{query_reading, read_query};

verus! {

broadcast use vstd::std_specs::vec::group_vec_axioms;

/// A way a response departs from the schema or the operation, at a JSON path.
#[derive(Debug)]
pub struct ResponseMismatch {
    pub path: String,
    pub expected: String,
    pub actual: String,
    pub description: String,
}

pub struct SpecResponseMismatch {
    pub path: Seq<char>,
    pub expected: Seq<char>,
    pub actual: Seq<char>,
    pub description: Seq<char>,
}

impl View for ResponseMismatch {
    type V = SpecResponseMismatch;

    open spec fn view(&self) -> SpecResponseMismatch {
        SpecResponseMismatch { path: self.path@, expected: self.expected@, actual: self.actual@, description: self.description@ }
    }
}

pub open spec fn rms_view(ms: Seq<ResponseMismatch>) -> Seq<SpecResponseMismatch> {
    Seq::new(ms.len(), |i: int| ms[i]@)
}

pub open spec fn rm(path: Seq<char>, expected: Seq<char>, actual: Seq<char>, description: Seq<char>) -> SpecResponseMismatch {
    SpecResponseMismatch { path, expected, actual, description }
}

/// `path[index]`.
pub open spec fn index_path(path: Seq<char>, index: nat) -> Seq<char> {
    path + "["@ + decimal_spec(index) + "]"@
}

/// `path.key`.
pub open spec fn key_path(path: Seq<char>, key: Seq<char>) -> Seq<char> {
    path + "."@ + key
}

/// The position of the first entry with key `key`.
pub open spec fn entry_index(es: Seq<(Seq<char>, SpecJson)>, key: Seq<char>) -> Option<int>
    decreases es.len(),
{
    if es.len() == 0 {
        None
    } else if es[0].0 == key {
        Some(0)
    } else {
        match entry_index(es.drop_first(), key) {
            Some(i) => Some(i + 1),
            None => None,
        }
    }
}

pub proof fn lemma_entry_index(es: Seq<(Seq<char>, SpecJson)>, key: Seq<char>)
    ensures
        entry_index(es, key) matches Some(i) ==> 0 <= i < es.len() && es[i].0 == key && entry_get(es, key) == Some(es[i].1),
        entry_index(es, key) is None ==> entry_get(es, key) is None,
    decreases es.len(),
{
    if es.len() > 0 && es[0].0 != key {
        lemma_entry_index(es.drop_first(), key);
    }
}

/// A built-in scalar's JSON form: `Int` an integer, `Float` any number, `Boolean` a boolean,
/// `String` and `ID` a string; a custom scalar anything.
pub open spec fn scalar_value_fits(named: Seq<char>, v: SpecJson) -> bool {
    if named == "Int"@ {
        v matches SpecJson::Number(Some(_), _)
    } else if named == "Float"@ {
        v is Number
    } else if named == "Boolean"@ {
        v is Bool
    } else if named == "String"@ || named == "ID"@ {
        v is Str
    } else {
        true
    }
}

/// The mismatches of a value against a field's declared type, `sel` being the field's
/// selections.
pub open spec fn resp_value(idx: SpecSchemaIndex, t: SpecTypeRef, sel: Seq<SpecSelection>, v: SpecJson, path: Seq<char>) -> Seq<SpecResponseMismatch>
    decreases v, 3nat,
{
    match v {
        SpecJson::Null => if t is NonNull {
            seq![rm(path, "a non-null value"@, "null"@, "field is non-null in the schema but the response is null"@)]
        } else {
            Seq::empty()
        },
        _ => match list_item_spec(t) {
            Some(item) => match v {
                SpecJson::List(items) => resp_items(idx, item, sel, items, path),
                _ => seq![rm(path, "list"@, json_kind_spec(v), "field is a list in the schema"@)],
            },
            None => {
                let named = innermost_named_spec(unwrap_non_null_spec(t));
                if is_composite_spec(idx, named) {
                    resp_object(idx, sel, named, v, path)
                } else if idx.types.contains_key(named) && idx.types[named] is Enum {
                    let values = idx.types[named]->Enum_values;
                    match v {
                        SpecJson::Str(actual) => if values.contains(actual) {
                            Seq::empty()
                        } else {
                            seq![rm(path, "one of "@ + join_spec(set_listing(values), ", "@), actual,
                                "`"@ + actual + "` is not a member of enum `"@ + named + "`"@)]
                        },
                        _ => seq![rm(path, "a `"@ + named + "` enum member (string)"@, json_kind_spec(v),
                            "enum `"@ + named + "` must be serialised as a string"@)],
                    }
                } else if scalar_value_fits(named, v) {
                    Seq::empty()
                } else {
                    seq![rm(path, "a `"@ + named + "` value"@, json_kind_spec(v), "value is not a valid `"@ + named + "`"@)]
                }
            },
        },
    }
}

/// The mismatches of each item of a list, at `path[i]`.
pub open spec fn resp_items(idx: SpecSchemaIndex, item: SpecTypeRef, sel: Seq<SpecSelection>, items: Seq<SpecJson>, path: Seq<char>) -> Seq<SpecResponseMismatch>
    decreases items, 0nat,
{
    if items.len() == 0 {
        Seq::empty()
    } else {
        let k = items.len() - 1;
        resp_items(idx, item, sel, items.subrange(0, k), path) + resp_value(idx, item, sel, items[k], index_path(path, k as nat))
    }
}

/// The mismatches of a value that should be an object of type `parent` holding the fields
/// `sel` selects: keys nobody asked for, then each selected field in order.
pub open spec fn resp_object(idx: SpecSchemaIndex, sel: Seq<SpecSelection>, parent: Seq<char>, v: SpecJson, path: Seq<char>) -> Seq<SpecResponseMismatch>
    decreases v, 2nat,
{
    match v {
        SpecJson::Object(es) => {
            let fields = collect_fields_spec(sel, Seq::empty());
            unexpected_keys(idx, es, fields, parent, path) + resp_fields(idx, fields, parent, es, path)
        },
        _ => seq![rm(path, "object"@, json_kind_spec(v), "expected an object for type `"@ + parent + "`"@)],
    }
}

/// Each selected field (but `__typename`, and fields the schema does not declare): missing,
/// or its value checked against its type.
pub open spec fn resp_fields(
    idx: SpecSchemaIndex,
    fields: Seq<(Seq<char>, SpecSelection)>,
    parent: Seq<char>,
    es: Seq<(Seq<char>, SpecJson)>,
    path: Seq<char>,
) -> Seq<SpecResponseMismatch>
    decreases es, fields.len(),
{
    if fields.len() == 0 {
        Seq::empty()
    } else {
        let (key, f) = fields.last();
        let name = field_name_spec(f);
        resp_fields(idx, fields.drop_last(), parent, es, path) + if name == "__typename"@ {
            Seq::empty()
        } else {
            match field_type_spec(idx, parent, name) {
                None => Seq::empty(),
                Some(rt) => match entry_index(es, key) {
                    None => seq![rm(key_path(path, key), key, "<absent>"@, "`"@ + key + "` was requested by the operation but is missing"@)],
                    Some(i) => {
                        proof {
                            lemma_entry_index(es, key);
                        }
                        resp_value(idx, rt, sub_selections(f), es[i].1, key_path(path, key))
                    },
                },
            }
        }
    }
}

/// The keys of an object that no selection asked for (but `__typename`), in order.
pub open spec fn unexpected_keys(
    idx: SpecSchemaIndex,
    es: Seq<(Seq<char>, SpecJson)>,
    fields: Seq<(Seq<char>, SpecSelection)>,
    parent: Seq<char>,
    path: Seq<char>,
) -> Seq<SpecResponseMismatch>
    decreases es.len(),
{
    if es.len() == 0 {
        Seq::empty()
    } else {
        let key = es.last().0;
        unexpected_keys(idx, es.drop_last(), fields, parent, path) + if key == "__typename"@ || has_key_spec(fields, key) {
            Seq::empty()
        } else {
            seq![rm(key_path(path, key), "<absent>"@, key, if field_type_spec(idx, parent, key) is Some {
                "`"@ + key + "` was not requested by the operation"@
            } else {
                "`"@ + key + "` is not a field of type \""@ + parent + "\""@
            })]
        }
    }
}

/// The mismatches of one entry of `errors`, at `$.errors[i]`.
pub open spec fn error_entry(item: SpecJson, i: nat) -> Seq<SpecResponseMismatch> {
    let path = index_path("$.errors"@, i);
    match item {
        SpecJson::Object(es) => match entry_get(es, "message"@) {
            Some(SpecJson::Str(_)) => Seq::empty(),
            other => seq![rm(path + ".message"@, "string"@, match other {
                Some(x) => json_kind_spec(x),
                None => "absent"@,
            }, "each GraphQL error requires a string `message`"@)],
        },
        _ => seq![rm(path, "object"@, json_kind_spec(item), "each GraphQL error must be an object"@)],
    }
}

pub open spec fn error_entries(items: Seq<SpecJson>) -> Seq<SpecResponseMismatch>
    decreases items.len(),
{
    if items.len() == 0 {
        Seq::empty()
    } else {
        error_entries(items.drop_last()) + error_entry(items.last(), (items.len() - 1) as nat)
    }
}

/// The mismatches of `errors`: it must be a list of objects, each with a string `message`.
pub open spec fn errors_spec(errors: SpecJson) -> Seq<SpecResponseMismatch> {
    match errors {
        SpecJson::List(items) => error_entries(items),
        _ => seq![rm("$.errors"@, "list"@, json_kind_spec(errors), "`errors` must be a list"@)],
    }
}

/// A top-level key of a response: `data`, `errors` or `extensions`.
pub open spec fn allowed_key(k: Seq<char>) -> bool {
    k == "data"@ || k == "errors"@ || k == "extensions"@
}

pub open spec fn bad_keys(es: Seq<(Seq<char>, SpecJson)>) -> Seq<SpecResponseMismatch>
    decreases es.len(),
{
    if es.len() == 0 {
        Seq::empty()
    } else {
        let key = es.last().0;
        bad_keys(es.drop_last()) + if allowed_key(key) {
            Seq::empty()
        } else {
            seq![rm("$."@ + key, "one of data, errors, extensions"@, key, "`"@ + key + "` is not a valid GraphQL response key"@)]
        }
    }
}

/// The mismatches of a response envelope: it must be an object with only `data`, `errors`
/// and `extensions`, with `data` or `errors`; `errors` is checked, and `data` (unless null)
/// against the operation from its root type.
pub open spec fn envelope_spec(idx: SpecSchemaIndex, sel: Seq<SpecSelection>, root: Seq<char>, response: SpecJson) -> Seq<SpecResponseMismatch> {
    match response {
        SpecJson::Object(es) => bad_keys(es) + (if entry_get(es, "data"@) is None && entry_get(es, "errors"@) is None {
            seq![rm("$"@, "data or errors"@, "neither"@, "a GraphQL response must contain `data`, `errors`, or both"@)]
        } else {
            Seq::empty()
        }) + (match entry_get(es, "errors"@) {
            Some(e) => errors_spec(e),
            None => Seq::empty(),
        }) + (match entry_get(es, "data"@) {
            None | Some(SpecJson::Null) => Seq::empty(),
            Some(d) => resp_object(idx, sel, root, d, "$.data"@),
        }),
        _ => seq![rm("$"@, "object"@, json_kind_spec(response), "a GraphQL response must be a JSON object"@)],
    }
}

/// The validation of a response to the selected operation of a document.
pub open spec fn validate_response_spec(idx: SpecSchemaIndex, defs: Seq<crate::ast::Definition>, name: Option<Seq<char>>, response: SpecJson) -> Result<Seq<SpecResponseMismatch>, Seq<char>> {
    match parse_and_inline_spec(defs, name) {
        Err(m) => Err(m),
        Ok(op) => match root_type_spec(idx, operation_kind_spec(op.operation_type)) {
            None => Err("schema has no root type for this operation"@),
            Some(root) => Ok(envelope_spec(idx, op.selection_set, root, response)),
        },
    }
}

fn push_rm(out: &mut Vec<ResponseMismatch>, path: String, expected: String, actual: String, description: String)
    ensures
        rms_view(final(out)@) == rms_view(old(out)@).push(rm(path@, expected@, actual@, description@)),
{
    out.push(ResponseMismatch { path, expected, actual, description });
    assert(rms_view(out@) =~= rms_view(old(out)@).push(rm(path@, expected@, actual@, description@)));
}

fn key_path_text(path: &str, key: &str) -> (r: String)
    ensures
        r@ == key_path(path@, key@),
{
    cat3(path, ".", key)
}

fn index_path_text(path: &str, index: usize) -> (r: String)
    ensures
        r@ == index_path(path@, index as nat),
{
    let d = decimal(index);
    let mut s = cat3(path, "[", d.as_str());
    s.append("]");
    s
}

/// Whether a built-in scalar's JSON form fits (see `scalar_value_fits`).
fn scalar_value_fits_exec(named: &str, value: &Json) -> (r: bool)
    ensures
        r == scalar_value_fits(named@, value@),
{
    if str_eq(named, "Int") {
        match value {
            Json::Number(n) => n.as_i64.is_some(),
            _ => false,
        }
    } else if str_eq(named, "Float") {
        matches!(value, Json::Number(_))
    } else if str_eq(named, "Boolean") {
        matches!(value, Json::Bool(_))
    } else if str_eq(named, "String") || str_eq(named, "ID") {
        matches!(value, Json::Str(_))
    } else {
        true
    }
}

/// Appends the mismatches of a value against a field's type (see `resp_value`).
pub fn validate_value(
    schema: &SchemaIndex,
    type_ref: &TypeRef,
    selections: &Vec<Selection>,
    value: &Json,
    path: &str,
    out: &mut Vec<ResponseMismatch>,
)
    requires
        schema.wf(),
    ensures
        rms_view(final(out)@) == rms_view(old(out)@) + resp_value(schema@, type_ref@, crate::ast::selections_view(selections@), value@, path@),
    decreases *value, 3nat,
{
    let ghost sel = crate::ast::selections_view(selections@);
    if let Json::Null = value {
        if type_ref.is_non_null() {
            push_rm(out, path.to_owned(), String::from_str("a non-null value"), String::from_str("null"),
                String::from_str("field is non-null in the schema but the response is null"));
        } else {
            assert(rms_view(out@) + Seq::<SpecResponseMismatch>::empty() =~= rms_view(out@));
        }
        return;
    }
    match type_ref.as_list_item() {
        Some(item_type) => {
            match value {
                Json::List(items) => {
                    validate_items(schema, item_type, selections, items, path, out);
                },
                _ => {
                    push_rm(out, path.to_owned(), String::from_str("list"), json_kind(value).to_owned(),
                        String::from_str("field is a list in the schema"));
                },
            }
            return;
        },
        None => {},
    }
    let named = match type_ref.unwrap_non_null().innermost_named() {
        Some(n) => n,
        None => {
            return;
        },
    };
    if schema.is_composite_type(named) {
        validate_object(schema, selections, named, value, path, out);
        return;
    }
    match schema.enum_values(named) {
        Some(members) => {
            match value {
                Json::Str(actual) => {
                    if members.contains(actual.as_str()) {
                        assert(rms_view(out@) + Seq::<SpecResponseMismatch>::empty() =~= rms_view(out@));
                    } else {
                        let listing = enum_listing(members);
                        let expected = cat2("one of ", listing.as_str());
                        let mut description = cat3("`", actual.as_str(), "` is not a member of enum `");
                        description.append(named);
                        description.append("`");
                        push_rm(out, path.to_owned(), expected, actual.clone(), description);
                    }
                },
                _ => {
                    let expected = cat3("a `", named, "` enum member (string)");
                    let description = cat3("enum `", named, "` must be serialised as a string");
                    push_rm(out, path.to_owned(), expected, json_kind(value).to_owned(), description);
                },
            }
            return;
        },
        None => {},
    }
    if scalar_value_fits_exec(named, value) {
        assert(rms_view(out@) + Seq::<SpecResponseMismatch>::empty() =~= rms_view(out@));
    } else {
        let expected = cat3("a `", named, "` value");
        let description = cat3("value is not a valid `", named, "`");
        push_rm(out, path.to_owned(), expected, json_kind(value).to_owned(), description);
    }
}

/// Appends the mismatches of each item of a list (see `resp_items`).
fn validate_items(
    schema: &SchemaIndex,
    item_type: &TypeRef,
    selections: &Vec<Selection>,
    items: &Vec<Json>,
    path: &str,
    out: &mut Vec<ResponseMismatch>,
)
    requires
        schema.wf(),
    ensures
        rms_view(final(out)@) == rms_view(old(out)@) + resp_items(schema@, item_type@, crate::ast::selections_view(selections@), json_items_view(items@), path@),
    decreases *items, 0nat,
{
    let ghost sel = crate::ast::selections_view(selections@);
    let ghost iv = json_items_view(items@);
    let ghost start = rms_view(out@);
    let mut i: usize = 0;
    assert(iv.subrange(0, 0) =~= Seq::<SpecJson>::empty());
    assert(start + Seq::<SpecResponseMismatch>::empty() =~= start);
    while i < items.len()
        invariant
            i <= items@.len(),
            schema.wf(),
            sel == crate::ast::selections_view(selections@),
            iv == json_items_view(items@),
            rms_view(out@) == start + resp_items(schema@, item_type@, sel, iv.subrange(0, i as int), path@),
        decreases items.len() - i,
    {
        let ghost next = iv.subrange(0, i + 1);
        proof {
            assert(next.subrange(0, next.len() - 1) =~= iv.subrange(0, i as int));
            assert(next[next.len() - 1] == iv[i as int]);
            assert(iv[i as int] == items@[i as int]@);
            assert(decreases_to!(*items => items[i as int]));
        }
        let item_path = index_path_text(path, i);
        let ghost before = rms_view(out@);
        validate_value(schema, item_type, selections, &items[i], item_path.as_str(), out);
        proof {
            assert(rms_view(out@) =~= start + resp_items(schema@, item_type@, sel, next, path@));
        }
        i += 1;
    }
    proof {
        assert(iv.subrange(0, items@.len() as int) =~= iv);
    }
}

/// Whether some collected field has response key `key`.
fn selected(fields: &Vec<(String, &Field)>, key: &str) -> (r: bool)
    ensures
        r == has_key_spec(collected_view(fields@), key@),
{
    let mut i: usize = 0;
    while i < fields.len()
        invariant
            i <= fields@.len(),
            forall|j: int| 0 <= j < i ==> fields@[j].0@ != key@,
        decreases fields.len() - i,
    {
        if str_eq(fields[i].0.as_str(), key) {
            assert(collected_view(fields@)[i as int].0 == key@);
            return true;
        }
        i += 1;
    }
    proof {
        if has_key_spec(collected_view(fields@), key@) {
            let j = choose|j: int| 0 <= j < collected_view(fields@).len() && collected_view(fields@)[j].0 == key@;
            assert(fields@[j].0@ == key@);
        }
    }
    false
}

/// The position of the first entry with key `key`.
pub fn find_entry(entries: &Vec<(String, Json)>, key: &str) -> (r: Option<usize>)
    ensures
        match entry_index(json_entries_view(entries@), key@) {
            Some(i) => r matches Some(x) && x == i,
            None => r is None,
        },
{
    let ghost ev = json_entries_view(entries@);
    let mut i: usize = 0;
    assert(ev.subrange(0, ev.len() as int) =~= ev);
    while i < entries.len()
        invariant
            i <= entries@.len(),
            ev == json_entries_view(entries@),
            entry_index(ev, key@) == match entry_index(ev.subrange(i as int, ev.len() as int), key@) {
                Some(j) => Some(j + i),
                None => None::<int>,
            },
        decreases entries.len() - i,
    {
        let ghost rest = ev.subrange(i as int, ev.len() as int);
        proof {
            assert(rest[0] == ev[i as int]);
            assert(ev[i as int] == (entries@[i as int].0@, entries@[i as int].1@));
            assert(rest.drop_first() =~= ev.subrange(i + 1, ev.len() as int));
        }
        if str_eq(entries[i].0.as_str(), key) {
            return Some(i);
        }
        i += 1;
    }
    proof {
        assert(ev.subrange(ev.len() as int, ev.len() as int) =~= Seq::<(Seq<char>, SpecJson)>::empty());
    }
    None
}

/// Appends a mismatch for each key of an object that no selection asked for (see
/// `unexpected_keys`).
fn push_unexpected_keys(
    schema: &SchemaIndex,
    entries: &Vec<(String, Json)>,
    fields: &Vec<(String, &Field)>,
    parent: &str,
    path: &str,
    out: &mut Vec<ResponseMismatch>,
)
    requires
        schema.wf(),
    ensures
        rms_view(final(out)@) == rms_view(old(out)@) + unexpected_keys(schema@, json_entries_view(entries@), collected_view(fields@), parent@, path@),
{
    let ghost ev = json_entries_view(entries@);
    let ghost fv = collected_view(fields@);
    let ghost start = rms_view(out@);
    let mut k: usize = 0;
    assert(ev.subrange(0, 0) =~= Seq::<(Seq<char>, SpecJson)>::empty());
    assert(start + Seq::<SpecResponseMismatch>::empty() =~= start);
    while k < entries.len()
        invariant
            k <= entries@.len(),
            schema.wf(),
            ev == json_entries_view(entries@),
            fv == collected_view(fields@),
            rms_view(out@) == start + unexpected_keys(schema@, ev.subrange(0, k as int), fv, parent@, path@),
        decreases entries.len() - k,
    {
        let ghost pre = ev.subrange(0, k + 1);
        proof {
            assert(pre.drop_last() =~= ev.subrange(0, k as int));
            assert(pre.last() == ev[k as int]);
            assert(ev[k as int] == (entries@[k as int].0@, entries@[k as int].1@));
        }
        let key = entries[k].0.as_str();
        if !str_eq(key, "__typename") && !selected(fields, key) {
            let description = if schema.field_return_type(parent, key).is_some() {
                cat3("`", key, "` was not requested by the operation")
            } else {
                let mut d = cat3("`", key, "` is not a field of type \"");
                d.append(parent);
                d.append("\"");
                d
            };
            push_rm(out, key_path_text(path, key), String::from_str("<absent>"), key.to_owned(), description);
        }
        proof {
            assert(rms_view(out@) =~= start + unexpected_keys(schema@, pre, fv, parent@, path@));
        }
        k += 1;
    }
    proof {
        assert(ev.subrange(0, entries@.len() as int) =~= ev);
    }
}

/// Appends the mismatches of a value that should be an object of type `parent` (see
/// `resp_object`).
pub fn validate_object(
    schema: &SchemaIndex,
    selections: &Vec<Selection>,
    parent: &str,
    value: &Json,
    path: &str,
    out: &mut Vec<ResponseMismatch>,
)
    requires
        schema.wf(),
    ensures
        rms_view(final(out)@) == rms_view(old(out)@) + resp_object(schema@, crate::ast::selections_view(selections@), parent@, value@, path@),
    decreases *value, 2nat,
{
    let ghost sel = crate::ast::selections_view(selections@);
    let entries = match value {
        Json::Object(es) => es,
        _ => {
            push_rm(out, path.to_owned(), String::from_str("object"), json_kind(value).to_owned(), cat3("expected an object for type `", parent, "`"));
            return;
        },
    };
    let ghost ev = json_entries_view(entries@);
    let fields = collect_fields(selections, "");
    let ghost fv = collected_view(fields@);
    proof {
        reveal_strlit("");
        assert(""@ =~= Seq::<char>::empty());
        assert(fv == collect_fields_spec(sel, Seq::empty()));
    }
    push_unexpected_keys(schema, entries, &fields, parent, path, out);
    let ghost mid = rms_view(out@);
    let mut i: usize = 0;
    assert(fv.subrange(0, 0) =~= Seq::<(Seq<char>, SpecSelection)>::empty());
    assert(mid + Seq::<SpecResponseMismatch>::empty() =~= mid);
    while i < fields.len()
        invariant
            i <= fields@.len(),
            schema.wf(),
            ev == json_entries_view(entries@),
            value@ == SpecJson::Object(ev),
            *value == Json::Object(*entries),
            fv == collected_view(fields@),
            rms_view(out@) == mid + resp_fields(schema@, fv.subrange(0, i as int), parent@, ev, path@),
        decreases fields.len() - i,
    {
        let ghost pre = fv.subrange(0, i + 1);
        proof {
            assert(pre.drop_last() =~= fv.subrange(0, i as int));
            assert(pre.last() == fv[i as int]);
        }
        let key = fields[i].0.as_str();
        let field: &Field = fields[i].1;
        let ghost before = rms_view(out@);
        let ghost fsel = Selection::Field(*field)@;
        proof {
            assert(fv[i as int] == (key@, fsel));
            assert(field_name_spec(fsel) == field.name@);
            assert(sub_selections(fsel) == crate::ast::selections_view(field.selection_set.items@));
        }
        let ghost piece = if field.name@ == "__typename"@ {
            Seq::<SpecResponseMismatch>::empty()
        } else {
            match crate::schema_index::field_type_spec(schema@, parent@, field.name@) {
                None => Seq::<SpecResponseMismatch>::empty(),
                Some(rt) => match entry_index(ev, key@) {
                    None => seq![rm(key_path(path@, key@), key@, "<absent>"@, "`"@ + key@ + "` was requested by the operation but is missing"@)],
                    Some(j) => resp_value(schema@, rt, sub_selections(fsel), ev[j].1, key_path(path@, key@)),
                },
            }
        };
        proof {
            assert(resp_fields(schema@, pre, parent@, ev, path@) == resp_fields(schema@, fv.subrange(0, i as int), parent@, ev, path@) + piece);
        }
        if !str_eq(field.name.as_str(), "__typename") {
            match schema.field_return_type(parent, field.name.as_str()) {
                None => {},
                Some(return_type) => {
                    let field_path = key_path_text(path, key);
                    match find_entry(entries, key) {
                        None => {
                            push_rm(out, field_path, key.to_owned(), String::from_str("<absent>"),
                                cat3("`", key, "` was requested by the operation but is missing"));
                            proof {
                                assert(piece == seq![rm(key_path(path@, key@), key@, "<absent>"@, "`"@ + key@ + "` was requested by the operation but is missing"@)]);
                                assert(rms_view(out@) =~= before + piece);
                            }
                        },
                        Some(ix) => {
                            proof {
                                lemma_entry_index(ev, key@);
                                assert(ev[ix as int] == (entries@[ix as int].0@, entries@[ix as int].1@));
                                assert(decreases_to!(*value => *entries));
                                assert(decreases_to!(*entries => entries[ix as int]));
                            }
                            validate_value(schema, return_type, &field.selection_set.items, &entries[ix].1, field_path.as_str(), out);
                            proof {
                                assert(entry_index(ev, key@) == Some(ix as int));
                                assert(crate::schema_index::field_type_spec(schema@, parent@, field.name@) == Some(return_type@));
                                assert(field.name@ != "__typename"@);
                                assert(piece == resp_value(schema@, return_type@, sub_selections(fsel), ev[ix as int].1, key_path(path@, key@)));
                                assert(rms_view(out@) =~= before + piece);
                            }
                        },
                    }
                },
            }
        }
        proof {
            assert(rms_view(out@) =~= before + piece);
            assert(rms_view(out@) =~= mid + resp_fields(schema@, pre, parent@, ev, path@));
        }
        i += 1;
    }
    proof {
        assert(fv.subrange(0, fields@.len() as int) =~= fv);
    }
}

/// Appends the mismatches of `errors` (see `errors_spec`).
fn validate_errors(errors: &Json, out: &mut Vec<ResponseMismatch>)
    ensures
        rms_view(final(out)@) == rms_view(old(out)@) + errors_spec(errors@),
{
    let items = match errors {
        Json::List(items) => items,
        _ => {
            push_rm(out, String::from_str("$.errors"), String::from_str("list"), json_kind(errors).to_owned(), String::from_str("`errors` must be a list"));
            return;
        },
    };
    let ghost iv = json_items_view(items@);
    let ghost start = rms_view(out@);
    let mut i: usize = 0;
    assert(iv.subrange(0, 0) =~= Seq::<SpecJson>::empty());
    assert(start + Seq::<SpecResponseMismatch>::empty() =~= start);
    while i < items.len()
        invariant
            i <= items@.len(),
            iv == json_items_view(items@),
            rms_view(out@) == start + error_entries(iv.subrange(0, i as int)),
        decreases items.len() - i,
    {
        let ghost pre = iv.subrange(0, i + 1);
        proof {
            assert(pre.drop_last() =~= iv.subrange(0, i as int));
            assert(pre.last() == iv[i as int]);
            assert(iv[i as int] == items@[i as int]@);
        }
        let path = index_path_text("$.errors", i);
        match &items[i] {
            Json::Object(es) => match object_get(es, "message") {
                Some(Json::Str(_)) => {},
                other => {
                    let actual: &str = match other {
                        Some(x) => json_kind(x),
                        None => "absent",
                    };
                    push_rm(out, cat2(path.as_str(), ".message"), String::from_str("string"), actual.to_owned(),
                        String::from_str("each GraphQL error requires a string `message`"));
                },
            },
            other => {
                push_rm(out, path, String::from_str("object"), json_kind(other).to_owned(), String::from_str("each GraphQL error must be an object"));
            },
        }
        proof {
            assert(rms_view(out@) =~= start + error_entries(pre));
        }
        i += 1;
    }
    proof {
        assert(iv.subrange(0, items@.len() as int) =~= iv);
    }
}

/// Validates a response to the selected operation of `doc` (see `validate_response_spec`).
pub fn validate_response_document(schema: &SchemaIndex, doc: &QueryDocument, operation_name: Option<&str>, response: &Json) -> (r: Fallible<Vec<ResponseMismatch>>)
    requires
        schema.wf(),
    ensures
        match validate_response_spec(schema@, doc.definitions@, match operation_name { Some(n) => Some(n@), None => None }, response@) {
            Ok(ms) => r matches Ok(v) && rms_view(v@) == ms,
            Err(m) => r matches Err(e) && e@ == seq![m],
        },
{
    let operation = inline_operation(doc, operation_name)?;
    let kind = crate::validation::operation_kind(&operation);
    let root = match schema.root_type(kind) {
        Some(r) => r.to_owned(),
        None => {
            return Err(Error::msg(String::from_str("schema has no root type for this operation")));
        },
    };
    let mut out: Vec<ResponseMismatch> = Vec::new();
    assert(rms_view(out@) =~= Seq::<SpecResponseMismatch>::empty());
    let entries = match response {
        Json::Object(es) => es,
        _ => {
            push_rm(&mut out, String::from_str("$"), String::from_str("object"), json_kind(response).to_owned(),
                String::from_str("a GraphQL response must be a JSON object"));
            return Ok(out);
        },
    };
    let ghost ev = json_entries_view(entries@);
    let mut k: usize = 0;
    assert(ev.subrange(0, 0) =~= Seq::<(Seq<char>, SpecJson)>::empty());
    while k < entries.len()
        invariant
            k <= entries@.len(),
            ev == json_entries_view(entries@),
            rms_view(out@) == bad_keys(ev.subrange(0, k as int)),
        decreases entries.len() - k,
    {
        let ghost pre = ev.subrange(0, k + 1);
        proof {
            assert(pre.drop_last() =~= ev.subrange(0, k as int));
            assert(pre.last() == ev[k as int]);
            assert(ev[k as int] == (entries@[k as int].0@, entries@[k as int].1@));
        }
        let key = entries[k].0.as_str();
        if !(str_eq(key, "data") || str_eq(key, "errors") || str_eq(key, "extensions")) {
            let description = cat3("`", key, "` is not a valid GraphQL response key");
            push_rm(&mut out, cat2("$.", key), String::from_str("one of data, errors, extensions"), key.to_owned(), description);
        }
        proof {
            assert(rms_view(out@) =~= bad_keys(pre));
        }
        k += 1;
    }
    proof {
        assert(ev.subrange(0, entries@.len() as int) =~= ev);
    }
    let ghost after_keys = rms_view(out@);
    let data = object_get(entries, "data");
    let errors = object_get(entries, "errors");
    if data.is_none() && errors.is_none() {
        push_rm(&mut out, String::from_str("$"), String::from_str("data or errors"), String::from_str("neither"),
            String::from_str("a GraphQL response must contain `data`, `errors`, or both"));
    }
    let ghost after_presence = rms_view(out@);
    proof {
        assert(after_presence =~= after_keys + (if entry_get(ev, "data"@) is None && entry_get(ev, "errors"@) is None {
            seq![rm("$"@, "data or errors"@, "neither"@, "a GraphQL response must contain `data`, `errors`, or both"@)]
        } else {
            Seq::<SpecResponseMismatch>::empty()
        }));
    }
    match errors {
        Some(e) => {
            validate_errors(e, &mut out);
        },
        None => {},
    }
    let ghost after_errors = rms_view(out@);
    proof {
        assert(after_errors =~= after_presence + match entry_get(ev, "errors"@) {
            Some(e) => errors_spec(e),
            None => Seq::<SpecResponseMismatch>::empty(),
        });
    }
    match data {
        None | Some(Json::Null) => {},
        Some(d) => {
            validate_object(schema, &operation.selection_set.items, root.as_str(), d, "$.data", &mut out);
        },
    }
    proof {
        assert(rms_view(out@) =~= after_errors + match entry_get(ev, "data"@) {
            None | Some(SpecJson::Null) => Seq::<SpecResponseMismatch>::empty(),
            Some(d) => resp_object(schema@, operation.selection_set@, root@, d, "$.data"@),
        });
    }
    Ok(out)
}


/// Validation of a response against a query text: the text read as a GraphQL document (its
/// parser's message under "failed to parse GraphQL query document" when it is not one), then
/// the response checked against the selected operation (see `validate_response_spec`).
pub open spec fn validate_response_text_spec(
    idx: SpecSchemaIndex,
    query: Seq<char>,
    name: Option<Seq<char>>,
    response: SpecJson,
) -> Result<Seq<SpecResponseMismatch>, Seq<Seq<char>>> {
    match query_reading(query) {
        Err(m) => Err(seq!["failed to parse GraphQL query document"@, m]),
        Ok(doc) => match validate_response_spec(idx, doc.definitions@, name, response) {
            Ok(ms) => Ok(ms),
            Err(m) => Err(seq![m]),
        },
    }
}

/// The mismatches of a response against a query text and a schema (see
/// `validate_response_text_spec`).
pub fn validate_response(schema: &SchemaIndex, query_document: &str, operation_name: Option<&str>, response: &Json) -> (r: Fallible<Vec<ResponseMismatch>>)
    requires
        schema.wf(),
    ensures
        match validate_response_text_spec(schema@, query_document@, match operation_name { Some(n) => Some(n@), None => None }, response@) {
            Ok(ms) => r matches Ok(v) && rms_view(v@) == ms,
            Err(m) => r matches Err(e) && e@ == m,
        },
{
    let doc = match read_query(query_document) {
        Ok(d) => d,
        Err(m) => {
            return Err(Error::msg(m).context(String::from_str("failed to parse GraphQL query document")));
        },
    };
    validate_response_document(schema, &doc, operation_name, response)
}


/// The built-in scalar names are distinct texts.
proof fn lemma_response_scalar_names_distinct()
    ensures
        "Int"@.len() == 3,
        "Float"@.len() == 5,
        "String"@.len() == 6,
        "ID"@.len() == 2,
        "Boolean"@.len() == 7,
{
    reveal_strlit("Int");
    reveal_strlit("Float");
    reveal_strlit("String");
    reveal_strlit("ID");
    reveal_strlit("Boolean");
}

/// A response value (not null) for a field whose declared type (not a list) names one of the
/// schema's scalars gives no mismatch exactly when it is of that scalar's JSON form: `Int` an
/// integer number, `Float` any number, `Boolean` a boolean, `String` and `ID` a string; a
/// custom scalar takes any value. Otherwise it gives exactly one mismatch, at the value's
/// path.
pub proof fn lemma_builtin_scalar_responses(
    idx: SpecSchemaIndex,
    t: SpecTypeRef,
    named: Seq<char>,
    sel: Seq<SpecSelection>,
    v: SpecJson,
    path: Seq<char>,
)
    requires
        list_item_spec(t) is None,
        named == innermost_named_spec(unwrap_non_null_spec(t)),
        idx.types.contains_key(named),
        idx.types[named] is Scalar,
        !(v is Null),
    ensures
        named == "Int"@ ==> (resp_value(idx, t, sel, v, path).len() == 0 <==> v matches SpecJson::Number(Some(_), _)),
        named == "Float"@ ==> (resp_value(idx, t, sel, v, path).len() == 0 <==> v is Number),
        named == "Boolean"@ ==> (resp_value(idx, t, sel, v, path).len() == 0 <==> v is Bool),
        named == "String"@ ==> (resp_value(idx, t, sel, v, path).len() == 0 <==> v is Str),
        named == "ID"@ ==> (resp_value(idx, t, sel, v, path).len() == 0 <==> v is Str),
        named != "Int"@ && named != "Float"@ && named != "String"@ && named != "ID"@ && named != "Boolean"@
            ==> resp_value(idx, t, sel, v, path).len() == 0,
        resp_value(idx, t, sel, v, path).len() <= 1,
        resp_value(idx, t, sel, v, path).len() == 1 ==> resp_value(idx, t, sel, v, path)[0].path == path,
{
    lemma_response_scalar_names_distinct();
}


/// A response value (not null) for a field whose declared type (not a list) names an enum
/// gives no mismatch exactly when it is a string naming one of the enum's members; otherwise
/// it gives exactly one mismatch, at the value's path.
pub proof fn lemma_enum_responses(idx: SpecSchemaIndex, t: SpecTypeRef, named: Seq<char>, sel: Seq<SpecSelection>, v: SpecJson, path: Seq<char>)
    requires
        list_item_spec(t) is None,
        named == innermost_named_spec(unwrap_non_null_spec(t)),
        idx.types.contains_key(named),
        idx.types[named] is Enum,
        !(v is Null),
    ensures
        resp_value(idx, t, sel, v, path).len() == 0 <==> (v matches SpecJson::Str(m) && idx.types[named]->Enum_values.contains(m)),
        resp_value(idx, t, sel, v, path).len() <= 1,
        resp_value(idx, t, sel, v, path).len() == 1 ==> resp_value(idx, t, sel, v, path)[0].path == path,
{
}

} // verus!
