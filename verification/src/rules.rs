//! Matching rules derived from the schema for the values of a response: an enum member is
//! matched by a regex over the enum's members, any other scalar by its JSON type.
use vstd::prelude::*;

use crate::ast::{innermost_named_spec, list_item_spec, unwrap_non_null_spec, Field, Selection, SpecSelection, SpecTypeRef, TypeRef};
use crate::error::{Error, Fallible};
use crate::json::{entry_get, json_entries_view, json_items_view, object_get, Json, SpecJson};
use crate::order::set_listing;
use crate::query_ast::{
    collect_fields, collect_fields_spec, collected_view, field_name_spec, parse_and_inline, parse_and_inline_text_spec,
    sub_selections,
};
use crate::response::{entry_index, key_path, lemma_entry_index};
use crate::schema_index::{field_type_spec, is_composite_spec, root_type_spec, SchemaIndex, SpecSchemaIndex};
use crate::text::{cat2, cat3, join_spec, str_eq};
use crate::validation::{listing_joined, operation_kind_spec};

verus! {

broadcast use vstd::std_specs::vec::group_vec_axioms;

/// A matching rule for a value of a response.
#[derive(Debug)]
pub enum DerivedRule {
    /// Pact `type` matcher: the same JSON type, any value.
    Type,
    /// Pact `regex` matcher with the given pattern.
    Regex(String),
}

pub enum SpecRule {
    Type,
    Regex(Seq<char>),
}

impl View for DerivedRule {
    type V = SpecRule;

    open spec fn view(&self) -> SpecRule {
        match self {
            DerivedRule::Type => SpecRule::Type,
            DerivedRule::Regex(p) => SpecRule::Regex(p@),
        }
    }
}

pub open spec fn rules_view(rs: Seq<(String, DerivedRule)>) -> Seq<(Seq<char>, SpecRule)> {
    Seq::new(rs.len(), |i: int| (rs[i].0@, rs[i].1@))
}

/// The regex a member of the enum with members `values` matches: `^(A|B|...)$`, members in
/// order.
pub open spec fn enum_regex(values: Set<Seq<char>>) -> Seq<char> {
    "^("@ + join_spec(set_listing(values), "|"@) + ")$"@
}

/// `path[*]`: every element of a list.
pub open spec fn any_index_path(path: Seq<char>) -> Seq<char> {
    path + "[*]"@
}

/// The rules for a value of a field's declared type, `sel` being the field's selections: none
/// for null; a list's first element stands for every element (`[*]`); an object's selected
/// fields in turn; an enum member a regex over the enum's members; any other scalar a type
/// rule.
pub open spec fn rules_value(idx: SpecSchemaIndex, t: SpecTypeRef, sel: Seq<SpecSelection>, v: SpecJson, path: Seq<char>) -> Seq<(Seq<char>, SpecRule)>
    decreases v, 3nat,
{
    match v {
        SpecJson::Null => Seq::empty(),
        _ => match list_item_spec(t) {
            Some(item) => match v {
                SpecJson::List(items) => if items.len() > 0 {
                    rules_value(idx, item, sel, items[0], any_index_path(path))
                } else {
                    Seq::empty()
                },
                _ => Seq::empty(),
            },
            None => {
                let named = innermost_named_spec(unwrap_non_null_spec(t));
                if is_composite_spec(idx, named) {
                    rules_object(idx, sel, named, v, path)
                } else if idx.types.contains_key(named) && idx.types[named] is Enum {
                    seq![(path, SpecRule::Regex(enum_regex(idx.types[named]->Enum_values)))]
                } else {
                    seq![(path, SpecRule::Type)]
                }
            },
        },
    }
}

/// The rules for a value that should be an object of type `parent`: those of each selected
/// field the object holds, in order; nothing for any other value.
pub open spec fn rules_object(idx: SpecSchemaIndex, sel: Seq<SpecSelection>, parent: Seq<char>, v: SpecJson, path: Seq<char>) -> Seq<(Seq<char>, SpecRule)>
    decreases v, 2nat,
{
    match v {
        SpecJson::Object(es) => rules_fields(idx, collect_fields_spec(sel, Seq::empty()), parent, es, path),
        _ => Seq::empty(),
    }
}

/// The rules of each selected field (but `__typename`, fields the schema does not declare and
/// fields the object does not hold).
pub open spec fn rules_fields(
    idx: SpecSchemaIndex,
    fields: Seq<(Seq<char>, SpecSelection)>,
    parent: Seq<char>,
    es: Seq<(Seq<char>, SpecJson)>,
    path: Seq<char>,
) -> Seq<(Seq<char>, SpecRule)>
    decreases es, fields.len(),
{
    if fields.len() == 0 {
        Seq::empty()
    } else {
        let (key, f) = fields.last();
        let name = field_name_spec(f);
        rules_fields(idx, fields.drop_last(), parent, es, path) + if name == "__typename"@ {
            Seq::empty()
        } else {
            match field_type_spec(idx, parent, name) {
                None => Seq::empty(),
                Some(rt) => match entry_index(es, key) {
                    None => Seq::empty(),
                    Some(i) => {
                        proof {
                            lemma_entry_index(es, key);
                        }
                        rules_value(idx, rt, sub_selections(f), es[i].1, key_path(path, key))
                    },
                },
            }
        }
    }
}

/// The rules derived for a response to the selected operation of a query: those of `data`
/// (unless absent or null) from the operation's root type, each under its path; a later rule
/// for the same path takes the place of an earlier one.
pub open spec fn derive_rules_spec(idx: SpecSchemaIndex, query: Seq<char>, name: Option<Seq<char>>, response: SpecJson) -> Result<Seq<(Seq<char>, SpecRule)>, Seq<Seq<char>>> {
    match parse_and_inline_text_spec(query, name) {
        Err(m) => Err(m),
        Ok(op) => match root_type_spec(idx, operation_kind_spec(op.operation_type)) {
            None => Err(seq!["schema has no root type for this operation"@]),
            Some(root) => Ok(match response {
                SpecJson::Object(es) => match entry_get(es, "data"@) {
                    None | Some(SpecJson::Null) => Seq::empty(),
                    Some(d) => rules_object(idx, op.selection_set, root, d, "$.data"@),
                },
                _ => Seq::empty(),
            }),
        },
    }
}

fn push_rule(out: &mut Vec<(String, DerivedRule)>, path: String, rule: DerivedRule)
    ensures
        rules_view(final(out)@) == rules_view(old(out)@).push((path@, rule@)),
{
    out.push((path, rule));
    assert(rules_view(out@) =~= rules_view(old(out)@).push((path@, rule@)));
}

/// Appends the rules for a value of a field's type (see `rules_value`).
fn derive_value(
    schema: &SchemaIndex,
    type_ref: &TypeRef,
    selections: &Vec<Selection>,
    value: &Json,
    path: &str,
    out: &mut Vec<(String, DerivedRule)>,
)
    requires
        schema.wf(),
    ensures
        rules_view(final(out)@) == rules_view(old(out)@) + rules_value(schema@, type_ref@, crate::ast::selections_view(selections@), value@, path@),
    decreases *value, 3nat,
{
    let ghost sel = crate::ast::selections_view(selections@);
    if let Json::Null = value {
        assert(rules_view(out@) + Seq::<(Seq<char>, SpecRule)>::empty() =~= rules_view(out@));
        return;
    }
    match type_ref.as_list_item() {
        Some(item_type) => {
            match value {
                Json::List(items) => {
                    if items.len() > 0 {
                        proof {
                            assert(json_items_view(items@)[0] == items@[0]@);
                            assert(decreases_to!(*value => *items));
                            assert(decreases_to!(*items => items[0]));
                        }
                        let item_path = cat2(path, "[*]");
                        derive_value(schema, item_type, selections, &items[0], item_path.as_str(), out);
                    } else {
                        assert(rules_view(out@) + Seq::<(Seq<char>, SpecRule)>::empty() =~= rules_view(out@));
                    }
                },
                _ => {
                    assert(rules_view(out@) + Seq::<(Seq<char>, SpecRule)>::empty() =~= rules_view(out@));
                },
            }
            return;
        },
        None => {},
    }
    let named = match type_ref.unwrap_non_null().innermost_named() {
        Some(n) => n,
        None => {
            return;
        },
    };
    if schema.is_composite_type(named) {
        derive_object(schema, selections, named, value, path, out);
        return;
    }
    match schema.enum_values(named) {
        Some(members) => {
            let listing = listing_joined(members, "|");
            let pattern = cat3("^(", listing.as_str(), ")$");
            push_rule(out, path.to_owned(), DerivedRule::Regex(pattern));
            assert(rules_view(out@) =~= rules_view(old(out)@) + rules_value(schema@, type_ref@, sel, value@, path@));
            return;
        },
        None => {},
    }
    push_rule(out, path.to_owned(), DerivedRule::Type);
    assert(rules_view(out@) =~= rules_view(old(out)@) + rules_value(schema@, type_ref@, sel, value@, path@));
}

/// Appends the rules for a value that should be an object of type `parent` (see
/// `rules_object`).
fn derive_object(
    schema: &SchemaIndex,
    selections: &Vec<Selection>,
    parent: &str,
    value: &Json,
    path: &str,
    out: &mut Vec<(String, DerivedRule)>,
)
    requires
        schema.wf(),
    ensures
        rules_view(final(out)@) == rules_view(old(out)@) + rules_object(schema@, crate::ast::selections_view(selections@), parent@, value@, path@),
    decreases *value, 2nat,
{
    let ghost sel = crate::ast::selections_view(selections@);
    let entries = match value {
        Json::Object(es) => es,
        _ => {
            assert(rules_view(out@) + Seq::<(Seq<char>, SpecRule)>::empty() =~= rules_view(out@));
            return;
        },
    };
    let ghost ev = json_entries_view(entries@);
    let fields = collect_fields(selections, "");
    let ghost fv = collected_view(fields@);
    proof {
        reveal_strlit("");
        assert(""@ =~= Seq::<char>::empty());
        assert(fv == collect_fields_spec(sel, Seq::empty()));
    }
    let ghost start = rules_view(out@);
    let mut i: usize = 0;
    assert(fv.subrange(0, 0) =~= Seq::<(Seq<char>, SpecSelection)>::empty());
    assert(start + Seq::<(Seq<char>, SpecRule)>::empty() =~= start);
    while i < fields.len()
        invariant
            i <= fields@.len(),
            schema.wf(),
            ev == json_entries_view(entries@),
            value@ == SpecJson::Object(ev),
            *value == Json::Object(*entries),
            fv == collected_view(fields@),
            rules_view(out@) == start + rules_fields(schema@, fv.subrange(0, i as int), parent@, ev, path@),
        decreases fields.len() - i,
    {
        let ghost pre = fv.subrange(0, i + 1);
        proof {
            assert(pre.drop_last() =~= fv.subrange(0, i as int));
            assert(pre.last() == fv[i as int]);
        }
        let key = fields[i].0.as_str();
        let field: &Field = fields[i].1;
        let ghost before = rules_view(out@);
        let ghost fsel = Selection::Field(*field)@;
        proof {
            assert(fv[i as int] == (key@, fsel));
            assert(field_name_spec(fsel) == field.name@);
            assert(sub_selections(fsel) == crate::ast::selections_view(field.selection_set.items@));
        }
        let ghost piece = if field.name@ == "__typename"@ {
            Seq::<(Seq<char>, SpecRule)>::empty()
        } else {
            match field_type_spec(schema@, parent@, field.name@) {
                None => Seq::<(Seq<char>, SpecRule)>::empty(),
                Some(rt) => match entry_index(ev, key@) {
                    None => Seq::<(Seq<char>, SpecRule)>::empty(),
                    Some(j) => rules_value(schema@, rt, sub_selections(fsel), ev[j].1, key_path(path@, key@)),
                },
            }
        };
        proof {
            assert(rules_fields(schema@, pre, parent@, ev, path@) == rules_fields(schema@, fv.subrange(0, i as int), parent@, ev, path@) + piece);
        }
        if !str_eq(field.name.as_str(), "__typename") {
            match schema.field_return_type(parent, field.name.as_str()) {
                None => {},
                Some(return_type) => {
                    match crate::response::find_entry(entries, key) {
                        None => {},
                        Some(ix) => {
                            proof {
                                lemma_entry_index(ev, key@);
                                assert(ev[ix as int] == (entries@[ix as int].0@, entries@[ix as int].1@));
                                assert(decreases_to!(*value => *entries));
                                assert(decreases_to!(*entries => entries[ix as int]));
                            }
                            let field_path = cat3(path, ".", key);
                            derive_value(schema, return_type, &field.selection_set.items, &entries[ix].1, field_path.as_str(), out);
                            proof {
                                assert(entry_index(ev, key@) == Some(ix as int));
                                assert(field_type_spec(schema@, parent@, field.name@) == Some(return_type@));
                                assert(field.name@ != "__typename"@);
                                assert(piece == rules_value(schema@, return_type@, sub_selections(fsel), ev[ix as int].1, key_path(path@, key@)));
                            }
                        },
                    }
                },
            }
        }
        proof {
            assert(rules_view(out@) =~= before + piece);
            assert(rules_view(out@) =~= start + rules_fields(schema@, pre, parent@, ev, path@));
        }
        i += 1;
    }
    proof {
        assert(fv.subrange(0, fields@.len() as int) =~= fv);
    }
}

/// The matching rules derived for a response to the selected operation of `query_document`
/// (see `derive_rules_spec`), in the order they are found.
pub fn derive_matching_rules(
    schema: &SchemaIndex,
    query_document: &str,
    operation_name: Option<&str>,
    response: &Json,
) -> (r: Fallible<Vec<(String, DerivedRule)>>)
    requires
        schema.wf(),
    ensures
        match derive_rules_spec(schema@, query_document@, match operation_name { Some(n) => Some(n@), None => None }, response@) {
            Ok(rs) => r matches Ok(v) && rules_view(v@) == rs,
            Err(m) => r matches Err(e) && e@ == m,
        },
{
    let operation = parse_and_inline(query_document, operation_name)?;
    let kind = crate::validation::operation_kind(&operation);
    let root = match schema.root_type(kind) {
        Some(r) => r.to_owned(),
        None => {
            return Err(Error::msg(String::from_str("schema has no root type for this operation")));
        },
    };
    let mut out: Vec<(String, DerivedRule)> = Vec::new();
    assert(rules_view(out@) =~= Seq::<(Seq<char>, SpecRule)>::empty());
    if let Json::Object(entries) = response {
        match object_get(entries, "data") {
            None | Some(Json::Null) => {},
            Some(data) => {
                derive_object(schema, &operation.selection_set.items, root.as_str(), data, "$.data", &mut out);
                assert(rules_view(out@) =~= Seq::<(Seq<char>, SpecRule)>::empty() + rules_object(
                    schema@,
                    crate::ast::selections_view(operation.selection_set.items@),
                    root@,
                    data@,
                    "$.data"@,
                ));
            },
        }
    }
    Ok(out)
}

} // verus!
