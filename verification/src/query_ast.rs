//! Operation selection, fragment inlining and structural comparison of query documents.
use vstd::prelude::*;

use crate::ast::{
    clone_arguments, clone_directives, clone_opt_string, clone_variable_definitions, opt_str_view,
    selections_view, Definition, Field, FragmentDefinition, InlineFragment, OperationDefinition,
    QueryDocument, Selection, SelectionSet, SpecOperation, SpecSelection, OperationType,
};
use crate::error::{Error, Fallible};
use crate::text::join_spec;
use crate::text::{cat3, cat4, str_eq};
use crate::graphql_text::{operation_text, print_operation, query_reading, read_query};

verus! {

broadcast use vstd::std_specs::vec::group_vec_axioms;

/// The number of selection nodes in a selection.
pub open spec fn sel_size(s: SpecSelection) -> nat
    decreases s,
{
    match s {
        SpecSelection::Field { selection_set, .. } => 1 + sels_size(selection_set),
        SpecSelection::FragmentSpread { .. } => 1,
        SpecSelection::InlineFragment { selection_set, .. } => 1 + sels_size(selection_set),
    }
}

/// The number of selection nodes in a sequence of selections.
pub open spec fn sels_size(items: Seq<SpecSelection>) -> nat
    decreases items,
{
    if items.len() == 0 {
        0
    } else {
        sels_size(items.drop_last()) + sel_size(items.last())
    }
}

pub proof fn lemma_sel_size_pos(s: SpecSelection)
    ensures
        sel_size(s) >= 1,
{
}

/// The operations of a document, in order.
pub open spec fn operations_of(defs: Seq<Definition>) -> Seq<OperationDefinition>
    decreases defs.len(),
{
    if defs.len() == 0 {
        Seq::empty()
    } else {
        let rest = operations_of(defs.drop_last());
        match defs.last() {
            Definition::Operation(op) => rest.push(op),
            Definition::Fragment(_) => rest,
        }
    }
}

/// The fragment a spread of `name` refers to: the last fragment of that name.
pub open spec fn fragment_named(defs: Seq<Definition>, name: Seq<char>) -> Option<FragmentDefinition>
    decreases defs.len(),
{
    if defs.len() == 0 {
        None
    } else {
        match defs.last() {
            Definition::Fragment(f) if f.name@ == name => Some(f),
            _ => fragment_named(defs.drop_last(), name),
        }
    }
}

/// The number of fragment definitions of a document.
pub open spec fn fragment_count(defs: Seq<Definition>) -> nat
    decreases defs.len(),
{
    if defs.len() == 0 {
        0
    } else {
        fragment_count(defs.drop_last()) + match defs.last() {
            Definition::Fragment(_) => 1nat,
            Definition::Operation(_) => 0nat,
        }
    }
}

/// The names of the fragment definitions of a document, in order.
pub open spec fn fragment_names(defs: Seq<Definition>) -> Seq<Seq<char>>
    decreases defs.len(),
{
    if defs.len() == 0 {
        Seq::empty()
    } else {
        let rest = fragment_names(defs.drop_last());
        match defs.last() {
            Definition::Fragment(f) => rest.push(f.name@),
            Definition::Operation(_) => rest,
        }
    }
}

/// The fragments being expanded: distinct, and each defined in the document.
pub open spec fn stack_ok(defs: Seq<Definition>, stack: Seq<Seq<char>>) -> bool {
    &&& stack.no_duplicates()
    &&& forall|i: int| 0 <= i < stack.len() ==> fragment_named(defs, #[trigger] stack[i]) is Some
}

/// The message for a spread of `next` while `cycle` (outermost first) is being expanded.
pub open spec fn cycle_message(cycle: Seq<Seq<char>>, next: Seq<char>) -> Seq<char> {
    "fragment `"@ + next + "` forms a cycle: "@ + join_spec(cycle.push(next), " -> "@)
}

/// The message for a spread of an undefined fragment.
pub open spec fn missing_fragment_message(name: Seq<char>) -> Seq<char> {
    "fragment `"@ + name + "` is not defined in the document"@
}

/// The selections with every fragment spread replaced by the fragment's own (inlined)
/// selections; inline fragments and fields keep their place. `stack` holds the fragments
/// being expanded; a spread that re-enters one of them is a cycle.
pub open spec fn inline_items_spec(items: Seq<SpecSelection>, defs: Seq<Definition>, stack: Seq<Seq<char>>) -> Result<
    Seq<SpecSelection>,
    Seq<char>,
>
    decreases fragment_count(defs) - stack.len(), sels_size(items), 1nat,
    when stack_ok(defs, stack)
{
    if items.len() == 0 {
        Ok(Seq::empty())
    } else {
        proof {
            lemma_sel_size_pos(items.last());
        }
        match inline_items_spec(items.drop_last(), defs, stack) {
            Err(e) => Err(e),
            Ok(done) => match inline_one_spec(items.last(), defs, stack) {
                Err(e) => Err(e),
                Ok(more) => Ok(done + more),
            },
        }
    }
}

/// One selection, inlined (see `inline_items_spec`).
pub open spec fn inline_one_spec(s: SpecSelection, defs: Seq<Definition>, stack: Seq<Seq<char>>) -> Result<
    Seq<SpecSelection>,
    Seq<char>,
>
    decreases fragment_count(defs) - stack.len(), sel_size(s), 0nat,
    when stack_ok(defs, stack)
{
    match s {
        SpecSelection::Field { alias, name, arguments, directives, selection_set } => match inline_items_spec(selection_set, defs, stack) {
            Err(e) => Err(e),
            Ok(inner) => Ok(seq![SpecSelection::Field { alias, name, arguments, directives, selection_set: inner }]),
        },
        SpecSelection::InlineFragment { type_condition, directives, selection_set } => match inline_items_spec(selection_set, defs, stack) {
            Err(e) => Err(e),
            Ok(inner) => Ok(seq![SpecSelection::InlineFragment { type_condition, directives, selection_set: inner }]),
        },
        SpecSelection::FragmentSpread { fragment_name, .. } => if stack.contains(fragment_name) {
            Err(cycle_message(stack.subrange(stack.index_of(fragment_name), stack.len() as int), fragment_name))
        } else {
            match fragment_named(defs, fragment_name) {
                None => Err(missing_fragment_message(fragment_name)),
                Some(f) => {
                    proof {
                        lemma_stack_bound(defs, stack, fragment_name);
                    }
                    inline_items_spec(f.selection_set@, defs, stack.push(fragment_name))
                },
            }
        },
    }
}

pub proof fn lemma_fragment_named_in_names(defs: Seq<Definition>, name: Seq<char>)
    ensures
        fragment_named(defs, name) is Some <==> fragment_names(defs).contains(name),
        fragment_names(defs).len() == fragment_count(defs),
    decreases defs.len(),
{
    if defs.len() > 0 {
        lemma_fragment_named_in_names(defs.drop_last(), name);
        let rest = fragment_names(defs.drop_last());
        match defs.last() {
            Definition::Fragment(f) => {
                if f.name@ != name {
                    assert(rest.push(f.name@).contains(name) <==> rest.contains(name)) by {
                        if rest.push(f.name@).contains(name) {
                            let k = choose|k: int| 0 <= k < rest.len() + 1 && rest.push(f.name@)[k] == name;
                            assert(rest[k] == name);
                        }
                        if rest.contains(name) {
                            let k = choose|k: int| 0 <= k < rest.len() && rest[k] == name;
                            assert(rest.push(f.name@)[k] == name);
                        }
                    }
                } else {
                    assert(rest.push(f.name@)[rest.len() as int] == name);
                }
            },
            Definition::Operation(_) => {},
        }
    }
}

/// Pushing a defined fragment that is not yet on the stack keeps the stack no longer than
/// the number of fragments.
pub proof fn lemma_stack_bound(defs: Seq<Definition>, stack: Seq<Seq<char>>, name: Seq<char>)
    requires
        stack_ok(defs, stack),
        !stack.contains(name),
        fragment_named(defs, name) is Some,
    ensures
        stack.len() < fragment_count(defs),
        stack_ok(defs, stack.push(name)),
{
    let pushed = stack.push(name);
    let names = fragment_names(defs);
    lemma_fragment_named_in_names(defs, name);
    assert(pushed.no_duplicates()) by {
        assert forall|i: int, j: int| 0 <= i < pushed.len() && 0 <= j < pushed.len() && i != j implies pushed[i] != pushed[j] by {
            if i < stack.len() && j < stack.len() {
            } else if i == stack.len() {
                assert(pushed[j] == stack[j]);
            } else {
                assert(pushed[i] == stack[i]);
            }
        }
    }
    assert forall|i: int| 0 <= i < pushed.len() implies fragment_named(defs, #[trigger] pushed[i]) is Some by {
        if i < stack.len() {
            assert(pushed[i] == stack[i]);
        }
    }
    assert(pushed.to_set().subset_of(names.to_set())) by {
        assert forall|x: Seq<char>| pushed.to_set().contains(x) implies names.to_set().contains(x) by {
            let k = choose|k: int| 0 <= k < pushed.len() && pushed[k] == x;
            lemma_fragment_named_in_names(defs, x);
        }
    }
    pushed.unique_seq_to_set();
    names.lemma_cardinality_of_set();
    vstd::set_lib::lemma_len_subset(pushed.to_set(), names.to_set());
}


pub proof fn lemma_sels_size_elem(items: Seq<SpecSelection>, i: int)
    requires
        0 <= i < items.len(),
    ensures
        sel_size(items[i]) <= sels_size(items),
    decreases items.len(),
{
    if i < items.len() - 1 {
        lemma_sels_size_elem(items.drop_last(), i);
        assert(items.drop_last()[i] == items[i]);
    }
}

/// An error while inlining a prefix of the selections is the error of the whole.
pub proof fn lemma_inline_prefix_error(items: Seq<SpecSelection>, defs: Seq<Definition>, stack: Seq<Seq<char>>, k: int)
    requires
        stack_ok(defs, stack),
        0 <= k <= items.len(),
        inline_items_spec(items.subrange(0, k), defs, stack) is Err,
    ensures
        inline_items_spec(items, defs, stack) == inline_items_spec(items.subrange(0, k), defs, stack),
    decreases items.len() - k,
{
    if k == items.len() {
        assert(items.subrange(0, k) =~= items);
    } else {
        assert(items.subrange(0, k + 1).drop_last() =~= items.subrange(0, k));
        lemma_inline_prefix_error(items, defs, stack, k + 1);
    }
}

/// The names on the expansion stack, as character sequences.
pub open spec fn stack_view(stack: Seq<String>) -> Seq<Seq<char>> {
    stack.map_values(|s: String| s@)
}

/// The last fragment named `name`.
pub fn find_fragment<'a>(doc: &'a QueryDocument, name: &str) -> (r: Option<&'a FragmentDefinition>)
    ensures
        r matches Some(f) ==> fragment_named(doc.definitions@, name@) == Some(*f),
        r is None ==> fragment_named(doc.definitions@, name@) is None,
{
    let mut i: usize = doc.definitions.len();
    assert(doc.definitions@.subrange(0, i as int) =~= doc.definitions@);
    while i > 0
        invariant
            i <= doc.definitions@.len(),
            fragment_named(doc.definitions@, name@) == fragment_named(doc.definitions@.subrange(0, i as int), name@),
        decreases i,
    {
        let ghost prefix = doc.definitions@.subrange(0, i as int);
        proof {
            assert(prefix.drop_last() =~= doc.definitions@.subrange(0, i - 1));
            assert(prefix.last() == doc.definitions@[i - 1]);
        }
        match &doc.definitions[i - 1] {
            Definition::Fragment(f) => {
                if str_eq(f.name.as_str(), name) {
                    return Some(f);
                }
            },
            Definition::Operation(_) => {},
        }
        i -= 1;
    }
    None
}

/// The position of the first `name` on the stack.
pub fn stack_position(stack: &Vec<String>, name: &str) -> (r: Option<usize>)
    requires
        stack_view(stack@).no_duplicates(),
    ensures
        r matches Some(p) ==> stack_view(stack@).contains(name@) && p as int == stack_view(stack@).index_of(name@) && p < stack@.len(),
        r is None ==> !stack_view(stack@).contains(name@),
{
    let mut i: usize = 0;
    while i < stack.len()
        invariant
            i <= stack@.len(),
            stack_view(stack@).no_duplicates(),
            forall|j: int| 0 <= j < i ==> stack@[j]@ != name@,
        decreases stack.len() - i,
    {
        if str_eq(stack[i].as_str(), name) {
            proof {
                let v = stack_view(stack@);
                assert(v[i as int] == name@);
                assert(v.contains(name@));
                let c = v.index_of(name@);
                assert(0 <= c < v.len() && v[c] == name@);
                if c != i {
                    assert(v[c] == v[i as int]);
                    assert(v.no_duplicates());
                    assert(false);
                }
            }
            return Some(i);
        }
        i += 1;
    }
    proof {
        let v = stack_view(stack@);
        if v.contains(name@) {
            let k = choose|k: int| 0 <= k < v.len() && v[k] == name@;
            assert(stack@[k]@ == name@);
        }
    }
    None
}


/// The "fragment forms a cycle" error for a spread of `next` while `stack[pos..]` is being
/// expanded.
pub fn fragment_cycle_error(stack: &Vec<String>, pos: usize, next: &str) -> (e: Error)
    requires
        pos < stack@.len(),
    ensures
        e@ == seq![cycle_message(stack_view(stack@).subrange(pos as int, stack@.len() as int), next@)],
{
    let ghost sv = stack_view(stack@);
    let mut joined = String::new();
    let mut j: usize = pos;
    while j < stack.len()
        invariant
            pos <= j <= stack@.len(),
            pos < stack@.len(),
            sv == stack_view(stack@),
            j > pos ==> joined@ == join_spec(sv.subrange(pos as int, j as int), " -> "@),
            j == pos ==> joined@ == Seq::<char>::empty(),
        decreases stack.len() - j,
    {
        if j > pos {
            joined.append(" -> ");
        }
        joined.append(stack[j].as_str());
        proof {
            let cur = sv.subrange(pos as int, j + 1);
            assert(cur.drop_last() =~= sv.subrange(pos as int, j as int));
            assert(cur.last() == stack@[j as int]@);
            if j == pos {
                assert(cur.len() == 1);
                assert(joined@ =~= cur[0]);
            }
        }
        j += 1;
    }
    joined.append(" -> ");
    joined.append(next);
    proof {
        let cyc = sv.subrange(pos as int, stack@.len() as int);
        assert(cyc.push(next@).drop_last() =~= cyc);
        assert(cyc.push(next@).last() == next@);
    }
    let message = cat4("fragment `", next, "` forms a cycle: ", joined.as_str());
    Error::msg(message)
}

/// Replaces every fragment spread among `items` (at any depth) by the spread fragment's own
/// selections, in place and in order.
pub fn inline_items(items: &Vec<Selection>, doc: &QueryDocument, stack: &mut Vec<String>) -> (r: Fallible<Vec<Selection>>)
    requires
        stack_ok(doc.definitions@, stack_view(old(stack)@)),
    ensures
        final(stack)@ == old(stack)@,
        match inline_items_spec(selections_view(items@), doc.definitions@, stack_view(old(stack)@)) {
            Ok(v) => r matches Ok(out) && selections_view(out@) == v,
            Err(m) => r matches Err(e) && e@ == seq![m],
        },
    decreases fragment_count(doc.definitions@) - stack@.len(), sels_size(selections_view(items@)), 1nat,
{
    let ghost defs = doc.definitions@;
    let ghost st = stack_view(stack@);
    let ghost all = selections_view(items@);
    let mut out: Vec<Selection> = Vec::new();
    let mut i: usize = 0;
    assert(all.subrange(0, 0) =~= Seq::<SpecSelection>::empty());
    assert(selections_view(out@) =~= Seq::<SpecSelection>::empty());
    while i < items.len()
        invariant
            i <= items@.len(),
            defs == doc.definitions@,
            all == selections_view(items@),
            stack@ == old(stack)@,
            st == stack_view(stack@),
            stack_ok(defs, st),
            inline_items_spec(all.subrange(0, i as int), defs, st) == Ok::<Seq<SpecSelection>, Seq<char>>(selections_view(out@)),
        decreases items.len() - i,
    {
        proof {
            assert(all.subrange(0, i + 1).drop_last() =~= all.subrange(0, i as int));
            assert(all.subrange(0, i + 1).last() == all[i as int]);
            assert(all[i as int] == items@[i as int]@);
            lemma_sels_size_elem(all, i as int);
        }
        let res = inline_one(&items[i], doc, stack);
        match res {
            Ok(mut more) => {
                let ghost before = out@;
                let ghost more_view = more@;
                out.append(&mut more);
                proof {
                    crate::ast::lemma_selections_view_concat(before, more_view);
                    assert(out@ =~= before + more_view);
                }
            },
            Err(e) => {
                proof {
                    lemma_inline_prefix_error(all, defs, st, i + 1);
                }
                return Err(e);
            },
        }
        i += 1;
    }
    proof {
        assert(all.subrange(0, items@.len() as int) =~= all);
    }
    Ok(out)
}

/// One selection with its fragment spreads inlined (see `inline_items`).
pub fn inline_one(sel: &Selection, doc: &QueryDocument, stack: &mut Vec<String>) -> (r: Fallible<Vec<Selection>>)
    requires
        stack_ok(doc.definitions@, stack_view(old(stack)@)),
    ensures
        final(stack)@ == old(stack)@,
        match inline_one_spec(sel@, doc.definitions@, stack_view(old(stack)@)) {
            Ok(v) => r matches Ok(out) && selections_view(out@) == v,
            Err(m) => r matches Err(e) && e@ == seq![m],
        },
    decreases fragment_count(doc.definitions@) - stack@.len(), sel_size(sel@), 0nat,
{
    match sel {
        Selection::Field(f) => {
            let inner = inline_items(&f.selection_set.items, doc, stack)?;
            let mut out: Vec<Selection> = Vec::new();
            out.push(Selection::Field(Field {
                alias: clone_opt_string(&f.alias),
                name: f.name.clone(),
                arguments: clone_arguments(&f.arguments),
                directives: clone_directives(&f.directives),
                selection_set: SelectionSet { items: inner },
            }));
            proof {
                assert(selections_view(out@) =~= seq![out@[0]@]);
            }
            Ok(out)
        },
        Selection::InlineFragment(fr) => {
            let inner = inline_items(&fr.selection_set.items, doc, stack)?;
            let mut out: Vec<Selection> = Vec::new();
            out.push(Selection::InlineFragment(InlineFragment {
                type_condition: clone_opt_string(&fr.type_condition),
                directives: clone_directives(&fr.directives),
                selection_set: SelectionSet { items: inner },
            }));
            proof {
                assert(selections_view(out@) =~= seq![out@[0]@]);
            }
            Ok(out)
        },
        Selection::FragmentSpread(sp) => {
            let name = sp.fragment_name.as_str();
            match stack_position(stack, name) {
                Some(pos) => {
                    return Err(fragment_cycle_error(stack, pos, name));
                },
                None => {},
            }
            match find_fragment(doc, name) {
                None => {
                    Err(Error::msg(cat3("fragment `", name, "` is not defined in the document")))
                },
                Some(fragment) => {
                    proof {
                        lemma_stack_bound(doc.definitions@, stack_view(stack@), name@);
                    }
                    let ghost before = stack@;
                    stack.push(sp.fragment_name.clone());
                    proof {
                        assert(stack_view(stack@) =~= stack_view(before).push(name@));
                    }
                    let result = inline_items(&fragment.selection_set.items, doc, stack);
                    stack.pop();
                    proof {
                        assert(stack@ =~= before);
                    }
                    result
                },
            }
        },
    }
}


/// The name of an operation; a bare selection set has none.
pub open spec fn operation_name_spec(op: OperationDefinition) -> Option<Seq<char>> {
    if op.operation_type == OperationType::Shorthand {
        None
    } else {
        opt_str_view(op.name)
    }
}

/// The first operation named `name`.
pub open spec fn first_named(ops: Seq<OperationDefinition>, name: Seq<char>) -> Option<OperationDefinition>
    decreases ops.len(),
{
    if ops.len() == 0 {
        None
    } else if operation_name_spec(ops[0]) == Some(name) {
        Some(ops[0])
    } else {
        first_named(ops.drop_first(), name)
    }
}

/// The operation a request selects: the one named `name`, or the only one when no name is
/// given.
pub open spec fn select_operation_spec(defs: Seq<Definition>, name: Option<Seq<char>>) -> Result<OperationDefinition, Seq<char>> {
    let ops = operations_of(defs);
    if ops.len() == 0 {
        Err("query_document must define at least one operation"@)
    } else {
        match name {
            Some(n) => match first_named(ops, n) {
                Some(op) => Ok(op),
                None => Err("operation `"@ + n + "` not found in query_document"@),
            },
            None => if ops.len() > 1 {
                Err("operation_name is required when query_document defines multiple operations"@)
            } else {
                Ok(ops[0])
            },
        }
    }
}

/// The selected operation with every fragment spread inlined.
pub open spec fn parse_and_inline_spec(defs: Seq<Definition>, name: Option<Seq<char>>) -> Result<SpecOperation, Seq<char>> {
    match select_operation_spec(defs, name) {
        Err(m) => Err(m),
        Ok(op) => match inline_items_spec(op.selection_set@, defs, Seq::empty()) {
            Err(m) => Err(m),
            Ok(items) => Ok(SpecOperation { selection_set: items, ..op@ }),
        },
    }
}

/// No fragment spread occurs among the selections, at any depth: within fields and within
/// inline fragments.
pub open spec fn spread_free(items: Seq<SpecSelection>) -> bool
    decreases sels_size(items), 1nat,
{
    if items.len() == 0 {
        true
    } else {
        proof {
            lemma_sel_size_pos(items.last());
        }
        spread_free(items.drop_last()) && spread_free_one(items.last())
    }
}

/// No fragment spread is, or occurs within, the selection.
pub open spec fn spread_free_one(s: SpecSelection) -> bool
    decreases sel_size(s), 0nat,
{
    match s {
        SpecSelection::Field { selection_set, .. } => spread_free(selection_set),
        SpecSelection::FragmentSpread { .. } => false,
        SpecSelection::InlineFragment { selection_set, .. } => spread_free(selection_set),
    }
}

proof fn lemma_spread_free_concat(a: Seq<SpecSelection>, b: Seq<SpecSelection>)
    ensures
        spread_free(a + b) == (spread_free(a) && spread_free(b)),
    decreases b.len(),
{
    if b.len() == 0 {
        assert(a + b =~= a);
    } else {
        lemma_spread_free_concat(a, b.drop_last());
        assert((a + b).drop_last() =~= a + b.drop_last());
        assert((a + b).last() == b.last());
    }
}

/// Inlining leaves no fragment spread at any depth: every spread, also one within an inline
/// fragment or a field, is replaced by the fragment's own selections.
pub proof fn lemma_inlined_spread_free(items: Seq<SpecSelection>, defs: Seq<Definition>, stack: Seq<Seq<char>>)
    requires
        stack_ok(defs, stack),
        inline_items_spec(items, defs, stack) is Ok,
    ensures
        spread_free(inline_items_spec(items, defs, stack)->Ok_0),
    decreases fragment_count(defs) - stack.len(), sels_size(items), 1nat,
{
    if items.len() > 0 {
        lemma_sel_size_pos(items.last());
        let done = inline_items_spec(items.drop_last(), defs, stack)->Ok_0;
        let more = inline_one_spec(items.last(), defs, stack)->Ok_0;
        lemma_inlined_spread_free(items.drop_last(), defs, stack);
        lemma_inlined_one_spread_free(items.last(), defs, stack);
        lemma_spread_free_concat(done, more);
    }
}

/// Inlining one selection leaves no fragment spread at any depth (see
/// `lemma_inlined_spread_free`).
pub proof fn lemma_inlined_one_spread_free(s: SpecSelection, defs: Seq<Definition>, stack: Seq<Seq<char>>)
    requires
        stack_ok(defs, stack),
        inline_one_spec(s, defs, stack) is Ok,
    ensures
        spread_free(inline_one_spec(s, defs, stack)->Ok_0),
    decreases fragment_count(defs) - stack.len(), sel_size(s), 0nat,
{
    match s {
        SpecSelection::Field { alias, name, arguments, directives, selection_set } => {
            lemma_inlined_spread_free(selection_set, defs, stack);
            let inner = inline_items_spec(selection_set, defs, stack)->Ok_0;
            let x = SpecSelection::Field { alias, name, arguments, directives, selection_set: inner };
            let r = seq![x];
            assert(inline_one_spec(s, defs, stack)->Ok_0 == r);
            assert(r.drop_last() =~= Seq::<SpecSelection>::empty());
            assert(r.last() == x);
            assert(spread_free_one(x));
            assert(spread_free(Seq::<SpecSelection>::empty()));
            assert(spread_free(r.drop_last()));
            assert(spread_free(r));

        },
        SpecSelection::InlineFragment { type_condition, directives, selection_set } => {
            lemma_inlined_spread_free(selection_set, defs, stack);
            let inner = inline_items_spec(selection_set, defs, stack)->Ok_0;
            let x = SpecSelection::InlineFragment { type_condition, directives, selection_set: inner };
            let r = seq![x];
            assert(inline_one_spec(s, defs, stack)->Ok_0 == r);
            assert(r.drop_last() =~= Seq::<SpecSelection>::empty());
            assert(r.last() == x);
            assert(spread_free_one(x));
            assert(spread_free(Seq::<SpecSelection>::empty()));
            assert(spread_free(r.drop_last()));
            assert(spread_free(r));
        },
        SpecSelection::FragmentSpread { fragment_name, .. } => {
            let f = fragment_named(defs, fragment_name)->Some_0;
            assert(!stack.contains(fragment_name));
            lemma_stack_bound(defs, stack, fragment_name);
            assert(inline_one_spec(s, defs, stack) == inline_items_spec(f.selection_set@, defs, stack.push(fragment_name)));
            lemma_inlined_spread_free(f.selection_set@, defs, stack.push(fragment_name));
        },
    }
}

/// An operation that inlines successfully holds no fragment spread at any depth.
pub proof fn lemma_inlined_operation_spread_free(defs: Seq<Definition>, name: Option<Seq<char>>)
    requires
        parse_and_inline_spec(defs, name) is Ok,
    ensures
        spread_free(parse_and_inline_spec(defs, name)->Ok_0.selection_set),
{
    let op = select_operation_spec(defs, name)->Ok_0;
    assert(stack_ok(defs, Seq::<Seq<char>>::empty()));
    lemma_inlined_spread_free(op.selection_set@, defs, Seq::empty());
}

/// A query text that reads and inlines successfully gives an operation holding no fragment
/// spread at any depth.
pub proof fn lemma_inlined_text_spread_free(query: Seq<char>, name: Option<Seq<char>>)
    requires
        parse_and_inline_text_spec(query, name) is Ok,
    ensures
        spread_free(parse_and_inline_text_spec(query, name)->Ok_0.selection_set),
{
    let doc = crate::graphql_text::query_reading(query)->Ok_0;
    lemma_inlined_operation_spread_free(doc.definitions@, name);
}

pub fn operation_name_of(op: &OperationDefinition) -> (r: Option<&str>)
    ensures
        r matches Some(n) ==> operation_name_spec(*op) == Some(n@),
        r is None ==> operation_name_spec(*op) is None,
{
    if op.operation_type == OperationType::Shorthand {
        None
    } else {
        match &op.name {
            Some(n) => Some(n.as_str()),
            None => None,
        }
    }
}

pub fn collect_operations(doc: &QueryDocument) -> (r: Vec<&OperationDefinition>)
    ensures
        r@.len() == operations_of(doc.definitions@).len(),
        forall|i: int| 0 <= i < r@.len() ==> *r@[i] == operations_of(doc.definitions@)[i],
{
    let mut r: Vec<&OperationDefinition> = Vec::new();
    let mut i: usize = 0;
    while i < doc.definitions.len()
        invariant
            i <= doc.definitions@.len(),
            r@.len() == operations_of(doc.definitions@.subrange(0, i as int)).len(),
            forall|j: int| 0 <= j < r@.len() ==> *r@[j] == operations_of(doc.definitions@.subrange(0, i as int))[j],
        decreases doc.definitions.len() - i,
    {
        proof {
            assert(doc.definitions@.subrange(0, i + 1).drop_last() =~= doc.definitions@.subrange(0, i as int));
        }
        match &doc.definitions[i] {
            Definition::Operation(op) => {
                r.push(op);
            },
            Definition::Fragment(_) => {},
        }
        i += 1;
    }
    proof {
        assert(doc.definitions@.subrange(0, doc.definitions@.len() as int) =~= doc.definitions@);
    }
    r
}

/// Selects the operation named `operation_name`, or the only operation when none is named.
pub fn select_operation<'a>(doc: &'a QueryDocument, operation_name: Option<&str>) -> (r: Fallible<&'a OperationDefinition>)
    ensures
        match select_operation_spec(doc.definitions@, match operation_name { Some(n) => Some(n@), None => None }) {
            Ok(op) => r matches Ok(o) && *o == op,
            Err(m) => r matches Err(e) && e@ == seq![m],
        },
{
    let ops = collect_operations(doc);
    let ghost spec_ops = operations_of(doc.definitions@);
    if ops.len() == 0 {
        return Err(Error::msg(String::from_str("query_document must define at least one operation")));
    }
    match operation_name {
        Some(name) => {
            let mut i: usize = 0;
            assert(spec_ops.subrange(0, spec_ops.len() as int) =~= spec_ops);
            while i < ops.len()
                invariant
                    i <= ops@.len(),
                    operation_name == Some(name),
                    spec_ops == operations_of(doc.definitions@),
                    ops@.len() == spec_ops.len(),
                    forall|j: int| 0 <= j < ops@.len() ==> *ops@[j] == spec_ops[j],
                    first_named(spec_ops, name@) == first_named(spec_ops.subrange(i as int, spec_ops.len() as int), name@),
                decreases ops.len() - i,
            {
                let ghost tail = spec_ops.subrange(i as int, spec_ops.len() as int);
                proof {
                    assert(tail[0] == spec_ops[i as int]);
                    assert(tail.drop_first() =~= spec_ops.subrange(i + 1, spec_ops.len() as int));
                }
                let n = operation_name_of(ops[i]);
                match n {
                    Some(found) => {
                        if str_eq(found, name) {
                            assert(operation_name_spec(tail[0]) == Some(name@));
                            assert(tail.len() > 0);
                            assert(first_named(tail, name@) == Some(tail[0]));
                            return Ok(ops[i]);
                        }
                    },
                    None => {},
                }
                i += 1;
            }
            Err(Error::msg(cat3("operation `", name, "` not found in query_document")))
        },
        None => {
            if ops.len() > 1 {
                return Err(Error::msg(String::from_str("operation_name is required when query_document defines multiple operations")));
            }
            Ok(ops[0])
        },
    }
}

/// The selected operation of `doc`, with every fragment spread it reaches replaced by the
/// fragment's own selections.
pub fn inline_operation(doc: &QueryDocument, operation_name: Option<&str>) -> (r: Fallible<OperationDefinition>)
    ensures
        match parse_and_inline_spec(doc.definitions@, match operation_name { Some(n) => Some(n@), None => None }) {
            Ok(op) => r matches Ok(o) && o@ == op,
            Err(m) => r matches Err(e) && e@ == seq![m],
        },
{
    let op = select_operation(doc, operation_name)?;
    let mut stack: Vec<String> = Vec::new();
    proof {
        assert(stack_view(stack@) =~= Seq::<Seq<char>>::empty());
    }
    let items = inline_items(&op.selection_set.items, doc, &mut stack)?;
    Ok(OperationDefinition {
        operation_type: op.operation_type,
        name: clone_opt_string(&op.name),
        variable_definitions: clone_variable_definitions(&op.variable_definitions),
        directives: clone_directives(&op.directives),
        selection_set: SelectionSet { items },
    })
}

/// What reading and inlining a query text gives: the reader's message under the context
/// "failed to parse GraphQL query document", or the selected operation with its fragments
/// inlined (see `parse_and_inline_spec`).
pub open spec fn parse_and_inline_text_spec(query: Seq<char>, name: Option<Seq<char>>) -> Result<SpecOperation, Seq<Seq<char>>> {
    match query_reading(query) {
        Err(m) => Err(seq!["failed to parse GraphQL query document"@, m]),
        Ok(doc) => match parse_and_inline_spec(doc.definitions@, name) {
            Ok(op) => Ok(op),
            Err(m) => Err(seq![m]),
        },
    }
}

/// Reads `query`, selects the requested operation and inlines every fragment spread it
/// reaches.
pub fn parse_and_inline(query: &str, operation_name: Option<&str>) -> (r: Fallible<OperationDefinition>)
    ensures
        match parse_and_inline_text_spec(query@, match operation_name { Some(n) => Some(n@), None => None }) {
            Ok(op) => r matches Ok(o) && o@ == op,
            Err(m) => r matches Err(e) && e@ == m,
        },
{
    match read_query(query) {
        Err(m) => Err(Error::msg(m).context(String::from_str("failed to parse GraphQL query document"))),
        Ok(doc) => inline_operation(&doc, operation_name),
    }
}

/// The canonical text of an operation: the inlined operation as graphql_parser prints it,
/// trimmed.
pub open spec fn canonical_document_spec(query: Seq<char>, name: Option<Seq<char>>) -> Result<Seq<char>, Seq<Seq<char>>> {
    match parse_and_inline_text_spec(query, name) {
        Ok(op) => Ok(crate::text::trim_spec(operation_text(op))),
        Err(m) => Err(m),
    }
}

/// Two query texts that read and inline to the same operation have the same canonical
/// document: whatever the reader drops (whitespace, comments) and whatever inlining removes
/// (fragments spelt out in place of their fields) leaves no trace in it.
pub proof fn lemma_canonical_document_of_same_operation(q1: Seq<char>, q2: Seq<char>, name: Option<Seq<char>>, op: SpecOperation)
    requires
        parse_and_inline_text_spec(q1, name) == Ok::<SpecOperation, Seq<Seq<char>>>(op),
        parse_and_inline_text_spec(q2, name) == Ok::<SpecOperation, Seq<Seq<char>>>(op),
    ensures
        canonical_document_spec(q1, name) == canonical_document_spec(q2, name),
        canonical_document_spec(q1, name) is Ok,
{
}

/// Canonical text form of an operation: whitespace-normalised, comment-free,
/// fragment-inlined.
pub fn canonical_document(query: &str, operation_name: Option<&str>) -> (r: Fallible<String>)
    ensures
        match canonical_document_spec(query@, match operation_name { Some(n) => Some(n@), None => None }) {
            Ok(t) => r matches Ok(s) && s@ == t,
            Err(m) => r matches Err(e) && e@ == m,
        },
{
    let op = parse_and_inline(query, operation_name)?;
    let printed = print_operation(&op);
    Ok(crate::text::trim(printed.as_str()))
}


/// A difference between an expected and an actual operation, at a dotted field path.
pub struct QueryDiff {
    pub path: String,
    pub expected: String,
    pub actual: String,
    pub description: String,
}

pub struct SpecQueryDiff {
    pub path: Seq<char>,
    pub expected: Seq<char>,
    pub actual: Seq<char>,
    pub description: Seq<char>,
}

impl View for QueryDiff {
    type V = SpecQueryDiff;

    open spec fn view(&self) -> SpecQueryDiff {
        SpecQueryDiff {
            path: self.path@,
            expected: self.expected@,
            actual: self.actual@,
            description: self.description@,
        }
    }
}

pub open spec fn diffs_view(ds: Seq<QueryDiff>) -> Seq<SpecQueryDiff> {
    Seq::new(ds.len(), |i: int| ds[i]@)
}

pub open spec fn qdiff(path: Seq<char>, expected: Seq<char>, actual: Seq<char>, description: Seq<char>) -> SpecQueryDiff {
    SpecQueryDiff { path, expected, actual, description }
}

/// The key a field contributes to a response: its alias when present, else its name.
pub open spec fn response_key_spec(alias: Option<Seq<char>>, name: Seq<char>) -> Seq<char> {
    match alias {
        Some(a) => a,
        None => name,
    }
}

/// The key prefix for the fields of an inline fragment: `... on Type/`, or nothing.
pub open spec fn condition_prefix_spec(type_condition: Option<Seq<char>>) -> Seq<char> {
    match type_condition {
        Some(t) => "... on "@ + t + "/"@,
        None => Seq::empty(),
    }
}

/// The fields of a selection set, flattened through inline fragments, each with its response
/// key (prefixed by the innermost inline fragment's condition). Spreads contribute nothing.
pub open spec fn collect_fields_spec(items: Seq<SpecSelection>, prefix: Seq<char>) -> Seq<(Seq<char>, SpecSelection)>
    decreases items,
{
    if items.len() == 0 {
        Seq::empty()
    } else {
        collect_fields_spec(items.drop_last(), prefix) + collect_one_spec(items.last(), prefix)
    }
}

pub open spec fn collect_one_spec(s: SpecSelection, prefix: Seq<char>) -> Seq<(Seq<char>, SpecSelection)>
    decreases s,
{
    match s {
        SpecSelection::Field { alias, name, .. } => seq![(prefix + response_key_spec(alias, name), s)],
        SpecSelection::InlineFragment { type_condition, selection_set, .. } => collect_fields_spec(
            selection_set,
            condition_prefix_spec(type_condition),
        ),
        SpecSelection::FragmentSpread { .. } => Seq::empty(),
    }
}

/// The selection set of a field (empty for anything else).
pub open spec fn sub_selections(s: SpecSelection) -> Seq<SpecSelection> {
    match s {
        SpecSelection::Field { selection_set, .. } => selection_set,
        _ => Seq::empty(),
    }
}

pub open spec fn field_name_spec(s: SpecSelection) -> Seq<char> {
    match s {
        SpecSelection::Field { name, .. } => name,
        _ => Seq::empty(),
    }
}

pub open spec fn field_arguments_spec(s: SpecSelection) -> Seq<crate::ast::SpecArgument> {
    match s {
        SpecSelection::Field { arguments, .. } => arguments,
        _ => Seq::empty(),
    }
}

pub proof fn lemma_collect_fields_smaller(items: Seq<SpecSelection>, prefix: Seq<char>)
    ensures
        forall|i: int| 0 <= i < collect_fields_spec(items, prefix).len() ==> {
            &&& (#[trigger] collect_fields_spec(items, prefix)[i]).1 is Field
            &&& sels_size(sub_selections(collect_fields_spec(items, prefix)[i].1)) < sels_size(items)
        },
    decreases items,
{
    if items.len() > 0 {
        lemma_collect_fields_smaller(items.drop_last(), prefix);
        lemma_collect_one_smaller(items.last(), prefix);
        let a = collect_fields_spec(items.drop_last(), prefix);
        let b = collect_one_spec(items.last(), prefix);
        assert forall|i: int| 0 <= i < (a + b).len() implies {
            &&& (#[trigger] (a + b)[i]).1 is Field
            &&& sels_size(sub_selections((a + b)[i].1)) < sels_size(items)
        } by {
            if i < a.len() {
                assert((a + b)[i] == a[i]);
            } else {
                assert((a + b)[i] == b[i - a.len()]);
            }
        }
    }
}

pub proof fn lemma_collect_one_smaller(s: SpecSelection, prefix: Seq<char>)
    ensures
        forall|i: int| 0 <= i < collect_one_spec(s, prefix).len() ==> {
            &&& (#[trigger] collect_one_spec(s, prefix)[i]).1 is Field
            &&& sels_size(sub_selections(collect_one_spec(s, prefix)[i].1)) < sel_size(s)
        },
    decreases s,
{
    match s {
        SpecSelection::InlineFragment { type_condition, selection_set, .. } => {
            lemma_collect_fields_smaller(selection_set, condition_prefix_spec(type_condition));
        },
        _ => {},
    }
}

/// `prefix.key`, or `key` at the top level.
pub open spec fn join_path_spec(prefix: Seq<char>, key: Seq<char>) -> Seq<char> {
    if prefix.len() == 0 {
        key
    } else {
        prefix + "."@ + key
    }
}

/// `name: value` for each argument.
pub open spec fn argument_parts(args: Seq<crate::ast::SpecArgument>) -> Seq<Seq<char>> {
    Seq::new(args.len(), |i: int| args[i].name + ": "@ + args[i].text)
}

/// The arguments of a field as compared: `()` when there are none, else the `name: value`
/// parts in sorted order (argument order is not significant), comma-separated in brackets.
pub open spec fn render_arguments_spec(args: Seq<crate::ast::SpecArgument>) -> Seq<char> {
    if args.len() == 0 {
        "()"@
    } else {
        "("@ + join_spec(crate::order::sort_spec(argument_parts(args)), ", "@) + ")"@
    }
}

/// The rendered arguments of a field do not depend on the order in which they are written:
/// two argument lists holding the same arguments, in any order, render the same, so fields
/// that differ only in argument order have no argument difference.
pub proof fn lemma_render_arguments_ignores_order(a: Seq<crate::ast::SpecArgument>, b: Seq<crate::ast::SpecArgument>)
    requires
        a.to_multiset() == b.to_multiset(),
    ensures
        render_arguments_spec(a) == render_arguments_spec(b),
{
    broadcast use vstd::seq_lib::group_to_multiset_ensures;
    let f = |x: crate::ast::SpecArgument| x.name + ": "@ + x.text;
    assert(argument_parts(a) =~= a.map_values(f));
    assert(argument_parts(b) =~= b.map_values(f));
    crate::order::lemma_map_to_multiset(a, b, f);
    crate::order::lemma_sort_spec_of_permutation(argument_parts(a), argument_parts(b));
    vstd::seq_lib::to_multiset_len(a);
    vstd::seq_lib::to_multiset_len(b);
}

/// The first collected field with response key `key`.
pub open spec fn find_key_spec(fields: Seq<(Seq<char>, SpecSelection)>, key: Seq<char>) -> Option<SpecSelection>
    decreases fields.len(),
{
    if fields.len() == 0 {
        None
    } else if fields[0].0 == key {
        Some(fields[0].1)
    } else {
        find_key_spec(fields.drop_first(), key)
    }
}

/// Some collected field has response key `key`.
pub open spec fn has_key_spec(fields: Seq<(Seq<char>, SpecSelection)>, key: Seq<char>) -> bool {
    exists|i: int| 0 <= i < fields.len() && fields[i].0 == key
}

/// The differences between an expected and an actual selection set, field by field in the
/// expected order, then the unexpected fields in the actual order.
pub open spec fn diff_sets_spec(expected: Seq<SpecSelection>, actual: Seq<SpecSelection>, prefix: Seq<char>) -> Seq<SpecQueryDiff>
    decreases sels_size(expected), 2nat, 0nat,
{
    let ef = collect_fields_spec(expected, Seq::empty());
    let af = collect_fields_spec(actual, Seq::empty());
    proof {
        lemma_collect_fields_smaller(expected, Seq::empty());
    }
    diff_expected_spec(ef, af, prefix, sels_size(expected)) + diff_unexpected_spec(af, ef, prefix)
}

/// The differences for each expected field (see `diff_sets_spec`).
pub open spec fn diff_expected_spec(ef: Seq<(Seq<char>, SpecSelection)>, af: Seq<(Seq<char>, SpecSelection)>, prefix: Seq<char>, bound: nat) -> Seq<SpecQueryDiff>
    decreases bound, 1nat, ef.len(),
    when forall|i: int| 0 <= i < ef.len() ==> sels_size(sub_selections(#[trigger] ef[i].1)) < bound
{
    if ef.len() == 0 {
        Seq::empty()
    } else {
        diff_expected_spec(ef.drop_last(), af, prefix, bound) + diff_field_spec(ef.last(), af, prefix, bound)
    }
}

/// The differences for one expected field.
pub open spec fn diff_field_spec(entry: (Seq<char>, SpecSelection), af: Seq<(Seq<char>, SpecSelection)>, prefix: Seq<char>, bound: nat) -> Seq<SpecQueryDiff>
    decreases bound, 0nat, 0nat,
    when sels_size(sub_selections(entry.1)) < bound
{
    let key = entry.0;
    let path = join_path_spec(prefix, key);
    match find_key_spec(af, key) {
        None => seq![qdiff(path, key, "<absent>"@, "field `"@ + key + "` was expected but is not selected by the actual query"@)],
        Some(actual) => if field_name_spec(entry.1) != field_name_spec(actual) {
            seq![qdiff(path, field_name_spec(entry.1), field_name_spec(actual), "alias `"@ + key + "` resolves to a different field"@)]
        } else {
            let e_args = render_arguments_spec(field_arguments_spec(entry.1));
            let a_args = render_arguments_spec(field_arguments_spec(actual));
            (if e_args != a_args {
                seq![qdiff(path, e_args, a_args, "field `"@ + key + "` argument values differ"@)]
            } else {
                Seq::empty()
            }) + diff_sets_spec(sub_selections(entry.1), sub_selections(actual), path)
        },
    }
}

/// The differences for actual fields whose key no expected field has.
pub open spec fn diff_unexpected_spec(af: Seq<(Seq<char>, SpecSelection)>, ef: Seq<(Seq<char>, SpecSelection)>, prefix: Seq<char>) -> Seq<SpecQueryDiff>
    decreases af.len(),
{
    if af.len() == 0 {
        Seq::empty()
    } else {
        let key = af.last().0;
        diff_unexpected_spec(af.drop_last(), ef, prefix) + if has_key_spec(ef, key) {
            Seq::empty()
        } else {
            seq![qdiff(join_path_spec(prefix, key), "<absent>"@, key, "field `"@ + key + "` is selected by the actual query but was not expected"@)]
        }
    }
}

/// `query` for queries and bare selection sets, else `mutation` or `subscription`.
pub open spec fn operation_kind_label_spec(t: OperationType) -> Seq<char> {
    match t {
        OperationType::Query | OperationType::Shorthand => "query"@,
        OperationType::Mutation => "mutation"@,
        OperationType::Subscription => "subscription"@,
    }
}

pub open spec fn name_or_empty(n: Option<Seq<char>>) -> Seq<char> {
    match n {
        Some(x) => x,
        None => Seq::empty(),
    }
}

/// The differences between two (inlined) operations: a differing operation type alone, or a
/// differing name followed by the differences of the selection sets.
pub open spec fn diff_operations_spec(expected: SpecOperation, actual: SpecOperation) -> Seq<SpecQueryDiff> {
    let ek = operation_kind_label_spec(expected.operation_type);
    let ak = operation_kind_label_spec(actual.operation_type);
    if ek != ak {
        seq![qdiff(Seq::empty(), ek, ak, "GraphQL operation type differs"@)]
    } else {
        let en = spec_op_name(expected);
        let an = spec_op_name(actual);
        (if en != an {
            seq![qdiff(Seq::empty(), en, an, "GraphQL operation name differs"@)]
        } else {
            Seq::empty()
        }) + diff_sets_spec(expected.selection_set, actual.selection_set, Seq::empty())
    }
}

/// The name of an operation model, or the empty text for a bare selection set.
pub open spec fn spec_op_name(op: SpecOperation) -> Seq<char> {
    if op.operation_type == OperationType::Shorthand {
        Seq::empty()
    } else {
        name_or_empty(op.name)
    }
}


/// The collected (key, field) pairs as models.
pub open spec fn collected_view(v: Seq<(String, &Field)>) -> Seq<(Seq<char>, SpecSelection)> {
    Seq::new(v.len(), |i: int| (v[i].0@, Selection::Field(*v[i].1)@))
}

/// The response key of a field: its alias when present, else its name.
pub fn response_key(field: &Field) -> (r: &str)
    ensures
        r@ == response_key_spec(opt_str_view(field.alias), field.name@),
{
    match &field.alias {
        Some(a) => a.as_str(),
        None => field.name.as_str(),
    }
}

/// Flattens a selection set into (response key, field) pairs; inline fragments are
/// flattened into their parent with their type condition in the key.
pub fn collect_fields<'a>(items: &'a Vec<Selection>, prefix: &str) -> (r: Vec<(String, &'a Field)>)
    ensures
        collected_view(r@) == collect_fields_spec(selections_view(items@), prefix@),
    decreases sels_size(selections_view(items@)),
{
    let ghost all = selections_view(items@);
    let mut r: Vec<(String, &'a Field)> = Vec::new();
    let mut i: usize = 0;
    while i < items.len()
        invariant
            i <= items@.len(),
            all == selections_view(items@),
            collected_view(r@) == collect_fields_spec(all.subrange(0, i as int), prefix@),
        decreases items.len() - i,
    {
        proof {
            assert(all.subrange(0, i + 1).drop_last() =~= all.subrange(0, i as int));
            assert(all.subrange(0, i + 1).last() == items@[i as int]@);
            lemma_sels_size_elem(all, i as int);
        }
        let ghost before = r@;
        match &items[i] {
            Selection::Field(f) => {
                let key = crate::text::cat2(prefix, response_key(f));
                r.push((key, f));
                proof {
                    assert(collected_view(r@) =~= collected_view(before) + collect_one_spec(items@[i as int]@, prefix@));
                }
            },
            Selection::InlineFragment(fr) => {
                let condition = match &fr.type_condition {
                    Some(t) => crate::text::cat3("... on ", t.as_str(), "/"),
                    None => String::new(),
                };
                let mut more = collect_fields(&fr.selection_set.items, condition.as_str());
                let ghost more_view = more@;
                r.append(&mut more);
                proof {
                    assert(collected_view(r@) =~= collected_view(before) + collected_view(more_view));
                }
            },
            Selection::FragmentSpread(_) => {
                proof {
                    assert(collect_one_spec(items@[i as int]@, prefix@) =~= Seq::<(Seq<char>, SpecSelection)>::empty());
                    assert(collected_view(r@) =~= collected_view(before) + collect_one_spec(items@[i as int]@, prefix@));
                }
            },
        }
        i += 1;
    }
    proof {
        assert(all.subrange(0, items@.len() as int) =~= all);
    }
    r
}

/// `prefix.key`, or `key` at the top level.
pub fn join_path(prefix: &str, key: &str) -> (r: String)
    ensures
        r@ == join_path_spec(prefix@, key@),
{
    if prefix.unicode_len() == 0 {
        key.to_owned()
    } else {
        crate::text::cat3(prefix, ".", key)
    }
}

/// The arguments of a field as compared (see `render_arguments_spec`).
pub fn render_arguments(field: &Field) -> (r: String)
    ensures
        r@ == render_arguments_spec(crate::ast::arguments_view(field.arguments@)),
{
    let ghost args = crate::ast::arguments_view(field.arguments@);
    if field.arguments.len() == 0 {
        return String::from_str("()");
    }
    let mut parts: Vec<String> = Vec::new();
    let mut i: usize = 0;
    while i < field.arguments.len()
        invariant
            i <= field.arguments@.len(),
            args == crate::ast::arguments_view(field.arguments@),
            parts@.len() == i,
            forall|j: int| 0 <= j < i ==> #[trigger] parts@[j]@ == argument_parts(args)[j],
        decreases field.arguments.len() - i,
    {
        let a = &field.arguments[i];
        parts.push(crate::text::cat3(a.name.as_str(), ": ", a.text.as_str()));
        i += 1;
    }
    proof {
        assert(crate::order::strs_view(parts@) =~= argument_parts(args));
    }
    let sorted = crate::order::sort_strings(parts);
    proof {
        crate::order::lemma_sort_spec(argument_parts(args), crate::order::strs_view(sorted@));
    }
    let joined = crate::text::join(&sorted, ", ");
    crate::text::cat3("(", joined.as_str(), ")")
}

fn find_key<'a>(fields: &Vec<(String, &'a Field)>, key: &str) -> (r: Option<&'a Field>)
    ensures
        r matches Some(f) ==> find_key_spec(collected_view(fields@), key@) == Some(Selection::Field(*f)@),
        r is None ==> find_key_spec(collected_view(fields@), key@) is None,
{
    let ghost cv = collected_view(fields@);
    let mut i: usize = 0;
    assert(cv.subrange(0, cv.len() as int) =~= cv);
    while i < fields.len()
        invariant
            i <= fields@.len(),
            cv == collected_view(fields@),
            find_key_spec(cv, key@) == find_key_spec(cv.subrange(i as int, cv.len() as int), key@),
        decreases fields.len() - i,
    {
        let ghost tail = cv.subrange(i as int, cv.len() as int);
        proof {
            assert(tail.drop_first() =~= cv.subrange(i + 1, cv.len() as int));
            assert(tail[0] == cv[i as int]);
        }
        if str_eq(fields[i].0.as_str(), key) {
            return Some(fields[i].1);
        }
        i += 1;
    }
    None
}

fn has_key(fields: &Vec<(String, &Field)>, key: &str) -> (r: bool)
    ensures
        r == has_key_spec(collected_view(fields@), key@),
{
    let mut i: usize = 0;
    while i < fields.len()
        invariant
            i <= fields@.len(),
            forall|j: int| 0 <= j < i ==> fields@[j].0@ != key@,
        decreases fields.len() - i,
    {
        if str_eq(fields[i].0.as_str(), key) {
            assert(collected_view(fields@)[i as int].0 == key@);
            return true;
        }
        i += 1;
    }
    false
}

fn push_diff(diffs: &mut Vec<QueryDiff>, path: String, expected: String, actual: String, description: String)
    ensures
        diffs_view(final(diffs)@) == diffs_view(old(diffs)@).push(qdiff(path@, expected@, actual@, description@)),
{
    diffs.push(QueryDiff { path, expected, actual, description });
    assert(diffs_view(diffs@) =~= diffs_view(old(diffs)@).push(qdiff(path@, expected@, actual@, description@)));
}

/// Appends the differences between two selection sets (see `diff_sets_spec`).
pub fn diff_selection_sets(expected: &SelectionSet, actual: &SelectionSet, prefix: &str, diffs: &mut Vec<QueryDiff>)
    ensures
        diffs_view(final(diffs)@) == diffs_view(old(diffs)@) + diff_sets_spec(expected@, actual@, prefix@),
    decreases sels_size(expected@),
{
    let ef = collect_fields(&expected.items, "");
    let af = collect_fields(&actual.items, "");
    let ghost efv = collected_view(ef@);
    let ghost afv = collected_view(af@);
    let ghost bound = sels_size(expected@);
    proof {
        assert(Seq::<char>::empty() == ""@) by {
            reveal_strlit("");
        }
        lemma_collect_fields_smaller(expected@, Seq::empty());
    }
    let ghost start = diffs_view(diffs@);
    let mut i: usize = 0;
    while i < ef.len()
        invariant
            i <= ef@.len(),
            efv == collected_view(ef@),
            afv == collected_view(af@),
            efv == collect_fields_spec(expected@, Seq::empty()),
            bound == sels_size(expected@),
            forall|k: int| 0 <= k < efv.len() ==> (#[trigger] efv[k]).1 is Field && sels_size(sub_selections(efv[k].1)) < bound,
            diffs_view(diffs@) == start + diff_expected_spec(efv.subrange(0, i as int), afv, prefix@, bound),
        decreases ef.len() - i,
    {
        let ghost pre = efv.subrange(0, i as int);
        let ghost cur = efv.subrange(0, i + 1);
        proof {
            assert(cur.drop_last() =~= pre);
            assert(cur.last() == efv[i as int]);
            assert forall|k: int| 0 <= k < cur.len() implies sels_size(sub_selections(#[trigger] cur[k].1)) < bound by {
                assert(cur[k] == efv[k]);
            }
            assert forall|k: int| 0 <= k < pre.len() implies sels_size(sub_selections(#[trigger] pre[k].1)) < bound by {
                assert(pre[k] == efv[k]);
            }
        }
        let key = ef[i].0.as_str();
        let ef_field = ef[i].1;
        let path = join_path(prefix, key);
        let ghost before = diffs_view(diffs@);
        match find_key(&af, key) {
            None => {
                push_diff(diffs, path, key.to_owned(), String::from_str("<absent>"), crate::text::cat3("field `", key, "` was expected but is not selected by the actual query"));
                proof {
                    reveal_strlit("<absent>");
                }
            },
            Some(af_field) => {
                if !str_eq(ef_field.name.as_str(), af_field.name.as_str()) {
                    push_diff(diffs, path, ef_field.name.clone(), af_field.name.clone(), crate::text::cat3("alias `", key, "` resolves to a different field"));
                } else {
                    let e_args = render_arguments(ef_field);
                    let a_args = render_arguments(af_field);
                    let ghost mid = diffs_view(diffs@);
                    if !str_eq(e_args.as_str(), a_args.as_str()) {
                        push_diff(diffs, path.clone(), e_args, a_args, crate::text::cat3("field `", key, "` argument values differ"));
                    }
                    let ghost mid2 = diffs_view(diffs@);
                    proof {
                        assert(sels_size(ef_field.selection_set@) < bound);
                    }
                    diff_selection_sets(&ef_field.selection_set, &af_field.selection_set, path.as_str(), diffs);
                    proof {
                        assert(diffs_view(diffs@) =~= before + ((if mid2.len() > mid.len() { seq![mid2.last()] } else { Seq::empty() }) + diff_sets_spec(ef_field.selection_set@, af_field.selection_set@, path@)));
                    }
                }
            },
        }
        proof {
            let entry = efv[i as int];
            assert(entry == (key@, Selection::Field(*ef_field)@));
            assert(sels_size(sub_selections(entry.1)) < bound);
            assert(diff_expected_spec(cur, afv, prefix@, bound) == diff_expected_spec(pre, afv, prefix@, bound) + diff_field_spec(entry, afv, prefix@, bound));
            assert(diffs_view(diffs@) =~= before + diff_field_spec(entry, afv, prefix@, bound));
            assert(diffs_view(diffs@) =~= start + diff_expected_spec(cur, afv, prefix@, bound));
        }
        i += 1;
    }
    proof {
        assert(efv.subrange(0, ef@.len() as int) =~= efv);
    }
    let ghost after_expected = diffs_view(diffs@);
    let mut j: usize = 0;
    while j < af.len()
        invariant
            j <= af@.len(),
            efv == collected_view(ef@),
            afv == collected_view(af@),
            diffs_view(diffs@) == after_expected + diff_unexpected_spec(afv.subrange(0, j as int), efv, prefix@),
        decreases af.len() - j,
    {
        let ghost pre = afv.subrange(0, j as int);
        let ghost cur = afv.subrange(0, j + 1);
        proof {
            assert(cur.drop_last() =~= pre);
            assert(cur.last() == afv[j as int]);
        }
        let key = af[j].0.as_str();
        if !has_key(&ef, key) {
            let path = join_path(prefix, key);
            push_diff(diffs, path, String::from_str("<absent>"), key.to_owned(), crate::text::cat3("field `", key, "` is selected by the actual query but was not expected"));
            proof {
                reveal_strlit("<absent>");
            }
        }
        proof {
            assert(diffs_view(diffs@) =~= after_expected + diff_unexpected_spec(cur, efv, prefix@));
        }
        j += 1;
    }
    proof {
        assert(afv.subrange(0, af@.len() as int) =~= afv);
    }
}


/// `query`, `mutation` or `subscription`: the keyword an operation is compared by.
pub fn operation_kind_label(op: &OperationDefinition) -> (r: &'static str)
    ensures
        r@ == operation_kind_label_spec(op.operation_type),
{
    match op.operation_type {
        OperationType::Query | OperationType::Shorthand => {
            proof {
                reveal_strlit("query");
            }
            "query"
        },
        OperationType::Mutation => {
            proof {
                reveal_strlit("mutation");
            }
            "mutation"
        },
        OperationType::Subscription => {
            proof {
                reveal_strlit("subscription");
            }
            "subscription"
        },
    }
}

/// The differences between two inlined operations (see `diff_operations_spec`).
pub fn diff_operations(expected: &OperationDefinition, actual: &OperationDefinition) -> (r: Vec<QueryDiff>)
    ensures
        diffs_view(r@) == diff_operations_spec(expected@, actual@),
{
    let mut diffs: Vec<QueryDiff> = Vec::new();
    proof {
        assert(diffs_view(diffs@) =~= Seq::<SpecQueryDiff>::empty());
    }
    let ek = operation_kind_label(expected);
    let ak = operation_kind_label(actual);
    if !str_eq(ek, ak) {
        push_diff(&mut diffs, String::new(), ek.to_owned(), ak.to_owned(), String::from_str("GraphQL operation type differs"));
        proof {
            assert(diffs_view(diffs@) =~= diff_operations_spec(expected@, actual@));
        }
        return diffs;
    }
    let en: &str = match operation_name_of(expected) {
        Some(n) => n,
        None => "",
    };
    let an: &str = match operation_name_of(actual) {
        Some(n) => n,
        None => "",
    };
    proof {
        reveal_strlit("");
        assert(en@ == spec_op_name(expected@));
        assert(an@ == spec_op_name(actual@));
    }
    if !str_eq(en, an) {
        push_diff(&mut diffs, String::new(), en.to_owned(), an.to_owned(), String::from_str("GraphQL operation name differs"));
    }
    let ghost head = diffs_view(diffs@);
    proof {
        assert(head =~= (if en@ != an@ {
            seq![qdiff(Seq::empty(), en@, an@, "GraphQL operation name differs"@)]
        } else {
            Seq::empty()
        }));
        assert(""@ =~= Seq::<char>::empty());
    }
    diff_selection_sets(&expected.selection_set, &actual.selection_set, "", &mut diffs);
    diffs
}

/// How strictly an actual query document is held to the expected one.
#[derive(PartialEq, Eq, Structural, Clone, Copy, Debug)]
pub enum QueryMatching {
    /// The trimmed texts must be identical.
    Exact,
    /// The inlined operations must select the same fields with the same arguments.
    Semantic,
    /// Like `Semantic`, except that the actual query may leave expected fields out.
    Subset,
}

impl Default for QueryMatching {
    fn default() -> (r: QueryMatching)
        ensures
            r == QueryMatching::Semantic,
    {
        QueryMatching::Semantic
    }
}

pub open spec fn exact_description() -> Seq<char> {
    "GraphQL query document differs byte-for-byte (queryMatching: exact)"@
}

/// Nothing when the two texts agree once trimmed, else one difference that holds both.
pub open spec fn diff_exact_spec(expected: Seq<char>, actual: Seq<char>) -> Seq<SpecQueryDiff> {
    let e = crate::text::trim_spec(expected);
    let a = crate::text::trim_spec(actual);
    if e == a {
        Seq::empty()
    } else {
        seq![qdiff(Seq::empty(), e, a, exact_description())]
    }
}

pub fn diff_exact(expected: &str, actual: &str) -> (r: Vec<QueryDiff>)
    ensures
        diffs_view(r@) == diff_exact_spec(expected@, actual@),
{
    let e = crate::text::trim(expected);
    let a = crate::text::trim(actual);
    let mut diffs: Vec<QueryDiff> = Vec::new();
    if str_eq(e.as_str(), a.as_str()) {
        proof {
            assert(diffs_view(diffs@) =~= Seq::<SpecQueryDiff>::empty());
        }
        return diffs;
    }
    proof {
        reveal_strlit("GraphQL query document differs byte-for-byte (queryMatching: exact)");
        assert(diffs_view(diffs@) =~= Seq::<SpecQueryDiff>::empty());
    }
    push_diff(&mut diffs, String::new(), e, a, String::from_str("GraphQL query document differs byte-for-byte (queryMatching: exact)"));
    proof {
        assert(diffs_view(diffs@) =~= diff_exact_spec(expected@, actual@));
    }
    diffs
}

pub open spec fn not_selected_marker() -> Seq<char> {
    "is not selected by the actual query"@
}

/// The differences that remain under a matching mode: under `Subset`, those that only say an
/// expected field is missing are dropped.
pub open spec fn keep_under(mode: QueryMatching, d: SpecQueryDiff) -> bool {
    mode != QueryMatching::Subset || !crate::text::contains_spec(d.description, not_selected_marker())
}

pub open spec fn diff_operations_with_spec(expected: SpecOperation, actual: SpecOperation, mode: QueryMatching) -> Seq<SpecQueryDiff> {
    diff_operations_spec(expected, actual).filter(|d: SpecQueryDiff| keep_under(mode, d))
}

/// The differences between two inlined operations under a matching mode.
pub fn diff_operations_with(expected: &OperationDefinition, actual: &OperationDefinition, mode: QueryMatching) -> (r: Vec<QueryDiff>)
    ensures
        diffs_view(r@) == diff_operations_with_spec(expected@, actual@, mode),
{
    let all = diff_operations(expected, actual);
    let ghost full = diffs_view(all@);
    let mut kept: Vec<QueryDiff> = Vec::new();
    let marker = "is not selected by the actual query";
    proof {
        reveal_strlit("is not selected by the actual query");
    }
    let mut i: usize = 0;
    while i < all.len()
        invariant
            i <= all@.len(),
            full == diffs_view(all@),
            marker@ == not_selected_marker(),
            diffs_view(kept@) == full.subrange(0, i as int).filter(|d: SpecQueryDiff| keep_under(mode, d)),
        decreases all.len() - i,
    {
        let d = &all[i];
        let ghost pre = full.subrange(0, i as int);
        proof {
            assert(full.subrange(0, i + 1).drop_last() =~= pre);
            reveal(Seq::filter);
        }
        let keep = match mode {
            QueryMatching::Subset => !crate::text::contains(d.description.as_str(), marker),
            _ => true,
        };
        if keep {
            push_diff(&mut kept, d.path.clone(), d.expected.clone(), d.actual.clone(), d.description.clone());
        }
        proof {
            assert(full[i as int] == d@);
            assert(diffs_view(kept@) =~= full.subrange(0, i + 1).filter(|d: SpecQueryDiff| keep_under(mode, d)));
        }
        i += 1;
    }
    proof {
        assert(full.subrange(0, all@.len() as int) =~= full);
    }
    kept
}


/// In every selection set, at any depth, fields with the same response key are the same
/// field, so that a response can merge them.
pub open spec fn mergeable(items: Seq<SpecSelection>) -> bool
    decreases sels_size(items),
{
    let cf = collect_fields_spec(items, Seq::empty());
    proof {
        lemma_collect_fields_smaller(items, Seq::empty());
    }
    &&& forall|i: int, j: int|
        #![trigger cf[i], cf[j]]
        0 <= i < cf.len() && 0 <= j < cf.len() && cf[i].0 == cf[j].0 ==> cf[i].1 == cf[j].1
    &&& forall|i: int| 0 <= i < cf.len() ==> mergeable(sub_selections(#[trigger] cf[i].1))
}

proof fn lemma_find_key_mergeable(fields: Seq<(Seq<char>, SpecSelection)>, i: int)
    requires
        0 <= i < fields.len(),
        forall|p: int, q: int|
            #![trigger fields[p], fields[q]]
            0 <= p < fields.len() && 0 <= q < fields.len() && fields[p].0 == fields[q].0 ==> fields[p].1 == fields[q].1,
    ensures
        find_key_spec(fields, fields[i].0) == Some(fields[i].1),
    decreases fields.len(),
{
    if fields[0].0 != fields[i].0 {
        let rest = fields.drop_first();
        assert(rest[i - 1] == fields[i]);
        assert forall|p: int, q: int|
            #![trigger rest[p], rest[q]]
            0 <= p < rest.len() && 0 <= q < rest.len() && rest[p].0 == rest[q].0 implies rest[p].1 == rest[q].1 by {
            assert(rest[p] == fields[p + 1] && rest[q] == fields[q + 1]);
        }
        lemma_find_key_mergeable(rest, i - 1);
    } else {
        assert(fields[0].1 == fields[i].1);
    }
}

proof fn lemma_unexpected_none(af: Seq<(Seq<char>, SpecSelection)>, ef: Seq<(Seq<char>, SpecSelection)>, prefix: Seq<char>)
    requires
        forall|i: int| 0 <= i < af.len() ==> has_key_spec(ef, #[trigger] af[i].0),
    ensures
        diff_unexpected_spec(af, ef, prefix) == Seq::<SpecQueryDiff>::empty(),
    decreases af.len(),
{
    if af.len() > 0 {
        let pre = af.drop_last();
        assert forall|i: int| 0 <= i < pre.len() implies has_key_spec(ef, #[trigger] pre[i].0) by {
            assert(pre[i] == af[i]);
        }
        lemma_unexpected_none(pre, ef, prefix);
        assert(has_key_spec(ef, af[af.len() - 1].0));
    }
}

proof fn lemma_expected_none(items: Seq<SpecSelection>, prefix: Seq<char>, k: nat)
    requires
        mergeable(items),
        k <= collect_fields_spec(items, Seq::empty()).len(),
    ensures
        diff_expected_spec(
            collect_fields_spec(items, Seq::empty()).subrange(0, k as int),
            collect_fields_spec(items, Seq::empty()),
            prefix,
            sels_size(items),
        ) == Seq::<SpecQueryDiff>::empty(),
    decreases sels_size(items), 0nat, k,
{
    let cf = collect_fields_spec(items, Seq::empty());
    let ef = cf.subrange(0, k as int);
    lemma_collect_fields_smaller(items, Seq::empty());
    assert forall|i: int| 0 <= i < ef.len() implies sels_size(sub_selections(#[trigger] ef[i].1)) < sels_size(items) by {
        assert(ef[i] == cf[i]);
    }
    if k > 0 {
        lemma_expected_none(items, prefix, (k - 1) as nat);
        assert(ef.drop_last() =~= cf.subrange(0, k - 1));
        let e = cf[k - 1];
        assert(ef.last() == e);
        lemma_find_key_mergeable(cf, k - 1);
        let path = join_path_spec(prefix, e.0);
        assert(mergeable(sub_selections(cf[k - 1].1)));
        lemma_diff_sets_none(sub_selections(e.1), path);
        assert(diff_field_spec(e, cf, prefix, sels_size(items)) =~= Seq::<SpecQueryDiff>::empty());
    }
}

proof fn lemma_diff_sets_none(items: Seq<SpecSelection>, prefix: Seq<char>)
    requires
        mergeable(items),
    ensures
        diff_sets_spec(items, items, prefix) == Seq::<SpecQueryDiff>::empty(),
    decreases sels_size(items), 1nat, 0nat,
{
    let cf = collect_fields_spec(items, Seq::empty());
    lemma_collect_fields_smaller(items, Seq::empty());
    lemma_expected_none(items, prefix, cf.len());
    assert(cf.subrange(0, cf.len() as int) =~= cf);
    assert forall|i: int| 0 <= i < cf.len() implies has_key_spec(cf, #[trigger] cf[i].0) by {
        assert(0 <= i < cf.len() && cf[i].0 == cf[i].0);
    }
    lemma_unexpected_none(cf, cf, prefix);
}

/// An operation compared with itself differs in nothing, under every matching mode, provided
/// its fields can be merged (see `mergeable`).
pub proof fn lemma_diff_reflexive(op: SpecOperation, mode: QueryMatching)
    requires
        mergeable(op.selection_set),
    ensures
        diff_operations_spec(op, op) == Seq::<SpecQueryDiff>::empty(),
        diff_operations_with_spec(op, op, mode) == Seq::<SpecQueryDiff>::empty(),
{
    lemma_diff_sets_none(op.selection_set, Seq::empty());
    assert(diff_operations_spec(op, op) =~= Seq::<SpecQueryDiff>::empty());
    reveal(Seq::filter);
}

/// A query text compared with itself under exact matching differs in nothing.
pub proof fn lemma_exact_reflexive(text: Seq<char>)
    ensures
        diff_exact_spec(text, text) == Seq::<SpecQueryDiff>::empty(),
{
}

proof fn lemma_filter_keeps_all(s: Seq<SpecQueryDiff>, mode: QueryMatching)
    requires
        mode == QueryMatching::Semantic,
    ensures
        s.filter(|d: SpecQueryDiff| keep_under(mode, d)) == s,
    decreases s.len(),
{
    reveal(Seq::filter);
    if s.len() > 0 {
        lemma_filter_keeps_all(s.drop_last(), mode);
        assert(s.drop_last().push(s.last()) =~= s);
    }
}

/// `Semantic` matching reports every difference; `Subset` matching reports none of the
/// expected fields the actual query leaves out, and nothing `Semantic` matching does not.
pub proof fn lemma_matching_modes(expected: SpecOperation, actual: SpecOperation)
    ensures
        diff_operations_with_spec(expected, actual, QueryMatching::Semantic) == diff_operations_spec(expected, actual),
        forall|i: int|
            0 <= i < diff_operations_with_spec(expected, actual, QueryMatching::Subset).len() ==> !crate::text::contains_spec(
                (#[trigger] diff_operations_with_spec(expected, actual, QueryMatching::Subset)[i]).description,
                not_selected_marker(),
            ),
        forall|i: int|
            0 <= i < diff_operations_with_spec(expected, actual, QueryMatching::Subset).len() ==> diff_operations_spec(
                expected,
                actual,
            ).contains(#[trigger] diff_operations_with_spec(expected, actual, QueryMatching::Subset)[i]),
{
    let all = diff_operations_spec(expected, actual);
    lemma_filter_keeps_all(all, QueryMatching::Semantic);
    let pred = |d: SpecQueryDiff| keep_under(QueryMatching::Subset, d);
    let sub = all.filter(pred);
    assert forall|i: int| 0 <= i < sub.len() implies all.contains(#[trigger] sub[i]) && !crate::text::contains_spec(
        sub[i].description,
        not_selected_marker(),
    ) by {
        all.lemma_filter_pred(pred, i);
        assert(sub.contains(sub[i]));
        all.lemma_filter_contains_rev(pred, sub[i]);
    }
}

} // verus!
