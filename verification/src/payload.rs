//! The canonical request payload of a GraphQL interaction, and how two of them differ.
use vstd::prelude::*;

use crate::ast::{opt_str_view, OperationDefinition, QueryDocument, SchemaDocument, SpecOperation};
use crate::encoder::Transport;
use crate::query_ast::{
    diff_exact, diff_exact_spec, diff_operations_with, diff_operations_with_spec, diffs_view, inline_operation,
    parse_and_inline_spec, QueryDiff, QueryMatching, SpecQueryDiff,
};
use crate::text::{replace, replace_spec, str_eq, blank, is_blank, cat2, contains_ignore_ascii_case, contains_spec, ascii_lowercase_spec};
use crate::canonical::{canonicalize_sdl, canonicalize_sdl_spec, dedent_and_trim, dedent_and_trim_spec, split_on, split_on_char};
use crate::codec::{base64_decode, base64_decoded, base64_encode_text, base64_of_text, utf8_decoded, utf8_text};
use crate::error::{Error, Fallible};
use crate::form::{url_decode, url_decoded};
use crate::json::{canon_spec, canonical_json, Json, SpecJson};
use crate::json_text::{json_parse, json_parse_bytes, json_text, parse_json, parse_json_bytes, print_json};
use crate::order::strs_view;
use crate::schema::{is_schema_hash, is_schema_hash_spec};
use crate::schema_index::{from_sdl_spec, SchemaIndex, SpecSchemaIndex};
use crate::graphql_text::{operation_text, print_operation, query_reading, read_query};
use crate::server::get_spec;
use crate::interaction::{inline_view, GraphqlPluginRequest};

verus! {

broadcast use vstd::std_specs::vec::group_vec_axioms;

/// The canonical request payload captured for each GraphQL interaction.
#[derive(Debug)]
pub struct GraphqlRequestPayload {
    pub query_document: String,
    pub operation_name: Option<String>,
    pub variables_json: Option<String>,
    pub transport: Transport,
}

pub struct SpecPayload {
    pub query_document: Seq<char>,
    pub operation_name: Option<Seq<char>>,
    pub variables_json: Option<Seq<char>>,
    pub transport: Transport,
}

impl View for GraphqlRequestPayload {
    type V = SpecPayload;

    open spec fn view(&self) -> SpecPayload {
        SpecPayload {
            query_document: self.query_document@,
            operation_name: opt_str_view(self.operation_name),
            variables_json: opt_str_view(self.variables_json),
            transport: self.transport,
        }
    }
}

impl GraphqlRequestPayload {
    pub fn clone_payload(&self) -> (r: GraphqlRequestPayload)
        ensures
            r@ == self@,
    {
        GraphqlRequestPayload {
            query_document: self.query_document.clone(),
            operation_name: crate::ast::clone_opt_string(&self.operation_name),
            variables_json: crate::ast::clone_opt_string(&self.variables_json),
            transport: self.transport,
        }
    }
}

/// The schema SDL kept with an interaction, base64-encoded.
#[derive(Debug)]
pub struct GraphqlInlineSchema {
    pub base64_sdl: Option<String>,
}

impl Default for GraphqlInlineSchema {
    fn default() -> (r: GraphqlInlineSchema)
        ensures
            r.base64_sdl is None,
    {
        GraphqlInlineSchema { base64_sdl: None }
    }
}

impl GraphqlInlineSchema {
    pub fn clone_schema(&self) -> (r: GraphqlInlineSchema)
        ensures
            opt_str_view(r.base64_sdl) == opt_str_view(self.base64_sdl),
    {
        GraphqlInlineSchema { base64_sdl: crate::ast::clone_opt_string(&self.base64_sdl) }
    }
}

/// The base64 SDL of an optional inline schema.
pub open spec fn inline_base64(s: Option<GraphqlInlineSchema>) -> Option<Seq<char>> {
    match s {
        Some(schema) => opt_str_view(schema.base64_sdl),
        None => None,
    }
}

/// The canonical payload of an interaction with its inline schema and matching mode.
pub struct CanonicalGraphqlRequest {
    pub payload: GraphqlRequestPayload,
    pub inline_schema: Option<GraphqlInlineSchema>,
    pub query_matching: QueryMatching,
}

/// A difference between two canonical requests, at a JSON-pointer path.
#[derive(Debug)]
pub struct RequestMismatch {
    pub path: String,
    pub expected: String,
    pub actual: String,
    pub description: String,
    pub diff: String,
}

pub struct SpecMismatch {
    pub path: Seq<char>,
    pub expected: Seq<char>,
    pub actual: Seq<char>,
    pub description: Seq<char>,
    pub diff: Seq<char>,
}

impl View for RequestMismatch {
    type V = SpecMismatch;

    open spec fn view(&self) -> SpecMismatch {
        SpecMismatch {
            path: self.path@,
            expected: self.expected@,
            actual: self.actual@,
            description: self.description@,
            diff: self.diff@,
        }
    }
}

pub open spec fn mismatches_view(ms: Seq<RequestMismatch>) -> Seq<SpecMismatch> {
    Seq::new(ms.len(), |i: int| ms[i]@)
}

/// A mismatch with no diff text.
pub open spec fn mk_mismatch(path: Seq<char>, expected: Seq<char>, actual: Seq<char>, description: Seq<char>) -> SpecMismatch {
    SpecMismatch { path, expected, actual, description, diff: Seq::empty() }
}

impl RequestMismatch {
    pub fn new(path: &str, expected: String, actual: String, description: &str) -> (r: RequestMismatch)
        ensures
            r@ == mk_mismatch(path@, expected@, actual@, description@),
    {
        RequestMismatch {
            path: path.to_owned(),
            expected,
            actual,
            description: description.to_owned(),
            diff: String::new(),
        }
    }
}

/// `<none>` for an absent value.
pub open spec fn option_text(o: Option<Seq<char>>) -> Seq<char> {
    match o {
        Some(s) => s,
        None => "<none>"@,
    }
}

/// A mismatch when two optional values differ.
pub open spec fn optional_mismatch(path: Seq<char>, expected: Option<Seq<char>>, actual: Option<Seq<char>>, description: Seq<char>) -> Seq<SpecMismatch> {
    if expected == actual {
        Seq::empty()
    } else {
        seq![mk_mismatch(path, option_text(expected), option_text(actual), description)]
    }
}

/// `json_body` or `query_string`.
pub open spec fn transport_label_spec(t: Transport) -> Seq<char> {
    match t {
        Transport::JsonBody => "json_body"@,
        Transport::QueryString => "query_string"@,
    }
}

/// The pointer path of a query difference: under `/payload/query_document`, dots as slashes.
pub open spec fn query_diff_path(p: Seq<char>) -> Seq<char> {
    if p.len() == 0 {
        "/payload/query_document"@
    } else {
        "/payload/query_document/"@ + replace_spec(p, "."@, "/"@)
    }
}

pub open spec fn mismatch_of(d: SpecQueryDiff) -> SpecMismatch {
    mk_mismatch(query_diff_path(d.path), d.expected, d.actual, d.description)
}

/// The query-document part of a comparison. Under `Exact` the trimmed texts are compared;
/// otherwise the inlined operations are compared under the expected request's mode, and when
/// either document cannot be read (`None`) or inlined, the texts are compared.
pub open spec fn query_mismatches(
    expected: SpecPayload,
    actual: SpecPayload,
    mode: QueryMatching,
    expected_doc: Option<QueryDocument>,
    actual_doc: Option<QueryDocument>,
) -> Seq<SpecMismatch> {
    let text_fallback = if expected.query_document != actual.query_document {
        seq![mk_mismatch("/payload/query_document"@, expected.query_document, actual.query_document, "GraphQL query document differs"@)]
    } else {
        Seq::empty()
    };
    if mode == QueryMatching::Exact {
        diff_exact_spec(expected.query_document, actual.query_document).map_values(|d: SpecQueryDiff| mismatch_of(d))
    } else {
        match (expected_doc, actual_doc) {
            (Some(ed), Some(ad)) => match (
                parse_and_inline_spec(ed.definitions@, expected.operation_name),
                parse_and_inline_spec(ad.definitions@, actual.operation_name),
            ) {
                (Ok(eo), Ok(ao)) => diff_operations_with_spec(eo, ao, mode).map_values(|d: SpecQueryDiff| mismatch_of(d)),
                _ => text_fallback,
            },
            _ => text_fallback,
        }
    }
}

/// Every difference between an expected and an actual canonical request, in order: the query
/// document, the operation name, the variables, the transport, the inline schema.
pub open spec fn request_diff_spec(
    expected: SpecPayload,
    expected_schema: Option<Seq<char>>,
    mode: QueryMatching,
    actual: SpecPayload,
    actual_schema: Option<Seq<char>>,
    expected_doc: Option<QueryDocument>,
    actual_doc: Option<QueryDocument>,
) -> Seq<SpecMismatch> {
    query_mismatches(expected, actual, mode, expected_doc, actual_doc)
        + optional_mismatch("/payload/operation_name"@, expected.operation_name, actual.operation_name, "GraphQL operation_name differs"@)
        + optional_mismatch("/payload/variables_json"@, expected.variables_json, actual.variables_json, "GraphQL variables_json differs"@)
        + (if expected.transport != actual.transport {
        seq![mk_mismatch("/payload/transport"@, transport_label_spec(expected.transport), transport_label_spec(actual.transport), "transport differs"@)]
    } else {
        Seq::empty()
    }) + optional_mismatch("/inline_schema/base64_sdl"@, expected_schema, actual_schema, "inline schema differs"@)
}

/// A canonical request compared with itself, its query document read the same way on both
/// sides, has no mismatch, provided the fields of its inlined operation can be merged (see
/// `mergeable`).
pub proof fn lemma_request_diff_reflexive(
    payload: SpecPayload,
    schema: Option<Seq<char>>,
    mode: QueryMatching,
    doc: Option<QueryDocument>,
)
    requires
        doc matches Some(d) ==> (parse_and_inline_spec(d.definitions@, payload.operation_name) matches Ok(op)
            ==> crate::query_ast::mergeable(op.selection_set)),
    ensures
        request_diff_spec(payload, schema, mode, payload, schema, doc, doc) == Seq::<SpecMismatch>::empty(),
{
    crate::query_ast::lemma_exact_reflexive(payload.query_document);
    if let Some(d) = doc {
        if let Ok(op) = parse_and_inline_spec(d.definitions@, payload.operation_name) {
            crate::query_ast::lemma_diff_reflexive(op, mode);
        }
    }
    assert(query_mismatches(payload, payload, mode, doc, doc) =~= Seq::<SpecMismatch>::empty());
    assert(request_diff_spec(payload, schema, mode, payload, schema, doc, doc) =~= Seq::<SpecMismatch>::empty());
}

/// Two requests whose query texts are written differently but read and inline to the same
/// operation, whose fields can be merged (see `mergeable`), have no query-document mismatch
/// outside `Exact` matching; with the same operation name, variables, transport and inline
/// schema they have no mismatch at all. Whitespace, comments and fragments spelt out in place
/// make no difference as far as the reader gives the same operation.
pub proof fn lemma_same_inlined_operation_no_mismatch(
    expected: SpecPayload,
    actual: SpecPayload,
    schema: Option<Seq<char>>,
    mode: QueryMatching,
    expected_doc: QueryDocument,
    actual_doc: QueryDocument,
    op: SpecOperation,
)
    requires
        mode != QueryMatching::Exact,
        parse_and_inline_spec(expected_doc.definitions@, expected.operation_name) == Ok::<SpecOperation, Seq<char>>(op),
        parse_and_inline_spec(actual_doc.definitions@, actual.operation_name) == Ok::<SpecOperation, Seq<char>>(op),
        crate::query_ast::mergeable(op.selection_set),
    ensures
        query_mismatches(expected, actual, mode, Some(expected_doc), Some(actual_doc)) == Seq::<SpecMismatch>::empty(),
        expected.operation_name == actual.operation_name && expected.variables_json == actual.variables_json
            && expected.transport == actual.transport ==> request_diff_spec(
            expected,
            schema,
            mode,
            actual,
            schema,
            Some(expected_doc),
            Some(actual_doc),
        ) == Seq::<SpecMismatch>::empty(),
{
    crate::query_ast::lemma_diff_reflexive(op, mode);
    assert(diff_operations_with_spec(op, op, mode).map_values(|d: SpecQueryDiff| mismatch_of(d)) =~= Seq::<SpecMismatch>::empty());
    assert(query_mismatches(expected, actual, mode, Some(expected_doc), Some(actual_doc)) =~= Seq::<SpecMismatch>::empty());
    if expected.operation_name == actual.operation_name && expected.variables_json == actual.variables_json
        && expected.transport == actual.transport {
        assert(request_diff_spec(expected, schema, mode, actual, schema, Some(expected_doc), Some(actual_doc))
            =~= Seq::<SpecMismatch>::empty());
    }
}

/// Whether a mismatch says that the actual query leaves out a field the expected one selects.
pub open spec fn not_selected(m: SpecMismatch) -> bool {
    crate::text::contains_spec(m.description, crate::query_ast::not_selected_marker())
}

/// A description shorter than the not-selected marker cannot hold it.
proof fn lemma_short_kept(s: Seq<SpecMismatch>)
    requires
        forall|i: int| 0 <= i < s.len() ==> (#[trigger] s[i]).description.len() < crate::query_ast::not_selected_marker().len(),
    ensures
        s.filter(|m: SpecMismatch| !not_selected(m)) == s,
    decreases s.len(),
{
    reveal(Seq::filter);
    if s.len() > 0 {
        lemma_short_kept(s.drop_last());
        assert(!not_selected(s.last()));
        assert(s.drop_last().push(s.last()) =~= s);
    }
}

/// Dropping the query differences `Subset` matching leaves out, then turning the rest into
/// mismatches, is turning them all into mismatches and dropping the not-selected ones.
proof fn lemma_subset_filter_map(all: Seq<SpecQueryDiff>)
    ensures
        all.filter(|d: SpecQueryDiff| crate::query_ast::keep_under(QueryMatching::Subset, d)).map_values(
            |d: SpecQueryDiff| mismatch_of(d),
        ) == all.map_values(|d: SpecQueryDiff| mismatch_of(d)).filter(|m: SpecMismatch| !not_selected(m)),
    decreases all.len(),
{
    reveal(Seq::filter);
    let q = |d: SpecQueryDiff| crate::query_ast::keep_under(QueryMatching::Subset, d);
    let f = |d: SpecQueryDiff| mismatch_of(d);
    let p = |m: SpecMismatch| !not_selected(m);
    if all.len() > 0 {
        let pre = all.drop_last();
        lemma_subset_filter_map(pre);
        assert(all.map_values(f).drop_last() =~= pre.map_values(f));
        assert(all.map_values(f).last() == f(all.last()));
        assert(q(all.last()) == p(f(all.last())));
        if q(all.last()) {
            assert(all.filter(q) == pre.filter(q).push(all.last()));
            assert(all.filter(q).map_values(f) =~= pre.filter(q).map_values(f).push(f(all.last())));
        } else {
            assert(all.filter(q) == pre.filter(q));
        }
    } else {
        assert(all.filter(q) =~= Seq::<SpecQueryDiff>::empty());
        assert(all.map_values(f) =~= Seq::<SpecMismatch>::empty());
    }
}

/// `Subset` matching reports what `Semantic` matching reports, less the mismatches that say
/// the actual query leaves out a field the expected one selects: the actual query may request
/// fewer fields, and nothing else is tolerated.
pub proof fn lemma_subset_is_semantic_less_missing_fields(
    expected: SpecPayload,
    expected_schema: Option<Seq<char>>,
    actual: SpecPayload,
    actual_schema: Option<Seq<char>>,
    expected_doc: Option<QueryDocument>,
    actual_doc: Option<QueryDocument>,
)
    ensures
        request_diff_spec(expected, expected_schema, QueryMatching::Subset, actual, actual_schema, expected_doc, actual_doc)
            == request_diff_spec(expected, expected_schema, QueryMatching::Semantic, actual, actual_schema, expected_doc, actual_doc).filter(
            |m: SpecMismatch| !not_selected(m),
        ),
{
    let p = |m: SpecMismatch| !not_selected(m);
    reveal_strlit("is not selected by the actual query");
    reveal_strlit("GraphQL query document differs");
    reveal_strlit("GraphQL operation_name differs");
    reveal_strlit("GraphQL variables_json differs");
    reveal_strlit("transport differs");
    reveal_strlit("inline schema differs");
    let q_sub = query_mismatches(expected, actual, QueryMatching::Subset, expected_doc, actual_doc);
    let q_sem = query_mismatches(expected, actual, QueryMatching::Semantic, expected_doc, actual_doc);
    let fallback = if expected.query_document != actual.query_document {
        seq![mk_mismatch("/payload/query_document"@, expected.query_document, actual.query_document, "GraphQL query document differs"@)]
    } else {
        Seq::empty()
    };
    lemma_short_kept(fallback);
    match (expected_doc, actual_doc) {
        (Some(ed), Some(ad)) => match (
            parse_and_inline_spec(ed.definitions@, expected.operation_name),
            parse_and_inline_spec(ad.definitions@, actual.operation_name),
        ) {
            (Ok(eo), Ok(ao)) => {
                crate::query_ast::lemma_matching_modes(eo, ao);
                lemma_subset_filter_map(crate::query_ast::diff_operations_spec(eo, ao));
            },
            _ => {},
        },
        _ => {},
    }
    assert(q_sub == q_sem.filter(p));
    let name = optional_mismatch("/payload/operation_name"@, expected.operation_name, actual.operation_name, "GraphQL operation_name differs"@);
    let vars = optional_mismatch("/payload/variables_json"@, expected.variables_json, actual.variables_json, "GraphQL variables_json differs"@);
    let transport = if expected.transport != actual.transport {
        seq![mk_mismatch("/payload/transport"@, transport_label_spec(expected.transport), transport_label_spec(actual.transport), "transport differs"@)]
    } else {
        Seq::empty()
    };
    let schema = optional_mismatch("/inline_schema/base64_sdl"@, expected_schema, actual_schema, "inline schema differs"@);
    lemma_short_kept(name);
    lemma_short_kept(vars);
    lemma_short_kept(transport);
    lemma_short_kept(schema);
    Seq::filter_distributes_over_add(q_sem + name + vars + transport, schema, p);
    Seq::filter_distributes_over_add(q_sem + name + vars, transport, p);
    Seq::filter_distributes_over_add(q_sem + name, vars, p);
    Seq::filter_distributes_over_add(q_sem, name, p);
}

pub fn transport_label(transport: &Transport) -> (r: &'static str)
    ensures
        r@ == transport_label_spec(*transport),
{
    match transport {
        Transport::JsonBody => "json_body",
        Transport::QueryString => "query_string",
    }
}

pub fn option_string(value: Option<&str>) -> (r: String)
    ensures
        r@ == option_text(match value { Some(s) => Some(s@), None => None }),
{
    match value {
        Some(s) => s.to_owned(),
        None => String::from_str("<none>"),
    }
}

fn push_mismatch(mismatches: &mut Vec<RequestMismatch>, m: RequestMismatch)
    ensures
        mismatches_view(final(mismatches)@) == mismatches_view(old(mismatches)@).push(m@),
{
    mismatches.push(m);
    assert(mismatches_view(mismatches@) =~= mismatches_view(old(mismatches)@).push(m@));
}

fn opt_eq(a: Option<&str>, b: Option<&str>) -> (r: bool)
    ensures
        r == (match a { Some(s) => Some(s@), None => None::<Seq<char>> } == match b { Some(s) => Some(s@), None => None::<Seq<char>> }),
{
    match (a, b) {
        (Some(x), Some(y)) => str_eq(x, y),
        (None, None) => true,
        _ => false,
    }
}

/// Appends a mismatch when two optional values differ (see `optional_mismatch`).
pub fn compare_optional_field(mismatches: &mut Vec<RequestMismatch>, path: &str, expected: Option<&str>, actual: Option<&str>, description: &str)
    ensures
        mismatches_view(final(mismatches)@) == mismatches_view(old(mismatches)@) + optional_mismatch(
            path@,
            match expected { Some(s) => Some(s@), None => None },
            match actual { Some(s) => Some(s@), None => None },
            description@,
        ),
{
    if opt_eq(expected, actual) {
        assert(mismatches_view(mismatches@) + Seq::<SpecMismatch>::empty() =~= mismatches_view(mismatches@));
        return;
    }
    let m = RequestMismatch::new(path, option_string(expected), option_string(actual), description);
    push_mismatch(mismatches, m);
}

/// The borrowed text of an optional string.
pub fn opt_as_str(o: &Option<String>) -> (r: Option<&str>)
    ensures
        match r { Some(s) => Some(s@), None => None::<Seq<char>> } == opt_str_view(*o),
{
    match o {
        Some(s) => Some(s.as_str()),
        None => None,
    }
}

fn inline_as_str(o: &Option<GraphqlInlineSchema>) -> (r: Option<&str>)
    ensures
        match r { Some(s) => Some(s@), None => None::<Seq<char>> } == inline_base64(*o),
{
    match o {
        Some(schema) => opt_as_str(&schema.base64_sdl),
        None => None,
    }
}

/// Appends the mismatches for a list of query differences (see `mismatch_of`).
fn push_query_diffs(mismatches: &mut Vec<RequestMismatch>, diffs: &Vec<QueryDiff>)
    ensures
        mismatches_view(final(mismatches)@) == mismatches_view(old(mismatches)@) + diffs_view(diffs@).map_values(
            |d: SpecQueryDiff| mismatch_of(d),
        ),
{
    let ghost start = mismatches_view(mismatches@);
    let ghost dv = diffs_view(diffs@);
    let mut i: usize = 0;
    while i < diffs.len()
        invariant
            i <= diffs@.len(),
            dv == diffs_view(diffs@),
            mismatches_view(mismatches@) == start + dv.subrange(0, i as int).map_values(|d: SpecQueryDiff| mismatch_of(d)),
        decreases diffs.len() - i,
    {
        let d = &diffs[i];
        let path = if d.path.unicode_len() == 0 {
            String::from_str("/payload/query_document")
        } else {
            proof {
                reveal_strlit(".");
            }
            let replaced = replace(d.path.as_str(), ".", "/");
            crate::text::cat2("/payload/query_document/", replaced.as_str())
        };
        let m = RequestMismatch::new(path.as_str(), d.expected.clone(), d.actual.clone(), d.description.as_str());
        push_mismatch(mismatches, m);
        proof {
            assert(dv[i as int] == d@);
            assert(dv.subrange(0, i + 1).map_values(|d: SpecQueryDiff| mismatch_of(d)) =~= dv.subrange(0, i as int).map_values(
                |d: SpecQueryDiff| mismatch_of(d),
            ).push(mismatch_of(d@)));
        }
        i += 1;
    }
    proof {
        assert(dv.subrange(0, diffs@.len() as int) =~= dv);
    }
}

impl CanonicalGraphqlRequest {
    /// The differences between this (expected) request and `other` (see `request_diff_spec`).
    /// `expected_doc` and `actual_doc` are the two query documents as read, or `None` where a
    /// document is not valid GraphQL.
    pub fn diff_documents(
        &self,
        other: &CanonicalGraphqlRequest,
        expected_doc: Option<&QueryDocument>,
        actual_doc: Option<&QueryDocument>,
    ) -> (r: Vec<RequestMismatch>)
        ensures
            mismatches_view(r@) == request_diff_spec(
                self.payload@,
                inline_base64(self.inline_schema),
                self.query_matching,
                other.payload@,
                inline_base64(other.inline_schema),
                match expected_doc { Some(d) => Some(*d), None => None },
                match actual_doc { Some(d) => Some(*d), None => None },
            ),
    {
        let mut mismatches: Vec<RequestMismatch> = Vec::new();
        proof {
            assert(mismatches_view(mismatches@) =~= Seq::<SpecMismatch>::empty());
        }
        let ghost e = self.payload@;
        let ghost a = other.payload@;
        let ghost ed = match expected_doc { Some(d) => Some(*d), None => None::<QueryDocument> };
        let ghost ad = match actual_doc { Some(d) => Some(*d), None => None::<QueryDocument> };
        let ghost fallback = if e.query_document != a.query_document {
            seq![mk_mismatch("/payload/query_document"@, e.query_document, a.query_document, "GraphQL query document differs"@)]
        } else {
            Seq::empty()
        };
        let mut fall_back = false;
        if self.query_matching == QueryMatching::Exact {
            let diffs = diff_exact(self.payload.query_document.as_str(), other.payload.query_document.as_str());
            push_query_diffs(&mut mismatches, &diffs);
        } else {
            match (expected_doc, actual_doc) {
                (Some(edoc), Some(adoc)) => {
                    let eo = inline_operation(edoc, opt_as_str(&self.payload.operation_name));
                    let ao = inline_operation(adoc, opt_as_str(&other.payload.operation_name));
                    match (eo, ao) {
                        (Ok(expected_op), Ok(actual_op)) => {
                            let diffs = diff_operations_with(&expected_op, &actual_op, self.query_matching);
                            push_query_diffs(&mut mismatches, &diffs);
                        },
                        _ => {
                            fall_back = true;
                        },
                    }
                },
                _ => {
                    fall_back = true;
                },
            }
        }
        if fall_back {
            if !str_eq(self.payload.query_document.as_str(), other.payload.query_document.as_str()) {
                let m = RequestMismatch::new(
                    "/payload/query_document",
                    self.payload.query_document.clone(),
                    other.payload.query_document.clone(),
                    "GraphQL query document differs",
                );
                push_mismatch(&mut mismatches, m);
            }
        }
        proof {
            assert(mismatches_view(mismatches@) =~= query_mismatches(e, a, self.query_matching, ed, ad));
        }
        let ghost q = mismatches_view(mismatches@);
        compare_optional_field(
            &mut mismatches,
            "/payload/operation_name",
            opt_as_str(&self.payload.operation_name),
            opt_as_str(&other.payload.operation_name),
            "GraphQL operation_name differs",
        );
        compare_optional_field(
            &mut mismatches,
            "/payload/variables_json",
            opt_as_str(&self.payload.variables_json),
            opt_as_str(&other.payload.variables_json),
            "GraphQL variables_json differs",
        );
        let ghost before_transport = mismatches_view(mismatches@);
        if self.payload.transport != other.payload.transport {
            let m = RequestMismatch::new(
                "/payload/transport",
                transport_label(&self.payload.transport).to_owned(),
                transport_label(&other.payload.transport).to_owned(),
                "transport differs",
            );
            push_mismatch(&mut mismatches, m);
        }
        proof {
            assert(mismatches_view(mismatches@) =~= before_transport + (if e.transport != a.transport {
                seq![mk_mismatch("/payload/transport"@, transport_label_spec(e.transport), transport_label_spec(a.transport), "transport differs"@)]
            } else {
                Seq::<SpecMismatch>::empty()
            }));
        }
        compare_optional_field(
            &mut mismatches,
            "/inline_schema/base64_sdl",
            inline_as_str(&self.inline_schema),
            inline_as_str(&other.inline_schema),
            "inline schema differs",
        );
        mismatches
    }
}


/// The document a query text reads as, when it reads as one.
pub open spec fn read_document(text: Seq<char>) -> Option<QueryDocument> {
    match query_reading(text) {
        Ok(d) => Some(d),
        Err(_) => None,
    }
}

impl CanonicalGraphqlRequest {
    /// The differences between this (expected) request and `other` (see `request_diff_spec`),
    /// each query document read with graphql_parser.
    pub fn diff(&self, other: &CanonicalGraphqlRequest) -> (r: Vec<RequestMismatch>)
        ensures
            mismatches_view(r@) == request_diff_spec(
                self.payload@,
                inline_base64(self.inline_schema),
                self.query_matching,
                other.payload@,
                inline_base64(other.inline_schema),
                read_document(self.payload.query_document@),
                read_document(other.payload.query_document@),
            ),
    {
        let expected_doc = read_query(self.payload.query_document.as_str());
        let actual_doc = read_query(other.payload.query_document.as_str());
        let e: Option<&QueryDocument> = match &expected_doc {
            Ok(d) => Some(d),
            Err(_) => None,
        };
        let a: Option<&QueryDocument> = match &actual_doc {
            Ok(d) => Some(d),
            Err(_) => None,
        };
        self.diff_documents(other, e, a)
    }
}

/// The canonical variables text: the JSON with every object's keys ordered, written compactly;
/// a text that is not JSON is refused.
pub open spec fn canonicalize_variables_spec(variables: Option<Seq<char>>) -> Result<Option<Seq<char>>, Seq<Seq<char>>> {
    match variables {
        None => Ok(None),
        Some(raw) => match json_parse(raw) {
            Err(m) => Err(seq!["failed to parse GraphQL variables_json as JSON"@, m]),
            Ok(j) => Ok(Some(json_text(canon_spec(j)))),
        },
    }
}

/// The canonical variables text (see `canonicalize_variables_spec`).
pub fn canonicalize_variables(variables_json: Option<String>) -> (r: Fallible<Option<String>>)
    ensures
        match canonicalize_variables_spec(opt_str_view(variables_json)) {
            Ok(v) => r matches Ok(o) && opt_str_view(o) == v,
            Err(m) => r matches Err(e) && e@ == m,
        },
{
    match variables_json {
        None => Ok(None),
        Some(raw) => {
            let value = match parse_json(raw.as_str()) {
                Ok(v) => v,
                Err(m) => {
                    return Err(Error::msg(m).context(String::from_str("failed to parse GraphQL variables_json as JSON")));
                },
            };
            let canonical = canonical_json(&value);
            Ok(Some(print_json(&canonical)))
        },
    }
}

/// Variables texts that read as the same value up to the order of object keys, at any depth,
/// canonicalise to the same text; arrays keep their order (see `same_up_to_key_order`).
pub proof fn lemma_variables_ignore_key_order(x: Seq<char>, y: Seq<char>, a: SpecJson, b: SpecJson)
    requires
        json_parse(x) == Ok::<SpecJson, Seq<char>>(a),
        json_parse(y) == Ok::<SpecJson, Seq<char>>(b),
        crate::json::same_up_to_key_order(a, b),
    ensures
        canonicalize_variables_spec(Some(x)) == canonicalize_variables_spec(Some(y)),
{
    crate::json::lemma_canon_same_up_to_key_order(a, b);
}

/// A form value: `+` as a space, then percent-decoded.
pub open spec fn decode_form_value_spec(value: Seq<char>) -> Result<Seq<char>, Seq<char>> {
    match url_decoded(replace_spec(value, "+"@, " "@)) {
        Ok(t) => Ok(t),
        Err(m) => Err("failed to decode form value: "@ + m),
    }
}

pub fn decode_form_value(value: &str) -> (r: Fallible<String>)
    ensures
        match decode_form_value_spec(value@) {
            Ok(t) => r matches Ok(s) && s@ == t,
            Err(m) => r matches Err(e) && e@ == seq![m],
        },
{
    proof {
        reveal_strlit("+");
    }
    let replaced = replace(value, "+", " ");
    match url_decode(replaced.as_str()) {
        Ok(t) => Ok(t),
        Err(m) => Err(Error::msg(cat2("failed to decode form value: ", m.as_str()))),
    }
}

/// The transport a content type names: JSON for `application/graphql` or `application/json`,
/// a query string for `application/x-www-form-urlencoded` (ignoring ASCII case), else the
/// fallback.
pub open spec fn detect_transport_spec(content_type: Seq<char>, fallback: Transport) -> Transport {
    let lowered = ascii_lowercase_spec(content_type);
    if contains_spec(lowered, "application/graphql"@) || contains_spec(lowered, "application/json"@) {
        Transport::JsonBody
    } else if contains_spec(lowered, "application/x-www-form-urlencoded"@) {
        Transport::QueryString
    } else {
        fallback
    }
}

pub fn detect_transport(content_type: &str, fallback: Transport) -> (r: Transport)
    ensures
        r == detect_transport_spec(content_type@, fallback),
{
    if contains_ignore_ascii_case(content_type, "application/graphql") || contains_ignore_ascii_case(content_type, "application/json") {
        Transport::JsonBody
    } else if contains_ignore_ascii_case(content_type, "application/x-www-form-urlencoded") {
        Transport::QueryString
    } else {
        fallback
    }
}

/// The (query, operation name, variables) a JSON request body holds: `query` must be a
/// string; `operationName` a string or null (empty counts as none); `variables` a JSON text
/// string (blank counts as none) or any other value, written compactly.
pub open spec fn json_graphql_body_spec(body: Seq<u8>) -> Result<(Seq<char>, Option<Seq<char>>, Option<Seq<char>>), Seq<Seq<char>>> {
    match json_parse_bytes(body) {
        Err(m) => Err(seq!["failed to parse GraphQL JSON body"@, m]),
        Ok(v) => match get_spec(v, "query"@) {
            None | Some(SpecJson::Null) => Err(seq!["GraphQL JSON body missing required `query` field"@]),
            Some(SpecJson::Str(q)) => {
                let op = get_spec(v, "operationName"@);
                if op matches Some(x) && !(x is Null) && !(x is Str) {
                    Err(seq!["GraphQL JSON field `operationName` must be a string when present"@])
                } else {
                    let operation_name = match op {
                        Some(SpecJson::Str(n)) => if n.len() == 0 { None } else { Some(n) },
                        _ => None,
                    };
                    let variables = match get_spec(v, "variables"@) {
                        None | Some(SpecJson::Null) => None,
                        Some(SpecJson::Str(raw)) => if blank(raw) { None } else { Some(raw) },
                        Some(other) => Some(json_text(other)),
                    };
                    Ok((q, operation_name, variables))
                }
            },
            Some(_) => Err(seq!["GraphQL JSON field `query` must be a string"@]),
        },
    }
}

fn get_value<'a>(v: &'a Json, key: &str) -> (r: Option<&'a Json>)
    ensures
        r matches Some(x) ==> get_spec(v@, key@) == Some(x@),
        r is None ==> get_spec(v@, key@) is None,
{
    match v {
        Json::Object(es) => crate::json::object_get(es, key),
        _ => None,
    }
}

/// Reads a JSON request body (see `json_graphql_body_spec`).
pub fn parse_json_graphql_body(body_bytes: &[u8]) -> (r: Fallible<(String, Option<String>, Option<String>)>)
    ensures
        match json_graphql_body_spec(body_bytes@) {
            Ok((q, o, v)) => r matches Ok(t) && t.0@ == q && opt_str_view(t.1) == o && opt_str_view(t.2) == v,
            Err(m) => r matches Err(e) && e@ == m,
        },
{
    let value = match parse_json_bytes(body_bytes) {
        Ok(v) => v,
        Err(m) => {
            return Err(Error::msg(m).context(String::from_str("failed to parse GraphQL JSON body")));
        },
    };
    let query = match get_value(&value, "query") {
        None | Some(Json::Null) => {
            return Err(Error::msg(String::from_str("GraphQL JSON body missing required `query` field")));
        },
        Some(Json::Str(q)) => q.clone(),
        Some(_) => {
            return Err(Error::msg(String::from_str("GraphQL JSON field `query` must be a string")));
        },
    };
    let operation_name = match get_value(&value, "operationName") {
        None | Some(Json::Null) => None,
        Some(Json::Str(n)) => {
            if n.unicode_len() == 0 {
                None
            } else {
                Some(n.clone())
            }
        },
        Some(_) => {
            return Err(Error::msg(String::from_str("GraphQL JSON field `operationName` must be a string when present")));
        },
    };
    let variables = match get_value(&value, "variables") {
        None | Some(Json::Null) => None,
        Some(Json::Str(raw)) => {
            if is_blank(raw.as_str()) {
                None
            } else {
                Some(raw.clone())
            }
        },
        Some(other) => Some(print_json(other)),
    };
    Ok((query, operation_name, variables))
}

/// The part of `s` before the first `c` (all of it when there is none).
pub open spec fn before_first(s: Seq<char>, c: char) -> Seq<char>
    decreases s.len(),
{
    if s.len() == 0 {
        Seq::empty()
    } else if s[0] == c {
        Seq::empty()
    } else {
        seq![s[0]] + before_first(s.drop_first(), c)
    }
}

/// The part of `s` after the first `c` (nothing when there is none).
pub open spec fn after_first(s: Seq<char>, c: char) -> Seq<char>
    decreases s.len(),
{
    if s.len() == 0 {
        Seq::empty()
    } else if s[0] == c {
        s.drop_first()
    } else {
        after_first(s.drop_first(), c)
    }
}

/// The fields read so far from a query string: query, operation name, variables.
pub type FormFields = (Option<Seq<char>>, Option<Seq<char>>, Option<Seq<char>>);

/// Reads `name=value` pairs in order: each value is form-decoded (a failure stops the read);
/// a later `query`, `operationName` or `variables` replaces an earlier one; an empty name or
/// blank variables count as none; other names are ignored, and so are empty pairs.
pub open spec fn form_fields_spec(pairs: Seq<Seq<char>>) -> Result<FormFields, Seq<char>>
    decreases pairs.len(),
{
    if pairs.len() == 0 {
        Ok((None, None, None))
    } else {
        match form_fields_spec(pairs.drop_last()) {
            Err(m) => Err(m),
            Ok(fields) => {
                let pair = pairs.last();
                if pair.len() == 0 {
                    Ok(fields)
                } else {
                    let key = before_first(pair, '=');
                    match decode_form_value_spec(after_first(pair, '=')) {
                        Err(m) => Err(m),
                        Ok(d) => if key == "query"@ {
                            Ok((Some(d), fields.1, fields.2))
                        } else if key == "operationName"@ {
                            Ok((fields.0, if d.len() == 0 { None } else { Some(d) }, fields.2))
                        } else if key == "variables"@ {
                            Ok((fields.0, fields.1, if blank(d) { None } else { Some(d) }))
                        } else {
                            Ok(fields)
                        },
                    }
                }
            },
        }
    }
}

/// The (query, operation name, variables) a form-encoded body holds.
pub open spec fn query_string_body_spec(body: Seq<u8>) -> Result<(Seq<char>, Option<Seq<char>>, Option<Seq<char>>), Seq<Seq<char>>> {
    match utf8_decoded(body) {
        Err(m) => Err(seq!["GraphQL query string payload must be valid UTF-8"@, m]),
        Ok(text) => match form_fields_spec(split_on(text, '&')) {
            Err(m) => Err(seq![m]),
            Ok((q, o, v)) => match q {
                Some(query) => Ok((query, o, v)),
                None => Err(seq!["GraphQL query string body missing `query` parameter"@]),
            },
        },
    }
}

/// Splits a pair at its first `=`.
fn split_pair(pair: &str) -> (r: (String, String))
    ensures
        r.0@ == before_first(pair@, '='),
        r.1@ == after_first(pair@, '='),
{
    let n = pair.unicode_len();
    let mut k: usize = 0;
    assert(pair@.subrange(0, n as int) =~= pair@);
    while k < n && pair.get_char(k) != '='
        invariant
            n == pair@.len(),
            k <= n,
            before_first(pair@, '=') == pair@.subrange(0, k as int) + before_first(pair@.subrange(k as int, n as int), '='),
            after_first(pair@, '=') == after_first(pair@.subrange(k as int, n as int), '='),
        decreases n - k,
    {
        proof {
            let rest = pair@.subrange(k as int, n as int);
            assert(rest[0] == pair@[k as int]);
            assert(rest.drop_first() =~= pair@.subrange(k + 1, n as int));
            assert(pair@.subrange(0, k + 1) =~= pair@.subrange(0, k as int).push(pair@[k as int]));
        }
        k += 1;
    }
    let key = pair.substring_char(0, k).to_owned();
    let value = if k < n {
        pair.substring_char(k + 1, n).to_owned()
    } else {
        String::new()
    };
    proof {
        let rest = pair@.subrange(k as int, n as int);
        if k < n {
            assert(rest[0] == '=');
            assert(rest.drop_first() =~= pair@.subrange(k + 1, n as int));
        } else {
            assert(rest.len() == 0);
        }
        assert(pair@.subrange(0, k as int) + Seq::<char>::empty() =~= pair@.subrange(0, k as int));
    }
    (key, value)
}

/// Reads a form-encoded request body (see `query_string_body_spec`).
pub fn parse_query_string_graphql_body(body_bytes: &[u8]) -> (r: Fallible<(String, Option<String>, Option<String>)>)
    ensures
        match query_string_body_spec(body_bytes@) {
            Ok((q, o, v)) => r matches Ok(t) && t.0@ == q && opt_str_view(t.1) == o && opt_str_view(t.2) == v,
            Err(m) => r matches Err(e) && e@ == m,
        },
{
    let text = match utf8_text(body_bytes) {
        Ok(t) => t,
        Err(m) => {
            return Err(Error::msg(m).context(String::from_str("GraphQL query string payload must be valid UTF-8")));
        },
    };
    let pairs = split_on_char(text.as_str(), '&');
    let ghost pv = strs_view(pairs@);
    let mut query: Option<String> = None;
    let mut operation_name: Option<String> = None;
    let mut variables: Option<String> = None;
    let mut i: usize = 0;
    assert(pv.subrange(0, 0) =~= Seq::<Seq<char>>::empty());
    while i < pairs.len()
        invariant
            i <= pairs@.len(),
            pv == strs_view(pairs@),
            pv == split_on(text@, '&'),
            utf8_decoded(body_bytes@) == Ok::<Seq<char>, Seq<char>>(text@),
            form_fields_spec(pv.subrange(0, i as int)) == Ok::<FormFields, Seq<char>>(
                (opt_str_view(query), opt_str_view(operation_name), opt_str_view(variables)),
            ),
        decreases pairs.len() - i,
    {
        let ghost pre = pv.subrange(0, i + 1);
        proof {
            assert(pre.drop_last() =~= pv.subrange(0, i as int));
            assert(pre.last() == pairs@[i as int]@);
        }
        let pair = pairs[i].as_str();
        if pair.unicode_len() > 0 {
            let (key, raw) = split_pair(pair);
            let decoded = match decode_form_value(raw.as_str()) {
                Ok(d) => d,
                Err(e) => {
                    proof {
                        lemma_form_fields_prefix(pv, i + 1);
                    }
                    return Err(e);
                },
            };
            if str_eq(key.as_str(), "query") {
                query = Some(decoded);
            } else if str_eq(key.as_str(), "operationName") {
                operation_name = if decoded.unicode_len() == 0 {
                    None
                } else {
                    Some(decoded)
                };
            } else if str_eq(key.as_str(), "variables") {
                variables = if is_blank(decoded.as_str()) {
                    None
                } else {
                    Some(decoded)
                };
            }
        }
        i += 1;
    }
    proof {
        assert(pv.subrange(0, pairs@.len() as int) =~= pv);
    }
    match query {
        Some(q) => Ok((q, operation_name, variables)),
        None => Err(Error::msg(String::from_str("GraphQL query string body missing `query` parameter"))),
    }
}

proof fn lemma_form_fields_prefix(pairs: Seq<Seq<char>>, k: int)
    requires
        0 <= k <= pairs.len(),
        form_fields_spec(pairs.subrange(0, k)) is Err,
    ensures
        form_fields_spec(pairs) == form_fields_spec(pairs.subrange(0, k)),
    decreases pairs.len() - k,
{
    if k == pairs.len() {
        assert(pairs.subrange(0, k) =~= pairs);
    } else {
        assert(pairs.subrange(0, k + 1).drop_last() =~= pairs.subrange(0, k));
        lemma_form_fields_prefix(pairs, k + 1);
    }
}

/// Where the schema of a stored interaction comes from.
pub enum SchemaIndicator {
    /// No schema.
    Absent,
    /// A schema in the registry, by hash.
    Registry(String),
    /// A schema carried inline, base64-encoded.
    Inline(String),
}

/// The schema an indicator names: none when absent or blank; a hash when it is one (after
/// trimming); else base64 SDL.
pub fn classify_schema_indicator(schema_base64: Option<&str>) -> (r: SchemaIndicator)
    ensures
        match schema_base64 {
            None => r is Absent,
            Some(s) => {
                let t = crate::text::trim_spec(s@);
                if t.len() == 0 {
                    r is Absent
                } else if is_schema_hash_spec(t) {
                    r matches SchemaIndicator::Registry(h) && h@ == t
                } else {
                    r matches SchemaIndicator::Inline(b) && b@ == t
                }
            },
        },
{
    match schema_base64 {
        None => SchemaIndicator::Absent,
        Some(s) => {
            let t = crate::text::trim(s);
            if t.unicode_len() == 0 {
                SchemaIndicator::Absent
            } else if is_schema_hash(t.as_str()) {
                SchemaIndicator::Registry(t)
            } else {
                SchemaIndicator::Inline(t)
            }
        },
    }
}

/// The canonical SDL, or none when it is empty.
pub open spec fn nonempty_sdl(sdl: Seq<char>) -> Option<Seq<char>> {
    let c = canonicalize_sdl_spec(sdl);
    if c.len() == 0 { None } else { Some(c) }
}

pub fn nonempty_canonical_sdl(sdl: &str) -> (r: Option<String>)
    ensures
        opt_str_view(r) == nonempty_sdl(sdl@),
{
    let c = canonicalize_sdl(sdl);
    if c.unicode_len() == 0 {
        None
    } else {
        Some(c)
    }
}

/// The SDL base64 text holds, canonical, or none when it is empty.
pub open spec fn sdl_from_base64_spec(encoded: Seq<char>) -> Result<Option<Seq<char>>, Seq<Seq<char>>> {
    match base64_decoded(encoded) {
        Err(m) => Err(seq!["failed to decode inline schema base64"@, m]),
        Ok(bytes) => match utf8_decoded(bytes) {
            Err(m) => Err(seq!["inline schema base64 must decode to UTF-8 text"@, m]),
            Ok(sdl) => Ok(nonempty_sdl(sdl)),
        },
    }
}

pub fn sdl_from_base64(encoded: &str) -> (r: Fallible<Option<String>>)
    ensures
        match sdl_from_base64_spec(encoded@) {
            Ok(o) => r matches Ok(x) && opt_str_view(x) == o,
            Err(m) => r matches Err(e) && e@ == m,
        },
{
    let bytes = match base64_decode(encoded) {
        Ok(b) => b,
        Err(m) => {
            return Err(Error::msg(m).context(String::from_str("failed to decode inline schema base64")));
        },
    };
    let sdl = match utf8_text(bytes.as_slice()) {
        Ok(s) => s,
        Err(m) => {
            return Err(Error::msg(m).context(String::from_str("inline schema base64 must decode to UTF-8 text")));
        },
    };
    Ok(nonempty_canonical_sdl(sdl.as_str()))
}

/// The SDL an inline schema's base64 text decodes to; none without one.
pub open spec fn inline_sdl_spec(base64: Option<Seq<char>>) -> Result<Option<Seq<char>>, Seq<Seq<char>>> {
    match base64 {
        None => Ok(None),
        Some(b) => match base64_decoded(b) {
            Err(m) => Err(seq!["failed to decode inline schema base64"@, m]),
            Ok(bytes) => match utf8_decoded(bytes) {
                Err(m) => Err(seq!["inline schema base64 must decode to UTF-8 text"@, m]),
                Ok(sdl) => Ok(Some(sdl)),
            },
        },
    }
}

/// The inline schema of a canonical SDL: its base64 text, which decodes back to the SDL.
pub fn inline_schema_of(canonical_sdl: Option<&str>) -> (r: Option<GraphqlInlineSchema>)
    ensures
        match canonical_sdl {
            Some(s) => r matches Some(x) && opt_str_view(x.base64_sdl) == Some(base64_of_text(s@)),
            None => r is None,
        },
        inline_sdl_spec(inline_base64(r)) == Ok::<Option<Seq<char>>, Seq<Seq<char>>>(
            match canonical_sdl { Some(s) => Some(s@), None => None },
        ),
{
    match canonical_sdl {
        Some(s) => Some(GraphqlInlineSchema { base64_sdl: Some(base64_encode_text(s)) }),
        None => None,
    }
}

impl CanonicalGraphqlRequest {
    /// The SDL of the inline schema, decoded; none when there is no inline SDL.
    pub fn inline_schema_sdl(&self) -> (r: Fallible<Option<String>>)
        ensures
            match inline_sdl_spec(inline_base64(self.inline_schema)) {
                Ok(o) => r matches Ok(x) && opt_str_view(x) == o,
                Err(m) => r matches Err(e) && e@ == m,
            },
    {
        let base64 = match &self.inline_schema {
            Some(schema) => match &schema.base64_sdl {
                Some(b) => b,
                None => {
                    return Ok(None);
                },
            },
            None => {
                return Ok(None);
            },
        };
        let bytes = match base64_decode(base64.as_str()) {
            Ok(b) => b,
            Err(m) => {
                return Err(Error::msg(m).context(String::from_str("failed to decode inline schema base64")));
            },
        };
        match utf8_text(bytes.as_slice()) {
            Ok(s) => Ok(Some(s)),
            Err(m) => Err(Error::msg(m).context(String::from_str("inline schema base64 must decode to UTF-8 text"))),
        }
    }
}

/// Every schema-aware check at configure time: the document against the schema, then the
/// supplied variables against the selected operation's declarations. When no single operation
/// can be selected and inlined, there are no declarations to check against.
pub open spec fn validate_against_schema_spec(
    idx: SpecSchemaIndex,
    doc: QueryDocument,
    name: Option<Seq<char>>,
    variables: Option<Seq<char>>,
) -> Result<(), Seq<Seq<char>>> {
    match crate::validation::validate_document_spec(idx, doc.definitions@, name) {
        Err(m) => Err(seq![m]),
        Ok(_) => match parse_and_inline_spec(doc.definitions@, name) {
            Err(_) => Ok(()),
            Ok(op) => match variables {
                Some(raw) => match json_parse(raw) {
                    Err(m) => Err(seq!["failed to parse GraphQL variables_json as JSON"@, m]),
                    Ok(v) => match crate::variables::validate_variables_spec(idx.types, op, Some(v)) {
                        Err(m) => Err(seq![m]),
                        Ok(_) => Ok(()),
                    },
                },
                None => match crate::variables::validate_variables_spec(idx.types, op, None) {
                    Err(m) => Err(seq![m]),
                    Ok(_) => Ok(()),
                },
            },
        },
    }
}

pub fn validate_against_schema(
    schema_index: &SchemaIndex,
    doc: &QueryDocument,
    operation_name: Option<&str>,
    variables_json: Option<&str>,
) -> (r: Fallible<()>)
    requires
        schema_index.wf(),
    ensures
        match validate_against_schema_spec(
            schema_index@,
            *doc,
            match operation_name { Some(n) => Some(n@), None => None },
            match variables_json { Some(v) => Some(v@), None => None },
        ) {
            Ok(_) => r is Ok,
            Err(m) => r matches Err(e) && e@ == m,
        },
{
    crate::validation::validate_document(schema_index, doc, operation_name)?;
    let operation = match inline_operation(doc, operation_name) {
        Ok(op) => op,
        Err(_) => {
            return Ok(());
        },
    };
    let variables = match variables_json {
        Some(raw) => match parse_json(raw) {
            Ok(v) => Some(v),
            Err(m) => {
                return Err(Error::msg(m).context(String::from_str("failed to parse GraphQL variables_json as JSON")));
            },
        },
        None => None,
    };
    let vref: Option<&Json> = match &variables {
        Some(v) => Some(v),
        None => None,
    };
    crate::variables::validate_variables(schema_index, &operation, vref)
}


/// The canonical text of a query: a text that is not a GraphQL document is kept, dedented and
/// trimmed; otherwise the selected operation, with its fragments inlined, as graphql_parser
/// prints it, trimmed.
pub open spec fn canonical_query_spec(raw: Seq<char>, name: Option<Seq<char>>) -> Result<Seq<char>, Seq<Seq<char>>> {
    match query_reading(raw) {
        Err(_) => Ok(dedent_and_trim_spec(raw)),
        Ok(doc) => match parse_and_inline_spec(doc.definitions@, name) {
            Err(m) => Err(seq![m]),
            Ok(op) => Ok(crate::text::trim_spec(operation_text(op))),
        },
    }
}

/// The canonical text of a query (see `canonical_query_spec`).
pub fn canonicalize_query(input: &str, operation_name: Option<&str>) -> (r: Fallible<String>)
    ensures
        match canonical_query_spec(input@, match operation_name { Some(n) => Some(n@), None => None }) {
            Ok(t) => r matches Ok(s) && s@ == t,
            Err(m) => r matches Err(e) && e@ == m,
        },
{
    match read_query(input) {
        Err(_) => Ok(dedent_and_trim(input)),
        Ok(doc) => {
            let op = inline_operation(&doc, operation_name)?;
            let printed = print_operation(&op);
            Ok(crate::text::trim(printed.as_str()))
        },
    }
}

pub open spec fn fallible_text(r: Fallible<String>) -> Result<Seq<char>, Seq<Seq<char>>> {
    match r {
        Ok(s) => Ok(s@),
        Err(e) => Err(e@),
    }
}

/// The check of a canonical query against the canonical schema it comes with: the schema's
/// index (see `from_sdl_spec`), then the canonical query read back and validated with the
/// variables (see `validate_against_schema_spec`).
pub open spec fn schema_check_spec(
    sdl: Seq<char>,
    query: Seq<char>,
    name: Option<Seq<char>>,
    variables: Option<Seq<char>>,
) -> Result<(), Seq<Seq<char>>> {
    match from_sdl_spec(sdl) {
        Err(e) => Err(seq!["failed to parse GraphQL schema SDL"@] + e),
        Ok(idx) => match query_reading(query) {
            Err(m) => Err(seq!["GraphQL query validation failed"@, "failed to parse GraphQL query document"@, m]),
            Ok(doc) => match validate_against_schema_spec(idx, doc, name, variables) {
                Ok(_) => Ok(()),
                Err(m) => Err(seq!["GraphQL query validation failed"@] + m),
            },
        },
    }
}

fn check_schema(sdl: &str, query: &str, operation_name: Option<&str>, variables_json: Option<&str>) -> (r: Fallible<()>)
    ensures
        match schema_check_spec(
            sdl@,
            query@,
            match operation_name { Some(n) => Some(n@), None => None },
            match variables_json { Some(v) => Some(v@), None => None },
        ) {
            Ok(_) => r is Ok,
            Err(m) => r matches Err(e) && e@ == m,
        },
{
    let index = match SchemaIndex::from_sdl(sdl) {
        Ok(i) => i,
        Err(e) => {
            return Err(e.context(String::from_str("failed to parse GraphQL schema SDL")));
        },
    };
    let doc = match read_query(query) {
        Ok(d) => d,
        Err(m) => {
            return Err(
                Error::msg(m).context(String::from_str("failed to parse GraphQL query document")).context(
                    String::from_str("GraphQL query validation failed"),
                ),
            );
        },
    };
    match validate_against_schema(&index, &doc, operation_name, variables_json) {
        Ok(()) => Ok(()),
        Err(e) => Err(e.context(String::from_str("GraphQL query validation failed"))),
    }
}

/// A canonical request from its parts: the query must not be blank; then the canonical query,
/// the canonical variables and the canonical schema, each of which may fail; then, when there
/// is a schema, validation against it. The result is the canonical query, variables and SDL.
pub open spec fn assemble_spec(
    raw_query: Seq<char>,
    name: Option<Seq<char>>,
    variables: Option<Seq<char>>,
    canonical_schema: Result<Option<Seq<char>>, Seq<Seq<char>>>,
) -> Result<(Seq<char>, Option<Seq<char>>, Option<Seq<char>>), Seq<Seq<char>>> {
    if blank(raw_query) {
        Err(seq!["query_document is required"@])
    } else {
        match canonical_query_spec(raw_query, name) {
            Err(e) => Err(e),
            Ok(q) => match canonicalize_variables_spec(variables) {
                Err(e) => Err(e),
                Ok(v) => match canonical_schema {
                    Err(e) => Err(e),
                    Ok(None) => Ok((q, v, None)),
                    Ok(Some(sdl)) => match schema_check_spec(sdl, q, name, v) {
                        Err(e) => Err(e),
                        Ok(_) => Ok((q, v, Some(sdl))),
                    },
                },
            },
        }
    }
}

/// The inline schema of an optional canonical SDL, as `inline_view` sees it.
pub open spec fn inline_of_sdl(sdl: Option<Seq<char>>) -> Option<Option<Seq<char>>> {
    match sdl {
        Some(t) => Some(Some(base64_of_text(t))),
        None => None,
    }
}

/// The canonical request `assemble_spec` describes, with its transport and matching mode.
pub open spec fn assembled(
    r: Fallible<CanonicalGraphqlRequest>,
    outcome: Result<(Seq<char>, Option<Seq<char>>, Option<Seq<char>>), Seq<Seq<char>>>,
    name: Option<Seq<char>>,
    transport: Transport,
    query_matching: QueryMatching,
) -> bool {
    match outcome {
        Err(m) => r matches Err(e) && e@ == m,
        Ok((q, v, sdl)) => r matches Ok(c) && {
            &&& c.payload@ == (SpecPayload { query_document: q, operation_name: name, variables_json: v, transport })
            &&& inline_view(c.inline_schema) == inline_of_sdl(sdl)
            &&& inline_sdl_spec(inline_base64(c.inline_schema)) == Ok::<Option<Seq<char>>, Seq<Seq<char>>>(sdl)
            &&& c.query_matching == query_matching
        },
    }
}

fn assemble(
    raw_query: &str,
    operation_name: Option<String>,
    variables_json: Option<String>,
    transport: Transport,
    canonical_schema: Fallible<Option<String>>,
    query_matching: QueryMatching,
) -> (r: Fallible<CanonicalGraphqlRequest>)
    ensures
        assembled(
            r,
            assemble_spec(
                raw_query@,
                opt_str_view(operation_name),
                opt_str_view(variables_json),
                match canonical_schema { Ok(o) => Ok(opt_str_view(o)), Err(e) => Err(e@) },
            ),
            opt_str_view(operation_name),
            transport,
            query_matching,
        ),
{
    if is_blank(raw_query) {
        return Err(Error::msg(String::from_str("query_document is required")));
    }
    let name: Option<&str> = match &operation_name {
        Some(n) => Some(n.as_str()),
        None => None,
    };
    let query_document = canonicalize_query(raw_query, name)?;
    let variables_json = canonicalize_variables(variables_json)?;
    let canonical_schema = canonical_schema?;
    if let Some(sdl) = &canonical_schema {
        let vars: Option<&str> = match &variables_json {
            Some(v) => Some(v.as_str()),
            None => None,
        };
        check_schema(sdl.as_str(), query_document.as_str(), name, vars)?;
    }
    let inline_schema = match &canonical_schema {
        Some(sdl) => inline_schema_of(Some(sdl.as_str())),
        None => None,
    };
    Ok(CanonicalGraphqlRequest {
        payload: GraphqlRequestPayload { query_document, operation_name, variables_json, transport },
        inline_schema,
        query_matching,
    })
}

/// The canonical SDL of a request's optional schema text, or none when it is empty.
pub open spec fn request_sdl(schema_sdl: Option<Seq<char>>) -> Option<Seq<char>> {
    match schema_sdl {
        Some(s) => nonempty_sdl(s),
        None => None,
    }
}

impl CanonicalGraphqlRequest {
    /// The canonical request of a consumer's interaction configuration (see `assemble_spec`).
    pub fn from_interaction_config(req: &GraphqlPluginRequest) -> (r: Fallible<CanonicalGraphqlRequest>)
        ensures
            assembled(
                r,
                assemble_spec(
                    req.query_document@,
                    opt_str_view(req.operation_name),
                    opt_str_view(req.variables_json),
                    Ok(request_sdl(opt_str_view(req.schema_sdl))),
                ),
                opt_str_view(req.operation_name),
                req.transport,
                req.query_matching,
            ),
    {
        let canonical_schema: Option<String> = match &req.schema_sdl {
            Some(s) => nonempty_canonical_sdl(s.as_str()),
            None => None,
        };
        assemble(
            req.query_document.as_str(),
            crate::ast::clone_opt_string(&req.operation_name),
            crate::ast::clone_opt_string(&req.variables_json),
            req.transport,
            Ok(canonical_schema),
            req.query_matching,
        )
    }
}


/// The transport and raw GraphQL parts of an HTTP request body: the transport its content type
/// names (else the expected one), then the body read as that transport writes it.
pub open spec fn http_body_spec(body: Seq<u8>, content_type: Seq<char>, expected: Transport) -> Result<
    (Transport, Seq<char>, Option<Seq<char>>, Option<Seq<char>>),
    Seq<Seq<char>>,
> {
    let t = detect_transport_spec(content_type, expected);
    let parts = match t {
        Transport::JsonBody => json_graphql_body_spec(body),
        Transport::QueryString => query_string_body_spec(body),
    };
    match parts {
        Err(e) => Err(e),
        Ok((q, n, v)) => Ok((t, q, n, v)),
    }
}

/// Reads an HTTP request body (see `http_body_spec`): the transport, query, operation name
/// and variables.
pub fn read_http_body(body_bytes: &[u8], content_type: &str, expected_transport: Transport) -> (r: Fallible<
    (Transport, String, Option<String>, Option<String>),
>)
    ensures
        match http_body_spec(body_bytes@, content_type@, expected_transport) {
            Err(m) => r matches Err(e) && e@ == m,
            Ok((t, q, n, v)) => r matches Ok(x) && x.0 == t && x.1@ == q && opt_str_view(x.2) == n && opt_str_view(x.3)
                == v,
        },
{
    let transport = detect_transport(content_type, expected_transport);
    let (query, name, variables) = match transport {
        Transport::JsonBody => parse_json_graphql_body(body_bytes)?,
        Transport::QueryString => parse_query_string_graphql_body(body_bytes)?,
    };
    Ok((transport, query, name, variables))
}

/// The hash a schema indicator names, when it names a schema in the registry.
pub open spec fn registry_hash(schema_base64: Option<Seq<char>>) -> Option<Seq<char>> {
    match schema_base64 {
        None => None,
        Some(s) => {
            let t = crate::text::trim_spec(s);
            if t.len() > 0 && is_schema_hash_spec(t) {
                Some(t)
            } else {
                None
            }
        },
    }
}

pub open spec fn fallible_text_opt(r: Option<Fallible<String>>) -> Option<Result<Seq<char>, Seq<Seq<char>>>> {
    match r {
        Some(x) => Some(fallible_text(x)),
        None => None,
    }
}

/// The canonical SDL a schema indicator stands for: none when absent or blank; the registry's
/// text for a hash (`registry_text`, the registry's reading of that hash); else the SDL the
/// base64 text holds. An empty SDL is none.
pub open spec fn resolve_schema_spec(
    schema_base64: Option<Seq<char>>,
    registry_text: Option<Result<Seq<char>, Seq<Seq<char>>>>,
) -> Result<Option<Seq<char>>, Seq<Seq<char>>> {
    match schema_base64 {
        None => Ok(None),
        Some(s) => {
            let t = crate::text::trim_spec(s);
            if t.len() == 0 {
                Ok(None)
            } else if is_schema_hash_spec(t) {
                match registry_text {
                    Some(Ok(text)) => Ok(nonempty_sdl(text)),
                    Some(Err(e)) => Err(e),
                    None => Ok(None),
                }
            } else {
                sdl_from_base64_spec(t)
            }
        },
    }
}

/// The canonical SDL of a schema indicator (see `resolve_schema_spec`); the registry's text is
/// due whenever the indicator is a hash.
pub fn resolve_schema(schema_base64: Option<&str>, registry_text: Option<Fallible<String>>) -> (r: Fallible<
    Option<String>,
>)
    requires
        registry_hash(match schema_base64 { Some(s) => Some(s@), None => None }) is Some ==> registry_text is Some,
    ensures
        match resolve_schema_spec(match schema_base64 { Some(s) => Some(s@), None => None }, fallible_text_opt(registry_text)) {
            Ok(o) => r matches Ok(x) && opt_str_view(x) == o,
            Err(m) => r matches Err(e) && e@ == m,
        },
{
    match classify_schema_indicator(schema_base64) {
        SchemaIndicator::Absent => Ok(None),
        SchemaIndicator::Registry(_) => match registry_text {
            Some(Ok(text)) => Ok(nonempty_canonical_sdl(text.as_str())),
            Some(Err(e)) => Err(e),
            None => Ok(None),
        },
        SchemaIndicator::Inline(encoded) => sdl_from_base64(encoded.as_str()),
    }
}

impl CanonicalGraphqlRequest {
    /// The canonical request of an HTTP request a provider received (see `http_body_spec` and
    /// `assemble_spec`), its schema named by `schema_base64`; `registry_text` is the registry's
    /// text for the schema hash, when `schema_base64` names one.
    pub fn from_http_request(
        body_bytes: &[u8],
        content_type: &str,
        expected_transport: Transport,
        schema_base64: Option<&str>,
        registry_text: Option<Fallible<String>>,
        query_matching: QueryMatching,
    ) -> (r: Fallible<CanonicalGraphqlRequest>)
        requires
            registry_hash(match schema_base64 { Some(s) => Some(s@), None => None }) is Some ==> registry_text is Some,
        ensures
            match http_body_spec(body_bytes@, content_type@, expected_transport) {
                Err(m) => r matches Err(e) && e@ == m,
                Ok((t, q, n, v)) => assembled(
                    r,
                    assemble_spec(
                        q,
                        n,
                        v,
                        resolve_schema_spec(match schema_base64 { Some(s) => Some(s@), None => None }, fallible_text_opt(registry_text)),
                    ),
                    n,
                    t,
                    query_matching,
                ),
            },
    {
        let (transport, raw_query, operation_name, raw_variables) = read_http_body(body_bytes, content_type, expected_transport)?;
        let canonical_schema = resolve_schema(schema_base64, registry_text);
        assemble(raw_query.as_str(), operation_name, raw_variables, transport, canonical_schema, query_matching)
    }
}

} // verus!
