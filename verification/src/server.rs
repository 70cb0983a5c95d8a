//! The plugin's decisions around the Pact plugin protocol: which schema a stored interaction
//! points to, how a request body is written, how validation failures are reported, and where
//! an interaction's configuration sits in a pact file.
use vstd::prelude::*;

use std::sync::Arc;

use crate::ast::opt_str_view;
use crate::encoder::{encode_spec, GraphqlRequest, RequestEncoder, SpecGraphqlRequest, Transport};
use crate::error::{Error, Fallible};
use crate::interaction::{inline_view, GraphqlInteractionBuilder, GraphqlPluginConfig};
use crate::json::{entry_get, json_items_view, object_get, Json, SpecJson};
use crate::json_text::{json_parse, json_parse_bytes, parse_json, parse_json_bytes};
use crate::response::{rms_view, validate_response, validate_response_text_spec, ResponseMismatch, SpecResponseMismatch};
use crate::schema_index::{from_sdl_spec, SchemaIndex};
use crate::ast::QueryDocument;
use crate::payload::{
    fallible_text_opt, inline_base64, inline_sdl_spec, mismatches_view, mk_mismatch, opt_as_str, read_document,
    registry_hash, request_diff_spec, resolve_schema, resolve_schema_spec, CanonicalGraphqlRequest,
    RequestMismatch, SpecMismatch,
};
use crate::schema::SchemaRegistry;
use crate::text::{blank, cat2, cat3, contains_spec, is_blank, join, join_spec, str_eq};
use crate::rules::{derive_matching_rules, derive_rules_spec, rules_view, DerivedRule, SpecRule};

verus! {

broadcast use vstd::std_specs::vec::group_vec_axioms;

/// The content type of GraphQL request bodies, in either transport.
pub open spec fn graphql_content_type() -> Seq<char> {
    "application/graphql"@
}

/// The description of a mismatch that reports a failed validation.
pub open spec fn validation_failed() -> Seq<char> {
    "GraphQL query validation failed"@
}

/// The GraphQL plugin: an interaction builder over a schema registry.
pub struct GraphqlPlugin {
    pub builder: GraphqlInteractionBuilder,
}

impl GraphqlPlugin {
    /// A plugin whose registry is rooted at `schema_root` (the directory is made by the caller).
    pub fn new(schema_root: &str) -> (r: GraphqlPlugin)
        ensures
            r.builder.registry.root@ == schema_root@,
    {
        Self::with_registry(SchemaRegistry::new(schema_root))
    }

    pub fn with_registry(registry: SchemaRegistry) -> (r: GraphqlPlugin)
        ensures
            *r.builder.registry == registry,
    {
        let registry = Arc::new(registry);
        let builder = GraphqlInteractionBuilder::new(registry);
        GraphqlPlugin { builder }
    }
}

/// The schema a stored interaction points to: its inline SDL, else the legacy SDL field, each
/// only when not blank, else the hash of its schema reference.
pub open spec fn schema_indicator_spec(
    inline_schema: Option<Option<Seq<char>>>,
    legacy: Option<Seq<char>>,
    schema_ref_hash: Option<Seq<char>>,
) -> Option<Seq<char>> {
    match inline_schema {
        Some(Some(b)) if !blank(b) => Some(b),
        _ => match legacy {
            Some(l) if !blank(l) => Some(l),
            _ => schema_ref_hash,
        },
    }
}

pub fn schema_indicator(config: &GraphqlPluginConfig) -> (r: Option<String>)
    ensures
        opt_str_view(r) == schema_indicator_spec(
            inline_view(config.inline_schema),
            opt_str_view(config.schema_inline_base64),
            match config.schema_ref { Some(s) => Some(s.hash@), None => None },
        ),
{
    match &config.inline_schema {
        Some(inline) => match &inline.base64_sdl {
            Some(b) => {
                if !is_blank(b.as_str()) {
                    return Some(b.clone());
                }
            },
            None => {},
        },
        None => {},
    }
    match &config.schema_inline_base64 {
        Some(l) => {
            if !is_blank(l.as_str()) {
                return Some(l.clone());
            }
        },
        None => {},
    }
    match &config.schema_ref {
        Some(reference) => Some(reference.hash.clone()),
        None => None,
    }
}

/// The content type assumed for a body that names none: `application/graphql`.
pub fn default_content_type(transport: &Transport) -> (r: String)
    ensures
        r@ == graphql_content_type(),
{
    match transport {
        Transport::JsonBody => String::from_str("application/graphql"),
        Transport::QueryString => String::from_str("application/graphql"),
    }
}

/// Whether some message of the error's chain says that validation failed.
pub fn is_validation_error(err: &Error) -> (r: bool)
    ensures
        r == exists|i: int| 0 <= i < err@.len() && contains_spec(#[trigger] err@[i], validation_failed()),
{
    err.chain_contains("GraphQL query validation failed")
}

/// The mismatch that reports a failed validation: the expected query, nothing actual, and the
/// error's chain of messages, one per line, as its diff.
pub fn validation_mismatch_from_error(err: &Error, expected_query: &str) -> (r: RequestMismatch)
    ensures
        r@ == (SpecMismatch {
            path: "/payload/query_document"@,
            expected: expected_query@,
            actual: Seq::empty(),
            description: validation_failed(),
            diff: join_spec(err@, "\n"@),
        }),
{
    RequestMismatch {
        path: String::from_str("/payload/query_document"),
        expected: expected_query.to_owned(),
        actual: String::new(),
        description: String::from_str("GraphQL query validation failed"),
        diff: err.joined("\n"),
    }
}

/// The request a configuration describes, in its transport.
pub open spec fn config_request(c: crate::interaction::SpecConfig) -> SpecGraphqlRequest {
    SpecGraphqlRequest {
        query_document: c.query_document,
        operation_name: c.operation_name,
        variables_json: c.variables_json,
        transport: c.transport,
    }
}

/// A request body: its content type and its text.
pub struct EncodedBody {
    pub content_type: String,
    pub content: Option<String>,
}

/// The body of the request a configuration describes: `application/graphql`, with the JSON
/// body or the query string its transport makes.
pub fn encode_body(config: &GraphqlPluginConfig) -> (r: Fallible<EncodedBody>)
    ensures
        match encode_spec(config_request(config@)) {
            Ok((body, query)) => r matches Ok(b) && b.content_type@ == graphql_content_type() && opt_str_view(b.content) == match config.transport {
                Transport::JsonBody => body,
                Transport::QueryString => query,
            },
            Err(m) => r matches Err(e) && e@ == m,
        },
{
    let request = match config.transport {
        Transport::JsonBody => GraphqlRequest::json(
            config.query_document.as_str(),
            crate::ast::clone_opt_string(&config.operation_name),
            crate::ast::clone_opt_string(&config.variables_json),
        ),
        Transport::QueryString => GraphqlRequest::query_string(
            config.query_document.as_str(),
            crate::ast::clone_opt_string(&config.operation_name),
            crate::ast::clone_opt_string(&config.variables_json),
        ),
    };
    let encoded = RequestEncoder::encode(&request)?;
    match config.transport {
        Transport::JsonBody => Ok(EncodedBody { content_type: String::from_str("application/graphql"), content: encoded.body }),
        Transport::QueryString => Ok(EncodedBody { content_type: String::from_str("application/graphql"), content: encoded.query_string }),
    }
}

/// The key an interaction of a pact goes by: `key`, else `interactionId`, else `id` (the
/// first present; it counts only when it is a string).
pub open spec fn interaction_key_spec(es: Seq<(Seq<char>, SpecJson)>) -> Option<SpecJson> {
    match entry_get(es, "key"@) {
        Some(v) => Some(v),
        None => match entry_get(es, "interactionId"@) {
            Some(v) => Some(v),
            None => entry_get(es, "id"@),
        },
    }
}

/// `interaction` is an object whose key is the string `key`.
pub open spec fn interaction_has_key(interaction: SpecJson, key: Seq<char>) -> bool {
    match interaction {
        SpecJson::Object(es) => interaction_key_spec(es) == Some(SpecJson::Str(key)),
        _ => false,
    }
}

/// The first interaction with key `key`.
pub open spec fn find_interaction(items: Seq<SpecJson>, key: Seq<char>) -> Option<SpecJson>
    decreases items.len(),
{
    if items.len() == 0 {
        None
    } else if interaction_has_key(items[0], key) {
        Some(items[0])
    } else {
        find_interaction(items.drop_first(), key)
    }
}

/// `v.get(key)` for an object; nothing for anything else.
pub open spec fn get_spec(v: SpecJson, key: Seq<char>) -> Option<SpecJson> {
    match v {
        SpecJson::Object(es) => entry_get(es, key),
        _ => None,
    }
}

/// The stored configuration of the GraphQL plugin for the interaction `key` of a pact:
/// `pluginConfiguration.graphql.interactionConfiguration` of the first interaction with that
/// key, or the error that says what is missing.
pub open spec fn pact_config_spec(pact: Seq<char>, key: Seq<char>) -> Result<SpecJson, Seq<Seq<char>>> {
    match json_parse(pact) {
        Err(m) => Err(seq!["failed to parse pact JSON"@, m]),
        Ok(v) => match get_spec(v, "interactions"@) {
            Some(SpecJson::List(items)) => match find_interaction(items, key) {
                None => Err(seq!["interaction with key '"@ + key + "' not found in pact"@]),
                Some(interaction) => match get_spec(interaction, "pluginConfiguration"@) {
                    Some(pc) => match get_spec(pc, "graphql"@) {
                        Some(g) => match get_spec(g, "interactionConfiguration"@) {
                            Some(ic) => Ok(ic),
                            None => Err(seq!["plugin configuration for 'graphql' not found in pact interaction"@]),
                        },
                        None => Err(seq!["plugin configuration for 'graphql' not found in pact interaction"@]),
                    },
                    None => Err(seq!["plugin configuration for 'graphql' not found in pact interaction"@]),
                },
            },
            _ => Err(seq!["pact JSON did not contain an interactions array"@]),
        },
    }
}

fn get_json<'a>(v: &'a Json, key: &str) -> (r: Option<&'a Json>)
    ensures
        r matches Some(x) ==> get_spec(v@, key@) == Some(x@),
        r is None ==> get_spec(v@, key@) is None,
{
    match v {
        Json::Object(es) => object_get(es, key),
        _ => None,
    }
}

fn has_key(interaction: &Json, key: &str) -> (r: bool)
    ensures
        r == interaction_has_key(interaction@, key@),
{
    let es = match interaction {
        Json::Object(es) => es,
        _ => {
            return false;
        },
    };
    let found = match object_get(es, "key") {
        Some(v) => Some(v),
        None => match object_get(es, "interactionId") {
            Some(v) => Some(v),
            None => object_get(es, "id"),
        },
    };
    match found {
        Some(Json::Str(s)) => str_eq(s.as_str(), key),
        _ => false,
    }
}

/// The stored configuration of the interaction `interaction_key` in a pact file (see
/// `pact_config_spec`).
pub fn config_from_pact(pact_json: &str, interaction_key: &str) -> (r: Fallible<Json>)
    ensures
        match pact_config_spec(pact_json@, interaction_key@) {
            Ok(v) => r matches Ok(j) && j@ == v,
            Err(m) => r matches Err(e) && e@ == m,
        },
{
    let pact = match parse_json(pact_json) {
        Ok(v) => v,
        Err(m) => {
            return Err(Error::msg(m).context(String::from_str("failed to parse pact JSON")));
        },
    };
    let items = match get_json(&pact, "interactions") {
        Some(Json::List(items)) => items,
        _ => {
            return Err(Error::msg(String::from_str("pact JSON did not contain an interactions array")));
        },
    };
    let ghost iv = json_items_view(items@);
    let mut i: usize = 0;
    assert(iv.subrange(0, iv.len() as int) =~= iv);
    while i < items.len()
        invariant
            i <= items@.len(),
            iv == json_items_view(items@),
            json_parse(pact_json@) == Ok::<SpecJson, Seq<char>>(pact@),
            get_spec(pact@, "interactions"@) == Some(SpecJson::List(iv)),
            find_interaction(iv, interaction_key@) == find_interaction(iv.subrange(i as int, iv.len() as int), interaction_key@),
        decreases items.len() - i,
    {
        let ghost rest = iv.subrange(i as int, iv.len() as int);
        proof {
            assert(rest[0] == iv[i as int]);
            assert(iv[i as int] == items@[i as int]@);
            assert(rest.drop_first() =~= iv.subrange(i + 1, iv.len() as int));
        }
        if has_key(&items[i], interaction_key) {
            let interaction = &items[i];
            let missing = "plugin configuration for 'graphql' not found in pact interaction";
            let pc = match get_json(interaction, "pluginConfiguration") {
                Some(x) => x,
                None => {
                    return Err(Error::msg(String::from_str(missing)));
                },
            };
            let g = match get_json(pc, "graphql") {
                Some(x) => x,
                None => {
                    return Err(Error::msg(String::from_str(missing)));
                },
            };
            return match get_json(g, "interactionConfiguration") {
                Some(x) => Ok(crate::json::clone_json(x)),
                None => Err(Error::msg(String::from_str(missing))),
            };
        }
        i += 1;
    }
    Err(Error::msg(cat3("interaction with key '", interaction_key, "' not found in pact")))
}


/// The canonical request a stored configuration expects: its request payload, inline schema
/// and matching mode.
pub fn expected_request(config: &GraphqlPluginConfig) -> (r: CanonicalGraphqlRequest)
    ensures
        r.payload@ == config.request@,
        inline_view(r.inline_schema) == inline_view(config.inline_schema),
        r.query_matching == config.query_matching,
{
    let inline_schema = match &config.inline_schema {
        Some(schema) => Some(schema.clone_schema()),
        None => None,
    };
    CanonicalGraphqlRequest {
        payload: config.request.clone_payload(),
        inline_schema,
        query_matching: config.query_matching,
    }
}

/// The content type of a body as received: the one it names, else the default of the
/// transport when it names none (a blank one).
pub fn content_type_or_default(content_type: &str, transport: &Transport) -> (r: String)
    ensures
        r@ == if blank(content_type@) { graphql_content_type() } else { content_type@ },
{
    if is_blank(content_type) {
        default_content_type(transport)
    } else {
        content_type.to_owned()
    }
}

/// Whether a chain of messages says that validation failed.
pub open spec fn says_validation_failed(chain: Seq<Seq<char>>) -> bool {
    exists|i: int| 0 <= i < chain.len() && contains_spec(#[trigger] chain[i], validation_failed())
}

/// The mismatches between the request a configuration expects and the one received: the
/// differences between the two canonical requests (see `CanonicalGraphqlRequest::diff`); when
/// the received one could not be made because validation failed, the one mismatch that
/// reports it; any other failure is the comparison's error.
pub open spec fn compare_requests_spec(
    expected: CanonicalGraphqlRequest,
    actual: Fallible<CanonicalGraphqlRequest>,
) -> Result<Seq<SpecMismatch>, Seq<Seq<char>>> {
    match actual {
        Ok(a) => Ok(request_diff_spec(
            expected.payload@,
            inline_base64(expected.inline_schema),
            expected.query_matching,
            a.payload@,
            inline_base64(a.inline_schema),
            read_document(expected.payload.query_document@),
            read_document(a.payload.query_document@),
        )),
        Err(e) => if says_validation_failed(e@) {
            Ok(seq![
                SpecMismatch {
                    path: "/payload/query_document"@,
                    expected: expected.payload.query_document@,
                    actual: Seq::empty(),
                    description: validation_failed(),
                    diff: join_spec(e@, "\n"@),
                },
            ])
        } else {
            Err(e@)
        },
    }
}

/// The mismatches between the request a configuration expects and the one received (see
/// `compare_requests_spec`).
pub fn compare_requests(
    expected: &CanonicalGraphqlRequest,
    actual: Fallible<CanonicalGraphqlRequest>,
) -> (r: Fallible<Vec<RequestMismatch>>)
    ensures
        match compare_requests_spec(*expected, actual) {
            Ok(ms) => r matches Ok(x) && mismatches_view(x@) == ms,
            Err(m) => r matches Err(e) && e@ == m,
        },
{
    match actual {
        Ok(a) => Ok(expected.diff(&a)),
        Err(e) => {
            if is_validation_error(&e) {
                let m = validation_mismatch_from_error(&e, expected.payload.query_document.as_str());
                let mut ms: Vec<RequestMismatch> = Vec::new();
                ms.push(m);
                proof {
                    assert(mismatches_view(ms@) =~= seq![ms@[0]@]);
                }
                Ok(ms)
            } else {
                Err(e)
            }
        },
    }
}


/// The outcome of verifying a received request: whether it matched, and every mismatch.
pub struct Verification {
    pub success: bool,
    pub mismatches: Vec<RequestMismatch>,
}

/// The verification of a received request against the one a configuration expects: the
/// mismatches `compare_requests` reports, in order, and success exactly when there are none.
pub fn verify_request(
    expected: &CanonicalGraphqlRequest,
    actual: Fallible<CanonicalGraphqlRequest>,
) -> (r: Fallible<Verification>)
    ensures
        match compare_requests_spec(*expected, actual) {
            Ok(ms) => r matches Ok(v) && mismatches_view(v.mismatches@) == ms && (v.success <==> ms.len() == 0),
            Err(m) => r matches Err(e) && e@ == m,
        },
{
    let mismatches = compare_requests(expected, actual)?;
    let success = mismatches.len() == 0;
    Ok(Verification { success, mismatches })
}

/// A received body is a GraphQL response when its content type starts with
/// `application/graphql-response`.
pub open spec fn is_response_content_type_spec(content_type: Seq<char>) -> bool {
    crate::text::occurs_at(content_type, "application/graphql-response"@, 0)
}

pub fn is_response_content_type(content_type: &str) -> (r: bool)
    ensures
        r == is_response_content_type_spec(content_type@),
{
    crate::text::matches_at(content_type, "application/graphql-response", 0)
}

/// The mismatches of a received GraphQL response against the request an interaction expects:
/// the body read as JSON (the reader's message when it is not JSON); then, when the
/// interaction has an inline schema (see `inline_sdl_spec`), its index (see `from_sdl_spec`)
/// and the response checked against the query's selections (see
/// `validate_response_text_spec`). Without an inline schema there is nothing to check the
/// response against, and nothing is reported.
pub open spec fn response_compare_spec(
    expected: CanonicalGraphqlRequest,
    body: Seq<u8>,
) -> Result<Seq<SpecResponseMismatch>, Seq<Seq<char>>> {
    match json_parse_bytes(body) {
        Err(m) => Err(seq![m]),
        Ok(response) => match inline_sdl_spec(inline_base64(expected.inline_schema)) {
            Err(e) => Err(e),
            Ok(None) => Ok(Seq::empty()),
            Ok(Some(sdl)) => match from_sdl_spec(sdl) {
                Err(e) => Err(e),
                Ok(idx) => validate_response_text_spec(
                    idx,
                    expected.payload.query_document@,
                    opt_str_view(expected.payload.operation_name),
                    response,
                ),
            },
        },
    }
}

/// The mismatches of a received GraphQL response (see `response_compare_spec`).
pub fn compare_response(expected: &CanonicalGraphqlRequest, body: &[u8]) -> (r: Fallible<Vec<ResponseMismatch>>)
    ensures
        match response_compare_spec(*expected, body@) {
            Ok(ms) => r matches Ok(v) && rms_view(v@) == ms,
            Err(m) => r matches Err(e) && e@ == m,
        },
{
    let response = match parse_json_bytes(body) {
        Ok(v) => v,
        Err(m) => {
            return Err(Error::msg(m));
        },
    };
    let sdl = match expected.inline_schema_sdl()? {
        Some(t) => t,
        None => {
            return Ok(Vec::new());
        },
    };
    let index = SchemaIndex::from_sdl(sdl.as_str())?;
    validate_response(&index, expected.payload.query_document.as_str(), opt_as_str(&expected.payload.operation_name), &response)
}

/// `path: description` for each mismatch.
pub open spec fn mismatch_lines(ms: Seq<SpecResponseMismatch>) -> Seq<Seq<char>> {
    ms.map_values(|m: SpecResponseMismatch| m.path + ": "@ + m.description)
}

/// The response part of an interaction: the expected response as given, and the matching
/// rules derived for it.
pub struct ResponsePart {
    pub body: String,
    pub rules: Vec<(String, DerivedRule)>,
}

/// The response part configured for the request an interaction expects: the response text is
/// required and must be JSON; when the interaction has an inline schema, the response must
/// agree with it and with the query's selections (each mismatch listed as `path:
/// description`), and the rules are those derived from the schema (see `derive_rules_spec`);
/// without one there is nothing to check or derive.
pub open spec fn configure_response_spec(
    expected: CanonicalGraphqlRequest,
    response_body_json: Option<Seq<char>>,
) -> Result<(Seq<char>, Seq<(Seq<char>, SpecRule)>), Seq<Seq<char>>> {
    match response_body_json {
        None => Err(seq!["response_body_json is required to configure a GraphQL response"@]),
        Some(text) => match json_parse(text) {
            Err(m) => Err(seq!["response_body_json must be valid JSON"@, m]),
            Ok(response) => match inline_sdl_spec(inline_base64(expected.inline_schema)) {
                Err(e) => Err(e),
                Ok(None) => Ok((text, Seq::empty())),
                Ok(Some(sdl)) => match from_sdl_spec(sdl) {
                    Err(e) => Err(seq!["failed to parse GraphQL schema SDL"@] + e),
                    Ok(idx) => {
                        let query = expected.payload.query_document@;
                        let name = opt_str_view(expected.payload.operation_name);
                        match validate_response_text_spec(idx, query, name, response) {
                            Err(e) => Err(e),
                            Ok(ms) => if ms.len() > 0 {
                                Err(seq!["GraphQL response validation failed: "@ + join_spec(mismatch_lines(ms), "; "@)])
                            } else {
                                match derive_rules_spec(idx, query, name, response) {
                                    Err(e) => Err(e),
                                    Ok(rs) => Ok((text, rs)),
                                }
                            },
                        }
                    },
                },
            },
        },
    }
}

/// The response part of an interaction (see `configure_response_spec`).
pub fn configure_response(expected: &CanonicalGraphqlRequest, response_body_json: Option<&str>) -> (r: Fallible<ResponsePart>)
    ensures
        match configure_response_spec(*expected, match response_body_json { Some(t) => Some(t@), None => None }) {
            Ok((body, rules)) => r matches Ok(p) && p.body@ == body && rules_view(p.rules@) == rules,
            Err(m) => r matches Err(e) && e@ == m,
        },
{
    let text = match response_body_json {
        Some(t) => t,
        None => {
            return Err(Error::msg(String::from_str("response_body_json is required to configure a GraphQL response")));
        },
    };
    let response = match parse_json(text) {
        Ok(v) => v,
        Err(m) => {
            return Err(Error::msg(m).context(String::from_str("response_body_json must be valid JSON")));
        },
    };
    let sdl = match expected.inline_schema_sdl()? {
        Some(t) => t,
        None => {
            let rules: Vec<(String, DerivedRule)> = Vec::new();
            assert(rules_view(rules@) =~= Seq::<(Seq<char>, SpecRule)>::empty());
            return Ok(ResponsePart { body: text.to_owned(), rules });
        },
    };
    let index = match SchemaIndex::from_sdl(sdl.as_str()) {
        Ok(i) => i,
        Err(e) => {
            return Err(e.context(String::from_str("failed to parse GraphQL schema SDL")));
        },
    };
    let query = expected.payload.query_document.as_str();
    let name = opt_as_str(&expected.payload.operation_name);
    let mismatches = validate_response(&index, query, name, &response)?;
    if mismatches.len() > 0 {
        let mut lines: Vec<String> = Vec::new();
        let mut i: usize = 0;
        while i < mismatches.len()
            invariant
                i <= mismatches@.len(),
                lines@.len() == i,
                forall|j: int| 0 <= j < i ==> #[trigger] lines@[j]@ == mismatches@[j].path@ + ": "@ + mismatches@[j].description@,
            decreases mismatches.len() - i,
        {
            lines.push(cat3(mismatches[i].path.as_str(), ": ", mismatches[i].description.as_str()));
            i += 1;
        }
        let detail = join(&lines, "; ");
        proof {
            assert(lines@.map_values(|s: String| s@) =~= mismatch_lines(rms_view(mismatches@)));
        }
        return Err(Error::msg(cat2("GraphQL response validation failed: ", detail.as_str())));
    }
    let rules = derive_matching_rules(&index, query, name, &response)?;
    Ok(ResponsePart { body: text.to_owned(), rules })
}

} // verus!
