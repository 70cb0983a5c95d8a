//! GraphQL requests and their two wire forms: a JSON body, or an
//! `application/x-www-form-urlencoded` query string.
use vstd::prelude::*;

use crate::error::{Error, Fallible};
use crate::form::{form_decoded, form_pairs, string_pairs_view, url_encode, url_encoded};
use crate::json::{entry_get, object_get, Json, SpecJson};
use crate::json_text::{json_parse, json_parse_bytes, json_text, parse_json, parse_json_bytes, print_json};
use crate::text::{blank, cat3, is_blank, join_spec, replace, replace_spec, str_eq};

verus! {

broadcast use vstd::std_specs::vec::group_vec_axioms;

/// How a request travels: as a JSON body, or as a form-encoded query string.
#[derive(PartialEq, Eq, Structural, Clone, Copy, Debug)]
pub enum Transport {
    JsonBody,
    QueryString,
}

impl Default for Transport {
    fn default() -> (r: Transport)
        ensures
            r == Transport::JsonBody,
    {
        Transport::JsonBody
    }
}

/// A GraphQL request: the query document, an optional operation name, optional variables as
/// JSON text, and its transport.
pub struct GraphqlRequest {
    pub query_document: String,
    pub operation_name: Option<String>,
    pub variables_json: Option<String>,
    pub transport: Transport,
}

pub struct SpecGraphqlRequest {
    pub query_document: Seq<char>,
    pub operation_name: Option<Seq<char>>,
    pub variables_json: Option<Seq<char>>,
    pub transport: Transport,
}

impl View for GraphqlRequest {
    type V = SpecGraphqlRequest;

    open spec fn view(&self) -> SpecGraphqlRequest {
        SpecGraphqlRequest {
            query_document: self.query_document@,
            operation_name: crate::ast::opt_str_view(self.operation_name),
            variables_json: crate::ast::opt_str_view(self.variables_json),
            transport: self.transport,
        }
    }
}

impl GraphqlRequest {
    /// A request sent as a JSON body.
    pub fn json(query: &str, operation_name: Option<String>, variables_json: Option<String>) -> (r: GraphqlRequest)
        ensures
            r@ == (SpecGraphqlRequest {
                query_document: query@,
                operation_name: crate::ast::opt_str_view(operation_name),
                variables_json: crate::ast::opt_str_view(variables_json),
                transport: Transport::JsonBody,
            }),
    {
        GraphqlRequest { query_document: query.to_owned(), operation_name, variables_json, transport: Transport::JsonBody }
    }

    /// A request sent as a form-encoded query string.
    pub fn query_string(query: &str, operation_name: Option<String>, variables_json: Option<String>) -> (r: GraphqlRequest)
        ensures
            r@ == (SpecGraphqlRequest {
                query_document: query@,
                operation_name: crate::ast::opt_str_view(operation_name),
                variables_json: crate::ast::opt_str_view(variables_json),
                transport: Transport::QueryString,
            }),
    {
        GraphqlRequest { query_document: query.to_owned(), operation_name, variables_json, transport: Transport::QueryString }
    }
}

/// An encoded request: a body, or a query string.
pub struct EncodedRequest {
    pub body: Option<String>,
    pub query_string: Option<String>,
}

impl Default for EncodedRequest {
    fn default() -> (r: EncodedRequest)
        ensures
            r.body is None,
            r.query_string is None,
    {
        EncodedRequest { body: None, query_string: None }
    }
}

/// Encodes and decodes requests.
pub struct RequestEncoder;

/// The context put on a variables text that is not JSON.
pub open spec fn variables_context() -> Seq<char> {
    "variables_json must be valid JSON"@
}

/// The entries of a JSON body: the query, then the operation name when there is one.
pub open spec fn body_entries(query: Seq<char>, operation_name: Option<Seq<char>>) -> Seq<(Seq<char>, SpecJson)> {
    match operation_name {
        Some(n) => seq![("query"@, SpecJson::Str(query)), ("operationName"@, SpecJson::Str(n))],
        None => seq![("query"@, SpecJson::Str(query))],
    }
}

/// `urlencoding::encode`, with `%20` written as `+`.
pub open spec fn form_value_spec(v: Seq<char>) -> Seq<char> {
    replace_spec(url_encoded(v), "%20"@, "+"@)
}

/// `name=value` pairs, each value form-encoded, joined with `&`.
pub open spec fn query_string_spec(params: Seq<(Seq<char>, Seq<char>)>) -> Seq<char> {
    join_spec(Seq::new(params.len(), |i: int| params[i].0 + "="@ + form_value_spec(params[i].1)), "&"@)
}

/// The parameters of a query string: the query, the operation name when there is one.
pub open spec fn query_params(query: Seq<char>, operation_name: Option<Seq<char>>) -> Seq<(Seq<char>, Seq<char>)> {
    match operation_name {
        Some(n) => seq![("query"@, query), ("operationName"@, n)],
        None => seq![("query"@, query)],
    }
}

/// The encoding of a request: the body or the query string, or the chain of messages when
/// the variables are not JSON. Variables are written in `serde_json`'s compact form.
pub open spec fn encode_spec(r: SpecGraphqlRequest) -> Result<(Option<Seq<char>>, Option<Seq<char>>), Seq<Seq<char>>> {
    match r.variables_json {
        Some(raw) => match json_parse(raw) {
            Err(m) => Err(seq![variables_context(), m]),
            Ok(v) => match r.transport {
                Transport::JsonBody => Ok(
                    (Some(json_text(SpecJson::Object(body_entries(r.query_document, r.operation_name).push(("variables"@, v))))), None),
                ),
                Transport::QueryString => Ok(
                    (None, Some(query_string_spec(query_params(r.query_document, r.operation_name).push(("variables"@, json_text(v)))))),
                ),
            },
        },
        None => match r.transport {
            Transport::JsonBody => Ok((Some(json_text(SpecJson::Object(body_entries(r.query_document, r.operation_name)))), None)),
            Transport::QueryString => Ok((None, Some(query_string_spec(query_params(r.query_document, r.operation_name))))),
        },
    }
}

/// A form value: `urlencoding::encode`, with `%20` written as `+`.
pub fn percent_encode_form_value(value: &str) -> (r: String)
    ensures
        r@ == form_value_spec(value@),
{
    let encoded = url_encode(value);
    proof {
        reveal_strlit("%20");
    }
    replace(encoded.as_str(), "%20", "+")
}

/// Parses the variables text of a request.
fn parse_variables_json(raw: &str) -> (r: Fallible<Json>)
    ensures
        match json_parse(raw@) {
            Ok(v) => r matches Ok(j) && j@ == v,
            Err(m) => r matches Err(e) && e@ == seq![variables_context(), m],
        },
{
    match parse_json(raw) {
        Ok(v) => Ok(v),
        Err(m) => Err(Error::msg(m).context(String::from_str("variables_json must be valid JSON"))),
    }
}

impl RequestEncoder {
    /// Encodes a request in its transport (see `encode_spec`).
    pub fn encode(request: &GraphqlRequest) -> (r: Fallible<EncodedRequest>)
        ensures
            match encode_spec(request@) {
                Ok((body, query)) => r matches Ok(e) && crate::ast::opt_str_view(e.body) == body
                    && crate::ast::opt_str_view(e.query_string) == query,
                Err(m) => r matches Err(e) && e@ == m,
            },
    {
        match request.transport {
            Transport::JsonBody => Self::encode_json(request),
            Transport::QueryString => Self::encode_query_string(request),
        }
    }

    fn encode_json(request: &GraphqlRequest) -> (r: Fallible<EncodedRequest>)
        requires
            request.transport == Transport::JsonBody,
        ensures
            match encode_spec(request@) {
                Ok((body, query)) => r matches Ok(e) && crate::ast::opt_str_view(e.body) == body
                    && crate::ast::opt_str_view(e.query_string) == query,
                Err(m) => r matches Err(e) && e@ == m,
            },
    {
        let mut payload: Vec<(String, Json)> = Vec::new();
        payload.push((String::from_str("query"), Json::Str(request.query_document.clone())));
        match &request.operation_name {
            Some(name) => {
                payload.push((String::from_str("operationName"), Json::Str(name.clone())));
            },
            None => {},
        }
        proof {
            assert(crate::json::json_entries_view(payload@) =~= body_entries(request.query_document@, request@.operation_name));
        }
        match &request.variables_json {
            Some(variables) => {
                let parsed = parse_variables_json(variables.as_str())?;
                let ghost before = payload@;
                payload.push((String::from_str("variables"), parsed));
                proof {
                    assert(crate::json::json_entries_view(payload@) =~= crate::json::json_entries_view(before).push(("variables"@, payload@[payload@.len() - 1].1@)));
                }
            },
            None => {},
        }
        let body = Json::Object(payload);
        let text = print_json(&body);
        Ok(EncodedRequest { body: Some(text), query_string: None })
    }

    fn encode_query_string(request: &GraphqlRequest) -> (r: Fallible<EncodedRequest>)
        requires
            request.transport == Transport::QueryString,
        ensures
            match encode_spec(request@) {
                Ok((body, query)) => r matches Ok(e) && crate::ast::opt_str_view(e.body) == body
                    && crate::ast::opt_str_view(e.query_string) == query,
                Err(m) => r matches Err(e) && e@ == m,
            },
    {
        let mut params: Vec<(String, String)> = Vec::new();
        params.push((String::from_str("query"), request.query_document.clone()));
        match &request.operation_name {
            Some(name) => {
                params.push((String::from_str("operationName"), name.clone()));
            },
            None => {},
        }
        proof {
            assert(string_pairs_view(params@) =~= query_params(request.query_document@, request@.operation_name));
        }
        match &request.variables_json {
            Some(variables) => {
                let parsed = parse_variables_json(variables.as_str())?;
                let canonical = print_json(&parsed);
                let ghost before = params@;
                params.push((String::from_str("variables"), canonical));
                proof {
                    assert(string_pairs_view(params@) =~= string_pairs_view(before).push(("variables"@, json_text(parsed@))));
                }
            },
            None => {},
        }
        let query_string = join_form_params(&params);
        Ok(EncodedRequest { body: None, query_string: Some(query_string) })
    }

    /// Decodes a request sent in `expected_transport` (see `decode_spec`).
    pub fn decode(body: &[u8], content_type: &str, expected_transport: &Transport) -> (r: Fallible<GraphqlRequest>)
        ensures
            match decode_spec(body@, *expected_transport) {
                Ok(req) => r matches Ok(g) && g@ == req,
                Err(m) => r matches Err(e) && e@ == m,
            },
    {
        match expected_transport {
            Transport::JsonBody => decode_json_body(body),
            Transport::QueryString => decode_query_string(body),
        }
    }
}

/// `name=value` pairs, each value form-encoded, joined with `&`.
fn join_form_params(params: &Vec<(String, String)>) -> (r: String)
    ensures
        r@ == query_string_spec(string_pairs_view(params@)),
{
    let ghost pv = string_pairs_view(params@);
    let ghost parts = Seq::new(pv.len(), |i: int| pv[i].0 + "="@ + form_value_spec(pv[i].1));
    let mut r = String::new();
    let mut i: usize = 0;
    while i < params.len()
        invariant
            i <= params@.len(),
            pv == string_pairs_view(params@),
            parts == Seq::new(pv.len(), |k: int| pv[k].0 + "="@ + form_value_spec(pv[k].1)),
            r@ == join_spec(parts.subrange(0, i as int), "&"@),
        decreases params.len() - i,
    {
        if i > 0 {
            r.append("&");
        }
        r.append(params[i].0.as_str());
        r.append("=");
        let encoded = percent_encode_form_value(params[i].1.as_str());
        r.append(encoded.as_str());
        proof {
            let cur = parts.subrange(0, i + 1);
            assert(cur.drop_last() =~= parts.subrange(0, i as int));
            assert(cur.last() == parts[i as int]);
            if i == 0 {
                assert(parts.subrange(0, 0) =~= Seq::<Seq<char>>::empty());
            }
        }
        i += 1;
    }
    proof {
        assert(parts.subrange(0, params@.len() as int) =~= parts);
    }
    r
}

/// The context put on a body that cannot be read as a JSON request.
pub open spec fn json_body_context() -> Seq<char> {
    "failed to decode GraphQL JSON body"@
}

/// The request made of the values given for `query`, `operationName` and `variables`: the
/// query must be a string; the operation name a string or null (a blank one counts as none);
/// the variables any value, kept as compact JSON text (null means none).
pub open spec fn request_from_fields(
    query: Option<SpecJson>,
    operation_name: Option<SpecJson>,
    variables: Option<SpecJson>,
) -> Result<SpecGraphqlRequest, Seq<char>> {
    match query {
        None => Err("missing field `query`"@),
        Some(SpecJson::Str(q)) => {
            if operation_name matches Some(x) && !(x is Null) && !(x is Str) {
                Err("invalid type for field `operationName`: expected a string"@)
            } else {
                let name = match operation_name {
                    Some(SpecJson::Str(n)) => if blank(n) { None } else { Some(n) },
                    _ => None,
                };
                let variables_json = match variables {
                    None => None,
                    Some(SpecJson::Null) => None,
                    Some(other) => Some(json_text(other)),
                };
                Ok(SpecGraphqlRequest { query_document: q, operation_name: name, variables_json, transport: Transport::JsonBody })
            }
        },
        Some(_) => Err("invalid type for field `query`: expected a string"@),
    }
}

/// The request a JSON body holds: an object's `query`, `operationName` and `variables`
/// entries (others are ignored), or the three elements of an array, in that order (see
/// `request_from_fields`). The body is read as a `serde_json` value, which keeps one entry per
/// key (the last one given), so a key written twice is read once.
pub open spec fn json_body_request(v: SpecJson) -> Result<SpecGraphqlRequest, Seq<char>> {
    match v {
        SpecJson::Object(es) => request_from_fields(entry_get(es, "query"@), entry_get(es, "operationName"@), entry_get(es, "variables"@)),
        SpecJson::List(items) => if items.len() == 3 {
            request_from_fields(Some(items[0]), Some(items[1]), Some(items[2]))
        } else {
            Err("invalid length: expected an array of 3 elements"@)
        },
        _ => Err("invalid type: expected a JSON object"@),
    }
}

/// The last value given for `key` among form pairs.
pub open spec fn last_value(pairs: Seq<(Seq<char>, Seq<char>)>, key: Seq<char>) -> Option<Seq<char>>
    decreases pairs.len(),
{
    if pairs.len() == 0 {
        None
    } else if pairs.last().0 == key {
        Some(pairs.last().1)
    } else {
        last_value(pairs.drop_last(), key)
    }
}

pub open spec fn nonempty(o: Option<Seq<char>>) -> Option<Seq<char>> {
    match o {
        Some(s) => if s.len() == 0 { None } else { Some(s) },
        None => None,
    }
}

/// The request a query string holds: the last `query`, `operationName` and `variables`
/// values; the query must not be blank, and an empty name or variables count as none.
pub open spec fn query_string_request(pairs: Seq<(Seq<char>, Seq<char>)>) -> Result<SpecGraphqlRequest, Seq<char>> {
    match last_value(pairs, "query"@) {
        Some(q) => if blank(q) {
            Err("GraphQL query string body missing `query` parameter"@)
        } else {
            Ok(SpecGraphqlRequest {
                query_document: q,
                operation_name: nonempty(last_value(pairs, "operationName"@)),
                variables_json: nonempty(last_value(pairs, "variables"@)),
                transport: Transport::QueryString,
            })
        },
        None => Err("GraphQL query string body missing `query` parameter"@),
    }
}

/// The decoding of a request body in its transport.
pub open spec fn decode_spec(body: Seq<u8>, transport: Transport) -> Result<SpecGraphqlRequest, Seq<Seq<char>>> {
    match transport {
        Transport::JsonBody => match json_parse_bytes(body) {
            Err(m) => Err(seq![json_body_context(), m]),
            Ok(v) => match json_body_request(v) {
                Err(m) => Err(seq![json_body_context(), m]),
                Ok(req) => Ok(req),
            },
        },
        Transport::QueryString => match query_string_request(form_decoded(body)) {
            Err(m) => Err(seq![m]),
            Ok(req) => Ok(req),
        },
    }
}

/// The variables of a request as `json_parse` reads them, when there are any and they read.
pub open spec fn read_variables(r: SpecGraphqlRequest) -> Option<SpecJson> {
    match r.variables_json {
        Some(raw) => match json_parse(raw) {
            Ok(v) => Some(v),
            Err(_) => None,
        },
        None => None,
    }
}

/// The object a JSON body is written from (see `encode_spec`): the query, the operation name
/// when there is one, the variables when there are any.
pub open spec fn body_object(r: SpecGraphqlRequest) -> SpecJson {
    match read_variables(r) {
        Some(v) => SpecJson::Object(body_entries(r.query_document, r.operation_name).push(("variables"@, v))),
        None => SpecJson::Object(body_entries(r.query_document, r.operation_name)),
    }
}

/// The parameters a query string is written from (see `encode_spec`): the query, the
/// operation name when there is one, the variables in compact form when there are any.
pub open spec fn query_string_params(r: SpecGraphqlRequest) -> Seq<(Seq<char>, Seq<char>)> {
    match read_variables(r) {
        Some(v) => query_params(r.query_document, r.operation_name).push(("variables"@, json_text(v))),
        None => query_params(r.query_document, r.operation_name),
    }
}

/// Decoding what `encode` wrote gives the request back, in either transport, whatever the
/// content type (`decode` does not read it): when the operation name, if any, is not blank;
/// the variables, if any, are a non-empty JSON text already in compact form (`json_text` of
/// what `json_parse` reads) and not `null`; a query sent as a query string is not blank; and
/// the readers give back what their writers wrote for this request: `serde_json` the object of
/// a JSON body, `form_urlencoded` the parameters of a query string.
pub proof fn lemma_decode_inverts_encode(r: SpecGraphqlRequest)
    requires
        r.operation_name matches Some(n) ==> !blank(n),
        r.variables_json matches Some(raw) ==> (json_parse(raw) matches Ok(v) && json_text(v) == raw && !(v is Null)
            && raw.len() > 0),
        r.transport == Transport::QueryString ==> !blank(r.query_document),
        r.transport == Transport::JsonBody ==> json_parse_bytes(vstd::utf8::encode_utf8(json_text(body_object(r))))
            == Ok::<SpecJson, Seq<char>>(body_object(r)),
        r.transport == Transport::QueryString ==> form_decoded(vstd::utf8::encode_utf8(query_string_spec(query_string_params(r))))
            == query_string_params(r),
    ensures
        match encode_spec(r) {
            Ok((Some(body), None)) => r.transport == Transport::JsonBody && decode_spec(vstd::utf8::encode_utf8(body), r.transport)
                == Ok::<SpecGraphqlRequest, Seq<Seq<char>>>(r),
            Ok((None, Some(query))) => r.transport == Transport::QueryString && decode_spec(
                vstd::utf8::encode_utf8(query),
                r.transport,
            ) == Ok::<SpecGraphqlRequest, Seq<Seq<char>>>(r),
            _ => false,
        },
{
    reveal_strlit("query");
    reveal_strlit("operationName");
    reveal_strlit("variables");
    assert("query"@ != "operationName"@ && "query"@ != "variables"@ && "operationName"@ != "variables"@) by {
        assert("query"@.len() == 5 && "operationName"@.len() == 13 && "variables"@.len() == 9);
    }
    reveal_with_fuel(entry_get, 4);
    reveal_with_fuel(last_value, 4);
    let q = r.query_document;
    let n = r.operation_name;
    if let Some(name) = n {
        assert(name.len() > 0) by {
            if name.len() == 0 {
                assert(blank(name));
            }
        }
    }
    match r.transport {
        Transport::JsonBody => {
            let entries = match read_variables(r) {
                Some(v) => body_entries(q, n).push(("variables"@, v)),
                None => body_entries(q, n),
            };
            assert(body_object(r) == SpecJson::Object(entries));
            assert(entry_get(entries, "query"@) == Some(SpecJson::Str(q))) by {
                assert(entries[0] == ("query"@, SpecJson::Str(q)));
            }
            assert(entry_get(entries, "operationName"@) == match n {
                Some(name) => Some(SpecJson::Str(name)),
                None => None::<SpecJson>,
            }) by {
                assert(entries.drop_first() =~= match (n, read_variables(r)) {
                    (Some(name), Some(v)) => seq![("operationName"@, SpecJson::Str(name)), ("variables"@, v)],
                    (Some(name), None) => seq![("operationName"@, SpecJson::Str(name))],
                    (None, Some(v)) => seq![("variables"@, v)],
                    (None, None) => Seq::<(Seq<char>, SpecJson)>::empty(),
                });
                if let Some(name) = n {
                    assert(entries.drop_first().drop_first() =~= match read_variables(r) {
                        Some(v) => seq![("variables"@, v)],
                        None => Seq::<(Seq<char>, SpecJson)>::empty(),
                    });
                }
            }
            assert(entry_get(entries, "variables"@) == read_variables(r)) by {
                assert(entries.drop_first() =~= match (n, read_variables(r)) {
                    (Some(name), Some(v)) => seq![("operationName"@, SpecJson::Str(name)), ("variables"@, v)],
                    (Some(name), None) => seq![("operationName"@, SpecJson::Str(name))],
                    (None, Some(v)) => seq![("variables"@, v)],
                    (None, None) => Seq::<(Seq<char>, SpecJson)>::empty(),
                });
                if let Some(name) = n {
                    let rest = entries.drop_first().drop_first();
                    assert(rest =~= match read_variables(r) {
                        Some(v) => seq![("variables"@, v)],
                        None => Seq::<(Seq<char>, SpecJson)>::empty(),
                    });
                    if rest.len() > 0 {
                        assert(rest.drop_first() =~= Seq::<(Seq<char>, SpecJson)>::empty());
                    }
                } else {
                    let rest = entries.drop_first();
                    if rest.len() > 0 {
                        assert(rest.drop_first() =~= Seq::<(Seq<char>, SpecJson)>::empty());
                    }
                }
            }
        },
        Transport::QueryString => {
            let pairs = query_string_params(r);
            assert(last_value(pairs, "query"@) == Some(q));
            assert(last_value(pairs, "operationName"@) == n);
            assert(last_value(pairs, "variables"@) == r.variables_json);
        },
    }
}

/// Reads a request from a JSON body (see `json_body_request`).
fn decode_json_body(body: &[u8]) -> (r: Fallible<GraphqlRequest>)
    ensures
        match decode_spec(body@, Transport::JsonBody) {
            Ok(req) => r matches Ok(g) && g@ == req,
            Err(m) => r matches Err(e) && e@ == m,
        },
{
    let context = "failed to decode GraphQL JSON body";
    let value = match parse_json_bytes(body) {
        Ok(v) => v,
        Err(m) => {
            return Err(Error::msg(m).context(String::from_str(context)));
        },
    };
    let fields = match &value {
        Json::Object(es) => request_fields(object_get(es, "query"), object_get(es, "operationName"), object_get(es, "variables")),
        Json::List(items) => {
            if items.len() == 3 {
                request_fields(Some(&items[0]), Some(&items[1]), Some(&items[2]))
            } else {
                Err(String::from_str("invalid length: expected an array of 3 elements"))
            }
        },
        _ => Err(String::from_str("invalid type: expected a JSON object")),
    };
    match fields {
        Ok(req) => Ok(req),
        Err(m) => Err(Error::msg(m).context(String::from_str(context))),
    }
}

/// The request made of the values given for its three fields (see `request_from_fields`).
fn request_fields(query: Option<&Json>, operation_name: Option<&Json>, variables: Option<&Json>) -> (r: Result<GraphqlRequest, String>)
    ensures
        match request_from_fields(opt_json_view(query), opt_json_view(operation_name), opt_json_view(variables)) {
            Ok(req) => r matches Ok(g) && g@ == req,
            Err(m) => r matches Err(e) && e@ == m,
        },
{
    let query = match query {
        None => {
            return Err(String::from_str("missing field `query`"));
        },
        Some(Json::Str(q)) => q.clone(),
        Some(_) => {
            return Err(String::from_str("invalid type for field `query`: expected a string"));
        },
    };
    let operation_name = match operation_name {
        None | Some(Json::Null) => None,
        Some(Json::Str(n)) => {
            if is_blank(n.as_str()) {
                None
            } else {
                Some(n.clone())
            }
        },
        Some(_) => {
            return Err(String::from_str("invalid type for field `operationName`: expected a string"));
        },
    };
    let variables_json = match variables {
        None | Some(Json::Null) => None,
        Some(other) => Some(print_json(other)),
    };
    Ok(GraphqlRequest { query_document: query, operation_name, variables_json, transport: Transport::JsonBody })
}

/// The view of an optional borrowed JSON value.
pub open spec fn opt_json_view(o: Option<&Json>) -> Option<SpecJson> {
    match o {
        Some(j) => Some(j@),
        None => None,
    }
}

/// The last value given for `key` among form pairs.
fn last_pair_value(pairs: &Vec<(String, String)>, key: &str) -> (r: Option<String>)
    ensures
        crate::ast::opt_str_view(r) == last_value(string_pairs_view(pairs@), key@),
{
    let ghost pv = string_pairs_view(pairs@);
    let mut i: usize = pairs.len();
    assert(pv.subrange(0, i as int) =~= pv);
    while i > 0
        invariant
            i <= pairs@.len(),
            pv == string_pairs_view(pairs@),
            last_value(pv, key@) == last_value(pv.subrange(0, i as int), key@),
        decreases i,
    {
        let ghost pre = pv.subrange(0, i as int);
        proof {
            assert(pre.drop_last() =~= pv.subrange(0, i - 1));
            assert(pre.last() == (pairs@[i - 1].0@, pairs@[i - 1].1@));
        }
        if str_eq(pairs[i - 1].0.as_str(), key) {
            return Some(pairs[i - 1].1.clone());
        }
        i -= 1;
    }
    None
}

fn nonempty_value(o: Option<String>) -> (r: Option<String>)
    ensures
        crate::ast::opt_str_view(r) == nonempty(crate::ast::opt_str_view(o)),
{
    match o {
        Some(s) => {
            if s.unicode_len() == 0 {
                None
            } else {
                Some(s)
            }
        },
        None => None,
    }
}

/// Reads a request from a form-encoded body (see `query_string_request`).
fn decode_query_string(body: &[u8]) -> (r: Fallible<GraphqlRequest>)
    ensures
        match decode_spec(body@, Transport::QueryString) {
            Ok(req) => r matches Ok(g) && g@ == req,
            Err(m) => r matches Err(e) && e@ == m,
        },
{
    let pairs = form_pairs(body);
    let query = last_pair_value(&pairs, "query");
    let query_document = match query {
        Some(q) => {
            if is_blank(q.as_str()) {
                return Err(Error::msg(String::from_str("GraphQL query string body missing `query` parameter")));
            }
            q
        },
        None => {
            return Err(Error::msg(String::from_str("GraphQL query string body missing `query` parameter")));
        },
    };
    let operation_name = nonempty_value(last_pair_value(&pairs, "operationName"));
    let variables_json = nonempty_value(last_pair_value(&pairs, "variables"));
    Ok(GraphqlRequest { query_document, operation_name, variables_json, transport: Transport::QueryString })
}

} // verus!
