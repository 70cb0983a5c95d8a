use pact_graphql_plugin::encoder::{GraphqlRequest, RequestEncoder, Transport};

#[test]
fn encodes_json_payload() {
    let req = GraphqlRequest::json("query { ping }", None, None);
    let encoded = RequestEncoder::encode(&req).unwrap();

    assert_eq!(encoded.body.as_deref(), Some(r#"{"query":"query { ping }"}"#));
    assert!(encoded.query_string.is_none());
}

#[test]
fn encodes_json_payload_preserving_field_order() {
    let variables = r#"{"id":10}"#.to_string();
    let req = GraphqlRequest::json("query { ping }", Some("PingQuery".to_string()), Some(variables));
    let encoded = RequestEncoder::encode(&req).unwrap();

    assert_eq!(
        encoded.body.as_deref(),
        Some(r#"{"query":"query { ping }","operationName":"PingQuery","variables":{"id":10}}"#)
    );
    assert!(encoded.query_string.is_none());
}

#[test]
fn encodes_query_string_payload() {
    let req = GraphqlRequest::query_string("query { pong }", None, None);
    let encoded = RequestEncoder::encode(&req).unwrap();

    assert!(encoded.body.is_none());
    assert_eq!(encoded.query_string.as_deref(), Some("query=query+%7B+pong+%7D"));
}

#[test]
fn decode_json_body_roundtrip() {
    let req = GraphqlRequest::json(
        "query Products { products { id } }",
        Some("GetProducts".to_string()),
        Some("{\"size\":10}".to_string()),
    );
    let encoded = RequestEncoder::encode(&req).expect("encode json");
    let body = encoded.body.expect("encoded json body");
    let decoded = RequestEncoder::decode(body.as_bytes(), "application/json", &Transport::JsonBody).expect("decode json");
    assert_eq!(decoded.query_document, req.query_document);
    assert_eq!(decoded.operation_name, req.operation_name);
    assert_eq!(decoded.variables_json, req.variables_json);
    assert_eq!(decoded.transport, Transport::JsonBody);
}

#[test]
fn decode_query_string_roundtrip() {
    let req = GraphqlRequest::query_string("query Products { products { id } }", None, Some("{\"size\":10}".to_string()));
    let encoded = RequestEncoder::encode(&req).expect("encode query string");
    let qs = encoded.query_string.expect("encoded query string");
    let decoded = RequestEncoder::decode(qs.as_bytes(), "application/x-www-form-urlencoded", &Transport::QueryString)
        .expect("decode query string");
    assert_eq!(decoded.query_document, req.query_document);
    assert_eq!(decoded.operation_name, None);
    assert_eq!(decoded.variables_json, req.variables_json);
    assert_eq!(decoded.transport, Transport::QueryString);
}

#[test]
fn encode_rejects_variables_that_are_not_json() {
    let req = GraphqlRequest::json("query { ping }", None, Some("{not json".to_string()));
    let err = RequestEncoder::encode(&req).err().expect("variables must be JSON");
    assert_eq!(err.message(), "variables_json must be valid JSON");
    assert_eq!(err.messages.len(), 2);
}

#[test]
fn encodes_query_string_with_operation_name_and_compact_variables() {
    let req = GraphqlRequest::query_string("{ a }", Some("Op".to_string()), Some("{ \"x\" : [1, 2] }".to_string()));
    let encoded = RequestEncoder::encode(&req).unwrap();
    assert_eq!(
        encoded.query_string.as_deref(),
        Some("query=%7B+a+%7D&operationName=Op&variables=%7B%22x%22%3A%5B1%2C2%5D%7D")
    );
}

#[test]
fn decode_query_string_requires_a_query() {
    let err = RequestEncoder::decode(b"operationName=Op", "", &Transport::QueryString).err().expect("no query");
    assert_eq!(err.message(), "GraphQL query string body missing `query` parameter");
    let blank = RequestEncoder::decode(b"query=+++", "", &Transport::QueryString).err().expect("blank query");
    assert_eq!(blank.message(), "GraphQL query string body missing `query` parameter");
}

#[test]
fn decode_query_string_takes_the_last_value_and_drops_empty_ones() {
    let decoded = RequestEncoder::decode(b"query=a&query=b&operationName=&variables=", "", &Transport::QueryString).unwrap();
    assert_eq!(decoded.query_document, "b");
    assert_eq!(decoded.operation_name, None);
    assert_eq!(decoded.variables_json, None);
}

#[test]
fn decode_json_body_reports_each_refusal() {
    let not_json = RequestEncoder::decode(b"{", "", &Transport::JsonBody).err().unwrap();
    assert_eq!(not_json.message(), "failed to decode GraphQL JSON body");
    let missing = RequestEncoder::decode(b"{\"operationName\":\"A\"}", "", &Transport::JsonBody).err().unwrap();
    assert_eq!(missing.joined(": "), "failed to decode GraphQL JSON body: missing field `query`");
    let wrong = RequestEncoder::decode(b"{\"query\":1}", "", &Transport::JsonBody).err().unwrap();
    assert!(wrong.joined(": ").contains("`query`"));
    let bad_name = RequestEncoder::decode(b"{\"query\":\"{a}\",\"operationName\":3}", "", &Transport::JsonBody).err().unwrap();
    assert!(bad_name.joined(": ").contains("`operationName`"));
}

#[test]
fn decode_json_body_blank_name_and_null_variables_are_none() {
    let decoded =
        RequestEncoder::decode(b"{\"query\":\"{a}\",\"operationName\":\"  \",\"variables\":null}", "", &Transport::JsonBody).unwrap();
    assert_eq!(decoded.query_document, "{a}");
    assert_eq!(decoded.operation_name, None);
    assert_eq!(decoded.variables_json, None);
}

#[test]
fn percent_encoding_writes_spaces_as_plus() {
    assert_eq!(pact_graphql_plugin::encoder::percent_encode_form_value("a b&c"), "a+b%26c");
}

#[test]
fn transport_defaults_to_json_body() {
    assert_eq!(Transport::default(), Transport::JsonBody);
}

#[test]
fn decode_json_body_reads_the_three_fields_of_an_array() {
    let decoded = RequestEncoder::decode(b"[\"{a}\", \"A\", {\"id\": 1}]", "", &Transport::JsonBody).unwrap();
    assert_eq!(decoded.query_document, "{a}");
    assert_eq!(decoded.operation_name.as_deref(), Some("A"));
    assert_eq!(decoded.variables_json.as_deref(), Some("{\"id\":1}"));
    let short = RequestEncoder::decode(b"[\"{a}\"]", "", &Transport::JsonBody).err().unwrap();
    assert_eq!(short.message(), "failed to decode GraphQL JSON body");
    assert!(short.joined(": ").contains("3 elements"));
}

#[test]
fn percent_encoding_writes_each_utf8_byte_in_upper_case_hex() {
    assert_eq!(pact_graphql_plugin::encoder::percent_encode_form_value("é-_.~/"), "%C3%A9-_.~%2F");
}
