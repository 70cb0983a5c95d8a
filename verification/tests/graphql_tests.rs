
use pact_graphql_plugin::query_ast::{
    canonical_document as canonical_document_text, diff_exact, diff_operations, diff_operations_with, parse_and_inline,
    QueryDiff, QueryMatching,
};
use pact_graphql_plugin::schema_index::SchemaIndex;
use pact_graphql_plugin::validation::validate_query_document;

fn schema_index_for(sdl: &str) -> Result<SchemaIndex, String> {
    SchemaIndex::from_sdl(sdl).map_err(|e| e.joined(": "))
}

fn canonical_document(query: &str, operation_name: Option<&str>) -> Result<String, String> {
    canonical_document_text(query, operation_name).map_err(|e| e.joined(": "))
}

// ---------------------------------------------------------------------------------------------
// Comparing query documents.

fn diff_queries(expected: &str, actual: &str, operation_name: Option<&str>) -> Result<Vec<QueryDiff>, String> {
    let expected = parse_and_inline(expected, operation_name).map_err(|e| e.joined(": "))?;
    let actual = parse_and_inline(actual, operation_name).map_err(|e| e.joined(": "))?;
    Ok(diff_operations(&expected, &actual))
}

fn diff_queries_with(
    expected: &str,
    actual: &str,
    operation_name: Option<&str>,
    mode: QueryMatching,
) -> Result<Vec<QueryDiff>, String> {
    if mode == QueryMatching::Exact {
        return Ok(diff_exact(expected, actual));
    }
    let expected_op = parse_and_inline(expected, operation_name).map_err(|e| e.joined(": "))?;
    let actual_op = parse_and_inline(actual, operation_name).map_err(|e| e.joined(": "))?;
    Ok(diff_operations_with(&expected_op, &actual_op, mode))
}

fn descriptions(diffs: &[QueryDiff]) -> Vec<(String, String)> {
    diffs.iter().map(|d| (d.path.clone(), d.description.clone())).collect()
}

#[test]
fn identical_queries_produce_no_diff() {
    let diffs = diff_queries(
        "query Q { product { id name } }",
        "query Q {\n  product {\n    id\n    name\n  }\n}",
        Some("Q"),
    )
    .unwrap();
    assert!(diffs.is_empty(), "expected no diffs, got {:?}", descriptions(&diffs));
}

#[test]
fn reports_the_path_of_a_missing_field() {
    let diffs = diff_queries("query Q { product { id name status } }", "query Q { product { id name } }", Some("Q")).unwrap();
    assert_eq!(diffs.len(), 1, "got {:?}", descriptions(&diffs));
    assert_eq!(diffs[0].path, "product.status");
    assert!(diffs[0].description.contains("not selected"), "{}", diffs[0].description);
}

#[test]
fn reports_the_path_of_an_unexpected_field() {
    let diffs = diff_queries("query Q { product { id } }", "query Q { product { id name } }", Some("Q")).unwrap();
    assert_eq!(diffs.len(), 1, "got {:?}", descriptions(&diffs));
    assert_eq!(diffs[0].path, "product.name");
    assert!(diffs[0].description.contains("not expected"), "{}", diffs[0].description);
}

#[test]
fn reports_nested_paths() {
    let diffs = diff_queries(
        "query Q { product { category { id name } } }",
        "query Q { product { category { id } } }",
        Some("Q"),
    )
    .unwrap();
    assert_eq!(diffs.len(), 1, "got {:?}", descriptions(&diffs));
    assert_eq!(diffs[0].path, "product.category.name");
}

#[test]
fn reports_argument_differences() {
    let diffs = diff_queries(
        "query Q { product(id: \"10\") { id } }",
        "query Q { product(id: \"11\") { id } }",
        Some("Q"),
    )
    .unwrap();
    assert_eq!(diffs.len(), 1, "got {:?}", descriptions(&diffs));
    assert_eq!(diffs[0].path, "product");
    assert!(diffs[0].description.contains("argument"), "{}", diffs[0].description);
    assert!(diffs[0].expected.contains("10"));
    assert!(diffs[0].actual.contains("11"));
}

#[test]
fn reports_operation_type_differences() {
    let diffs = diff_queries("query Q { thing { id } }", "mutation Q { thing { id } }", Some("Q")).unwrap();
    assert!(
        diffs.iter().any(|d| d.description.contains("operation type")),
        "got {:?}",
        descriptions(&diffs)
    );
}

#[test]
fn ignores_insignificant_whitespace() {
    let a = canonical_document("query Q { product(id: $id) { id name } }", Some("Q")).unwrap();
    let b = canonical_document("query Q {\n  product( id : $id ) {\n    id\n    name\n  }\n}", Some("Q")).unwrap();
    assert_eq!(a, b);
}

#[test]
fn ignores_comments() {
    let a = canonical_document("query Q { product { id } }", Some("Q")).unwrap();
    let b = canonical_document("# fetch the product\nquery Q {\n  product { id } # just the id\n}", Some("Q")).unwrap();
    assert_eq!(a, b);
}

#[test]
fn inlines_fragment_spreads() {
    let with_fragment =
        canonical_document("query Q { product { ...Fields } }\nfragment Fields on Product { id name }", Some("Q")).unwrap();
    let inlined = canonical_document("query Q { product { id name } }", Some("Q")).unwrap();
    assert_eq!(with_fragment, inlined);
}

#[test]
fn preserves_field_order() {
    let a = canonical_document("query Q { product { id name } }", Some("Q")).unwrap();
    let b = canonical_document("query Q { product { name id } }", Some("Q")).unwrap();
    assert_ne!(a, b, "field order is significant in GraphQL responses");
}

#[test]
fn preserves_aliases_and_arguments() {
    let out = canonical_document("query Q { mine: product(id: \"10\", first: 5) { id } }", Some("Q")).unwrap();
    assert!(out.contains("mine: product"), "alias survives: {out}");
    assert!(out.contains("id: \"10\""), "arguments survive: {out}");
}

#[test]
fn rejects_an_unknown_operation_name() {
    let err = canonical_document("query Q { product { id } }", Some("Other")).unwrap_err();
    assert!(err.contains("Other"), "error names the missing operation: {err}");
}

#[test]
fn rejects_an_unresolvable_fragment() {
    let err = canonical_document("query Q { product { ...Missing } }", Some("Q")).unwrap_err();
    assert!(err.contains("Missing"), "error names the missing fragment: {err}");
}

#[test]
fn rejects_a_self_referencing_fragment() {
    let err =
        canonical_document("query Q { product { ...Loop } }\nfragment Loop on Product { id ...Loop }", Some("Q")).unwrap_err();
    assert!(err.contains("fragment `Loop` forms a cycle"), "expected a cycle diagnostic, got: {err}");
}

#[test]
fn rejects_a_mutually_recursive_fragment_pair() {
    let err = canonical_document(
        "query Q { product { ...A } }\n\
         fragment A on Product { id ...B }\n\
         fragment B on Product { name ...A }",
        Some("Q"),
    )
    .unwrap_err();
    let message = err;
    assert!(
        message.contains("forms a cycle") && message.contains("A -> B -> A"),
        "expected the cycle path in the message, got: {message}"
    );
}

#[test]
fn allows_the_same_fragment_spread_twice_in_sequence() {
    let out = canonical_document("query Q { a { ...F } b { ...F } }\nfragment F on Thing { id }", Some("Q"))
        .expect("sibling spreads of the same fragment are legal");
    assert_eq!(out.matches("id").count(), 2, "both spreads expanded: {out}");
}

const EXPECTED: &str = "query Q { product { id name status } }";
const FEWER: &str = "query Q { product { id name } }";
const MORE: &str = "query Q { product { id name status category { id } } }";

#[test]
fn subset_allows_the_actual_query_to_request_fewer_fields() {
    let diffs = diff_queries_with(EXPECTED, FEWER, Some("Q"), QueryMatching::Subset).unwrap();
    assert!(diffs.is_empty(), "got {:?}", descriptions(&diffs));
}

#[test]
fn subset_still_rejects_unexpected_fields() {
    let diffs = diff_queries_with(EXPECTED, MORE, Some("Q"), QueryMatching::Subset).unwrap();
    assert_eq!(diffs.len(), 1, "got {:?}", descriptions(&diffs));
    assert_eq!(diffs[0].path, "product.category");
}

#[test]
fn semantic_rejects_fewer_fields() {
    let diffs = diff_queries_with(EXPECTED, FEWER, Some("Q"), QueryMatching::Semantic).unwrap();
    assert_eq!(diffs.len(), 1, "got {:?}", descriptions(&diffs));
    assert_eq!(diffs[0].path, "product.status");
}

#[test]
fn exact_rejects_a_reformatted_but_equivalent_query() {
    let reformatted = "query Q {\n  product {\n    id\n    name\n    status\n  }\n}";
    let semantic = diff_queries_with(EXPECTED, reformatted, Some("Q"), QueryMatching::Semantic).unwrap();
    assert!(semantic.is_empty(), "semantic tolerates formatting: {:?}", descriptions(&semantic));

    let exact = diff_queries_with(EXPECTED, reformatted, Some("Q"), QueryMatching::Exact).unwrap();
    assert_eq!(exact.len(), 1, "exact does not: {:?}", descriptions(&exact));
    assert!(exact[0].description.contains("byte-for-byte"), "{}", exact[0].description);
}

// ---------------------------------------------------------------------------------------------
// Validating literal argument values against the schema.

const ARG_SDL: &str = r#"
schema { query: Query }
enum ProductStatus { ACTIVE DRAFT }
input Filter { term: String }
type Product { id: ID! name: String! }
type Query {
  product(id: ID!): Product
  products(status: ProductStatus, first: Int, rate: Float, live: Boolean, filter: Filter, tags: [String!]): [Product!]!
}
"#;

fn validate_arg_query(query: &str) -> Result<(), String> {
    let schema = schema_index_for(ARG_SDL).expect("schema parses");
    validate_query_document(&schema, query, None).map_err(|e| e.joined(": "))
}

#[test]
fn rejects_an_enum_argument_value_outside_the_enum() {
    let message = validate_arg_query("query Q { products(status: DISCONTINUED) { id } }")
        .expect_err("DISCONTINUED is not a ProductStatus");
    assert!(message.contains("DISCONTINUED"), "got: {message}");
    assert!(message.contains("ProductStatus"), "got: {message}");
}

#[test]
fn accepts_a_valid_enum_argument_value() {
    validate_arg_query("query Q { products(status: ACTIVE) { id } }").expect("ACTIVE is valid");
}

#[test]
fn rejects_a_string_literal_for_an_int_argument() {
    let message = validate_arg_query(r#"query Q { products(first: "ten") { id } }"#).expect_err("a string is not an Int");
    assert!(message.contains("first"));
}

#[test]
fn accepts_an_integer_literal_for_a_float_argument() {
    validate_arg_query("query Q { products(rate: 3) { id } }").expect("Int coerces to Float");
}

#[test]
fn accepts_a_variable_reference_as_an_argument_value() {
    validate_arg_query("query Q($status: ProductStatus) { products(status: $status) { id } }")
        .expect("a variable reference is a valid argument value");
}

#[test]
fn rejects_null_for_a_non_null_argument() {
    let message = validate_arg_query("query Q { product(id: null) { id } }").expect_err("id is ID!");
    assert!(message.contains("id"));
}

#[test]
fn accepts_a_well_formed_list_argument() {
    validate_arg_query(r#"query Q { products(tags: ["a", "b"]) { id } }"#).expect("a list of strings is valid for [String!]");
}

#[test]
fn rejects_a_scalar_for_a_list_argument() {
    let message = validate_arg_query(r#"query Q { products(tags: "a") { id } }"#).expect_err("a bare string is not a list");
    assert!(message.contains("tags"));
}

// ---------------------------------------------------------------------------------------------
// The schema index.

const SDL: &str = r#"
type Query { product(id: ID!): Product }
type Product { id: ID!, name: String, status: ProductStatus!, tags: [String!]! }
enum ProductStatus { ACTIVE ARCHIVED }
"#;

#[test]
fn exposes_enum_values() {
    let index = schema_index_for(SDL).expect("schema parses");
    let values = index.enum_values("ProductStatus").expect("enum is known");
    assert!(values.contains("ACTIVE"));
    assert!(values.contains("ARCHIVED"));
    assert_eq!(values.len(), 2);
}

#[test]
fn unknown_enum_returns_none() {
    let index = schema_index_for(SDL).expect("schema parses");
    assert!(index.enum_values("Product").is_none());
    assert!(index.enum_values("Nope").is_none());
}

#[test]
fn resolves_field_return_types() {
    let index = schema_index_for(SDL).expect("schema parses");

    let id = index.field_return_type("Product", "id").expect("id exists");
    assert!(id.is_non_null());
    assert_eq!(id.innermost_named(), Some("ID"));

    let name = index.field_return_type("Product", "name").expect("name exists");
    assert!(!name.is_non_null());

    assert!(index.field_return_type("Product", "nope").is_none());
}

#[test]
fn unwraps_list_and_non_null() {
    let index = schema_index_for(SDL).expect("schema parses");
    let tags = index.field_return_type("Product", "tags").expect("tags exists");

    assert!(tags.is_non_null());
    let list = tags.unwrap_non_null();
    let item = list.as_list_item().expect("is a list");
    assert!(item.is_non_null());
    assert_eq!(item.unwrap_non_null().innermost_named(), Some("String"));
}

#[test]
fn classifies_enums_and_scalars() {
    let index = schema_index_for(SDL).expect("schema parses");
    assert!(index.is_enum("ProductStatus"));
    assert!(!index.is_enum("Product"));
    assert!(index.is_scalar("ID"));
    assert!(index.is_scalar("String"));
    assert!(!index.is_scalar("Product"));
}

// ---------------------------------------------------------------------------------------------
// Variables against the operation's declarations.

use pact_graphql_plugin::json::{Json, JsonNumber};
use pact_graphql_plugin::response::{validate_response, ResponseMismatch};
use pact_graphql_plugin::variables::validate_variables;

const VARIABLES_SDL: &str = r#"
schema { query: Query }
enum Status { ACTIVE DRAFT }
input Filter { term: String }
type Product { id: ID! }
type Query {
  product(id: ID!): Product
  products(status: Status, first: Int, tags: [String!], filter: Filter, rate: Float, live: Boolean): [Product!]!
}
"#;

fn from_value(v: serde_json::Value) -> Json {
    match v {
        serde_json::Value::Null => Json::Null,
        serde_json::Value::Bool(b) => Json::Bool(b),
        serde_json::Value::Number(n) => Json::Number(JsonNumber { as_i64: n.as_i64(), text: n.to_string() }),
        serde_json::Value::String(s) => Json::Str(s),
        serde_json::Value::Array(items) => Json::List(items.into_iter().map(from_value).collect()),
        serde_json::Value::Object(map) => Json::Object(map.into_iter().map(|(k, v)| (k, from_value(v))).collect()),
    }
}

fn json(text: &str) -> Json {
    from_value(serde_json::from_str(text).expect("test JSON parses"))
}

fn check(query: &str, variables: &str) -> Result<(), String> {
    let schema = schema_index_for(VARIABLES_SDL).expect("schema parses");
    let operation = parse_and_inline(query, None).map_err(|e| e.joined(": ")).expect("query parses");
    let variables = json(variables);
    validate_variables(&schema, &operation, Some(&variables)).map_err(|e| e.joined(": "))
}

#[test]
fn accepts_a_supplied_required_variable() {
    let result = check("query Q($id: ID!) { product(id: $id) { id } }", r#"{ "id": "10" }"#);
    assert!(result.is_ok(), "expected ok, got: {result:?}");
}

#[test]
fn rejects_a_missing_required_variable() {
    let message = check("query Q($id: ID!) { product(id: $id) { id } }", "{}").expect_err("missing required variable should fail");
    assert!(message.contains("$id"), "error should name the variable, got: {message}");
}

#[test]
fn rejects_a_required_variable_supplied_as_null() {
    let message = check("query Q($id: ID!) { product(id: $id) { id } }", r#"{ "id": null }"#)
        .expect_err("explicit null for a non-null variable should fail");
    assert!(message.contains("$id"));
}

#[test]
fn accepts_a_missing_optional_variable() {
    let result = check("query Q($status: Status) { products(status: $status) { id } }", "{}");
    assert!(result.is_ok(), "expected ok, got: {result:?}");
}

#[test]
fn accepts_a_missing_non_null_variable_that_has_a_default() {
    let result = check("query Q($first: Int! = 10) { products(first: $first) { id } }", "{}");
    assert!(result.is_ok(), "expected ok, got: {result:?}");
}

#[test]
fn rejects_a_string_supplied_for_an_int_variable() {
    let message = check("query Q($first: Int) { products(first: $first) { id } }", r#"{ "first": "ten" }"#)
        .expect_err("a string is not an Int");
    assert!(message.contains("$first"), "got: {message}");
    assert!(message.contains("Int"), "got: {message}");
}

#[test]
fn rejects_a_fractional_value_for_an_int_variable() {
    let message = check("query Q($first: Int) { products(first: $first) { id } }", r#"{ "first": 1.5 }"#).expect_err("1.5 is not an Int");
    assert!(message.contains("$first"));
}

#[test]
fn accepts_an_integer_for_a_float_variable() {
    let result = check("query Q($rate: Float) { products(rate: $rate) { id } }", r#"{ "rate": 3 }"#);
    assert!(result.is_ok(), "Int is valid input coercion for Float: {result:?}");
}

#[test]
fn accepts_a_number_for_an_id_variable() {
    let result = check("query Q($id: ID!) { product(id: $id) { id } }", r#"{ "id": 10 }"#);
    assert!(result.is_ok(), "ID accepts Int or String: {result:?}");
}

#[test]
fn rejects_a_value_outside_the_enum() {
    let message = check("query Q($status: Status) { products(status: $status) { id } }", r#"{ "status": "SOLD_OUT" }"#)
        .expect_err("SOLD_OUT is not a Status");
    assert!(message.contains("$status"), "got: {message}");
    assert!(message.contains("SOLD_OUT"), "got: {message}");
}

#[test]
fn accepts_a_valid_enum_value() {
    let result = check("query Q($status: Status) { products(status: $status) { id } }", r#"{ "status": "ACTIVE" }"#);
    assert!(result.is_ok(), "expected ok, got: {result:?}");
}

#[test]
fn rejects_a_scalar_supplied_for_a_list_variable() {
    let message = check("query Q($tags: [String!]) { products(tags: $tags) { id } }", r#"{ "tags": "sale" }"#)
        .expect_err("a bare string is not a list");
    assert!(message.contains("$tags"));
}

#[test]
fn rejects_a_null_item_in_a_non_null_item_list() {
    let message = check("query Q($tags: [String!]) { products(tags: $tags) { id } }", r#"{ "tags": ["sale", null] }"#)
        .expect_err("null is not allowed as a [String!] item");
    assert!(message.contains("$tags"));
}

#[test]
fn accepts_a_well_formed_list() {
    let result = check("query Q($tags: [String!]) { products(tags: $tags) { id } }", r#"{ "tags": ["sale", "new"] }"#);
    assert!(result.is_ok(), "expected ok, got: {result:?}");
}

#[test]
fn rejects_a_scalar_supplied_for_an_input_object_variable() {
    let message = check("query Q($filter: Filter) { products(filter: $filter) { id } }", r#"{ "filter": "term" }"#)
        .expect_err("an input object variable needs an object");
    assert!(message.contains("$filter"));
}

#[test]
fn ignores_extra_variables_the_operation_does_not_declare() {
    let result = check("query Q($id: ID!) { product(id: $id) { id } }", r#"{ "id": "10", "unused": true }"#);
    assert!(result.is_ok(), "expected ok, got: {result:?}");
}

#[test]
fn reports_an_unknown_variable_type() {
    let message = check("query Q($id: Nonexistent!) { product(id: $id) { id } }", r#"{ "id": "10" }"#)
        .expect_err("a variable typed by a type not in the schema should fail");
    assert!(message.contains("Nonexistent"));
}

#[test]
fn accepts_a_boolean_variable() {
    let result = check("query Q($live: Boolean) { products(live: $live) { id } }", r#"{ "live": true }"#);
    assert!(result.is_ok(), "expected ok, got: {result:?}");
}

#[test]
fn treats_absent_variables_as_an_empty_set() {
    let schema = schema_index_for(VARIABLES_SDL).expect("schema parses");
    let operation = parse_and_inline("query Q($id: ID!) { product(id: $id) { id } }", None).ok().expect("parses");
    let err = validate_variables(&schema, &operation, None).err().expect("no variables at all still misses a required one");
    assert!(err.joined(": ").contains("$id"));
}

#[test]
fn variable_messages_name_the_declared_type() {
    let message = check("query Q($tags: [String!]!) { products(tags: $tags) { id } }", "{}").unwrap_err();
    assert_eq!(message, "variable `$tags` is declared as `[String!]!` but no value was supplied");
    let enum_message = check("query Q($status: Status) { products(status: $status) { id } }", r#"{ "status": "X" }"#).unwrap_err();
    assert_eq!(enum_message, "variable `$status` is `X`, which is not a value of enum `Status` (expected one of: ACTIVE, DRAFT)");
    let kind = check("query Q($p: Product) { products { id } }", r#"{ "p": 1 }"#).unwrap_err();
    assert_eq!(kind, "variable `$p` cannot be declared as object type `Product`");
}

// ---------------------------------------------------------------------------------------------
// Responses against the schema and the operation.

const RESPONSE_SDL: &str = r#"
type Query { product(id: ID!): Product, products: [Product!]! }
type Product {
  id: ID!
  name: String
  status: ProductStatus!
  rating: Int
  category: Category
}
type Category { id: ID!, name: String! }
enum ProductStatus { ACTIVE ARCHIVED }
"#;

const RESPONSE_QUERY: &str = "query GetProduct { product(id: \"10\") { id name status } }";

fn validate_response_json(query: &str, operation_name: Option<&str>, response: &str) -> Result<Vec<ResponseMismatch>, String> {
    let index = schema_index_for(RESPONSE_SDL)?;
    validate_response(&index, query, operation_name, &json(response)).map_err(|e| e.joined(": "))
}

fn paths(ms: &[ResponseMismatch]) -> Vec<(String, String)> {
    ms.iter().map(|m| (m.path.clone(), m.description.clone())).collect()
}

#[test]
fn accepts_a_well_formed_response() {
    let ms = validate_response_json(
        RESPONSE_QUERY,
        Some("GetProduct"),
        r#"{"data": {"product": {"id": "10", "name": "Backpack", "status": "ACTIVE"}}}"#,
    )
    .unwrap();
    assert!(ms.is_empty(), "got {:?}", paths(&ms));
}

#[test]
fn rejects_a_field_absent_from_the_schema() {
    let ms = validate_response_json(
        RESPONSE_QUERY,
        Some("GetProduct"),
        r#"{"data": {"product": {"id": "10", "name": "Backpack", "status": "ACTIVE", "internalSku": "INT-001"}}}"#,
    )
    .unwrap();
    assert_eq!(ms.len(), 1, "got {:?}", paths(&ms));
    assert_eq!(ms[0].path, "$.data.product.internalSku");
    assert!(ms[0].description.contains("not a field of type \"Product\""), "{}", ms[0].description);
}

#[test]
fn rejects_a_schema_field_the_query_did_not_request() {
    let ms = validate_response_json(
        RESPONSE_QUERY,
        Some("GetProduct"),
        r#"{"data": {"product": {"id": "10", "name": "Backpack", "status": "ACTIVE", "rating": 5}}}"#,
    )
    .unwrap();
    assert_eq!(ms.len(), 1, "got {:?}", paths(&ms));
    assert_eq!(ms[0].path, "$.data.product.rating");
    assert!(ms[0].description.contains("was not requested"), "{}", ms[0].description);
}

#[test]
fn rejects_a_missing_requested_field() {
    let ms = validate_response_json(RESPONSE_QUERY, Some("GetProduct"), r#"{"data": {"product": {"id": "10", "name": "Backpack"}}}"#).unwrap();
    assert_eq!(ms.len(), 1, "got {:?}", paths(&ms));
    assert_eq!(ms[0].path, "$.data.product.status");
    assert!(ms[0].description.contains("missing"), "{}", ms[0].description);
}

#[test]
fn rejects_an_invalid_enum_member() {
    let ms = validate_response_json(
        RESPONSE_QUERY,
        Some("GetProduct"),
        r#"{"data": {"product": {"id": "10", "name": "Backpack", "status": "SOLD_OUT"}}}"#,
    )
    .unwrap();
    assert_eq!(ms.len(), 1, "got {:?}", paths(&ms));
    assert_eq!(ms[0].path, "$.data.product.status");
    assert!(ms[0].expected.contains("ACTIVE"));
    assert_eq!(ms[0].actual, "SOLD_OUT");
}

#[test]
fn rejects_null_in_a_non_null_field() {
    let ms = validate_response_json(
        RESPONSE_QUERY,
        Some("GetProduct"),
        r#"{"data": {"product": {"id": "10", "name": "Backpack", "status": null}}}"#,
    )
    .unwrap();
    assert_eq!(ms.len(), 1, "got {:?}", paths(&ms));
    assert_eq!(ms[0].path, "$.data.product.status");
    assert!(ms[0].description.contains("non-null"), "{}", ms[0].description);
}

#[test]
fn accepts_null_in_a_nullable_field() {
    let ms = validate_response_json(
        RESPONSE_QUERY,
        Some("GetProduct"),
        r#"{"data": {"product": {"id": "10", "name": null, "status": "ACTIVE"}}}"#,
    )
    .unwrap();
    assert!(ms.is_empty(), "got {:?}", paths(&ms));
}

#[test]
fn rejects_a_scalar_of_the_wrong_json_type() {
    let ms = validate_response_json(
        "query Q { product(id: \"10\") { id rating } }",
        Some("Q"),
        r#"{"data": {"product": {"id": "10", "rating": "five"}}}"#,
    )
    .unwrap();
    assert_eq!(ms.len(), 1, "got {:?}", paths(&ms));
    assert_eq!(ms[0].path, "$.data.product.rating");
    assert!(ms[0].description.contains("Int"), "{}", ms[0].description);
}

#[test]
fn walks_into_lists() {
    let ms = validate_response_json(
        "query Q { products { id category { name } } }",
        Some("Q"),
        r#"{"data": {"products": [
            {"id": "1", "category": {"name": "Bags"}},
            {"id": "2", "category": {"name": "Bags", "slug": "bags"}}
        ]}}"#,
    )
    .unwrap();
    assert_eq!(ms.len(), 1, "got {:?}", paths(&ms));
    assert_eq!(ms[0].path, "$.data.products[1].category.slug");
}

#[test]
fn rejects_an_object_where_a_list_is_expected() {
    let ms = validate_response_json("query Q { products { id } }", Some("Q"), r#"{"data": {"products": {"id": "1"}}}"#).unwrap();
    assert_eq!(ms.len(), 1, "got {:?}", paths(&ms));
    assert_eq!(ms[0].path, "$.data.products");
    assert!(ms[0].description.contains("list"), "{}", ms[0].description);
}

#[test]
fn accepts_an_errors_envelope_with_null_data() {
    let ms = validate_response_json(
        RESPONSE_QUERY,
        Some("GetProduct"),
        r#"{"data": {"product": null}, "errors": [{"message": "Product not found", "path": ["product"]}]}"#,
    )
    .unwrap();
    assert!(ms.is_empty(), "got {:?}", paths(&ms));
}

#[test]
fn rejects_an_error_without_a_message() {
    let ms = validate_response_json(RESPONSE_QUERY, Some("GetProduct"), r#"{"data": null, "errors": [{"code": "NOT_FOUND"}]}"#).unwrap();
    assert_eq!(ms.len(), 1, "got {:?}", paths(&ms));
    assert_eq!(ms[0].path, "$.errors[0].message");
}

#[test]
fn rejects_an_envelope_with_neither_data_nor_errors() {
    let ms = validate_response_json(RESPONSE_QUERY, Some("GetProduct"), r#"{"meta": {}}"#).unwrap();
    assert!(ms.iter().any(|m| m.path == "$"), "got {:?}", paths(&ms));
}

#[test]
fn rejects_an_unknown_top_level_key() {
    let ms = validate_response_json(
        RESPONSE_QUERY,
        Some("GetProduct"),
        r#"{"data": {"product": {"id": "10", "name": "Backpack", "status": "ACTIVE"}}, "meta": {"traceId": "abc"}}"#,
    )
    .unwrap();
    assert_eq!(ms.len(), 1, "got {:?}", paths(&ms));
    assert_eq!(ms[0].path, "$.meta");
}

#[test]
fn response_that_is_not_an_object_is_one_mismatch() {
    let ms = validate_response_json(RESPONSE_QUERY, Some("GetProduct"), "[1]").unwrap();
    assert_eq!(ms.len(), 1);
    assert_eq!(ms[0].path, "$");
    assert_eq!(ms[0].actual, "list");
}

#[test]
fn response_for_an_unknown_operation_fails() {
    let err = validate_response_json(RESPONSE_QUERY, Some("Nope"), "{}").unwrap_err();
    assert_eq!(err, "operation `Nope` not found in query_document");
}

// ---------------------------------------------------------------------------------------------
// Building interactions and comparing requests.

use std::sync::Arc;

use pact_graphql_plugin::canonical::dedent_and_trim;
use pact_graphql_plugin::encoder::{GraphqlRequest, RequestEncoder, Transport};
use pact_graphql_plugin::error::{Error, Fallible};
use pact_graphql_plugin::payload::{canonicalize_query, CanonicalGraphqlRequest, RequestMismatch};
use pact_graphql_plugin::server::{
    compare_requests, config_from_pact, content_type_or_default, default_content_type, encode_body, expected_request,
    schema_indicator,
};
use pact_graphql_plugin::{GraphqlInteractionBuilder, GraphqlPluginConfig, GraphqlPluginRequest, SchemaRegistry};

fn test_builder() -> GraphqlInteractionBuilder {
    GraphqlInteractionBuilder::new(Arc::new(SchemaRegistry::new("/tmp/graphql-schemas")))
}

fn build(builder: &GraphqlInteractionBuilder, req: GraphqlPluginRequest) -> Fallible<GraphqlPluginConfig> {
    builder.build(&req).map(|built| built.config)
}

fn later_messages(err: &Error) -> Vec<String> {
    err.messages.iter().skip(1).cloned().collect()
}

#[test]
fn canonicalize_query_falls_back_to_dedented_text_on_syntax_error() {
    let input = "query Q { unclosed";
    let result = canonicalize_query(input, Some("Q")).unwrap();
    assert_eq!(result, dedent_and_trim(input));
}

#[test]
fn rejects_empty_query() {
    let builder = test_builder();
    let err = build(&builder, GraphqlPluginRequest { query_document: "   ".into(), ..Default::default() }).unwrap_err();

    assert!(err.joined(": ").contains("query_document"));
}

#[test]
fn propagates_optional_fields_and_transport() {
    let builder = test_builder();
    let req = GraphqlPluginRequest {
        query_document: "query PingQuery { ping }".into(),
        operation_name: Some("PingQuery".into()),
        variables_json: Some(r#"{"id": 1}"#.into()),
        transport: Transport::QueryString,
        schema_sdl: None,
        ..Default::default()
    };

    let config = build(&builder, GraphqlPluginRequest { ..copy_request(&req) }).unwrap();

    assert_eq!(config.query_document, "query PingQuery {\n  ping\n}");
    assert_eq!(config.operation_name, req.operation_name);
    assert_eq!(config.variables_json.as_deref(), Some("{\"id\":1}"));
    assert_eq!(config.transport, req.transport);
    assert!(config.schema_ref.is_none());
    assert!(config.schema_inline_base64.is_none());
}

fn copy_request(req: &GraphqlPluginRequest) -> GraphqlPluginRequest {
    GraphqlPluginRequest {
        query_document: req.query_document.clone(),
        operation_name: req.operation_name.clone(),
        variables_json: req.variables_json.clone(),
        transport: req.transport,
        schema_sdl: req.schema_sdl.clone(),
        query_matching: req.query_matching,
        response_body_json: req.response_body_json.clone(),
    }
}

#[test]
fn stores_schema_and_embeds_inline_copy() {
    let builder = test_builder();
    let schema_sdl = "type Query { ping: String }";

    let config = build(
        &builder,
        GraphqlPluginRequest { query_document: "query { ping }".into(), schema_sdl: Some(schema_sdl.into()), ..Default::default() },
    )
    .unwrap();

    let schema_ref = config.schema_ref.expect("schema_ref should be set");
    assert_eq!(schema_ref.encoding, "utf-8");
}

#[test]
fn build_names_the_schema_file_to_write() {
    let builder = test_builder();
    let req = GraphqlPluginRequest {
        query_document: "query { ping }".into(),
        schema_sdl: Some("  type Query { ping: String }  ".into()),
        ..Default::default()
    };
    let built = builder.build(&req).unwrap();
    let file = built.schema_file.expect("a schema file to write");
    assert_eq!(file.contents, "type Query { ping: String }\n");
    assert_eq!(file.path, format!("/tmp/graphql-schemas/{}.graphql", file.schema_ref.hash));
    assert_eq!(built.config.schema_ref.map(|r| r.hash), Some(file.schema_ref.hash));
}

#[test]
fn canonicalizes_request_payload() {
    let builder = test_builder();
    let schema_sdl = r#"
        type Query {
            product(id: ID!): Product
        }

        type Product {
            id: ID!
            name: String!
        }
    "#;

    let config = build(
        &builder,
        GraphqlPluginRequest {
            query_document: r#"
                query GetProduct($id: ID!) {
                    product(id: $id) {
                        id
        
                        name
                    }
                }
            "#
            .into(),
            variables_json: Some(r#"{ "b": 2, "id": "10", "a": 1 }"#.into()),
            operation_name: Some("GetProduct".into()),
            schema_sdl: Some(schema_sdl.into()),
            ..Default::default()
        },
    )
    .unwrap();

    assert_eq!(config.request.query_document, "query GetProduct($id: ID!) {\n  product(id: $id) {\n    id\n    name\n  }\n}");
    assert_eq!(config.request.operation_name.as_deref(), Some("GetProduct"));
    let canonical_variables = config.request.variables_json.as_ref().expect("canonical variables should be present");
    assert_eq!(canonical_variables.as_str(), r#"{"a":1,"b":2,"id":"10"}"#, "object keys should be canonically sorted");

    let inline_schema_base64 = config.schema_inline_base64.as_ref().expect("inline schema should be present");
    let inline_schema_struct = config.inline_schema.as_ref().expect("inline schema metadata should be present");
    assert_eq!(inline_schema_struct.base64_sdl.as_deref(), Some(inline_schema_base64.as_str()));

    let decoded = String::from_utf8(base64::Engine::decode(&base64::engine::general_purpose::STANDARD, inline_schema_base64).unwrap()).unwrap();
    assert_eq!(decoded, "type Query {\n    product(id: ID!): Product\n}\n\ntype Product {\n    id: ID!\n    name: String!\n}\n");
}

const PRODUCT_ONLY_SDL: &str = r#"
                type Query {
                    product(id: ID!): Product
                }

                type Product {
                    id: ID!
                }
                "#;

#[test]
fn fails_when_query_references_unknown_field_in_payload_validation() {
    let builder = test_builder();
    let err = build(
        &builder,
        GraphqlPluginRequest {
            query_document: r#"
                query GetProduct($id: ID!) {
                    product(id: $id) {
                        id
                        status
                    }
                }
            "#
            .into(),
            schema_sdl: Some(PRODUCT_ONLY_SDL.into()),
            ..Default::default()
        },
    )
    .unwrap_err();

    assert!(err.message().contains("GraphQL query validation failed"), "unexpected top-level error: {}", err.message());
    let chain = later_messages(&err);
    assert!(
        chain.iter().any(|msg| msg.contains("field `status` does not exist on type `Product`")),
        "missing detailed validation error. chain: {:?}",
        chain
    );
}

#[test]
fn fails_when_nested_selection_has_unknown_field() {
    let builder = test_builder();
    let err = build(
        &builder,
        GraphqlPluginRequest {
            query_document: r#"
                query GetProduct($id: ID!) {
                    product(id: $id) {
                        id
                        details {
                            name
                            stock
                        }
                    }
                }
            "#
            .into(),
            schema_sdl: Some(
                r#"
                type Query {
                    product(id: ID!): Product
                }

                type Product {
                    id: ID!
                    details: ProductDetails
                }

                type ProductDetails {
                    name: String!
                }
                "#
                .into(),
            ),
            ..Default::default()
        },
    )
    .unwrap_err();

    assert!(err.message().contains("GraphQL query validation failed"), "unexpected top-level error: {}", err.message());
    let chain = later_messages(&err);
    assert!(
        chain.iter().any(|msg| msg.contains("field `stock` does not exist on type `ProductDetails`")),
        "missing detailed validation error. chain: {:?}",
        chain
    );
}

#[test]
fn fails_when_introspection_type_missing_required_argument() {
    let builder = test_builder();
    let err = build(
        &builder,
        GraphqlPluginRequest {
            query_document: "query { __type { name } }".into(),
            schema_sdl: Some(PRODUCT_ONLY_SDL.into()),
            ..Default::default()
        },
    )
    .unwrap_err();

    assert!(err.message().contains("GraphQL query validation failed"), "unexpected top-level error: {}", err.message());
    let chain = later_messages(&err);
    assert!(
        chain.iter().any(|msg| msg.contains("field `__type` on type `Query` is missing required argument `name`")),
        "missing detailed validation error. chain: {:?}",
        chain
    );
}

#[test]
fn fails_when_introspection_type_has_unknown_argument() {
    let builder = test_builder();
    let err = build(
        &builder,
        GraphqlPluginRequest {
            query_document: "query { __type(name: \"Product\", foo: \"bar\") { name } }".into(),
            schema_sdl: Some(PRODUCT_ONLY_SDL.into()),
            ..Default::default()
        },
    )
    .unwrap_err();

    assert!(err.message().contains("GraphQL query validation failed"), "unexpected top-level error: {}", err.message());
    let chain = later_messages(&err);
    assert!(
        chain.iter().any(|msg| msg.contains("argument `foo` is not defined on field `__type`")),
        "missing detailed validation error. chain: {:?}",
        chain
    );
}

#[test]
fn fails_when_fragments_form_cycle() {
    let builder = test_builder();
    let err = build(
        &builder,
        GraphqlPluginRequest {
            query_document: r#"
                query GetProduct($id: ID!) {
                    product(id: $id) {
                        ...NodeFields
                    }
                }

                fragment NodeFields on Product {
                    id
                    ...OtherFields
                }

                fragment OtherFields on Product {
                    name
                    ...NodeFields
                }
            "#
            .into(),
            schema_sdl: Some(
                r#"
                type Query {
                    product(id: ID!): Product
                }

                type Product {
                    id: ID!
                    name: String!
                }
                "#
                .into(),
            ),
            ..Default::default()
        },
    )
    .unwrap_err();

    let chain = err.messages.clone();
    assert!(
        chain.iter().any(|msg| msg.contains("fragment `NodeFields` forms a cycle")),
        "missing fragment cycle diagnostic. chain: {:?}",
        chain
    );
}

#[test]
fn wire_config_carries_the_schema_exactly_once() {
    let builder = test_builder();
    let sdl = "type Query { hello: String }";

    let config = build(
        &builder,
        GraphqlPluginRequest {
            query_document: "query Q { hello }".into(),
            operation_name: Some("Q".into()),
            schema_sdl: Some(sdl.into()),
            ..GraphqlPluginRequest::default()
        },
    )
    .expect("build config");

    let wire = config.to_wire();
    assert!(
        wire.inline_schema.as_ref().and_then(|schema| schema.base64_sdl.as_deref()).is_some(),
        "inline_schema.base64_sdl is the canonical home for the SDL"
    );
    assert!(wire.schema_inline_base64.is_none(), "the legacy duplicate must no longer be written");
}

const PRODUCT_ID_SDL: &str = "schema { query: Query }\ntype Product { id: ID! }\ntype Query { product(id: ID!): Product }";

#[test]
fn rejects_variables_that_do_not_satisfy_the_operations_declarations() {
    let builder = test_builder();
    let err = build(
        &builder,
        GraphqlPluginRequest {
            query_document: "query GetProduct($id: ID!) { product(id: $id) { id } }".into(),
            operation_name: Some("GetProduct".into()),
            variables_json: Some(r#"{"productId":"10"}"#.into()),
            schema_sdl: Some(PRODUCT_ID_SDL.into()),
            ..GraphqlPluginRequest::default()
        },
    )
    .err()
    .expect("a missing required variable should be rejected at configure time");

    let message = err.joined(": ");
    assert!(message.contains("$id"), "error should name the variable, got: {message}");
}

#[test]
fn accepts_variables_that_satisfy_the_operations_declarations() {
    let builder = test_builder();
    build(
        &builder,
        GraphqlPluginRequest {
            query_document: "query GetProduct($id: ID!) { product(id: $id) { id } }".into(),
            operation_name: Some("GetProduct".into()),
            variables_json: Some(r#"{"id":"10"}"#.into()),
            schema_sdl: Some(PRODUCT_ID_SDL.into()),
            ..GraphqlPluginRequest::default()
        },
    )
    .expect("well-formed variables should be accepted");
}

#[test]
fn unreadable_schema_is_reported_twice_wrapped() {
    let builder = test_builder();
    let err = build(
        &builder,
        GraphqlPluginRequest {
            query_document: "query { a }".into(),
            schema_sdl: Some("type Query {".into()),
            ..GraphqlPluginRequest::default()
        },
    )
    .unwrap_err();
    assert_eq!(err.messages[0], "failed to parse GraphQL schema SDL");
    assert_eq!(err.messages[1], "failed to parse GraphQL schema SDL");
    assert_eq!(err.messages.len(), 3);
}

#[test]
fn conflicting_schema_definitions_are_reported() {
    let builder = test_builder();
    let err = build(
        &builder,
        GraphqlPluginRequest {
            query_document: "query { a }".into(),
            schema_sdl: Some("type Query { a: Int }\nenum Query { X }".into()),
            ..GraphqlPluginRequest::default()
        },
    )
    .unwrap_err();
    assert_eq!(
        err.messages,
        vec![
            "failed to parse GraphQL schema SDL".to_string(),
            "type `Query` redeclared as enum but previously defined as object".to_string(),
        ]
    );
}

// ---------------------------------------------------------------------------------------------
// Comparing received requests with a stored interaction.

fn sample_plugin_config() -> GraphqlPluginConfig {
    build(
        &test_builder(),
        GraphqlPluginRequest {
            query_document: "query Products { products { id name } }".into(),
            operation_name: Some("Products".into()),
            variables_json: None,
            transport: Transport::JsonBody,
            schema_sdl: Some(
                r#"
                        type Query {
                            products: [Product!]!
                        }

                        type Product {
                            id: ID!
                            name: String!
                        }
                    "#
                .into(),
            ),
            ..GraphqlPluginRequest::default()
        },
    )
    .expect("canonical config")
}

fn body_of(request: &GraphqlRequest) -> Vec<u8> {
    let encoded = RequestEncoder::encode(request).expect("encode request");
    match request.transport {
        Transport::JsonBody => encoded.body.expect("json body payload").into_bytes(),
        Transport::QueryString => encoded.query_string.expect("query string payload").into_bytes(),
    }
}

/// What the plugin answers for a received body against a stored configuration.
fn compare(config: &GraphqlPluginConfig, body: &[u8], content_type: &str) -> Fallible<Vec<RequestMismatch>> {
    let expected = expected_request(config);
    let content_type = content_type_or_default(content_type, &config.transport);
    let indicator = schema_indicator(config);
    let actual = CanonicalGraphqlRequest::from_http_request(
        body,
        &content_type,
        config.transport,
        indicator.as_deref(),
        None,
        config.query_matching,
    );
    compare_requests(&expected, actual)
}

#[test]
fn compare_contents_matches() {
    let config = sample_plugin_config();
    let actual_request = GraphqlRequest::json(
        &config.request.query_document,
        config.request.operation_name.clone(),
        config.request.variables_json.clone(),
    );
    let mismatches = compare(&config, &body_of(&actual_request), &default_content_type(&Transport::JsonBody)).expect("compare contents");
    assert!(mismatches.is_empty(), "expected no mismatches");
}

#[test]
fn compare_contents_mismatch() {
    let config = sample_plugin_config();
    let actual_request = GraphqlRequest::json(
        "query Products { products { id } }",
        config.request.operation_name.clone(),
        config.request.variables_json.clone(),
    );
    let mismatches = compare(&config, &body_of(&actual_request), "application/graphql").expect("compare contents");

    assert_eq!(mismatches.len(), 1);
    let mismatch = &mismatches[0];
    assert_eq!(mismatch.path, "/payload/query_document/products/name");
    assert!(mismatch.description.contains("not selected by the actual query"), "{}", mismatch.description);
}

#[test]
fn compare_contents_validation_mismatch() {
    let config = sample_plugin_config();
    let actual_request = GraphqlRequest::json(
        "query Products { products { id bogus } }",
        config.request.operation_name.clone(),
        config.request.variables_json.clone(),
    );
    let mismatches = compare(&config, &body_of(&actual_request), "").expect("compare contents");

    assert_eq!(mismatches.len(), 1);
    let mismatch = &mismatches[0];
    assert_eq!(mismatch.path, "/payload/query_document");
    assert_eq!(mismatch.description, "GraphQL query validation failed");
    assert!(mismatch.diff.contains("GraphQL query validation failed"), "expected validation failure to be in diff");
    assert!(mismatch.diff.contains("does not exist on type"), "expected field error to be in diff");
}

#[test]
fn compare_reports_an_unreadable_body_as_an_error() {
    let config = sample_plugin_config();
    let err = compare(&config, b"{not json", "application/json").unwrap_err();
    assert_eq!(err.message(), "failed to parse GraphQL JSON body");
}

/// A pact whose interaction `key` holds `config` in its stored form.
fn pact_with_config(config: &GraphqlPluginConfig, key: &str) -> String {
    let wire = config.to_wire();
    let quoted = |s: &str| serde_json::to_string(s).unwrap();
    let mut fields = vec![format!("\"query_document\":{}", quoted(wire.query_document.as_deref().unwrap()))];
    if let Some(n) = &wire.operation_name {
        fields.push(format!("\"operation_name\":{}", quoted(n)));
    }
    if let Some(v) = &wire.variables_json {
        fields.push(format!("\"variables_json\":{}", quoted(v)));
    }
    let transport = match wire.transport.unwrap() {
        Transport::JsonBody => "json_body",
        Transport::QueryString => "query_string",
    };
    fields.push(format!("\"transport\":\"{transport}\""));
    if let Some(b) = wire.inline_schema.as_ref().and_then(|s| s.base64_sdl.as_deref()) {
        fields.push(format!("\"inline_schema\":{{\"base64_sdl\":{}}}", quoted(b)));
    }
    format!(
        "{{\"interactions\":[{{\"key\":\"{key}\",\"pluginConfiguration\":{{\"graphql\":{{\"interactionConfiguration\":{{{}}}}}}}}}]}}",
        fields.join(",")
    )
}

/// The configuration a pact's stored form reads as (the fields these tests write).
fn config_of_pact(pact: &str, key: &str) -> GraphqlPluginConfig {
    let json = config_from_pact(pact, key).expect("configuration in pact");
    let Json::Object(entries) = json else { panic!("configuration is an object") };
    let text = |k: &str| {
        entries.iter().find(|(name, _)| name == k).and_then(|(_, v)| match v {
            Json::Str(s) => Some(s.clone()),
            _ => None,
        })
    };
    let inline = entries.iter().find(|(name, _)| name == "inline_schema").and_then(|(_, v)| match v {
        Json::Object(es) => es.iter().find(|(n, _)| n == "base64_sdl").and_then(|(_, b)| match b {
            Json::Str(s) => Some(pact_graphql_plugin::GraphqlInlineSchema { base64_sdl: Some(s.clone()) }),
            _ => None,
        }),
        _ => None,
    });
    let wire = pact_graphql_plugin::interaction::GraphqlPluginConfigWire {
        query_document: text("query_document"),
        operation_name: text("operation_name"),
        variables_json: text("variables_json"),
        transport: text("transport").map(|t| if t == "query_string" { Transport::QueryString } else { Transport::JsonBody }),
        schema_ref: None,
        schema_inline_base64: text("schema_inline_base64"),
        inline_schema: inline,
        request: None,
        query_matching: None,
        response_body_json: None,
    };
    GraphqlPluginConfig::from_wire(wire).expect("stored configuration reads back")
}

#[test]
fn prepare_interaction_for_verification_returns_config() {
    let config = sample_plugin_config();
    let interaction_key = "prepare-key";
    let pact_json = pact_with_config(&config, interaction_key);

    let prepared = config_of_pact(&pact_json, interaction_key);
    let body = encode_body(&prepared).expect("encode body");
    let expected_body = encode_body(&config).expect("encode body");
    assert_eq!(body.content_type, expected_body.content_type);
    assert_eq!(body.content, expected_body.content);
}

#[test]
fn verify_interaction_matches() {
    let config = sample_plugin_config();
    let interaction_key = "verify-match";
    let pact_json = pact_with_config(&config, interaction_key);
    let stored = config_of_pact(&pact_json, interaction_key);
    let prepared = encode_body(&stored).expect("prepare interaction");

    let mismatches = compare(&stored, prepared.content.unwrap().as_bytes(), &prepared.content_type).expect("verify interaction");
    assert!(mismatches.is_empty(), "no mismatches expected");
}

#[test]
fn verify_interaction_mismatch() {
    let config = sample_plugin_config();
    let interaction_key = "verify-mismatch";
    let pact_json = pact_with_config(&config, interaction_key);
    let stored = config_of_pact(&pact_json, interaction_key);

    let mutated_request = GraphqlRequest::json(
        "query Products { products { id } }",
        config.request.operation_name.clone(),
        config.request.variables_json.clone(),
    );
    let mismatches = compare(&stored, &body_of(&mutated_request), "application/graphql").expect("verify interaction");

    assert_eq!(mismatches.len(), 1);
    assert_eq!(mismatches[0].path, "/payload/query_document/products/name");
    assert!(mismatches[0].description.contains("not selected by the actual query"), "{}", mismatches[0].description);
}

#[test]
fn verify_interaction_invalid_query() {
    let config = sample_plugin_config();
    let interaction_key = "verify-invalid";
    let pact_json = pact_with_config(&config, interaction_key);
    let stored = config_of_pact(&pact_json, interaction_key);

    let mutated_request = GraphqlRequest::json(
        "query Products { products { missingField } }",
        config.request.operation_name.clone(),
        config.request.variables_json.clone(),
    );
    let mismatches = compare(&stored, &body_of(&mutated_request), "application/graphql").expect("verify interaction");

    assert_eq!(mismatches.len(), 1);
    assert_eq!(mismatches[0].path, "/payload/query_document");
    assert_eq!(mismatches[0].description, "GraphQL query validation failed");
    assert!(mismatches[0].diff.contains("GraphQL query validation failed"), "expected validation failure to be in diff");
}

#[test]
fn verify_interaction_reports_a_changed_transport_and_variables() {
    let config = sample_plugin_config();
    let actual_request = GraphqlRequest::query_string(&config.request.query_document, Some("Products".into()), Some("{\"x\":1}".into()));
    let mismatches = compare(&config, &body_of(&actual_request), "application/x-www-form-urlencoded").expect("compare");
    let paths: Vec<&str> = mismatches.iter().map(|m| m.path.as_str()).collect();
    assert_eq!(paths, vec!["/payload/variables_json", "/payload/transport"]);
    assert_eq!(mismatches[0].expected, "<none>");
    assert_eq!(mismatches[1].actual, "query_string");
}

#[test]
fn configure_and_generate_json_body() {
    let req = GraphqlPluginRequest {
        query_document: "query PingQuery { ping }".into(),
        operation_name: Some("PingQuery".into()),
        variables_json: Some(r#"{"id":1}"#.into()),
        transport: Transport::JsonBody,
        schema_sdl: Some("type Query { ping: String }".into()),
        ..Default::default()
    };
    let expected_graphql_body = r#"{"query":"query PingQuery {\n  ping\n}","operationName":"PingQuery","variables":{"id":1}}"#;

    let config = build(&test_builder(), req).unwrap();
    let body = encode_body(&config).unwrap();
    assert_eq!(body.content_type, "application/graphql");
    assert_eq!(body.content.as_deref(), Some(expected_graphql_body));

    let stored = GraphqlPluginConfig::from_wire(config.to_wire()).unwrap();
    let generated = encode_body(&stored).unwrap();
    assert_eq!(generated.content.as_deref(), Some(expected_graphql_body));
}

// ---------------------------------------------------------------------------------------------
// Reading texts through the library, responses on compare, and the index after a conflict.

use pact_graphql_plugin::ast::{SchemaDefinition, SchemaDocument, TypeDef, TypeKind};
use pact_graphql_plugin::server::{compare_response, is_response_content_type};

const PRODUCT_SDL: &str = r#"
type Query { product(id: ID!): Product, products: [Product!]! }
type Product {
  id: ID!
  name: String
  status: ProductStatus!
  rating: Int
  category: Category
}
type Category { id: ID!, name: String! }
enum ProductStatus { ACTIVE ARCHIVED }
"#;

const PRODUCT_QUERY: &str = "query GetProduct { product(id: \"10\") { id name status } }";

fn product_request(response_body_json: Option<&str>) -> GraphqlPluginRequest {
    GraphqlPluginRequest {
        query_document: PRODUCT_QUERY.into(),
        operation_name: Some("GetProduct".into()),
        variables_json: None,
        transport: Transport::JsonBody,
        schema_sdl: Some(PRODUCT_SDL.into()),
        query_matching: Default::default(),
        response_body_json: response_body_json.map(str::to_string),
    }
}

#[test]
fn compare_contents_reports_response_mismatches() {
    let request = product_request(Some(r#"{"data":{"product":{"id":"10","name":"Backpack","status":"ACTIVE"}}}"#));
    let config = build(&test_builder(), request).expect("configure succeeds");

    let actual = r#"{"data":{"product":{"id":"10","name":"Backpack","status":"SOLD_OUT"}}}"#;
    assert!(is_response_content_type("application/graphql-response"));
    let mismatches = compare_response(&expected_request(&config), actual.as_bytes()).expect("compare succeeds");
    let at_status: Vec<_> = mismatches.iter().filter(|m| m.path == "$.data.product.status").collect();
    assert_eq!(at_status.len(), 1, "got {:?}", mismatches.iter().map(|m| &m.path).collect::<Vec<_>>());
    assert_eq!(mismatches.len(), 1);
}

#[test]
fn a_response_body_that_is_not_json_is_refused_on_compare() {
    let config = build(&test_builder(), product_request(None)).expect("configure succeeds");
    let err = compare_response(&expected_request(&config), b"not json").unwrap_err();
    assert_eq!(err.messages.len(), 1);
}

#[test]
fn a_response_is_not_checked_without_an_inline_schema() {
    let config = build(&test_builder(), GraphqlPluginRequest { schema_sdl: None, ..product_request(None) }).expect("configure succeeds");
    let mismatches = compare_response(&expected_request(&config), br#"{"data":{"product":{"bogus":1}}}"#).expect("compare succeeds");
    assert!(mismatches.is_empty());
}

#[test]
fn recognises_the_response_content_type() {
    assert!(is_response_content_type("application/graphql-response+json"));
    assert!(!is_response_content_type("text/application/graphql-response"));
    assert!(!is_response_content_type("application/json"));
    assert!(!is_response_content_type("application/graphql"));
}

#[test]
fn schema_index_from_blank_sdl_holds_only_the_introspection_types() {
    let index = SchemaIndex::from_sdl("   ").expect("introspection reads");
    assert!(index.is_enum("__TypeKind"));
    assert!(index.field_return_type("Query", "product").is_none());
}

#[test]
fn schema_index_from_unreadable_sdl_names_the_schema() {
    let Err(err) = SchemaIndex::from_sdl("type Query {") else { panic!("the SDL is not readable") };
    assert_eq!(err.messages[0], "failed to parse GraphQL schema SDL");
    assert_eq!(err.messages.len(), 2);
}

#[test]
fn index_is_unchanged_after_a_type_conflict() {
    let mut index = SchemaIndex::from_sdl("type Foo { a: Int }").expect("schema reads");
    let conflicting = SchemaDocument {
        definitions: vec![SchemaDefinition::Type(TypeDef {
            kind: TypeKind::Enum,
            name: "Foo".into(),
            fields: Vec::new(),
            implements: Vec::new(),
            members: vec!["X".into()],
        })],
    };
    let err = index.register_document(&conflicting).unwrap_err();
    assert_eq!(err.message(), "type `Foo` redeclared as enum but previously defined as object");
    assert!(index.field_return_type("Foo", "a").is_some());
    assert!(!index.is_enum("Foo"));
}

#[test]
fn validates_a_query_text_and_names_an_unreadable_one() {
    let index = schema_index_for(PRODUCT_SDL).expect("schema reads");
    assert!(validate_query_document(&index, PRODUCT_QUERY, None).is_ok());
    let err = validate_query_document(&index, "query {", None).unwrap_err();
    assert_eq!(err.messages[0], "failed to parse GraphQL query document");
}

#[test]
fn parse_and_inline_reports_an_unreadable_text_under_its_context() {
    let Err(err) = parse_and_inline("query Q { product {", Some("Q")) else { panic!("the query is not readable") };
    assert_eq!(err.messages[0], "failed to parse GraphQL query document");
    let Ok(op) = parse_and_inline("query Q { product { ...F } }\nfragment F on Product { id }", Some("Q")) else { panic!("the query reads") };
    assert_eq!(op.name.as_deref(), Some("Q"));
}

#[test]
fn request_diff_reads_both_documents() {
    let expected = CanonicalGraphqlRequest::from_interaction_config(&product_request(None)).expect("expected reads");
    let same = CanonicalGraphqlRequest::from_interaction_config(&product_request(None)).expect("actual reads");
    assert!(expected.diff(&same).is_empty());

    let fewer = GraphqlPluginRequest {
        query_document: "query GetProduct { product(id: \"10\") { id } }".into(),
        ..product_request(None)
    };
    let actual = CanonicalGraphqlRequest::from_interaction_config(&fewer).expect("actual reads");
    let diffs = expected.diff(&actual);
    assert_eq!(diffs.len(), 2, "{:?}", diffs.iter().map(|d| &d.path).collect::<Vec<_>>());
    assert!(diffs.iter().all(|d| d.description.contains("not selected by the actual query")));
}

#[test]
fn canonical_query_prints_the_inlined_operation() {
    let out = canonicalize_query("query Q { a { ...F } }\nfragment F on T { id }", Some("Q")).unwrap();
    assert_eq!(out, "query Q {\n  a {\n    id\n  }\n}");
}

use pact_graphql_plugin::server::verify_request;

#[test]
fn verification_succeeds_exactly_when_nothing_differs() {
    let config = sample_plugin_config();
    let verify = |request: &GraphqlRequest| {
        let expected = expected_request(&config);
        let actual = CanonicalGraphqlRequest::from_http_request(
            &body_of(request),
            "application/json",
            config.transport,
            schema_indicator(&config).as_deref(),
            None,
            config.query_matching,
        );
        verify_request(&expected, actual).ok().expect("verification runs")
    };
    let same = GraphqlRequest::json(
        &config.request.query_document,
        config.request.operation_name.clone(),
        config.request.variables_json.clone(),
    );
    let v = verify(&same);
    assert!(v.success);
    assert!(v.mismatches.is_empty());

    let fewer = GraphqlRequest::json(
        "query Products { products { id } }",
        config.request.operation_name.clone(),
        config.request.variables_json.clone(),
    );
    let v = verify(&fewer);
    assert!(!v.success);
    assert_eq!(v.mismatches.len(), 1);
    assert_eq!(v.mismatches[0].path, "/payload/query_document/products/name");
}

#[test]
fn subset_matching_drops_only_the_fields_the_actual_query_leaves_out() {
    let semantic = CanonicalGraphqlRequest::from_interaction_config(&product_request(None)).expect("reads");
    let subset = CanonicalGraphqlRequest::from_interaction_config(&GraphqlPluginRequest {
        query_matching: QueryMatching::Subset,
        ..product_request(None)
    })
    .expect("reads");
    let actual = CanonicalGraphqlRequest::from_interaction_config(&GraphqlPluginRequest {
        query_document: "query GetProduct { product(id: \"10\") { id } }".into(),
        variables_json: Some("{\"x\":1}".into()),
        ..product_request(None)
    })
    .expect("reads");
    let all = semantic.diff(&actual);
    let kept = subset.diff(&actual);
    let expected: Vec<String> = all
        .iter()
        .filter(|m| !m.description.contains("is not selected by the actual query"))
        .map(|m| m.path.clone())
        .collect();
    assert_eq!(all.len(), 3);
    assert_eq!(kept.iter().map(|m| m.path.clone()).collect::<Vec<_>>(), expected);
    assert_eq!(expected, vec!["/payload/variables_json".to_string()]);
}

// ---------------------------------------------------------------------------------------------
// Matching rules derived for a response, and the response part of an interaction.

use pact_graphql_plugin::rules::{derive_matching_rules, DerivedRule};
use pact_graphql_plugin::server::configure_response;

fn derive_rules(query: &str, operation_name: Option<&str>, response: &str) -> Vec<(String, DerivedRule)> {
    let index = schema_index_for(RESPONSE_SDL).expect("schema reads");
    match derive_matching_rules(&index, query, operation_name, &json(response)) {
        Ok(rules) => rules,
        Err(e) => panic!("rules derive: {}", e.joined(": ")),
    }
}

fn rule_at<'a>(rules: &'a [(String, DerivedRule)], path: &str) -> Option<&'a DerivedRule> {
    rules.iter().rev().find(|(p, _)| p == path).map(|(_, r)| r)
}

#[test]
fn derives_a_type_matcher_for_scalars() {
    let rules = derive_rules(
        RESPONSE_QUERY,
        Some("GetProduct"),
        r#"{"data": {"product": {"id": "10", "name": "Backpack", "status": "ACTIVE"}}}"#,
    );
    assert!(matches!(rule_at(&rules, "$.data.product.id"), Some(DerivedRule::Type)));
    assert!(matches!(rule_at(&rules, "$.data.product.name"), Some(DerivedRule::Type)));
}

#[test]
fn derives_an_enum_regex() {
    let rules = derive_rules(
        RESPONSE_QUERY,
        Some("GetProduct"),
        r#"{"data": {"product": {"id": "10", "name": "Backpack", "status": "ACTIVE"}}}"#,
    );
    match rule_at(&rules, "$.data.product.status") {
        Some(DerivedRule::Regex(p)) => assert_eq!(p, "^(ACTIVE|ARCHIVED)$"),
        other => panic!("expected a regex rule, got {other:?}"),
    }
}

#[test]
fn uses_a_wildcard_index_for_lists() {
    let rules = derive_rules(
        "query Q { products { id category { name } } }",
        Some("Q"),
        r#"{"data": {"products": [{"id": "1", "category": {"name": "Bags"}}, {"id": "2"}]}}"#,
    );
    assert!(matches!(rule_at(&rules, "$.data.products[*].id"), Some(DerivedRule::Type)));
    assert!(matches!(rule_at(&rules, "$.data.products[*].category.name"), Some(DerivedRule::Type)));
    assert!(!rules.iter().any(|(p, _)| p.contains("[0]") || p.contains("[1]")), "{rules:?}");
}

#[test]
fn does_not_emit_rules_for_composites_or_nulls() {
    let rules = derive_rules(
        RESPONSE_QUERY,
        Some("GetProduct"),
        r#"{"data": {"product": {"id": "10", "name": null, "status": "ACTIVE"}}}"#,
    );
    assert!(rule_at(&rules, "$.data.product").is_none(), "{rules:?}");
    assert!(rule_at(&rules, "$.data.product.name").is_none(), "{rules:?}");
    assert_eq!(rules.len(), 2);
}

#[test]
fn configure_returns_a_response_part_with_derived_rules() {
    let body = r#"{"data":{"product":{"id":"10","name":"Backpack","status":"ACTIVE"}}}"#;
    let config = build(&test_builder(), product_request(Some(body))).expect("configure succeeds");
    let part = configure_response(&expected_request(&config), config.response_body_json.as_deref())
        .ok()
        .expect("the response part is configured");
    assert_eq!(part.body, body);
    assert!(matches!(rule_at(&part.rules, "$.data.product.status"), Some(DerivedRule::Regex(_))));
    assert!(matches!(rule_at(&part.rules, "$.data.product.name"), Some(DerivedRule::Type)));
}

#[test]
fn configure_rejects_a_response_that_violates_the_schema() {
    let body = r#"{"data":{"product":{"id":"10","name":"Backpack","status":"ACTIVE","internalSku":"X"}}}"#;
    let config = build(&test_builder(), product_request(Some(body))).expect("the request configures");
    let Err(err) = configure_response(&expected_request(&config), config.response_body_json.as_deref()) else {
        panic!("configure fails");
    };
    let message = err.message();
    assert!(message.contains("internalSku") && message.contains("Product"), "{message}");
}

#[test]
fn configure_rejects_a_response_call_without_response_body_json() {
    let config = build(&test_builder(), product_request(None)).expect("the request configures");
    let Err(err) = configure_response(&expected_request(&config), None) else { panic!("configure fails") };
    assert!(err.message().contains("response_body_json"), "{}", err.message());
}

// ---------------------------------------------------------------------------------------------
// Texts graphql_parser cannot be handed: a block string indented with whitespace outside ASCII.

const HAZARD_QUERY: &str = "query Q { product(id: \"\"\"\n\u{a0}b\n c\"\"\") { id } }";

#[test]
fn a_block_string_indented_with_non_ascii_whitespace_is_refused() {
    let index = schema_index_for(PRODUCT_SDL).expect("schema reads");
    let err = validate_query_document(&index, HAZARD_QUERY, None).unwrap_err();
    assert_eq!(err.messages[0], "failed to parse GraphQL query document");
    assert!(err.messages[1].contains("block string"), "{}", err.messages[1]);
    let Err(err) = parse_and_inline(HAZARD_QUERY, Some("Q")) else { panic!("the query is refused") };
    assert!(err.joined(": ").contains("outside ASCII"));
}

#[test]
fn a_schema_description_indented_with_non_ascii_whitespace_is_refused() {
    let sdl = "\"\"\"\n\u{a0}Products\n sold here\n\"\"\"\ntype Query { a: Int }";
    let Err(err) = SchemaIndex::from_sdl(sdl) else { panic!("the schema is refused") };
    assert_eq!(err.messages[0], "failed to parse GraphQL schema SDL");
    assert!(err.messages[1].contains("block string"), "{}", err.messages[1]);
}

#[test]
fn non_ascii_whitespace_outside_block_string_indentation_is_read() {
    let after = canonical_document("query Q { a(s: \"\"\"x\"\"\") } # \u{a0}", Some("Q")).unwrap();
    assert_eq!(after, "query Q {\n  a(s: \"x\")\n}");
    let first_line = canonical_document("query Q { a(s: \"\"\"\u{a0}b\n c\"\"\") }", Some("Q"));
    assert!(first_line.is_ok());
    let inner = canonical_document("query Q { a(s: \"\"\"\n b\u{a0}c\n d\"\"\") }", Some("Q"));
    assert!(inner.is_ok());

    let out = canonical_document("query Q { a(x: \"\u{a0}\") }", Some("Q")).unwrap();
    assert!(out.contains("\u{a0}"));
    let index = schema_index_for("\"\"\"\n Products\n  sold here\n\"\"\"\ntype Query { a: Int }").expect("schema reads");
    assert!(index.field_return_type("Query", "a").is_some());
}

#[test]
fn canonical_document_of_texts_with_the_same_operation_is_the_same() {
    let spelt = canonical_document("query Q { a { ...F } }\nfragment F on T { id }", Some("Q")).unwrap();
    let commented = canonical_document("# the query\nquery Q {\n  a { id } # only the id\n}", Some("Q")).unwrap();
    assert_eq!(spelt, commented);
}
