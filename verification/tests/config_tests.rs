use pact_graphql_plugin::canonical::{canonicalize_sdl, dedent_and_trim};
use pact_graphql_plugin::encoder::Transport;
use pact_graphql_plugin::interaction::GraphqlPluginConfigWire;
use pact_graphql_plugin::payload::{
    canonicalize_variables, detect_transport, inline_schema_of, resolve_schema, sdl_from_base64, CanonicalGraphqlRequest,
};
use pact_graphql_plugin::query_ast::QueryMatching;
use pact_graphql_plugin::schema::is_schema_hash;
use pact_graphql_plugin::server::{config_from_pact, content_type_or_default, encode_body, schema_indicator};
use pact_graphql_plugin::{GraphqlInlineSchema, GraphqlPluginConfig, GraphqlRequestPayload, SchemaRef, SchemaRegistry};

fn base64_encode_text(text: &str) -> String {
    base64::Engine::encode(&base64::engine::general_purpose::STANDARD, text.as_bytes())
}

fn empty_wire() -> GraphqlPluginConfigWire {
    GraphqlPluginConfigWire {
        query_document: None,
        operation_name: None,
        variables_json: None,
        transport: None,
        schema_ref: None,
        schema_inline_base64: None,
        inline_schema: None,
        request: None,
        query_matching: None,
        response_body_json: None,
    }
}

fn sample_config(inline: Option<&str>, legacy: Option<&str>, schema_ref: Option<&str>) -> GraphqlPluginConfig {
    GraphqlPluginConfig {
        query_document: "query".into(),
        operation_name: Some("op".into()),
        variables_json: Some("{}".into()),
        transport: Transport::JsonBody,
        schema_ref: schema_ref.map(|h| SchemaRef { hash: h.into(), encoding: "utf-8".into() }),
        schema_inline_base64: legacy.map(str::to_string),
        inline_schema: inline.map(|b| GraphqlInlineSchema { base64_sdl: Some(b.into()) }),
        request: GraphqlRequestPayload {
            query_document: "query".into(),
            operation_name: Some("op".into()),
            variables_json: Some("{}".into()),
            transport: Transport::JsonBody,
        },
        query_matching: QueryMatching::default(),
        response_body_json: None,
    }
}

// ---------------------------------------------------------------------------------------------
// Variables canonicalisation

#[test]
fn canonicalize_variables_is_insensitive_to_key_order() {
    let a = canonicalize_variables(Some(r#"{"a":1,"b":2}"#.to_string())).unwrap().unwrap();
    let b = canonicalize_variables(Some(r#"{"b":2,"a":1}"#.to_string())).unwrap().unwrap();

    assert_eq!(a, b);
}

#[test]
fn canonicalize_variables_sorts_nested_object_keys() {
    let a = canonicalize_variables(Some(r#"{"outer":{"x":1,"y":[{"p":1,"q":2}]}}"#.to_string())).unwrap().unwrap();
    let b = canonicalize_variables(Some(r#"{"outer":{"y":[{"q":2,"p":1}],"x":1}}"#.to_string())).unwrap().unwrap();

    assert_eq!(a, b);
}

#[test]
fn canonicalize_variables_preserves_array_order() {
    let canonical = canonicalize_variables(Some(r#"{"ids":[3,1,2]}"#.to_string())).unwrap().unwrap();

    assert_eq!(canonical, r#"{"ids":[3,1,2]}"#);
}

#[test]
fn canonicalize_variables_writes_sorted_compact_text() {
    let canonical = canonicalize_variables(Some(r#"{ "b": 2, "id": "10", "a": 1 }"#.to_string())).unwrap().unwrap();
    assert_eq!(canonical, r#"{"a":1,"b":2,"id":"10"}"#);
    assert_eq!(canonicalize_variables(None).unwrap(), None);
}

#[test]
fn canonicalize_variables_refuses_text_that_is_not_json() {
    let err = canonicalize_variables(Some("{nope".to_string())).unwrap_err();
    assert_eq!(err.message(), "failed to parse GraphQL variables_json as JSON");
    assert_eq!(err.messages.len(), 2);
}

// ---------------------------------------------------------------------------------------------
// The stored (wire) form of a configuration

#[test]
fn config_roundtrip() {
    let config = sample_config(Some("dGVzdA=="), Some("dGVzdA=="), None);
    let decoded = GraphqlPluginConfig::from_wire(config.to_wire()).unwrap();
    assert_eq!(decoded.query_document, "query");
    assert_eq!(decoded.transport, Transport::JsonBody);
    assert_eq!(decoded.request.query_document, config.request.query_document);
    assert_eq!(decoded.request.operation_name, config.request.operation_name);
    assert_eq!(decoded.request.variables_json, config.request.variables_json);
    assert_eq!(decoded.request.transport, config.request.transport);
    assert_eq!(
        decoded.inline_schema.and_then(|s| s.base64_sdl),
        config.inline_schema.and_then(|s| s.base64_sdl)
    );
    assert_eq!(decoded.schema_inline_base64, config.schema_inline_base64);
}

#[test]
fn deserializes_request_from_flat_fields() {
    let wire = GraphqlPluginConfigWire {
        query_document: Some("query".into()),
        operation_name: Some("MyOp".into()),
        variables_json: Some("{\"a\":1}".into()),
        transport: Some(Transport::JsonBody),
        ..empty_wire()
    };
    let config = GraphqlPluginConfig::from_wire(wire).unwrap();
    assert_eq!(config.request.query_document, "query");
    assert_eq!(config.request.operation_name.as_deref(), Some("MyOp"));
    assert_eq!(config.request.variables_json.as_deref(), Some("{\"a\":1}"));
    assert_eq!(config.request.transport, Transport::JsonBody);
}

#[test]
fn synthesizes_inline_schema_from_legacy_field() {
    let base64 = "dGVzdA==";
    let wire = GraphqlPluginConfigWire {
        query_document: Some("query".into()),
        transport: Some(Transport::JsonBody),
        schema_inline_base64: Some(base64.into()),
        ..empty_wire()
    };
    let config = GraphqlPluginConfig::from_wire(wire).unwrap();
    let synthesized = config.inline_schema.and_then(|schema| schema.base64_sdl).expect("inline schema synthesized");
    assert_eq!(synthesized, base64);
}

#[test]
fn deserializes_from_nested_payload_only() {
    let wire = GraphqlPluginConfigWire {
        request: Some(GraphqlRequestPayload {
            query_document: "query Products".into(),
            operation_name: Some("Op".into()),
            variables_json: Some("{\"a\":1}".into()),
            transport: Transport::QueryString,
        }),
        inline_schema: Some(GraphqlInlineSchema { base64_sdl: Some("dGVzdA==".into()) }),
        ..empty_wire()
    };
    let config = GraphqlPluginConfig::from_wire(wire).unwrap();
    assert_eq!(config.query_document, "query Products");
    assert_eq!(config.operation_name.as_deref(), Some("Op"));
    assert_eq!(config.variables_json.as_deref(), Some("{\"a\":1}"));
    assert_eq!(config.transport, Transport::QueryString);
    assert_eq!(config.inline_schema.as_ref().and_then(|schema| schema.base64_sdl.as_deref()), Some("dGVzdA=="));
    assert_eq!(config.schema_inline_base64.as_deref(), Some("dGVzdA=="));
    assert_eq!(config.request.transport, Transport::QueryString);
}

#[test]
fn wire_config_still_reads_the_legacy_schema_field() {
    let wire = GraphqlPluginConfigWire {
        query_document: Some("query Q { hello }".into()),
        operation_name: Some("Q".into()),
        transport: Some(Transport::JsonBody),
        schema_inline_base64: Some(base64_encode_text("type Query { hello: String }")),
        ..empty_wire()
    };
    let config = GraphqlPluginConfig::from_wire(wire).expect("legacy config should deserialize");
    assert!(config.inline_schema.is_some(), "the legacy field should still populate the inline schema");
}

#[test]
fn wire_form_drops_the_legacy_copy_when_the_inline_schema_is_present() {
    let wire = sample_config(Some("dGVzdA=="), Some("dGVzdA=="), None).to_wire();
    assert_eq!(wire.inline_schema.and_then(|s| s.base64_sdl).as_deref(), Some("dGVzdA=="));
    assert!(wire.schema_inline_base64.is_none());

    let legacy_only = sample_config(None, Some("dGVzdA=="), None).to_wire();
    assert_eq!(legacy_only.schema_inline_base64.as_deref(), Some("dGVzdA=="));
}

#[test]
fn wire_form_without_a_query_document_is_refused() {
    let wire = GraphqlPluginConfigWire { query_document: Some("   ".into()), ..empty_wire() };
    let err = GraphqlPluginConfig::from_wire(wire).err().expect("blank query refused");
    assert_eq!(err.message(), "graphql config requires query_document");
}

// ---------------------------------------------------------------------------------------------
// Schema registry, indicators and inline schemas

#[test]
fn stores_and_retrieves_schema() {
    let registry = SchemaRegistry::new("/tmp/schemas");
    let stored = registry.store("type Query { ping: String }").unwrap();
    let reference = &stored.schema_ref;

    assert_eq!(reference.hash.len(), 64);
    assert_eq!(reference.encoding, "utf-8");

    let path = registry.schema_path(&reference.hash).unwrap();
    assert_eq!(path, stored.path);
    assert!(stored.contents.contains("type Query"));
}

#[test]
fn stored_schema_is_trimmed_with_one_final_newline_under_its_hash() {
    let registry = SchemaRegistry::new("/tmp/schemas/");
    let stored = registry.store("\n  type Query { ping: String }  \n\n").unwrap();
    assert_eq!(stored.contents, "type Query { ping: String }\n");
    assert_eq!(stored.schema_ref.hash, "201a4804c0be6ba10d663323f415249b2ff8b9b71fd7a2851804863825c68f0f");
    assert_eq!(stored.path, format!("/tmp/schemas/{}.graphql", stored.schema_ref.hash));
    assert!(stored.schema_ref.hash.chars().all(|c| c.is_ascii_hexdigit() && !c.is_ascii_uppercase()));
    let again = registry.store("type Query { ping: String }").unwrap();
    assert_eq!(again.schema_ref.hash, stored.schema_ref.hash);
    let other = registry.store("type Query { pong: String }").unwrap();
    assert_ne!(other.schema_ref.hash, stored.schema_ref.hash);
}

#[test]
fn blank_schema_is_not_stored_and_bad_hashes_are_refused() {
    let registry = SchemaRegistry::new("root");
    assert_eq!(registry.store("  \n ").err().expect("blank").message(), "schema SDL must not be empty");
    assert_eq!(registry.schema_path("abc").err().expect("short").message(), "invalid schema hash: abc");
    assert_eq!(registry.schema_path(&"a".repeat(64)).unwrap(), format!("root/{}.graphql", "a".repeat(64)));
}

#[test]
fn recognises_schema_hashes() {
    assert!(is_schema_hash(&"0123456789abcdefABCDEF".repeat(3)[..64]));
    assert!(!is_schema_hash(&"g".repeat(64)));
    assert!(!is_schema_hash(&"a".repeat(63)));
}

#[test]
fn schema_indicator_prefers_inline_then_legacy_then_reference() {
    let hash = "b".repeat(64);
    assert_eq!(schema_indicator(&sample_config(Some("SU5MSU5F"), Some("TEVHQUNZ"), Some(&hash))).as_deref(), Some("SU5MSU5F"));
    assert_eq!(schema_indicator(&sample_config(Some("  "), Some("TEVHQUNZ"), Some(&hash))).as_deref(), Some("TEVHQUNZ"));
    assert_eq!(schema_indicator(&sample_config(None, Some(" "), Some(&hash))).as_deref(), Some(hash.as_str()));
    assert_eq!(schema_indicator(&sample_config(None, None, None)), None);
}

#[test]
fn resolves_schema_indicators() {
    let sdl = "type Query { hello: String }";
    let encoded = base64_encode_text(sdl);
    assert_eq!(resolve_schema(Some(&encoded), None).unwrap().as_deref(), Some("type Query { hello: String }\n"));
    assert_eq!(resolve_schema(Some("   "), None).unwrap(), None);
    assert_eq!(resolve_schema(None, None).unwrap(), None);
    let hash = "c".repeat(64);
    let from_registry = resolve_schema(Some(&hash), Some(Ok("  type Query { a: Int }\n".to_string()))).unwrap();
    assert_eq!(from_registry.as_deref(), Some("type Query { a: Int }\n"));
    let err = resolve_schema(Some("%%%"), None).unwrap_err();
    assert_eq!(err.message(), "failed to decode inline schema base64");
}

#[test]
fn inline_schema_round_trips_through_base64() {
    let inline = inline_schema_of(Some("type Query { a: Int }\n"));
    assert_eq!(inline.as_ref().and_then(|s| s.base64_sdl.as_deref()), Some("dHlwZSBRdWVyeSB7IGE6IEludCB9Cg=="));
    let canonical = CanonicalGraphqlRequest {
        payload: GraphqlRequestPayload {
            query_document: "{ a }".into(),
            operation_name: None,
            variables_json: None,
            transport: Transport::JsonBody,
        },
        inline_schema: inline,
        query_matching: QueryMatching::Semantic,
    };
    assert_eq!(canonical.inline_schema_sdl().unwrap().as_deref(), Some("type Query { a: Int }\n"));
    assert_eq!(sdl_from_base64("ICAK").unwrap(), None);
    let not_utf8 = sdl_from_base64("//79").unwrap_err();
    assert_eq!(not_utf8.message(), "inline schema base64 must decode to UTF-8 text");
}

// ---------------------------------------------------------------------------------------------
// Text canonicalisation

#[test]
fn dedents_and_trims_text() {
    assert_eq!(dedent_and_trim("\r\n    query {\r\n      a\r\n    }\r\n   "), "query {\n  a\n}");
    assert_eq!(dedent_and_trim("  a\n\n    b"), "a\n\n  b");
    assert_eq!(dedent_and_trim("   "), "");
}

#[test]
fn canonicalizes_sdl_with_one_final_newline() {
    assert_eq!(
        canonicalize_sdl("\n        type Query {\n            ping: String\n        }\n    "),
        "type Query {\n    ping: String\n}\n"
    );
    assert_eq!(canonicalize_sdl(" \n \t"), "");
}

// ---------------------------------------------------------------------------------------------
// Transport, content types, bodies and pact files

#[test]
fn detects_transport_from_the_content_type() {
    assert_eq!(detect_transport("Application/JSON; charset=utf-8", Transport::QueryString), Transport::JsonBody);
    assert_eq!(detect_transport("application/graphql", Transport::QueryString), Transport::JsonBody);
    assert_eq!(detect_transport("application/x-www-form-urlencoded", Transport::JsonBody), Transport::QueryString);
    assert_eq!(detect_transport("text/plain", Transport::QueryString), Transport::QueryString);
}

#[test]
fn blank_content_type_falls_back_to_graphql() {
    assert_eq!(content_type_or_default("  ", &Transport::QueryString), "application/graphql");
    assert_eq!(content_type_or_default("application/json", &Transport::QueryString), "application/json");
}

#[test]
fn encodes_the_body_a_configuration_describes() {
    let mut config = sample_config(None, None, None);
    let body = encode_body(&config).unwrap();
    assert_eq!(body.content_type, "application/graphql");
    assert_eq!(body.content.as_deref(), Some(r#"{"query":"query","operationName":"op","variables":{}}"#));

    config.transport = Transport::QueryString;
    let body = encode_body(&config).unwrap();
    assert_eq!(body.content.as_deref(), Some("query=query&operationName=op&variables=%7B%7D"));
}

#[test]
fn finds_the_interaction_configuration_in_a_pact() {
    let pact = r#"{"interactions":[{"key":"other"},{"interactionId":"k1","pluginConfiguration":{"graphql":{"interactionConfiguration":{"query_document":"q"}}}}]}"#;
    let found = config_from_pact(pact, "k1").unwrap();
    match found {
        pact_graphql_plugin::json::Json::Object(entries) => {
            assert_eq!(entries.len(), 1);
            assert_eq!(entries[0].0, "query_document");
            assert!(matches!(&entries[0].1, pact_graphql_plugin::json::Json::Str(q) if q == "q"));
        },
        _ => panic!("the configuration is an object"),
    }

    assert_eq!(config_from_pact(pact, "nope").unwrap_err().message(), "interaction with key 'nope' not found in pact");
    assert_eq!(
        config_from_pact(r#"{"interactions":[{"key":"k"}]}"#, "k").unwrap_err().message(),
        "plugin configuration for 'graphql' not found in pact interaction"
    );
    assert_eq!(config_from_pact("{}", "k").unwrap_err().message(), "pact JSON did not contain an interactions array");
    assert_eq!(config_from_pact("not json", "k").unwrap_err().message(), "failed to parse pact JSON");
}

// ---------------------------------------------------------------------------------------------
// Start-up decisions

use pact_graphql_plugin::startup::{check_server_key, log_dir, log_filter_directive, schema_root, KeyCheck};

#[test]
fn log_filter_prefers_rust_log_then_log_level() {
    assert_eq!(log_filter_directive(Some("debug,h2=info"), Some("WARN")), "debug,h2=info");
    assert_eq!(log_filter_directive(Some("  "), Some("WARN")), "WARN");
    assert_eq!(log_filter_directive(Some("OFF"), None), "INFO");
    assert_eq!(log_filter_directive(None, Some("oFf")), "off");
    assert_eq!(log_filter_directive(None, Some(" ")), "off");
    assert_eq!(log_filter_directive(None, None), "INFO");
}

#[test]
fn log_directory_falls_back_from_plugin_dir_to_executable_to_home() {
    assert_eq!(log_dir(Some("/plugins/graphql"), Some(Some("/bin")), Some("/home/me")).as_deref(), Some("/plugins/graphql"));
    assert_eq!(log_dir(None, Some(Some("/opt/bin")), Some("/home/me")).as_deref(), Some("/opt/bin"));
    assert_eq!(log_dir(None, Some(None), Some("/home/me")), None);
    assert_eq!(log_dir(None, None, Some("/home/me")).as_deref(), Some("/home/me/.pact/plugins/graphql-0.1.0"));
    assert_eq!(log_dir(None, None, None), None);
}

#[test]
fn schema_root_defaults_under_the_working_directory() {
    assert_eq!(schema_root(Some("/var/schemas"), "/work"), "/var/schemas");
    assert_eq!(schema_root(None, "/work"), "/work/.pact-graphql-plugin/schemas");
}

#[test]
fn server_key_is_checked() {
    assert_eq!(check_server_key(Some("key-1"), "key-1"), KeyCheck::Accepted);
    assert_eq!(check_server_key(Some("key-2"), "key-1"), KeyCheck::Invalid);
    assert_eq!(check_server_key(None, "key-1"), KeyCheck::Missing);
}

// ---------------------------------------------------------------------------------------------
// Comparison outcomes that need no GraphQL reading

use pact_graphql_plugin::error::Error;
use pact_graphql_plugin::server::{compare_requests, expected_request, validation_mismatch_from_error};

#[test]
fn a_failure_other_than_validation_is_the_comparisons_error() {
    let config = sample_config(None, None, None);
    let expected = expected_request(&config);
    let failure = Error::msg("GraphQL JSON body missing required `query` field".to_string());
    let err = compare_requests(&expected, Err(failure)).unwrap_err();
    assert_eq!(err.message(), "GraphQL JSON body missing required `query` field");
}

#[test]
fn a_validation_failure_is_one_mismatch_with_the_whole_chain() {
    let config = sample_config(None, None, None);
    let expected = expected_request(&config);
    let failure = Error::msg("field `x` does not exist on type `Query`".to_string())
        .context("GraphQL query validation failed".to_string());
    let mismatches = compare_requests(&expected, Err(failure)).unwrap();
    assert_eq!(mismatches.len(), 1);
    assert_eq!(mismatches[0].path, "/payload/query_document");
    assert_eq!(mismatches[0].expected, "query");
    assert_eq!(mismatches[0].actual, "");
    assert_eq!(mismatches[0].diff, "GraphQL query validation failed\nfield `x` does not exist on type `Query`");

    let direct = validation_mismatch_from_error(
        &Error::msg("boom".to_string()).context("GraphQL query validation failed".to_string()),
        "q",
    );
    assert_eq!(direct.description, "GraphQL query validation failed");
}
