//! Canonicalisation, validation and comparison of GraphQL requests for Pact interactions.
pub mod ast;
pub mod text;
pub mod error;
pub mod assoc;
pub mod schema_index;
pub mod query_ast;
pub mod order;
pub mod validation;
pub mod json;
pub mod json_text;
pub mod variables;
pub mod form;
pub mod encoder;
pub mod payload;
pub mod schema;
pub mod interaction;
pub mod server;
pub mod canonical;
pub mod codec;
pub mod response;
pub mod rules;
pub mod startup;
pub mod graphql_text;

pub use payload::{GraphqlInlineSchema, GraphqlRequestPayload};
pub use interaction::{GraphqlInteractionBuilder, GraphqlPluginConfig, GraphqlPluginRequest};
pub use schema::{SchemaRef, SchemaRegistry};
pub use server::GraphqlPlugin;
