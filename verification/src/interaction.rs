//! The configuration of a GraphQL interaction, its stored (wire) form, and its construction
//! from a canonical request.
use vstd::prelude::*;

use std::sync::Arc;

use crate::ast::{clone_opt_string, opt_str_view};
use crate::encoder::Transport;
use crate::error::{Error, Fallible};
use crate::payload::{
    assemble_spec, fallible_text, inline_base64, inline_of_sdl, inline_sdl_spec, nonempty_sdl, request_sdl, CanonicalGraphqlRequest, GraphqlInlineSchema,
    GraphqlRequestPayload, SpecPayload,
};
use crate::query_ast::QueryMatching;
use crate::schema::{
    schema_file_spec, sha256_hex_of, stored_text_spec, SchemaRef, SchemaRegistry, SpecSchemaRef, StoredSchema,
};
use crate::text::{blank, is_blank};

verus! {

/// The configuration of one interaction.
#[derive(Debug)]
pub struct GraphqlPluginConfig {
    pub query_document: String,
    pub operation_name: Option<String>,
    pub variables_json: Option<String>,
    pub transport: Transport,
    pub schema_ref: Option<SchemaRef>,
    pub schema_inline_base64: Option<String>,
    pub inline_schema: Option<GraphqlInlineSchema>,
    pub request: GraphqlRequestPayload,
    pub query_matching: QueryMatching,
    pub response_body_json: Option<String>,
}

/// Model of an interaction configuration; an inline schema is modelled by its base64 SDL.
pub struct SpecConfig {
    pub query_document: Seq<char>,
    pub operation_name: Option<Seq<char>>,
    pub variables_json: Option<Seq<char>>,
    pub transport: Transport,
    pub schema_ref: Option<SpecSchemaRef>,
    pub schema_inline_base64: Option<Seq<char>>,
    pub inline_schema: Option<Option<Seq<char>>>,
    pub request: SpecPayload,
    pub query_matching: QueryMatching,
    pub response_body_json: Option<Seq<char>>,
}

pub open spec fn schema_ref_view(r: Option<SchemaRef>) -> Option<SpecSchemaRef> {
    match r {
        Some(s) => Some(s@),
        None => None,
    }
}

pub open spec fn inline_view(s: Option<GraphqlInlineSchema>) -> Option<Option<Seq<char>>> {
    match s {
        Some(x) => Some(opt_str_view(x.base64_sdl)),
        None => None,
    }
}

impl View for GraphqlPluginConfig {
    type V = SpecConfig;

    open spec fn view(&self) -> SpecConfig {
        SpecConfig {
            query_document: self.query_document@,
            operation_name: opt_str_view(self.operation_name),
            variables_json: opt_str_view(self.variables_json),
            transport: self.transport,
            schema_ref: schema_ref_view(self.schema_ref),
            schema_inline_base64: opt_str_view(self.schema_inline_base64),
            inline_schema: inline_view(self.inline_schema),
            request: self.request@,
            query_matching: self.query_matching,
            response_body_json: opt_str_view(self.response_body_json),
        }
    }
}

/// The stored form of an interaction configuration: every field optional, absent ones left
/// out.
pub struct GraphqlPluginConfigWire {
    pub query_document: Option<String>,
    pub operation_name: Option<String>,
    pub variables_json: Option<String>,
    pub transport: Option<Transport>,
    pub schema_ref: Option<SchemaRef>,
    pub schema_inline_base64: Option<String>,
    pub inline_schema: Option<GraphqlInlineSchema>,
    pub request: Option<GraphqlRequestPayload>,
    pub query_matching: Option<QueryMatching>,
    pub response_body_json: Option<String>,
}

pub struct SpecWire {
    pub query_document: Option<Seq<char>>,
    pub operation_name: Option<Seq<char>>,
    pub variables_json: Option<Seq<char>>,
    pub transport: Option<Transport>,
    pub schema_ref: Option<SpecSchemaRef>,
    pub schema_inline_base64: Option<Seq<char>>,
    pub inline_schema: Option<Option<Seq<char>>>,
    pub request: Option<SpecPayload>,
    pub query_matching: Option<QueryMatching>,
    pub response_body_json: Option<Seq<char>>,
}

impl View for GraphqlPluginConfigWire {
    type V = SpecWire;

    open spec fn view(&self) -> SpecWire {
        SpecWire {
            query_document: opt_str_view(self.query_document),
            operation_name: opt_str_view(self.operation_name),
            variables_json: opt_str_view(self.variables_json),
            transport: self.transport,
            schema_ref: schema_ref_view(self.schema_ref),
            schema_inline_base64: opt_str_view(self.schema_inline_base64),
            inline_schema: inline_view(self.inline_schema),
            request: match self.request {
                Some(r) => Some(r@),
                None => None,
            },
            query_matching: self.query_matching,
            response_body_json: opt_str_view(self.response_body_json),
        }
    }
}

/// The stored form of a configuration. The inline schema is the one home of the SDL: the
/// legacy `schema_inline_base64` is written only when there is no inline schema.
pub open spec fn to_wire_spec(c: SpecConfig) -> SpecWire {
    SpecWire {
        query_document: Some(c.query_document),
        operation_name: c.operation_name,
        variables_json: c.variables_json,
        transport: Some(c.transport),
        schema_ref: c.schema_ref,
        schema_inline_base64: if c.inline_schema is Some { None } else { c.schema_inline_base64 },
        inline_schema: c.inline_schema,
        request: Some(c.request),
        query_matching: Some(c.query_matching),
        response_body_json: c.response_body_json,
    }
}

pub open spec fn or_else<T>(a: Option<T>, b: Option<T>) -> Option<T> {
    match a {
        Some(x) => Some(x),
        None => b,
    }
}

/// The configuration a stored form reads as: a missing `request` is assembled from the flat
/// fields, missing flat fields are taken from `request`, the legacy SDL field and the inline
/// schema fill each other in. Fails when the query document is blank.
pub open spec fn from_wire_spec(w: SpecWire) -> Result<SpecConfig, Seq<char>> {
    let request = match w.request {
        Some(r) => r,
        None => SpecPayload {
            query_document: match w.query_document {
                Some(q) => q,
                None => Seq::empty(),
            },
            operation_name: w.operation_name,
            variables_json: w.variables_json,
            transport: match w.transport {
                Some(t) => t,
                None => Transport::JsonBody,
            },
        },
    };
    let query_document = match w.query_document {
        Some(q) => q,
        None => request.query_document,
    };
    if blank(query_document) {
        Err("graphql config requires query_document"@)
    } else {
        let legacy = match w.schema_inline_base64 {
            Some(s) => Some(s),
            None => match w.inline_schema {
                Some(b) => b,
                None => None,
            },
        };
        let inline_schema = match w.inline_schema {
            Some(b) => Some(b),
            None => match legacy {
                Some(s) => Some(Some(s)),
                None => None,
            },
        };
        Ok(SpecConfig {
            query_document,
            operation_name: or_else(w.operation_name, request.operation_name),
            variables_json: or_else(w.variables_json, request.variables_json),
            transport: match w.transport {
                Some(t) => t,
                None => request.transport,
            },
            schema_ref: w.schema_ref,
            schema_inline_base64: legacy,
            inline_schema,
            request,
            query_matching: match w.query_matching {
                Some(m) => m,
                None => QueryMatching::Semantic,
            },
            response_body_json: w.response_body_json,
        })
    }
}

fn clone_schema_ref(r: &Option<SchemaRef>) -> (c: Option<SchemaRef>)
    ensures
        schema_ref_view(c) == schema_ref_view(*r),
{
    match r {
        Some(s) => Some(s.clone_ref()),
        None => None,
    }
}

fn clone_inline(s: &Option<GraphqlInlineSchema>) -> (c: Option<GraphqlInlineSchema>)
    ensures
        inline_view(c) == inline_view(*s),
{
    match s {
        Some(x) => Some(x.clone_schema()),
        None => None,
    }
}

impl GraphqlPluginConfig {
    /// The stored form of this configuration (see `to_wire_spec`).
    pub fn to_wire(&self) -> (w: GraphqlPluginConfigWire)
        ensures
            w@ == to_wire_spec(self@),
    {
        let schema_inline_base64 = if self.inline_schema.is_some() {
            None
        } else {
            clone_opt_string(&self.schema_inline_base64)
        };
        GraphqlPluginConfigWire {
            query_document: Some(self.query_document.clone()),
            operation_name: clone_opt_string(&self.operation_name),
            variables_json: clone_opt_string(&self.variables_json),
            transport: Some(self.transport),
            schema_ref: clone_schema_ref(&self.schema_ref),
            schema_inline_base64,
            inline_schema: clone_inline(&self.inline_schema),
            request: Some(self.request.clone_payload()),
            query_matching: Some(self.query_matching),
            response_body_json: clone_opt_string(&self.response_body_json),
        }
    }

    /// The configuration a stored form reads as (see `from_wire_spec`).
    pub fn from_wire(wire: GraphqlPluginConfigWire) -> (r: Fallible<GraphqlPluginConfig>)
        ensures
            match from_wire_spec(wire@) {
                Ok(c) => r matches Ok(cfg) && cfg@ == c,
                Err(m) => r matches Err(e) && e@ == seq![m],
            },
    {
        let GraphqlPluginConfigWire {
            query_document,
            operation_name,
            variables_json,
            transport,
            schema_ref,
            schema_inline_base64,
            inline_schema,
            request,
            query_matching,
            response_body_json,
        } = wire;
        let request = match request {
            Some(r) => r,
            None => GraphqlRequestPayload {
                query_document: match &query_document {
                    Some(q) => q.clone(),
                    None => String::new(),
                },
                operation_name: clone_opt_string(&operation_name),
                variables_json: clone_opt_string(&variables_json),
                transport: match transport {
                    Some(t) => t,
                    None => Transport::JsonBody,
                },
            },
        };
        let query_document = match query_document {
            Some(q) => q,
            None => request.query_document.clone(),
        };
        if is_blank(query_document.as_str()) {
            return Err(Error::msg(String::from_str("graphql config requires query_document")));
        }
        let operation_name = match operation_name {
            Some(n) => Some(n),
            None => clone_opt_string(&request.operation_name),
        };
        let variables_json = match variables_json {
            Some(v) => Some(v),
            None => clone_opt_string(&request.variables_json),
        };
        let transport = match transport {
            Some(t) => t,
            None => request.transport,
        };
        let schema_inline_base64 = match schema_inline_base64 {
            Some(s) => Some(s),
            None => match &inline_schema {
                Some(schema) => clone_opt_string(&schema.base64_sdl),
                None => None,
            },
        };
        let inline_schema = match inline_schema {
            Some(schema) => Some(schema),
            None => match &schema_inline_base64 {
                Some(s) => Some(GraphqlInlineSchema { base64_sdl: Some(s.clone()) }),
                None => None,
            },
        };
        Ok(GraphqlPluginConfig {
            query_document,
            operation_name,
            variables_json,
            transport,
            schema_ref,
            schema_inline_base64,
            inline_schema,
            request,
            query_matching: match query_matching {
                Some(m) => m,
                None => QueryMatching::Semantic,
            },
            response_body_json,
        })
    }
}

/// What a consumer asks for when configuring an interaction.
pub struct GraphqlPluginRequest {
    pub query_document: String,
    pub operation_name: Option<String>,
    pub variables_json: Option<String>,
    pub transport: Transport,
    pub schema_sdl: Option<String>,
    pub query_matching: QueryMatching,
    pub response_body_json: Option<String>,
}

impl Default for GraphqlPluginRequest {
    fn default() -> (r: GraphqlPluginRequest)
        ensures
            r.query_document@ == Seq::<char>::empty(),
            r.operation_name is None,
            r.variables_json is None,
            r.transport == Transport::JsonBody,
            r.schema_sdl is None,
            r.query_matching == QueryMatching::Semantic,
            r.response_body_json is None,
    {
        GraphqlPluginRequest {
            query_document: String::new(),
            operation_name: None,
            variables_json: None,
            transport: Transport::JsonBody,
            schema_sdl: None,
            query_matching: QueryMatching::Semantic,
            response_body_json: None,
        }
    }
}

/// Builds interaction configurations; holds the schema registry.
pub struct GraphqlInteractionBuilder {
    pub registry: Arc<SchemaRegistry>,
}

/// The configuration of an interaction from its canonical request: the flat fields are the
/// canonical payload's, the legacy SDL field is the inline schema's SDL, and the matching
/// mode and response body are the consumer's.
pub open spec fn build_spec(
    query_matching: QueryMatching,
    response_body_json: Option<Seq<char>>,
    payload: SpecPayload,
    inline_schema: Option<Option<Seq<char>>>,
    schema_ref: Option<SpecSchemaRef>,
) -> SpecConfig {
    SpecConfig {
        query_document: payload.query_document,
        operation_name: payload.operation_name,
        variables_json: payload.variables_json,
        transport: payload.transport,
        schema_ref,
        schema_inline_base64: match inline_schema {
            Some(b) => b,
            None => None,
        },
        inline_schema,
        request: payload,
        query_matching,
        response_body_json,
    }
}

impl GraphqlInteractionBuilder {
    pub fn new(registry: Arc<SchemaRegistry>) -> (r: GraphqlInteractionBuilder)
        ensures
            r.registry == registry,
    {
        GraphqlInteractionBuilder { registry }
    }

    pub fn registry(&self) -> (r: Arc<SchemaRegistry>)
        ensures
            r == self.registry,
    {
        Arc::clone(&self.registry)
    }

    /// The configuration for `req` from its canonical request, with the reference of the
    /// stored schema, if any (see `build_spec`).
    fn config_of(&self, req: &GraphqlPluginRequest, canonical: CanonicalGraphqlRequest, schema_ref: Option<SchemaRef>) -> (r: GraphqlPluginConfig)
        ensures
            r@ == build_spec(
                req.query_matching,
                opt_str_view(req.response_body_json),
                canonical.payload@,
                inline_view(canonical.inline_schema),
                schema_ref_view(schema_ref),
            ),
    {
        let CanonicalGraphqlRequest { payload, inline_schema, query_matching: _ } = canonical;
        let schema_inline_base64 = match &inline_schema {
            Some(schema) => clone_opt_string(&schema.base64_sdl),
            None => None,
        };
        GraphqlPluginConfig {
            query_document: payload.query_document.clone(),
            operation_name: clone_opt_string(&payload.operation_name),
            variables_json: clone_opt_string(&payload.variables_json),
            transport: payload.transport,
            schema_ref,
            schema_inline_base64,
            inline_schema,
            request: payload,
            query_matching: req.query_matching,
            response_body_json: clone_opt_string(&req.response_body_json),
        }
    }

    /// The configuration of a consumer's interaction (see `build_outcome`), with the schema
    /// file the registry is to hold.
    pub fn build(&self, req: &GraphqlPluginRequest) -> (r: Fallible<BuiltConfig>)
        ensures
            build_outcome(
                r,
                req,
                assemble_spec(
                    req.query_document@,
                    opt_str_view(req.operation_name),
                    opt_str_view(req.variables_json),
                    Ok(request_sdl(opt_str_view(req.schema_sdl))),
                ),
                self.registry.root@,
            ),
    {
        let ghost sdl_spec = request_sdl(opt_str_view(req.schema_sdl));
        let ghost outcome = assemble_spec(
            req.query_document@,
            opt_str_view(req.operation_name),
            opt_str_view(req.variables_json),
            Ok(sdl_spec),
        );
        let canonical = CanonicalGraphqlRequest::from_interaction_config(req)?;
        proof {
            assert(outcome is Ok);
            assert(outcome->Ok_0.2 == sdl_spec);
            if let Some(t) = sdl_spec {
                let s = req.schema_sdl->Some_0@;
                crate::canonical::lemma_canonical_sdl_not_blank(s);
                assert(t == nonempty_sdl(s)->Some_0);
            }
        }
        let sdl = canonical.inline_schema_sdl()?;
        let schema_file = match &sdl {
            Some(t) => Some(self.registry.store(t.as_str())?),
            None => None,
        };
        let schema_ref = match &schema_file {
            Some(f) => Some(f.schema_ref.clone_ref()),
            None => None,
        };
        let config = self.config_of(req, canonical, schema_ref);
        Ok(BuiltConfig { config, schema_file })
    }
}

/// A configuration with the schema file the registry is to hold for it, if any.
pub struct BuiltConfig {
    pub config: GraphqlPluginConfig,
    pub schema_file: Option<StoredSchema>,
}

/// The reference of the stored copy of an optional canonical SDL.
pub open spec fn stored_ref(sdl: Option<Seq<char>>) -> Option<SpecSchemaRef> {
    match sdl {
        Some(t) => Some(SpecSchemaRef { hash: sha256_hex_of(stored_text_spec(t)), encoding: "utf-8"@ }),
        None => None,
    }
}

/// What `build` gives for an assembled request: the configuration of its canonical payload
/// and inline schema, with the reference of the schema stored under `root` and the file to
/// write there.
pub open spec fn build_outcome(
    r: Fallible<BuiltConfig>,
    req: &GraphqlPluginRequest,
    outcome: Result<(Seq<char>, Option<Seq<char>>, Option<Seq<char>>), Seq<Seq<char>>>,
    root: Seq<char>,
) -> bool {
    match outcome {
        Err(m) => r matches Err(e) && e@ == m,
        Ok((q, v, sdl)) => r matches Ok(b) && {
            &&& b.config@ == build_spec(
                req.query_matching,
                opt_str_view(req.response_body_json),
                SpecPayload {
                    query_document: q,
                    operation_name: opt_str_view(req.operation_name),
                    variables_json: v,
                    transport: req.transport,
                },
                inline_of_sdl(sdl),
                stored_ref(sdl),
            )
            &&& match sdl {
                None => b.schema_file is None,
                Some(t) => b.schema_file matches Some(f) && {
                    &&& f.contents@ == stored_text_spec(t)
                    &&& f.schema_ref@ == stored_ref(sdl)->Some_0
                    &&& f.path@ == schema_file_spec(root, f.schema_ref.hash@)
                },
            }
        },
    }
}

/// The legacy SDL field of a configuration agrees with its inline schema, and its flat
/// operation name and variables with its request (as in every configuration `build` makes).
pub open spec fn config_consistent(c: SpecConfig) -> bool {
    &&& match c.inline_schema {
        Some(b) => c.schema_inline_base64 == b,
        None => c.schema_inline_base64 is None,
    }
    &&& c.operation_name == c.request.operation_name
    &&& c.variables_json == c.request.variables_json
}

/// Reading back the stored form of a configuration gives the configuration itself, when its
/// query document is not blank and it is consistent.
pub proof fn lemma_wire_roundtrip(c: SpecConfig)
    requires
        !blank(c.query_document),
        config_consistent(c),
    ensures
        from_wire_spec(to_wire_spec(c)) == Ok::<SpecConfig, Seq<char>>(c),
{
}

/// The stored form carries the schema once: with an inline schema, the legacy SDL field is
/// left out.
pub proof fn lemma_wire_schema_once(c: SpecConfig)
    requires
        c.inline_schema is Some,
    ensures
        to_wire_spec(c).schema_inline_base64 is None,
        to_wire_spec(c).inline_schema == c.inline_schema,
{
}

/// A stored form with only the legacy SDL field reads as a configuration whose inline schema
/// holds that SDL.
pub proof fn lemma_wire_reads_legacy_schema(w: SpecWire)
    requires
        w.inline_schema is None,
        w.schema_inline_base64 is Some,
        from_wire_spec(w) is Ok,
    ensures
        from_wire_spec(w)->Ok_0.inline_schema == Some(w.schema_inline_base64),
        from_wire_spec(w)->Ok_0.schema_inline_base64 == w.schema_inline_base64,
{
}

/// Every configuration `build` makes is consistent.
pub proof fn lemma_build_consistent(
    query_matching: QueryMatching,
    response_body_json: Option<Seq<char>>,
    payload: SpecPayload,
    inline_schema: Option<Option<Seq<char>>>,
    schema_ref: Option<SpecSchemaRef>,
)
    ensures
        config_consistent(build_spec(query_matching, response_body_json, payload, inline_schema, schema_ref)),
{
}

} // verus!
