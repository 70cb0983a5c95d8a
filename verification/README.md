# pact_graphql_plugin

A Pact plugin for GraphQL requests. Consumers describe an interaction by its query, operation
name, variables and schema; the plugin validates them against the schema, stores a canonical
form of the request (fragments inlined, variables with sorted keys, schema SDL dedented), writes
the request body, and compares the requests a provider receives with the stored one — on the
query's structure as graphql_parser reads it. Texts that read and inline to the same operation
compare equal (a proved law); that whitespace and comments do not change what graphql_parser
reads is the parser's behaviour, shown by the tests rather than proved.

## Layout

- `src/` — the library, verified with Verus. Every public function states in its contract what
  it returns; the laws of the library (key order of variables does not matter, a request
  compared with itself has no mismatch, `Subset` matching never reports a field the actual
  query leaves out, the stored form of a configuration reads back as the configuration, a
  request body decodes to the request it was encoded from, given that the JSON and form
  readers give back what their writers wrote, …) are public proof functions.
  - `ast`, `graphql_text`, `query_ast`, `validation`, `variables`, `schema_index`, `response`:
    the GraphQL side — syntax tree, reading query and schema texts and printing operations
    through `graphql_parser`, fragment inlining and structural diff, validation of documents,
    arguments, variables and responses against a schema index, and the matching rules a
    response's values get from the schema (`rules`).
  - `json`, `json_text`, `form`, `codec`, `text`, `canonical`, `order`, `assoc`: JSON values and
    their canonical form, form encoding, base64, text utilities, sorting.
  - `encoder`, `payload`, `interaction`, `schema`, `server`, `startup`: request bodies, canonical
    requests and their comparison, interaction configurations and their stored form, the schema
    registry, and the plugin's decisions around the Pact protocol.
- `app/` — the executable: serde forms of the configuration types, the gRPC service, file I/O
  and logging.
- `tests/` — tests of the library.
