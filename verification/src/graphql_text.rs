//! Reading GraphQL texts with graphql_parser into the library's syntax tree, and graphql_parser's
//! printing of an operation. The parser's node types are generic over its own text trait,
//! which cannot be declared here, so each conversion takes or gives them as a type parameter
//! and moves one node into the other, one for one.
use vstd::prelude::*;

use graphql_parser::query as gq;
use graphql_parser::schema as gs;
use graphql_parser::Pos;
use std::any::Any;

use crate::text::{is_whitespace, is_ws};
use crate::ast::{
    Argument, Definition, Directive, Field, FieldDef, FragmentDefinition, FragmentSpread, GqlValue, InlineFragment,
    InputValueDef, OperationDefinition, OperationType, QueryDocument, SchemaDefinition, SchemaDocument, Selection,
    SelectionSet, SpecOperation, TypeDef, TypeKind, TypeRef, VariableDefinition,
};

verus! {

/// What `graphql_parser::query::parse_query` makes of a text, in the library's tree: the
/// document, or the parser's message.
pub uninterp spec fn query_read(text: Seq<char>) -> Result<QueryDocument, Seq<char>>;

/// What `graphql_parser::schema::parse_schema` makes of a text, in the library's tree: the
/// document, or the parser's message.
pub uninterp spec fn schema_read(text: Seq<char>) -> Result<SchemaDocument, Seq<char>>;

/// The text graphql_parser prints (`Display`) for an operation.
pub uninterp spec fn operation_text(op: SpecOperation) -> Seq<char>;

/// A whitespace character outside ASCII (`char::is_whitespace`): U+0085, U+00A0, U+1680,
/// U+2000 to U+200A, U+2028, U+2029, U+202F, U+205F, U+3000.
pub open spec fn non_ascii_whitespace(c: char) -> bool {
    let u = c as u32;
    u == 0x85 || u == 0xa0 || u == 0x1680 || (0x2000 <= u && u <= 0x200a) || u == 0x2028 || u == 0x2029 || u == 0x202f
        || u == 0x205f || u == 0x3000
}

/// Where graphql_parser's tokenizer stands at a character, as far as block strings are
/// concerned: among ordinary tokens, in a comment, in a quoted string (after a backslash or
/// not), or in a block string (on its first line or a later one, within the line's leading
/// whitespace or past it).
pub enum Lex {
    Normal,
    Comment,
    Quoted(bool),
    Block(bool, bool),
}

/// `"""` starts at `i`.
pub open spec fn triple_at(t: Seq<char>, i: int) -> bool {
    0 <= i && i + 3 <= t.len() && t[i] == '"' && t[i + 1] == '"' && t[i + 2] == '"'
}

/// The tokenizer's move at `i`: the next position and where it then stands. A `#` among
/// tokens opens a comment that a line break ends; `"""` opens a block string that the next
/// `"""` not preceded by a backslash ends; `"` opens a quoted string that the next `"` not
/// escaped ends. In a block string a line break starts a new line, whose leading whitespace
/// lasts until its first other character.
pub open spec fn lex_step(t: Seq<char>, i: int, s: Lex) -> (int, Lex) {
    match s {
        Lex::Normal => if triple_at(t, i) {
            (i + 3, Lex::Block(true, true))
        } else if t[i] == '#' {
            (i + 1, Lex::Comment)
        } else if t[i] == '"' {
            (i + 1, Lex::Quoted(false))
        } else {
            (i + 1, Lex::Normal)
        },
        Lex::Comment => (i + 1, if t[i] == '\n' || t[i] == '\r' { Lex::Normal } else { Lex::Comment }),
        Lex::Quoted(escaped) => (i + 1, if t[i] == '"' && !escaped { Lex::Normal } else { Lex::Quoted(!escaped && t[i] == '\\') }),
        Lex::Block(first, leading) => if triple_at(t, i) {
            if i >= 1 && t[i - 1] == '\\' {
                (i + 3, Lex::Block(first, false))
            } else {
                (i + 3, Lex::Normal)
            }
        } else if t[i] == '\n' {
            (i + 1, Lex::Block(false, true))
        } else {
            (i + 1, Lex::Block(first, leading && is_ws(t[i])))
        },
    }
}

/// A non-ASCII whitespace character in the leading whitespace of a block string's line other
/// than its first.
pub open spec fn lex_hit(t: Seq<char>, i: int, s: Lex) -> bool {
    &&& s matches Lex::Block(first, leading)
    &&& !first
    &&& leading
    &&& !triple_at(t, i)
    &&& non_ascii_whitespace(t[i])
}

/// Whether, from position `i` standing as `s`, the text reaches such a character.
pub open spec fn hazard_from(t: Seq<char>, i: int, s: Lex) -> bool
    decreases t.len() - i,
{
    if i < 0 || i >= t.len() {
        false
    } else {
        lex_hit(t, i, s) || {
            let (j, s2) = lex_step(t, i, s);
            hazard_from(t, j, s2)
        }
    }
}

/// A text graphql_parser may panic on: one of its block strings has, on a line after the
/// first, a whitespace character outside ASCII in the line's leading whitespace.
/// graphql_parser dedents a block string by the common indentation of its lines after the
/// first, counted in bytes of leading whitespace, and slices each of those lines there; only
/// a multi-byte character in that leading whitespace can put the slice inside a character.
/// A text without one is read without panicking; a text with one is refused, even where the
/// slice would have fallen between characters.
pub open spec fn block_string_hazard(t: Seq<char>) -> bool {
    hazard_from(t, 0, Lex::Normal)
}

/// The message for a text graphql_parser cannot be handed (see `block_string_hazard`).
pub open spec fn block_string_hazard_message() -> Seq<char> {
    "a block string holds a whitespace character outside ASCII, which graphql_parser cannot dedent"@
}

/// What reading a query text gives: the refusal of a text graphql_parser cannot be handed
/// (see `block_string_hazard`), else the parser's document or message (`query_read`).
pub open spec fn query_reading(t: Seq<char>) -> Result<QueryDocument, Seq<char>> {
    if block_string_hazard(t) {
        Err(block_string_hazard_message())
    } else {
        query_read(t)
    }
}

/// What reading a schema text gives: the refusal of a text graphql_parser cannot be handed
/// (see `block_string_hazard`), else the parser's document or message (`schema_read`).
pub open spec fn schema_reading(t: Seq<char>) -> Result<SchemaDocument, Seq<char>> {
    if block_string_hazard(t) {
        Err(block_string_hazard_message())
    } else {
        schema_read(t)
    }
}

fn is_non_ascii_whitespace(c: char) -> (r: bool)
    ensures
        r == non_ascii_whitespace(c),
{
    let u = c as u32;
    u == 0x85 || u == 0xa0 || u == 0x1680 || (0x2000 <= u && u <= 0x200a) || u == 0x2028 || u == 0x2029 || u == 0x202f
        || u == 0x205f || u == 0x3000
}

fn triple_at_exec(text: &str, n: usize, i: usize) -> (r: bool)
    requires
        n == text@.len(),
    ensures
        r == triple_at(text@, i as int),
{
    i < n && n - i >= 3 && text.get_char(i) == '"' && text.get_char(i + 1) == '"' && text.get_char(i + 2) == '"'
}

/// Whether graphql_parser may panic on a text (see `block_string_hazard`).
pub fn has_block_string_hazard(text: &str) -> (r: bool)
    ensures
        r == block_string_hazard(text@),
{
    let ghost t = text@;
    let n = text.unicode_len();
    let mut s = Lex::Normal;
    let mut i: usize = 0;
    while i < n
        invariant
            n == t.len(),
            t == text@,
            i <= n,
            block_string_hazard(t) == hazard_from(t, i as int, s),
        decreases n - i,
    {
        let c = text.get_char(i);
        let triple = triple_at_exec(text, n, i);
        let (hit, next, s2) = match s {
            Lex::Normal => {
                if triple {
                    (false, i + 3, Lex::Block(true, true))
                } else if c == '#' {
                    (false, i + 1, Lex::Comment)
                } else if c == '"' {
                    (false, i + 1, Lex::Quoted(false))
                } else {
                    (false, i + 1, Lex::Normal)
                }
            },
            Lex::Comment => (false, i + 1, if c == '\n' || c == '\r' { Lex::Normal } else { Lex::Comment }),
            Lex::Quoted(escaped) => (false, i + 1, if c == '"' && !escaped { Lex::Normal } else { Lex::Quoted(!escaped && c == '\\') }),
            Lex::Block(first, leading) => {
                if triple {
                    if i >= 1 && text.get_char(i - 1) == '\\' {
                        (false, i + 3, Lex::Block(first, false))
                    } else {
                        (false, i + 3, Lex::Normal)
                    }
                } else if c == '\n' {
                    (false, i + 1, Lex::Block(false, true))
                } else {
                    (!first && leading && is_non_ascii_whitespace(c), i + 1, Lex::Block(first, leading && is_whitespace(c)))
                }
            },
        };
        proof {
            assert(hit == lex_hit(t, i as int, s));
            assert(lex_step(t, i as int, s) == (next as int, s2));
        }
        if hit {
            return true;
        }
        i = next;
        s = s2;
    }
    false
}

/// `graphql_parser::query::parse_query::<String>`, the document moved into the library's tree;
/// the outcome is a function of the text alone (`query_read`). Texts on which the parser
/// panics are left out (see `block_string_hazard`).
#[verifier::external_body]
fn parse_query_text(text: &str) -> (r: Result<QueryDocument, String>)
    requires
        !block_string_hazard(text@),
    ensures
        match query_read(text@) {
            Ok(d) => r matches Ok(x) && x == d,
            Err(m) => r matches Err(e) && e@ == m,
        },
{
    match gq::parse_query::<String>(text) {
        Ok(doc) => Ok(q_document(&doc.into_static())),
        Err(e) => Err(e.to_string()),
    }
}

/// `graphql_parser::schema::parse_schema::<String>`, the document moved into the library's
/// tree; the outcome is a function of the text alone (`schema_read`). Texts on which the
/// parser panics are left out (see `block_string_hazard`).
#[verifier::external_body]
fn parse_schema_text(text: &str) -> (r: Result<SchemaDocument, String>)
    requires
        !block_string_hazard(text@),
    ensures
        match schema_read(text@) {
            Ok(d) => r matches Ok(x) && x == d,
            Err(m) => r matches Err(e) && e@ == m,
        },
{
    match gs::parse_schema::<String>(text) {
        Ok(doc) => Ok(s_document(&doc.into_static())),
        Err(e) => Err(e.to_string()),
    }
}

/// Reads a query text (see `query_reading`).
pub(crate) fn read_query(text: &str) -> (r: Result<QueryDocument, String>)
    ensures
        match query_reading(text@) {
            Ok(d) => r matches Ok(x) && x == d,
            Err(m) => r matches Err(e) && e@ == m,
        },
{
    if has_block_string_hazard(text) {
        return Err(String::from_str("a block string holds a whitespace character outside ASCII, which graphql_parser cannot dedent"));
    }
    parse_query_text(text)
}

/// Reads a schema text (see `schema_reading`).
pub(crate) fn read_schema(text: &str) -> (r: Result<SchemaDocument, String>)
    ensures
        match schema_reading(text@) {
            Ok(d) => r matches Ok(x) && x == d,
            Err(m) => r matches Err(e) && e@ == m,
        },
{
    if has_block_string_hazard(text) {
        return Err(String::from_str("a block string holds a whitespace character outside ASCII, which graphql_parser cannot dedent"));
    }
    parse_schema_text(text)
}

/// `to_string()` (graphql_parser's `Display`) of the operation moved into graphql_parser's
/// tree; the text is a function of the operation alone (`operation_text`).
#[verifier::external_body]
pub(crate) fn print_operation(op: &OperationDefinition) -> (r: String)
    ensures
        r@ == operation_text(op@),
{
    match p_operation::<gq::OperationDefinition<'static, String>>(op) {
        Some(o) => o.to_string(),
        None => String::new(),
    }
}

/// `downcast_ref` of `std::any::Any`: the value as a `U`, when it is one.
#[verifier::external_body]
fn node<T: 'static, U: 'static>(t: &T) -> Option<&U> {
    (t as &dyn Any).downcast_ref::<U>()
}

/// `downcast` of `Box<dyn Any>`: the value moved into a `U`, when it is one.
#[verifier::external_body]
fn moved<G: 'static, U: 'static>(g: G) -> Option<U> {
    (Box::new(g) as Box<dyn Any>).downcast::<U>().ok().map(|b| *b)
}

/// A `graphql_parser` type reference as the library's.
#[verifier::external_body]
fn q_type<T: 'static>(t: &T) -> TypeRef {
    match node::<T, gq::Type<'static, String>>(t) {
        Some(gq::Type::NamedType(n)) => TypeRef::Named(n.clone()),
        Some(gq::Type::ListType(i)) => TypeRef::List(Box::new(q_type(&**i))),
        Some(gq::Type::NonNullType(i)) => TypeRef::NonNull(Box::new(q_type(&**i))),
        None => TypeRef::Named(String::new()),
    }
}

/// A `graphql_parser` scalar value as the library's (the other values: `q_value_nested`); a
/// float keeps the text graphql_parser prints.
#[verifier::external_body]
fn q_value<T: 'static>(v: &T) -> GqlValue {
    match node::<T, gq::Value<'static, String>>(v) {
        Some(gq::Value::Variable(n)) => GqlValue::Variable(n.clone()),
        Some(gq::Value::Int(n)) => GqlValue::Int(n.as_i64().unwrap_or_default()),
        Some(f @ gq::Value::Float(_)) => GqlValue::Float(f.to_string()),
        Some(gq::Value::String(s)) => GqlValue::Str(s.clone()),
        Some(gq::Value::Boolean(b)) => GqlValue::Boolean(*b),
        _ => q_value_nested(v),
    }
}

/// A `graphql_parser` enum value, list, object or null as the library's.
#[verifier::external_body]
fn q_value_nested<T: 'static>(v: &T) -> GqlValue {
    match node::<T, gq::Value<'static, String>>(v) {
        Some(gq::Value::Enum(n)) => GqlValue::Enum(n.clone()),
        Some(gq::Value::List(items)) => GqlValue::List(items.iter().map(q_value).collect()),
        Some(gq::Value::Object(m)) => GqlValue::Object(m.iter().map(|(k, x)| (k.clone(), q_value(x))).collect()),
        _ => GqlValue::Null,
    }
}

/// `graphql_parser` directives as the library's.
#[verifier::external_body]
fn q_directives<T: 'static>(ds: &T) -> Vec<Directive> {
    match node::<T, Vec<gq::Directive<'static, String>>>(ds) {
        Some(ds) => ds
            .iter()
            .map(|d| Directive { name: d.name.clone(), arguments: d.arguments.iter().map(|(k, v)| (k.clone(), q_value(v))).collect() })
            .collect(),
        None => Vec::new(),
    }
}

/// A `graphql_parser` selection set as the library's.
#[verifier::external_body]
fn q_set<T: 'static>(s: &T) -> SelectionSet {
    match node::<T, gq::SelectionSet<'static, String>>(s) {
        Some(s) => SelectionSet { items: s.items.iter().map(q_selection).collect() },
        None => SelectionSet { items: Vec::new() },
    }
}

/// A `graphql_parser` selection as the library's.
#[verifier::external_body]
fn q_selection<T: 'static>(s: &T) -> Selection {
    match node::<T, gq::Selection<'static, String>>(s) {
        Some(gq::Selection::Field(f)) => Selection::Field(q_field(f)),
        Some(gq::Selection::FragmentSpread(sp)) => Selection::FragmentSpread(
            FragmentSpread { fragment_name: sp.fragment_name.clone(), directives: q_directives(&sp.directives) },
        ),
        Some(gq::Selection::InlineFragment(fr)) => Selection::InlineFragment(InlineFragment {
            type_condition: fr.type_condition.as_ref().map(|gq::TypeCondition::On(n)| n.clone()),
            directives: q_directives(&fr.directives),
            selection_set: q_set(&fr.selection_set),
        }),
        None => Selection::FragmentSpread(FragmentSpread { fragment_name: String::new(), directives: Vec::new() }),
    }
}

/// A `graphql_parser` field as the library's.
#[verifier::external_body]
fn q_field<T: 'static>(f: &T) -> Field {
    match node::<T, gq::Field<'static, String>>(f) {
        Some(f) => Field {
            alias: f.alias.clone(),
            name: f.name.clone(),
            arguments: q_arguments(&f.arguments),
            directives: q_directives(&f.directives),
            selection_set: q_set(&f.selection_set),
        },
        None => Field { alias: None, name: String::new(), arguments: vec![], directives: vec![], selection_set: q_set(&()) },
    }
}

/// A `graphql_parser` field's arguments as the library's; each keeps the text graphql_parser
/// prints for its value.
#[verifier::external_body]
fn q_arguments<T: 'static>(args: &T) -> Vec<Argument> {
    match node::<T, Vec<(String, gq::Value<'static, String>)>>(args) {
        Some(args) => args.iter().map(|(k, v)| Argument { name: k.clone(), value: q_value(v), text: v.to_string() }).collect(),
        None => Vec::new(),
    }
}

/// `graphql_parser` variable definitions as the library's.
#[verifier::external_body]
fn q_variables<T: 'static>(vs: &T) -> Vec<VariableDefinition> {
    match node::<T, Vec<gq::VariableDefinition<'static, String>>>(vs) {
        Some(vs) => vs
            .iter()
            .map(|v| VariableDefinition { name: v.name.clone(), var_type: q_type(&v.var_type), default_value: v.default_value.as_ref().map(q_value) })
            .collect(),
        None => Vec::new(),
    }
}

/// An operation of the given kind and name from `graphql_parser`'s variables, directives and
/// selection set.
#[verifier::external_body]
fn q_parts<V: 'static, D: 'static, S: 'static>(kind: OperationType, name: &Option<String>, vars: &V, dirs: &D, set: &S) -> OperationDefinition {
    OperationDefinition {
        operation_type: kind,
        name: name.clone(),
        variable_definitions: q_variables(vars),
        directives: q_directives(dirs),
        selection_set: q_set(set),
    }
}

/// A `graphql_parser` operation as the library's; a bare selection set is `Shorthand`.
#[verifier::external_body]
fn q_operation<T: 'static>(op: &T) -> OperationDefinition {
    match node::<T, gq::OperationDefinition<'static, String>>(op) {
        Some(gq::OperationDefinition::Query(q)) => q_parts(OperationType::Query, &q.name, &q.variable_definitions, &q.directives, &q.selection_set),
        Some(gq::OperationDefinition::Mutation(q)) => q_parts(OperationType::Mutation, &q.name, &q.variable_definitions, &q.directives, &q.selection_set),
        Some(gq::OperationDefinition::Subscription(q)) => q_parts(OperationType::Subscription, &q.name, &q.variable_definitions, &q.directives, &q.selection_set),
        _ => q_shorthand(op),
    }
}

/// A `graphql_parser` bare selection set as the library's `Shorthand` operation.
#[verifier::external_body]
fn q_shorthand<T: 'static>(op: &T) -> OperationDefinition {
    match node::<T, gq::OperationDefinition<'static, String>>(op) {
        Some(gq::OperationDefinition::SelectionSet(s)) => q_parts(OperationType::Shorthand, &None, &(), &(), s),
        _ => q_parts(OperationType::Shorthand, &None, &(), &(), &()),
    }
}

/// A `graphql_parser` query document as the library's.
#[verifier::external_body]
fn q_document<T: 'static>(d: &T) -> QueryDocument {
    let defs = node::<T, gq::Document<'static, String>>(d).map(|d| &d.definitions[..]).unwrap_or(&[]);
    QueryDocument {
        definitions: defs.iter().map(|d| match d {
            gq::Definition::Operation(op) => Definition::Operation(q_operation(op)),
            gq::Definition::Fragment(f) => Definition::Fragment(FragmentDefinition {
                name: f.name.clone(),
                type_condition: match &f.type_condition { gq::TypeCondition::On(n) => n.clone() },
                directives: q_directives(&f.directives),
                selection_set: q_set(&f.selection_set),
            }),
        }).collect(),
    }
}

/// `graphql_parser` schema fields as the library's.
#[verifier::external_body]
fn s_fields<T: 'static>(fields: &T) -> Vec<FieldDef> {
    match node::<T, Vec<gs::Field<'static, String>>>(fields) {
        Some(fs) => fs.iter().map(|f| FieldDef {
            name: f.name.clone(),
            field_type: q_type(&f.field_type),
            arguments: f.arguments.iter().map(|a| InputValueDef { name: a.name.clone(), value_type: q_type(&a.value_type), has_default: a.default_value.is_some() }).collect(),
        }).collect(),
        None => Vec::new(),
    }
}

/// A type definition of the given kind and name, with the given fields, interfaces and
/// members.
fn s_type(kind: TypeKind, name: &String, fields: Vec<FieldDef>, implements: &Vec<String>, members: Vec<String>) -> (r: TypeDef)
    ensures
        r.kind == kind,
        r.name@ == name@,
        r.fields@ == fields@,
        r.implements@ == implements@,
        r.members@ == members@,
{
    TypeDef { kind, name: name.clone(), fields, implements: implements.clone(), members }
}

/// A type definition of the given kind and name, with nothing else in it.
fn s_plain(kind: TypeKind, name: &String) -> (r: TypeDef)
    ensures
        r.kind == kind,
        r.name@ == name@,
        r.fields@.len() == 0,
        r.implements@.len() == 0,
        r.members@.len() == 0,
{
    s_type(kind, name, Vec::new(), &Vec::new(), Vec::new())
}

/// A `graphql_parser` scalar, object or interface definition as the library's (the other
/// kinds: `s_type_definition_rest`).
#[verifier::external_body]
fn s_type_definition<T: 'static>(t: &T) -> TypeDef {
    match node::<T, gs::TypeDefinition<'static, String>>(t) {
        Some(gs::TypeDefinition::Scalar(s)) => s_plain(TypeKind::Scalar, &s.name),
        Some(gs::TypeDefinition::Object(o)) => s_type(TypeKind::Object, &o.name, s_fields(&o.fields), &o.implements_interfaces, vec![]),
        Some(gs::TypeDefinition::Interface(i)) => s_type(TypeKind::Interface, &i.name, s_fields(&i.fields), &i.implements_interfaces, vec![]),
        _ => s_type_definition_rest(t),
    }
}

/// A `graphql_parser` union, enum or input object definition as the library's.
#[verifier::external_body]
fn s_type_definition_rest<T: 'static>(t: &T) -> TypeDef {
    match node::<T, gs::TypeDefinition<'static, String>>(t) {
        Some(gs::TypeDefinition::Union(u)) => s_type(TypeKind::Union, &u.name, vec![], &vec![], u.types.clone()),
        Some(gs::TypeDefinition::Enum(e)) => s_type(TypeKind::Enum, &e.name, vec![], &vec![], e.values.iter().map(|v| v.name.clone()).collect()),
        Some(gs::TypeDefinition::InputObject(i)) => s_plain(TypeKind::InputObject, &i.name),
        _ => s_plain(TypeKind::Scalar, &String::new()),
    }
}

/// A `graphql_parser` scalar, object or interface extension as the library's (the other
/// kinds: `s_type_extension_rest`).
#[verifier::external_body]
fn s_type_extension<T: 'static>(t: &T) -> TypeDef {
    match node::<T, gs::TypeExtension<'static, String>>(t) {
        Some(gs::TypeExtension::Scalar(s)) => s_plain(TypeKind::Scalar, &s.name),
        Some(gs::TypeExtension::Object(o)) => s_type(TypeKind::Object, &o.name, s_fields(&o.fields), &o.implements_interfaces, vec![]),
        Some(gs::TypeExtension::Interface(i)) => s_type(TypeKind::Interface, &i.name, s_fields(&i.fields), &i.implements_interfaces, vec![]),
        _ => s_type_extension_rest(t),
    }
}

/// A `graphql_parser` union, enum or input object extension as the library's.
#[verifier::external_body]
fn s_type_extension_rest<T: 'static>(t: &T) -> TypeDef {
    match node::<T, gs::TypeExtension<'static, String>>(t) {
        Some(gs::TypeExtension::Union(u)) => s_type(TypeKind::Union, &u.name, vec![], &vec![], u.types.clone()),
        Some(gs::TypeExtension::Enum(e)) => s_type(TypeKind::Enum, &e.name, vec![], &vec![], e.values.iter().map(|v| v.name.clone()).collect()),
        Some(gs::TypeExtension::InputObject(i)) => s_plain(TypeKind::InputObject, &i.name),
        _ => s_plain(TypeKind::Scalar, &String::new()),
    }
}

/// A `graphql_parser` schema document as the library's.
#[verifier::external_body]
fn s_document<T: 'static>(d: &T) -> SchemaDocument {
    let defs = node::<T, gs::Document<'static, String>>(d).map(|d| &d.definitions[..]).unwrap_or(&[]);
    SchemaDocument {
        definitions: defs.iter().map(|d| match d {
            gs::Definition::SchemaDefinition(s) => SchemaDefinition::Schema { query: s.query.clone(), mutation: s.mutation.clone(), subscription: s.subscription.clone() },
            gs::Definition::TypeDefinition(t) => SchemaDefinition::Type(s_type_definition(t)),
            gs::Definition::TypeExtension(t) => SchemaDefinition::Extension(s_type_extension(t)),
            gs::Definition::DirectiveDefinition(_) => SchemaDefinition::Directive,
        }).collect(),
    }
}

/// The library's type reference as graphql_parser's (`None` only for a `T` that is not
/// graphql_parser's type).
#[verifier::external_body]
fn p_type<T: 'static>(t: &TypeRef) -> Option<T> {
    let g: gq::Type<'static, String> = match t {
        TypeRef::Named(n) => gq::Type::NamedType(n.clone()),
        TypeRef::List(i) => gq::Type::ListType(Box::new(p_type(i)?)),
        TypeRef::NonNull(i) => gq::Type::NonNullType(Box::new(p_type(i)?)),
    };
    moved(g)
}

/// The library's scalar value as graphql_parser's (the other values: `p_value_nested`). A
/// number becomes the bare text graphql_parser prints for it (an enum value prints its text
/// unchanged).
#[verifier::external_body]
fn p_value<T: 'static>(v: &GqlValue) -> Option<T> {
    let g: gq::Value<'static, String> = match v {
        GqlValue::Variable(n) => gq::Value::Variable(n.clone()),
        GqlValue::Int(i) => gq::Value::Enum(i.to_string()),
        GqlValue::Float(t) => gq::Value::Enum(t.clone()),
        GqlValue::Str(s) => gq::Value::String(s.clone()),
        GqlValue::Boolean(b) => gq::Value::Boolean(*b),
        _ => p_value_nested(v)?,
    };
    moved(g)
}

/// The library's enum value, list, object or null as graphql_parser's.
#[verifier::external_body]
fn p_value_nested<T: 'static>(v: &GqlValue) -> Option<T> {
    let g: gq::Value<'static, String> = match v {
        GqlValue::Enum(n) => gq::Value::Enum(n.clone()),
        GqlValue::List(items) => gq::Value::List(items.iter().map(p_value).collect::<Option<Vec<_>>>()?),
        GqlValue::Object(es) => gq::Value::Object(es.iter().map(|(k, x)| Some((k.clone(), p_value(x)?))).collect::<Option<_>>()?),
        _ => gq::Value::Null,
    };
    moved(g)
}

/// The library's directives as graphql_parser's.
#[verifier::external_body]
fn p_directives<T: 'static>(ds: &Vec<Directive>) -> Option<T> {
    let g: Vec<gq::Directive<'static, String>> = ds
        .iter()
        .map(|d| Some(gq::Directive {
            position: Pos::default(),
            name: d.name.clone(),
            arguments: d.arguments.iter().map(|(k, v)| Some((k.clone(), p_value(v)?))).collect::<Option<_>>()?,
        }))
        .collect::<Option<_>>()?;
    moved(g)
}

/// The library's selection set as graphql_parser's.
#[verifier::external_body]
fn p_set<T: 'static>(s: &SelectionSet) -> Option<T> {
    let g = gq::SelectionSet::<'static, String> {
        span: (Pos::default(), Pos::default()),
        items: s.items.iter().map(p_selection).collect::<Option<_>>()?,
    };
    moved(g)
}

/// The library's selection as graphql_parser's.
#[verifier::external_body]
fn p_selection<T: 'static>(s: &Selection) -> Option<T> {
    let g: gq::Selection<'static, String> = match s {
        Selection::Field(f) => gq::Selection::Field(p_field(f)?),
        Selection::FragmentSpread(sp) => gq::Selection::FragmentSpread(gq::FragmentSpread {
            position: Pos::default(),
            fragment_name: sp.fragment_name.clone(),
            directives: p_directives(&sp.directives)?,
        }),
        Selection::InlineFragment(fr) => gq::Selection::InlineFragment(gq::InlineFragment {
            position: Pos::default(),
            type_condition: fr.type_condition.clone().map(gq::TypeCondition::On),
            directives: p_directives(&fr.directives)?,
            selection_set: p_set(&fr.selection_set)?,
        }),
    };
    moved(g)
}

/// The library's field as graphql_parser's.
#[verifier::external_body]
fn p_field<T: 'static>(f: &Field) -> Option<T> {
    let g = gq::Field::<'static, String> {
        position: Pos::default(),
        alias: f.alias.clone(),
        name: f.name.clone(),
        arguments: f.arguments.iter().map(|a| Some((a.name.clone(), p_value(&a.value)?))).collect::<Option<_>>()?,
        directives: p_directives(&f.directives)?,
        selection_set: p_set(&f.selection_set)?,
    };
    moved(g)
}

/// The library's variable definitions as graphql_parser's.
#[verifier::external_body]
fn p_variables<T: 'static>(vs: &Vec<VariableDefinition>) -> Option<T> {
    let g: Vec<gq::VariableDefinition<'static, String>> = vs
        .iter()
        .map(|v| Some(gq::VariableDefinition {
            position: Pos::default(),
            name: v.name.clone(),
            var_type: p_type(&v.var_type)?,
            default_value: match &v.default_value { Some(d) => Some(p_value(d)?), None => None },
        }))
        .collect::<Option<_>>()?;
    moved(g)
}

/// The library's operation as graphql_parser's; `Shorthand` is a bare selection set.
#[verifier::external_body]
fn p_operation<T: 'static>(op: &OperationDefinition) -> Option<T> {
    let set = p_set(&op.selection_set)?;
    let g: gq::OperationDefinition<'static, String> = match op.operation_type {
        OperationType::Shorthand => gq::OperationDefinition::SelectionSet(set),
        OperationType::Query => gq::OperationDefinition::Query(p_query(op, set)?),
        OperationType::Mutation => gq::OperationDefinition::Mutation(p_mutation(op, set)?),
        OperationType::Subscription => gq::OperationDefinition::Subscription(p_subscription(op, set)?),
    };
    moved(g)
}

/// The library's query operation as graphql_parser's, with its selection set already moved.
#[verifier::external_body]
fn p_query<T: 'static, S: 'static>(op: &OperationDefinition, set: S) -> Option<T> {
    let g = gq::Query::<'static, String> {
        position: Pos::default(),
        name: op.name.clone(),
        variable_definitions: p_variables(&op.variable_definitions)?,
        directives: p_directives(&op.directives)?,
        selection_set: moved(set)?,
    };
    moved(g)
}

/// The library's mutation operation as graphql_parser's, with its selection set already moved.
#[verifier::external_body]
fn p_mutation<T: 'static, S: 'static>(op: &OperationDefinition, set: S) -> Option<T> {
    let g = gq::Mutation::<'static, String> {
        position: Pos::default(),
        name: op.name.clone(),
        variable_definitions: p_variables(&op.variable_definitions)?,
        directives: p_directives(&op.directives)?,
        selection_set: moved(set)?,
    };
    moved(g)
}

/// The library's subscription operation as graphql_parser's, with its selection set already
/// moved.
#[verifier::external_body]
fn p_subscription<T: 'static, S: 'static>(op: &OperationDefinition, set: S) -> Option<T> {
    let g = gq::Subscription::<'static, String> {
        position: Pos::default(),
        name: op.name.clone(),
        variable_definitions: p_variables(&op.variable_definitions)?,
        directives: p_directives(&op.directives)?,
        selection_set: moved(set)?,
    };
    moved(g)
}

} // verus!
