//! The schema model: every named type of a schema with its kind, fields, arguments, enum
//! values and interface relations, built from parsed SDL definitions.
use vstd::prelude::*;

use crate::assoc::{
    assoc_find, assoc_upsert, assoc_view, keys_distinct, lemma_assoc_dom, lemma_assoc_lookup,
    lemma_upsert_preserves, names_view, NameSet,
};
use crate::ast::{
    innermost_named_spec, opt_str_view, FieldDef, InputValueDef, SchemaDefinition, SchemaDocument, SpecTypeRef, TypeDef,
    TypeKind, TypeRef,
};
use crate::error::{Error, Fallible};
use crate::text::{blank, cat3, cat5, concat, concat_spec, is_blank};
use crate::graphql_text::{read_schema, schema_reading};

verus! {

/// The SDL of the introspection types and built-in scalars that every schema contains.
pub const INTROSPECTION_SDL: &'static str = "
type __Schema {
  description: String
  types: [__Type!]!
  queryType: __Type!
  mutationType: __Type
  subscriptionType: __Type
  directives: [__Directive!]!
}

type __Type {
  kind: __TypeKind!
  name: String
  description: String
  fields(includeDeprecated: Boolean = false): [__Field!]
  interfaces: [__Type!]
  possibleTypes: [__Type!]
  enumValues(includeDeprecated: Boolean = false): [__EnumValue!]
  inputFields(includeDeprecated: Boolean = false): [__InputValue!]
  ofType: __Type
  specifiedByURL: String
}

type __Field {
  name: String!
  description: String
  args(includeDeprecated: Boolean = false): [__InputValue!]!
  type: __Type!
  isDeprecated: Boolean!
  deprecationReason: String
}

type __InputValue {
  name: String!
  description: String
  type: __Type!
  defaultValue: String
  isDeprecated: Boolean
  deprecationReason: String
}

type __EnumValue {
  name: String!
  description: String
  isDeprecated: Boolean!
  deprecationReason: String
}

type __Directive {
  name: String!
  description: String
  locations: [__DirectiveLocation!]!
  args(includeDeprecated: Boolean = false): [__InputValue!]!
  isRepeatable: Boolean!
}

enum __DirectiveLocation {
  QUERY
  MUTATION
  SUBSCRIPTION
  FIELD
  FRAGMENT_DEFINITION
  FRAGMENT_SPREAD
  INLINE_FRAGMENT
  VARIABLE_DEFINITION
  SCHEMA
  SCALAR
  OBJECT
  FIELD_DEFINITION
  ARGUMENT_DEFINITION
  INTERFACE
  UNION
  ENUM
  ENUM_VALUE
  INPUT_OBJECT
  INPUT_FIELD_DEFINITION
}

enum __TypeKind {
  SCALAR
  OBJECT
  INTERFACE
  UNION
  ENUM
  INPUT_OBJECT
  LIST
  NON_NULL
}

scalar ID
scalar String
scalar Int
scalar Float
scalar Boolean
";

/// The three kinds of operation, each with its own root type.
#[derive(PartialEq, Eq, Structural, Clone, Copy, Debug)]
pub enum OperationKind {
    Query,
    Mutation,
    Subscription,
}

/// A declared argument: its type and whether it has a default.
pub struct InputValueInfo {
    pub type_ref: TypeRef,
    pub has_default: bool,
}

pub struct SpecInputValue {
    pub type_ref: SpecTypeRef,
    pub has_default: bool,
}

impl View for InputValueInfo {
    type V = SpecInputValue;

    open spec fn view(&self) -> SpecInputValue {
        SpecInputValue { type_ref: self.type_ref@, has_default: self.has_default }
    }
}

impl InputValueInfo {
    /// A required argument is non-null and has no default.
    pub fn is_required(&self) -> (r: bool)
        ensures
            r == (self.type_ref@ is NonNull && !self.has_default),
    {
        self.type_ref.is_non_null() && !self.has_default
    }
}

/// A declared field: its return type and its arguments by name.
pub struct FieldInfo {
    pub return_type: TypeRef,
    pub arguments: Vec<(String, InputValueInfo)>,
}

pub struct SpecFieldInfo {
    pub return_type: SpecTypeRef,
    pub arguments: Map<Seq<char>, SpecInputValue>,
}

impl View for FieldInfo {
    type V = SpecFieldInfo;

    open spec fn view(&self) -> SpecFieldInfo {
        SpecFieldInfo { return_type: self.return_type@, arguments: assoc_view(self.arguments@) }
    }
}

impl FieldInfo {
    pub open spec fn wf(&self) -> bool {
        keys_distinct(self.arguments@)
    }

    /// The named type this field returns, when that type is an object, interface or union
    /// (and so needs a selection set).
    pub fn composite_type<'a>(&'a self, schema_index: &'a SchemaIndex) -> (r: Option<&'a str>)
        requires
            schema_index.wf(),
        ensures
            r matches Some(n) ==> n@ == innermost_named_spec(self@.return_type) && is_composite_spec(schema_index@, n@),
            r is None ==> !is_composite_spec(schema_index@, innermost_named_spec(self@.return_type)),
    {
        let named = match self.return_type.innermost_named() {
            Some(n) => n,
            None => {
                return None;
            },
        };
        if schema_index.is_composite_type(named) {
            Some(named)
        } else {
            None
        }
    }

    /// The argument declared under `name`.
    pub fn argument(&self, name: &str) -> (r: Option<&InputValueInfo>)
        requires
            self.wf(),
        ensures
            r matches Some(a) ==> self@.arguments.contains_key(name@) && a@
                == self@.arguments[name@],
            r is None ==> !self@.arguments.contains_key(name@),
    {
        match assoc_find(&self.arguments, name) {
            Some(i) => {
                proof {
                    lemma_assoc_lookup(self.arguments@, i as int);
                }
                Some(&self.arguments[i].1)
            },
            None => {
                proof {
                    lemma_assoc_dom(self.arguments@, name@);
                }
                None
            },
        }
    }
}

/// The fields and implemented interfaces of an object or interface type.
pub struct CompositeInfo {
    pub fields: Vec<(String, FieldInfo)>,
    pub implements: NameSet,
}

impl CompositeInfo {
    pub open spec fn wf(&self) -> bool {
        &&& keys_distinct(self.fields@)
        &&& forall|i: int| 0 <= i < self.fields@.len() ==> (#[trigger] self.fields@[i]).1.wf()
        &&& self.implements.wf()
    }

    /// The field declared under `name`.
    pub fn get(&self, name: &str) -> (r: Option<&FieldInfo>)
        requires
            self.wf(),
        ensures
            r matches Some(f) ==> assoc_view(self.fields@).contains_key(name@) && f@ == assoc_view(
                self.fields@,
            )[name@] && f.wf(),
            r is None ==> !assoc_view(self.fields@).contains_key(name@),
    {
        match assoc_find(&self.fields, name) {
            Some(i) => {
                proof {
                    lemma_assoc_lookup(self.fields@, i as int);
                }
                Some(&self.fields[i].1)
            },
            None => {
                proof {
                    lemma_assoc_dom(self.fields@, name@);
                }
                None
            },
        }
    }
}

/// What the schema says of one named type.
pub enum TypeInfo {
    Object(CompositeInfo),
    Interface(CompositeInfo),
    Union(NameSet),
    Scalar,
    Enum(NameSet),
    InputObject,
}

pub enum SpecTypeInfo {
    Object { fields: Map<Seq<char>, SpecFieldInfo>, implements: Set<Seq<char>> },
    Interface { fields: Map<Seq<char>, SpecFieldInfo>, implements: Set<Seq<char>> },
    Union { members: Set<Seq<char>> },
    Scalar,
    Enum { values: Set<Seq<char>> },
    InputObject,
}

impl View for TypeInfo {
    type V = SpecTypeInfo;

    open spec fn view(&self) -> SpecTypeInfo {
        match self {
            TypeInfo::Object(c) => SpecTypeInfo::Object {
                fields: assoc_view(c.fields@),
                implements: c.implements@,
            },
            TypeInfo::Interface(c) => SpecTypeInfo::Interface {
                fields: assoc_view(c.fields@),
                implements: c.implements@,
            },
            TypeInfo::Union(m) => SpecTypeInfo::Union { members: m@ },
            TypeInfo::Scalar => SpecTypeInfo::Scalar,
            TypeInfo::Enum(v) => SpecTypeInfo::Enum { values: v@ },
            TypeInfo::InputObject => SpecTypeInfo::InputObject,
        }
    }
}

/// The word for a type's kind used in messages.
pub open spec fn kind_name(t: SpecTypeInfo) -> Seq<char> {
    match t {
        SpecTypeInfo::Object { .. } => "object"@,
        SpecTypeInfo::Interface { .. } => "interface"@,
        SpecTypeInfo::Union { .. } => "union"@,
        SpecTypeInfo::Scalar => "scalar"@,
        SpecTypeInfo::Enum { .. } => "enum"@,
        SpecTypeInfo::InputObject => "input object"@,
    }
}

impl TypeInfo {
    pub open spec fn wf(&self) -> bool {
        match self {
            TypeInfo::Object(c) => c.wf(),
            TypeInfo::Interface(c) => c.wf(),
            TypeInfo::Union(m) => m.wf(),
            TypeInfo::Enum(v) => v.wf(),
            _ => true,
        }
    }

    /// `object`, `interface`, `union`, `scalar`, `enum` or `input object`.
    pub fn kind(&self) -> (r: &'static str)
        ensures
            r@ == kind_name(self@),
    {
        proof {
            reveal_strlit("object");
            reveal_strlit("interface");
            reveal_strlit("union");
            reveal_strlit("scalar");
            reveal_strlit("enum");
            reveal_strlit("input object");
        }
        match self {
            TypeInfo::Object(_) => "object",
            TypeInfo::Interface(_) => "interface",
            TypeInfo::Union(_) => "union",
            TypeInfo::Scalar => "scalar",
            TypeInfo::Enum(_) => "enum",
            TypeInfo::InputObject => "input object",
        }
    }
}

/// The index of a schema: its root types and every named type.
pub struct SchemaIndex {
    pub query_root: String,
    pub mutation_root: Option<String>,
    pub subscription_root: Option<String>,
    pub types: Vec<(String, TypeInfo)>,
}

pub struct SpecSchemaIndex {
    pub query_root: Seq<char>,
    pub mutation_root: Option<Seq<char>>,
    pub subscription_root: Option<Seq<char>>,
    pub types: Map<Seq<char>, SpecTypeInfo>,
}

impl View for SchemaIndex {
    type V = SpecSchemaIndex;

    open spec fn view(&self) -> SpecSchemaIndex {
        SpecSchemaIndex {
            query_root: self.query_root@,
            mutation_root: opt_str_view(self.mutation_root),
            subscription_root: opt_str_view(self.subscription_root),
            types: assoc_view(self.types@),
        }
    }
}

/// The arguments of a field definition by name; a later duplicate wins.
pub open spec fn def_args_map(args: Seq<InputValueDef>) -> Map<Seq<char>, SpecInputValue>
    decreases args.len(),
{
    if args.len() == 0 {
        Map::empty()
    } else {
        def_args_map(args.drop_last()).insert(
            args.last().name@,
            SpecInputValue { type_ref: args.last().value_type@, has_default: args.last().has_default },
        )
    }
}

pub open spec fn def_field_info(fd: FieldDef) -> SpecFieldInfo {
    SpecFieldInfo { return_type: fd.field_type@, arguments: def_args_map(fd.arguments@) }
}

/// The fields of a type definition by name; a later duplicate wins.
pub open spec fn def_fields_map(fields: Seq<FieldDef>) -> Map<Seq<char>, SpecFieldInfo>
    decreases fields.len(),
{
    if fields.len() == 0 {
        Map::empty()
    } else {
        def_fields_map(fields.drop_last()).insert(fields.last().name@, def_field_info(fields.last()))
    }
}

/// The set of names in `ns`.
pub open spec fn names_set(ns: Seq<String>) -> Set<Seq<char>> {
    names_view(ns).to_set()
}

/// What a type definition declares when its name is new.
pub open spec fn fresh_info_spec(def: TypeDef) -> SpecTypeInfo {
    let fields = def_fields_map(def.fields@);
    let implements = names_set(def.implements@);
    let members = names_set(def.members@);
    match def.kind {
        TypeKind::Object => SpecTypeInfo::Object { fields, implements },
        TypeKind::Interface => SpecTypeInfo::Interface { fields, implements },
        TypeKind::Union => SpecTypeInfo::Union { members },
        TypeKind::Enum => SpecTypeInfo::Enum { values: members },
        TypeKind::Scalar => SpecTypeInfo::Scalar,
        TypeKind::InputObject => SpecTypeInfo::InputObject,
    }
}

/// What a type becomes when a definition or extension of the same name is applied to it:
/// fields are added (a later one replacing an earlier one of the same name), interfaces,
/// members and values are united; `None` when the kinds differ.
pub open spec fn merged_info_spec(old: SpecTypeInfo, def: TypeDef) -> Option<SpecTypeInfo> {
    let fields = def_fields_map(def.fields@);
    let implements = names_set(def.implements@);
    let members = names_set(def.members@);
    match (def.kind, old) {
        (TypeKind::Object, SpecTypeInfo::Object { fields: f, implements: im }) => Some(
            SpecTypeInfo::Object {
                fields: f.union_prefer_right(fields),
                implements: im.union(implements),
            },
        ),
        (TypeKind::Interface, SpecTypeInfo::Interface { fields: f, implements: im }) => Some(
            SpecTypeInfo::Interface {
                fields: f.union_prefer_right(fields),
                implements: im.union(implements),
            },
        ),
        (TypeKind::Union, SpecTypeInfo::Union { members: m }) => Some(
            SpecTypeInfo::Union { members: m.union(members) },
        ),
        (TypeKind::Enum, SpecTypeInfo::Enum { values: v }) => Some(
            SpecTypeInfo::Enum { values: v.union(members) },
        ),
        (TypeKind::Scalar, SpecTypeInfo::Scalar) => Some(SpecTypeInfo::Scalar),
        (TypeKind::InputObject, SpecTypeInfo::InputObject) => Some(SpecTypeInfo::InputObject),
        _ => None,
    }
}

/// The type map after one type definition or extension, or `None` where the name is already
/// taken by a type of another kind. A definition and an extension of the same kind add the
/// same fields, interfaces, members and values.
pub open spec fn apply_type_def_spec(types: Map<Seq<char>, SpecTypeInfo>, def: TypeDef) -> Option<
    Map<Seq<char>, SpecTypeInfo>,
> {
    let name = def.name@;
    if !types.contains_key(name) {
        Some(types.insert(name, fresh_info_spec(def)))
    } else {
        match merged_info_spec(types[name], def) {
            Some(n) => Some(types.insert(name, n)),
            None => None,
        }
    }
}

/// The word for a definition's kind used in messages.
pub open spec fn def_kind_name(k: TypeKind) -> Seq<char> {
    match k {
        TypeKind::Object => "object"@,
        TypeKind::Interface => "interface"@,
        TypeKind::Union => "union"@,
        TypeKind::Scalar => "scalar"@,
        TypeKind::Enum => "enum"@,
        TypeKind::InputObject => "input object"@,
    }
}

/// The index after one SDL definition, or `None` on a conflicting redeclaration.
pub open spec fn apply_definition_spec(idx: SpecSchemaIndex, d: SchemaDefinition) -> Option<
    SpecSchemaIndex,
> {
    match d {
        SchemaDefinition::Schema { query, mutation, subscription } => Some(
            SpecSchemaIndex {
                query_root: match query {
                    Some(q) => q@,
                    None => idx.query_root,
                },
                mutation_root: match mutation {
                    Some(m) => Some(m@),
                    None => idx.mutation_root,
                },
                subscription_root: match subscription {
                    Some(s) => Some(s@),
                    None => idx.subscription_root,
                },
                types: idx.types,
            },
        ),
        SchemaDefinition::Type(td) => match apply_type_def_spec(idx.types, td) {
            Some(t) => Some(SpecSchemaIndex { types: t, ..idx }),
            None => None,
        },
        SchemaDefinition::Extension(td) => match apply_type_def_spec(idx.types, td) {
            Some(t) => Some(SpecSchemaIndex { types: t, ..idx }),
            None => None,
        },
        SchemaDefinition::Directive => Some(idx),
    }
}

/// The index after a sequence of definitions, in order; `None` as soon as one conflicts.
pub open spec fn apply_definitions_spec(idx: SpecSchemaIndex, defs: Seq<SchemaDefinition>) -> Option<
    SpecSchemaIndex,
>
    decreases defs.len(),
{
    if defs.len() == 0 {
        Some(idx)
    } else {
        match apply_definitions_spec(idx, defs.drop_last()) {
            Some(i) => apply_definition_spec(i, defs.last()),
            None => None,
        }
    }
}

/// The message for a type definition (or, with `extension`, a type extension) whose kind
/// differs from that of the type `old` already registered under its name.
pub open spec fn type_conflict_message(old: SpecTypeInfo, def: TypeDef, extension: bool) -> Seq<char> {
    if extension {
        "type `"@ + def.name@ + "` cannot be extended as "@ + def_kind_name(def.kind)
            + " because it was previously defined as "@ + kind_name(old)
    } else {
        "type `"@ + def.name@ + "` redeclared as "@ + def_kind_name(def.kind) + " but previously defined as "@
            + kind_name(old)
    }
}

/// The message of a definition that conflicts with the index `idx`.
pub open spec fn definition_error(idx: SpecSchemaIndex, d: SchemaDefinition) -> Seq<char> {
    match d {
        SchemaDefinition::Type(td) => type_conflict_message(idx.types[td.name@], td, false),
        SchemaDefinition::Extension(td) => type_conflict_message(idx.types[td.name@], td, true),
        _ => Seq::empty(),
    }
}

/// The message of the first definition of `defs` that conflicts, applied in order from `idx`.
pub open spec fn definitions_error(idx: SpecSchemaIndex, defs: Seq<SchemaDefinition>) -> Seq<char>
    decreases defs.len(),
{
    if defs.len() == 0 {
        Seq::empty()
    } else {
        match apply_definitions_spec(idx, defs.drop_last()) {
            Some(i) => definition_error(i, defs.last()),
            None => definitions_error(idx, defs.drop_last()),
        }
    }
}

/// The message with which indexing the introspection definitions and then the user's fails.
pub open spec fn documents_error(introspection: SchemaDocument, user: Option<SchemaDocument>) -> Seq<char> {
    match apply_definitions_spec(empty_index_spec(), introspection.definitions@) {
        Some(i) => match user {
            Some(u) => definitions_error(i, u.definitions@),
            None => Seq::empty(),
        },
        None => definitions_error(empty_index_spec(), introspection.definitions@),
    }
}

/// The index before any definition: query root `Query`, no other roots, no types.
pub open spec fn empty_index_spec() -> SpecSchemaIndex {
    SpecSchemaIndex {
        query_root: "Query"@,
        mutation_root: None,
        subscription_root: None,
        types: Map::empty(),
    }
}

/// The index of the introspection definitions followed by the user's definitions.
pub open spec fn index_of_documents(introspection: SchemaDocument, user: Option<SchemaDocument>) -> Option<
    SpecSchemaIndex,
> {
    match apply_definitions_spec(empty_index_spec(), introspection.definitions@) {
        Some(i) => match user {
            Some(u) => apply_definitions_spec(i, u.definitions@),
            None => Some(i),
        },
        None => None,
    }
}

fn field_info_from_def(fd: &FieldDef) -> (r: FieldInfo)
    ensures
        r.wf(),
        r@ == def_field_info(*fd),
{
    let mut arguments: Vec<(String, InputValueInfo)> = Vec::new();
    let mut i: usize = 0;
    while i < fd.arguments.len()
        invariant
            i <= fd.arguments@.len(),
            keys_distinct(arguments@),
            assoc_view(arguments@) == def_args_map(fd.arguments@.subrange(0, i as int)),
        decreases fd.arguments.len() - i,
    {
        let a = &fd.arguments[i];
        assoc_upsert(
            &mut arguments,
            a.name.clone(),
            InputValueInfo { type_ref: a.value_type.clone_type(), has_default: a.has_default },
        );
        proof {
            assert(fd.arguments@.subrange(0, i + 1).drop_last() =~= fd.arguments@.subrange(
                0,
                i as int,
            ));
        }
        i += 1;
    }
    proof {
        assert(fd.arguments@.subrange(0, fd.arguments@.len() as int) =~= fd.arguments@);
    }
    FieldInfo { return_type: fd.field_type.clone_type(), arguments }
}

fn add_field_defs(fields: &mut Vec<(String, FieldInfo)>, defs: &Vec<FieldDef>)
    requires
        keys_distinct(old(fields)@),
        forall|i: int| 0 <= i < old(fields)@.len() ==> (#[trigger] old(fields)@[i]).1.wf(),
    ensures
        keys_distinct(final(fields)@),
        forall|i: int| 0 <= i < final(fields)@.len() ==> (#[trigger] final(fields)@[i]).1.wf(),
        assoc_view(final(fields)@) == assoc_view(old(fields)@).union_prefer_right(
            def_fields_map(defs@),
        ),
{
    let mut i: usize = 0;
    while i < defs.len()
        invariant
            i <= defs@.len(),
            keys_distinct(fields@),
            forall|j: int| 0 <= j < fields@.len() ==> (#[trigger] fields@[j]).1.wf(),
            assoc_view(fields@) == assoc_view(old(fields)@).union_prefer_right(
                def_fields_map(defs@.subrange(0, i as int)),
            ),
        decreases defs.len() - i,
    {
        let info = field_info_from_def(&defs[i]);
        let ghost before = fields@;
        assoc_upsert(fields, defs[i].name.clone(), info);
        proof {
            assert(defs@.subrange(0, i + 1).drop_last() =~= defs@.subrange(0, i as int));
            assert(assoc_view(fields@) =~= assoc_view(old(fields)@).union_prefer_right(
                def_fields_map(defs@.subrange(0, i + 1)),
            ));
            lemma_upsert_preserves(before, fields@, defs@[i as int].name, info, |f: FieldInfo| f.wf());
        }
        i += 1;
    }
    proof {
        assert(defs@.subrange(0, defs@.len() as int) =~= defs@);
    }
}


fn def_kind_word(k: TypeKind) -> (r: &'static str)
    ensures
        r@ == def_kind_name(k),
{
    proof {
        reveal_strlit("object");
        reveal_strlit("interface");
        reveal_strlit("union");
        reveal_strlit("scalar");
        reveal_strlit("enum");
        reveal_strlit("input object");
    }
    match k {
        TypeKind::Object => "object",
        TypeKind::Interface => "interface",
        TypeKind::Union => "union",
        TypeKind::Scalar => "scalar",
        TypeKind::Enum => "enum",
        TypeKind::InputObject => "input object",
    }
}

fn composite_from_def(def: &TypeDef) -> (c: CompositeInfo)
    ensures
        c.wf(),
        assoc_view(c.fields@) == def_fields_map(def.fields@),
        c.implements@ == names_set(def.implements@),
{
    let mut fields: Vec<(String, FieldInfo)> = Vec::new();
    add_field_defs(&mut fields, &def.fields);
    let mut implements = NameSet::new();
    implements.extend(&def.implements);
    assert(assoc_view(fields@) =~= def_fields_map(def.fields@));
    assert(implements@ =~= names_set(def.implements@));
    CompositeInfo { fields, implements }
}

fn merge_composite(mut c: CompositeInfo, def: &TypeDef) -> (r: CompositeInfo)
    requires
        c.wf(),
    ensures
        r.wf(),
        assoc_view(r.fields@) == assoc_view(c.fields@).union_prefer_right(def_fields_map(def.fields@)),
        r.implements@ == c.implements@.union(names_set(def.implements@)),
{
    add_field_defs(&mut c.fields, &def.fields);
    c.implements.extend(&def.implements);
    c
}

fn fresh_info(def: &TypeDef) -> (r: TypeInfo)
    ensures
        r.wf(),
        r@ == fresh_info_spec(*def),
{
    match def.kind {
        TypeKind::Object => TypeInfo::Object(composite_from_def(def)),
        TypeKind::Interface => TypeInfo::Interface(composite_from_def(def)),
        TypeKind::Union => {
            let mut m = NameSet::new();
            m.extend(&def.members);
            assert(m@ =~= names_set(def.members@));
            TypeInfo::Union(m)
        },
        TypeKind::Enum => {
            let mut m = NameSet::new();
            m.extend(&def.members);
            assert(m@ =~= names_set(def.members@));
            TypeInfo::Enum(m)
        },
        TypeKind::Scalar => TypeInfo::Scalar,
        TypeKind::InputObject => TypeInfo::InputObject,
    }
}

/// Applies `def` to an existing type; hands the type back unchanged when the kinds differ.
fn merge_info(info: TypeInfo, def: &TypeDef) -> (r: Result<TypeInfo, TypeInfo>)
    requires
        info.wf(),
    ensures
        r matches Ok(n) ==> n.wf() && merged_info_spec(info@, *def) == Some(n@),
        r matches Err(o) ==> o == info && merged_info_spec(info@, *def) is None,
{
    match (def.kind, info) {
        (TypeKind::Object, TypeInfo::Object(c)) => Ok(TypeInfo::Object(merge_composite(c, def))),
        (TypeKind::Interface, TypeInfo::Interface(c)) => Ok(
            TypeInfo::Interface(merge_composite(c, def)),
        ),
        (TypeKind::Union, TypeInfo::Union(mut m)) => {
            m.extend(&def.members);
            Ok(TypeInfo::Union(m))
        },
        (TypeKind::Enum, TypeInfo::Enum(mut m)) => {
            m.extend(&def.members);
            Ok(TypeInfo::Enum(m))
        },
        (TypeKind::Scalar, TypeInfo::Scalar) => Ok(TypeInfo::Scalar),
        (TypeKind::InputObject, TypeInfo::InputObject) => Ok(TypeInfo::InputObject),
        (_, other) => Err(other),
    }
}

impl SchemaIndex {
    pub open spec fn wf(&self) -> bool {
        &&& keys_distinct(self.types@)
        &&& forall|i: int| 0 <= i < self.types@.len() ==> (#[trigger] self.types@[i]).1.wf()
    }

    /// Applies one type definition (or, with `extension`, one type extension).
    fn apply_type_def(&mut self, def: &TypeDef, extension: bool) -> (r: Fallible<()>)
        requires
            old(self).wf(),
        ensures
            final(self).wf(),
            r is Ok <==> apply_type_def_spec(old(self)@.types, *def) is Some,
            r matches Err(e) ==> e@ == seq![type_conflict_message(old(self)@.types[def.name@], *def, extension)],
            r is Err ==> final(self)@ == old(self)@,
            r is Ok ==> final(self)@ == (SpecSchemaIndex {
                types: apply_type_def_spec(old(self)@.types, *def)->Some_0,
                ..old(self)@
            }),
    {
        match assoc_find(&self.types, def.name.as_str()) {
            None => {
                proof {
                    lemma_assoc_dom(self.types@, def.name@);
                }
                let info = fresh_info(def);
                let ghost before = self.types@;
                self.types.push((def.name.clone(), info));
                proof {
                    assert(self.types@.drop_last() =~= before);
                    assert forall|i: int| 0 <= i < self.types@.len() implies (#[trigger] self.types@[i]).1.wf() by {
                        if i < before.len() {
                            assert(self.types@[i] == before[i]);
                        }
                    }
                }
                Ok(())
            },
            Some(i) => {
                proof {
                    lemma_assoc_lookup(self.types@, i as int);
                    lemma_assoc_dom(self.types@, def.name@);
                }
                let ghost before = self.types@;
                let (key, info) = self.types.remove(i);
                assert(info.wf());
                match merge_info(info, def) {
                    Ok(n) => {
                        proof {
                            crate::assoc::lemma_assoc_update(before, i as int, n);
                        }
                        self.types.insert(i, (key, n));
                        proof {
                            assert(self.types@ =~= before.update(i as int, (before[i as int].0, n)));
                            assert forall|j: int| 0 <= j < self.types@.len() implies (#[trigger] self.types@[j]).1.wf() by {
                                if j != i {
                                    assert(self.types@[j] == before[j]);
                                }
                            }
                        }
                        Ok(())
                    },
                    Err(o) => {
                        let old_kind = o.kind();
                        let new_kind = def_kind_word(def.kind);
                        let message = if extension {
                            concat(
                                &[
                                    "type `",
                                    def.name.as_str(),
                                    "` cannot be extended as ",
                                    new_kind,
                                    " because it was previously defined as ",
                                    old_kind,
                                ],
                            )
                        } else {
                            concat(
                                &[
                                    "type `",
                                    def.name.as_str(),
                                    "` redeclared as ",
                                    new_kind,
                                    " but previously defined as ",
                                    old_kind,
                                ],
                            )
                        };
                        self.types.insert(i, (key, o));
                        proof {
                            assert(self.types@ =~= before);
                            assert(before[i as int].1@ == old(self)@.types[def.name@]);
                            reveal_with_fuel(concat_spec, 7);
                            assert(message@ == type_conflict_message(old(self)@.types[def.name@], *def, extension));
                        }
                        Err(Error::msg(message))
                    },
                }
            },
        }
    }
}


impl SchemaIndex {
    /// The index before any definition: query root `Query`, nothing else.
    pub fn empty() -> (r: SchemaIndex)
        ensures
            r.wf(),
            r@ == empty_index_spec(),
    {
        let r = SchemaIndex {
            query_root: String::from_str("Query"),
            mutation_root: None,
            subscription_root: None,
            types: Vec::new(),
        };
        proof {
            reveal_strlit("Query");
            assert(r@.types =~= Map::<Seq<char>, SpecTypeInfo>::empty());
        }
        r
    }

    fn apply_definition(&mut self, d: &SchemaDefinition) -> (r: Fallible<()>)
        requires
            old(self).wf(),
        ensures
            final(self).wf(),
            r is Ok <==> apply_definition_spec(old(self)@, *d) is Some,
            r matches Err(e) ==> e@ == seq![definition_error(old(self)@, *d)],
            r is Err ==> final(self)@ == old(self)@,
            r is Ok ==> final(self)@ == apply_definition_spec(old(self)@, *d)->Some_0,
    {
        match d {
            SchemaDefinition::Schema { query, mutation, subscription } => {
                if let Some(q) = query {
                    self.query_root = q.clone();
                }
                if let Some(m) = mutation {
                    self.mutation_root = Some(m.clone());
                }
                if let Some(sub) = subscription {
                    self.subscription_root = Some(sub.clone());
                }
                Ok(())
            },
            SchemaDefinition::Type(td) => self.apply_type_def(td, false),
            SchemaDefinition::Extension(td) => self.apply_type_def(td, true),
            SchemaDefinition::Directive => Ok(()),
        }
    }

    /// Registers every definition of `document`, in order, stopping at the first conflict.
    pub fn register_document(&mut self, document: &SchemaDocument) -> (r: Fallible<()>)
        requires
            old(self).wf(),
        ensures
            final(self).wf(),
            r is Ok <==> apply_definitions_spec(old(self)@, document.definitions@) is Some,
            r matches Err(e) ==> e@ == seq![definitions_error(old(self)@, document.definitions@)],
            r is Err ==> exists|k: int|
                0 <= k < document.definitions@.len() && apply_definitions_spec(
                    old(self)@,
                    document.definitions@.subrange(0, k),
                ) == Some(final(self)@) && apply_definition_spec(final(self)@, document.definitions@[k]) is None,
            r is Ok ==> final(self)@ == apply_definitions_spec(old(self)@, document.definitions@)->Some_0,
    {
        let ghost start = self@;
        let mut i: usize = 0;
        while i < document.definitions.len()
            invariant
                i <= document.definitions@.len(),
                start == old(self)@,
                self.wf(),
                apply_definitions_spec(start, document.definitions@.subrange(0, i as int)) == Some(self@),
            decreases document.definitions.len() - i,
        {
            let ghost before = self@;
            let res = self.apply_definition(&document.definitions[i]);
            proof {
                assert(document.definitions@.subrange(0, i + 1).drop_last() =~= document.definitions@.subrange(0, i as int));
            }
            match res {
                Ok(()) => {},
                Err(e) => {
                    proof {
                        assert(document.definitions@.subrange(0, i + 1).last() == document.definitions@[i as int]);
                        assert(apply_definitions_spec(start, document.definitions@.subrange(0, i + 1)) is None);
                        assert(definitions_error(start, document.definitions@.subrange(0, i + 1)) == definition_error(
                            before,
                            document.definitions@[i as int],
                        ));
                        lemma_definitions_stay_failed(start, document.definitions@, i as int + 1);
                        assert(apply_definitions_spec(start, document.definitions@.subrange(0, i as int)) == Some(self@));
                    }
                    return Err(e);
                },
            }
            i += 1;
        }
        proof {
            assert(document.definitions@.subrange(0, document.definitions@.len() as int) =~= document.definitions@);
        }
        Ok(())
    }

    /// The index of the introspection definitions followed by the user's SDL definitions
    /// (when there are any).
    pub fn from_documents(introspection: &SchemaDocument, user: Option<&SchemaDocument>) -> (r: Fallible<SchemaIndex>)
        ensures
            r is Ok <==> index_of_documents(*introspection, match user { Some(u) => Some(*u), None => None }) is Some,
            r matches Err(e) ==> e@ == seq![documents_error(*introspection, match user { Some(u) => Some(*u), None => None })],
            r matches Ok(idx) ==> idx.wf() && Some(idx@) == index_of_documents(*introspection, match user { Some(u) => Some(*u), None => None }),
    {
        let mut index = SchemaIndex::empty();
        index.register_document(introspection)?;
        match user {
            Some(u) => {
                index.register_document(u)?;
            },
            None => {},
        }
        Ok(index)
    }
}

/// The index of a schema text: the introspection definitions, then, unless the text is blank,
/// the text's own definitions. A text that is not SDL fails with the parser's message under
/// "failed to parse GraphQL schema SDL"; a conflicting definition with its message. The
/// introspection text itself always reads; should it not, that is the failure.
pub open spec fn from_sdl_spec(sdl: Seq<char>) -> Result<SpecSchemaIndex, Seq<Seq<char>>> {
    match schema_reading(INTROSPECTION_SDL@) {
        Err(m) => Err(seq!["introspection SDL must parse"@, m]),
        Ok(intro) => if blank(sdl) {
            match index_of_documents(intro, None) {
                Some(i) => Ok(i),
                None => Err(seq![documents_error(intro, None)]),
            }
        } else {
            match schema_reading(sdl) {
                Err(m) => Err(seq!["failed to parse GraphQL schema SDL"@, m]),
                Ok(user) => match index_of_documents(intro, Some(user)) {
                    Some(i) => Ok(i),
                    None => Err(seq![documents_error(intro, Some(user))]),
                },
            }
        },
    }
}

impl SchemaIndex {
    /// The index of a schema text (see `from_sdl_spec`).
    pub fn from_sdl(sdl: &str) -> (r: Fallible<SchemaIndex>)
        ensures
            match from_sdl_spec(sdl@) {
                Ok(i) => r matches Ok(x) && x.wf() && x@ == i,
                Err(m) => r matches Err(e) && e@ == m,
            },
    {
        let introspection = match read_schema(INTROSPECTION_SDL) {
            Ok(d) => d,
            Err(m) => {
                return Err(Error::msg(m).context(String::from_str("introspection SDL must parse")));
            },
        };
        if is_blank(sdl) {
            return SchemaIndex::from_documents(&introspection, None);
        }
        let user = match read_schema(sdl) {
            Ok(d) => d,
            Err(m) => {
                return Err(Error::msg(m).context(String::from_str("failed to parse GraphQL schema SDL")));
            },
        };
        SchemaIndex::from_documents(&introspection, Some(&user))
    }
}

/// Once a prefix of the definitions conflicts, every longer prefix does too.
proof fn lemma_definitions_stay_failed(start: SpecSchemaIndex, defs: Seq<SchemaDefinition>, k: int)
    requires
        0 < k <= defs.len(),
        apply_definitions_spec(start, defs.subrange(0, k)) is None,
    ensures
        apply_definitions_spec(start, defs) is None,
        definitions_error(start, defs) == definitions_error(start, defs.subrange(0, k)),
    decreases defs.len() - k,
{
    if k == defs.len() {
        assert(defs.subrange(0, k) =~= defs);
    } else {
        assert(defs.subrange(0, k + 1).drop_last() =~= defs.subrange(0, k));
        lemma_definitions_stay_failed(start, defs, k + 1);
    }
}


/// The interfaces a type name directly implements, when it names an interface.
pub open spec fn interface_parents(types: Map<Seq<char>, SpecTypeInfo>, x: Seq<char>) -> Set<Seq<char>> {
    if types.contains_key(x) {
        match types[x] {
            SpecTypeInfo::Interface { implements, .. } => implements,
            _ => Set::empty(),
        }
    } else {
        Set::empty()
    }
}

/// `s` together with every interface directly implemented by an interface in `s`.
pub open spec fn implements_step(types: Map<Seq<char>, SpecTypeInfo>, s: Set<Seq<char>>) -> Set<Seq<char>> {
    s.union(Set::new(|p: Seq<char>| exists|x: Seq<char>| s.contains(x) && #[trigger] interface_parents(types, x).contains(p)))
}

/// The interfaces reachable from `s` in at most `k` steps up the `implements` relation.
pub open spec fn implements_closure(types: Map<Seq<char>, SpecTypeInfo>, s: Set<Seq<char>>, k: nat) -> Set<Seq<char>>
    decreases k,
{
    if k == 0 {
        s
    } else {
        implements_step(types, implements_closure(types, s, (k - 1) as nat))
    }
}

/// How many steps up the `implements` relation are followed: one more than the number of
/// types, which no acyclic path can exceed.
pub open spec fn closure_steps_of(types: Map<Seq<char>, SpecTypeInfo>) -> nat {
    (types.dom().len() + 1) as nat
}

/// Whether a type implementing `direct` implements `target` in the schema `idx`, directly or
/// through the interfaces those interfaces implement.
pub open spec fn implements_in(idx: SpecSchemaIndex, direct: Set<Seq<char>>, target: Seq<char>) -> bool {
    implements_closure(idx.types, direct, closure_steps_of(idx.types)).contains(target)
}

/// The object types a composite or union type of `idx` can be at run time; `None` when the
/// type does not exist.
pub open spec fn runtime_types_in(idx: SpecSchemaIndex, name: Seq<char>) -> Option<Set<Seq<char>>> {
    if !idx.types.contains_key(name) {
        None
    } else {
        match idx.types[name] {
            SpecTypeInfo::Object { .. } => Some(set![name]),
            SpecTypeInfo::Interface { .. } => Some(Set::new(|o: Seq<char>| idx.types.contains_key(o) && match idx.types[o] {
                SpecTypeInfo::Object { implements, .. } => implements_in(idx, implements, name),
                _ => false,
            })),
            SpecTypeInfo::Union { members } => Some(members),
            _ => Some(Set::empty()),
        }
    }
}

impl SchemaIndex {
    /// Whether a type implementing `direct` implements `target`, directly or through the
    /// interfaces those interfaces implement.
    pub open spec fn implements_spec(&self, direct: Set<Seq<char>>, target: Seq<char>) -> bool {
        implements_in(self@, direct, target)
    }

    /// The object types a composite or union type can be at run time; `None` when the type
    /// does not exist.
    pub open spec fn runtime_types_spec(&self, name: Seq<char>) -> Option<Set<Seq<char>>> {
        runtime_types_in(self@, name)
    }

    /// The root type of an operation kind.
    pub fn root_type(&self, kind: OperationKind) -> (r: Option<&str>)
        ensures
            r matches Some(n) ==> Some(n@) == root_type_spec(self@, kind),
            r is None ==> root_type_spec(self@, kind) is None,
    {
        match kind {
            OperationKind::Query => Some(self.query_root.as_str()),
            OperationKind::Mutation => match &self.mutation_root {
                Some(m) => Some(m.as_str()),
                None => None,
            },
            OperationKind::Subscription => match &self.subscription_root {
                Some(m) => Some(m.as_str()),
                None => None,
            },
        }
    }

    /// What the schema says of the type `name`.
    pub fn type_info(&self, name: &str) -> (r: Option<&TypeInfo>)
        requires
            self.wf(),
        ensures
            r matches Some(t) ==> self@.types.contains_key(name@) && t@ == self@.types[name@] && t.wf(),
            r is None ==> !self@.types.contains_key(name@),
    {
        match assoc_find(&self.types, name) {
            Some(i) => {
                proof {
                    lemma_assoc_lookup(self.types@, i as int);
                }
                Some(&self.types[i].1)
            },
            None => {
                proof {
                    lemma_assoc_dom(self.types@, name@);
                }
                None
            },
        }
    }

    /// An object, interface or union type.
    pub fn is_composite_type(&self, name: &str) -> (r: bool)
        requires
            self.wf(),
        ensures
            r == is_composite_spec(self@, name@),
    {
        match self.type_info(name) {
            Some(TypeInfo::Object(_)) | Some(TypeInfo::Interface(_)) | Some(TypeInfo::Union(_)) => true,
            _ => false,
        }
    }

    pub fn is_union_type(&self, name: &str) -> (r: bool)
        requires
            self.wf(),
        ensures
            r == (self@.types.contains_key(name@) && self@.types[name@] is Union),
    {
        match self.type_info(name) {
            Some(TypeInfo::Union(_)) => true,
            _ => false,
        }
    }

    pub fn is_query_root(&self, name: &str) -> (r: bool)
        ensures
            r == (self@.query_root == name@),
    {
        crate::text::str_eq(self.query_root.as_str(), name)
    }

    /// Fails with "type `name` not found in schema" when there is no such type.
    pub fn ensure_type_exists(&self, name: &str) -> (r: Fallible<()>)
        requires
            self.wf(),
        ensures
            r is Ok <==> self@.types.contains_key(name@),
            r matches Err(e) ==> e@ == seq![type_missing_message(name@)],
    {
        match self.type_info(name) {
            Some(_) => Ok(()),
            None => Err(Error::msg(cat3("type `", name, "` not found in schema"))),
        }
    }

    /// The field `name` of an object or interface type.
    pub fn field<'a>(&'a self, parent: &'a TypeInfo, name: &str) -> (r: Option<&'a FieldInfo>)
        requires
            parent.wf(),
        ensures
            r matches Some(f) ==> f.wf() && field_of_spec(parent@, name@) == Some(f@),
            r is None ==> field_of_spec(parent@, name@) is None,
    {
        match parent {
            TypeInfo::Object(c) => c.get(name),
            TypeInfo::Interface(c) => c.get(name),
            _ => None,
        }
    }

    /// The values of the enum `name`; `None` when `name` is not an enum.
    pub fn enum_values(&self, name: &str) -> (r: Option<&NameSet>)
        requires
            self.wf(),
        ensures
            r matches Some(v) ==> v.wf() && self@.types.contains_key(name@) && self@.types[name@] == (SpecTypeInfo::Enum { values: v@ }),
            r is None ==> !(self@.types.contains_key(name@) && self@.types[name@] is Enum),
    {
        match self.type_info(name) {
            Some(TypeInfo::Enum(v)) => Some(v),
            _ => None,
        }
    }

    pub fn is_enum(&self, name: &str) -> (r: bool)
        requires
            self.wf(),
        ensures
            r == (self@.types.contains_key(name@) && self@.types[name@] is Enum),
    {
        match self.type_info(name) {
            Some(TypeInfo::Enum(_)) => true,
            _ => false,
        }
    }

    pub fn is_scalar(&self, name: &str) -> (r: bool)
        requires
            self.wf(),
        ensures
            r == (self@.types.contains_key(name@) && self@.types[name@] is Scalar),
    {
        match self.type_info(name) {
            Some(TypeInfo::Scalar) => true,
            _ => false,
        }
    }

    /// The declared type of field `field` of type `parent`.
    pub fn field_return_type(&self, parent: &str, field: &str) -> (r: Option<&TypeRef>)
        requires
            self.wf(),
        ensures
            r matches Some(t) ==> field_type_spec(self@, parent@, field@) == Some(t@),
            r is None ==> field_type_spec(self@, parent@, field@) is None,
    {
        let info = self.type_info(parent)?;
        match self.field(info, field) {
            Some(f) => Some(&f.return_type),
            None => None,
        }
    }
}

/// The root type of an operation kind, if the schema has one.
pub open spec fn root_type_spec(idx: SpecSchemaIndex, kind: OperationKind) -> Option<Seq<char>> {
    match kind {
        OperationKind::Query => Some(idx.query_root),
        OperationKind::Mutation => idx.mutation_root,
        OperationKind::Subscription => idx.subscription_root,
    }
}

/// `name` is an object, interface or union type.
pub open spec fn is_composite_spec(idx: SpecSchemaIndex, name: Seq<char>) -> bool {
    idx.types.contains_key(name) && match idx.types[name] {
        SpecTypeInfo::Object { .. } | SpecTypeInfo::Interface { .. } | SpecTypeInfo::Union { .. } => true,
        _ => false,
    }
}

/// The field `name` of an object or interface type.
pub open spec fn field_of_spec(t: SpecTypeInfo, name: Seq<char>) -> Option<SpecFieldInfo> {
    match t {
        SpecTypeInfo::Object { fields, .. } | SpecTypeInfo::Interface { fields, .. } => if fields.contains_key(name) {
            Some(fields[name])
        } else {
            None
        },
        _ => None,
    }
}

/// The declared type of `field` on the type `parent`.
pub open spec fn field_type_spec(idx: SpecSchemaIndex, parent: Seq<char>, field: Seq<char>) -> Option<SpecTypeRef> {
    if idx.types.contains_key(parent) {
        match field_of_spec(idx.types[parent], field) {
            Some(f) => Some(f.return_type),
            None => None,
        }
    } else {
        None
    }
}


/// Every interface directly implemented by an interface among `xs`.
pub open spec fn parents_of_seq(types: Map<Seq<char>, SpecTypeInfo>, xs: Seq<Seq<char>>) -> Set<Seq<char>> {
    Set::new(|p: Seq<char>| exists|x: Seq<char>| xs.contains(x) && #[trigger] interface_parents(types, x).contains(p))
}

impl SchemaIndex {
    fn implements_step_exec(&self, s: &NameSet) -> (r: NameSet)
        requires
            self.wf(),
            s.wf(),
        ensures
            r.wf(),
            r@ == implements_step(self@.types, s@),
    {
        let mut r = s.clone_set();
        let names = &s.names;
        let mut j: usize = 0;
        while j < names.len()
            invariant
                self.wf(),
                r.wf(),
                j <= names@.len(),
                r@ == s@.union(parents_of_seq(self@.types, names_view(names@).subrange(0, j as int))),
            decreases names.len() - j,
        {
            let ghost before = r@;
            let info = self.type_info(names[j].as_str());
            match info {
                Some(TypeInfo::Interface(c)) => {
                    r.union_with(&c.implements);
                },
                _ => {},
            }
            proof {
                let pre = names_view(names@).subrange(0, j as int);
                let post = names_view(names@).subrange(0, j + 1);
                let x = names@[j as int]@;
                assert(post =~= pre.push(x));
                assert forall|p: Seq<char>| parents_of_seq(self@.types, post).contains(p) <==> (parents_of_seq(self@.types, pre).contains(p) || interface_parents(self@.types, x).contains(p)) by {
                    if parents_of_seq(self@.types, post).contains(p) {
                        let y = choose|y: Seq<char>| post.contains(y) && #[trigger] interface_parents(self@.types, y).contains(p);
                        if y != x {
                            let k = choose|k: int| 0 <= k < post.len() && post[k] == y;
                            assert(pre[k] == y);
                            assert(pre.contains(y));
                        }
                    }
                    if interface_parents(self@.types, x).contains(p) {
                        assert(post[j as int] == x);
                        assert(post.contains(x));
                    }
                    if parents_of_seq(self@.types, pre).contains(p) {
                        let y = choose|y: Seq<char>| pre.contains(y) && #[trigger] interface_parents(self@.types, y).contains(p);
                        let k = choose|k: int| 0 <= k < pre.len() && pre[k] == y;
                        assert(post[k] == y);
                        assert(post.contains(y));
                    }
                }
                assert(r@ =~= s@.union(parents_of_seq(self@.types, post)));
            }
            j += 1;
        }
        proof {
            assert(names_view(names@).subrange(0, names@.len() as int) =~= names_view(names@));
            assert(parents_of_seq(self@.types, names_view(names@)) =~= Set::new(|p: Seq<char>| exists|x: Seq<char>| s@.contains(x) && #[trigger] interface_parents(self@.types, x).contains(p)));
        }
        r
    }

    /// Whether an object that directly implements `direct` implements `target`, following the
    /// interfaces that interfaces implement.
    pub fn object_implements_interface(&self, direct: &NameSet, target: &str) -> (r: bool)
        requires
            self.wf(),
            direct.wf(),
        ensures
            r == self.implements_spec(direct@, target@),
    {
        proof {
            crate::assoc::lemma_assoc_len(self.types@);
        }
        let mut reached = self.implements_step_exec(direct);
        assert(implements_closure(self@.types, direct@, 1) == implements_step(self@.types, implements_closure(self@.types, direct@, 0)));
        let n = self.types.len();
        let mut k: usize = 0;
        while k < n
            invariant
                self.wf(),
                reached.wf(),
                n == self.types@.len(),
                k <= n,
                reached@ == implements_closure(self@.types, direct@, (k + 1) as nat),
            decreases n - k,
        {
            reached = self.implements_step_exec(&reached);
            assert(implements_closure(self@.types, direct@, (k + 2) as nat) == implements_step(self@.types, implements_closure(self@.types, direct@, (k + 1) as nat)));
            k += 1;
        }
        reached.contains(target)
    }

    /// The object types implementing the interface `interface`.
    fn interface_runtime_types(&self, interface: &str) -> (r: NameSet)
        requires
            self.wf(),
            self@.types.contains_key(interface@),
            self@.types[interface@] is Interface,
        ensures
            r.wf(),
            Some(r@) == self.runtime_types_spec(interface@),
    {
        let mut r = NameSet::new();
        let mut i: usize = 0;
        while i < self.types.len()
            invariant
                self.wf(),
                r.wf(),
                i <= self.types@.len(),
                forall|o: Seq<char>| r@.contains(o) <==> (exists|k: int| 0 <= k < i && #[trigger] self.types@[k].0@ == o && match self.types@[k].1@ {
                    SpecTypeInfo::Object { implements, .. } => self.implements_spec(implements, interface@),
                    _ => false,
                }),
            decreases self.types.len() - i,
        {
            match &self.types[i].1 {
                TypeInfo::Object(c) => {
                    assert(self.types@[i as int].1.wf());
                    if self.object_implements_interface(&c.implements, interface) {
                        r.insert(self.types[i].0.clone());
                    }
                },
                _ => {},
            }
            i += 1;
        }
        proof {
            let expected = self.runtime_types_spec(interface@)->Some_0;
            assert forall|o: Seq<char>| r@.contains(o) <==> expected.contains(o) by {
                if r@.contains(o) {
                    let k = choose|k: int| 0 <= k < self.types@.len() && #[trigger] self.types@[k].0@ == o && match self.types@[k].1@ {
                        SpecTypeInfo::Object { implements, .. } => self.implements_spec(implements, interface@),
                        _ => false,
                    };
                    lemma_assoc_lookup(self.types@, k);
                }
                if expected.contains(o) {
                    lemma_assoc_dom(self.types@, o);
                    let k = choose|k: int| 0 <= k < self.types@.len() && self.types@[k].0@ == o;
                    lemma_assoc_lookup(self.types@, k);
                }
            }
            assert(r@ =~= expected);
        }
        r
    }

    /// The object types `name` can be at run time; fails when there is no such type.
    pub fn runtime_types(&self, name: &str) -> (r: Fallible<NameSet>)
        requires
            self.wf(),
        ensures
            r is Err <==> self.runtime_types_spec(name@) is None,
            r matches Ok(set) ==> set.wf() && Some(set@) == self.runtime_types_spec(name@),
            r matches Err(e) ==> e@ == seq![type_missing_message(name@)],
    {
        match self.type_info(name) {
            Some(TypeInfo::Object(_)) => {
                let mut r = NameSet::new();
                r.insert(name.to_owned());
                assert(r@ =~= set![name@]);
                Ok(r)
            },
            Some(TypeInfo::Interface(_)) => Ok(self.interface_runtime_types(name)),
            Some(TypeInfo::Union(members)) => Ok(members.clone_set()),
            Some(_) => Ok(NameSet::new()),
            None => Err(Error::msg(cat3("type `", name, "` not found in schema"))),
        }
    }

    /// A fragment on `condition` may be spread where `parent` is expected when both can be
    /// some object type at run time, and some object type can be both.
    pub fn ensure_fragment_applicable(&self, parent: &str, condition: &str) -> (r: Fallible<()>)
        requires
            self.wf(),
        ensures
            r is Ok <==> fragment_applicable_spec(self@, parent@, condition@),
            match fragment_applicable_result(self@, parent@, condition@) {
                Ok(_) => r is Ok,
                Err(m) => r matches Err(e) && e@ == seq![m],
            },
    {
        let parent_runtime = self.runtime_types(parent)?;
        if parent_runtime.len() == 0 {
            return Err(Error::msg(cat3("type `", parent, "` cannot accept fragment spreads because it has no runtime types")));
        }
        let condition_runtime = self.runtime_types(condition)?;
        if condition_runtime.len() == 0 {
            return Err(Error::msg(cat3("type condition `", condition, "` is not valid for fragment spreads in this schema")));
        }
        let mut i: usize = 0;
        while i < parent_runtime.names.len()
            invariant
                parent_runtime.wf(),
                condition_runtime.wf(),
                Some(parent_runtime@) == self.runtime_types_spec(parent@),
                Some(condition_runtime@) == self.runtime_types_spec(condition@),
                parent_runtime@.len() > 0,
                condition_runtime@.len() > 0,
                i <= parent_runtime.names@.len(),
                forall|k: int| 0 <= k < i ==> !condition_runtime@.contains(#[trigger] parent_runtime.names@[k]@),
            decreases parent_runtime.names.len() - i,
        {
            if condition_runtime.contains(parent_runtime.names[i].as_str()) {
                proof {
                    assert(names_view(parent_runtime.names@)[i as int] == parent_runtime.names@[i as int]@);
                    assert(parent_runtime@.contains(parent_runtime.names@[i as int]@));
                    let x = parent_runtime.names@[i as int]@;
                    assert(parent_runtime@.intersect(condition_runtime@).contains(x));
                    let p = self.runtime_types_spec(parent@)->Some_0;
                    let c = self.runtime_types_spec(condition@)->Some_0;
                    assert(p == parent_runtime@);
                    assert(c == condition_runtime@);
                    assert(p.intersect(c).contains(x));
                }
                return Ok(());
            }
            i += 1;
        }
        proof {
            assert forall|x: Seq<char>| !parent_runtime@.intersect(condition_runtime@).contains(x) by {
                if parent_runtime@.contains(x) {
                    let k = choose|k: int| 0 <= k < names_view(parent_runtime.names@).len() && names_view(parent_runtime.names@)[k] == x;
                    assert(parent_runtime.names@[k]@ == x);
                }
            }
        }
        Err(Error::msg(cat5("fragment type `", condition, "` is incompatible with parent type `", parent, "`")))
    }
}

/// A fragment on `condition` may be spread within `parent`: both types exist, each can be
/// some object type at run time, and some object type can be both.
pub open spec fn fragment_applicable_spec(idx: SpecSchemaIndex, parent: Seq<char>, condition: Seq<char>) -> bool {
    match (runtime_types_in(idx, parent), runtime_types_in(idx, condition)) {
        (Some(p), Some(c)) => p.len() > 0 && c.len() > 0 && exists|x: Seq<char>| p.intersect(c).contains(x),
        _ => false,
    }
}

/// The message for a type the schema does not define.
pub open spec fn type_missing_message(name: Seq<char>) -> Seq<char> {
    "type `"@ + name + "` not found in schema"@
}

/// The outcome of `ensure_fragment_applicable`, with the message of each refusal.
pub open spec fn fragment_applicable_result(idx: SpecSchemaIndex, parent: Seq<char>, condition: Seq<char>) -> Result<(), Seq<char>> {
    match runtime_types_in(idx, parent) {
        None => Err(type_missing_message(parent)),
        Some(p) => if p.len() == 0 {
            Err("type `"@ + parent + "` cannot accept fragment spreads because it has no runtime types"@)
        } else {
            match runtime_types_in(idx, condition) {
                None => Err(type_missing_message(condition)),
                Some(c) => if c.len() == 0 {
                    Err("type condition `"@ + condition + "` is not valid for fragment spreads in this schema"@)
                } else if exists|x: Seq<char>| p.intersect(c).contains(x) {
                    Ok(())
                } else {
                    Err("fragment type `"@ + condition + "` is incompatible with parent type `"@ + parent + "`"@)
                },
            }
        },
    }
}

} // verus!
