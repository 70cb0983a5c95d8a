//! The GraphQL syntax tree the library works on: query documents and schema
//! definitions, with their mathematical models.
use vstd::prelude::*;

verus! {

broadcast use vstd::std_specs::vec::group_vec_axioms;

/// A type reference: `Name`, `[T]` or `T!`.
pub enum TypeRef {
    Named(String),
    List(Box<TypeRef>),
    NonNull(Box<TypeRef>),
}

/// Model of a `TypeRef`.
pub enum SpecTypeRef {
    Named(Seq<char>),
    List(Box<SpecTypeRef>),
    NonNull(Box<SpecTypeRef>),
}

pub open spec fn type_ref_view(t: TypeRef) -> SpecTypeRef
    decreases t,
{
    match t {
        TypeRef::Named(n) => SpecTypeRef::Named(n@),
        TypeRef::List(inner) => SpecTypeRef::List(Box::new(type_ref_view(*inner))),
        TypeRef::NonNull(inner) => SpecTypeRef::NonNull(Box::new(type_ref_view(*inner))),
    }
}

impl View for TypeRef {
    type V = SpecTypeRef;

    open spec fn view(&self) -> SpecTypeRef {
        type_ref_view(*self)
    }
}

/// A literal value in a query document. Numbers keep the digits that were written:
/// an integer as its value, a float as its source text.
pub enum GqlValue {
    Variable(String),
    Int(i64),
    Float(String),
    Str(String),
    Boolean(bool),
    Null,
    Enum(String),
    List(Vec<GqlValue>),
    Object(Vec<(String, GqlValue)>),
}

/// Model of a `GqlValue`.
pub enum SpecValue {
    Variable(Seq<char>),
    Int(int),
    Float(Seq<char>),
    Str(Seq<char>),
    Boolean(bool),
    Null,
    Enum(Seq<char>),
    List(Seq<SpecValue>),
    Object(Seq<(Seq<char>, SpecValue)>),
}

pub open spec fn value_view(v: GqlValue) -> SpecValue
    decreases v,
{
    match v {
        GqlValue::Variable(n) => SpecValue::Variable(n@),
        GqlValue::Int(i) => SpecValue::Int(i as int),
        GqlValue::Float(t) => SpecValue::Float(t@),
        GqlValue::Str(s) => SpecValue::Str(s@),
        GqlValue::Boolean(b) => SpecValue::Boolean(b),
        GqlValue::Null => SpecValue::Null,
        GqlValue::Enum(n) => SpecValue::Enum(n@),
        GqlValue::List(items) => SpecValue::List(values_view(items@)),
        GqlValue::Object(entries) => SpecValue::Object(entries_view(entries@)),
    }
}

pub open spec fn values_view(items: Seq<GqlValue>) -> Seq<SpecValue>
    decreases items,
{
    Seq::new(items.len(), |i: int| if 0 <= i < items.len() { value_view(items[i]) } else { SpecValue::Null })
}

pub open spec fn entries_view(entries: Seq<(String, GqlValue)>) -> Seq<(Seq<char>, SpecValue)>
    decreases entries,
{
    Seq::new(
        entries.len(),
        |i: int|
            if 0 <= i < entries.len() {
                (entries[i].0@, value_view(entries[i].1))
            } else {
                (Seq::empty(), SpecValue::Null)
            },
    )
}

impl View for GqlValue {
    type V = SpecValue;

    open spec fn view(&self) -> SpecValue {
        value_view(*self)
    }
}


pub open spec fn opt_str_view(o: Option<String>) -> Option<Seq<char>> {
    match o {
        Some(s) => Some(s@),
        None => None,
    }
}

impl GqlValue {
    /// A deep copy of this value.
    pub fn clone_value(&self) -> (r: GqlValue)
        ensures
            r@ == self@,
        decreases *self,
    {
        match self {
            GqlValue::Variable(n) => GqlValue::Variable(n.clone()),
            GqlValue::Int(i) => GqlValue::Int(*i),
            GqlValue::Float(t) => GqlValue::Float(t.clone()),
            GqlValue::Str(t) => GqlValue::Str(t.clone()),
            GqlValue::Boolean(b) => GqlValue::Boolean(*b),
            GqlValue::Null => GqlValue::Null,
            GqlValue::Enum(n) => GqlValue::Enum(n.clone()),
            GqlValue::List(items) => {
                let r = clone_values(items);
                GqlValue::List(r)
            },
            GqlValue::Object(entries) => {
                let r = clone_entries(entries);
                GqlValue::Object(r)
            },
        }
    }
}

/// A deep copy of a list of values.
pub fn clone_values(items: &Vec<GqlValue>) -> (r: Vec<GqlValue>)
    ensures
        values_view(r@) == values_view(items@),
    decreases *items,
{
    let mut r: Vec<GqlValue> = Vec::new();
    let mut i: usize = 0;
    while i < items.len()
        invariant
            i <= items.len(),
            r.len() == i,
            forall|j: int| 0 <= j < i ==> #[trigger] value_view(r@[j]) == value_view(items@[j]),
        decreases items.len() - i,
    {
        proof {
            assert(decreases_to!(*items => items[i as int]));
        }
        let v = items[i].clone_value();
        r.push(v);
        i += 1;
    }
    assert forall|j: int| 0 <= j < r@.len() implies values_view(r@)[j] == values_view(items@)[j] by {
        assert(value_view(r@[j]) == value_view(items@[j]));
    }
    assert(values_view(r@) =~= values_view(items@));
    r
}

/// A deep copy of a list of (name, value) entries.
pub fn clone_entries(entries: &Vec<(String, GqlValue)>) -> (r: Vec<(String, GqlValue)>)
    ensures
        entries_view(r@) == entries_view(entries@),
    decreases *entries,
{
    let mut r: Vec<(String, GqlValue)> = Vec::new();
    let mut i: usize = 0;
    while i < entries.len()
        invariant
            i <= entries.len(),
            r.len() == i,
            forall|j: int|
                0 <= j < i ==> #[trigger] r@[j].0@ == entries@[j].0@ && value_view(r@[j].1)
                    == value_view(entries@[j].1),
        decreases entries.len() - i,
    {
        proof {
            assert(decreases_to!(*entries => entries[i as int]));
        }
        let v = entries[i].1.clone_value();
        r.push((entries[i].0.clone(), v));
        i += 1;
    }
    assert(entries_view(r@) =~= entries_view(entries@));
    r
}

/// The named type at the core of a type reference.
pub open spec fn innermost_named_spec(t: SpecTypeRef) -> Seq<char>
    decreases t,
{
    match t {
        SpecTypeRef::Named(n) => n,
        SpecTypeRef::List(inner) => innermost_named_spec(*inner),
        SpecTypeRef::NonNull(inner) => innermost_named_spec(*inner),
    }
}

/// `t` without one outer `NonNull`.
pub open spec fn unwrap_non_null_spec(t: SpecTypeRef) -> SpecTypeRef {
    match t {
        SpecTypeRef::NonNull(inner) => *inner,
        other => other,
    }
}

/// The item type of a list type, ignoring an outer `NonNull`.
pub open spec fn list_item_spec(t: SpecTypeRef) -> Option<SpecTypeRef> {
    match unwrap_non_null_spec(t) {
        SpecTypeRef::List(inner) => Some(*inner),
        _ => None,
    }
}

impl TypeRef {
    /// The named type inside any list and non-null wrappers.
    pub fn innermost_named(&self) -> (r: Option<&str>)
        ensures
            r matches Some(n) && n@ == innermost_named_spec(self@),
        decreases self,
    {
        match self {
            TypeRef::Named(name) => Some(name.as_str()),
            TypeRef::List(inner) => inner.innermost_named(),
            TypeRef::NonNull(inner) => inner.innermost_named(),
        }
    }

    pub fn is_non_null(&self) -> (r: bool)
        ensures
            r == (self@ is NonNull),
    {
        match self {
            TypeRef::NonNull(_) => true,
            _ => false,
        }
    }

    /// Strips a single `NonNull` wrapper, if present.
    pub fn unwrap_non_null(&self) -> (r: &TypeRef)
        ensures
            r@ == unwrap_non_null_spec(self@),
    {
        match self {
            TypeRef::NonNull(inner) => inner,
            other => other,
        }
    }

    /// Returns the item type when this is a list, ignoring any outer `NonNull`.
    pub fn as_list_item(&self) -> (r: Option<&TypeRef>)
        ensures
            r matches Some(i) ==> list_item_spec(self@) == Some(i@),
            r is None ==> list_item_spec(self@) is None,
    {
        match self.unwrap_non_null() {
            TypeRef::List(inner) => Some(inner),
            _ => None,
        }
    }

    /// A deep copy of this type reference.
    pub fn clone_type(&self) -> (r: TypeRef)
        ensures
            r@ == self@,
        decreases *self,
    {
        match self {
            TypeRef::Named(n) => TypeRef::Named(n.clone()),
            TypeRef::List(inner) => TypeRef::List(Box::new(inner.clone_type())),
            TypeRef::NonNull(inner) => TypeRef::NonNull(Box::new(inner.clone_type())),
        }
    }
}

/// `@name(arg: value, ...)`.
pub struct Directive {
    pub name: String,
    pub arguments: Vec<(String, GqlValue)>,
}

pub struct SpecDirective {
    pub name: Seq<char>,
    pub arguments: Seq<(Seq<char>, SpecValue)>,
}

impl View for Directive {
    type V = SpecDirective;

    open spec fn view(&self) -> SpecDirective {
        SpecDirective { name: self.name@, arguments: entries_view(self.arguments@) }
    }
}

pub open spec fn directives_view(ds: Seq<Directive>) -> Seq<SpecDirective> {
    Seq::new(ds.len(), |i: int| ds[i]@)
}

/// A deep copy of a list of directives.
pub fn clone_directives(ds: &Vec<Directive>) -> (r: Vec<Directive>)
    ensures
        directives_view(r@) == directives_view(ds@),
{
    let mut r: Vec<Directive> = Vec::new();
    let mut i: usize = 0;
    while i < ds.len()
        invariant
            i <= ds.len(),
            r.len() == i,
            forall|j: int| 0 <= j < i ==> #[trigger] r@[j]@ == ds@[j]@,
        decreases ds.len() - i,
    {
        let args = clone_entries(&ds[i].arguments);
        r.push(Directive { name: ds[i].name.clone(), arguments: args });
        i += 1;
    }
    assert(directives_view(r@) =~= directives_view(ds@));
    r
}

/// An argument of a field: its name, its value, and the value as the parser prints it.
pub struct Argument {
    pub name: String,
    pub value: GqlValue,
    pub text: String,
}

pub struct SpecArgument {
    pub name: Seq<char>,
    pub value: SpecValue,
    pub text: Seq<char>,
}

impl View for Argument {
    type V = SpecArgument;

    open spec fn view(&self) -> SpecArgument {
        SpecArgument { name: self.name@, value: self.value@, text: self.text@ }
    }
}

pub open spec fn arguments_view(args: Seq<Argument>) -> Seq<SpecArgument> {
    Seq::new(args.len(), |i: int| args[i]@)
}

/// A deep copy of a list of arguments.
pub fn clone_arguments(args: &Vec<Argument>) -> (r: Vec<Argument>)
    ensures
        arguments_view(r@) == arguments_view(args@),
{
    let mut r: Vec<Argument> = Vec::new();
    let mut i: usize = 0;
    while i < args.len()
        invariant
            i <= args.len(),
            r.len() == i,
            forall|j: int| 0 <= j < i ==> #[trigger] r@[j]@ == args@[j]@,
        decreases args.len() - i,
    {
        let a = &args[i];
        r.push(Argument { name: a.name.clone(), value: a.value.clone_value(), text: a.text.clone() });
        i += 1;
    }
    assert(arguments_view(r@) =~= arguments_view(args@));
    r
}

/// A field selection: `alias: name(arguments) @directives { selections }`.
pub struct Field {
    pub alias: Option<String>,
    pub name: String,
    pub arguments: Vec<Argument>,
    pub directives: Vec<Directive>,
    pub selection_set: SelectionSet,
}

/// `...Name @directives`.
pub struct FragmentSpread {
    pub fragment_name: String,
    pub directives: Vec<Directive>,
}

/// `... on Type @directives { selections }`.
pub struct InlineFragment {
    pub type_condition: Option<String>,
    pub directives: Vec<Directive>,
    pub selection_set: SelectionSet,
}

/// `{ selection ... }`.
pub struct SelectionSet {
    pub items: Vec<Selection>,
}

pub enum Selection {
    Field(Field),
    FragmentSpread(FragmentSpread),
    InlineFragment(InlineFragment),
}

/// Model of a selection; a selection set is modelled as the sequence of its items.
pub enum SpecSelection {
    Field {
        alias: Option<Seq<char>>,
        name: Seq<char>,
        arguments: Seq<SpecArgument>,
        directives: Seq<SpecDirective>,
        selection_set: Seq<SpecSelection>,
    },
    FragmentSpread { fragment_name: Seq<char>, directives: Seq<SpecDirective> },
    InlineFragment {
        type_condition: Option<Seq<char>>,
        directives: Seq<SpecDirective>,
        selection_set: Seq<SpecSelection>,
    },
}

pub open spec fn selection_view(s: Selection) -> SpecSelection
    decreases s,
{
    match s {
        Selection::Field(f) => SpecSelection::Field {
            alias: opt_str_view(f.alias),
            name: f.name@,
            arguments: arguments_view(f.arguments@),
            directives: directives_view(f.directives@),
            selection_set: selections_view(f.selection_set.items@),
        },
        Selection::FragmentSpread(sp) => SpecSelection::FragmentSpread {
            fragment_name: sp.fragment_name@,
            directives: directives_view(sp.directives@),
        },
        Selection::InlineFragment(fr) => SpecSelection::InlineFragment {
            type_condition: opt_str_view(fr.type_condition),
            directives: directives_view(fr.directives@),
            selection_set: selections_view(fr.selection_set.items@),
        },
    }
}

pub open spec fn selections_view(items: Seq<Selection>) -> Seq<SpecSelection>
    decreases items,
{
    Seq::new(
        items.len(),
        |i: int|
            if 0 <= i < items.len() {
                selection_view(items[i])
            } else {
                SpecSelection::FragmentSpread { fragment_name: Seq::empty(), directives: Seq::empty() }
            },
    )
}

impl View for Selection {
    type V = SpecSelection;

    open spec fn view(&self) -> SpecSelection {
        selection_view(*self)
    }
}

impl View for SelectionSet {
    type V = Seq<SpecSelection>;

    open spec fn view(&self) -> Seq<SpecSelection> {
        selections_view(self.items@)
    }
}

impl SelectionSet {
    /// A deep copy of this selection set.
    pub fn clone_set(&self) -> (r: SelectionSet)
        ensures
            r@ == self@,
        decreases self.items,
    {
        let mut items: Vec<Selection> = Vec::new();
        let mut i: usize = 0;
        while i < self.items.len()
            invariant
                i <= self.items.len(),
                items.len() == i,
                forall|j: int| 0 <= j < i ==> #[trigger] items@[j]@ == self.items@[j]@,
            decreases self.items.len() - i,
        {
            proof {
                assert(decreases_to!(self.items => self.items[i as int]));
            }
            let s = self.items[i].clone_selection();
            items.push(s);
            i += 1;
        }
        let r = SelectionSet { items };
        assert forall|j: int| 0 <= j < r.items@.len() implies selections_view(r.items@)[j]
            == selections_view(self.items@)[j] by {
            assert(r.items@[j]@ == self.items@[j]@);
        }
        assert(r@ =~= self@);
        r
    }
}

impl Selection {
    /// A deep copy of this selection.
    pub fn clone_selection(&self) -> (r: Selection)
        ensures
            r@ == self@,
        decreases *self,
    {
        match self {
            Selection::Field(f) => {
                let ss = f.selection_set.clone_set();
                Selection::Field(
                    Field {
                        alias: clone_opt_string(&f.alias),
                        name: f.name.clone(),
                        arguments: clone_arguments(&f.arguments),
                        directives: clone_directives(&f.directives),
                        selection_set: ss,
                    },
                )
            },
            Selection::FragmentSpread(sp) => Selection::FragmentSpread(
                FragmentSpread {
                    fragment_name: sp.fragment_name.clone(),
                    directives: clone_directives(&sp.directives),
                },
            ),
            Selection::InlineFragment(fr) => {
                let ss = fr.selection_set.clone_set();
                Selection::InlineFragment(
                    InlineFragment {
                        type_condition: clone_opt_string(&fr.type_condition),
                        directives: clone_directives(&fr.directives),
                        selection_set: ss,
                    },
                )
            },
        }
    }
}

pub fn clone_opt_string(o: &Option<String>) -> (r: Option<String>)
    ensures
        opt_str_view(r) == opt_str_view(*o),
{
    match o {
        Some(s) => Some(s.clone()),
        None => None,
    }
}


/// `$name: Type = default`.
pub struct VariableDefinition {
    pub name: String,
    pub var_type: TypeRef,
    pub default_value: Option<GqlValue>,
}

pub struct SpecVariableDefinition {
    pub name: Seq<char>,
    pub var_type: SpecTypeRef,
    pub default_value: Option<SpecValue>,
}

impl View for VariableDefinition {
    type V = SpecVariableDefinition;

    open spec fn view(&self) -> SpecVariableDefinition {
        SpecVariableDefinition {
            name: self.name@,
            var_type: self.var_type@,
            default_value: match self.default_value {
                Some(v) => Some(v@),
                None => None,
            },
        }
    }
}

pub open spec fn variable_definitions_view(vs: Seq<VariableDefinition>) -> Seq<SpecVariableDefinition> {
    Seq::new(vs.len(), |i: int| vs[i]@)
}

/// A deep copy of a list of variable definitions.
pub fn clone_variable_definitions(vs: &Vec<VariableDefinition>) -> (r: Vec<VariableDefinition>)
    ensures
        variable_definitions_view(r@) == variable_definitions_view(vs@),
{
    let mut r: Vec<VariableDefinition> = Vec::new();
    let mut i: usize = 0;
    while i < vs.len()
        invariant
            i <= vs.len(),
            r.len() == i,
            forall|j: int| 0 <= j < i ==> #[trigger] r@[j]@ == vs@[j]@,
        decreases vs.len() - i,
    {
        let d = &vs[i];
        let default_value = match &d.default_value {
            Some(v) => Some(v.clone_value()),
            None => None,
        };
        r.push(
            VariableDefinition {
                name: d.name.clone(),
                var_type: d.var_type.clone_type(),
                default_value,
            },
        );
        i += 1;
    }
    assert(variable_definitions_view(r@) =~= variable_definitions_view(vs@));
    r
}

/// The four written forms of an operation. `Shorthand` is a bare `{ ... }`, which is a query.
#[derive(PartialEq, Eq, Structural, Clone, Copy, Debug)]
pub enum OperationType {
    Query,
    Mutation,
    Subscription,
    Shorthand,
}

/// `query|mutation|subscription Name($vars) @directives { selections }`, or a bare selection set.
pub struct OperationDefinition {
    pub operation_type: OperationType,
    pub name: Option<String>,
    pub variable_definitions: Vec<VariableDefinition>,
    pub directives: Vec<Directive>,
    pub selection_set: SelectionSet,
}

pub struct SpecOperation {
    pub operation_type: OperationType,
    pub name: Option<Seq<char>>,
    pub variable_definitions: Seq<SpecVariableDefinition>,
    pub directives: Seq<SpecDirective>,
    pub selection_set: Seq<SpecSelection>,
}

impl View for OperationDefinition {
    type V = SpecOperation;

    open spec fn view(&self) -> SpecOperation {
        SpecOperation {
            operation_type: self.operation_type,
            name: opt_str_view(self.name),
            variable_definitions: variable_definitions_view(self.variable_definitions@),
            directives: directives_view(self.directives@),
            selection_set: self.selection_set@,
        }
    }
}

impl OperationDefinition {
    /// A deep copy of this operation.
    pub fn clone_operation(&self) -> (r: OperationDefinition)
        ensures
            r@ == self@,
    {
        OperationDefinition {
            operation_type: self.operation_type,
            name: clone_opt_string(&self.name),
            variable_definitions: clone_variable_definitions(&self.variable_definitions),
            directives: clone_directives(&self.directives),
            selection_set: self.selection_set.clone_set(),
        }
    }
}

/// `fragment Name on Type @directives { selections }`.
pub struct FragmentDefinition {
    pub name: String,
    pub type_condition: String,
    pub directives: Vec<Directive>,
    pub selection_set: SelectionSet,
}

pub enum Definition {
    Operation(OperationDefinition),
    Fragment(FragmentDefinition),
}

/// A parsed query document: its operations and fragments in source order.
pub struct QueryDocument {
    pub definitions: Vec<Definition>,
}

/// One argument (or input field) declared in a schema: `name: Type = default`.
pub struct InputValueDef {
    pub name: String,
    pub value_type: TypeRef,
    pub has_default: bool,
}

/// A field declared on an object or interface type.
pub struct FieldDef {
    pub name: String,
    pub field_type: TypeRef,
    pub arguments: Vec<InputValueDef>,
}

/// The six kinds of named type a schema can declare.
#[derive(PartialEq, Eq, Structural, Clone, Copy, Debug)]
pub enum TypeKind {
    Scalar,
    Object,
    Interface,
    Union,
    Enum,
    InputObject,
}

/// A type definition or extension as written in SDL. `members` holds the member types of a
/// union or the value names of an enum; `fields` and `implements` are those of an object or
/// interface.
pub struct TypeDef {
    pub kind: TypeKind,
    pub name: String,
    pub fields: Vec<FieldDef>,
    pub implements: Vec<String>,
    pub members: Vec<String>,
}

/// A top-level SDL definition.
pub enum SchemaDefinition {
    /// `schema { query: Q mutation: M subscription: S }`.
    Schema { query: Option<String>, mutation: Option<String>, subscription: Option<String> },
    /// `type`, `interface`, `union`, `scalar`, `enum` or `input`.
    Type(TypeDef),
    /// `extend type ...` and the like.
    Extension(TypeDef),
    /// `directive @name ...`, which the index does not record.
    Directive,
}

/// A parsed SDL document.
pub struct SchemaDocument {
    pub definitions: Vec<SchemaDefinition>,
}


pub proof fn lemma_selections_view_concat(a: Seq<Selection>, b: Seq<Selection>)
    ensures
        selections_view(a + b) == selections_view(a) + selections_view(b),
{
    assert(selections_view(a + b) =~= selections_view(a) + selections_view(b));
}

} // verus!
