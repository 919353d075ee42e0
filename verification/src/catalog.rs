//! The records that a catalog probe returns, as plain values.
//!
//! Each record is compared field by field: two records are equal when their
//! models are.

use crate::compare::copy_all;
use crate::compare::equal_all;
use crate::compare::views;
use crate::compare::Comparable;
use crate::text::clone_opt;
use crate::text::clone_texts;
use crate::text::opt_text;
use crate::text::same_opt;
use crate::text::same_texts;
use crate::text::texts;
use vstd::prelude::*;
use vstd::std_specs::cmp::PartialEqSpecImpl;

verus! {

/// What a relation is.
#[derive(Clone, Copy, Debug, PartialEq, Eq, Structural)]
pub enum Kind {
    OrdinaryTable,
    Index,
    Sequence,
    ToastTable,
    View,
    MaterializedView,
    CompositeType,
    ForeignTable,
    PartitionedTable,
    PartitionedIndex,
}

/// How long the rows of a relation live.
#[derive(Clone, Copy, Debug, PartialEq, Eq, Structural)]
pub enum Persistence {
    Permanent,
    Unlogged,
    Temporary,
}

/// What a constraint checks.
#[derive(Clone, Copy, Debug, PartialEq, Eq, Structural)]
pub enum ConstraintType {
    Check,
    Foreign,
    NotNull,
    PrimaryKey,
    Trigger,
    Unique,
    Exclusion,
}

/// The word for a kind of relation in DDL.
pub open spec fn kind_text(kind: Kind) -> Seq<char> {
    match kind {
        Kind::OrdinaryTable => "table"@,
        Kind::Index => "index"@,
        Kind::Sequence => "sequence"@,
        Kind::ToastTable => "TOAST table"@,
        Kind::View => "view"@,
        Kind::MaterializedView => "materialized view"@,
        Kind::CompositeType => "composite type"@,
        Kind::ForeignTable => "foreign table"@,
        Kind::PartitionedTable => "partitioned table"@,
        Kind::PartitionedIndex => "partitioned index"@,
    }
}

impl Kind {
    /// The word for this kind of relation in DDL.
    pub fn name(&self) -> (s: &'static str)
        ensures
            s@ == kind_text(*self),
    {
        match self {
            Kind::OrdinaryTable => "table",
            Kind::Index => "index",
            Kind::Sequence => "sequence",
            Kind::ToastTable => "TOAST table",
            Kind::View => "view",
            Kind::MaterializedView => "materialized view",
            Kind::CompositeType => "composite type",
            Kind::ForeignTable => "foreign table",
            Kind::PartitionedTable => "partitioned table",
            Kind::PartitionedIndex => "partitioned index",
        }
    }
}

/// A schema, with the number of tables and views in it.
#[derive(Debug)]
pub struct Schema {
    pub name: String,
    pub oid: u32,
    pub relations: u32,
    pub comment: String,
}

/// The model of [`Schema`].
pub struct SchemaView {
    pub name: Seq<char>,
    pub oid: u32,
    pub relations: u32,
    pub comment: Seq<char>,
}

impl View for Schema {
    type V = SchemaView;

    open spec fn view(&self) -> SchemaView {
        SchemaView {
            name: self.name@,
            oid: self.oid,
            relations: self.relations,
            comment: self.comment@,
        }
    }
}

impl Comparable for Schema {
    open spec fn same(a: SchemaView, b: SchemaView) -> bool {
        a == b
    }

    proof fn lemma_same_reflexive(a: SchemaView) {
    }

    fn alike(&self, other: &Self) -> (r: bool) {
        self.name == other.name
            && self.oid == other.oid
            && self.relations == other.relations
            && self.comment == other.comment
    }

    fn copy(&self) -> (r: Self) {
        Schema {
            name: self.name.clone(),
            oid: self.oid,
            relations: self.relations,
            comment: self.comment.clone(),
        }
    }
}

impl Clone for Schema {
    fn clone(&self) -> (r: Self)
        ensures
            r@ == self@,
    {
        self.copy()
    }
}

impl PartialEq for Schema {
    fn eq(&self, other: &Self) -> (r: bool) {
        self.alike(other)
    }
}

impl PartialEqSpecImpl for Schema {
    open spec fn obeys_eq_spec() -> bool {
        true
    }

    open spec fn eq_spec(&self, other: &Self) -> bool {
        self@ == other@
    }
}

impl Eq for Schema {}

/// A table, a view or another relation of a schema. `definition` is the
/// query of a view or materialized view.
#[derive(Debug)]
pub struct Relation {
    pub name: String,
    pub persistence: Persistence,
    pub kind: Kind,
    pub oid: u32,
    pub comment: Option<String>,
    pub definition: Option<String>,
    pub schema: String,
}

/// The model of [`Relation`].
pub struct RelationView {
    pub name: Seq<char>,
    pub persistence: Persistence,
    pub kind: Kind,
    pub oid: u32,
    pub comment: Option<Seq<char>>,
    pub definition: Option<Seq<char>>,
    pub schema: Seq<char>,
}

impl View for Relation {
    type V = RelationView;

    open spec fn view(&self) -> RelationView {
        RelationView {
            name: self.name@,
            persistence: self.persistence,
            kind: self.kind,
            oid: self.oid,
            comment: opt_text(self.comment),
            definition: opt_text(self.definition),
            schema: self.schema@,
        }
    }
}

impl Comparable for Relation {
    open spec fn same(a: RelationView, b: RelationView) -> bool {
        a == b
    }

    proof fn lemma_same_reflexive(a: RelationView) {
    }

    fn alike(&self, other: &Self) -> (r: bool) {
        self.name == other.name
            && self.persistence == other.persistence
            && self.kind == other.kind
            && self.oid == other.oid
            && same_opt(&self.comment, &other.comment)
            && same_opt(&self.definition, &other.definition)
            && self.schema == other.schema
    }

    fn copy(&self) -> (r: Self) {
        Relation {
            name: self.name.clone(),
            persistence: self.persistence,
            kind: self.kind,
            oid: self.oid,
            comment: clone_opt(&self.comment),
            definition: clone_opt(&self.definition),
            schema: self.schema.clone(),
        }
    }
}

impl Clone for Relation {
    fn clone(&self) -> (r: Self)
        ensures
            r@ == self@,
    {
        self.copy()
    }
}

impl PartialEq for Relation {
    fn eq(&self, other: &Self) -> (r: bool) {
        self.alike(other)
    }
}

impl PartialEqSpecImpl for Relation {
    open spec fn obeys_eq_spec() -> bool {
        true
    }

    open spec fn eq_spec(&self, other: &Self) -> bool {
        self@ == other@
    }
}

impl Eq for Relation {}

/// A column of a relation, or a field of a composite type. `ty` is the type
/// as it is written in DDL.
#[derive(Debug)]
pub struct Column {
    pub is_primary: bool,
    pub name: String,
    pub oid: u32,
    pub len: Option<i32>,
    pub default: Option<String>,
    pub is_notnull: bool,
    pub comment: Option<String>,
    pub ty: String,
}

/// The model of [`Column`].
pub struct ColumnView {
    pub is_primary: bool,
    pub name: Seq<char>,
    pub oid: u32,
    pub len: Option<i32>,
    pub default: Option<Seq<char>>,
    pub is_notnull: bool,
    pub comment: Option<Seq<char>>,
    pub ty: Seq<char>,
}

impl View for Column {
    type V = ColumnView;

    open spec fn view(&self) -> ColumnView {
        ColumnView {
            is_primary: self.is_primary,
            name: self.name@,
            oid: self.oid,
            len: self.len,
            default: opt_text(self.default),
            is_notnull: self.is_notnull,
            comment: opt_text(self.comment),
            ty: self.ty@,
        }
    }
}

impl Comparable for Column {
    open spec fn same(a: ColumnView, b: ColumnView) -> bool {
        a == b
    }

    proof fn lemma_same_reflexive(a: ColumnView) {
    }

    fn alike(&self, other: &Self) -> (r: bool) {
        self.is_primary == other.is_primary
            && self.name == other.name
            && self.oid == other.oid
            && self.len == other.len
            && same_opt(&self.default, &other.default)
            && self.is_notnull == other.is_notnull
            && same_opt(&self.comment, &other.comment)
            && self.ty == other.ty
    }

    fn copy(&self) -> (r: Self) {
        Column {
            is_primary: self.is_primary,
            name: self.name.clone(),
            oid: self.oid,
            len: self.len,
            default: clone_opt(&self.default),
            is_notnull: self.is_notnull,
            comment: clone_opt(&self.comment),
            ty: self.ty.clone(),
        }
    }
}

impl Clone for Column {
    fn clone(&self) -> (r: Self)
        ensures
            r@ == self@,
    {
        self.copy()
    }
}

impl PartialEq for Column {
    fn eq(&self, other: &Self) -> (r: bool) {
        self.alike(other)
    }
}

impl PartialEqSpecImpl for Column {
    open spec fn obeys_eq_spec() -> bool {
        true
    }

    open spec fn eq_spec(&self, other: &Self) -> bool {
        self@ == other@
    }
}

impl Eq for Column {}

/// A constraint of a table or of a domain, with its definition as DDL.
#[derive(Debug)]
pub struct Constraint {
    pub oid: u32,
    pub ty: ConstraintType,
    pub name: String,
    pub definition: String,
}

/// The model of [`Constraint`].
pub struct ConstraintView {
    pub oid: u32,
    pub ty: ConstraintType,
    pub name: Seq<char>,
    pub definition: Seq<char>,
}

impl View for Constraint {
    type V = ConstraintView;

    open spec fn view(&self) -> ConstraintView {
        ConstraintView {
            oid: self.oid,
            ty: self.ty,
            name: self.name@,
            definition: self.definition@,
        }
    }
}

impl Comparable for Constraint {
    open spec fn same(a: ConstraintView, b: ConstraintView) -> bool {
        a == b
    }

    proof fn lemma_same_reflexive(a: ConstraintView) {
    }

    fn alike(&self, other: &Self) -> (r: bool) {
        self.oid == other.oid
            && self.ty == other.ty
            && self.name == other.name
            && self.definition == other.definition
    }

    fn copy(&self) -> (r: Self) {
        Constraint {
            oid: self.oid,
            ty: self.ty,
            name: self.name.clone(),
            definition: self.definition.clone(),
        }
    }
}

impl Clone for Constraint {
    fn clone(&self) -> (r: Self)
        ensures
            r@ == self@,
    {
        self.copy()
    }
}

impl PartialEq for Constraint {
    fn eq(&self, other: &Self) -> (r: bool) {
        self.alike(other)
    }
}

impl PartialEqSpecImpl for Constraint {
    open spec fn obeys_eq_spec() -> bool {
        true
    }

    open spec fn eq_spec(&self, other: &Self) -> bool {
        self@ == other@
    }
}

impl Eq for Constraint {}

/// An index of a relation that backs no constraint. `definition` is the
/// statement that creates it.
#[derive(Debug)]
pub struct Index {
    pub oid: u32,
    pub name: String,
    pub definition: String,
}

/// The model of [`Index`].
pub struct IndexView {
    pub oid: u32,
    pub name: Seq<char>,
    pub definition: Seq<char>,
}

impl View for Index {
    type V = IndexView;

    open spec fn view(&self) -> IndexView {
        IndexView {
            oid: self.oid,
            name: self.name@,
            definition: self.definition@,
        }
    }
}

impl Comparable for Index {
    open spec fn same(a: IndexView, b: IndexView) -> bool {
        a == b
    }

    proof fn lemma_same_reflexive(a: IndexView) {
    }

    fn alike(&self, other: &Self) -> (r: bool) {
        self.oid == other.oid
            && self.name == other.name
            && self.definition == other.definition
    }

    fn copy(&self) -> (r: Self) {
        Index {
            oid: self.oid,
            name: self.name.clone(),
            definition: self.definition.clone(),
        }
    }
}

impl Clone for Index {
    fn clone(&self) -> (r: Self)
        ensures
            r@ == self@,
    {
        self.copy()
    }
}

impl PartialEq for Index {
    fn eq(&self, other: &Self) -> (r: bool) {
        self.alike(other)
    }
}

impl PartialEqSpecImpl for Index {
    open spec fn obeys_eq_spec() -> bool {
        true
    }

    open spec fn eq_spec(&self, other: &Self) -> bool {
        self@ == other@
    }
}

impl Eq for Index {}

/// An installed extension.
#[derive(Debug)]
pub struct Extension {
    pub oid: u32,
    pub name: String,
    pub version: String,
    pub description: Option<String>,
}

/// The model of [`Extension`].
pub struct ExtensionView {
    pub oid: u32,
    pub name: Seq<char>,
    pub version: Seq<char>,
    pub description: Option<Seq<char>>,
}

impl View for Extension {
    type V = ExtensionView;

    open spec fn view(&self) -> ExtensionView {
        ExtensionView {
            oid: self.oid,
            name: self.name@,
            version: self.version@,
            description: opt_text(self.description),
        }
    }
}

impl Comparable for Extension {
    open spec fn same(a: ExtensionView, b: ExtensionView) -> bool {
        a == b
    }

    proof fn lemma_same_reflexive(a: ExtensionView) {
    }

    fn alike(&self, other: &Self) -> (r: bool) {
        self.oid == other.oid
            && self.name == other.name
            && self.version == other.version
            && same_opt(&self.description, &other.description)
    }

    fn copy(&self) -> (r: Self) {
        Extension {
            oid: self.oid,
            name: self.name.clone(),
            version: self.version.clone(),
            description: clone_opt(&self.description),
        }
    }
}

impl Clone for Extension {
    fn clone(&self) -> (r: Self)
        ensures
            r@ == self@,
    {
        self.copy()
    }
}

impl PartialEq for Extension {
    fn eq(&self, other: &Self) -> (r: bool) {
        self.alike(other)
    }
}

impl PartialEqSpecImpl for Extension {
    open spec fn obeys_eq_spec() -> bool {
        true
    }

    open spec fn eq_spec(&self, other: &Self) -> bool {
        self@ == other@
    }
}

impl Eq for Extension {}

/// A function. `definition` is the statement that creates it.
#[derive(Debug)]
pub struct Function {
    pub oid: u32,
    pub name: String,
    pub language: String,
    pub definition: String,
    pub arguments: String,
    pub return_type: String,
}

/// The model of [`Function`].
pub struct FunctionView {
    pub oid: u32,
    pub name: Seq<char>,
    pub language: Seq<char>,
    pub definition: Seq<char>,
    pub arguments: Seq<char>,
    pub return_type: Seq<char>,
}

impl View for Function {
    type V = FunctionView;

    open spec fn view(&self) -> FunctionView {
        FunctionView {
            oid: self.oid,
            name: self.name@,
            language: self.language@,
            definition: self.definition@,
            arguments: self.arguments@,
            return_type: self.return_type@,
        }
    }
}

impl Comparable for Function {
    open spec fn same(a: FunctionView, b: FunctionView) -> bool {
        a == b
    }

    proof fn lemma_same_reflexive(a: FunctionView) {
    }

    fn alike(&self, other: &Self) -> (r: bool) {
        self.oid == other.oid
            && self.name == other.name
            && self.language == other.language
            && self.definition == other.definition
            && self.arguments == other.arguments
            && self.return_type == other.return_type
    }

    fn copy(&self) -> (r: Self) {
        Function {
            oid: self.oid,
            name: self.name.clone(),
            language: self.language.clone(),
            definition: self.definition.clone(),
            arguments: self.arguments.clone(),
            return_type: self.return_type.clone(),
        }
    }
}

impl Clone for Function {
    fn clone(&self) -> (r: Self)
        ensures
            r@ == self@,
    {
        self.copy()
    }
}

impl PartialEq for Function {
    fn eq(&self, other: &Self) -> (r: bool) {
        self.alike(other)
    }
}

impl PartialEqSpecImpl for Function {
    open spec fn obeys_eq_spec() -> bool {
        true
    }

    open spec fn eq_spec(&self, other: &Self) -> bool {
        self@ == other@
    }
}

impl Eq for Function {}

/// A trigger on a table of the schema.
#[derive(Debug)]
pub struct Trigger {
    pub action: String,
    pub event: String,
    pub name: String,
    pub orientation: String,
    pub table: String,
    pub timing: String,
}

/// The model of [`Trigger`].
pub struct TriggerView {
    pub action: Seq<char>,
    pub event: Seq<char>,
    pub name: Seq<char>,
    pub orientation: Seq<char>,
    pub table: Seq<char>,
    pub timing: Seq<char>,
}

impl View for Trigger {
    type V = TriggerView;

    open spec fn view(&self) -> TriggerView {
        TriggerView {
            action: self.action@,
            event: self.event@,
            name: self.name@,
            orientation: self.orientation@,
            table: self.table@,
            timing: self.timing@,
        }
    }
}

impl Comparable for Trigger {
    open spec fn same(a: TriggerView, b: TriggerView) -> bool {
        a == b
    }

    proof fn lemma_same_reflexive(a: TriggerView) {
    }

    fn alike(&self, other: &Self) -> (r: bool) {
        self.action == other.action
            && self.event == other.event
            && self.name == other.name
            && self.orientation == other.orientation
            && self.table == other.table
            && self.timing == other.timing
    }

    fn copy(&self) -> (r: Self) {
        Trigger {
            action: self.action.clone(),
            event: self.event.clone(),
            name: self.name.clone(),
            orientation: self.orientation.clone(),
            table: self.table.clone(),
            timing: self.timing.clone(),
        }
    }
}

impl Clone for Trigger {
    fn clone(&self) -> (r: Self)
        ensures
            r@ == self@,
    {
        self.copy()
    }
}

impl PartialEq for Trigger {
    fn eq(&self, other: &Self) -> (r: bool) {
        self.alike(other)
    }
}

impl PartialEqSpecImpl for Trigger {
    open spec fn obeys_eq_spec() -> bool {
        true
    }

    open spec fn eq_spec(&self, other: &Self) -> bool {
        self@ == other@
    }
}

impl Eq for Trigger {}

/// An enumerated type with its labels in their sort order.
#[derive(Debug)]
pub struct Enum {
    pub name: String,
    pub elements: Vec<String>,
    pub description: Option<String>,
}

/// The model of [`Enum`].
pub struct EnumView {
    pub name: Seq<char>,
    pub elements: Seq<Seq<char>>,
    pub description: Option<Seq<char>>,
}

impl View for Enum {
    type V = EnumView;

    open spec fn view(&self) -> EnumView {
        EnumView {
            name: self.name@,
            elements: texts(self.elements@),
            description: opt_text(self.description),
        }
    }
}

impl Comparable for Enum {
    open spec fn same(a: EnumView, b: EnumView) -> bool {
        a == b
    }

    proof fn lemma_same_reflexive(a: EnumView) {
    }

    fn alike(&self, other: &Self) -> (r: bool) {
        self.name == other.name
            && same_texts(&self.elements, &other.elements)
            && same_opt(&self.description, &other.description)
    }

    fn copy(&self) -> (r: Self) {
        Enum {
            name: self.name.clone(),
            elements: clone_texts(&self.elements),
            description: clone_opt(&self.description),
        }
    }
}

impl Clone for Enum {
    fn clone(&self) -> (r: Self)
        ensures
            r@ == self@,
    {
        self.copy()
    }
}

impl PartialEq for Enum {
    fn eq(&self, other: &Self) -> (r: bool) {
        self.alike(other)
    }
}

impl PartialEqSpecImpl for Enum {
    open spec fn obeys_eq_spec() -> bool {
        true
    }

    open spec fn eq_spec(&self, other: &Self) -> bool {
        self@ == other@
    }
}

impl Eq for Enum {}

/// A domain over the type `ty`, with its constraints.
#[derive(Debug)]
pub struct Domain {
    pub oid: u32,
    pub name: String,
    pub ty: String,
    pub constraints: Vec<Constraint>,
    pub description: Option<String>,
    pub is_notnull: bool,
    pub default: Option<String>,
}

/// The model of [`Domain`].
pub struct DomainView {
    pub oid: u32,
    pub name: Seq<char>,
    pub ty: Seq<char>,
    pub constraints: Seq<ConstraintView>,
    pub description: Option<Seq<char>>,
    pub is_notnull: bool,
    pub default: Option<Seq<char>>,
}

impl View for Domain {
    type V = DomainView;

    open spec fn view(&self) -> DomainView {
        DomainView {
            oid: self.oid,
            name: self.name@,
            ty: self.ty@,
            constraints: views(self.constraints@),
            description: opt_text(self.description),
            is_notnull: self.is_notnull,
            default: opt_text(self.default),
        }
    }
}

impl Comparable for Domain {
    open spec fn same(a: DomainView, b: DomainView) -> bool {
        a == b
    }

    proof fn lemma_same_reflexive(a: DomainView) {
    }

    fn alike(&self, other: &Self) -> (r: bool) {
        self.oid == other.oid
            && self.name == other.name
            && self.ty == other.ty
            && equal_all(&self.constraints, &other.constraints)
            && same_opt(&self.description, &other.description)
            && self.is_notnull == other.is_notnull
            && same_opt(&self.default, &other.default)
    }

    fn copy(&self) -> (r: Self) {
        Domain {
            oid: self.oid,
            name: self.name.clone(),
            ty: self.ty.clone(),
            constraints: copy_all(&self.constraints),
            description: clone_opt(&self.description),
            is_notnull: self.is_notnull,
            default: clone_opt(&self.default),
        }
    }
}

impl Clone for Domain {
    fn clone(&self) -> (r: Self)
        ensures
            r@ == self@,
    {
        self.copy()
    }
}

impl PartialEq for Domain {
    fn eq(&self, other: &Self) -> (r: bool) {
        self.alike(other)
    }
}

impl PartialEqSpecImpl for Domain {
    open spec fn obeys_eq_spec() -> bool {
        true
    }

    open spec fn eq_spec(&self, other: &Self) -> bool {
        self@ == other@
    }
}

impl Eq for Domain {}

/// A composite type with its fields in order.
#[derive(Debug)]
pub struct Composite {
    pub name: String,
    pub fields: Vec<Column>,
    pub description: Option<String>,
}

/// The model of [`Composite`].
pub struct CompositeView {
    pub name: Seq<char>,
    pub fields: Seq<ColumnView>,
    pub description: Option<Seq<char>>,
}

impl View for Composite {
    type V = CompositeView;

    open spec fn view(&self) -> CompositeView {
        CompositeView {
            name: self.name@,
            fields: views(self.fields@),
            description: opt_text(self.description),
        }
    }
}

impl Comparable for Composite {
    open spec fn same(a: CompositeView, b: CompositeView) -> bool {
        a == b
    }

    proof fn lemma_same_reflexive(a: CompositeView) {
    }

    fn alike(&self, other: &Self) -> (r: bool) {
        self.name == other.name
            && equal_all(&self.fields, &other.fields)
            && same_opt(&self.description, &other.description)
    }

    fn copy(&self) -> (r: Self) {
        Composite {
            name: self.name.clone(),
            fields: copy_all(&self.fields),
            description: clone_opt(&self.description),
        }
    }
}

impl Clone for Composite {
    fn clone(&self) -> (r: Self)
        ensures
            r@ == self@,
    {
        self.copy()
    }
}

impl PartialEq for Composite {
    fn eq(&self, other: &Self) -> (r: bool) {
        self.alike(other)
    }
}

impl PartialEqSpecImpl for Composite {
    open spec fn obeys_eq_spec() -> bool {
        true
    }

    open spec fn eq_spec(&self, other: &Self) -> bool {
        self@ == other@
    }
}

impl Eq for Composite {}
} // verus!
