//! The object model: a database as a tree of named objects.
//!
//! A [`Database`] holds its schemas by name; a [`Schema`] holds its relations,
//! enums, domains, composites, extensions, functions and triggers; a
//! [`Relation`] holds its columns, constraints and indexes; a [`Domain`] holds
//! its constraints. Every map is keyed by the names of the object and of its
//! ancestors, joined with dots, and is walked in key order.
//!
//! Each object wraps the record that the catalog gave for it, with as much of
//! its parent's identity as its statements need. Two objects are equal when
//! their own payloads are: children never take part.

use crate::catalog;
use crate::compare::copy_all;
use crate::compare::views;
use crate::compare::Comparable;
use crate::ordered::collect;
use crate::ordered::lemma_collect_sorted;
use crate::ordered::lemma_collect_values;
use crate::ordered::sorted;
use crate::ordered::lemma_models_with_entry;
use crate::ordered::Entries;
use crate::ordered::OrderedMap;
use crate::text::qualified;
use crate::text::qualify;
use crate::text::quote;
use crate::text::quoted;
use crate::text::same_opt;
use vstd::prelude::*;
use vstd::std_specs::cmp::PartialEqSpecImpl;

verus! {

/// The key of a child: the key of its parent, a dot, and its own name.
pub open spec fn child_key(parent: Seq<char>, name: Seq<char>) -> Seq<char> {
    parent + "."@ + name
}

/// Builds the key of a child.
pub fn make_key(parent: &str, name: &str) -> (key: String)
    ensures
        key@ == child_key(parent@, name@),
{
    let mut key = String::from_str(parent);
    key.append(".");
    key.append(name);
    key
}

/// Builds a map from `items`: `entry` gives the key and the node of each, and
/// of two items with one key the later one stays.
fn gather<R: View, T: View, F: Fn(R) -> (String, T)>(
    items: Vec<R>,
    entry: F,
    Ghost(model): Ghost<spec_fn(R::V) -> (Seq<char>, T::V)>,
) -> (m: OrderedMap<T>)
    requires
        forall|x: R| call_requires(entry, (x,)),
        forall|x: R, p: (String, T)| call_ensures(entry, (x,), p) ==> (p.0@, p.1@) == model(x@),
    ensures
        m.model() == collect(views(items@).map_values(model)),
{
    let mut m: OrderedMap<T> = OrderedMap::new();
    let ghost pairs = views(items@).map_values(model);
    let ghost all = items@;
    assert(pairs.take(0) =~= Seq::empty());
    assert(m.model() =~= Seq::empty());
    for x in it: items
        invariant
            it.seq() == all,
            pairs == views(all).map_values(model),
            forall|x: R| call_requires(entry, (x,)),
            forall|x: R, p: (String, T)|
                call_ensures(entry, (x,), p) ==> (p.0@, p.1@) == model(x@),
            m.model() == collect(pairs.take(it.index() as int)),
    {
        let ghost i = it.index() as int;
        let (key, value) = entry(x);
        proof {
            lemma_models_with_entry(m@, key@, value);
            assert(pairs.take(i + 1).drop_last() =~= pairs.take(i));
            assert(pairs.take(i + 1).last() == pairs[i]);
        }
        m.insert(key, value);
    }
    assert(pairs.take(pairs.len() as int) =~= pairs);
    m
}

/// An enumerated type of a schema.
#[derive(Debug)]
pub struct Enum {
    /// The record of the catalog.
    pub inner: catalog::Enum,
    /// The name of the schema.
    pub parent: String,
}

/// The model of [`Enum`].
pub struct EnumView {
    pub inner: catalog::EnumView,
    pub parent: Seq<char>,
}

impl View for Enum {
    type V = EnumView;

    open spec fn view(&self) -> EnumView {
        EnumView {
            inner: self.inner@,
            parent: self.parent@,
        }
    }
}

impl EnumView {
    /// The enum that `inner` describes, in the schema `schema`.
    pub open spec fn new(schema: catalog::SchemaView, inner: catalog::EnumView) -> EnumView {
        EnumView { inner, parent: schema.name }
    }

    /// `"schema"."name"`.
    pub open spec fn fullname(self) -> Seq<char> {
        qualified(self.parent, self.inner.name)
    }
}

impl Enum {
    /// Wraps a record of the schema `schema`.
    pub fn new(schema: &catalog::Schema, inner: catalog::Enum) -> (r: Self)
        ensures
            r@ == EnumView::new(schema@, inner@),
    {
        Enum { inner, parent: schema.name.clone() }
    }

    /// `"schema"."name"`.
    pub fn fullname(&self) -> (s: String)
        ensures
            s@ == self@.fullname(),
    {
        qualify(self.parent.as_str(), self.inner.name.as_str())
    }
}

impl Comparable for Enum {
    open spec fn same(a: EnumView, b: EnumView) -> bool {
        a.inner == b.inner
    }

    proof fn lemma_same_reflexive(a: EnumView) {
    }

    fn alike(&self, other: &Self) -> (r: bool) {
        self.inner.alike(&other.inner)
    }

    fn copy(&self) -> (r: Self) {
        Enum {
            inner: self.inner.copy(),
            parent: self.parent.clone(),
        }
    }
}

impl Clone for Enum {
    fn clone(&self) -> (r: Self)
        ensures
            r@ == self@,
    {
        self.copy()
    }
}

impl PartialEq for Enum {
    fn eq(&self, other: &Self) -> (r: bool) {
        self.alike(other)
    }
}

impl PartialEqSpecImpl for Enum {
    open spec fn obeys_eq_spec() -> bool {
        true
    }

    open spec fn eq_spec(&self, other: &Self) -> bool {
        Enum::same(self@, other@)
    }
}

impl Eq for Enum {}

/// A composite type of a schema.
#[derive(Debug)]
pub struct Composite {
    /// The record of the catalog.
    pub inner: catalog::Composite,
    /// The name of the schema.
    pub parent: String,
}

/// The model of [`Composite`].
pub struct CompositeView {
    pub inner: catalog::CompositeView,
    pub parent: Seq<char>,
}

impl View for Composite {
    type V = CompositeView;

    open spec fn view(&self) -> CompositeView {
        CompositeView {
            inner: self.inner@,
            parent: self.parent@,
        }
    }
}

impl CompositeView {
    /// The composite that `inner` describes, in the schema `schema`.
    pub open spec fn new(
        schema: catalog::SchemaView,
        inner: catalog::CompositeView,
    ) -> CompositeView {
        CompositeView { inner, parent: schema.name }
    }

    /// `"schema"."name"`.
    pub open spec fn fullname(self) -> Seq<char> {
        qualified(self.parent, self.inner.name)
    }
}

impl Composite {
    /// Wraps a record of the schema `schema`.
    pub fn new(schema: &catalog::Schema, inner: catalog::Composite) -> (r: Self)
        ensures
            r@ == CompositeView::new(schema@, inner@),
    {
        Composite { inner, parent: schema.name.clone() }
    }

    /// `"schema"."name"`.
    pub fn fullname(&self) -> (s: String)
        ensures
            s@ == self@.fullname(),
    {
        qualify(self.parent.as_str(), self.inner.name.as_str())
    }
}

impl Comparable for Composite {
    open spec fn same(a: CompositeView, b: CompositeView) -> bool {
        a.inner == b.inner
    }

    proof fn lemma_same_reflexive(a: CompositeView) {
    }

    fn alike(&self, other: &Self) -> (r: bool) {
        self.inner.alike(&other.inner)
    }

    fn copy(&self) -> (r: Self) {
        Composite {
            inner: self.inner.copy(),
            parent: self.parent.clone(),
        }
    }
}

impl Clone for Composite {
    fn clone(&self) -> (r: Self)
        ensures
            r@ == self@,
    {
        self.copy()
    }
}

impl PartialEq for Composite {
    fn eq(&self, other: &Self) -> (r: bool) {
        self.alike(other)
    }
}

impl PartialEqSpecImpl for Composite {
    open spec fn obeys_eq_spec() -> bool {
        true
    }

    open spec fn eq_spec(&self, other: &Self) -> bool {
        Composite::same(self@, other@)
    }
}

impl Eq for Composite {}

/// A column of a relation.
#[derive(Debug)]
pub struct Column {
    /// The record of the catalog.
    pub inner: catalog::Column,
    /// The name of the relation's schema.
    pub schema: String,
    /// The name of the relation.
    pub relation: String,
}

/// The model of [`Column`].
pub struct ColumnView {
    pub inner: catalog::ColumnView,
    pub schema: Seq<char>,
    pub relation: Seq<char>,
}

impl View for Column {
    type V = ColumnView;

    open spec fn view(&self) -> ColumnView {
        ColumnView {
            inner: self.inner@,
            schema: self.schema@,
            relation: self.relation@,
        }
    }
}

impl ColumnView {
    /// The column that `inner` describes, of the relation `relation`.
    pub open spec fn new(
        relation: catalog::RelationView,
        inner: catalog::ColumnView,
    ) -> ColumnView {
        ColumnView { inner, schema: relation.schema, relation: relation.name }
    }

    /// `"schema"."relation"."name"`.
    pub open spec fn fullname(self) -> Seq<char> {
        qualified(self.schema, self.relation) + "."@ + quoted(self.inner.name)
    }
}

impl Column {
    /// Wraps a record of the relation `relation`.
    pub fn new(relation: &catalog::Relation, inner: catalog::Column) -> (r: Self)
        ensures
            r@ == ColumnView::new(relation@, inner@),
    {
        Column { inner, schema: relation.schema.clone(), relation: relation.name.clone() }
    }

    /// `"schema"."relation"."name"`.
    pub fn fullname(&self) -> (s: String)
        ensures
            s@ == self@.fullname(),
    {
        let mut s = qualify(self.schema.as_str(), self.relation.as_str());
        s.append(".");
        let name = quote(self.inner.name.as_str());
        s.append(name.as_str());
        s
    }
}

impl Comparable for Column {
    open spec fn same(a: ColumnView, b: ColumnView) -> bool {
        &&& a.inner.is_primary == b.inner.is_primary
        &&& a.inner.name == b.inner.name
        &&& a.inner.ty == b.inner.ty
        &&& a.inner.default == b.inner.default
        &&& a.inner.is_notnull == b.inner.is_notnull
        &&& a.inner.comment == b.inner.comment
    }

    proof fn lemma_same_reflexive(a: ColumnView) {
    }

    fn alike(&self, other: &Self) -> (r: bool) {
        self.inner.is_primary == other.inner.is_primary
            && self.inner.name == other.inner.name
            && self.inner.ty == other.inner.ty
            && same_opt(&self.inner.default, &other.inner.default)
            && self.inner.is_notnull == other.inner.is_notnull
            && same_opt(&self.inner.comment, &other.inner.comment)
    }

    fn copy(&self) -> (r: Self) {
        Column {
            inner: self.inner.copy(),
            schema: self.schema.clone(),
            relation: self.relation.clone(),
        }
    }
}

impl Clone for Column {
    fn clone(&self) -> (r: Self)
        ensures
            r@ == self@,
    {
        self.copy()
    }
}

impl PartialEq for Column {
    fn eq(&self, other: &Self) -> (r: bool) {
        self.alike(other)
    }
}

impl PartialEqSpecImpl for Column {
    open spec fn obeys_eq_spec() -> bool {
        true
    }

    open spec fn eq_spec(&self, other: &Self) -> bool {
        Column::same(self@, other@)
    }
}

impl Eq for Column {}

/// An extension installed in a schema.
#[derive(Debug)]
pub struct Extension {
    /// The record of the catalog.
    pub inner: catalog::Extension,
    /// The name of the schema.
    pub parent: String,
}

/// The model of [`Extension`].
pub struct ExtensionView {
    pub inner: catalog::ExtensionView,
    pub parent: Seq<char>,
}

impl View for Extension {
    type V = ExtensionView;

    open spec fn view(&self) -> ExtensionView {
        ExtensionView {
            inner: self.inner@,
            parent: self.parent@,
        }
    }
}

impl ExtensionView {
    /// The extension that `inner` describes, in the schema `schema`.
    pub open spec fn new(
        schema: catalog::SchemaView,
        inner: catalog::ExtensionView,
    ) -> ExtensionView {
        ExtensionView { inner, parent: schema.name }
    }

    /// `"schema"."name"`.
    pub open spec fn fullname(self) -> Seq<char> {
        qualified(self.parent, self.inner.name)
    }
}

impl Extension {
    /// Wraps a record of the schema `schema`.
    pub fn new(schema: &catalog::Schema, inner: catalog::Extension) -> (r: Self)
        ensures
            r@ == ExtensionView::new(schema@, inner@),
    {
        Extension { inner, parent: schema.name.clone() }
    }

    /// `"schema"."name"`.
    pub fn fullname(&self) -> (s: String)
        ensures
            s@ == self@.fullname(),
    {
        qualify(self.parent.as_str(), self.inner.name.as_str())
    }
}

impl Comparable for Extension {
    open spec fn same(a: ExtensionView, b: ExtensionView) -> bool {
        &&& a.inner.name == b.inner.name
        &&& a.inner.version == b.inner.version
        &&& a.inner.description == b.inner.description
    }

    proof fn lemma_same_reflexive(a: ExtensionView) {
    }

    fn alike(&self, other: &Self) -> (r: bool) {
        self.inner.name == other.inner.name
            && self.inner.version == other.inner.version
            && same_opt(&self.inner.description, &other.inner.description)
    }

    fn copy(&self) -> (r: Self) {
        Extension {
            inner: self.inner.copy(),
            parent: self.parent.clone(),
        }
    }
}

impl Clone for Extension {
    fn clone(&self) -> (r: Self)
        ensures
            r@ == self@,
    {
        self.copy()
    }
}

impl PartialEq for Extension {
    fn eq(&self, other: &Self) -> (r: bool) {
        self.alike(other)
    }
}

impl PartialEqSpecImpl for Extension {
    open spec fn obeys_eq_spec() -> bool {
        true
    }

    open spec fn eq_spec(&self, other: &Self) -> bool {
        Extension::same(self@, other@)
    }
}

impl Eq for Extension {}

/// A function of a schema.
#[derive(Debug)]
pub struct Function {
    /// The record of the catalog.
    pub inner: catalog::Function,
    /// The name of the schema.
    pub parent: String,
}

/// The model of [`Function`].
pub struct FunctionView {
    pub inner: catalog::FunctionView,
    pub parent: Seq<char>,
}

impl View for Function {
    type V = FunctionView;

    open spec fn view(&self) -> FunctionView {
        FunctionView {
            inner: self.inner@,
            parent: self.parent@,
        }
    }
}

impl FunctionView {
    /// The function that `inner` describes, in the schema `schema`.
    pub open spec fn new(
        schema: catalog::SchemaView,
        inner: catalog::FunctionView,
    ) -> FunctionView {
        FunctionView { inner, parent: schema.name }
    }

    /// `"schema"."name"`.
    pub open spec fn fullname(self) -> Seq<char> {
        qualified(self.parent, self.inner.name)
    }
}

impl Function {
    /// Wraps a record of the schema `schema`.
    pub fn new(schema: &catalog::Schema, inner: catalog::Function) -> (r: Self)
        ensures
            r@ == FunctionView::new(schema@, inner@),
    {
        Function { inner, parent: schema.name.clone() }
    }

    /// `"schema"."name"`.
    pub fn fullname(&self) -> (s: String)
        ensures
            s@ == self@.fullname(),
    {
        qualify(self.parent.as_str(), self.inner.name.as_str())
    }
}

impl Comparable for Function {
    open spec fn same(a: FunctionView, b: FunctionView) -> bool {
        &&& a.inner.name == b.inner.name
        &&& a.inner.language == b.inner.language
        &&& a.inner.definition == b.inner.definition
        &&& a.inner.arguments == b.inner.arguments
        &&& a.inner.return_type == b.inner.return_type
    }

    proof fn lemma_same_reflexive(a: FunctionView) {
    }

    fn alike(&self, other: &Self) -> (r: bool) {
        self.inner.name == other.inner.name
            && self.inner.language == other.inner.language
            && self.inner.definition == other.inner.definition
            && self.inner.arguments == other.inner.arguments
            && self.inner.return_type == other.inner.return_type
    }

    fn copy(&self) -> (r: Self) {
        Function {
            inner: self.inner.copy(),
            parent: self.parent.clone(),
        }
    }
}

impl Clone for Function {
    fn clone(&self) -> (r: Self)
        ensures
            r@ == self@,
    {
        self.copy()
    }
}

impl PartialEq for Function {
    fn eq(&self, other: &Self) -> (r: bool) {
        self.alike(other)
    }
}

impl PartialEqSpecImpl for Function {
    open spec fn obeys_eq_spec() -> bool {
        true
    }

    open spec fn eq_spec(&self, other: &Self) -> bool {
        Function::same(self@, other@)
    }
}

impl Eq for Function {}

/// A trigger on a table of a schema.
#[derive(Debug)]
pub struct Trigger {
    /// The record of the catalog.
    pub inner: catalog::Trigger,
    /// The name of the schema.
    pub parent: String,
}

/// The model of [`Trigger`].
pub struct TriggerView {
    pub inner: catalog::TriggerView,
    pub parent: Seq<char>,
}

impl View for Trigger {
    type V = TriggerView;

    open spec fn view(&self) -> TriggerView {
        TriggerView {
            inner: self.inner@,
            parent: self.parent@,
        }
    }
}

impl TriggerView {
    /// The trigger that `inner` describes, in the schema `schema`.
    pub open spec fn new(schema: catalog::SchemaView, inner: catalog::TriggerView) -> TriggerView {
        TriggerView { inner, parent: schema.name }
    }

    /// `"schema"."name"`.
    pub open spec fn fullname(self) -> Seq<char> {
        qualified(self.parent, self.inner.name)
    }
}

impl Trigger {
    /// Wraps a record of the schema `schema`.
    pub fn new(schema: &catalog::Schema, inner: catalog::Trigger) -> (r: Self)
        ensures
            r@ == TriggerView::new(schema@, inner@),
    {
        Trigger { inner, parent: schema.name.clone() }
    }

    /// `"schema"."name"`.
    pub fn fullname(&self) -> (s: String)
        ensures
            s@ == self@.fullname(),
    {
        qualify(self.parent.as_str(), self.inner.name.as_str())
    }
}

impl Comparable for Trigger {
    open spec fn same(a: TriggerView, b: TriggerView) -> bool {
        a.inner == b.inner
    }

    proof fn lemma_same_reflexive(a: TriggerView) {
    }

    fn alike(&self, other: &Self) -> (r: bool) {
        self.inner.alike(&other.inner)
    }

    fn copy(&self) -> (r: Self) {
        Trigger {
            inner: self.inner.copy(),
            parent: self.parent.clone(),
        }
    }
}

impl Clone for Trigger {
    fn clone(&self) -> (r: Self)
        ensures
            r@ == self@,
    {
        self.copy()
    }
}

impl PartialEq for Trigger {
    fn eq(&self, other: &Self) -> (r: bool) {
        self.alike(other)
    }
}

impl PartialEqSpecImpl for Trigger {
    open spec fn obeys_eq_spec() -> bool {
        true
    }

    open spec fn eq_spec(&self, other: &Self) -> bool {
        Trigger::same(self@, other@)
    }
}

impl Eq for Trigger {}

/// A constraint of a table or of a domain.
#[derive(Debug)]
pub struct Constraint {
    /// The record of the catalog.
    pub inner: catalog::Constraint,
    /// The qualified name of the table or domain, as it is written in DDL.
    pub parent_name: String,
    /// The word for the parent in DDL: `table`, `domain`.
    pub parent_type: String,
}

/// The model of [`Constraint`].
pub struct ConstraintView {
    pub inner: catalog::ConstraintView,
    pub parent_name: Seq<char>,
    pub parent_type: Seq<char>,
}

impl View for Constraint {
    type V = ConstraintView;

    open spec fn view(&self) -> ConstraintView {
        ConstraintView {
            inner: self.inner@,
            parent_name: self.parent_name@,
            parent_type: self.parent_type@,
        }
    }
}

impl ConstraintView {
    /// The constraint that `inner` describes, of the parent named.
    pub open spec fn new(
        parent_type: Seq<char>,
        parent_name: Seq<char>,
        inner: catalog::ConstraintView,
    ) -> ConstraintView {
        ConstraintView { inner, parent_name, parent_type }
    }

    /// The name of the parent and the name of the constraint, each in quotes.
    pub open spec fn fullname(self) -> Seq<char> {
        qualified(self.parent_name, self.inner.name)
    }
}

impl Constraint {
    /// Wraps a record of the parent named: `parent_type` is the word for the
    /// parent in DDL, `parent_name` its qualified name.
    pub fn new(parent_type: &str, parent_name: &str, inner: catalog::Constraint) -> (r: Self)
        ensures
            r@ == ConstraintView::new(parent_type@, parent_name@, inner@),
    {
        Constraint {
            inner,
            parent_name: String::from_str(parent_name),
            parent_type: String::from_str(parent_type),
        }
    }

    /// The name of the parent and the name of the constraint, each in quotes.
    pub fn fullname(&self) -> (s: String)
        ensures
            s@ == self@.fullname(),
    {
        qualify(self.parent_name.as_str(), self.inner.name.as_str())
    }
}

impl Comparable for Constraint {
    open spec fn same(a: ConstraintView, b: ConstraintView) -> bool {
        &&& a.inner.name == b.inner.name
        &&& a.inner.definition == b.inner.definition
    }

    proof fn lemma_same_reflexive(a: ConstraintView) {
    }

    fn alike(&self, other: &Self) -> (r: bool) {
        self.inner.name == other.inner.name
            && self.inner.definition == other.inner.definition
    }

    fn copy(&self) -> (r: Self) {
        Constraint {
            inner: self.inner.copy(),
            parent_name: self.parent_name.clone(),
            parent_type: self.parent_type.clone(),
        }
    }
}

impl Clone for Constraint {
    fn clone(&self) -> (r: Self)
        ensures
            r@ == self@,
    {
        self.copy()
    }
}

impl PartialEq for Constraint {
    fn eq(&self, other: &Self) -> (r: bool) {
        self.alike(other)
    }
}

impl PartialEqSpecImpl for Constraint {
    open spec fn obeys_eq_spec() -> bool {
        true
    }

    open spec fn eq_spec(&self, other: &Self) -> bool {
        Constraint::same(self@, other@)
    }
}

impl Eq for Constraint {}

/// An index of a relation.
#[derive(Debug)]
pub struct Index {
    /// The record of the catalog.
    pub inner: catalog::Index,
    /// The name of the relation's schema.
    pub schema: String,
    /// The name of the relation.
    pub relation: String,
}

/// The model of [`Index`].
pub struct IndexView {
    pub inner: catalog::IndexView,
    pub schema: Seq<char>,
    pub relation: Seq<char>,
}

impl View for Index {
    type V = IndexView;

    open spec fn view(&self) -> IndexView {
        IndexView {
            inner: self.inner@,
            schema: self.schema@,
            relation: self.relation@,
        }
    }
}

impl IndexView {
    /// The index that `inner` describes, of the relation `relation`.
    pub open spec fn new(relation: catalog::RelationView, inner: catalog::IndexView) -> IndexView {
        IndexView { inner, schema: relation.schema, relation: relation.name }
    }

    /// The name of the index, unqualified.
    pub open spec fn fullname(self) -> Seq<char> {
        self.inner.name
    }
}

impl Index {
    /// Wraps a record of the relation `relation`.
    pub fn new(relation: &catalog::Relation, inner: catalog::Index) -> (r: Self)
        ensures
            r@ == IndexView::new(relation@, inner@),
    {
        Index { inner, schema: relation.schema.clone(), relation: relation.name.clone() }
    }

    /// The name of the index, unqualified.
    pub fn fullname(&self) -> (s: String)
        ensures
            s@ == self@.fullname(),
    {
        self.inner.name.clone()
    }
}

impl Comparable for Index {
    open spec fn same(a: IndexView, b: IndexView) -> bool {
        &&& a.inner.name == b.inner.name
        &&& a.inner.definition == b.inner.definition
    }

    proof fn lemma_same_reflexive(a: IndexView) {
    }

    fn alike(&self, other: &Self) -> (r: bool) {
        self.inner.name == other.inner.name
            && self.inner.definition == other.inner.definition
    }

    fn copy(&self) -> (r: Self) {
        Index {
            inner: self.inner.copy(),
            schema: self.schema.clone(),
            relation: self.relation.clone(),
        }
    }
}

impl Clone for Index {
    fn clone(&self) -> (r: Self)
        ensures
            r@ == self@,
    {
        self.copy()
    }
}

impl PartialEq for Index {
    fn eq(&self, other: &Self) -> (r: bool) {
        self.alike(other)
    }
}

impl PartialEqSpecImpl for Index {
    open spec fn obeys_eq_spec() -> bool {
        true
    }

    open spec fn eq_spec(&self, other: &Self) -> bool {
        Index::same(self@, other@)
    }
}

impl Eq for Index {}
/// A domain of a schema, with its constraints by key.
#[derive(Debug)]
pub struct Domain {
    /// The record of the catalog.
    pub inner: catalog::Domain,
    /// The name of the schema.
    pub parent: String,
    pub constraints: OrderedMap<Constraint>,
}

/// The model of [`Domain`].
pub struct DomainView {
    pub inner: catalog::DomainView,
    pub parent: Seq<char>,
    pub constraints: Entries<ConstraintView>,
}

impl View for Domain {
    type V = DomainView;

    open spec fn view(&self) -> DomainView {
        DomainView {
            inner: self.inner@,
            parent: self.parent@,
            constraints: self.constraints.model(),
        }
    }
}

/// The key and the node of a constraint of the domain `domain` in `schema`.
pub open spec fn domain_constraint_entry(
    schema: Seq<char>,
    domain: Seq<char>,
) -> spec_fn(catalog::ConstraintView) -> (Seq<char>, ConstraintView) {
    |c: catalog::ConstraintView|
        (
            child_key(child_key(schema, domain), c.name),
            ConstraintView::new("domain"@, qualified(schema, domain), c),
        )
}

impl DomainView {
    /// The domain that `inner` describes, in the schema `schema`, with the
    /// constraints of the record by key.
    pub open spec fn new(schema: catalog::SchemaView, inner: catalog::DomainView) -> DomainView {
        DomainView {
            inner,
            parent: schema.name,
            constraints: collect(
                inner.constraints.map_values(domain_constraint_entry(schema.name, inner.name)),
            ),
        }
    }

    /// `"schema"."name"`.
    pub open spec fn fullname(self) -> Seq<char> {
        qualified(self.parent, self.inner.name)
    }

    /// The constraints of the domain are sorted by key.
    pub open spec fn wf(self) -> bool {
        sorted(self.constraints)
    }
}

/// A domain that was assembled from its record is well formed.
pub proof fn lemma_domain_wf(schema: catalog::SchemaView, inner: catalog::DomainView)
    ensures
        DomainView::new(schema, inner).wf(),
{
    lemma_collect_sorted(
        inner.constraints.map_values(domain_constraint_entry(schema.name, inner.name)),
    );
}

impl Domain {
    /// Wraps a record of the schema `schema` and keys its constraints.
    pub fn new(schema: &catalog::Schema, inner: catalog::Domain) -> (r: Self)
        ensures
            r@ == DomainView::new(schema@, inner@),
            r@.wf(),
    {
        proof {
            lemma_domain_wf(schema@, inner@);
        }
        let prefix = make_key(schema.name.as_str(), inner.name.as_str());
        let fullname = qualify(schema.name.as_str(), inner.name.as_str());
        let ghost entry = domain_constraint_entry(schema@.name, inner@.name);
        let keyed = |c: catalog::Constraint| -> (p: (String, Constraint))
            ensures
                (p.0@, p.1@) == entry(c@),
            {
                let key = make_key(prefix.as_str(), c.name.as_str());
                (key, Constraint::new("domain", fullname.as_str(), c))
            };
        let constraints = gather(copy_all(&inner.constraints), keyed, Ghost(entry));
        Domain { inner, parent: schema.name.clone(), constraints }
    }

    /// `"schema"."name"`.
    pub fn fullname(&self) -> (s: String)
        ensures
            s@ == self@.fullname(),
    {
        qualify(self.parent.as_str(), self.inner.name.as_str())
    }
}

impl Comparable for Domain {
    open spec fn same(a: DomainView, b: DomainView) -> bool {
        a.inner == b.inner
    }

    proof fn lemma_same_reflexive(a: DomainView) {
    }

    fn alike(&self, other: &Self) -> (r: bool) {
        self.inner.alike(&other.inner)
    }

    fn copy(&self) -> (r: Self) {
        Domain {
            inner: self.inner.copy(),
            parent: self.parent.clone(),
            constraints: self.constraints.clone(),
        }
    }
}

impl Clone for Domain {
    fn clone(&self) -> (r: Self)
        ensures
            r@ == self@,
    {
        self.copy()
    }
}

impl PartialEq for Domain {
    fn eq(&self, other: &Self) -> (r: bool) {
        self.alike(other)
    }
}

impl PartialEqSpecImpl for Domain {
    open spec fn obeys_eq_spec() -> bool {
        true
    }

    open spec fn eq_spec(&self, other: &Self) -> bool {
        Domain::same(self@, other@)
    }
}

impl Eq for Domain {}

/// A table, a view or another relation of a schema, with its columns,
/// constraints and indexes by key.
#[derive(Debug)]
pub struct Relation {
    /// The record of the catalog.
    pub inner: catalog::Relation,
    pub columns: OrderedMap<Column>,
    pub constraints: OrderedMap<Constraint>,
    pub indexes: OrderedMap<Index>,
}

/// The model of [`Relation`].
pub struct RelationView {
    pub inner: catalog::RelationView,
    pub columns: Entries<ColumnView>,
    pub constraints: Entries<ConstraintView>,
    pub indexes: Entries<IndexView>,
}

impl View for Relation {
    type V = RelationView;

    open spec fn view(&self) -> RelationView {
        RelationView {
            inner: self.inner@,
            columns: self.columns.model(),
            constraints: self.constraints.model(),
            indexes: self.indexes.model(),
        }
    }
}

/// The key of a relation: the names of its schema and of the relation.
pub open spec fn relation_key(relation: catalog::RelationView) -> Seq<char> {
    child_key(relation.schema, relation.name)
}

/// The key and the node of a column of `relation`.
pub open spec fn column_entry(relation: catalog::RelationView) -> spec_fn(catalog::ColumnView) -> (
    Seq<char>,
    ColumnView,
) {
    |c: catalog::ColumnView|
        (child_key(relation_key(relation), c.name), ColumnView::new(relation, c))
}

/// The key and the node of a constraint of `relation`.
pub open spec fn relation_constraint_entry(relation: catalog::RelationView) -> spec_fn(
    catalog::ConstraintView,
) -> (Seq<char>, ConstraintView) {
    |c: catalog::ConstraintView|
        (
            child_key(relation_key(relation), c.name),
            ConstraintView::new(
                catalog::kind_text(relation.kind),
                qualified(relation.schema, relation.name),
                c,
            ),
        )
}

/// The key and the node of an index of `relation`.
pub open spec fn index_entry(relation: catalog::RelationView) -> spec_fn(catalog::IndexView) -> (
    Seq<char>,
    IndexView,
) {
    |x: catalog::IndexView| (child_key(relation_key(relation), x.name), IndexView::new(relation, x))
}

impl RelationView {
    /// The relation that `inner` describes, with the columns, constraints
    /// and indexes given, each under its key.
    pub open spec fn new(
        inner: catalog::RelationView,
        columns: Seq<catalog::ColumnView>,
        constraints: Seq<catalog::ConstraintView>,
        indexes: Seq<catalog::IndexView>,
    ) -> RelationView {
        RelationView {
            inner,
            columns: collect(columns.map_values(column_entry(inner))),
            constraints: collect(constraints.map_values(relation_constraint_entry(inner))),
            indexes: collect(indexes.map_values(index_entry(inner))),
        }
    }

    /// `"schema"."name"`.
    pub open spec fn fullname(self) -> Seq<char> {
        qualified(self.inner.schema, self.inner.name)
    }

    /// Each map of the relation is sorted by key.
    pub open spec fn wf(self) -> bool {
        sorted(self.columns) && sorted(self.constraints) && sorted(self.indexes)
    }
}

/// A relation that was assembled from records is well formed.
pub proof fn lemma_relation_wf(
    inner: catalog::RelationView,
    columns: Seq<catalog::ColumnView>,
    constraints: Seq<catalog::ConstraintView>,
    indexes: Seq<catalog::IndexView>,
)
    ensures
        RelationView::new(inner, columns, constraints, indexes).wf(),
{
    lemma_collect_sorted(columns.map_values(column_entry(inner)));
    lemma_collect_sorted(constraints.map_values(relation_constraint_entry(inner)));
    lemma_collect_sorted(indexes.map_values(index_entry(inner)));
}

impl Relation {
    /// Assembles a relation from its record and the records of its columns,
    /// constraints and indexes.
    pub fn new(
        inner: catalog::Relation,
        columns: Vec<catalog::Column>,
        constraints: Vec<catalog::Constraint>,
        indexes: Vec<catalog::Index>,
    ) -> (r: Self)
        ensures
            r@ == RelationView::new(inner@, views(columns@), views(constraints@), views(indexes@)),
            r@.wf(),
    {
        proof {
            lemma_relation_wf(inner@, views(columns@), views(constraints@), views(indexes@));
        }
        let prefix = make_key(inner.schema.as_str(), inner.name.as_str());
        let fullname = qualify(inner.schema.as_str(), inner.name.as_str());
        let kind = inner.kind.name();

        let ghost column = column_entry(inner@);
        let keyed_column = |c: catalog::Column| -> (p: (String, Column))
            ensures
                (p.0@, p.1@) == column(c@),
            {
                let key = make_key(prefix.as_str(), c.name.as_str());
                (key, Column::new(&inner, c))
            };
        let columns = gather(columns, keyed_column, Ghost(column));

        let ghost constraint = relation_constraint_entry(inner@);
        let keyed_constraint = |c: catalog::Constraint| -> (p: (String, Constraint))
            ensures
                (p.0@, p.1@) == constraint(c@),
            {
                let key = make_key(prefix.as_str(), c.name.as_str());
                (key, Constraint::new(kind, fullname.as_str(), c))
            };
        let constraints = gather(constraints, keyed_constraint, Ghost(constraint));

        let ghost index = index_entry(inner@);
        let keyed_index = |x: catalog::Index| -> (p: (String, Index))
            ensures
                (p.0@, p.1@) == index(x@),
            {
                let key = make_key(prefix.as_str(), x.name.as_str());
                (key, Index::new(&inner, x))
            };
        let indexes = gather(indexes, keyed_index, Ghost(index));

        Relation { inner, columns, constraints, indexes }
    }

    /// `"schema"."name"`.
    pub fn fullname(&self) -> (s: String)
        ensures
            s@ == self@.fullname(),
    {
        qualify(self.inner.schema.as_str(), self.inner.name.as_str())
    }
}

impl Comparable for Relation {
    open spec fn same(a: RelationView, b: RelationView) -> bool {
        a.inner.kind == b.inner.kind && a.inner.name == b.inner.name && a.inner.comment
            == b.inner.comment && a.inner.definition == b.inner.definition
    }

    proof fn lemma_same_reflexive(a: RelationView) {
    }

    fn alike(&self, other: &Self) -> (r: bool) {
        self.inner.kind == other.inner.kind
            && self.inner.name == other.inner.name
            && same_opt(&self.inner.comment, &other.inner.comment)
            && same_opt(&self.inner.definition, &other.inner.definition)
    }

    fn copy(&self) -> (r: Self) {
        Relation {
            inner: self.inner.copy(),
            columns: self.columns.clone(),
            constraints: self.constraints.clone(),
            indexes: self.indexes.clone(),
        }
    }
}

impl Clone for Relation {
    fn clone(&self) -> (r: Self)
        ensures
            r@ == self@,
    {
        self.copy()
    }
}

impl PartialEq for Relation {
    fn eq(&self, other: &Self) -> (r: bool) {
        self.alike(other)
    }
}

impl PartialEqSpecImpl for Relation {
    open spec fn obeys_eq_spec() -> bool {
        true
    }

    open spec fn eq_spec(&self, other: &Self) -> bool {
        Relation::same(self@, other@)
    }
}

impl Eq for Relation {}

/// A schema, with each kind of object in it by key.
#[derive(Debug)]
pub struct Schema {
    /// The record of the catalog.
    pub inner: catalog::Schema,
    pub relations: OrderedMap<Relation>,
    pub enums: OrderedMap<Enum>,
    pub domains: OrderedMap<Domain>,
    pub composites: OrderedMap<Composite>,
    pub extensions: OrderedMap<Extension>,
    pub functions: OrderedMap<Function>,
    pub triggers: OrderedMap<Trigger>,
}

/// The model of [`Schema`].
pub struct SchemaView {
    pub inner: catalog::SchemaView,
    pub relations: Entries<RelationView>,
    pub enums: Entries<EnumView>,
    pub domains: Entries<DomainView>,
    pub composites: Entries<CompositeView>,
    pub extensions: Entries<ExtensionView>,
    pub functions: Entries<FunctionView>,
    pub triggers: Entries<TriggerView>,
}

impl View for Schema {
    type V = SchemaView;

    open spec fn view(&self) -> SchemaView {
        SchemaView {
            inner: self.inner@,
            relations: self.relations.model(),
            enums: self.enums.model(),
            domains: self.domains.model(),
            composites: self.composites.model(),
            extensions: self.extensions.model(),
            functions: self.functions.model(),
            triggers: self.triggers.model(),
        }
    }
}

/// The key and the node of a relation of the schema named `schema`.
pub open spec fn relation_entry(schema: Seq<char>) -> spec_fn(RelationView) -> (
    Seq<char>,
    RelationView,
) {
    |r: RelationView| (child_key(schema, r.inner.name), r)
}

/// The key and the node of an enum of `schema`.
pub open spec fn enum_entry(schema: catalog::SchemaView) -> spec_fn(catalog::EnumView) -> (
    Seq<char>,
    EnumView,
) {
    |x: catalog::EnumView| (child_key(schema.name, x.name), EnumView::new(schema, x))
}

/// The key and the node of a domain of `schema`.
pub open spec fn domain_entry(schema: catalog::SchemaView) -> spec_fn(catalog::DomainView) -> (
    Seq<char>,
    DomainView,
) {
    |x: catalog::DomainView| (child_key(schema.name, x.name), DomainView::new(schema, x))
}

/// The key and the node of a composite type of `schema`.
pub open spec fn composite_entry(schema: catalog::SchemaView) -> spec_fn(
    catalog::CompositeView,
) -> (Seq<char>, CompositeView) {
    |x: catalog::CompositeView| (child_key(schema.name, x.name), CompositeView::new(schema, x))
}

/// The key and the node of an extension of `schema`.
pub open spec fn extension_entry(schema: catalog::SchemaView) -> spec_fn(
    catalog::ExtensionView,
) -> (Seq<char>, ExtensionView) {
    |x: catalog::ExtensionView| (child_key(schema.name, x.name), ExtensionView::new(schema, x))
}

/// The key and the node of a function of `schema`.
pub open spec fn function_entry(schema: catalog::SchemaView) -> spec_fn(
    catalog::FunctionView,
) -> (Seq<char>, FunctionView) {
    |x: catalog::FunctionView| (child_key(schema.name, x.name), FunctionView::new(schema, x))
}

/// The key and the node of a trigger of `schema`.
pub open spec fn trigger_entry(schema: catalog::SchemaView) -> spec_fn(catalog::TriggerView) -> (
    Seq<char>,
    TriggerView,
) {
    |x: catalog::TriggerView| (child_key(schema.name, x.name), TriggerView::new(schema, x))
}

impl SchemaView {
    /// The schema that `inner` describes, with the relations given and the
    /// objects that the other records describe, each under its key.
    pub open spec fn new(
        inner: catalog::SchemaView,
        relations: Seq<RelationView>,
        enums: Seq<catalog::EnumView>,
        domains: Seq<catalog::DomainView>,
        composites: Seq<catalog::CompositeView>,
        extensions: Seq<catalog::ExtensionView>,
        functions: Seq<catalog::FunctionView>,
        triggers: Seq<catalog::TriggerView>,
    ) -> SchemaView {
        SchemaView {
            inner,
            relations: collect(relations.map_values(relation_entry(inner.name))),
            enums: collect(enums.map_values(enum_entry(inner))),
            domains: collect(domains.map_values(domain_entry(inner))),
            composites: collect(composites.map_values(composite_entry(inner))),
            extensions: collect(extensions.map_values(extension_entry(inner))),
            functions: collect(functions.map_values(function_entry(inner))),
            triggers: collect(triggers.map_values(trigger_entry(inner))),
        }
    }

    /// The name of the schema, without quotes.
    pub open spec fn fullname(self) -> Seq<char> {
        self.inner.name
    }

    /// Each map of the schema is sorted by key, and so are the maps of its
    /// relations and domains.
    pub open spec fn wf(self) -> bool {
        &&& sorted(self.relations)
        &&& forall|i: int| 0 <= i < self.relations.len() ==> (#[trigger] self.relations[i]).1.wf()
        &&& sorted(self.enums)
        &&& sorted(self.domains)
        &&& forall|i: int| 0 <= i < self.domains.len() ==> (#[trigger] self.domains[i]).1.wf()
        &&& sorted(self.composites)
        &&& sorted(self.extensions)
        &&& sorted(self.functions)
        &&& sorted(self.triggers)
    }
}

/// A relation is well formed.
pub open spec fn relation_wf() -> spec_fn(RelationView) -> bool {
    |r: RelationView| r.wf()
}

/// A domain is well formed.
pub open spec fn domain_wf() -> spec_fn(DomainView) -> bool {
    |d: DomainView| d.wf()
}

/// A schema is well formed.
pub open spec fn schema_wf() -> spec_fn(SchemaView) -> bool {
    |s: SchemaView| s.wf()
}

/// A schema that was assembled from well-formed relations and from records
/// is well formed.
pub proof fn lemma_schema_wf(
    inner: catalog::SchemaView,
    relations: Seq<RelationView>,
    enums: Seq<catalog::EnumView>,
    domains: Seq<catalog::DomainView>,
    composites: Seq<catalog::CompositeView>,
    extensions: Seq<catalog::ExtensionView>,
    functions: Seq<catalog::FunctionView>,
    triggers: Seq<catalog::TriggerView>,
)
    requires
        forall|i: int| 0 <= i < relations.len() ==> (#[trigger] relations[i]).wf(),
    ensures
        SchemaView::new(
            inner,
            relations,
            enums,
            domains,
            composites,
            extensions,
            functions,
            triggers,
        ).wf(),
{
    let keyed_relations = relations.map_values(relation_entry(inner.name));
    let keyed_domains = domains.map_values(domain_entry(inner));
    lemma_collect_sorted(keyed_relations);
    lemma_collect_sorted(enums.map_values(enum_entry(inner)));
    lemma_collect_sorted(keyed_domains);
    lemma_collect_sorted(composites.map_values(composite_entry(inner)));
    lemma_collect_sorted(extensions.map_values(extension_entry(inner)));
    lemma_collect_sorted(functions.map_values(function_entry(inner)));
    lemma_collect_sorted(triggers.map_values(trigger_entry(inner)));
    assert forall|i: int| 0 <= i < keyed_relations.len() implies relation_wf()(
        (#[trigger] keyed_relations[i]).1,
    ) by {
        assert(relations[i].wf());
    }
    lemma_collect_values(keyed_relations, relation_wf());
    assert forall|i: int| 0 <= i < keyed_domains.len() implies domain_wf()(
        (#[trigger] keyed_domains[i]).1,
    ) by {
        lemma_domain_wf(inner, domains[i]);
    }
    lemma_collect_values(keyed_domains, domain_wf());
}

impl Schema {
    /// Assembles a schema from its record, its relations and the records of
    /// its other objects.
    pub fn new(
        inner: catalog::Schema,
        relations: Vec<Relation>,
        enums: Vec<catalog::Enum>,
        domains: Vec<catalog::Domain>,
        composites: Vec<catalog::Composite>,
        extensions: Vec<catalog::Extension>,
        functions: Vec<catalog::Function>,
        triggers: Vec<catalog::Trigger>,
    ) -> (r: Self)
        ensures
            r@ == SchemaView::new(
                inner@,
                views(relations@),
                views(enums@),
                views(domains@),
                views(composites@),
                views(extensions@),
                views(functions@),
                views(triggers@),
            ),
            (forall|i: int| 0 <= i < relations@.len() ==> (#[trigger] relations@[i])@.wf())
                ==> r@.wf(),
    {
        proof {
            if forall|i: int| 0 <= i < relations@.len() ==> (#[trigger] relations@[i])@.wf() {
                assert forall|i: int| 0 <= i < views(relations@).len() implies (
                #[trigger] views(relations@)[i]).wf() by {
                    assert(relations@[i]@.wf());
                }
                lemma_schema_wf(
                    inner@,
                    views(relations@),
                    views(enums@),
                    views(domains@),
                    views(composites@),
                    views(extensions@),
                    views(functions@),
                    views(triggers@),
                );
            }
        }
        let ghost relation = relation_entry(inner@.name);
        let keyed_relation = |x: Relation| -> (p: (String, Relation))
            ensures
                (p.0@, p.1@) == relation(x@),
            {
                let key = make_key(inner.name.as_str(), x.inner.name.as_str());
                (key, x)
            };
        let relations = gather(relations, keyed_relation, Ghost(relation));

        let ghost enumeration = enum_entry(inner@);
        let keyed_enum = |x: catalog::Enum| -> (p: (String, Enum))
            ensures
                (p.0@, p.1@) == enumeration(x@),
            {
                let key = make_key(inner.name.as_str(), x.name.as_str());
                (key, Enum::new(&inner, x))
            };
        let enums = gather(enums, keyed_enum, Ghost(enumeration));

        let ghost domain = domain_entry(inner@);
        let keyed_domain = |x: catalog::Domain| -> (p: (String, Domain))
            ensures
                (p.0@, p.1@) == domain(x@),
            {
                let key = make_key(inner.name.as_str(), x.name.as_str());
                (key, Domain::new(&inner, x))
            };
        let domains = gather(domains, keyed_domain, Ghost(domain));

        let ghost composite = composite_entry(inner@);
        let keyed_composite = |x: catalog::Composite| -> (p: (String, Composite))
            ensures
                (p.0@, p.1@) == composite(x@),
            {
                let key = make_key(inner.name.as_str(), x.name.as_str());
                (key, Composite::new(&inner, x))
            };
        let composites = gather(composites, keyed_composite, Ghost(composite));

        let ghost extension = extension_entry(inner@);
        let keyed_extension = |x: catalog::Extension| -> (p: (String, Extension))
            ensures
                (p.0@, p.1@) == extension(x@),
            {
                let key = make_key(inner.name.as_str(), x.name.as_str());
                (key, Extension::new(&inner, x))
            };
        let extensions = gather(extensions, keyed_extension, Ghost(extension));

        let ghost function = function_entry(inner@);
        let keyed_function = |x: catalog::Function| -> (p: (String, Function))
            ensures
                (p.0@, p.1@) == function(x@),
            {
                let key = make_key(inner.name.as_str(), x.name.as_str());
                (key, Function::new(&inner, x))
            };
        let functions = gather(functions, keyed_function, Ghost(function));

        let ghost trigger = trigger_entry(inner@);
        let keyed_trigger = |x: catalog::Trigger| -> (p: (String, Trigger))
            ensures
                (p.0@, p.1@) == trigger(x@),
            {
                let key = make_key(inner.name.as_str(), x.name.as_str());
                (key, Trigger::new(&inner, x))
            };
        let triggers = gather(triggers, keyed_trigger, Ghost(trigger));

        Schema { inner, relations, enums, domains, composites, extensions, functions, triggers }
    }

    /// The name of the schema, without quotes.
    pub fn fullname(&self) -> (s: String)
        ensures
            s@ == self@.fullname(),
    {
        self.inner.name.clone()
    }
}

impl Comparable for Schema {
    open spec fn same(a: SchemaView, b: SchemaView) -> bool {
        a.inner.name == b.inner.name && a.inner.comment == b.inner.comment
    }

    proof fn lemma_same_reflexive(a: SchemaView) {
    }

    fn alike(&self, other: &Self) -> (r: bool) {
        self.inner.name == other.inner.name && self.inner.comment == other.inner.comment
    }

    fn copy(&self) -> (r: Self) {
        Schema {
            inner: self.inner.copy(),
            relations: self.relations.clone(),
            enums: self.enums.clone(),
            domains: self.domains.clone(),
            composites: self.composites.clone(),
            extensions: self.extensions.clone(),
            functions: self.functions.clone(),
            triggers: self.triggers.clone(),
        }
    }
}

impl Clone for Schema {
    fn clone(&self) -> (r: Self)
        ensures
            r@ == self@,
    {
        self.copy()
    }
}

impl PartialEq for Schema {
    fn eq(&self, other: &Self) -> (r: bool) {
        self.alike(other)
    }
}

impl PartialEqSpecImpl for Schema {
    open spec fn obeys_eq_spec() -> bool {
        true
    }

    open spec fn eq_spec(&self, other: &Self) -> bool {
        Schema::same(self@, other@)
    }
}

impl Eq for Schema {}

/// A database: its schemas by name.
#[derive(Debug)]
pub struct Database {
    pub schemas: OrderedMap<Schema>,
}

/// The model of [`Database`].
pub struct DatabaseView {
    pub schemas: Entries<SchemaView>,
}

impl View for Database {
    type V = DatabaseView;

    open spec fn view(&self) -> DatabaseView {
        DatabaseView { schemas: self.schemas.model() }
    }
}

/// The key and the node of a schema: its key is its name.
pub open spec fn schema_entry() -> spec_fn(SchemaView) -> (Seq<char>, SchemaView) {
    |s: SchemaView| (s.inner.name, s)
}

impl DatabaseView {
    /// The database that holds `schemas`, each under its name.
    pub open spec fn new(schemas: Seq<SchemaView>) -> DatabaseView {
        DatabaseView { schemas: collect(schemas.map_values(schema_entry())) }
    }

    /// The schemas are sorted by name, and every map below them by key.
    pub open spec fn wf(self) -> bool {
        &&& sorted(self.schemas)
        &&& forall|i: int| 0 <= i < self.schemas.len() ==> (#[trigger] self.schemas[i]).1.wf()
    }
}

/// A database that was assembled from well-formed schemas is well formed.
pub proof fn lemma_database_wf(schemas: Seq<SchemaView>)
    requires
        forall|i: int| 0 <= i < schemas.len() ==> (#[trigger] schemas[i]).wf(),
    ensures
        DatabaseView::new(schemas).wf(),
{
    let keyed = schemas.map_values(schema_entry());
    lemma_collect_sorted(keyed);
    assert forall|i: int| 0 <= i < keyed.len() implies schema_wf()((#[trigger] keyed[i]).1) by {
        assert(schemas[i].wf());
    }
    lemma_collect_values(keyed, schema_wf());
}

impl Database {
    /// Assembles a database from its schemas.
    pub fn new(schemas: Vec<Schema>) -> (r: Self)
        ensures
            r@ == DatabaseView::new(views(schemas@)),
            (forall|i: int| 0 <= i < schemas@.len() ==> (#[trigger] schemas@[i])@.wf()) ==> r@.wf(),
    {
        proof {
            if forall|i: int| 0 <= i < schemas@.len() ==> (#[trigger] schemas@[i])@.wf() {
                assert forall|i: int| 0 <= i < views(schemas@).len() implies (#[trigger] views(
                    schemas@,
                )[i]).wf() by {
                    assert(schemas@[i]@.wf());
                }
                lemma_database_wf(views(schemas@));
            }
        }
        let ghost schema = schema_entry();
        let keyed_schema = |x: Schema| -> (p: (String, Schema))
            ensures
                (p.0@, p.1@) == schema(x@),
            {
                let key = x.inner.name.clone();
                (key, x)
            };
        Database { schemas: gather(schemas, keyed_schema, Ghost(schema)) }
    }
}

impl Clone for Database {
    fn clone(&self) -> (r: Self)
        ensures
            r@ == self@,
    {
        Database { schemas: self.schemas.clone() }
    }
}

} // verus!
