//! The values a component registry can hold: plain values, opaque resource
//! handles owned by the embedding application, configuration shape instances,
//! router fragments, and fully resolved services.
//!
//! A component is a process-wide singleton identified by a type key: a `u64`
//! token the embedding application assigns, one per component type.

use vstd::prelude::*;

use crate::config::ConfigValue;
use crate::config::ValueView;
use crate::route::RouteBinding;
use crate::route::RouteBindingView;

verus! {

/// A plain value a user constructor can produce: a number, a text, a flag, or
/// an opaque handle to a resource the embedding application keeps (a
/// connection, a file); the core never looks inside a handle.
#[derive(PartialEq, Eq, Debug)]
pub enum Primitive {
    Num(i64),
    Text(String),
    Flag(bool),
    Handle(u64),
}

/// The mathematical value of a [`Primitive`].
pub enum PrimView {
    Num(i64),
    Text(Seq<char>),
    Flag(bool),
    Handle(u64),
}

impl View for Primitive {
    type V = PrimView;

    open spec fn view(&self) -> PrimView {
        match self {
            Primitive::Num(n) => PrimView::Num(*n),
            Primitive::Text(s) => PrimView::Text(s@),
            Primitive::Flag(b) => PrimView::Flag(*b),
            Primitive::Handle(h) => PrimView::Handle(*h),
        }
    }
}

/// The resolved value of one service field: a reference to a registered
/// singleton (held by its type key, as a shared handle), values extracted
/// from the configuration, or what a user constructor produced.
#[derive(PartialEq, Eq, Debug)]
pub enum FieldValue {
    Injected { type_key: u64 },
    FromConfig(Vec<ConfigValue>),
    Constructed(Primitive),
}

/// The mathematical value of a [`FieldValue`].
pub enum FieldValueView {
    Injected { type_key: u64 },
    FromConfig(Seq<ValueView>),
    Constructed(PrimView),
}

impl View for FieldValue {
    type V = FieldValueView;

    open spec fn view(&self) -> FieldValueView {
        match self {
            FieldValue::Injected { type_key } => FieldValueView::Injected { type_key: *type_key },
            FieldValue::FromConfig(vs) => FieldValueView::FromConfig(
                vs@.map(|i: int, v: ConfigValue| v@),
            ),
            FieldValue::Constructed(p) => FieldValueView::Constructed(p@),
        }
    }
}

/// One resolved field of a service, by name.
#[derive(PartialEq, Eq, Debug)]
pub struct ResolvedField {
    pub name: String,
    pub value: FieldValue,
}

/// The mathematical value of a [`ResolvedField`].
pub struct ResolvedFieldView {
    pub name: Seq<char>,
    pub value: FieldValueView,
}

impl View for ResolvedField {
    type V = ResolvedFieldView;

    open spec fn view(&self) -> ResolvedFieldView {
        ResolvedFieldView { name: self.name@, value: self.value@ }
    }
}

/// A fully resolved service: every declared field carries its resolved value,
/// in declaration order. There is no partial construction: a service either
/// resolves whole or not at all.
#[derive(PartialEq, Eq, Debug)]
pub struct ResolvedService {
    pub type_key: u64,
    pub name: String,
    pub fields: Vec<ResolvedField>,
}

/// The mathematical value of a [`ResolvedService`].
pub struct ResolvedServiceView {
    pub type_key: u64,
    pub name: Seq<char>,
    pub fields: Seq<ResolvedFieldView>,
}

impl View for ResolvedService {
    type V = ResolvedServiceView;

    open spec fn view(&self) -> ResolvedServiceView {
        ResolvedServiceView {
            type_key: self.type_key,
            name: self.name@,
            fields: self.fields@.map(|i: int, f: ResolvedField| f@),
        }
    }
}

/// A component value: what can be registered as a process-wide singleton.
#[derive(PartialEq, Eq, Debug)]
pub enum Component {
    Num(i64),
    Text(String),
    Flag(bool),
    Handle(u64),
    Values(Vec<ConfigValue>),
    Routes(Vec<RouteBinding>),
    Service(ResolvedService),
}

/// The mathematical value of a [`Component`].
pub enum ComponentView {
    Num(i64),
    Text(Seq<char>),
    Flag(bool),
    Handle(u64),
    Values(Seq<ValueView>),
    Routes(Seq<RouteBindingView>),
    Service(ResolvedServiceView),
}

impl View for Component {
    type V = ComponentView;

    open spec fn view(&self) -> ComponentView {
        match self {
            Component::Num(n) => ComponentView::Num(*n),
            Component::Text(s) => ComponentView::Text(s@),
            Component::Flag(b) => ComponentView::Flag(*b),
            Component::Handle(h) => ComponentView::Handle(*h),
            Component::Values(vs) => ComponentView::Values(vs@.map(|i: int, v: ConfigValue| v@)),
            Component::Routes(bs) => ComponentView::Routes(bs@.map(|i: int, b: RouteBinding| b@)),
            Component::Service(s) => ComponentView::Service(s@),
        }
    }
}

/// The mathematical values of a component list, in order.
pub open spec fn components_deep(s: Seq<Component>) -> Seq<ComponentView> {
    s.map(|i: int, c: Component| c@)
}

} // verus!
