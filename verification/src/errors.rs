//! The error taxonomy of the bootstrap core.
//!
//! Declaration-shape errors (duplicate verbs, zero verbs, unknown attribute
//! keys, a handler without a return type) are detected while declarations are
//! being checked, before any task runs. Runtime-shaped errors (configuration,
//! dependency resolution, task failure) are propagated as values; nothing is
//! silently swallowed, and every failure names the offending type key, field
//! or prefix.

use vstd::prelude::*;

verus! {

/// Every failure the core can report.
#[derive(PartialEq, Eq, Debug)]
pub enum BootError {
    /// No configuration subtree exists under the requested prefix.
    ConfigMissing { prefix: String },
    /// The subtree under the prefix is structurally incompatible with the
    /// requested shape; `detail` names the offending field.
    ConfigTypeMismatch { prefix: String, detail: String },
    /// A component-injected field names a type key that was never registered.
    ComponentNotFound { field: String, type_key: u64 },
    /// A singleton was inserted twice under one type key. Registration is a
    /// one-shot operation: the second insertion is rejected and the first
    /// value is kept.
    DuplicateComponent { type_key: u64 },
    /// One handler declaration names the same HTTP verb twice.
    DuplicateVerbDeclaration { verb: String },
    /// A handler declaration names no HTTP verb at all.
    ZeroVerbsDeclared,
    /// A routing attribute carries a key other than `method`.
    UnknownAttributeKey { key: String },
    /// A handler declaration has no result type, so it cannot produce a
    /// response value.
    MissingHandlerReturnType,
    /// A verb token is not one of the fixed set of upper-case HTTP methods.
    UnknownVerb { verb: String },
    /// A single-verb routing attribute also carries a `method` option; only
    /// the multi-verb form may name methods explicitly.
    MethodForbiddenHere,
    /// A `method` option carries something other than a literal string.
    AttributeValueNotString { key: String },
    /// A constructor-injected field's user constructor reported a failure,
    /// which becomes the construction failure of the whole service.
    ConstructorFailure { field: String, detail: String },
    /// A scheduled task ended with a failure, which becomes the terminal
    /// result of the whole run.
    TaskFailure { task: u64, detail: String },
}

/// The mathematical value of a [`BootError`]: the same variants, with every
/// string replaced by its character sequence. Contracts speak of this form.
pub enum ErrView {
    ConfigMissing { prefix: Seq<char> },
    ConfigTypeMismatch { prefix: Seq<char>, detail: Seq<char> },
    ComponentNotFound { field: Seq<char>, type_key: u64 },
    DuplicateComponent { type_key: u64 },
    DuplicateVerbDeclaration { verb: Seq<char> },
    ZeroVerbsDeclared,
    UnknownAttributeKey { key: Seq<char> },
    MissingHandlerReturnType,
    UnknownVerb { verb: Seq<char> },
    MethodForbiddenHere,
    AttributeValueNotString { key: Seq<char> },
    ConstructorFailure { field: Seq<char>, detail: Seq<char> },
    TaskFailure { task: u64, detail: Seq<char> },
}

/// A boundary error wrapper: the textual failure handed outward where a
/// response body or an exit message is produced.
pub struct AppError {
    message: String,
}

impl View for AppError {
    type V = Seq<char>;

    closed spec fn view(&self) -> Seq<char> {
        self.message@
    }
}

impl AppError {
    /// Wraps a failure text.
    pub fn wrap(message: String) -> (r: AppError)
        ensures
            r@ == message@,
    {
        AppError { message }
    }

    /// The wrapped failure text.
    pub fn message(&self) -> (r: &str)
        ensures
            r@ == self@,
    {
        self.message.as_str()
    }
}

impl View for BootError {
    type V = ErrView;

    open spec fn view(&self) -> ErrView {
        match self {
            BootError::ConfigMissing { prefix } => ErrView::ConfigMissing { prefix: prefix@ },
            BootError::ConfigTypeMismatch { prefix, detail } => ErrView::ConfigTypeMismatch {
                prefix: prefix@,
                detail: detail@,
            },
            BootError::ComponentNotFound { field, type_key } => ErrView::ComponentNotFound {
                field: field@,
                type_key: *type_key,
            },
            BootError::DuplicateComponent { type_key } => ErrView::DuplicateComponent {
                type_key: *type_key,
            },
            BootError::DuplicateVerbDeclaration { verb } => ErrView::DuplicateVerbDeclaration {
                verb: verb@,
            },
            BootError::ZeroVerbsDeclared => ErrView::ZeroVerbsDeclared,
            BootError::UnknownAttributeKey { key } => ErrView::UnknownAttributeKey { key: key@ },
            BootError::MissingHandlerReturnType => ErrView::MissingHandlerReturnType,
            BootError::UnknownVerb { verb } => ErrView::UnknownVerb { verb: verb@ },
            BootError::MethodForbiddenHere => ErrView::MethodForbiddenHere,
            BootError::AttributeValueNotString { key } => ErrView::AttributeValueNotString {
                key: key@,
            },
            BootError::ConstructorFailure { field, detail } => ErrView::ConstructorFailure {
                field: field@,
                detail: detail@,
            },
            BootError::TaskFailure { task, detail } => ErrView::TaskFailure {
                task: *task,
                detail: detail@,
            },
        }
    }
}

} // verus!
