//! Declarative `data-cw-*` bindings.

use vstd::prelude::*;

verus! {

/// Supported declarative DOM operations.
#[derive(Debug, Clone, PartialEq, Eq)]
pub enum BindingKind {
    Text,
    Class { name: String },
    Style { property: String },
    Action { event: String },
}

/// A compiled `data-cw-*` declaration.
#[derive(Debug, Clone, PartialEq, Eq)]
pub struct Binding {
    pub node: u64,
    pub kind: BindingKind,
    pub path: String,
    pub filters: Vec<String>,
}

} // verus!
