//! Context.
//!
//! The context provides information about the project: its name, its
//! version and its URL. Templates see each of them under its own name.

use vstd::prelude::*;

verus! {

/// Represents project contexts.
#[derive(Debug, Clone, PartialEq, Eq)]
pub struct Context {
    /// The name of the project.
    pub name: String,
    /// The version of the project.
    pub version: String,
    /// The URL of the project.
    pub url: String,
}

/// What a context holds.
pub ghost struct ContextView {
    /// The name of the project.
    pub name: Seq<char>,
    /// The version of the project.
    pub version: Seq<char>,
    /// The URL of the project.
    pub url: Seq<char>,
}

impl View for Context {
    type V = ContextView;

    open spec fn view(&self) -> ContextView {
        ContextView { name: self.name@, version: self.version@, url: self.url@ }
    }
}

} // verus!
