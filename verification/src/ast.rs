//! The template abstract syntax tree consumed by the renderer, and the
//! renderer's error type.

use vstd::prelude::*;

verus! {

/// A source-position range attached to nodes that may be diagnosed.
/// It is carried through unchanged and only ever reported back in errors.
#[derive(Clone, Copy, Debug, PartialEq, Eq, Structural)]
pub struct Range {
    pub start: usize,
    pub end: usize,
}

/// One element of the parsed template, in source order.
#[derive(Debug)]
pub enum Node {
    /// Literal text to append to the output buffer.
    Text(String),
    /// A variable whose value is appended after conversion to the guest
    /// string type.
    Identifier(String),
    /// A variable that already holds a buffer value, appended by structural
    /// concatenation rather than string conversion.
    Builder(String),
    /// A guest-language import line to hoist to the top of the module.
    Import(String),
    /// Declares a render-function parameter: (name, range for diagnostics)
    /// and the declared type, verbatim.
    With((String, Range), String),
    /// Conditional: condition identifier, then-branch nodes, else-branch nodes.
    If(String, Vec<Node>, Vec<Node>),
    /// Loop: loop-variable name, optional loop-variable type, list identifier,
    /// body nodes.
    For(String, Option<String>, String, Vec<Node>),
}

/// The single failure the renderer can report: a `With` node reused a
/// parameter name already declared at the same traversal level.  Carries the
/// repeated name and the source range of the later declaration.
#[derive(Debug)]
pub enum RenderError {
    DuplicateParamName(String, Range),
}

} // verus!
