//! Code generation for a small template compiler.
//!
//! The input is an already-parsed template: an ordered sequence of [`ast::Node`]
//! values mixing literal text, interpolations, conditionals, loops, imports and
//! typed parameter declarations.  The output is the source text of a complete
//! guest-language module with two entry points, one returning a string-builder
//! value and one returning a finished string.
//!
//! The contracts pin the generated text down exactly: `renderer::render`
//! succeeds if and only if no traversal level declares the same parameter name
//! twice, and on success the output equals the module text described by the
//! spec functions in [`model`].

pub mod ast;
pub mod escape;
pub mod laws;
pub mod model;
pub mod renderer;

pub use ast::Node;
pub use ast::Range;
pub use ast::RenderError;
pub use renderer::render;
pub use renderer::render_lines;
