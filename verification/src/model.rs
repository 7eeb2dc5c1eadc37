//! The mathematical model of the generated module text.
//!
//! These spec functions define, character for character, what the renderer
//! emits for a node sequence: the buffer-building statements of one traversal
//! level ([`lines_of`]), the imports and parameters collected at that level
//! ([`imports_of`], [`params_of`]), the first duplicate-parameter error if any
//! ([`err_of`]), and the assembled module ([`module_of`]).

use vstd::prelude::*;
use crate::ast::{Node, Range};
use crate::escape::escaped;

verus! {

// ---------------------------------------------------------------------------
// Text fragments of the emitted statements.
// ---------------------------------------------------------------------------

/// Opening of an append statement for a literal, up to the opening quote.
pub open spec fn text_open() -> Seq<char> {
    "    let builder = string_builder.append(builder, \""@
}

/// Closing quote and parenthesis of an append statement for a literal.
pub open spec fn text_close() -> Seq<char> {
    "\")\n"@
}

/// Opening of an append statement for an identifier.
pub open spec fn ident_open() -> Seq<char> {
    "    let builder = string_builder.append(builder, "@
}

/// Opening of an append statement for a builder-typed identifier.
pub open spec fn builder_open() -> Seq<char> {
    "    let builder = string_builder.append_builder(builder, "@
}

/// Closing parenthesis of an identifier or builder append statement.
pub open spec fn ident_close() -> Seq<char> {
    ")\n"@
}

/// Opening of a conditional statement, up to the condition identifier.
pub open spec fn if_open() -> Seq<char> {
    "    let builder = case "@
}

/// Between the condition identifier and the statements of the true arm.
pub open spec fn if_true_arm() -> Seq<char> {
    " {\n        True -> {\n            "@
}

/// Between the statements of the true arm and those of the false arm.
pub open spec fn if_false_arm() -> Seq<char> {
    "\n            builder\n        }\n        False -> {\n            "@
}

/// Closing of a conditional statement after the false arm's statements.
pub open spec fn if_close() -> Seq<char> {
    "\n            builder\n        }\n}\n"@
}

/// Opening of a fold statement, up to the list identifier.
pub open spec fn for_open() -> Seq<char> {
    "    let builder = list.fold("@
}

/// Between the list identifier and the loop-variable name.
pub open spec fn for_callback() -> Seq<char> {
    ", builder, fn(builder, "@
}

/// Between the loop-variable declaration and the body's statements.
pub open spec fn for_body() -> Seq<char> {
    ") {\n        "@
}

/// Closing of a fold statement after the body's statements.
pub open spec fn for_close() -> Seq<char> {
    "\n        builder\n})\n"@
}

/// The type annotation of a loop variable: `: T` when a type was declared,
/// nothing otherwise.
pub open spec fn type_suffix(entry_type: Option<String>) -> Seq<char> {
    match entry_type {
        Some(t) => ": "@ + t@,
        None => Seq::empty(),
    }
}

// ---------------------------------------------------------------------------
// Emitted statements of one traversal level.
// ---------------------------------------------------------------------------

/// The statement text a single node contributes to its own traversal level.
/// `Import` and `With` nodes only feed the accumulators and emit nothing.
pub open spec fn node_lines(n: Node) -> Seq<char>
    decreases n,
{
    match n {
        Node::Text(s) => text_open() + escaped(s@) + text_close(),
        Node::Identifier(name) => ident_open() + name@ + ident_close(),
        Node::Builder(name) => builder_open() + name@ + ident_close(),
        Node::Import(_) => Seq::empty(),
        Node::With(_, _) => Seq::empty(),
        Node::If(cond, then_nodes, else_nodes) => if_open() + cond@ + if_true_arm()
            + lines_of(then_nodes@) + if_false_arm() + lines_of(else_nodes@) + if_close(),
        Node::For(entry, entry_type, list, body) => for_open() + list@ + for_callback()
            + entry@ + type_suffix(entry_type) + for_body() + lines_of(body@) + for_close(),
    }
}

/// The statements of a whole traversal level, in node order.
pub open spec fn lines_of(nodes: Seq<Node>) -> Seq<char>
    decreases nodes,
{
    if nodes.len() == 0 {
        Seq::empty()
    } else {
        node_lines(nodes[0]) + lines_of(nodes.drop_first())
    }
}

// ---------------------------------------------------------------------------
// Accumulators of one traversal level.
// ---------------------------------------------------------------------------

/// The import lines collected at this level, first-seen order, duplicates
/// kept.  Imports inside `If`/`For` bodies belong to the nested level and do
/// not appear here.
pub open spec fn imports_of(nodes: Seq<Node>) -> Seq<Seq<char>>
    decreases nodes.len(),
{
    if nodes.len() == 0 {
        Seq::empty()
    } else {
        match nodes[0] {
            Node::Import(details) => seq![details@] + imports_of(nodes.drop_first()),
            _ => imports_of(nodes.drop_first()),
        }
    }
}

/// The (name, declared type) parameter entries collected at this level, in
/// declaration order.  `With` nodes inside `If`/`For` bodies feed the nested
/// level's accumulator, which is discarded, so they do not appear here.
pub open spec fn params_of(nodes: Seq<Node>) -> Seq<(Seq<char>, Seq<char>)>
    decreases nodes.len(),
{
    if nodes.len() == 0 {
        Seq::empty()
    } else {
        match nodes[0] {
            Node::With((name, _), ty) => seq![(name@, ty@)] + params_of(nodes.drop_first()),
            _ => params_of(nodes.drop_first()),
        }
    }
}

/// Whether a parameter list already holds an entry under `name`.
pub open spec fn has_name(params: Seq<(Seq<char>, Seq<char>)>, name: Seq<char>) -> bool {
    exists|k: int| 0 <= k < params.len() && params[k].0 == name
}

// ---------------------------------------------------------------------------
// The failure condition.
// ---------------------------------------------------------------------------

/// The first duplicate-parameter error of a traversal that starts with the
/// parameter entries `seen` already collected: `Some((name, range))` of the
/// offending `With` node, or `None` when the whole traversal, nested levels
/// included, is duplicate-free.  Nested levels start from an empty
/// accumulator, and a nested error aborts the render just like a top-level
/// one.
pub open spec fn err_of(nodes: Seq<Node>, seen: Seq<(Seq<char>, Seq<char>)>) -> Option<
    (Seq<char>, Range),
>
    decreases nodes,
{
    if nodes.len() == 0 {
        None
    } else {
        match nodes[0] {
            Node::With((name, range), ty) => if has_name(seen, name@) {
                Some((name@, range))
            } else {
                err_of(nodes.drop_first(), seen.push((name@, ty@)))
            },
            Node::If(_, then_nodes, else_nodes) => if err_of(then_nodes@, Seq::empty()) is Some {
                err_of(then_nodes@, Seq::empty())
            } else if err_of(else_nodes@, Seq::empty()) is Some {
                err_of(else_nodes@, Seq::empty())
            } else {
                err_of(nodes.drop_first(), seen)
            },
            Node::For(_, _, _, body) => if err_of(body@, Seq::empty()) is Some {
                err_of(body@, Seq::empty())
            } else {
                err_of(nodes.drop_first(), seen)
            },
            _ => err_of(nodes.drop_first(), seen),
        }
    }
}

// ---------------------------------------------------------------------------
// Module assembly.
// ---------------------------------------------------------------------------

/// `items` joined with the separator `sep`, nothing added before the first
/// or after the last item.
pub open spec fn join(items: Seq<Seq<char>>, sep: Seq<char>) -> Seq<char>
    decreases items.len(),
{
    if items.len() == 0 {
        Seq::empty()
    } else if items.len() == 1 {
        items[0]
    } else {
        items[0] + sep + join(items.drop_first(), sep)
    }
}

/// One user import line.
pub open spec fn import_line(details: Seq<char>) -> Seq<char> {
    "import "@ + details
}

/// One entry of the declared parameter list: `name name: Type` (an external
/// label and an internal name, both the declared name).
pub open spec fn sig_entry(p: (Seq<char>, Seq<char>)) -> Seq<char> {
    p.0 + " "@ + p.0 + ": "@ + p.1
}

/// One entry of the forwarding argument list: `name: name`.
pub open spec fn arg_entry(p: (Seq<char>, Seq<char>)) -> Seq<char> {
    p.0 + ": "@ + p.0
}

/// The declared parameter list of both public functions.
pub open spec fn params_sig(params: Seq<(Seq<char>, Seq<char>)>) -> Seq<char> {
    join(params.map_values(|p: (Seq<char>, Seq<char>)| sig_entry(p)), ", "@)
}

/// The argument list the string-returning function forwards to the
/// builder-returning one.
pub open spec fn params_args(params: Seq<(Seq<char>, Seq<char>)>) -> Seq<char> {
    join(params.map_values(|p: (Seq<char>, Seq<char>)| arg_entry(p)), ", "@)
}

/// The user import block: one line per collected import, in order.
pub open spec fn import_block(imports: Seq<Seq<char>>) -> Seq<char> {
    join(imports.map_values(|d: Seq<char>| import_line(d)), "\n"@)
}

/// The fixed preamble: the string-builder and list-fold imports.
pub open spec fn module_header() -> Seq<char> {
    "import gleam/string_builder.{StringBuilder}\nimport gleam/list\n\n"@
}

/// Between the user imports and the builder function's parameter list.
pub open spec fn module_builder_fn() -> Seq<char> {
    "\n\npub fn render_builder("@
}

/// Between the builder function's parameter list and its emitted statements.
pub open spec fn module_builder_body() -> Seq<char> {
    ") -> StringBuilder {\n    let builder = string_builder.from_string(\"\")\n"@
}

/// Between the emitted statements and the string function's parameter list.
pub open spec fn module_render_fn() -> Seq<char> {
    "    builder\n}\n\npub fn render("@
}

/// Between the string function's parameter list and the forwarded arguments.
pub open spec fn module_render_body() -> Seq<char> {
    ") -> String {\n    string_builder.to_string(render_builder("@
}

/// Closing of the string-returning function.
pub open spec fn module_close() -> Seq<char> {
    "))\n}\n"@
}

/// The complete module text generated for `nodes` when no duplicate
/// parameter aborts the render.
pub open spec fn module_of(nodes: Seq<Node>) -> Seq<char> {
    module_header() + import_block(imports_of(nodes)) + module_builder_fn()
        + params_sig(params_of(nodes)) + module_builder_body() + lines_of(nodes)
        + module_render_fn() + params_sig(params_of(nodes)) + module_render_body()
        + params_args(params_of(nodes)) + module_close()
}

// ---------------------------------------------------------------------------
// Unfolding lemmas: how each accumulator grows by one node at the tail.
// ---------------------------------------------------------------------------

/// The import entries a single node contributes to its own level.
pub open spec fn node_imports(n: Node) -> Seq<Seq<char>> {
    match n {
        Node::Import(details) => seq![details@],
        _ => Seq::empty(),
    }
}

/// The parameter entries a single node contributes to its own level.
pub open spec fn node_params(n: Node) -> Seq<(Seq<char>, Seq<char>)> {
    match n {
        Node::With((name, _), ty) => seq![(name@, ty@)],
        _ => Seq::empty(),
    }
}

pub proof fn lemma_lines_push(s: Seq<Node>, n: Node)
    ensures
        lines_of(s.push(n)) == lines_of(s) + node_lines(n),
    decreases s.len(),
{
    if s.len() == 0 {
        assert(s.push(n)[0] == n);
        assert(s.push(n).drop_first() =~= Seq::<Node>::empty());
        assert(lines_of(s.push(n)) == node_lines(n) + lines_of(Seq::<Node>::empty()));
        assert(lines_of(s.push(n)) =~= lines_of(s) + node_lines(n));
    } else {
        lemma_lines_push(s.drop_first(), n);
        assert(s.push(n).drop_first() =~= s.drop_first().push(n));
        assert(s.push(n)[0] == s[0]);
        assert(lines_of(s.push(n)) == node_lines(s[0]) + lines_of(s.drop_first().push(n)));
        assert(lines_of(s.push(n)) == node_lines(s[0]) + (lines_of(s.drop_first())
            + node_lines(n)));
        assert(lines_of(s) == node_lines(s[0]) + lines_of(s.drop_first()));
        assert(lines_of(s.push(n)) =~= lines_of(s) + node_lines(n));
    }
}

pub proof fn lemma_imports_push(s: Seq<Node>, n: Node)
    ensures
        imports_of(s.push(n)) == imports_of(s) + node_imports(n),
    decreases s.len(),
{
    if s.len() == 0 {
        assert(s.push(n)[0] == n);
        assert(s.push(n).drop_first() =~= Seq::<Node>::empty());
        assert(imports_of(s.push(n)) =~= node_imports(n) + imports_of(Seq::<Node>::empty()));
        assert(imports_of(s.push(n)) =~= imports_of(s) + node_imports(n));
    } else {
        lemma_imports_push(s.drop_first(), n);
        assert(s.push(n).drop_first() =~= s.drop_first().push(n));
        assert(s.push(n)[0] == s[0]);
        assert(imports_of(s.push(n)) =~= node_imports(s[0]) + imports_of(
            s.drop_first().push(n),
        ));
        assert(imports_of(s.push(n)) =~= node_imports(s[0]) + (imports_of(s.drop_first())
            + node_imports(n)));
        assert(imports_of(s) =~= node_imports(s[0]) + imports_of(s.drop_first()));
        assert(imports_of(s.push(n)) =~= imports_of(s) + node_imports(n));
    }
}

pub proof fn lemma_params_push(s: Seq<Node>, n: Node)
    ensures
        params_of(s.push(n)) == params_of(s) + node_params(n),
    decreases s.len(),
{
    if s.len() == 0 {
        assert(s.push(n)[0] == n);
        assert(s.push(n).drop_first() =~= Seq::<Node>::empty());
        assert(params_of(s.push(n)) =~= node_params(n) + params_of(Seq::<Node>::empty()));
        assert(params_of(s.push(n)) =~= params_of(s) + node_params(n));
    } else {
        lemma_params_push(s.drop_first(), n);
        assert(s.push(n).drop_first() =~= s.drop_first().push(n));
        assert(s.push(n)[0] == s[0]);
        assert(params_of(s.push(n)) =~= node_params(s[0]) + params_of(s.drop_first().push(n)));
        assert(params_of(s.push(n)) =~= node_params(s[0]) + (params_of(s.drop_first())
            + node_params(n)));
        assert(params_of(s) =~= node_params(s[0]) + params_of(s.drop_first()));
        assert(params_of(s.push(n)) =~= params_of(s) + node_params(n));
    }
}

pub proof fn lemma_join_push(items: Seq<Seq<char>>, item: Seq<char>, sep: Seq<char>)
    ensures
        items.len() == 0 ==> join(items.push(item), sep) == item,
        items.len() > 0 ==> join(items.push(item), sep) == join(items, sep) + sep + item,
    decreases items.len(),
{
    if items.len() == 0 {
        assert(join(items.push(item), sep) =~= item);
    } else if items.len() == 1 {
        assert(items.push(item).drop_first() =~= seq![item]);
        assert(items.push(item)[0] == items[0]);
        assert(join(seq![item], sep) == item);
        assert(join(items, sep) == items[0]);
        assert(join(items.push(item), sep) =~= join(items, sep) + sep + item);
    } else {
        lemma_join_push(items.drop_first(), item, sep);
        assert(items.push(item).drop_first() =~= items.drop_first().push(item));
        assert(items.push(item)[0] == items[0]);
        assert(join(items.push(item), sep) =~= items[0] + sep + join(
            items.drop_first().push(item),
            sep,
        ));
        assert(join(items.push(item), sep) =~= items[0] + sep + (join(items.drop_first(), sep)
            + sep + item));
        assert(join(items, sep) =~= items[0] + sep + join(items.drop_first(), sep));
        assert(join(items.push(item), sep) =~= join(items, sep) + sep + item);
    }
}

} // verus!
