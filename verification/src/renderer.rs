//! The renderer: one traversal level of emitted statements and accumulators
//! ([`render_lines`]), and the assembly of the complete module ([`render`]).

use vstd::prelude::*;
use vstd::string::{StrSliceExecFns, StringExecFns};
use crate::ast::{Node, RenderError};
use crate::escape::escape_text;
use crate::model::{
    err_of, has_name, imports_of, import_line, lines_of, module_of, params_args,
    params_of, params_sig, sig_entry, arg_entry, lemma_imports_push, lemma_join_push,
    lemma_lines_push, lemma_params_push,
};

verus! {

/// Linear search for `name` among the collected parameter entries, in place
/// of a hash map so that the collection order stays deterministic.
fn contains_name(params: &Vec<(String, String)>, name: &String) -> (r: bool)
    ensures
        r == has_name(params.deep_view(), name@),
{
    let mut k: usize = 0;
    while k < params.len()
        invariant
            k <= params@.len(),
            forall|j: int| 0 <= j < k ==> params.deep_view()[j].0 != name@,
        decreases params@.len() - k,
    {
        if params[k].0 == *name {
            proof {
                assert(params.deep_view()[k as int].0 == name@);
            }
            return true;
        }
        k = k + 1;
    }
    false
}

/// One traversal level: walk `nodes` in order and produce the emitted
/// buffer-building statements, the import lines and the (name, type)
/// parameter entries collected at this level.  Nested `If`/`For` bodies are
/// rendered by fresh recursive traversals whose own imports and parameters
/// are discarded; an error anywhere, nested levels included, aborts the
/// whole traversal.
pub fn render_lines(nodes: &Vec<Node>) -> (r: Result<
    (String, Vec<String>, Vec<(String, String)>),
    RenderError,
>)
    ensures
        (r is Ok) <==> (err_of(nodes@, Seq::empty()) is None),
        r matches Ok(out) ==> {
            &&& out.0@ == lines_of(nodes@)
            &&& out.1.deep_view() == imports_of(nodes@)
            &&& out.2.deep_view() == params_of(nodes@)
        },
        r matches Err(e) ==> (e matches RenderError::DuplicateParamName(name, range)
            && Some((name@, range)) == err_of(nodes@, Seq::empty())),
    decreases nodes@,
{
    let mut builder_lines = String::new();
    let mut imports: Vec<String> = Vec::new();
    let mut typed_params: Vec<(String, String)> = Vec::new();
    let n = nodes.len();
    let mut i: usize = 0;
    proof {
        assert(nodes@.skip(0) =~= nodes@);
        assert(typed_params.deep_view() =~= Seq::<(Seq<char>, Seq<char>)>::empty());
        assert(builder_lines@ =~= lines_of(nodes@.take(0)));
        assert(imports.deep_view() =~= imports_of(nodes@.take(0)));
        assert(typed_params.deep_view() =~= params_of(nodes@.take(0)));
    }
    while i < n
        invariant
            n == nodes@.len(),
            i <= n,
            builder_lines@ == lines_of(nodes@.take(i as int)),
            imports.deep_view() == imports_of(nodes@.take(i as int)),
            typed_params.deep_view() == params_of(nodes@.take(i as int)),
            err_of(nodes@, Seq::empty()) == err_of(
                nodes@.skip(i as int),
                typed_params.deep_view(),
            ),
        decreases n - i,
    {
        proof {
            assert(nodes@.skip(i as int)[0] == nodes@[i as int]);
            assert(nodes@.skip(i as int).drop_first() =~= nodes@.skip(i + 1 as int));
            assert(nodes@.take(i + 1 as int) =~= nodes@.take(i as int).push(nodes@[i as int]));
            lemma_lines_push(nodes@.take(i as int), nodes@[i as int]);
            lemma_imports_push(nodes@.take(i as int), nodes@[i as int]);
            lemma_params_push(nodes@.take(i as int), nodes@[i as int]);
        }
        match &nodes[i] {
            Node::Text(text) => {
                let escaped_text = escape_text(text.as_str());
                builder_lines.append("    let builder = string_builder.append(builder, \"");
                builder_lines.append(escaped_text.as_str());
                builder_lines.append("\")\n");
                proof {
                    assert(builder_lines@ =~= lines_of(nodes@.take(i + 1 as int)));
                    assert(err_of(nodes@.skip(i as int), typed_params.deep_view()) == err_of(
                        nodes@.skip(i + 1 as int),
                        typed_params.deep_view(),
                    ));
                }
            },
            Node::Identifier(name) => {
                builder_lines.append("    let builder = string_builder.append(builder, ");
                builder_lines.append(name.as_str());
                builder_lines.append(")\n");
                proof {
                    assert(builder_lines@ =~= lines_of(nodes@.take(i + 1 as int)));
                    assert(err_of(nodes@.skip(i as int), typed_params.deep_view()) == err_of(
                        nodes@.skip(i + 1 as int),
                        typed_params.deep_view(),
                    ));
                }
            },
            Node::Builder(name) => {
                builder_lines.append("    let builder = string_builder.append_builder(builder, ");
                builder_lines.append(name.as_str());
                builder_lines.append(")\n");
                proof {
                    assert(builder_lines@ =~= lines_of(nodes@.take(i + 1 as int)));
                    assert(err_of(nodes@.skip(i as int), typed_params.deep_view()) == err_of(
                        nodes@.skip(i + 1 as int),
                        typed_params.deep_view(),
                    ));
                }
            },
            Node::Import(import_details) => {
                imports.push(import_details.clone());
                proof {
                    assert(imports.deep_view() =~= imports_of(nodes@.take(i + 1 as int)));
                    assert(err_of(nodes@.skip(i as int), typed_params.deep_view()) == err_of(
                        nodes@.skip(i + 1 as int),
                        typed_params.deep_view(),
                    ));
                }
            },
            Node::With((identifier, range), type_) => {
                let ghost old_dv = typed_params.deep_view();
                if contains_name(&typed_params, identifier) {
                    proof {
                        assert(err_of(nodes@.skip(i as int), old_dv) == Some((
                            identifier@,
                            *range,
                        )));
                    }
                    return Err(RenderError::DuplicateParamName(identifier.clone(), *range));
                }
                typed_params.push((identifier.clone(), type_.clone()));
                proof {
                    assert(typed_params.deep_view() =~= old_dv.push((identifier@, type_@)));
                    assert(typed_params.deep_view() =~= params_of(nodes@.take(i + 1 as int)));
                    assert(err_of(nodes@.skip(i as int), old_dv) == err_of(
                        nodes@.skip(i + 1 as int),
                        typed_params.deep_view(),
                    ));
                }
            },
            Node::If(identifier_name, if_nodes, else_nodes) => {
                proof {
                    assert(decreases_to!(nodes@ => nodes@[i as int]));
                    assert(nodes@[i as int]->If_1 == *if_nodes);
                    assert(nodes@[i as int]->If_2 == *else_nodes);
                    assert(decreases_to!(nodes@[i as int] => nodes@[i as int]->If_1@));
                    assert(decreases_to!(nodes@[i as int] => nodes@[i as int]->If_2@));
                }
                let if_result = match render_lines(if_nodes) {
                    Ok(out) => out,
                    Err(e) => {
                        proof {
                            assert(err_of(nodes@.skip(i as int), typed_params.deep_view())
                                == err_of(if_nodes@, Seq::empty()));
                        }
                        return Err(e);
                    },
                };
                let else_result = match render_lines(else_nodes) {
                    Ok(out) => out,
                    Err(e) => {
                        proof {
                            assert(err_of(nodes@.skip(i as int), typed_params.deep_view())
                                == err_of(else_nodes@, Seq::empty()));
                        }
                        return Err(e);
                    },
                };
                builder_lines.append("    let builder = case ");
                builder_lines.append(identifier_name.as_str());
                builder_lines.append(" {\n        True -> {\n            ");
                builder_lines.append(if_result.0.as_str());
                builder_lines.append(
                    "\n            builder\n        }\n        False -> {\n            ",
                );
                builder_lines.append(else_result.0.as_str());
                builder_lines.append("\n            builder\n        }\n}\n");
                proof {
                    assert(builder_lines@ =~= lines_of(nodes@.take(i + 1 as int)));
                    assert(err_of(nodes@.skip(i as int), typed_params.deep_view()) == err_of(
                        nodes@.skip(i + 1 as int),
                        typed_params.deep_view(),
                    ));
                }
            },
            Node::For(entry_identifier, entry_type, list_identifier, loop_nodes) => {
                proof {
                    assert(decreases_to!(nodes@ => nodes@[i as int]));
                    assert(nodes@[i as int]->For_3 == *loop_nodes);
                    assert(decreases_to!(nodes@[i as int] => nodes@[i as int]->For_3@));
                }
                let loop_result = match render_lines(loop_nodes) {
                    Ok(out) => out,
                    Err(e) => {
                        proof {
                            assert(err_of(nodes@.skip(i as int), typed_params.deep_view())
                                == err_of(loop_nodes@, Seq::empty()));
                        }
                        return Err(e);
                    },
                };
                builder_lines.append("    let builder = list.fold(");
                builder_lines.append(list_identifier.as_str());
                builder_lines.append(", builder, fn(builder, ");
                builder_lines.append(entry_identifier.as_str());
                match entry_type {
                    Some(value) => {
                        builder_lines.append(": ");
                        builder_lines.append(value.as_str());
                    },
                    None => {},
                }
                builder_lines.append(") {\n        ");
                builder_lines.append(loop_result.0.as_str());
                builder_lines.append("\n        builder\n})\n");
                proof {
                    assert(builder_lines@ =~= lines_of(nodes@.take(i + 1 as int)));
                    assert(err_of(nodes@.skip(i as int), typed_params.deep_view()) == err_of(
                        nodes@.skip(i + 1 as int),
                        typed_params.deep_view(),
                    ));
                }
            },
        }
        i = i + 1;
    }
    proof {
        assert(nodes@.take(n as int) =~= nodes@);
        assert(nodes@.skip(n as int) =~= Seq::<Node>::empty());
    }
    Ok((builder_lines, imports, typed_params))
}

/// The user import block: one `import` line per collected entry, joined with
/// newlines.
fn build_import_block(imports: &Vec<String>) -> (out: String)
    ensures
        out@ == crate::model::import_block(imports.deep_view()),
{
    let mut out = String::new();
    let mut k: usize = 0;
    proof {
        assert(imports.deep_view().take(0).map_values(|d: Seq<char>| import_line(d))
            =~= Seq::<Seq<char>>::empty());
    }
    while k < imports.len()
        invariant
            k <= imports@.len(),
            out@ == crate::model::join(
                imports.deep_view().take(k as int).map_values(|d: Seq<char>| import_line(d)),
                "\n"@,
            ),
        decreases imports@.len() - k,
    {
        let ghost items = imports.deep_view().take(k as int).map_values(
            |d: Seq<char>| import_line(d),
        );
        proof {
            lemma_join_push(items, import_line(imports.deep_view()[k as int]), "\n"@);
            assert(imports.deep_view().take(k + 1 as int).map_values(
                |d: Seq<char>| import_line(d),
            ) =~= items.push(import_line(imports.deep_view()[k as int])));
        }
        if k > 0 {
            out.append("\n");
        }
        out.append("import ");
        out.append(imports[k].as_str());
        proof {
            assert(out@ =~= crate::model::join(
                imports.deep_view().take(k + 1 as int).map_values(|d: Seq<char>| import_line(d)),
                "\n"@,
            ));
        }
        k = k + 1;
    }
    proof {
        assert(imports.deep_view().take(imports@.len() as int) =~= imports.deep_view());
    }
    out
}

/// The declared parameter list of both generated functions: `name name: Type`
/// entries joined with `, `.
fn build_params_sig(params: &Vec<(String, String)>) -> (out: String)
    ensures
        out@ == params_sig(params.deep_view()),
{
    let mut out = String::new();
    let mut k: usize = 0;
    proof {
        assert(params.deep_view().take(0).map_values(|p: (Seq<char>, Seq<char>)| sig_entry(p))
            =~= Seq::<Seq<char>>::empty());
    }
    while k < params.len()
        invariant
            k <= params@.len(),
            out@ == crate::model::join(
                params.deep_view().take(k as int).map_values(
                    |p: (Seq<char>, Seq<char>)| sig_entry(p),
                ),
                ", "@,
            ),
        decreases params@.len() - k,
    {
        let ghost items = params.deep_view().take(k as int).map_values(
            |p: (Seq<char>, Seq<char>)| sig_entry(p),
        );
        proof {
            lemma_join_push(items, sig_entry(params.deep_view()[k as int]), ", "@);
            assert(params.deep_view().take(k + 1 as int).map_values(
                |p: (Seq<char>, Seq<char>)| sig_entry(p),
            ) =~= items.push(sig_entry(params.deep_view()[k as int])));
        }
        if k > 0 {
            out.append(", ");
        }
        out.append(params[k].0.as_str());
        out.append(" ");
        out.append(params[k].0.as_str());
        out.append(": ");
        out.append(params[k].1.as_str());
        proof {
            assert(out@ =~= crate::model::join(
                params.deep_view().take(k + 1 as int).map_values(
                    |p: (Seq<char>, Seq<char>)| sig_entry(p),
                ),
                ", "@,
            ));
        }
        k = k + 1;
    }
    proof {
        assert(params.deep_view().take(params@.len() as int) =~= params.deep_view());
    }
    out
}

/// The forwarding argument list: `name: name` entries joined with `, `.
fn build_params_args(params: &Vec<(String, String)>) -> (out: String)
    ensures
        out@ == params_args(params.deep_view()),
{
    let mut out = String::new();
    let mut k: usize = 0;
    proof {
        assert(params.deep_view().take(0).map_values(|p: (Seq<char>, Seq<char>)| arg_entry(p))
            =~= Seq::<Seq<char>>::empty());
    }
    while k < params.len()
        invariant
            k <= params@.len(),
            out@ == crate::model::join(
                params.deep_view().take(k as int).map_values(
                    |p: (Seq<char>, Seq<char>)| arg_entry(p),
                ),
                ", "@,
            ),
        decreases params@.len() - k,
    {
        let ghost items = params.deep_view().take(k as int).map_values(
            |p: (Seq<char>, Seq<char>)| arg_entry(p),
        );
        proof {
            lemma_join_push(items, arg_entry(params.deep_view()[k as int]), ", "@);
            assert(params.deep_view().take(k + 1 as int).map_values(
                |p: (Seq<char>, Seq<char>)| arg_entry(p),
            ) =~= items.push(arg_entry(params.deep_view()[k as int])));
        }
        if k > 0 {
            out.append(", ");
        }
        out.append(params[k].0.as_str());
        out.append(": ");
        out.append(params[k].0.as_str());
        proof {
            assert(out@ =~= crate::model::join(
                params.deep_view().take(k + 1 as int).map_values(
                    |p: (Seq<char>, Seq<char>)| arg_entry(p),
                ),
                ", "@,
            ));
        }
        k = k + 1;
    }
    proof {
        assert(params.deep_view().take(params@.len() as int) =~= params.deep_view());
    }
    out
}

/// The top-level render: one traversal of the whole node sequence, then the
/// assembly of the complete guest-language module around the emitted
/// statements.  Succeeds, with exactly the module text [`module_of`]
/// describes, if and only if no traversal level declares a parameter name
/// twice; otherwise it reports the first duplicate, with the name and source
/// range of the later declaration, and produces no text.
pub fn render(nodes: &Vec<Node>) -> (r: Result<String, RenderError>)
    ensures
        (r is Ok) <==> (err_of(nodes@, Seq::empty()) is None),
        r matches Ok(out) ==> out@ == module_of(nodes@),
        r matches Err(e) ==> (e matches RenderError::DuplicateParamName(name, range)
            && Some((name@, range)) == err_of(nodes@, Seq::empty())),
{
    let (builder_lines, imports, typed_params) = match render_lines(nodes) {
        Ok(out) => out,
        Err(e) => {
            return Err(e);
        },
    };
    let import_lines = build_import_block(&imports);
    let params_string = build_params_sig(&typed_params);
    let args_string = build_params_args(&typed_params);

    let mut output = String::new();
    output.append("import gleam/string_builder.{StringBuilder}\nimport gleam/list\n\n");
    output.append(import_lines.as_str());
    output.append("\n\npub fn render_builder(");
    output.append(params_string.as_str());
    output.append(") -> StringBuilder {\n    let builder = string_builder.from_string(\"\")\n");
    output.append(builder_lines.as_str());
    output.append("    builder\n}\n\npub fn render(");
    output.append(params_string.as_str());
    output.append(") -> String {\n    string_builder.to_string(render_builder(");
    output.append(args_string.as_str());
    output.append("))\n}\n");
    proof {
        assert(output@ =~= module_of(nodes@));
    }
    Ok(output)
}

} // verus!
