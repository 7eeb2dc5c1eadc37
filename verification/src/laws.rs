//! General properties of the renderer, stated and proved over the model.

use vstd::prelude::*;
use crate::ast::{Node, Range};
use crate::escape::{esc_char, escaped, unescaped};
use crate::model::{err_of, has_name, lines_of, node_lines, node_params, params_of};

verus! {

// ---------------------------------------------------------------------------
// Order preservation.
// ---------------------------------------------------------------------------

/// The statement text of each node, in input order.
pub open spec fn stmts_of(nodes: Seq<Node>) -> Seq<Seq<char>> {
    Seq::new(nodes.len(), |i: int| node_lines(nodes[i]))
}

/// Order preservation: the emitted statements of a traversal level are the
/// per-node statements concatenated in exactly the input order — no node is
/// dropped, added or reordered.  For a sequence of `Text`/`Identifier`/
/// `Builder` nodes this is the emitted append statements in source order.
pub proof fn lemma_order_preservation(nodes: Seq<Node>)
    ensures
        lines_of(nodes) == stmts_of(nodes).flatten(),
    decreases nodes.len(),
{
    if nodes.len() == 0 {
        assert(stmts_of(nodes) =~= Seq::<Seq<char>>::empty());
        assert(lines_of(nodes) =~= stmts_of(nodes).flatten());
    } else {
        lemma_order_preservation(nodes.drop_first());
        assert(stmts_of(nodes).drop_first() =~= stmts_of(nodes.drop_first()));
        assert(stmts_of(nodes).first() == node_lines(nodes[0]));
        assert(stmts_of(nodes).flatten() == stmts_of(nodes).first() + stmts_of(
            nodes,
        ).drop_first().flatten());
        assert(lines_of(nodes) =~= stmts_of(nodes).flatten());
    }
}

// ---------------------------------------------------------------------------
// Parameter collection.
// ---------------------------------------------------------------------------

/// How many `With` nodes a sequence holds at its own level.
pub open spec fn with_count(nodes: Seq<Node>) -> int
    decreases nodes.len(),
{
    if nodes.len() == 0 {
        0
    } else {
        (if nodes[0] is With {
            1int
        } else {
            0int
        }) + with_count(nodes.drop_first())
    }
}

pub proof fn lemma_with_count_nonneg(nodes: Seq<Node>)
    ensures
        0 <= with_count(nodes),
    decreases nodes.len(),
{
    if nodes.len() > 0 {
        lemma_with_count_nonneg(nodes.drop_first());
    }
}

pub proof fn lemma_with_count_bound(nodes: Seq<Node>, j: int)
    requires
        0 <= j < nodes.len(),
        nodes[j] is With,
    ensures
        0 <= with_count(nodes.take(j)),
        with_count(nodes.take(j)) < with_count(nodes),
    decreases nodes.len(),
{
    lemma_with_count_nonneg(nodes.take(j));
    if j == 0 {
        assert(nodes.take(0) =~= Seq::<Node>::empty());
        lemma_with_count_nonneg(nodes.drop_first());
    } else {
        lemma_with_count_bound(nodes.drop_first(), j - 1);
        assert(nodes.take(j)[0] == nodes[0]);
        assert(nodes.take(j).drop_first() =~= nodes.drop_first().take(j - 1));
    }
}

/// Parameter round-trip: the collected parameter list holds exactly one
/// entry per top-level `With` node, in first-seen order, each carrying the
/// declared name and the declared type verbatim.  Both generated function
/// signatures and the forwarding argument list are built from this list in
/// this order.
pub proof fn lemma_parameter_round_trip(nodes: Seq<Node>)
    ensures
        params_of(nodes).len() == with_count(nodes),
        forall|i: int|
            0 <= i < nodes.len() && (#[trigger] nodes[i]) is With ==> params_of(nodes)[with_count(
                nodes.take(i),
            )] == (nodes[i]->With_0.0@, nodes[i]->With_1@),
    decreases nodes.len(),
{
    if nodes.len() == 0 {
    } else {
        let rest = nodes.drop_first();
        lemma_parameter_round_trip(rest);
        assert(params_of(nodes) =~= node_params(nodes[0]) + params_of(rest));
        assert forall|i: int|
            0 <= i < nodes.len() && (#[trigger] nodes[i]) is With implies params_of(nodes)[
            with_count(nodes.take(i))] == (nodes[i]->With_0.0@, nodes[i]->With_1@) by {
            if i == 0 {
                assert(nodes.take(0) =~= Seq::<Node>::empty());
                assert(with_count(nodes.take(0)) == 0);
            } else {
                assert(nodes[i] == rest[i - 1]);
                assert(nodes.take(i)[0] == nodes[0]);
                assert(nodes.take(i).drop_first() =~= rest.take(i - 1));
                lemma_with_count_bound(rest, i - 1);
                let k = with_count(rest.take(i - 1));
                assert(params_of(rest)[k] == (rest[i - 1]->With_0.0@, rest[i - 1]->With_1@));
                let c0 = node_params(nodes[0]).len() as int;
                assert(with_count(nodes.take(i)) == c0 + k);
                assert(params_of(nodes)[c0 + k] == params_of(rest)[k]);
            }
        }
    }
}

/// Nested inertness: a name stands in the collected parameter list exactly
/// when some top-level `With` node declares it.  A `With` inside an `If` or
/// `For` body feeds the nested traversal's discarded accumulator and never
/// reaches the outer signature.
pub proof fn lemma_nested_with_inert(nodes: Seq<Node>)
    ensures
        forall|name: Seq<char>|
            #[trigger] has_name(params_of(nodes), name) <==> (exists|i: int|
                0 <= i < nodes.len() && (#[trigger] nodes[i]) is With && nodes[i]->With_0.0@
                    == name),
    decreases nodes.len(),
{
    if nodes.len() == 0 {
    } else {
        let rest = nodes.drop_first();
        lemma_nested_with_inert(rest);
        assert(params_of(nodes) =~= node_params(nodes[0]) + params_of(rest));
        assert forall|name: Seq<char>| #[trigger] has_name(params_of(nodes), name) implies (
        exists|i: int|
            0 <= i < nodes.len() && (#[trigger] nodes[i]) is With && nodes[i]->With_0.0@
                == name) by {
            let k = choose|k: int|
                0 <= k < params_of(nodes).len() && params_of(nodes)[k].0 == name;
            let c0 = node_params(nodes[0]).len() as int;
            if k < c0 {
                assert(nodes[0] is With && nodes[0]->With_0.0@ == name);
            } else {
                assert(params_of(rest)[k - c0].0 == name);
                assert(has_name(params_of(rest), name));
                let i = choose|i: int|
                    0 <= i < rest.len() && (#[trigger] rest[i]) is With && rest[i]->With_0.0@
                        == name;
                assert(nodes[i + 1] is With && nodes[i + 1]->With_0.0@ == name);
            }
        }
        assert forall|name: Seq<char>|
            (exists|i: int|
                0 <= i < nodes.len() && (#[trigger] nodes[i]) is With && nodes[i]->With_0.0@
                    == name) implies #[trigger] has_name(params_of(nodes), name) by {
            let i = choose|i: int|
                0 <= i < nodes.len() && (#[trigger] nodes[i]) is With && nodes[i]->With_0.0@
                    == name;
            if i == 0 {
                assert(params_of(nodes)[0].0 == name);
            } else {
                assert(rest[i - 1] is With && rest[i - 1]->With_0.0@ == name);
                assert(has_name(params_of(rest), name));
                let k = choose|k: int|
                    0 <= k < params_of(rest).len() && params_of(rest)[k].0 == name;
                let c0 = node_params(nodes[0]).len() as int;
                assert(params_of(nodes)[k + c0].0 == name);
            }
        }
    }
}

// ---------------------------------------------------------------------------
// Duplicate detection.
// ---------------------------------------------------------------------------

/// Splitting a traversal level: once a prefix has been walked without error,
/// the rest of the traversal starts from the parameters that prefix
/// collected.
pub proof fn lemma_err_of_split(
    nodes: Seq<Node>,
    seen: Seq<(Seq<char>, Seq<char>)>,
    j: int,
)
    requires
        0 <= j <= nodes.len(),
        err_of(nodes.take(j), seen) is None,
    ensures
        err_of(nodes, seen) == err_of(nodes.skip(j), seen + params_of(nodes.take(j))),
    decreases j,
{
    if j == 0 {
        assert(nodes.take(0) =~= Seq::<Node>::empty());
        assert(nodes.skip(0) =~= nodes);
        assert(seen + params_of(nodes.take(0)) =~= seen);
    } else {
        let rest = nodes.drop_first();
        let pre = nodes.take(j);
        assert(pre[0] == nodes[0]);
        assert(pre.drop_first() =~= rest.take(j - 1));
        assert(nodes.skip(j) =~= rest.skip(j - 1));
        match nodes[0] {
            Node::With((name, range), ty) => {
                assert(!has_name(seen, name@));
                lemma_err_of_split(rest, seen.push((name@, ty@)), j - 1);
                assert(seen.push((name@, ty@)) + params_of(rest.take(j - 1)) =~= seen
                    + params_of(pre));
            },
            Node::If(_, then_nodes, else_nodes) => {
                assert(err_of(then_nodes@, Seq::empty()) is None);
                assert(err_of(else_nodes@, Seq::empty()) is None);
                lemma_err_of_split(rest, seen, j - 1);
                assert(params_of(pre) =~= params_of(rest.take(j - 1)));
            },
            Node::For(_, _, _, body) => {
                assert(err_of(body@, Seq::empty()) is None);
                lemma_err_of_split(rest, seen, j - 1);
                assert(params_of(pre) =~= params_of(rest.take(j - 1)));
            },
            _ => {
                lemma_err_of_split(rest, seen, j - 1);
                assert(params_of(pre) =~= params_of(rest.take(j - 1)));
            },
        }
    }
}

/// Duplicate detection: if the traversal reaches a `With` node whose name an
/// earlier top-level `With` already declared, the render fails, and the
/// reported error carries the name and the source range of the later
/// declaration.  By `render`'s contract the failing render returns no text.
pub proof fn lemma_duplicate_reported(nodes: Seq<Node>, j: int, name: String, range: Range)
    requires
        0 <= j < nodes.len(),
        err_of(nodes.take(j), Seq::empty()) is None,
        nodes[j] matches Node::With((n, r), _) && n == name && r == range,
        has_name(params_of(nodes.take(j)), name@),
    ensures
        err_of(nodes, Seq::empty()) == Some((name@, range)),
{
    lemma_err_of_split(nodes, Seq::empty(), j);
    assert(Seq::empty() + params_of(nodes.take(j)) =~= params_of(nodes.take(j)));
    assert(nodes.skip(j)[0] == nodes[j]);
}

// ---------------------------------------------------------------------------
// When success is owed.
// ---------------------------------------------------------------------------

/// Pairwise distinctness of the declared parameter names.
pub open spec fn names_distinct(params: Seq<(Seq<char>, Seq<char>)>) -> bool {
    forall|j: int, k: int|
        0 <= j < k < params.len() ==> (#[trigger] params[j]).0 != (#[trigger] params[k]).0
}

/// Every traversal level of `nodes` — this one and, recursively, the body of
/// every `If` and `For` — declares pairwise-distinct parameter names.
pub open spec fn levels_distinct(nodes: Seq<Node>) -> bool
    decreases nodes, 1int,
{
    names_distinct(params_of(nodes)) && nested_distinct(nodes)
}

/// The nested half of [`levels_distinct`]: every `If`/`For` body of `nodes`
/// is itself duplicate-free on all its levels.
pub open spec fn nested_distinct(nodes: Seq<Node>) -> bool
    decreases nodes, 0int,
{
    if nodes.len() == 0 {
        true
    } else {
        (match nodes[0] {
            Node::If(_, then_nodes, else_nodes) => levels_distinct(then_nodes@)
                && levels_distinct(else_nodes@),
            Node::For(_, _, _, body) => levels_distinct(body@),
            _ => true,
        }) && nested_distinct(nodes.drop_first())
    }
}

pub proof fn lemma_err_none_characterization(nodes: Seq<Node>, seen: Seq<(Seq<char>, Seq<char>)>)
    requires
        names_distinct(seen),
    ensures
        err_of(nodes, seen) is None <==> (names_distinct(seen + params_of(nodes))
            && nested_distinct(nodes)),
    decreases nodes,
{
    if nodes.len() == 0 {
        assert(seen + params_of(nodes) =~= seen);
    } else {
        let rest = nodes.drop_first();
        assert(params_of(nodes) =~= node_params(nodes[0]) + params_of(rest));
        match nodes[0] {
            Node::With((name, range), ty) => {
                if has_name(seen, name@) {
                    let j = choose|j: int| 0 <= j < seen.len() && seen[j].0 == name@;
                    let all = seen + params_of(nodes);
                    assert(all[j] == seen[j]);
                    assert(all[seen.len() as int] == (name@, ty@));
                    assert(!names_distinct(all));
                    assert(err_of(nodes, seen) is Some);
                } else {
                    assert(names_distinct(seen.push((name@, ty@)))) by {
                        assert forall|j: int, k: int|
                            0 <= j < k < seen.push((name@, ty@)).len() implies (
                        #[trigger] seen.push((name@, ty@))[j]).0 != (#[trigger] seen.push(
                            (name@, ty@),
                        )[k]).0 by {
                            if k < seen.len() {
                                assert(seen[j].0 != seen[k].0);
                            } else {
                                assert(!(seen[j].0 == name@));
                            }
                        }
                    }
                    lemma_err_none_characterization(rest, seen.push((name@, ty@)));
                    assert(seen.push((name@, ty@)) + params_of(rest) =~= seen + params_of(
                        nodes,
                    ));
                    assert(err_of(nodes, seen) == err_of(rest, seen.push((name@, ty@))));
                    assert(nested_distinct(nodes) == nested_distinct(rest));
                }
            },
            Node::If(_, then_nodes, else_nodes) => {
                assert(names_distinct(Seq::<(Seq<char>, Seq<char>)>::empty()));
                lemma_err_none_characterization(then_nodes@, Seq::empty());
                lemma_err_none_characterization(else_nodes@, Seq::empty());
                assert(Seq::empty() + params_of(then_nodes@) =~= params_of(then_nodes@));
                assert(Seq::empty() + params_of(else_nodes@) =~= params_of(else_nodes@));
                assert(levels_distinct(then_nodes@) <==> (err_of(
                    then_nodes@,
                    Seq::empty(),
                ) is None));
                assert(levels_distinct(else_nodes@) <==> (err_of(
                    else_nodes@,
                    Seq::empty(),
                ) is None));
                assert(nested_distinct(nodes) <==> (levels_distinct(then_nodes@)
                    && levels_distinct(else_nodes@) && nested_distinct(rest)));
                if err_of(then_nodes@, Seq::empty()) is None && err_of(
                    else_nodes@,
                    Seq::empty(),
                ) is None {
                    lemma_err_none_characterization(rest, seen);
                    assert(seen + params_of(nodes) =~= seen + params_of(rest));
                    assert(err_of(nodes, seen) == err_of(rest, seen));
                } else {
                    assert(err_of(nodes, seen) is Some);
                    assert(!nested_distinct(nodes));
                }
            },
            Node::For(_, _, _, body) => {
                assert(names_distinct(Seq::<(Seq<char>, Seq<char>)>::empty()));
                lemma_err_none_characterization(body@, Seq::empty());
                assert(Seq::empty() + params_of(body@) =~= params_of(body@));
                assert(levels_distinct(body@) <==> (err_of(body@, Seq::empty()) is None));
                assert(nested_distinct(nodes) <==> (levels_distinct(body@) && nested_distinct(
                    rest,
                )));
                if err_of(body@, Seq::empty()) is None {
                    lemma_err_none_characterization(rest, seen);
                    assert(seen + params_of(nodes) =~= seen + params_of(rest));
                    assert(err_of(nodes, seen) == err_of(rest, seen));
                } else {
                    assert(err_of(nodes, seen) is Some);
                    assert(!nested_distinct(nodes));
                }
            },
            _ => {
                lemma_err_none_characterization(rest, seen);
                assert(seen + params_of(nodes) =~= seen + params_of(rest));
                assert(err_of(nodes, seen) == err_of(rest, seen));
                assert(nested_distinct(nodes) == nested_distinct(rest));
            },
        }
    }
}

/// When success is owed: the render succeeds — and by `render`'s contract
/// returns exactly the module text — if and only if every traversal level
/// declares pairwise-distinct parameter names.
pub proof fn lemma_success_iff_distinct(nodes: Seq<Node>)
    ensures
        err_of(nodes, Seq::empty()) is None <==> levels_distinct(nodes),
{
    assert(names_distinct(Seq::<(Seq<char>, Seq<char>)>::empty()));
    lemma_err_none_characterization(nodes, Seq::empty());
    assert(Seq::empty() + params_of(nodes) =~= params_of(nodes));
}

// ---------------------------------------------------------------------------
// Quote escaping.
// ---------------------------------------------------------------------------

/// Every double quote in an escaped literal sits directly after a backslash:
/// no quote is emitted bare.
pub proof fn lemma_escape_quotes_escaped(s: Seq<char>)
    ensures
        forall|i: int|
            0 <= i < escaped(s).len() && #[trigger] escaped(s)[i] == '"' ==> i >= 1 && escaped(
                s,
            )[i - 1] == '\\',
    decreases s.len(),
{
    if s.len() == 0 {
    } else {
        lemma_escape_quotes_escaped(s.drop_first());
        lemma_escaped_never_starts_with_quote(s.drop_first());
        assert forall|i: int|
            0 <= i < escaped(s).len() && #[trigger] escaped(s)[i] == '"' implies i >= 1 && escaped(
            s,
        )[i - 1] == '\\' by {
            let head = esc_char(s[0]);
            let tail = escaped(s.drop_first());
            assert(escaped(s) == head + tail);
            if i < head.len() {
                assert(s[0] == '"' && i == 1);
            } else {
                assert(escaped(s)[i] == tail[i - head.len()]);
                if i - head.len() == 0 {
                    assert(tail[0] != '"');
                } else {
                    assert(escaped(s)[i - 1] == tail[i - head.len() - 1]);
                }
            }
        }
    }
}

/// An escaped literal never begins with a bare quote.
pub proof fn lemma_escaped_never_starts_with_quote(s: Seq<char>)
    ensures
        escaped(s).len() > 0 ==> escaped(s)[0] != '"',
{
    if s.len() > 0 {
        assert(escaped(s) == esc_char(s[0]) + escaped(s.drop_first()));
        if s[0] == '"' {
            assert(escaped(s)[0] == '\\');
        } else {
            assert(escaped(s)[0] == s[0]);
        }
    }
}

/// Quote escaping round-trip: reading an escaped literal back (`\"` as a
/// quote, anything else as itself) recovers the original text exactly, for
/// every text.  In particular each quote is escaped exactly once, and
/// re-emitting the text read back cannot double-escape.
pub proof fn lemma_escape_round_trip(s: Seq<char>)
    ensures
        unescaped(escaped(s)) == s,
    decreases s.len(),
{
    if s.len() == 0 {
    } else {
        lemma_escape_round_trip(s.drop_first());
        lemma_escaped_never_starts_with_quote(s.drop_first());
        let head = esc_char(s[0]);
        let tail = escaped(s.drop_first());
        let e = escaped(s);
        assert(e == head + tail);
        if s[0] == '"' {
            assert(e[0] == '\\' && e[1] == '"');
            assert(e.skip(2) =~= tail);
            assert(unescaped(e) == seq!['"'] + unescaped(tail));
            assert(unescaped(e) =~= s);
        } else if s[0] == '\\' {
            assert(e[0] == '\\');
            if e.len() >= 2 {
                assert(e[1] == tail[0]);
                assert(e[1] != '"');
            }
            assert(e.drop_first() =~= tail);
            assert(unescaped(e) == seq![e[0]] + unescaped(tail));
            assert(unescaped(e) =~= s);
        } else {
            assert(e[0] == s[0] && e[0] != '\\');
            assert(e.drop_first() =~= tail);
            assert(unescaped(e) == seq![e[0]] + unescaped(tail));
            assert(unescaped(e) =~= s);
        }
    }
}

} // verus!
