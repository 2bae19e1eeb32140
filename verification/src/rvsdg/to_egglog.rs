//! The encoder from an [`RvsdgFunction`] to a term graph: the inverse of
//! the decoder, up to sharing.
//!
//! Every node is written once for each use, after the terms it refers to,
//! and every list is written flat. What is written spells out the tree of
//! the function, so decoding it gives a function with the same tree.

use vstd::prelude::*;

use super::decoding::{
    call_outputs, decode_function, decode_literal, decode_option_type, decode_rvsdg_type,
    decode_signature, decode_type, decode_types_upto, first_dangling_from, value_op_name,
    DecodeErrorModel,
};
use super::growth::{
    graph_extends, lemma_body_grows, lemma_expr_grows, lemma_literal_grows, lemma_operand_grows,
    lemma_operand_list_grows, lemma_operand_rows_grow, lemma_option_type_grows,
    lemma_rvsdg_type_grows, lemma_signature_grows, lemma_type_grows,
};
use super::laws::lemma_operator_names_round_trip;
use super::terms::{NodeModel, TermGraph, TermLit, TermNode};
use super::trees::{
    body_tree, expr_tree, function_tree, operand_rank, operand_tree, read_body, read_expr,
    read_function, read_operand, read_operand_list, read_operand_rows, read_operands_upto,
    read_rows_upto, scoped_rows, scoped_trees, BodyTree, ExprTree, FunctionTree, OperandTree,
};
use super::unsharing::{fits, lemma_decoding_reads_the_term};
use super::{
    arena_of, arena_ordered, body_below, operand_below, operands_below, rows_below, rows_of,
    rows_same_width, same_width, BasicExpr, BasicExprModel, BodyModel, FunctionModel, Operand,
    RvsdgBody, RvsdgFunction, RvsdgType,
};
use crate::bril::{Literal, Type, ValueOps};

verus! {

/// The string of the one character `c`.
///
/// Wraps `char::to_string`, which gives the string that holds the
/// character and nothing else.
#[verifier::external_body]
fn char_string(c: char) -> (s: String)
    ensures
        s@ == seq![c],
{
    c.to_string()
}

/// The heads of the terms that stand for types are different symbols, and
/// so are those of the terms that stand for literals, for operands, and
/// for bodies.
pub proof fn lemma_heads_differ()
    ensures
        "IntT"@ != "BoolT"@,
        "IntT"@ != "FloatT"@,
        "IntT"@ != "CharT"@,
        "BoolT"@ != "FloatT"@,
        "BoolT"@ != "CharT"@,
        "FloatT"@ != "CharT"@,
        "Num"@ != "Float"@,
        "Num"@ != "Char"@,
        "Float"@ != "Char"@,
        "Arg"@ != "Node"@,
        "Arg"@ != "Project"@,
        "Node"@ != "Project"@,
        "Gamma"@ != "Theta"@,
        "Call"@ != "Const"@,
        "Call"@.len() == 4 && "Call"@[0] == 'C',
        "Const"@.len() == 5 && "Const"@[0] == 'C',
{
    reveal_strlit("IntT");
    reveal_strlit("BoolT");
    reveal_strlit("FloatT");
    reveal_strlit("CharT");
    reveal_strlit("Num");
    reveal_strlit("Float");
    reveal_strlit("Char");
    reveal_strlit("Arg");
    reveal_strlit("Node");
    reveal_strlit("Project");
    reveal_strlit("Gamma");
    reveal_strlit("Theta");
    reveal_strlit("Call");
    reveal_strlit("Const");
    assert("IntT"@.len() == 4 && "BoolT"@.len() == 5 && "FloatT"@.len() == 6 && "CharT"@.len()
        == 5);
    assert("BoolT"@[0] == 'B' && "CharT"@[0] == 'C');
    assert("Num"@.len() == 3 && "Float"@.len() == 5 && "Char"@.len() == 4);
    assert("Arg"@.len() == 3 && "Node"@.len() == 4 && "Project"@.len() == 7);
    assert("Gamma"@[0] == 'G' && "Theta"@[0] == 'T');
    assert("Call"@.len() == 4 && "Const"@.len() == 5);
    assert("Call"@[0] == 'C' && "Const"@[0] == 'C');
}

/// Appends a term to the graph: its index.
fn push_term(graph: &mut TermGraph, node: TermNode) -> (id: usize)
    ensures
        final(graph)@ == old(graph)@.push(node@),
        id == old(graph)@.len(),
        graph_extends(old(graph)@, final(graph)@),
{
    graph.nodes.push(node);
    assert(graph@ =~= old(graph)@.push(node@));
    graph.nodes.len() - 1
}

/// Appends the application of `head` to the terms at `children`.
fn push_app(graph: &mut TermGraph, head: &str, children: Vec<usize>) -> (id: usize)
    ensures
        final(graph)@ == old(graph)@.push(NodeModel::App(head@, children@)),
        id == old(graph)@.len(),
        graph_extends(old(graph)@, final(graph)@),
{
    push_term(graph, TermNode::App(head.to_owned(), children))
}

/// The children `a`, `b`, `c`.
fn three(a: usize, b: usize, c: usize) -> (v: Vec<usize>)
    ensures
        v@ == seq![a, b, c],
{
    let mut v: Vec<usize> = Vec::new();
    v.push(a);
    v.push(b);
    v.push(c);
    assert(v@ =~= seq![a, b, c]);
    v
}

/// The children `a`, `b`.
fn two(a: usize, b: usize) -> (v: Vec<usize>)
    ensures
        v@ == seq![a, b],
{
    let mut v: Vec<usize> = Vec::new();
    v.push(a);
    v.push(b);
    assert(v@ =~= seq![a, b]);
    v
}

/// The child `a`.
fn one(a: usize) -> (v: Vec<usize>)
    ensures
        v@ == seq![a],
{
    let mut v: Vec<usize> = Vec::new();
    v.push(a);
    assert(v@ =~= seq![a]);
    v
}

/// No child of `children` dangles in a graph of `bound` terms that holds
/// them all.
pub proof fn lemma_none_dangle(children: Seq<usize>, bound: nat, from: int)
    requires
        from >= 0,
        forall|k: int| 0 <= k < children.len() ==> children[k] < bound,
    ensures
        first_dangling_from(children, bound, from) is None,
    decreases children.len() - from,
{
    if from < children.len() {
        lemma_none_dangle(children, bound, from + 1);
    }
}

/// Writes the term of a base type: its index.
fn write_type(graph: &mut TermGraph, ty: &Type) -> (id: usize)
    ensures
        graph_extends(old(graph)@, final(graph)@),
        id < final(graph)@.len(),
        decode_type(final(graph)@, final(graph)@[id as int], id as nat) == Ok::<
            Type,
            DecodeErrorModel,
        >(*ty),
    decreases *ty,
{
    proof {
        lemma_heads_differ();
        lemma_none_dangle(Seq::<usize>::empty(), graph@.len() + 1, 0);
    }
    match ty {
        Type::Int => push_app(graph, "IntT", Vec::new()),
        Type::Bool => push_app(graph, "BoolT", Vec::new()),
        Type::Float => push_app(graph, "FloatT", Vec::new()),
        Type::Char => push_app(graph, "CharT", Vec::new()),
        Type::Pointer(inner) => {
            let c = write_type(graph, inner);
            let ghost before = graph@;
            let id = push_app(graph, "PointerT", one(c));
            proof {
                lemma_none_dangle(seq![c], graph@.len(), 0);
                lemma_type_grows(before, graph@, before[c as int], c as nat, (id - 1) as nat);
            }
            id
        },
    }
}

/// Writes the term of an optional base type: its index.
fn write_option_type(graph: &mut TermGraph, ty: &Option<Type>) -> (id: usize)
    ensures
        graph_extends(old(graph)@, final(graph)@),
        id < final(graph)@.len(),
        decode_option_type(final(graph)@, final(graph)@[id as int], id as nat) == Ok::<
            Option<Type>,
            DecodeErrorModel,
        >(*ty),
{
    match ty {
        None => {
            proof {
                lemma_none_dangle(Seq::<usize>::empty(), graph@.len() + 1, 0);
            }
            push_app(graph, "NoneType", Vec::new())
        },
        Some(ty) => {
            let c = write_type(graph, ty);
            let ghost before = graph@;
            let id = push_app(graph, "SomeType", one(c));
            proof {
                lemma_none_dangle(seq![c], graph@.len(), 0);
                lemma_type_grows(before, graph@, before[c as int], c as nat, id as nat);
            }
            id
        },
    }
}

/// Writes the term of an edge type: its index.
fn write_rvsdg_type(graph: &mut TermGraph, ty: &RvsdgType) -> (id: usize)
    ensures
        graph_extends(old(graph)@, final(graph)@),
        id < final(graph)@.len(),
        decode_rvsdg_type(final(graph)@, final(graph)@[id as int], id as nat) == Ok::<
            RvsdgType,
            DecodeErrorModel,
        >(*ty),
{
    match ty {
        RvsdgType::PrintState => {
            proof {
                lemma_none_dangle(Seq::<usize>::empty(), graph@.len() + 1, 0);
            }
            push_app(graph, "PrintState", Vec::new())
        },
        RvsdgType::Bril(ty) => {
            let c = write_type(graph, ty);
            let ghost before = graph@;
            let id = push_app(graph, "Bril", one(c));
            proof {
                lemma_none_dangle(seq![c], graph@.len(), 0);
                lemma_type_grows(before, graph@, before[c as int], c as nat, id as nat);
            }
            id
        },
    }
}

/// Writes the term of a literal that is no boolean: its index.
fn write_literal(graph: &mut TermGraph, lit: &Literal) -> (id: usize)
    requires
        !(*lit is Bool),
    ensures
        graph_extends(old(graph)@, final(graph)@),
        id < final(graph)@.len(),
        decode_literal(final(graph)@, final(graph)@[id as int]) == Ok::<
            Literal,
            DecodeErrorModel,
        >(*lit),
{
    proof {
        lemma_heads_differ();
    }
    let (head, held) = match lit {
        Literal::Int(n) => ("Num", TermLit::Int(*n)),
        Literal::Float(bits) => ("Float", TermLit::Float(*bits)),
        Literal::Char(c) => ("Char", TermLit::Str(char_string(*c))),
        Literal::Bool(_) => ("Num", TermLit::Unit),
    };
    let c = push_term(graph, TermNode::Lit(held));
    let id = push_app(graph, head, one(c));
    proof {
        lemma_none_dangle(seq![c], graph@.len(), 0);
    }
    id
}

/// Whether the position fits the integer literal that holds it.
pub open spec fn operand_writable(a: Operand) -> bool {
    match a {
        Operand::Arg(n) => n <= i64::MAX,
        Operand::Id(_) => true,
        Operand::Project(k, _) => k <= i64::MAX,
    }
}

/// Whether the positions of all of `ops` fit.
pub open spec fn operands_writable(ops: Seq<Operand>) -> bool {
    forall|k: int| 0 <= k < ops.len() ==> operand_writable(#[trigger] ops[k])
}

/// Whether the positions of all of `rows` fit.
pub open spec fn rows_writable(rows: Seq<Seq<Operand>>) -> bool {
    forall|k: int| 0 <= k < rows.len() ==> operands_writable(#[trigger] rows[k])
}

/// Whether a term can stand for the body: its positions fit, an operation
/// and a print have two operands, a call has as many outputs as its type
/// tells, a constant is no boolean, and the rows of a gamma have one
/// width.
pub open spec fn body_writable(body: BodyModel) -> bool {
    match body {
        BodyModel::BasicOp(BasicExprModel::Op(_, args, _)) => args.len() == 2
            && operands_writable(args),
        BodyModel::BasicOp(BasicExprModel::Call(_, args, outputs, ty)) => outputs
            == call_outputs(ty) && operands_writable(args),
        BodyModel::BasicOp(BasicExprModel::Print(args)) => args.len() == 2 && operands_writable(
            args,
        ),
        BodyModel::BasicOp(BasicExprModel::Const(_, lit, _)) => !(lit is Bool),
        BodyModel::Gamma { pred, inputs, outputs } => operand_writable(pred)
            && operands_writable(inputs) && rows_writable(outputs) && same_width(outputs),
        BodyModel::Theta { pred, inputs, outputs } => operand_writable(pred)
            && operands_writable(inputs) && operands_writable(outputs),
    }
}

/// Whether a term can stand for every node of the arena.
pub open spec fn arena_writable(xs: Seq<BodyModel>) -> bool {
    forall|k: int| 0 <= k < xs.len() ==> body_writable(#[trigger] xs[k])
}

impl FunctionModel {
    /// Whether a term can stand for the function: it is well formed, a
    /// term can stand for each of its nodes and exit operands, and its
    /// signature ends in the state that its argument count leaves out.
    pub open spec fn writable(self) -> bool {
        &&& self.well_formed()
        &&& arena_writable(self.nodes)
        &&& operand_writable(self.state)
        &&& self.result matches Some((_, value)) ==> operand_writable(value)
        &&& self.args.len() >= 1
        &&& self.n_args == self.args.len() - 1
    }
}

/// What the terms at `ids` spell out one by one, they spell out as a list.
proof fn lemma_read_each(
    g: Seq<NodeModel>,
    ids: Seq<usize>,
    trees: Seq<OperandTree>,
    k: nat,
    fuel: nat,
)
    requires
        k <= ids.len(),
        ids.len() == trees.len(),
        forall|j: int|
            0 <= j < ids.len() ==> (#[trigger] ids[j]) < g.len() && ids[j] <= fuel
                && read_operand(g, g[ids[j] as int], ids[j] as nat) == Ok::<
                OperandTree,
                DecodeErrorModel,
            >(trees[j]),
    ensures
        read_operands_upto(g, ids, k, fuel) == Ok::<Seq<OperandTree>, DecodeErrorModel>(
            trees.take(k as int),
        ),
    decreases k,
{
    if k == 0 {
        assert(trees.take(0) =~= Seq::<OperandTree>::empty());
    } else {
        lemma_read_each(g, ids, trees, (k - 1) as nat, fuel);
        let id = ids[k - 1];
        lemma_operand_grows(g, g, g[id as int], id as nat, fuel);
        assert(trees.take(k as int) =~= trees.take(k - 1).push(trees[k - 1]));
    }
}

/// What the terms at `ids` spell out one by one, they spell out as a list
/// of rows.
proof fn lemma_read_each_row(
    g: Seq<NodeModel>,
    ids: Seq<usize>,
    rows: Seq<Seq<OperandTree>>,
    k: nat,
    fuel: nat,
)
    requires
        k <= ids.len(),
        ids.len() == rows.len(),
        forall|j: int|
            0 <= j < ids.len() ==> (#[trigger] ids[j]) < g.len() && ids[j] <= fuel
                && read_operand_list(g, g[ids[j] as int], ids[j] as nat) == Ok::<
                Seq<OperandTree>,
                DecodeErrorModel,
            >(rows[j]),
    ensures
        read_rows_upto(g, ids, k, fuel) == Ok::<Seq<Seq<OperandTree>>, DecodeErrorModel>(
            rows.take(k as int),
        ),
    decreases k,
{
    if k == 0 {
        assert(rows.take(0) =~= Seq::<Seq<OperandTree>>::empty());
    } else {
        lemma_read_each_row(g, ids, rows, (k - 1) as nat, fuel);
        let id = ids[k - 1];
        lemma_operand_list_grows(g, g, g[id as int], id as nat, fuel);
        assert(rows.take(k as int) =~= rows.take(k - 1).push(rows[k - 1]));
    }
}

/// Writes the term of an operand, and before it the terms it refers to:
/// its index.
fn write_operand(nodes: &Vec<RvsdgBody>, a: &Operand, graph: &mut TermGraph) -> (id: usize)
    requires
        arena_ordered(arena_of(nodes@)),
        arena_writable(arena_of(nodes@)),
        operand_below(*a, nodes.len() as int),
        operand_writable(*a),
    ensures
        graph_extends(old(graph)@, final(graph)@),
        id < final(graph)@.len(),
        read_operand(final(graph)@, final(graph)@[id as int], id as nat) == Ok::<
            OperandTree,
            DecodeErrorModel,
        >(operand_tree(arena_of(nodes@), *a)),
    decreases operand_rank(*a), 10nat,
{
    proof {
        lemma_heads_differ();
    }
    match a {
        Operand::Arg(n) => {
            let c = push_term(graph, TermNode::Lit(TermLit::Int(*n as i64)));
            let id = push_app(graph, "Arg", one(c));
            proof {
                lemma_none_dangle(seq![c], graph@.len(), 0);
            }
            id
        },
        Operand::Id(i) => {
            let b = write_body(nodes, *i, graph);
            let ghost before = graph@;
            let id = push_app(graph, "Node", one(b));
            proof {
                lemma_none_dangle(seq![b], graph@.len(), 0);
                lemma_body_grows(before, graph@, before[b as int], b as nat, (id - 1) as nat);
            }
            id
        },
        Operand::Project(k, i) => {
            let c = push_term(graph, TermNode::Lit(TermLit::Int(*k as i64)));
            let b = write_body(nodes, *i, graph);
            let ghost before = graph@;
            let id = push_app(graph, "Project", two(c, b));
            proof {
                lemma_none_dangle(seq![c, b], graph@.len(), 0);
                lemma_body_grows(before, graph@, before[b as int], b as nat, (id - 1) as nat);
            }
            id
        },
    }
}

/// Writes the terms of the operands `ops` of the node at index `bound`,
/// then their flat list under its head: the index of the head.
fn write_operands(
    nodes: &Vec<RvsdgBody>,
    ops: &Vec<Operand>,
    bound: usize,
    graph: &mut TermGraph,
) -> (id: usize)
    requires
        arena_ordered(arena_of(nodes@)),
        arena_writable(arena_of(nodes@)),
        bound <= nodes.len(),
        operands_below(ops@, bound as int),
        operands_writable(ops@),
    ensures
        graph_extends(old(graph)@, final(graph)@),
        id < final(graph)@.len(),
        read_operand_list(final(graph)@, final(graph)@[id as int], id as nat) == Ok::<
            Seq<OperandTree>,
            DecodeErrorModel,
        >(scoped_trees(arena_of(nodes@), ops@, bound as nat)),
    decreases bound, 30nat,
{
    let ghost trees = scoped_trees(arena_of(nodes@), ops@, bound as nat);
    let mut ids: Vec<usize> = Vec::new();
    let mut k: usize = 0;
    while k < ops.len()
        invariant
            arena_ordered(arena_of(nodes@)),
            arena_writable(arena_of(nodes@)),
            bound <= nodes.len(),
            operands_below(ops@, bound as int),
            operands_writable(ops@),
            trees == scoped_trees(arena_of(nodes@), ops@, bound as nat),
            graph_extends(old(graph)@, graph@),
            k <= ops.len(),
            ids.len() == k,
            forall|j: int|
                0 <= j < k ==> (#[trigger] ids@[j]) < graph@.len() && read_operand(
                    graph@,
                    graph@[ids@[j] as int],
                    ids@[j] as nat,
                ) == Ok::<OperandTree, DecodeErrorModel>(trees[j]),
        decreases ops.len() - k,
    {
        assert(operand_below(ops@[k as int], bound as int));
        assert(operand_writable(ops@[k as int]));
        let ghost before = graph@;
        let ghost earlier = ids@;
        let id = write_operand(nodes, &ops[k], graph);
        ids.push(id);
        proof {
            assert forall|j: int| 0 <= j < k + 1 implies (#[trigger] ids@[j]) < graph@.len()
                && read_operand(graph@, graph@[ids@[j] as int], ids@[j] as nat) == Ok::<
                OperandTree,
                DecodeErrorModel,
            >(trees[j]) by {
                if j < k {
                    assert(ids@[j] == earlier[j]);
                    assert(earlier[j] < before.len());
                    lemma_operand_grows(
                        before,
                        graph@,
                        before[earlier[j] as int],
                        earlier[j] as nat,
                        earlier[j] as nat,
                    );
                }
            }
        }
        k += 1;
    }
    let ghost written = ids@;
    let ghost before = graph@;
    let list = push_app(graph, "vec-of", ids);
    let ghost middle = graph@;
    let id = push_app(graph, "VO", one(list));
    proof {
        lemma_none_dangle(seq![list], graph@.len(), 0);
        assert forall|j: int| 0 <= j < written.len() implies (#[trigger] written[j])
            < graph@.len() && written[j] <= id && read_operand(
            graph@,
            graph@[written[j] as int],
            written[j] as nat,
        ) == Ok::<OperandTree, DecodeErrorModel>(trees[j]) by {
            assert(written[j] < before.len());
            lemma_operand_grows(
                before,
                graph@,
                before[written[j] as int],
                written[j] as nat,
                written[j] as nat,
            );
        }
        lemma_read_each(graph@, written, trees, written.len(), id as nat);
        assert(trees.take(written.len() as int) =~= trees);
    }
    id
}

/// The trees of rows of one width are rows of one width.
proof fn lemma_scoped_rows_width(xs: Seq<BodyModel>, rows: Seq<Seq<Operand>>, bound: nat)
    requires
        same_width(rows),
    ensures
        same_width(scoped_rows(xs, rows, bound)),
{
    let trees = scoped_rows(xs, rows, bound);
    assert forall|i: int, j: int|
        #![trigger trees[i], trees[j]]
        0 <= i < trees.len() && 0 <= j < trees.len() implies trees[i].len() == trees[j].len() by {
        assert(trees[i].len() == rows[i].len());
        assert(trees[j].len() == rows[j].len());
    }
}

/// Writes the terms of the rows `rows` of the node at index `bound`, then
/// their flat list under its head: the index of the head.
fn write_rows(
    nodes: &Vec<RvsdgBody>,
    rows: &Vec<Vec<Operand>>,
    bound: usize,
    graph: &mut TermGraph,
) -> (id: usize)
    requires
        arena_ordered(arena_of(nodes@)),
        arena_writable(arena_of(nodes@)),
        bound <= nodes.len(),
        rows_below(rows_of(rows@), bound as int),
        rows_writable(rows_of(rows@)),
        same_width(rows_of(rows@)),
    ensures
        graph_extends(old(graph)@, final(graph)@),
        id < final(graph)@.len(),
        read_operand_rows(final(graph)@, final(graph)@[id as int], id as nat) == Ok::<
            Seq<Seq<OperandTree>>,
            DecodeErrorModel,
        >(scoped_rows(arena_of(nodes@), rows_of(rows@), bound as nat)),
    decreases bound, 40nat,
{
    let ghost trees = scoped_rows(arena_of(nodes@), rows_of(rows@), bound as nat);
    let mut ids: Vec<usize> = Vec::new();
    let mut k: usize = 0;
    while k < rows.len()
        invariant
            arena_ordered(arena_of(nodes@)),
            arena_writable(arena_of(nodes@)),
            bound <= nodes.len(),
            rows_below(rows_of(rows@), bound as int),
            rows_writable(rows_of(rows@)),
            trees == scoped_rows(arena_of(nodes@), rows_of(rows@), bound as nat),
            graph_extends(old(graph)@, graph@),
            k <= rows.len(),
            ids.len() == k,
            forall|j: int|
                0 <= j < k ==> (#[trigger] ids@[j]) < graph@.len() && read_operand_list(
                    graph@,
                    graph@[ids@[j] as int],
                    ids@[j] as nat,
                ) == Ok::<Seq<OperandTree>, DecodeErrorModel>(trees[j]),
        decreases rows.len() - k,
    {
        assert(operands_below(rows_of(rows@)[k as int], bound as int));
        assert(operands_writable(rows_of(rows@)[k as int]));
        let ghost before = graph@;
        let ghost earlier = ids@;
        let id = write_operands(nodes, &rows[k], bound, graph);
        ids.push(id);
        proof {
            assert forall|j: int| 0 <= j < k + 1 implies (#[trigger] ids@[j]) < graph@.len()
                && read_operand_list(graph@, graph@[ids@[j] as int], ids@[j] as nat) == Ok::<
                Seq<OperandTree>,
                DecodeErrorModel,
            >(trees[j]) by {
                if j < k {
                    assert(ids@[j] == earlier[j]);
                    assert(earlier[j] < before.len());
                    lemma_operand_list_grows(
                        before,
                        graph@,
                        before[earlier[j] as int],
                        earlier[j] as nat,
                        earlier[j] as nat,
                    );
                }
            }
        }
        k += 1;
    }
    let ghost written = ids@;
    let ghost before = graph@;
    let list = push_app(graph, "vec-of", ids);
    let id = push_app(graph, "VVO", one(list));
    proof {
        lemma_none_dangle(seq![list], graph@.len(), 0);
        assert forall|j: int| 0 <= j < written.len() implies (#[trigger] written[j])
            < graph@.len() && written[j] <= id && read_operand_list(
            graph@,
            graph@[written[j] as int],
            written[j] as nat,
        ) == Ok::<Seq<OperandTree>, DecodeErrorModel>(trees[j]) by {
            assert(written[j] < before.len());
            lemma_operand_list_grows(
                before,
                graph@,
                before[written[j] as int],
                written[j] as nat,
                written[j] as nat,
            );
        }
        lemma_read_each_row(graph@, written, trees, written.len(), id as nat);
        assert(trees.take(written.len() as int) =~= trees);
        lemma_scoped_rows_width(arena_of(nodes@), rows_of(rows@), bound as nat);
    }
    id
}

/// The name of every operator begins with the letter that tells it from
/// the heads of the other operations.
proof fn lemma_operator_names_begin_alike(op: ValueOps)
    ensures
        value_op_name(op).len() >= 3,
        value_op_name(op)[0] == 'b',
{
    reveal_strlit("badd");
    reveal_strlit("bsub");
    reveal_strlit("bmul");
    reveal_strlit("bdiv");
    reveal_strlit("beq");
    reveal_strlit("blt");
    reveal_strlit("bgt");
    reveal_strlit("ble");
    reveal_strlit("bge");
    reveal_strlit("bnot");
    reveal_strlit("band");
    reveal_strlit("bor");
    reveal_strlit("bcall");
    reveal_strlit("bid");
    reveal_strlit("bphi");
    reveal_strlit("bfadd");
    reveal_strlit("bfsub");
    reveal_strlit("bfmul");
    reveal_strlit("bfdiv");
    reveal_strlit("bfeq");
    reveal_strlit("bflt");
    reveal_strlit("bfgt");
    reveal_strlit("bfle");
    reveal_strlit("bfge");
    reveal_strlit("bceq");
    reveal_strlit("bclt");
    reveal_strlit("bcgt");
    reveal_strlit("bcle");
    reveal_strlit("bcge");
    reveal_strlit("bchar2int");
    reveal_strlit("bint2char");
    reveal_strlit("balloc");
    reveal_strlit("bload");
    reveal_strlit("bptradd");
}

/// The head symbol that names a primitive operator.
pub fn op_to_egglog(op: ValueOps) -> (r: &'static str)
    ensures
        r@ == value_op_name(op),
{
    match op {
        ValueOps::Add => "badd",
        ValueOps::Sub => "bsub",
        ValueOps::Mul => "bmul",
        ValueOps::Div => "bdiv",
        ValueOps::Eq => "beq",
        ValueOps::Lt => "blt",
        ValueOps::Gt => "bgt",
        ValueOps::Le => "ble",
        ValueOps::Ge => "bge",
        ValueOps::Not => "bnot",
        ValueOps::And => "band",
        ValueOps::Or => "bor",
        ValueOps::Call => "bcall",
        ValueOps::Id => "bid",
        ValueOps::Phi => "bphi",
        ValueOps::Fadd => "bfadd",
        ValueOps::Fsub => "bfsub",
        ValueOps::Fmul => "bfmul",
        ValueOps::Fdiv => "bfdiv",
        ValueOps::Feq => "bfeq",
        ValueOps::Flt => "bflt",
        ValueOps::Fgt => "bfgt",
        ValueOps::Fle => "bfle",
        ValueOps::Fge => "bfge",
        ValueOps::Ceq => "bceq",
        ValueOps::Clt => "bclt",
        ValueOps::Cgt => "bcgt",
        ValueOps::Cle => "bcle",
        ValueOps::Cge => "bcge",
        ValueOps::Char2int => "bchar2int",
        ValueOps::Int2char => "bint2char",
        ValueOps::Alloc => "balloc",
        ValueOps::Load => "bload",
        ValueOps::PtrAdd => "bptradd",
    }
}

/// Writes the term of a primitive operation on two operands.
fn write_op(
    nodes: &Vec<RvsdgBody>,
    op: ValueOps,
    args: &Vec<Operand>,
    ty: &Type,
    bound: usize,
    graph: &mut TermGraph,
) -> (id: usize)
    requires
        arena_ordered(arena_of(nodes@)),
        arena_writable(arena_of(nodes@)),
        bound <= nodes.len(),
        args@.len() == 2,
        operands_below(args@, bound as int),
        operands_writable(args@),
    ensures
        graph_extends(old(graph)@, final(graph)@),
        id < final(graph)@.len(),
        read_expr(final(graph)@, final(graph)@[id as int], id as nat) == Ok::<
            ExprTree,
            DecodeErrorModel,
        >(ExprTree::Op(op, scoped_trees(arena_of(nodes@), args@, bound as nat), *ty)),
    decreases bound, 45nat,
{
    let t = write_type(graph, ty);
    assert(operand_below(args@[0], bound as int) && operand_writable(args@[0]));
    assert(operand_below(args@[1], bound as int) && operand_writable(args@[1]));
    let ghost g1 = graph@;
    let first = write_operand(nodes, &args[0], graph);
    let ghost g2 = graph@;
    let second = write_operand(nodes, &args[1], graph);
    let ghost g3 = graph@;
    let id = push_app(graph, op_to_egglog(op), three(t, first, second));
    proof {
        lemma_heads_differ();
        lemma_operator_names_begin_alike(op);
        lemma_operator_names_round_trip(op);
        lemma_none_dangle(seq![t, first, second], graph@.len(), 0);
        lemma_type_grows(g1, graph@, g1[t as int], t as nat, id as nat);
        lemma_operand_grows(g2, graph@, g2[first as int], first as nat, id as nat);
        lemma_operand_grows(g3, graph@, g3[second as int], second as nat, id as nat);
        assert(scoped_trees(arena_of(nodes@), args@, bound as nat) =~= seq![
            operand_tree(arena_of(nodes@), args@[0]),
            operand_tree(arena_of(nodes@), args@[1]),
        ]);
    }
    id
}

/// Writes the term of a call.
fn write_call(
    nodes: &Vec<RvsdgBody>,
    name: &String,
    args: &Vec<Operand>,
    ty: &Option<Type>,
    bound: usize,
    graph: &mut TermGraph,
) -> (id: usize)
    requires
        arena_ordered(arena_of(nodes@)),
        arena_writable(arena_of(nodes@)),
        bound <= nodes.len(),
        operands_below(args@, bound as int),
        operands_writable(args@),
    ensures
        graph_extends(old(graph)@, final(graph)@),
        id < final(graph)@.len(),
        read_expr(final(graph)@, final(graph)@[id as int], id as nat) == Ok::<
            ExprTree,
            DecodeErrorModel,
        >(
            ExprTree::Call(
                name@,
                scoped_trees(arena_of(nodes@), args@, bound as nat),
                call_outputs(*ty),
                *ty,
            ),
        ),
    decreases bound, 45nat,
{
    let t = write_option_type(graph, ty);
    let ghost g1 = graph@;
    let n = push_term(graph, TermNode::Lit(TermLit::Str(name.clone())));
    let list = write_operands(nodes, args, bound, graph);
    let ghost g3 = graph@;
    let id = push_app(graph, "Call", three(t, n, list));
    proof {
        lemma_none_dangle(seq![t, n, list], graph@.len(), 0);
        lemma_option_type_grows(g1, graph@, g1[t as int], t as nat, id as nat);
        lemma_operand_list_grows(g3, graph@, g3[list as int], list as nat, id as nat);
    }
    id
}

/// Writes the term of a print.
fn write_print(
    nodes: &Vec<RvsdgBody>,
    args: &Vec<Operand>,
    bound: usize,
    graph: &mut TermGraph,
) -> (id: usize)
    requires
        arena_ordered(arena_of(nodes@)),
        arena_writable(arena_of(nodes@)),
        bound <= nodes.len(),
        args@.len() == 2,
        operands_below(args@, bound as int),
        operands_writable(args@),
    ensures
        graph_extends(old(graph)@, final(graph)@),
        id < final(graph)@.len(),
        read_expr(final(graph)@, final(graph)@[id as int], id as nat) == Ok::<
            ExprTree,
            DecodeErrorModel,
        >(ExprTree::Print(scoped_trees(arena_of(nodes@), args@, bound as nat))),
    decreases bound, 45nat,
{
    assert(operand_below(args@[0], bound as int) && operand_writable(args@[0]));
    assert(operand_below(args@[1], bound as int) && operand_writable(args@[1]));
    let first = write_operand(nodes, &args[0], graph);
    let ghost g2 = graph@;
    let second = write_operand(nodes, &args[1], graph);
    let ghost g3 = graph@;
    let id = push_app(graph, "Print", two(first, second));
    proof {
        lemma_print_is_no_call();
        lemma_none_dangle(seq![first, second], graph@.len(), 0);
        lemma_operand_grows(g2, graph@, g2[first as int], first as nat, id as nat);
        lemma_operand_grows(g3, graph@, g3[second as int], second as nat, id as nat);
        assert(scoped_trees(arena_of(nodes@), args@, bound as nat) =~= seq![
            operand_tree(arena_of(nodes@), args@[0]),
            operand_tree(arena_of(nodes@), args@[1]),
        ]);
    }
    id
}

/// Writes the term of a constant that is no boolean.
fn write_const(graph: &mut TermGraph, lit: &Literal, ty: &Type) -> (id: usize)
    requires
        !(*lit is Bool),
    ensures
        graph_extends(old(graph)@, final(graph)@),
        id < final(graph)@.len(),
        read_expr(final(graph)@, final(graph)@[id as int], id as nat) == Ok::<
            ExprTree,
            DecodeErrorModel,
        >(ExprTree::Const(crate::bril::ConstOps::Const, *lit, *ty)),
{
    let t = write_type(graph, ty);
    let ghost g1 = graph@;
    let c = push_app(graph, "const", Vec::new());
    let l = write_literal(graph, lit);
    let ghost g3 = graph@;
    let id = push_app(graph, "Const", three(t, c, l));
    proof {
        lemma_heads_differ();
        lemma_none_dangle(seq![t, c, l], graph@.len(), 0);
        lemma_type_grows(g1, graph@, g1[t as int], t as nat, id as nat);
        lemma_literal_grows(g3, graph@, g3[l as int]);
    }
    id
}

/// The head of a print is not the head of a call or of a constant.
proof fn lemma_print_is_no_call()
    ensures
        "Print"@ != "Call"@,
        "Print"@ != "Const"@,
{
    reveal_strlit("Print");
    reveal_strlit("Call");
    reveal_strlit("Const");
    assert("Print"@[0] == 'P' && "Call"@[0] == 'C' && "Const"@[0] == 'C');
}

/// Writes the term of the operation `e` of the node at index `bound`, and
/// before it the terms of its operands: its index.
fn write_expr(
    nodes: &Vec<RvsdgBody>,
    e: &BasicExpr<Operand>,
    bound: usize,
    graph: &mut TermGraph,
) -> (id: usize)
    requires
        arena_ordered(arena_of(nodes@)),
        arena_writable(arena_of(nodes@)),
        bound <= nodes.len(),
        body_below(BodyModel::BasicOp(e@), bound as int),
        body_writable(BodyModel::BasicOp(e@)),
    ensures
        graph_extends(old(graph)@, final(graph)@),
        id < final(graph)@.len(),
        read_expr(final(graph)@, final(graph)@[id as int], id as nat) == Ok::<
            ExprTree,
            DecodeErrorModel,
        >(expr_tree(arena_of(nodes@), e@, bound as nat)),
    decreases bound, 50nat,
{
    match e {
        BasicExpr::Op(op, args, ty) => write_op(nodes, *op, args, ty, bound, graph),
        BasicExpr::Call(name, args, _, ty) => write_call(nodes, name, args, ty, bound, graph),
        BasicExpr::Print(args) => write_print(nodes, args, bound, graph),
        BasicExpr::Const(_, lit, ty) => write_const(graph, lit, ty),
    }
}

/// Writes the term of a gamma node at index `i`, and before it the terms
/// of its parts.
fn write_gamma(
    nodes: &Vec<RvsdgBody>,
    pred: &Operand,
    inputs: &Vec<Operand>,
    outputs: &Vec<Vec<Operand>>,
    i: usize,
    graph: &mut TermGraph,
) -> (id: usize)
    requires
        arena_ordered(arena_of(nodes@)),
        arena_writable(arena_of(nodes@)),
        i <= nodes.len(),
        operand_below(*pred, i as int),
        operand_writable(*pred),
        operands_below(inputs@, i as int),
        operands_writable(inputs@),
        rows_below(rows_of(outputs@), i as int),
        rows_writable(rows_of(outputs@)),
        same_width(rows_of(outputs@)),
    ensures
        graph_extends(old(graph)@, final(graph)@),
        id < final(graph)@.len(),
        read_body(final(graph)@, final(graph)@[id as int], id as nat) == Ok::<
            BodyTree,
            DecodeErrorModel,
        >(
            BodyTree::Gamma {
                pred: operand_tree(arena_of(nodes@), *pred),
                inputs: scoped_trees(arena_of(nodes@), inputs@, i as nat),
                outputs: scoped_rows(arena_of(nodes@), rows_of(outputs@), i as nat),
            },
        ),
    decreases i, 60nat,
{
    let p = write_operand(nodes, pred, graph);
    let ghost g1 = graph@;
    let l = write_operands(nodes, inputs, i, graph);
    let ghost g2 = graph@;
    let o = write_rows(nodes, outputs, i, graph);
    let ghost g3 = graph@;
    let id = push_app(graph, "Gamma", three(p, l, o));
    proof {
        lemma_none_dangle(seq![p, l, o], graph@.len(), 0);
        lemma_operand_grows(g1, graph@, g1[p as int], p as nat, id as nat);
        lemma_operand_list_grows(g2, graph@, g2[l as int], l as nat, id as nat);
        lemma_operand_rows_grow(g3, graph@, g3[o as int], o as nat, id as nat);
    }
    id
}

/// Writes the term of a theta node at index `i`, and before it the terms
/// of its parts.
fn write_theta(
    nodes: &Vec<RvsdgBody>,
    pred: &Operand,
    inputs: &Vec<Operand>,
    outputs: &Vec<Operand>,
    i: usize,
    graph: &mut TermGraph,
) -> (id: usize)
    requires
        arena_ordered(arena_of(nodes@)),
        arena_writable(arena_of(nodes@)),
        i <= nodes.len(),
        operand_below(*pred, i as int),
        operand_writable(*pred),
        operands_below(inputs@, i as int),
        operands_writable(inputs@),
        operands_below(outputs@, i as int),
        operands_writable(outputs@),
    ensures
        graph_extends(old(graph)@, final(graph)@),
        id < final(graph)@.len(),
        read_body(final(graph)@, final(graph)@[id as int], id as nat) == Ok::<
            BodyTree,
            DecodeErrorModel,
        >(
            BodyTree::Theta {
                pred: operand_tree(arena_of(nodes@), *pred),
                inputs: scoped_trees(arena_of(nodes@), inputs@, i as nat),
                outputs: scoped_trees(arena_of(nodes@), outputs@, i as nat),
            },
        ),
    decreases i, 60nat,
{
    let p = write_operand(nodes, pred, graph);
    let ghost g1 = graph@;
    let l = write_operands(nodes, inputs, i, graph);
    let ghost g2 = graph@;
    let o = write_operands(nodes, outputs, i, graph);
    let ghost g3 = graph@;
    let id = push_app(graph, "Theta", three(p, l, o));
    proof {
        lemma_heads_differ();
        lemma_none_dangle(seq![p, l, o], graph@.len(), 0);
        lemma_operand_grows(g1, graph@, g1[p as int], p as nat, id as nat);
        lemma_operand_list_grows(g2, graph@, g2[l as int], l as nat, id as nat);
        lemma_operand_list_grows(g3, graph@, g3[o as int], o as nat, id as nat);
    }
    id
}

/// Writes the term of the node at index `i`, and before it the terms of
/// everything it refers to: its index.
fn write_body(nodes: &Vec<RvsdgBody>, i: usize, graph: &mut TermGraph) -> (id: usize)
    requires
        arena_ordered(arena_of(nodes@)),
        arena_writable(arena_of(nodes@)),
        i < nodes.len(),
    ensures
        graph_extends(old(graph)@, final(graph)@),
        id < final(graph)@.len(),
        read_body(final(graph)@, final(graph)@[id as int], id as nat) == Ok::<
            BodyTree,
            DecodeErrorModel,
        >(body_tree(arena_of(nodes@), i as nat)),
    decreases i + 1, 0nat,
{
    assert(body_below(arena_of(nodes@)[i as int], i as int));
    assert(body_writable(arena_of(nodes@)[i as int]));
    match &nodes[i] {
        RvsdgBody::BasicOp(e) => {
            let c = write_expr(nodes, e, i, graph);
            let ghost before = graph@;
            let id = push_app(graph, "PureOp", one(c));
            proof {
                lemma_none_dangle(seq![c], graph@.len(), 0);
                lemma_expr_grows(before, graph@, before[c as int], c as nat, id as nat);
            }
            id
        },
        RvsdgBody::Gamma { pred, inputs, outputs } => write_gamma(
            nodes,
            pred,
            inputs,
            outputs,
            i,
            graph,
        ),
        RvsdgBody::Theta { pred, inputs, outputs } => write_theta(
            nodes,
            pred,
            inputs,
            outputs,
            i,
            graph,
        ),
    }
}

/// What the terms at `ids` stand for one by one, they stand for as a
/// signature.
proof fn lemma_decode_each_type(
    g: Seq<NodeModel>,
    ids: Seq<usize>,
    types: Seq<RvsdgType>,
    k: nat,
    fuel: nat,
)
    requires
        k <= ids.len(),
        ids.len() == types.len(),
        forall|j: int|
            0 <= j < ids.len() ==> (#[trigger] ids[j]) < g.len() && ids[j] <= fuel
                && decode_rvsdg_type(g, g[ids[j] as int], ids[j] as nat) == Ok::<
                RvsdgType,
                DecodeErrorModel,
            >(types[j]),
    ensures
        decode_types_upto(g, ids, k, fuel) == Ok::<Seq<RvsdgType>, DecodeErrorModel>(
            types.take(k as int),
        ),
    decreases k,
{
    if k == 0 {
        assert(types.take(0) =~= Seq::<RvsdgType>::empty());
    } else {
        lemma_decode_each_type(g, ids, types, (k - 1) as nat, fuel);
        let id = ids[k - 1];
        lemma_rvsdg_type_grows(g, g, g[id as int], id as nat, fuel);
        assert(types.take(k as int) =~= types.take(k - 1).push(types[k - 1]));
    }
}

/// Writes the terms of the edge types of a signature, then their flat
/// list: the index of the list.
fn write_signature(graph: &mut TermGraph, args: &Vec<RvsdgType>) -> (id: usize)
    ensures
        graph_extends(old(graph)@, final(graph)@),
        id < final(graph)@.len(),
        decode_signature(final(graph)@, final(graph)@[id as int], id as nat) == Ok::<
            Seq<RvsdgType>,
            DecodeErrorModel,
        >(args@),
{
    let mut ids: Vec<usize> = Vec::new();
    let mut k: usize = 0;
    while k < args.len()
        invariant
            graph_extends(old(graph)@, graph@),
            k <= args.len(),
            ids.len() == k,
            forall|j: int|
                0 <= j < k ==> (#[trigger] ids@[j]) < graph@.len() && decode_rvsdg_type(
                    graph@,
                    graph@[ids@[j] as int],
                    ids@[j] as nat,
                ) == Ok::<RvsdgType, DecodeErrorModel>(args@[j]),
        decreases args.len() - k,
    {
        let ghost before = graph@;
        let ghost earlier = ids@;
        let id = write_rvsdg_type(graph, &args[k]);
        ids.push(id);
        proof {
            assert forall|j: int| 0 <= j < k + 1 implies (#[trigger] ids@[j]) < graph@.len()
                && decode_rvsdg_type(graph@, graph@[ids@[j] as int], ids@[j] as nat) == Ok::<
                RvsdgType,
                DecodeErrorModel,
            >(args@[j]) by {
                if j < k {
                    assert(ids@[j] == earlier[j]);
                    assert(earlier[j] < before.len());
                    lemma_rvsdg_type_grows(
                        before,
                        graph@,
                        before[earlier[j] as int],
                        earlier[j] as nat,
                        earlier[j] as nat,
                    );
                }
            }
        }
        k += 1;
    }
    let ghost written = ids@;
    let ghost before = graph@;
    let id = push_app(graph, "vec-of", ids);
    proof {
        assert forall|j: int| 0 <= j < written.len() implies (#[trigger] written[j])
            < graph@.len() && written[j] <= id && decode_rvsdg_type(
            graph@,
            graph@[written[j] as int],
            written[j] as nat,
        ) == Ok::<RvsdgType, DecodeErrorModel>(args@[j]) by {
            assert(written[j] < before.len());
            lemma_rvsdg_type_grows(
                before,
                graph@,
                before[written[j] as int],
                written[j] as nat,
                written[j] as nat,
            );
        }
        lemma_decode_each_type(graph@, written, args@, written.len(), id as nat);
        assert(args@.take(written.len() as int) =~= args@);
    }
    id
}

/// Whether the position of the operand fits.
fn operand_is_writable(a: &Operand) -> (r: bool)
    ensures
        r == operand_writable(*a),
{
    match a {
        Operand::Arg(n) => *n as u64 <= 0x7fff_ffff_ffff_ffff,
        Operand::Id(_) => true,
        Operand::Project(k, _) => *k as u64 <= 0x7fff_ffff_ffff_ffff,
    }
}

/// Whether the positions of all of `ops` fit.
fn operands_are_writable(ops: &Vec<Operand>) -> (r: bool)
    ensures
        r == operands_writable(ops@),
{
    let mut k: usize = 0;
    while k < ops.len()
        invariant
            k <= ops.len(),
            forall|j: int| 0 <= j < k ==> operand_writable(#[trigger] ops@[j]),
        decreases ops.len() - k,
    {
        if !operand_is_writable(&ops[k]) {
            return false;
        }
        k += 1;
    }
    true
}

/// Whether the positions of all of `rows` fit.
fn rows_are_writable(rows: &Vec<Vec<Operand>>) -> (r: bool)
    ensures
        r == rows_writable(rows_of(rows@)),
{
    let mut k: usize = 0;
    while k < rows.len()
        invariant
            k <= rows.len(),
            forall|j: int| 0 <= j < k ==> operands_writable(#[trigger] rows_of(rows@)[j]),
        decreases rows.len() - k,
    {
        if !operands_are_writable(&rows[k]) {
            assert(!operands_writable(rows_of(rows@)[k as int]));
            return false;
        }
        k += 1;
    }
    true
}

/// Whether a term can stand for the body.
fn body_is_writable(body: &RvsdgBody) -> (r: bool)
    ensures
        r == body_writable(body@),
{
    match body {
        RvsdgBody::BasicOp(BasicExpr::Op(_, args, _)) => args.len() == 2
            && operands_are_writable(args),
        RvsdgBody::BasicOp(BasicExpr::Call(_, args, outputs, ty)) => {
            let expected: usize = if ty.is_some() {
                2
            } else {
                1
            };
            *outputs == expected && operands_are_writable(args)
        },
        RvsdgBody::BasicOp(BasicExpr::Print(args)) => args.len() == 2 && operands_are_writable(
            args,
        ),
        RvsdgBody::BasicOp(BasicExpr::Const(_, lit, _)) => match lit {
            Literal::Bool(_) => false,
            _ => true,
        },
        RvsdgBody::Gamma { pred, inputs, outputs } => operand_is_writable(pred)
            && operands_are_writable(inputs) && rows_are_writable(outputs) && rows_same_width(
            outputs,
        ),
        RvsdgBody::Theta { pred, inputs, outputs } => operand_is_writable(pred)
            && operands_are_writable(inputs) && operands_are_writable(outputs),
    }
}

/// The head of the output of a function that returns no value is not the
/// head of one that does.
proof fn lemma_function_heads()
    ensures
        "StateOnly"@ != "StateAndValue"@,
{
    reveal_strlit("StateOnly");
    reveal_strlit("StateAndValue");
    assert("StateOnly"@.len() == 9 && "StateAndValue"@.len() == 13);
}

impl RvsdgFunction {
    /// Whether a term can stand for the function.
    pub fn is_writable(&self) -> (r: bool)
        ensures
            r == self@.writable(),
    {
        if !self.is_well_formed() {
            return false;
        }
        let mut k: usize = 0;
        while k < self.nodes.len()
            invariant
                k <= self.nodes.len(),
                forall|j: int| 0 <= j < k ==> body_writable(#[trigger] self@.nodes[j]),
            decreases self.nodes.len() - k,
        {
            if !body_is_writable(&self.nodes[k]) {
                assert(!body_writable(self@.nodes[k as int]));
                return false;
            }
            k += 1;
        }
        if !operand_is_writable(&self.state) {
            return false;
        }
        match &self.result {
            Some((_, value)) => {
                if !operand_is_writable(value) {
                    return false;
                }
            },
            None => {},
        }
        self.args.len() >= 1 && self.n_args == self.args.len() - 1
    }

    /// Writes the function as a term over a graph of its own: the term of
    /// the function, which stands outside the graph, and the graph.
    ///
    /// Every node is written once for each use, after what it refers to,
    /// and every list flat. The term spells out the tree of the function,
    /// so it decodes, and to a function with the same tree. Nothing is
    /// written for a function for which no term can stand.
    pub fn to_term_graph(&self) -> (r: Option<(TermNode, TermGraph)>)
        ensures
            match r {
                Some((root, graph)) => {
                    &&& self@.writable()
                    &&& read_function(root@, graph@) == Ok::<FunctionTree, DecodeErrorModel>(
                        function_tree(self@),
                    )
                    &&& decode_function(root@, graph@) is Ok
                },
                None => !self@.writable(),
            },
    {
        if !self.is_writable() {
            return None;
        }
        let mut graph = TermGraph { nodes: Vec::new() };
        let name = push_term(&mut graph, TermNode::Lit(TermLit::Str(self.name.clone())));
        let sig = write_signature(&mut graph, &self.args);
        let ghost g1 = graph@;
        let state = write_operand(&self.nodes, &self.state, &mut graph);
        let ghost g2 = graph@;
        let output = match &self.result {
            None => {
                let output = push_app(&mut graph, "StateOnly", one(state));
                proof {
                    lemma_none_dangle(seq![state], graph@.len(), 0);
                    lemma_operand_grows(
                        g2,
                        graph@,
                        g2[state as int],
                        state as nat,
                        graph@.len(),
                    );
                }
                output
            },
            Some((ty, value)) => {
                let t = write_type(&mut graph, ty);
                let ghost g3 = graph@;
                let v = write_operand(&self.nodes, value, &mut graph);
                let ghost g4 = graph@;
                let output = push_app(&mut graph, "StateAndValue", three(state, t, v));
                proof {
                    lemma_function_heads();
                    lemma_none_dangle(seq![state, t, v], graph@.len(), 0);
                    lemma_operand_grows(
                        g2,
                        graph@,
                        g2[state as int],
                        state as nat,
                        graph@.len(),
                    );
                    lemma_type_grows(g3, graph@, g3[t as int], t as nat, graph@.len());
                    lemma_operand_grows(g4, graph@, g4[v as int], v as nat, graph@.len());
                }
                output
            },
        };
        let root = TermNode::App("Func".to_owned(), three(name, sig, output));
        proof {
            lemma_none_dangle(seq![name, sig, output], graph@.len(), 0);
            lemma_signature_grows(g1, graph@, g1[sig as int], sig as nat, graph@.len());
            lemma_decoding_reads_the_term(root@, graph@);
        }
        Some((root, graph))
    }
}

/// The round trip: a term that spells out the tree of a function decodes,
/// and to a function with that tree. What differs is what the trees leave
/// out: a node that the function shares comes back once for each use, and
/// the nodes come back in the order in which the decoder meets them.
pub proof fn lemma_round_trip(f: FunctionModel, root: NodeModel, g: Seq<NodeModel>)
    requires
        read_function(root, g) == Ok::<FunctionTree, DecodeErrorModel>(function_tree(f)),
    ensures
        decode_function(root, g) matches Ok(decoded) && (fits(decoded.nodes) ==> function_tree(
            decoded,
        ) == function_tree(f)),
{
    lemma_decoding_reads_the_term(root, g);
}

} // verus!
