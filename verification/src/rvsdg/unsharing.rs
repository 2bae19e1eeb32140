//! Decoding loses nothing but sharing: the function that comes out of the
//! decoder has the tree that the term spells out.

use vstd::prelude::*;

use super::decoding::{
    decode_body, decode_expr, decode_function, decode_operand, decode_operand_list,
    decode_operand_rows, decode_operands_upto, decode_rows_upto, first_dangling, in_list_order,
    list_elements, Arena, DecodeErrorModel,
};
use super::terms::NodeModel;
use super::trees::{
    body_tree, expr_tree, function_tree, operand_rank, operand_tree, read_body, read_expr,
    read_function, read_operand, read_operand_list, read_operand_rows, read_operands_upto,
    read_rows_upto, scoped_rows, scoped_tree, scoped_trees, BodyTree, ExprTree, FunctionTree,
    OperandTree,
};
use super::{
    body_below, operand_below, operands_below, rows_below, same_width, BasicExprModel, BodyModel,
    Operand,
};

verus! {

/// Whether `ys` holds the nodes of `xs` at their indices.
pub open spec fn extends(xs: Arena, ys: Arena) -> bool {
    &&& xs.len() <= ys.len()
    &&& forall|i: int| 0 <= i < xs.len() ==> ys[i] == xs[i]
}

/// The trees of the operands `ops` over the arena `xs`.
pub open spec fn trees_of(xs: Arena, ops: Seq<Operand>) -> Seq<OperandTree> {
    Seq::new(ops.len(), |k: int| operand_tree(xs, ops[k]))
}

/// The trees of the rows `rows` over the arena `xs`.
pub open spec fn row_trees_of(xs: Arena, rows: Seq<Seq<Operand>>) -> Seq<Seq<OperandTree>> {
    Seq::new(rows.len(), |k: int| trees_of(xs, rows[k]))
}

/// The tree of the operation `e` over the arena `xs`.
pub open spec fn plain_expr_tree(xs: Arena, e: BasicExprModel) -> ExprTree {
    match e {
        BasicExprModel::Op(op, args, ty) => ExprTree::Op(op, trees_of(xs, args), ty),
        BasicExprModel::Call(name, args, outputs, ty) => ExprTree::Call(
            name,
            trees_of(xs, args),
            outputs,
            ty,
        ),
        BasicExprModel::Print(args) => ExprTree::Print(trees_of(xs, args)),
        BasicExprModel::Const(op, lit, ty) => ExprTree::Const(op, lit, ty),
    }
}

/// The tree of an operand reads only the nodes below it: it is the same
/// over every arena that holds them.
proof fn lemma_operand_frame(xs: Arena, ys: Arena, a: Operand)
    requires
        extends(xs, ys),
        operand_below(a, xs.len() as int),
    ensures
        operand_tree(ys, a) == operand_tree(xs, a),
    decreases operand_rank(a), 1nat,
{
    match a {
        Operand::Arg(_) => {},
        Operand::Id(i) => lemma_body_frame(xs, ys, i as nat),
        Operand::Project(_, i) => lemma_body_frame(xs, ys, i as nat),
    }
}

proof fn lemma_scoped_frame(xs: Arena, ys: Arena, a: Operand, bound: nat)
    requires
        extends(xs, ys),
        bound <= xs.len(),
    ensures
        scoped_tree(ys, a, bound) == scoped_tree(xs, a, bound),
    decreases bound, 2nat,
{
    if operand_below(a, bound as int) {
        lemma_operand_frame(xs, ys, a);
    }
}

proof fn lemma_scoped_trees_frame(xs: Arena, ys: Arena, ops: Seq<Operand>, bound: nat)
    requires
        extends(xs, ys),
        bound <= xs.len(),
    ensures
        scoped_trees(ys, ops, bound) == scoped_trees(xs, ops, bound),
    decreases bound, 3nat,
{
    assert forall|k: int| 0 <= k < ops.len() implies scoped_tree(ys, ops[k], bound)
        == scoped_tree(xs, ops[k], bound) by {
        lemma_scoped_frame(xs, ys, ops[k], bound);
    }
    assert(scoped_trees(ys, ops, bound) =~= scoped_trees(xs, ops, bound));
}

proof fn lemma_scoped_rows_frame(xs: Arena, ys: Arena, rows: Seq<Seq<Operand>>, bound: nat)
    requires
        extends(xs, ys),
        bound <= xs.len(),
    ensures
        scoped_rows(ys, rows, bound) == scoped_rows(xs, rows, bound),
    decreases bound, 4nat,
{
    assert forall|k: int| 0 <= k < rows.len() implies scoped_trees(ys, rows[k], bound)
        == scoped_trees(xs, rows[k], bound) by {
        lemma_scoped_trees_frame(xs, ys, rows[k], bound);
    }
    assert(scoped_rows(ys, rows, bound) =~= scoped_rows(xs, rows, bound));
}

proof fn lemma_expr_frame(xs: Arena, ys: Arena, e: BasicExprModel, bound: nat)
    requires
        extends(xs, ys),
        bound <= xs.len(),
    ensures
        expr_tree(ys, e, bound) == expr_tree(xs, e, bound),
    decreases bound, 5nat,
{
    match e {
        BasicExprModel::Op(_, args, _) => lemma_scoped_trees_frame(xs, ys, args, bound),
        BasicExprModel::Call(_, args, _, _) => lemma_scoped_trees_frame(xs, ys, args, bound),
        BasicExprModel::Print(args) => lemma_scoped_trees_frame(xs, ys, args, bound),
        BasicExprModel::Const(_, _, _) => {},
    }
}

proof fn lemma_body_frame(xs: Arena, ys: Arena, i: nat)
    requires
        extends(xs, ys),
        i < xs.len(),
    ensures
        body_tree(ys, i) == body_tree(xs, i),
    decreases i + 1, 0nat,
{
    assert(ys[i as int] == xs[i as int]);
    match xs[i as int] {
        BodyModel::BasicOp(e) => lemma_expr_frame(xs, ys, e, i),
        BodyModel::Gamma { pred, inputs, outputs } => {
            lemma_scoped_frame(xs, ys, pred, i);
            lemma_scoped_trees_frame(xs, ys, inputs, i);
            lemma_scoped_rows_frame(xs, ys, outputs, i);
        },
        BodyModel::Theta { pred, inputs, outputs } => {
            lemma_scoped_frame(xs, ys, pred, i);
            lemma_scoped_trees_frame(xs, ys, inputs, i);
            lemma_scoped_trees_frame(xs, ys, outputs, i);
        },
    }
}

/// The trees of operands below the end of `xs` are the same over every
/// arena that holds the nodes of `xs`.
proof fn lemma_trees_frame(xs: Arena, ys: Arena, ops: Seq<Operand>)
    requires
        extends(xs, ys),
        operands_below(ops, xs.len() as int),
    ensures
        trees_of(ys, ops) == trees_of(xs, ops),
{
    assert forall|k: int| 0 <= k < ops.len() implies operand_tree(ys, ops[k]) == operand_tree(
        xs,
        ops[k],
    ) by {
        lemma_operand_frame(xs, ys, ops[k]);
    }
    assert(trees_of(ys, ops) =~= trees_of(xs, ops));
}

proof fn lemma_row_trees_frame(xs: Arena, ys: Arena, rows: Seq<Seq<Operand>>)
    requires
        extends(xs, ys),
        rows_below(rows, xs.len() as int),
    ensures
        row_trees_of(ys, rows) == row_trees_of(xs, rows),
{
    assert forall|k: int| 0 <= k < rows.len() implies trees_of(ys, rows[k]) == trees_of(
        xs,
        rows[k],
    ) by {
        lemma_trees_frame(xs, ys, rows[k]);
    }
    assert(row_trees_of(ys, rows) =~= row_trees_of(xs, rows));
}

/// An operand of a node that refers below the end of `xs`, where the node
/// stands at that end or after it.
proof fn lemma_scoped_is_tree(xs: Arena, ys: Arena, a: Operand, bound: nat)
    requires
        extends(xs, ys),
        operand_below(a, xs.len() as int),
        xs.len() <= bound,
    ensures
        scoped_tree(ys, a, bound) == operand_tree(xs, a),
{
    lemma_operand_frame(xs, ys, a);
}

proof fn lemma_scoped_are_trees(xs: Arena, ys: Arena, ops: Seq<Operand>, bound: nat)
    requires
        extends(xs, ys),
        operands_below(ops, xs.len() as int),
        xs.len() <= bound,
    ensures
        scoped_trees(ys, ops, bound) == trees_of(xs, ops),
{
    assert forall|k: int| 0 <= k < ops.len() implies scoped_tree(ys, ops[k], bound)
        == operand_tree(xs, ops[k]) by {
        lemma_scoped_is_tree(xs, ys, ops[k], bound);
    }
    assert(scoped_trees(ys, ops, bound) =~= trees_of(xs, ops));
}

proof fn lemma_scoped_rows_are_trees(xs: Arena, ys: Arena, rows: Seq<Seq<Operand>>, bound: nat)
    requires
        extends(xs, ys),
        rows_below(rows, xs.len() as int),
        xs.len() <= bound,
    ensures
        scoped_rows(ys, rows, bound) == row_trees_of(xs, rows),
{
    assert forall|k: int| 0 <= k < rows.len() implies scoped_trees(ys, rows[k], bound)
        == trees_of(xs, rows[k]) by {
        lemma_scoped_are_trees(xs, ys, rows[k], bound);
    }
    assert(scoped_rows(ys, rows, bound) =~= row_trees_of(xs, rows));
}

proof fn lemma_scoped_expr_is_tree(xs: Arena, ys: Arena, e: BasicExprModel, bound: nat)
    requires
        extends(xs, ys),
        body_below(BodyModel::BasicOp(e), xs.len() as int),
        xs.len() <= bound,
    ensures
        expr_tree(ys, e, bound) == plain_expr_tree(xs, e),
{
    match e {
        BasicExprModel::Op(_, args, _) => lemma_scoped_are_trees(xs, ys, args, bound),
        BasicExprModel::Call(_, args, _, _) => lemma_scoped_are_trees(xs, ys, args, bound),
        BasicExprModel::Print(args) => lemma_scoped_are_trees(xs, ys, args, bound),
        BasicExprModel::Const(_, _, _) => {},
    }
}

/// Whether the arena has no more nodes than an index can count, as every
/// arena in memory has.
pub open spec fn fits(xs: Arena) -> bool {
    xs.len() <= usize::MAX
}

/// Whether the outcome of decoding an operand agrees with the reading.
pub open spec fn operand_agrees(
    arena: Arena,
    decoded: Result<(Operand, Arena), DecodeErrorModel>,
    read: Result<OperandTree, DecodeErrorModel>,
) -> bool {
    match decoded {
        Ok((op, after)) => {
            &&& extends(arena, after)
            &&& read is Ok
            &&& fits(after) ==> operand_below(op, after.len() as int) && read->Ok_0
                == operand_tree(after, op)
        },
        Err(e) => read == Err::<OperandTree, DecodeErrorModel>(e),
    }
}

/// Whether the outcome of decoding a list of operands agrees with the
/// reading.
pub open spec fn operands_agree(
    arena: Arena,
    decoded: Result<(Seq<Operand>, Arena), DecodeErrorModel>,
    read: Result<Seq<OperandTree>, DecodeErrorModel>,
) -> bool {
    match decoded {
        Ok((ops, after)) => {
            &&& extends(arena, after)
            &&& read is Ok
            &&& read->Ok_0.len() == ops.len()
            &&& fits(after) ==> operands_below(ops, after.len() as int) && read->Ok_0
                == trees_of(after, ops)
        },
        Err(e) => read == Err::<Seq<OperandTree>, DecodeErrorModel>(e),
    }
}

/// Whether the two lists hold as many rows, and at each position rows of
/// the same width.
pub open spec fn same_shape<A, B>(a: Seq<Seq<A>>, b: Seq<Seq<B>>) -> bool {
    &&& a.len() == b.len()
    &&& forall|k: int| 0 <= k < a.len() ==> (#[trigger] a[k]).len() == b[k].len()
}

/// Lists of the same shape have rows of one width together.
proof fn lemma_same_shape_same_width<A, B>(a: Seq<Seq<A>>, b: Seq<Seq<B>>)
    requires
        same_shape(a, b),
    ensures
        same_width(a) == same_width(b),
{
    if same_width(a) {
        assert forall|i: int, j: int|
            #![trigger b[i], b[j]]
            0 <= i < b.len() && 0 <= j < b.len() implies b[i].len() == b[j].len() by {
            assert(a[i].len() == b[i].len());
            assert(a[j].len() == b[j].len());
        }
    }
    if same_width(b) {
        assert forall|i: int, j: int|
            #![trigger a[i], a[j]]
            0 <= i < a.len() && 0 <= j < a.len() implies a[i].len() == a[j].len() by {
            assert(a[i].len() == b[i].len());
            assert(a[j].len() == b[j].len());
        }
    }
}

/// Whether the outcome of decoding a list of rows agrees with the reading.
pub open spec fn rows_agree(
    arena: Arena,
    decoded: Result<(Seq<Seq<Operand>>, Arena), DecodeErrorModel>,
    read: Result<Seq<Seq<OperandTree>>, DecodeErrorModel>,
) -> bool {
    match decoded {
        Ok((rows, after)) => {
            &&& extends(arena, after)
            &&& read is Ok
            &&& same_shape(read->Ok_0, rows)
            &&& fits(after) ==> rows_below(rows, after.len() as int) && read->Ok_0
                == row_trees_of(after, rows)
        },
        Err(e) => read == Err::<Seq<Seq<OperandTree>>, DecodeErrorModel>(e),
    }
}

/// Whether the outcome of decoding an operation agrees with the reading.
pub open spec fn expr_agrees(
    arena: Arena,
    decoded: Result<(BasicExprModel, Arena), DecodeErrorModel>,
    read: Result<ExprTree, DecodeErrorModel>,
) -> bool {
    match decoded {
        Ok((e, after)) => {
            &&& extends(arena, after)
            &&& read is Ok
            &&& fits(after) ==> body_below(BodyModel::BasicOp(e), after.len() as int)
                && read->Ok_0 == plain_expr_tree(after, e)
        },
        Err(e) => read == Err::<ExprTree, DecodeErrorModel>(e),
    }
}

/// Whether the outcome of decoding a body agrees with the reading.
pub open spec fn body_agrees(
    arena: Arena,
    decoded: Result<(usize, Arena), DecodeErrorModel>,
    read: Result<BodyTree, DecodeErrorModel>,
) -> bool {
    match decoded {
        Ok((id, after)) => {
            &&& extends(arena, after)
            &&& read is Ok
            &&& fits(after) ==> id < after.len() && read->Ok_0 == body_tree(after, id as nat)
        },
        Err(e) => read == Err::<BodyTree, DecodeErrorModel>(e),
    }
}

proof fn lemma_operand_reads(g: Seq<NodeModel>, node: NodeModel, arena: Arena, fuel: nat)
    ensures
        operand_agrees(arena, decode_operand(g, node, arena, fuel), read_operand(g, node, fuel)),
    decreases fuel, 0nat, 0nat,
{
    if let NodeModel::App(head, children) = node {
        if first_dangling(children, g.len()) is None && fuel > 0 {
            if children.len() == 1 {
                lemma_body_reads(g, g[children[0] as int], arena, (fuel - 1) as nat);
            } else if children.len() == 2 {
                lemma_body_reads(g, g[children[1] as int], arena, (fuel - 1) as nat);
            }
        }
    }
}

proof fn lemma_operands_upto_read(
    g: Seq<NodeModel>,
    ids: Seq<usize>,
    k: nat,
    arena: Arena,
    fuel: nat,
)
    requires
        k <= ids.len(),
    ensures
        operands_agree(
            arena,
            decode_operands_upto(g, ids, k, arena, fuel),
            read_operands_upto(g, ids, k, fuel),
        ),
        decode_operands_upto(g, ids, k, arena, fuel) matches Ok((ops, _)) ==> ops.len() == k,
    decreases fuel, 1nat, k,
{
    if k == 0 {
        assert(trees_of(arena, Seq::<Operand>::empty()) =~= Seq::<OperandTree>::empty());
    } else {
        lemma_operands_upto_read(g, ids, (k - 1) as nat, arena, fuel);
        if let Ok((ops, before)) = decode_operands_upto(g, ids, (k - 1) as nat, arena, fuel) {
            let id = ids[k - 1];
            if id < g.len() {
                lemma_operand_reads(g, g[id as int], before, fuel);
                if let Ok((op, after)) = decode_operand(g, g[id as int], before, fuel) {
                    lemma_trees_frame(before, after, ops);
                    assert(trees_of(after, ops.push(op)) =~= trees_of(before, ops).push(
                        operand_tree(after, op),
                    ));
                    assert(operands_below(ops.push(op), after.len() as int));
                }
            }
        }
    }
}

/// Putting trees in list order and taking the trees of operands in list
/// order come to the same.
proof fn lemma_trees_in_list_order(xs: Arena, ops: Seq<Operand>, backwards: bool)
    ensures
        in_list_order(trees_of(xs, ops), backwards) == trees_of(
            xs,
            in_list_order(ops, backwards),
        ),
        operands_below(ops, xs.len() as int) ==> operands_below(
            in_list_order(ops, backwards),
            xs.len() as int,
        ),
{
    assert(in_list_order(trees_of(xs, ops), backwards) =~= trees_of(
        xs,
        in_list_order(ops, backwards),
    ));
}

proof fn lemma_rows_in_list_order(xs: Arena, rows: Seq<Seq<Operand>>, backwards: bool)
    ensures
        in_list_order(row_trees_of(xs, rows), backwards) == row_trees_of(
            xs,
            in_list_order(rows, backwards),
        ),
        rows_below(rows, xs.len() as int) ==> rows_below(
            in_list_order(rows, backwards),
            xs.len() as int,
        ),
{
    assert(in_list_order(row_trees_of(xs, rows), backwards) =~= row_trees_of(
        xs,
        in_list_order(rows, backwards),
    ));
}

proof fn lemma_operand_list_reads(g: Seq<NodeModel>, node: NodeModel, arena: Arena, fuel: nat)
    ensures
        operands_agree(
            arena,
            decode_operand_list(g, node, arena, fuel),
            read_operand_list(g, node, fuel),
        ),
    decreases fuel, 2nat, 0nat,
{
    if let NodeModel::App(head, children) = node {
        if first_dangling(children, g.len()) is None && head == "VO"@ && children.len() == 1 {
            if let Ok((ids, backwards)) = list_elements(g, g[children[0] as int], fuel) {
                lemma_operands_upto_read(g, ids, ids.len(), arena, fuel);
                if let Ok((ops, after)) = decode_operands_upto(g, ids, ids.len(), arena, fuel) {
                    lemma_trees_in_list_order(after, ops, backwards);
                }
            }
        }
    }
}

proof fn lemma_rows_upto_read(
    g: Seq<NodeModel>,
    ids: Seq<usize>,
    k: nat,
    arena: Arena,
    fuel: nat,
)
    requires
        k <= ids.len(),
    ensures
        rows_agree(
            arena,
            decode_rows_upto(g, ids, k, arena, fuel),
            read_rows_upto(g, ids, k, fuel),
        ),
        decode_rows_upto(g, ids, k, arena, fuel) matches Ok((rows, _)) ==> rows.len() == k,
    decreases fuel, 3nat, k,
{
    if k == 0 {
        assert(row_trees_of(arena, Seq::<Seq<Operand>>::empty()) =~= Seq::<
            Seq<OperandTree>,
        >::empty());
    } else {
        lemma_rows_upto_read(g, ids, (k - 1) as nat, arena, fuel);
        if let Ok((rows, before)) = decode_rows_upto(g, ids, (k - 1) as nat, arena, fuel) {
            let id = ids[k - 1];
            if id < g.len() {
                lemma_operand_list_reads(g, g[id as int], before, fuel);
                if let Ok((row, after)) = decode_operand_list(g, g[id as int], before, fuel) {
                    let read_before = read_rows_upto(g, ids, (k - 1) as nat, fuel)->Ok_0;
                    let read_row = read_operand_list(g, g[id as int], fuel)->Ok_0;
                    assert forall|j: int| 0 <= j < k implies (#[trigger] read_before.push(
                        read_row,
                    )[j]).len() == rows.push(row)[j].len() by {
                        if j < k - 1 {
                            assert(read_before.push(read_row)[j] == read_before[j]);
                            assert(read_before[j].len() == rows[j].len());
                        }
                    }
                    lemma_row_trees_frame(before, after, rows);
                    assert(row_trees_of(after, rows.push(row)) =~= row_trees_of(
                        before,
                        rows,
                    ).push(trees_of(after, row)));
                    assert(rows_below(rows.push(row), after.len() as int));
                }
            }
        }
    }
}

proof fn lemma_operand_rows_read(g: Seq<NodeModel>, node: NodeModel, arena: Arena, fuel: nat)
    ensures
        rows_agree(
            arena,
            decode_operand_rows(g, node, arena, fuel),
            read_operand_rows(g, node, fuel),
        ),
    decreases fuel, 4nat, 0nat,
{
    if let NodeModel::App(head, children) = node {
        if first_dangling(children, g.len()) is None && head == "VVO"@ && children.len() == 1 {
            if let Ok((ids, backwards)) = list_elements(g, g[children[0] as int], fuel) {
                lemma_rows_upto_read(g, ids, ids.len(), arena, fuel);
                if let Ok((rows, after)) = decode_rows_upto(g, ids, ids.len(), arena, fuel) {
                    let read_rows = read_rows_upto(g, ids, ids.len(), fuel)->Ok_0;
                    lemma_same_shape_same_width(read_rows, rows);
                    lemma_rows_in_list_order(after, rows, backwards);
                    if backwards {
                        let (a, b) = (read_rows.reverse(), rows.reverse());
                        assert forall|j: int| 0 <= j < a.len() implies (#[trigger] a[j]).len()
                            == b[j].len() by {
                            assert(a[j] == read_rows[read_rows.len() - 1 - j]);
                            assert(read_rows[read_rows.len() - 1 - j].len() == rows[rows.len()
                                - 1 - j].len());
                        }
                    }
                }
            }
        }
    }
}

proof fn lemma_expr_reads(g: Seq<NodeModel>, node: NodeModel, arena: Arena, fuel: nat)
    ensures
        expr_agrees(arena, decode_expr(g, node, arena, fuel), read_expr(g, node, fuel)),
    decreases fuel, 5nat, 0nat,
{
    if let NodeModel::App(head, children) = node {
        if first_dangling(children, g.len()) is None {
            if children.len() == 3 {
                lemma_operand_list_reads(g, g[children[2] as int], arena, fuel);
                lemma_operand_reads(g, g[children[1] as int], arena, fuel);
                if let Ok((first, middle)) = decode_operand(g, g[children[1] as int], arena, fuel) {
                    lemma_operand_reads(g, g[children[2] as int], middle, fuel);
                    if let Ok((second, after)) = decode_operand(
                        g,
                        g[children[2] as int],
                        middle,
                        fuel,
                    ) {
                        lemma_operand_frame(middle, after, first);
                        assert(trees_of(after, seq![first, second]) =~= seq![
                            operand_tree(middle, first),
                            operand_tree(after, second),
                        ]);
                    }
                }
            } else if children.len() == 2 {
                lemma_operand_reads(g, g[children[0] as int], arena, fuel);
                if let Ok((first, middle)) = decode_operand(g, g[children[0] as int], arena, fuel) {
                    lemma_operand_reads(g, g[children[1] as int], middle, fuel);
                    if let Ok((second, after)) = decode_operand(
                        g,
                        g[children[1] as int],
                        middle,
                        fuel,
                    ) {
                        lemma_operand_frame(middle, after, first);
                        assert(trees_of(after, seq![first, second]) =~= seq![
                            operand_tree(middle, first),
                            operand_tree(after, second),
                        ]);
                    }
                }
            }
        }
    }
}

proof fn lemma_body_reads(g: Seq<NodeModel>, node: NodeModel, arena: Arena, fuel: nat)
    ensures
        body_agrees(arena, decode_body(g, node, arena, fuel), read_body(g, node, fuel)),
    decreases fuel, 6nat, 0nat,
{
    if let NodeModel::App(head, children) = node {
        if first_dangling(children, g.len()) is None {
            if head == "PureOp"@ && children.len() == 1 {
                lemma_expr_reads(g, g[children[0] as int], arena, fuel);
                if let Ok((e, filled)) = decode_expr(g, g[children[0] as int], arena, fuel) {
                    let after = filled.push(BodyModel::BasicOp(e));
                    lemma_scoped_expr_is_tree(filled, after, e, filled.len());
                }
            } else if children.len() == 3 {
                lemma_operand_reads(g, g[children[0] as int], arena, fuel);
                if let Ok((pred, a1)) = decode_operand(g, g[children[0] as int], arena, fuel) {
                    lemma_operand_list_reads(g, g[children[1] as int], a1, fuel);
                    if let Ok((inputs, a2)) = decode_operand_list(
                        g,
                        g[children[1] as int],
                        a1,
                        fuel,
                    ) {
                        lemma_operand_rows_read(g, g[children[2] as int], a2, fuel);
                        lemma_operand_list_reads(g, g[children[2] as int], a2, fuel);
                        if head == "Gamma"@ {
                            if let Ok((outputs, a3)) = decode_operand_rows(
                                g,
                                g[children[2] as int],
                                a2,
                                fuel,
                            ) {
                                let after = a3.push(BodyModel::Gamma { pred, inputs, outputs });
                                lemma_scoped_is_tree(a1, after, pred, a3.len());
                                lemma_scoped_are_trees(a2, after, inputs, a3.len());
                                lemma_scoped_rows_are_trees(a3, after, outputs, a3.len());
                            }
                        } else if head == "Theta"@ {
                            if let Ok((outputs, a3)) = decode_operand_list(
                                g,
                                g[children[2] as int],
                                a2,
                                fuel,
                            ) {
                                let after = a3.push(BodyModel::Theta { pred, inputs, outputs });
                                lemma_scoped_is_tree(a1, after, pred, a3.len());
                                lemma_scoped_are_trees(a2, after, inputs, a3.len());
                                lemma_scoped_are_trees(a3, after, outputs, a3.len());
                            }
                        }
                    }
                }
            }
        }
    }
}

/// Decoding loses nothing but sharing. Where a term decodes to a function,
/// the tree of the function is the tree that the term spells out: the same
/// name and signature, and at the exit the same operations on the same
/// operands in the same order, a term that is referred to twice read
/// twice. Where a term does not decode, it spells out no function, for the
/// same reason.
///
/// So a term that was written to spell out the tree of a function decodes
/// to a function with that tree, whichever nodes the function shared and
/// in whichever order its arena held them.
pub proof fn lemma_decoding_reads_the_term(root: NodeModel, g: Seq<NodeModel>)
    ensures
        match decode_function(root, g) {
            Ok(f) => fits(f.nodes) ==> read_function(root, g) == Ok::<
                FunctionTree,
                DecodeErrorModel,
            >(function_tree(f)),
            Err(e) => read_function(root, g) == Err::<FunctionTree, DecodeErrorModel>(e),
        },
{
    if let NodeModel::App(head, children) = root {
        if first_dangling(children, g.len()) is None && children.len() == 3 {
            if let NodeModel::App(out_head, out_children) = g[children[2] as int] {
                if first_dangling(out_children, g.len()) is None {
                    let empty = Seq::<BodyModel>::empty();
                    if out_children.len() == 1 {
                        lemma_operand_reads(g, g[out_children[0] as int], empty, g.len());
                    } else if out_children.len() == 3 {
                        lemma_operand_reads(g, g[out_children[0] as int], empty, g.len());
                        if let Ok((state, nodes)) = decode_operand(
                            g,
                            g[out_children[0] as int],
                            empty,
                            g.len(),
                        ) {
                            lemma_operand_reads(g, g[out_children[2] as int], nodes, g.len());
                            if let Ok((value, after)) = decode_operand(
                                g,
                                g[out_children[2] as int],
                                nodes,
                                g.len(),
                            ) {
                                lemma_operand_frame(nodes, after, state);
                            }
                        }
                    }
                }
            }
        }
    }
}

} // verus!
