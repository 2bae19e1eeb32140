//! Comparing two functions by their trees: whether they hold the same
//! operations on the same operands, whatever each of them shares and in
//! whatever order its arena holds its nodes.

use vstd::prelude::*;

use super::trees::{
    body_tree, expr_tree, function_tree, operand_rank, operand_tree, scoped_rows, scoped_trees,
};
use super::{
    arena_of, arena_ordered, body_below, operand_below, operands_below, rows_below, rows_of,
    BasicExpr, Operand, RvsdgBody, RvsdgFunction, RvsdgType,
};
use crate::bril::Type;

verus! {

/// Whether the two optional types are the same.
fn same_option_type(a: &Option<Type>, b: &Option<Type>) -> (r: bool)
    ensures
        r == (*a == *b),
{
    match (a, b) {
        (Some(x), Some(y)) => x.same(y),
        (None, None) => true,
        _ => false,
    }
}

/// Whether the two edge types are the same.
fn same_rvsdg_type(a: &RvsdgType, b: &RvsdgType) -> (r: bool)
    ensures
        r == (*a == *b),
{
    match (a, b) {
        (RvsdgType::Bril(x), RvsdgType::Bril(y)) => x.same(y),
        (RvsdgType::PrintState, RvsdgType::PrintState) => true,
        _ => false,
    }
}

/// Whether the two signatures are the same.
fn same_signature(a: &Vec<RvsdgType>, b: &Vec<RvsdgType>) -> (r: bool)
    ensures
        r == (a@ == b@),
{
    if a.len() != b.len() {
        return false;
    }
    let mut k: usize = 0;
    while k < a.len()
        invariant
            k <= a.len(),
            a.len() == b.len(),
            forall|j: int| 0 <= j < k ==> a@[j] == b@[j],
        decreases a.len() - k,
    {
        if !same_rvsdg_type(&a[k], &b[k]) {
            return false;
        }
        k += 1;
    }
    assert(a@ =~= b@);
    true
}

/// Whether the operand `a` over `xs` and the operand `b` over `ys` have
/// the same tree.
fn same_operand(xs: &Vec<RvsdgBody>, a: &Operand, ys: &Vec<RvsdgBody>, b: &Operand) -> (r: bool)
    requires
        arena_ordered(arena_of(xs@)),
        arena_ordered(arena_of(ys@)),
        operand_below(*a, xs.len() as int),
        operand_below(*b, ys.len() as int),
    ensures
        r == (operand_tree(arena_of(xs@), *a) == operand_tree(arena_of(ys@), *b)),
    decreases operand_rank(*a), 1nat,
{
    match (a, b) {
        (Operand::Arg(m), Operand::Arg(n)) => *m == *n,
        (Operand::Id(i), Operand::Id(j)) => same_body(xs, *i, ys, *j),
        (Operand::Project(k, i), Operand::Project(l, j)) => *k == *l && same_body(xs, *i, ys, *j),
        _ => false,
    }
}

/// Whether the operands `a` of the node at index `m` of `xs` and the
/// operands `b` of the node at index `n` of `ys` have the same trees.
fn same_operands(
    xs: &Vec<RvsdgBody>,
    a: &Vec<Operand>,
    m: usize,
    ys: &Vec<RvsdgBody>,
    b: &Vec<Operand>,
    n: usize,
) -> (r: bool)
    requires
        arena_ordered(arena_of(xs@)),
        arena_ordered(arena_of(ys@)),
        m <= xs.len(),
        n <= ys.len(),
        operands_below(a@, m as int),
        operands_below(b@, n as int),
    ensures
        r == (scoped_trees(arena_of(xs@), a@, m as nat) == scoped_trees(
            arena_of(ys@),
            b@,
            n as nat,
        )),
    decreases m, 3nat,
{
    let ghost left = scoped_trees(arena_of(xs@), a@, m as nat);
    let ghost right = scoped_trees(arena_of(ys@), b@, n as nat);
    if a.len() != b.len() {
        assert(left.len() != right.len());
        return false;
    }
    let mut k: usize = 0;
    while k < a.len()
        invariant
            arena_ordered(arena_of(xs@)),
            arena_ordered(arena_of(ys@)),
            m <= xs.len(),
            n <= ys.len(),
            operands_below(a@, m as int),
            operands_below(b@, n as int),
            left == scoped_trees(arena_of(xs@), a@, m as nat),
            right == scoped_trees(arena_of(ys@), b@, n as nat),
            k <= a.len(),
            a.len() == b.len(),
            forall|j: int| 0 <= j < k ==> left[j] == right[j],
        decreases a.len() - k,
    {
        assert(operand_below(a@[k as int], m as int));
        assert(operand_below(b@[k as int], n as int));
        if !same_operand(xs, &a[k], ys, &b[k]) {
            assert(left[k as int] != right[k as int]);
            return false;
        }
        assert(left[k as int] == right[k as int]);
        k += 1;
    }
    assert(left =~= right);
    true
}

/// Whether the rows `a` of the node at index `m` of `xs` and the rows `b`
/// of the node at index `n` of `ys` have the same trees.
fn same_rows(
    xs: &Vec<RvsdgBody>,
    a: &Vec<Vec<Operand>>,
    m: usize,
    ys: &Vec<RvsdgBody>,
    b: &Vec<Vec<Operand>>,
    n: usize,
) -> (r: bool)
    requires
        arena_ordered(arena_of(xs@)),
        arena_ordered(arena_of(ys@)),
        m <= xs.len(),
        n <= ys.len(),
        rows_below(rows_of(a@), m as int),
        rows_below(rows_of(b@), n as int),
    ensures
        r == (scoped_rows(arena_of(xs@), rows_of(a@), m as nat) == scoped_rows(
            arena_of(ys@),
            rows_of(b@),
            n as nat,
        )),
    decreases m, 4nat,
{
    let ghost left = scoped_rows(arena_of(xs@), rows_of(a@), m as nat);
    let ghost right = scoped_rows(arena_of(ys@), rows_of(b@), n as nat);
    if a.len() != b.len() {
        assert(left.len() != right.len());
        return false;
    }
    let mut k: usize = 0;
    while k < a.len()
        invariant
            arena_ordered(arena_of(xs@)),
            arena_ordered(arena_of(ys@)),
            m <= xs.len(),
            n <= ys.len(),
            rows_below(rows_of(a@), m as int),
            rows_below(rows_of(b@), n as int),
            left == scoped_rows(arena_of(xs@), rows_of(a@), m as nat),
            right == scoped_rows(arena_of(ys@), rows_of(b@), n as nat),
            k <= a.len(),
            a.len() == b.len(),
            forall|j: int| 0 <= j < k ==> left[j] == right[j],
        decreases a.len() - k,
    {
        assert(operands_below(rows_of(a@)[k as int], m as int));
        assert(operands_below(rows_of(b@)[k as int], n as int));
        if !same_operands(xs, &a[k], m, ys, &b[k], n) {
            assert(left[k as int] != right[k as int]);
            return false;
        }
        assert(left[k as int] == right[k as int]);
        k += 1;
    }
    assert(left =~= right);
    true
}

/// Whether the operation `a` of the node at index `m` of `xs` and the
/// operation `b` of the node at index `n` of `ys` have the same tree.
fn same_expr(
    xs: &Vec<RvsdgBody>,
    a: &BasicExpr<Operand>,
    m: usize,
    ys: &Vec<RvsdgBody>,
    b: &BasicExpr<Operand>,
    n: usize,
) -> (r: bool)
    requires
        arena_ordered(arena_of(xs@)),
        arena_ordered(arena_of(ys@)),
        m <= xs.len(),
        n <= ys.len(),
        body_below(super::BodyModel::BasicOp(a@), m as int),
        body_below(super::BodyModel::BasicOp(b@), n as int),
    ensures
        r == (expr_tree(arena_of(xs@), a@, m as nat) == expr_tree(arena_of(ys@), b@, n as nat)),
    decreases m, 5nat,
{
    match (a, b) {
        (BasicExpr::Op(op1, args1, ty1), BasicExpr::Op(op2, args2, ty2)) => *op1 == *op2
            && ty1.same(ty2) && same_operands(xs, args1, m, ys, args2, n),
        (
            BasicExpr::Call(name1, args1, outs1, ty1),
            BasicExpr::Call(name2, args2, outs2, ty2),
        ) => *name1 == *name2 && *outs1 == *outs2 && same_option_type(ty1, ty2) && same_operands(
            xs,
            args1,
            m,
            ys,
            args2,
            n,
        ),
        (BasicExpr::Print(args1), BasicExpr::Print(args2)) => same_operands(
            xs,
            args1,
            m,
            ys,
            args2,
            n,
        ),
        (BasicExpr::Const(op1, lit1, ty1), BasicExpr::Const(op2, lit2, ty2)) => *op1 == *op2
            && *lit1 == *lit2 && ty1.same(ty2),
        _ => false,
    }
}

/// Whether the node at index `i` of `xs` and the node at index `j` of `ys`
/// have the same tree.
fn same_body(xs: &Vec<RvsdgBody>, i: usize, ys: &Vec<RvsdgBody>, j: usize) -> (r: bool)
    requires
        arena_ordered(arena_of(xs@)),
        arena_ordered(arena_of(ys@)),
        i < xs.len(),
        j < ys.len(),
    ensures
        r == (body_tree(arena_of(xs@), i as nat) == body_tree(arena_of(ys@), j as nat)),
    decreases i + 1, 0nat,
{
    assert(body_below(arena_of(xs@)[i as int], i as int));
    assert(body_below(arena_of(ys@)[j as int], j as int));
    match (&xs[i], &ys[j]) {
        (RvsdgBody::BasicOp(a), RvsdgBody::BasicOp(b)) => same_expr(xs, a, i, ys, b, j),
        (
            RvsdgBody::Gamma { pred: p1, inputs: i1, outputs: o1 },
            RvsdgBody::Gamma { pred: p2, inputs: i2, outputs: o2 },
        ) => same_operand(xs, p1, ys, p2) && same_operands(xs, i1, i, ys, i2, j) && same_rows(
            xs,
            o1,
            i,
            ys,
            o2,
            j,
        ),
        (
            RvsdgBody::Theta { pred: p1, inputs: i1, outputs: o1 },
            RvsdgBody::Theta { pred: p2, inputs: i2, outputs: o2 },
        ) => same_operand(xs, p1, ys, p2) && same_operands(xs, i1, i, ys, i2, j) && same_operands(
            xs,
            o1,
            i,
            ys,
            o2,
            j,
        ),
        _ => false,
    }
}

impl RvsdgFunction {
    /// Whether the two functions are well formed and have the same tree:
    /// the same name and signature, and the same operations on the same
    /// operands at their exits. Sharing and the order of the arena do not
    /// count.
    pub fn same_tree(&self, other: &RvsdgFunction) -> (r: bool)
        ensures
            r == (self@.well_formed() && other@.well_formed() && function_tree(self@)
                == function_tree(other@)),
    {
        if !self.is_well_formed() || !other.is_well_formed() {
            return false;
        }
        if !(self.name == other.name && self.n_args == other.n_args && same_signature(
            &self.args,
            &other.args,
        )) {
            return false;
        }
        if !same_operand(&self.nodes, &self.state, &other.nodes, &other.state) {
            return false;
        }
        match (&self.result, &other.result) {
            (Some((ty1, value1)), Some((ty2, value2))) => ty1.same(ty2) && same_operand(
                &self.nodes,
                value1,
                &other.nodes,
                value2,
            ),
            (None, None) => true,
            _ => false,
        }
    }
}

} // verus!
