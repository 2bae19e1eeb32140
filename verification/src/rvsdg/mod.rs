//! The RVSDG data model: operands, node bodies, and functions whose nodes
//! live in one arena indexed by [`Id`].

pub mod decoding;
pub mod from_egglog;
pub mod growth;
pub mod laws;
pub mod same_tree;
pub mod terms;
pub mod to_egglog;
pub mod trees;
pub mod unsharing;

use vstd::prelude::*;

use crate::bril::{ConstOps, Literal, Type, ValueOps};

verus! {

/// The index of a node in the arena of its function.
pub type Id = usize;

/// A reference to a value from inside a node body.
#[derive(Clone, Copy, Debug, PartialEq, Eq, Hash)]
pub enum Operand {
    /// The formal input at the given position of the enclosing region.
    Arg(usize),
    /// The sole output of a single-output node.
    Id(Id),
    /// The output at the given index of a multi-output node.
    Project(usize, Id),
}

/// A non-structural operation over operands of type `Op`.
#[derive(Clone, Debug, PartialEq, Eq)]
pub enum BasicExpr<Op> {
    /// A primitive operation with its result type.
    Op(ValueOps, Vec<Op>, Type),
    /// A call: callee, arguments, number of outputs, value type if any.
    Call(String, Vec<Op>, usize, Option<Type>),
    /// A print of a value, threaded through the state token.
    Print(Vec<Op>),
    /// A literal constant with its type.
    Const(ConstOps, Literal, Type),
}

/// The body of one node of the arena.
#[derive(Clone, Debug, PartialEq, Eq)]
#[allow(inconsistent_fields)]
pub enum RvsdgBody {
    BasicOp(BasicExpr<Operand>),
    /// A multi-way conditional: `pred` selects one row of `outputs`.
    Gamma { pred: Operand, inputs: Vec<Operand>, outputs: Vec<Vec<Operand>> },
    /// A tail-controlled loop over the carried values `inputs`.
    Theta { pred: Operand, inputs: Vec<Operand>, outputs: Vec<Operand> },
}

/// The type of a value that flows along an edge.
#[derive(Clone, Debug, PartialEq, Eq)]
pub enum RvsdgType {
    Bril(Type),
    /// The token that orders side effects.
    PrintState,
}

/// A function: its signature, its arena, and the operands of its exit.
#[derive(Clone, Debug, PartialEq, Eq)]
pub struct RvsdgFunction {
    pub name: String,
    /// The number of explicit arguments, without the trailing state.
    pub n_args: usize,
    /// The whole signature, the state type included.
    pub args: Vec<RvsdgType>,
    /// Every node of the function, at all nesting levels.
    pub nodes: Vec<RvsdgBody>,
    /// The returned value with its type, if the function returns one.
    pub result: Option<(Type, Operand)>,
    /// The final value of the state token.
    pub state: Operand,
}

/// The mathematical value of a [`BasicExpr`] over [`Operand`]s.
pub enum BasicExprModel {
    Op(ValueOps, Seq<Operand>, Type),
    Call(Seq<char>, Seq<Operand>, usize, Option<Type>),
    Print(Seq<Operand>),
    Const(ConstOps, Literal, Type),
}

/// The mathematical value of an [`RvsdgBody`].
#[allow(inconsistent_fields)]
pub enum BodyModel {
    BasicOp(BasicExprModel),
    Gamma { pred: Operand, inputs: Seq<Operand>, outputs: Seq<Seq<Operand>> },
    Theta { pred: Operand, inputs: Seq<Operand>, outputs: Seq<Operand> },
}

/// The mathematical value of an [`RvsdgFunction`].
pub struct FunctionModel {
    pub name: Seq<char>,
    pub n_args: usize,
    pub args: Seq<RvsdgType>,
    pub nodes: Seq<BodyModel>,
    pub result: Option<(Type, Operand)>,
    pub state: Operand,
}

/// Whether all rows hold the same number of elements.
pub open spec fn same_width<T>(rows: Seq<Seq<T>>) -> bool {
    forall|i: int, j: int|
        #![trigger rows[i], rows[j]]
        0 <= i < rows.len() && 0 <= j < rows.len() ==> rows[i].len() == rows[j].len()
}

/// Whether every gamma node of the arena has rows of outputs of one
/// width: one output of the region in each row.
pub open spec fn gammas_even(nodes: Seq<BodyModel>) -> bool {
    forall|k: int|
        0 <= k < nodes.len() ==> ((#[trigger] nodes[k]) matches BodyModel::Gamma {
            outputs,
            ..
        } ==> same_width(outputs))
}

/// The arena that a vector of bodies stands for.
pub open spec fn arena_of(bodies: Seq<RvsdgBody>) -> Seq<BodyModel> {
    bodies.map_values(|b: RvsdgBody| b@)
}

/// The rows that a vector of vectors of operands stands for.
pub open spec fn rows_of(rows: Seq<Vec<Operand>>) -> Seq<Seq<Operand>> {
    rows.map_values(|row: Vec<Operand>| row@)
}

impl View for BasicExpr<Operand> {
    type V = BasicExprModel;

    open spec fn view(&self) -> BasicExprModel {
        match *self {
            BasicExpr::Op(op, args, ty) => BasicExprModel::Op(op, args@, ty),
            BasicExpr::Call(name, args, n_outs, ty) => BasicExprModel::Call(
                name@,
                args@,
                n_outs,
                ty,
            ),
            BasicExpr::Print(args) => BasicExprModel::Print(args@),
            BasicExpr::Const(op, lit, ty) => BasicExprModel::Const(op, lit, ty),
        }
    }
}

impl View for RvsdgBody {
    type V = BodyModel;

    open spec fn view(&self) -> BodyModel {
        match *self {
            RvsdgBody::BasicOp(expr) => BodyModel::BasicOp(expr@),
            RvsdgBody::Gamma { pred, inputs, outputs } => BodyModel::Gamma {
                pred,
                inputs: inputs@,
                outputs: rows_of(outputs@),
            },
            RvsdgBody::Theta { pred, inputs, outputs } => BodyModel::Theta {
                pred,
                inputs: inputs@,
                outputs: outputs@,
            },
        }
    }
}

impl View for RvsdgFunction {
    type V = FunctionModel;

    open spec fn view(&self) -> FunctionModel {
        FunctionModel {
            name: self.name@,
            n_args: self.n_args,
            args: self.args@,
            nodes: arena_of(self.nodes@),
            result: self.result,
            state: self.state,
        }
    }
}

/// Whether `op` refers only to nodes below `bound`.
pub open spec fn operand_below(op: Operand, bound: int) -> bool {
    match op {
        Operand::Arg(_) => true,
        Operand::Id(id) => id < bound,
        Operand::Project(_, id) => id < bound,
    }
}

/// Whether every operand of `ops` refers only to nodes below `bound`.
pub open spec fn operands_below(ops: Seq<Operand>, bound: int) -> bool {
    forall|i: int| 0 <= i < ops.len() ==> operand_below(#[trigger] ops[i], bound)
}

/// Whether every operand of every row refers only to nodes below `bound`.
pub open spec fn rows_below(rows: Seq<Seq<Operand>>, bound: int) -> bool {
    forall|i: int| 0 <= i < rows.len() ==> operands_below(#[trigger] rows[i], bound)
}

/// Whether every operand inside `body` refers only to nodes below `bound`.
pub open spec fn body_below(body: BodyModel, bound: int) -> bool {
    match body {
        BodyModel::BasicOp(BasicExprModel::Op(_, args, _)) => operands_below(args, bound),
        BodyModel::BasicOp(BasicExprModel::Call(_, args, _, _)) => operands_below(args, bound),
        BodyModel::BasicOp(BasicExprModel::Print(args)) => operands_below(args, bound),
        BodyModel::BasicOp(BasicExprModel::Const(_, _, _)) => true,
        BodyModel::Gamma { pred, inputs, outputs } => {
            &&& operand_below(pred, bound)
            &&& operands_below(inputs, bound)
            &&& rows_below(outputs, bound)
        },
        BodyModel::Theta { pred, inputs, outputs } => {
            &&& operand_below(pred, bound)
            &&& operands_below(inputs, bound)
            &&& operands_below(outputs, bound)
        },
    }
}

/// The arena is in topological order: the node at index `k` refers only to
/// nodes at indices below `k`.
pub open spec fn arena_ordered(nodes: Seq<BodyModel>) -> bool {
    forall|k: int| 0 <= k < nodes.len() ==> body_below(#[trigger] nodes[k], k)
}

impl FunctionModel {
    /// The arena is in topological order, every gamma node has rows of one
    /// width, and the exit operands refer to nodes of the arena.
    pub open spec fn well_formed(self) -> bool {
        &&& arena_ordered(self.nodes)
        &&& gammas_even(self.nodes)
        &&& operand_below(self.state, self.nodes.len() as int)
        &&& (self.result matches Some((_, value)) ==> operand_below(value, self.nodes.len() as int))
    }
}

/// Whether all rows hold the same number of operands.
pub fn rows_same_width(rows: &Vec<Vec<Operand>>) -> (r: bool)
    ensures
        r == same_width(rows_of(rows@)),
{
    let mut k: usize = 1;
    while k < rows.len()
        invariant
            1 <= k,
            forall|j: int| 0 <= j < k && j < rows.len() ==> (#[trigger] rows_of(rows@)[j]).len()
                == rows_of(rows@)[0].len(),
        decreases rows.len() - k,
    {
        if rows[k].len() != rows[0].len() {
            assert(rows_of(rows@)[k as int].len() != rows_of(rows@)[0].len());
            return false;
        }
        k += 1;
    }
    assert forall|i: int, j: int|
        #![trigger rows_of(rows@)[i], rows_of(rows@)[j]]
        0 <= i < rows.len() && 0 <= j < rows.len() implies rows_of(rows@)[i].len() == rows_of(
        rows@,
    )[j].len() by {
        assert(rows_of(rows@)[i].len() == rows_of(rows@)[0].len());
        assert(rows_of(rows@)[j].len() == rows_of(rows@)[0].len());
    }
    true
}

/// Whether `op` refers only to nodes below `bound`.
fn operand_is_below(op: &Operand, bound: usize) -> (r: bool)
    ensures
        r == operand_below(*op, bound as int),
{
    match op {
        Operand::Arg(_) => true,
        Operand::Id(id) => *id < bound,
        Operand::Project(_, id) => *id < bound,
    }
}

/// Whether every operand of `ops` refers only to nodes below `bound`.
fn operands_are_below(ops: &Vec<Operand>, bound: usize) -> (r: bool)
    ensures
        r == operands_below(ops@, bound as int),
{
    let mut i: usize = 0;
    while i < ops.len()
        invariant
            i <= ops.len(),
            forall|j: int| 0 <= j < i ==> operand_below(#[trigger] ops@[j], bound as int),
        decreases ops.len() - i,
    {
        if !operand_is_below(&ops[i], bound) {
            return false;
        }
        i += 1;
    }
    true
}

/// Whether every operand of every row refers only to nodes below `bound`.
fn rows_are_below(rows: &Vec<Vec<Operand>>, bound: usize) -> (r: bool)
    ensures
        r == rows_below(rows_of(rows@), bound as int),
{
    let mut i: usize = 0;
    while i < rows.len()
        invariant
            i <= rows.len(),
            forall|j: int|
                0 <= j < i ==> operands_below(#[trigger] rows_of(rows@)[j], bound as int),
        decreases rows.len() - i,
    {
        if !operands_are_below(&rows[i], bound) {
            assert(!operands_below(rows_of(rows@)[i as int], bound as int));
            return false;
        }
        i += 1;
    }
    true
}

/// Whether every operand inside `body` refers only to nodes below `bound`.
fn body_is_below(body: &RvsdgBody, bound: usize) -> (r: bool)
    ensures
        r == body_below(body@, bound as int),
{
    match body {
        RvsdgBody::BasicOp(BasicExpr::Op(_, args, _)) => operands_are_below(args, bound),
        RvsdgBody::BasicOp(BasicExpr::Call(_, args, _, _)) => operands_are_below(args, bound),
        RvsdgBody::BasicOp(BasicExpr::Print(args)) => operands_are_below(args, bound),
        RvsdgBody::BasicOp(BasicExpr::Const(_, _, _)) => true,
        RvsdgBody::Gamma { pred, inputs, outputs } => operand_is_below(pred, bound)
            && operands_are_below(inputs, bound) && rows_are_below(outputs, bound),
        RvsdgBody::Theta { pred, inputs, outputs } => operand_is_below(pred, bound)
            && operands_are_below(inputs, bound) && operands_are_below(outputs, bound),
    }
}

impl RvsdgFunction {
    /// Whether the arena is in topological order, every gamma node has
    /// rows of one width, and the exit operands refer to nodes of the
    /// arena.
    pub fn is_well_formed(&self) -> (r: bool)
        ensures
            r == self@.well_formed(),
    {
        let n = self.nodes.len();
        let mut k: usize = 0;
        while k < n
            invariant
                n == self.nodes.len(),
                k <= n,
                forall|j: int| 0 <= j < k ==> body_below(#[trigger] self@.nodes[j], j),
                forall|j: int|
                    0 <= j < k ==> ((#[trigger] self@.nodes[j]) matches BodyModel::Gamma {
                        outputs,
                        ..
                    } ==> same_width(outputs)),
            decreases n - k,
        {
            if !body_is_below(&self.nodes[k], k) {
                assert(!body_below(self@.nodes[k as int], k as int));
                return false;
            }
            if let RvsdgBody::Gamma { outputs, .. } = &self.nodes[k] {
                if !rows_same_width(outputs) {
                    assert(self@.nodes[k as int] is Gamma);
                    return false;
                }
            }
            k += 1;
        }
        if !operand_is_below(&self.state, n) {
            return false;
        }
        match &self.result {
            Some((_, value)) => operand_is_below(value, n),
            None => true,
        }
    }
}

} // verus!
