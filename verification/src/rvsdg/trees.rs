//! Functions and terms with sharing forgotten: the tree of operations that
//! an operand stands for over an arena, and the tree that a term spells
//! out over a term graph.
//!
//! An arena may hold a node once and refer to it many times, and so may a
//! term graph hold a term. The trees hold a node once for each use. Two
//! functions with the same tree compute the same values in the same order.

use vstd::prelude::*;

use super::decoding::{
    call_outputs, decode_literal, decode_option_type, decode_signature, decode_type, first_dangling,
    in_list_order, int_literal, list_elements, malformed, string_literal, value_op, Arena,
    DecodeErrorModel, Shape,
};
use super::terms::NodeModel;
use super::{
    operand_below, same_width, BasicExprModel, BodyModel, FunctionModel, Operand, RvsdgType,
};
use crate::bril::{ConstOps, Literal, Type, ValueOps};

verus! {

/// An operand with the node it refers to spelled out.
pub enum OperandTree {
    Arg(usize),
    Node(Box<BodyTree>),
    Project(usize, Box<BodyTree>),
}

/// A body with its operands spelled out.
#[allow(inconsistent_fields)]
pub enum BodyTree {
    BasicOp(ExprTree),
    Gamma { pred: OperandTree, inputs: Seq<OperandTree>, outputs: Seq<Seq<OperandTree>> },
    Theta { pred: OperandTree, inputs: Seq<OperandTree>, outputs: Seq<OperandTree> },
}

/// A basic operation with its operands spelled out.
pub enum ExprTree {
    Op(ValueOps, Seq<OperandTree>, Type),
    Call(Seq<char>, Seq<OperandTree>, usize, Option<Type>),
    Print(Seq<OperandTree>),
    Const(ConstOps, Literal, Type),
}

/// A function with its exit operands spelled out.
pub struct FunctionTree {
    pub name: Seq<char>,
    pub n_args: usize,
    pub args: Seq<RvsdgType>,
    pub result: Option<(Type, OperandTree)>,
    pub state: OperandTree,
}

/// One more than the index of the node that `a` refers to; nothing for an
/// argument.
pub open spec fn operand_rank(a: Operand) -> nat {
    match a {
        Operand::Arg(_) => 0,
        Operand::Id(i) => (i + 1) as nat,
        Operand::Project(_, i) => (i + 1) as nat,
    }
}

/// The tree of the operand `a` over the arena `xs`.
///
/// The arena is read as far as it is in topological order: an operand of
/// the node at index `i` that does not refer below `i` is read as the
/// argument at position 0, and so is a node outside the arena.
pub open spec fn operand_tree(xs: Arena, a: Operand) -> OperandTree
    decreases operand_rank(a), 1nat,
{
    match a {
        Operand::Arg(n) => OperandTree::Arg(n),
        Operand::Id(i) => OperandTree::Node(Box::new(body_tree(xs, i as nat))),
        Operand::Project(k, i) => OperandTree::Project(k, Box::new(body_tree(xs, i as nat))),
    }
}

/// The tree of an operand of the node at index `bound`.
pub open spec fn scoped_tree(xs: Arena, a: Operand, bound: nat) -> OperandTree
    decreases bound, 2nat,
{
    if operand_below(a, bound as int) {
        operand_tree(xs, a)
    } else {
        OperandTree::Arg(0)
    }
}

/// The trees of the operands `ops` of the node at index `bound`.
pub open spec fn scoped_trees(xs: Arena, ops: Seq<Operand>, bound: nat) -> Seq<OperandTree>
    decreases bound, 3nat,
{
    Seq::new(ops.len(), |k: int| scoped_tree(xs, ops[k], bound))
}

/// The trees of the rows `rows` of the node at index `bound`.
pub open spec fn scoped_rows(xs: Arena, rows: Seq<Seq<Operand>>, bound: nat) -> Seq<
    Seq<OperandTree>,
>
    decreases bound, 4nat,
{
    Seq::new(rows.len(), |k: int| scoped_trees(xs, rows[k], bound))
}

/// The tree of the operation `e` of the node at index `bound`.
pub open spec fn expr_tree(xs: Arena, e: BasicExprModel, bound: nat) -> ExprTree
    decreases bound, 5nat,
{
    match e {
        BasicExprModel::Op(op, args, ty) => ExprTree::Op(op, scoped_trees(xs, args, bound), ty),
        BasicExprModel::Call(name, args, outputs, ty) => ExprTree::Call(
            name,
            scoped_trees(xs, args, bound),
            outputs,
            ty,
        ),
        BasicExprModel::Print(args) => ExprTree::Print(scoped_trees(xs, args, bound)),
        BasicExprModel::Const(op, lit, ty) => ExprTree::Const(op, lit, ty),
    }
}

/// The tree of the node at index `i` of the arena `xs`.
pub open spec fn body_tree(xs: Arena, i: nat) -> BodyTree
    decreases i + 1, 0nat,
{
    if i >= xs.len() {
        BodyTree::BasicOp(ExprTree::Print(Seq::empty()))
    } else {
        match xs[i as int] {
            BodyModel::BasicOp(e) => BodyTree::BasicOp(expr_tree(xs, e, i)),
            BodyModel::Gamma { pred, inputs, outputs } => BodyTree::Gamma {
                pred: scoped_tree(xs, pred, i),
                inputs: scoped_trees(xs, inputs, i),
                outputs: scoped_rows(xs, outputs, i),
            },
            BodyModel::Theta { pred, inputs, outputs } => BodyTree::Theta {
                pred: scoped_tree(xs, pred, i),
                inputs: scoped_trees(xs, inputs, i),
                outputs: scoped_trees(xs, outputs, i),
            },
        }
    }
}

/// The tree of the function `f`.
pub open spec fn function_tree(f: FunctionModel) -> FunctionTree {
    FunctionTree {
        name: f.name,
        n_args: f.n_args,
        args: f.args,
        result: match f.result {
            Some((ty, value)) => Some((ty, operand_tree(f.nodes, value))),
            None => None,
        },
        state: operand_tree(f.nodes, f.state),
    }
}

/// The tree that an operand term spells out.
pub open spec fn read_operand(g: Seq<NodeModel>, node: NodeModel, fuel: nat) -> Result<
    OperandTree,
    DecodeErrorModel,
>
    decreases fuel, 0nat, 0nat,
{
    match node {
        NodeModel::App(head, children) => match first_dangling(children, g.len()) {
            Some(id) => Err(DecodeErrorModel::Dangling(id)),
            None => if head == "Arg"@ && children.len() == 1 && int_literal(
                g[children[0] as int],
            ) is Some {
                Ok(OperandTree::Arg(int_literal(g[children[0] as int])->Some_0 as usize))
            } else if head == "Node"@ && children.len() == 1 {
                if fuel == 0 {
                    Err(DecodeErrorModel::TooDeep)
                } else {
                    match read_body(g, g[children[0] as int], (fuel - 1) as nat) {
                        Ok(body) => Ok(OperandTree::Node(Box::new(body))),
                        Err(e) => Err(e),
                    }
                }
            } else if head == "Project"@ && children.len() == 2 && int_literal(
                g[children[0] as int],
            ) is Some {
                if fuel == 0 {
                    Err(DecodeErrorModel::TooDeep)
                } else {
                    match read_body(g, g[children[1] as int], (fuel - 1) as nat) {
                        Ok(body) => Ok(
                            OperandTree::Project(
                                int_literal(g[children[0] as int])->Some_0 as usize,
                                Box::new(body),
                            ),
                        ),
                        Err(e) => Err(e),
                    }
                }
            } else {
                malformed(Shape::Operand, node)
            },
        },
        _ => malformed(Shape::Operand, node),
    }
}

/// The trees that the terms at the first `k` of `ids` spell out.
pub open spec fn read_operands_upto(
    g: Seq<NodeModel>,
    ids: Seq<usize>,
    k: nat,
    fuel: nat,
) -> Result<Seq<OperandTree>, DecodeErrorModel>
    decreases fuel, 1nat, k,
{
    if k == 0 {
        Ok(Seq::empty())
    } else {
        match read_operands_upto(g, ids, (k - 1) as nat, fuel) {
            Err(e) => Err(e),
            Ok(trees) => if ids[k - 1] >= g.len() {
                Err(DecodeErrorModel::Dangling(ids[k - 1]))
            } else {
                match read_operand(g, g[ids[k - 1] as int], fuel) {
                    Err(e) => Err(e),
                    Ok(tree) => Ok(trees.push(tree)),
                }
            },
        }
    }
}

/// The trees that a list of operand terms spells out, in the list's
/// order.
pub open spec fn read_operand_list(g: Seq<NodeModel>, node: NodeModel, fuel: nat) -> Result<
    Seq<OperandTree>,
    DecodeErrorModel,
>
    decreases fuel, 2nat, 0nat,
{
    match node {
        NodeModel::App(head, children) => match first_dangling(children, g.len()) {
            Some(id) => Err(DecodeErrorModel::Dangling(id)),
            None => if head == "VO"@ && children.len() == 1 {
                match list_elements(g, g[children[0] as int], fuel) {
                    Err(e) => Err(e),
                    Ok((ids, backwards)) => match read_operands_upto(g, ids, ids.len(), fuel) {
                        Err(e) => Err(e),
                        Ok(trees) => Ok(in_list_order(trees, backwards)),
                    },
                }
            } else {
                malformed(Shape::OperandList, node)
            },
        },
        _ => malformed(Shape::OperandList, node),
    }
}

/// The rows that the terms at the first `k` of `ids` spell out.
pub open spec fn read_rows_upto(g: Seq<NodeModel>, ids: Seq<usize>, k: nat, fuel: nat) -> Result<
    Seq<Seq<OperandTree>>,
    DecodeErrorModel,
>
    decreases fuel, 3nat, k,
{
    if k == 0 {
        Ok(Seq::empty())
    } else {
        match read_rows_upto(g, ids, (k - 1) as nat, fuel) {
            Err(e) => Err(e),
            Ok(rows) => if ids[k - 1] >= g.len() {
                Err(DecodeErrorModel::Dangling(ids[k - 1]))
            } else {
                match read_operand_list(g, g[ids[k - 1] as int], fuel) {
                    Err(e) => Err(e),
                    Ok(row) => Ok(rows.push(row)),
                }
            },
        }
    }
}

/// The rows that a list of operand lists spells out, in the list's order;
/// rows of different widths spell out nothing.
pub open spec fn read_operand_rows(g: Seq<NodeModel>, node: NodeModel, fuel: nat) -> Result<
    Seq<Seq<OperandTree>>,
    DecodeErrorModel,
>
    decreases fuel, 4nat, 0nat,
{
    match node {
        NodeModel::App(head, children) => match first_dangling(children, g.len()) {
            Some(id) => Err(DecodeErrorModel::Dangling(id)),
            None => if head == "VVO"@ && children.len() == 1 {
                match list_elements(g, g[children[0] as int], fuel) {
                    Err(e) => Err(e),
                    Ok((ids, backwards)) => match read_rows_upto(g, ids, ids.len(), fuel) {
                        Err(e) => Err(e),
                        Ok(rows) => if same_width(rows) {
                            Ok(in_list_order(rows, backwards))
                        } else {
                            malformed(Shape::OperandRows, node)
                        },
                    },
                }
            } else {
                malformed(Shape::OperandRows, node)
            },
        },
        _ => malformed(Shape::OperandRows, node),
    }
}

/// The operation that an expression term spells out.
pub open spec fn read_expr(g: Seq<NodeModel>, node: NodeModel, fuel: nat) -> Result<
    ExprTree,
    DecodeErrorModel,
>
    decreases fuel, 5nat, 0nat,
{
    match node {
        NodeModel::App(head, children) => match first_dangling(children, g.len()) {
            Some(id) => Err(DecodeErrorModel::Dangling(id)),
            None => if head == "Call"@ && children.len() == 3 && string_literal(
                g[children[1] as int],
            ) is Some {
                match read_operand_list(g, g[children[2] as int], fuel) {
                    Err(e) => Err(e),
                    Ok(args) => match decode_option_type(g, g[children[0] as int], fuel) {
                        Err(e) => Err(e),
                        Ok(ty) => Ok(
                            ExprTree::Call(
                                string_literal(g[children[1] as int])->Some_0,
                                args,
                                call_outputs(ty),
                                ty,
                            ),
                        ),
                    },
                }
            } else if head == "Const"@ && children.len() == 3 {
                match decode_literal(g, g[children[2] as int]) {
                    Err(e) => Err(e),
                    Ok(lit) => match decode_type(g, g[children[0] as int], fuel) {
                        Err(e) => Err(e),
                        Ok(ty) => Ok(ExprTree::Const(ConstOps::Const, lit, ty)),
                    },
                }
            } else if head == "Print"@ && children.len() == 2 {
                match read_operand(g, g[children[0] as int], fuel) {
                    Err(e) => Err(e),
                    Ok(first) => match read_operand(g, g[children[1] as int], fuel) {
                        Err(e) => Err(e),
                        Ok(second) => Ok(ExprTree::Print(seq![first, second])),
                    },
                }
            } else if children.len() == 3 {
                match read_operand(g, g[children[1] as int], fuel) {
                    Err(e) => Err(e),
                    Ok(first) => match read_operand(g, g[children[2] as int], fuel) {
                        Err(e) => Err(e),
                        Ok(second) => match value_op(head) {
                            None => malformed(Shape::Expression, node),
                            Some(op) => match decode_type(g, g[children[0] as int], fuel) {
                                Err(e) => Err(e),
                                Ok(ty) => Ok(ExprTree::Op(op, seq![first, second], ty)),
                            },
                        },
                    },
                }
            } else {
                malformed(Shape::Expression, node)
            },
        },
        _ => malformed(Shape::Expression, node),
    }
}

/// The body that a body term spells out.
pub open spec fn read_body(g: Seq<NodeModel>, node: NodeModel, fuel: nat) -> Result<
    BodyTree,
    DecodeErrorModel,
>
    decreases fuel, 6nat, 0nat,
{
    match node {
        NodeModel::App(head, children) => if head == "PureOp"@ && children.len() == 1 {
            match first_dangling(children, g.len()) {
                Some(id) => Err(DecodeErrorModel::Dangling(id)),
                None => match read_expr(g, g[children[0] as int], fuel) {
                    Err(e) => Err(e),
                    Ok(expr) => Ok(BodyTree::BasicOp(expr)),
                },
            }
        } else if head == "Gamma"@ && children.len() == 3 {
            match first_dangling(children, g.len()) {
                Some(id) => Err(DecodeErrorModel::Dangling(id)),
                None => match read_operand(g, g[children[0] as int], fuel) {
                    Err(e) => Err(e),
                    Ok(pred) => match read_operand_list(g, g[children[1] as int], fuel) {
                        Err(e) => Err(e),
                        Ok(inputs) => match read_operand_rows(g, g[children[2] as int], fuel) {
                            Err(e) => Err(e),
                            Ok(outputs) => Ok(BodyTree::Gamma { pred, inputs, outputs }),
                        },
                    },
                },
            }
        } else if head == "Theta"@ && children.len() == 3 {
            match first_dangling(children, g.len()) {
                Some(id) => Err(DecodeErrorModel::Dangling(id)),
                None => match read_operand(g, g[children[0] as int], fuel) {
                    Err(e) => Err(e),
                    Ok(pred) => match read_operand_list(g, g[children[1] as int], fuel) {
                        Err(e) => Err(e),
                        Ok(inputs) => match read_operand_list(g, g[children[2] as int], fuel) {
                            Err(e) => Err(e),
                            Ok(outputs) => Ok(BodyTree::Theta { pred, inputs, outputs }),
                        },
                    },
                },
            }
        } else {
            malformed(Shape::Body, node)
        },
        _ => malformed(Shape::Body, node),
    }
}

/// The function that the output term of a function term completes.
pub open spec fn read_function_output(
    root: NodeModel,
    g: Seq<NodeModel>,
    name: Seq<char>,
    args: Seq<RvsdgType>,
    output: NodeModel,
) -> Result<FunctionTree, DecodeErrorModel> {
    let n_args = (args.len() - 1) as usize;
    match output {
        NodeModel::App(head, children) => match first_dangling(children, g.len()) {
            Some(id) => Err(DecodeErrorModel::Dangling(id)),
            None => if head == "StateOnly"@ && children.len() == 1 {
                match read_operand(g, g[children[0] as int], g.len()) {
                    Err(e) => Err(e),
                    Ok(state) => Ok(FunctionTree { name, n_args, args, result: None, state }),
                }
            } else if head == "StateAndValue"@ && children.len() == 3 {
                match read_operand(g, g[children[0] as int], g.len()) {
                    Err(e) => Err(e),
                    Ok(state) => match read_operand(g, g[children[2] as int], g.len()) {
                        Err(e) => Err(e),
                        Ok(value) => match decode_type(g, g[children[1] as int], g.len()) {
                            Err(e) => Err(e),
                            Ok(ty) => Ok(
                                FunctionTree {
                                    name,
                                    n_args,
                                    args,
                                    result: Some((ty, value)),
                                    state,
                                },
                            ),
                        },
                    },
                }
            } else {
                malformed(Shape::Function, root)
            },
        },
        _ => malformed(Shape::Function, root),
    }
}

/// The function that the term `root` spells out over the graph `g`, each
/// term read once for each use.
pub open spec fn read_function(root: NodeModel, g: Seq<NodeModel>) -> Result<
    FunctionTree,
    DecodeErrorModel,
> {
    match root {
        NodeModel::App(head, children) => match first_dangling(children, g.len()) {
            Some(id) => Err(DecodeErrorModel::Dangling(id)),
            None => if head == "Func"@ && children.len() == 3 && string_literal(
                g[children[0] as int],
            ) is Some && g[children[2] as int] is App {
                match decode_signature(g, g[children[1] as int], g.len()) {
                    Err(e) => Err(e),
                    Ok(args) => if args.len() == 0 {
                        malformed(Shape::Function, root)
                    } else {
                        read_function_output(
                            root,
                            g,
                            string_literal(g[children[0] as int])->Some_0,
                            args,
                            g[children[2] as int],
                        )
                    },
                }
            } else {
                malformed(Shape::Function, root)
            },
        },
        _ => malformed(Shape::Function, root),
    }
}

} // verus!
