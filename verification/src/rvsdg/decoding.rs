//! What decoding means: the function that a term stands for over a term
//! graph, stated on the values of terms, arenas and functions.
//!
//! The stateful decoders take the arena so far and give the arena after
//! them: a body is pushed after everything it refers to. Each nesting of a
//! node inside an operand takes one unit of `fuel`, so that decoding ends
//! on every graph, cyclic ones included.

use vstd::prelude::*;

use super::terms::{LitModel, NodeModel, TermNode};
use super::{
    arena_ordered, gammas_even, same_width, BasicExprModel, BodyModel, FunctionModel, Id, Operand,
    RvsdgType,
};
use crate::bril::{ConstOps, Literal, Type, ValueOps};

verus! {

/// The positions of a term graph that ask for one of a closed set of
/// shapes.
#[derive(Clone, Copy, Debug, PartialEq, Eq, Hash)]
pub enum Shape {
    Function,
    Body,
    Operand,
    /// A list of operands under its `VO` head.
    OperandList,
    /// A list of lists of operands under its `VVO` head.
    OperandRows,
    Expression,
    Type,
    OptionType,
    RvsdgType,
    Literal,
    /// A flat vector term, or a chain of pushes that ends in the empty
    /// vector.
    List,
}

/// Why a term graph could not be decoded.
#[derive(Debug, PartialEq, Eq)]
pub enum DecodeError {
    /// The term `found` does not have the shape that its position asks
    /// for.
    Malformed { expected: Shape, found: TermNode },
    /// A term refers to an index outside the graph.
    Dangling(usize),
    /// The terms are nested deeper than the graph has terms, as on a cycle.
    TooDeep,
}

/// The mathematical value of a [`DecodeError`].
pub enum DecodeErrorModel {
    Malformed { expected: Shape, found: NodeModel },
    Dangling(usize),
    TooDeep,
}

impl View for DecodeError {
    type V = DecodeErrorModel;

    open spec fn view(&self) -> DecodeErrorModel {
        match *self {
            DecodeError::Malformed { expected, found } => DecodeErrorModel::Malformed {
                expected,
                found: found@,
            },
            DecodeError::Dangling(id) => DecodeErrorModel::Dangling(id),
            DecodeError::TooDeep => DecodeErrorModel::TooDeep,
        }
    }
}

/// The failure for a term of the wrong shape.
pub open spec fn malformed<T>(expected: Shape, found: NodeModel) -> Result<T, DecodeErrorModel> {
    Err(DecodeErrorModel::Malformed { expected, found })
}

/// The first index among `children`, from position `from` on, that lies
/// outside a graph of `bound` terms.
pub open spec fn first_dangling_from(children: Seq<usize>, bound: nat, from: int) -> Option<usize>
    decreases children.len() - from,
{
    if from < 0 || from >= children.len() {
        None
    } else if children[from] >= bound {
        Some(children[from])
    } else {
        first_dangling_from(children, bound, from + 1)
    }
}

/// The first index among `children` that lies outside a graph of `bound`
/// terms.
pub open spec fn first_dangling(children: Seq<usize>, bound: nat) -> Option<usize> {
    first_dangling_from(children, bound, 0)
}

/// The base type that a type term stands for: `(IntT)`, `(BoolT)`,
/// `(FloatT)`, `(CharT)` or `(PointerT inner)`.
pub open spec fn decode_type(g: Seq<NodeModel>, node: NodeModel, fuel: nat) -> Result<
    Type,
    DecodeErrorModel,
>
    decreases fuel,
{
    match node {
        NodeModel::App(head, children) => match first_dangling(children, g.len()) {
            Some(id) => Err(DecodeErrorModel::Dangling(id)),
            None => if head == "IntT"@ && children.len() == 0 {
                Ok(Type::Int)
            } else if head == "BoolT"@ && children.len() == 0 {
                Ok(Type::Bool)
            } else if head == "FloatT"@ && children.len() == 0 {
                Ok(Type::Float)
            } else if head == "CharT"@ && children.len() == 0 {
                Ok(Type::Char)
            } else if head == "PointerT"@ && children.len() == 1 {
                if fuel == 0 {
                    Err(DecodeErrorModel::TooDeep)
                } else {
                    match decode_type(g, g[children[0] as int], (fuel - 1) as nat) {
                        Ok(inner) => Ok(Type::Pointer(Box::new(inner))),
                        Err(e) => Err(e),
                    }
                }
            } else {
                malformed(Shape::Type, node)
            },
        },
        _ => malformed(Shape::Type, node),
    }
}

/// The optional base type that an option-type term stands for:
/// `(SomeType ty)` or `(NoneType)`.
pub open spec fn decode_option_type(g: Seq<NodeModel>, node: NodeModel, fuel: nat) -> Result<
    Option<Type>,
    DecodeErrorModel,
> {
    match node {
        NodeModel::App(head, children) => match first_dangling(children, g.len()) {
            Some(id) => Err(DecodeErrorModel::Dangling(id)),
            None => if head == "SomeType"@ && children.len() == 1 {
                match decode_type(g, g[children[0] as int], fuel) {
                    Ok(ty) => Ok(Some(ty)),
                    Err(e) => Err(e),
                }
            } else if head == "NoneType"@ && children.len() == 0 {
                Ok(None)
            } else {
                malformed(Shape::OptionType, node)
            },
        },
        _ => malformed(Shape::OptionType, node),
    }
}

/// The edge type that an edge-type term stands for: `(Bril ty)` or
/// `(PrintState)`.
pub open spec fn decode_rvsdg_type(g: Seq<NodeModel>, node: NodeModel, fuel: nat) -> Result<
    RvsdgType,
    DecodeErrorModel,
> {
    match node {
        NodeModel::App(head, children) => match first_dangling(children, g.len()) {
            Some(id) => Err(DecodeErrorModel::Dangling(id)),
            None => if head == "PrintState"@ && children.len() == 0 {
                Ok(RvsdgType::PrintState)
            } else if head == "Bril"@ && children.len() == 1 {
                match decode_type(g, g[children[0] as int], fuel) {
                    Ok(ty) => Ok(RvsdgType::Bril(ty)),
                    Err(e) => Err(e),
                }
            } else {
                malformed(Shape::RvsdgType, node)
            },
        },
        _ => malformed(Shape::RvsdgType, node),
    }
}

/// The literal that a literal term stands for: `(Num n)`, `(Float x)`, or
/// `(Char s)` for a string `s` of one character.
pub open spec fn decode_literal(g: Seq<NodeModel>, node: NodeModel) -> Result<
    Literal,
    DecodeErrorModel,
> {
    match node {
        NodeModel::App(head, children) => match first_dangling(children, g.len()) {
            Some(id) => Err(DecodeErrorModel::Dangling(id)),
            None => if head == "Num"@ && children.len() == 1 {
                match g[children[0] as int] {
                    NodeModel::Lit(LitModel::Int(n)) => Ok(Literal::Int(n)),
                    _ => malformed(Shape::Literal, node),
                }
            } else if head == "Float"@ && children.len() == 1 {
                match g[children[0] as int] {
                    NodeModel::Lit(LitModel::Float(bits)) => Ok(Literal::Float(bits)),
                    _ => malformed(Shape::Literal, node),
                }
            } else if head == "Char"@ && children.len() == 1 {
                match g[children[0] as int] {
                    NodeModel::Lit(LitModel::Str(s)) => if s.len() == 1 {
                        Ok(Literal::Char(s[0]))
                    } else {
                        malformed(Shape::Literal, node)
                    },
                    _ => malformed(Shape::Literal, node),
                }
            } else {
                malformed(Shape::Literal, node)
            },
        },
        _ => malformed(Shape::Literal, node),
    }
}

/// The integer that a literal term holds, if it holds one.
pub open spec fn int_literal(node: NodeModel) -> Option<i64> {
    match node {
        NodeModel::Lit(LitModel::Int(n)) => Some(n),
        _ => None,
    }
}

/// The string that a literal term holds, if it holds one.
pub open spec fn string_literal(node: NodeModel) -> Option<Seq<char>> {
    match node {
        NodeModel::Lit(LitModel::Str(s)) => Some(s),
        _ => None,
    }
}

/// The head symbol that names a primitive operator.
pub open spec fn value_op_name(op: ValueOps) -> Seq<char> {
    match op {
        ValueOps::Add => "badd"@,
        ValueOps::Sub => "bsub"@,
        ValueOps::Mul => "bmul"@,
        ValueOps::Div => "bdiv"@,
        ValueOps::Eq => "beq"@,
        ValueOps::Lt => "blt"@,
        ValueOps::Gt => "bgt"@,
        ValueOps::Le => "ble"@,
        ValueOps::Ge => "bge"@,
        ValueOps::Not => "bnot"@,
        ValueOps::And => "band"@,
        ValueOps::Or => "bor"@,
        ValueOps::Call => "bcall"@,
        ValueOps::Id => "bid"@,
        ValueOps::Phi => "bphi"@,
        ValueOps::Fadd => "bfadd"@,
        ValueOps::Fsub => "bfsub"@,
        ValueOps::Fmul => "bfmul"@,
        ValueOps::Fdiv => "bfdiv"@,
        ValueOps::Feq => "bfeq"@,
        ValueOps::Flt => "bflt"@,
        ValueOps::Fgt => "bfgt"@,
        ValueOps::Fle => "bfle"@,
        ValueOps::Fge => "bfge"@,
        ValueOps::Ceq => "bceq"@,
        ValueOps::Clt => "bclt"@,
        ValueOps::Cgt => "bcgt"@,
        ValueOps::Cle => "bcle"@,
        ValueOps::Cge => "bcge"@,
        ValueOps::Char2int => "bchar2int"@,
        ValueOps::Int2char => "bint2char"@,
        ValueOps::Alloc => "balloc"@,
        ValueOps::Load => "bload"@,
        ValueOps::PtrAdd => "bptradd"@,
    }
}

/// The primitive operator that a head symbol names, if it names one.
pub open spec fn value_op(name: Seq<char>) -> Option<ValueOps> {
    if name == "badd"@ {
        Some(ValueOps::Add)
    } else if name == "bsub"@ {
        Some(ValueOps::Sub)
    } else if name == "bmul"@ {
        Some(ValueOps::Mul)
    } else if name == "bdiv"@ {
        Some(ValueOps::Div)
    } else if name == "beq"@ {
        Some(ValueOps::Eq)
    } else if name == "blt"@ {
        Some(ValueOps::Lt)
    } else if name == "bgt"@ {
        Some(ValueOps::Gt)
    } else if name == "ble"@ {
        Some(ValueOps::Le)
    } else if name == "bge"@ {
        Some(ValueOps::Ge)
    } else if name == "bnot"@ {
        Some(ValueOps::Not)
    } else if name == "band"@ {
        Some(ValueOps::And)
    } else if name == "bor"@ {
        Some(ValueOps::Or)
    } else if name == "bcall"@ {
        Some(ValueOps::Call)
    } else if name == "bid"@ {
        Some(ValueOps::Id)
    } else if name == "bphi"@ {
        Some(ValueOps::Phi)
    } else if name == "bfadd"@ {
        Some(ValueOps::Fadd)
    } else if name == "bfsub"@ {
        Some(ValueOps::Fsub)
    } else if name == "bfmul"@ {
        Some(ValueOps::Fmul)
    } else if name == "bfdiv"@ {
        Some(ValueOps::Fdiv)
    } else if name == "bfeq"@ {
        Some(ValueOps::Feq)
    } else if name == "bflt"@ {
        Some(ValueOps::Flt)
    } else if name == "bfgt"@ {
        Some(ValueOps::Fgt)
    } else if name == "bfle"@ {
        Some(ValueOps::Fle)
    } else if name == "bfge"@ {
        Some(ValueOps::Fge)
    } else if name == "bceq"@ {
        Some(ValueOps::Ceq)
    } else if name == "bclt"@ {
        Some(ValueOps::Clt)
    } else if name == "bcgt"@ {
        Some(ValueOps::Cgt)
    } else if name == "bcle"@ {
        Some(ValueOps::Cle)
    } else if name == "bcge"@ {
        Some(ValueOps::Cge)
    } else if name == "bchar2int"@ {
        Some(ValueOps::Char2int)
    } else if name == "bint2char"@ {
        Some(ValueOps::Int2char)
    } else if name == "balloc"@ {
        Some(ValueOps::Alloc)
    } else if name == "bload"@ {
        Some(ValueOps::Load)
    } else if name == "bptradd"@ {
        Some(ValueOps::PtrAdd)
    } else {
        None
    }
}

/// The arena of a function under construction.
pub type Arena = Seq<BodyModel>;

/// `acc` followed by the indices that `rest` holds, or the failure of
/// `rest`.
pub open spec fn prepend(acc: Seq<usize>, rest: Result<Seq<usize>, DecodeErrorModel>) -> Result<
    Seq<usize>,
    DecodeErrorModel,
> {
    match rest {
        Ok(ids) => Ok(acc + ids),
        Err(e) => Err(e),
    }
}

/// The elements of a chain of pushes, outermost push first: the chain is
/// `(vec-empty)` or `(vec-push element chain)`.
pub open spec fn chain_elements(g: Seq<NodeModel>, node: NodeModel, fuel: nat) -> Result<
    Seq<usize>,
    DecodeErrorModel,
>
    decreases fuel,
{
    match node {
        NodeModel::App(head, children) => if head == "vec-push"@ && children.len() == 2 {
            if children[1] >= g.len() {
                Err(DecodeErrorModel::Dangling(children[1]))
            } else if fuel == 0 {
                Err(DecodeErrorModel::TooDeep)
            } else {
                prepend(
                    seq![children[0]],
                    chain_elements(g, g[children[1] as int], (fuel - 1) as nat),
                )
            }
        } else if head == "vec-empty"@ && children.len() == 0 {
            Ok(Seq::empty())
        } else {
            malformed(Shape::List, node)
        },
        _ => malformed(Shape::List, node),
    }
}

/// The elements of a list term in the order in which the decoder visits
/// them, and whether that order is the reverse of the list's own.
///
/// A flat vector `(vec-of element ...)` is visited front to back. A chain
/// of pushes is visited from the outermost push inwards, which is back to
/// front: each push holds the last element of its list.
pub open spec fn list_elements(g: Seq<NodeModel>, node: NodeModel, fuel: nat) -> Result<
    (Seq<usize>, bool),
    DecodeErrorModel,
> {
    if node is App && node->App_0 == "vec-of"@ {
        Ok((node->App_1, false))
    } else {
        match chain_elements(g, node, fuel) {
            Ok(ids) => Ok((ids, true)),
            Err(e) => Err(e),
        }
    }
}

/// The elements of a list term in the list's own order.
pub open spec fn list_items(g: Seq<NodeModel>, node: NodeModel, fuel: nat) -> Result<
    Seq<usize>,
    DecodeErrorModel,
> {
    match list_elements(g, node, fuel) {
        Ok((ids, backwards)) => Ok(in_list_order(ids, backwards)),
        Err(e) => Err(e),
    }
}

/// What was collected in visiting order, put in the list's own order.
pub open spec fn in_list_order<T>(visited: Seq<T>, backwards: bool) -> Seq<T> {
    if backwards {
        visited.reverse()
    } else {
        visited
    }
}

/// The edge types of the terms at the first `k` of `ids`.
pub open spec fn decode_types_upto(g: Seq<NodeModel>, ids: Seq<usize>, k: nat, fuel: nat) -> Result<
    Seq<RvsdgType>,
    DecodeErrorModel,
>
    decreases k,
{
    if k == 0 {
        Ok(Seq::empty())
    } else {
        match decode_types_upto(g, ids, (k - 1) as nat, fuel) {
            Err(e) => Err(e),
            Ok(types) => if ids[k - 1] >= g.len() {
                Err(DecodeErrorModel::Dangling(ids[k - 1]))
            } else {
                match decode_rvsdg_type(g, g[ids[k - 1] as int], fuel) {
                    Err(e) => Err(e),
                    Ok(ty) => Ok(types.push(ty)),
                }
            },
        }
    }
}

/// The signature that a list of edge-type terms stands for.
pub open spec fn decode_signature(g: Seq<NodeModel>, node: NodeModel, fuel: nat) -> Result<
    Seq<RvsdgType>,
    DecodeErrorModel,
> {
    match list_elements(g, node, fuel) {
        Err(e) => Err(e),
        Ok((ids, backwards)) => match decode_types_upto(g, ids, ids.len(), fuel) {
            Err(e) => Err(e),
            Ok(types) => Ok(in_list_order(types, backwards)),
        },
    }
}

/// The operand that an operand term stands for, and the arena after the
/// nodes it refers to have been pushed: `(Arg n)`, `(Node body)` or
/// `(Project n body)`. A position is read as an unsigned number of the
/// width of an index, as a conversion by `as` gives it.
pub open spec fn decode_operand(
    g: Seq<NodeModel>,
    node: NodeModel,
    arena: Arena,
    fuel: nat,
) -> Result<(Operand, Arena), DecodeErrorModel>
    decreases fuel, 0nat, 0nat,
{
    match node {
        NodeModel::App(head, children) => match first_dangling(children, g.len()) {
            Some(id) => Err(DecodeErrorModel::Dangling(id)),
            None => if head == "Arg"@ && children.len() == 1 && int_literal(
                g[children[0] as int],
            ) is Some {
                Ok((Operand::Arg(int_literal(g[children[0] as int])->Some_0 as usize), arena))
            } else if head == "Node"@ && children.len() == 1 {
                if fuel == 0 {
                    Err(DecodeErrorModel::TooDeep)
                } else {
                    match decode_body(g, g[children[0] as int], arena, (fuel - 1) as nat) {
                        Ok((id, arena)) => Ok((Operand::Id(id), arena)),
                        Err(e) => Err(e),
                    }
                }
            } else if head == "Project"@ && children.len() == 2 && int_literal(
                g[children[0] as int],
            ) is Some {
                if fuel == 0 {
                    Err(DecodeErrorModel::TooDeep)
                } else {
                    match decode_body(g, g[children[1] as int], arena, (fuel - 1) as nat) {
                        Ok((id, arena)) => Ok(
                            (
                                Operand::Project(
                                    int_literal(g[children[0] as int])->Some_0 as usize,
                                    id,
                                ),
                                arena,
                            ),
                        ),
                        Err(e) => Err(e),
                    }
                }
            } else {
                malformed(Shape::Operand, node)
            },
        },
        _ => malformed(Shape::Operand, node),
    }
}

/// The operands of the terms at the first `k` of `ids`, decoded one after
/// the other, and the arena after them.
pub open spec fn decode_operands_upto(
    g: Seq<NodeModel>,
    ids: Seq<usize>,
    k: nat,
    arena: Arena,
    fuel: nat,
) -> Result<(Seq<Operand>, Arena), DecodeErrorModel>
    decreases fuel, 1nat, k,
{
    if k == 0 {
        Ok((Seq::empty(), arena))
    } else {
        match decode_operands_upto(g, ids, (k - 1) as nat, arena, fuel) {
            Err(e) => Err(e),
            Ok((ops, arena)) => if ids[k - 1] >= g.len() {
                Err(DecodeErrorModel::Dangling(ids[k - 1]))
            } else {
                match decode_operand(g, g[ids[k - 1] as int], arena, fuel) {
                    Err(e) => Err(e),
                    Ok((op, arena)) => Ok((ops.push(op), arena)),
                }
            },
        }
    }
}

/// The operands that a list of operand terms under its `VO` head stands
/// for, in the list's order, and the arena after them.
pub open spec fn decode_operand_list(
    g: Seq<NodeModel>,
    node: NodeModel,
    arena: Arena,
    fuel: nat,
) -> Result<(Seq<Operand>, Arena), DecodeErrorModel>
    decreases fuel, 2nat, 0nat,
{
    match node {
        NodeModel::App(head, children) => match first_dangling(children, g.len()) {
            Some(id) => Err(DecodeErrorModel::Dangling(id)),
            None => if head == "VO"@ && children.len() == 1 {
                match list_elements(g, g[children[0] as int], fuel) {
                    Err(e) => Err(e),
                    Ok((ids, backwards)) => match decode_operands_upto(
                        g,
                        ids,
                        ids.len(),
                        arena,
                        fuel,
                    ) {
                        Err(e) => Err(e),
                        Ok((ops, arena)) => Ok((in_list_order(ops, backwards), arena)),
                    },
                }
            } else {
                malformed(Shape::OperandList, node)
            },
        },
        _ => malformed(Shape::OperandList, node),
    }
}

/// The rows of the terms at the first `k` of `ids`, decoded one after the
/// other, and the arena after them.
pub open spec fn decode_rows_upto(
    g: Seq<NodeModel>,
    ids: Seq<usize>,
    k: nat,
    arena: Arena,
    fuel: nat,
) -> Result<(Seq<Seq<Operand>>, Arena), DecodeErrorModel>
    decreases fuel, 3nat, k,
{
    if k == 0 {
        Ok((Seq::empty(), arena))
    } else {
        match decode_rows_upto(g, ids, (k - 1) as nat, arena, fuel) {
            Err(e) => Err(e),
            Ok((rows, arena)) => if ids[k - 1] >= g.len() {
                Err(DecodeErrorModel::Dangling(ids[k - 1]))
            } else {
                match decode_operand_list(g, g[ids[k - 1] as int], arena, fuel) {
                    Err(e) => Err(e),
                    Ok((row, arena)) => Ok((rows.push(row), arena)),
                }
            },
        }
    }
}

/// The rows that a list of operand lists under its `VVO` head stands for,
/// in the list's order, and the arena after them. The rows are the
/// branches of one region, so they hold the same number of operands, one
/// for each output of the region; rows of different widths are malformed.
pub open spec fn decode_operand_rows(
    g: Seq<NodeModel>,
    node: NodeModel,
    arena: Arena,
    fuel: nat,
) -> Result<(Seq<Seq<Operand>>, Arena), DecodeErrorModel>
    decreases fuel, 4nat, 0nat,
{
    match node {
        NodeModel::App(head, children) => match first_dangling(children, g.len()) {
            Some(id) => Err(DecodeErrorModel::Dangling(id)),
            None => if head == "VVO"@ && children.len() == 1 {
                match list_elements(g, g[children[0] as int], fuel) {
                    Err(e) => Err(e),
                    Ok((ids, backwards)) => match decode_rows_upto(g, ids, ids.len(), arena, fuel) {
                        Err(e) => Err(e),
                        Ok((rows, arena)) => if same_width(rows) {
                            Ok((in_list_order(rows, backwards), arena))
                        } else {
                            malformed(Shape::OperandRows, node)
                        },
                    },
                }
            } else {
                malformed(Shape::OperandRows, node)
            },
        },
        _ => malformed(Shape::OperandRows, node),
    }
}

/// The number of outputs of a call: its value, if it has one, and the
/// state.
pub open spec fn call_outputs(ty: Option<Type>) -> usize {
    if ty is Some {
        2
    } else {
        1
    }
}

/// The operation that an expression term stands for, and the arena after
/// the nodes that its operands refer to have been pushed:
/// `(Call option-type "name" operands)`, `(Const type op literal)`,
/// `(Print operand operand)`, or `(op type operand operand)` for the head
/// symbol `op` of a primitive operator. A term of three children that is
/// none of the first two is read as the last.
pub open spec fn decode_expr(g: Seq<NodeModel>, node: NodeModel, arena: Arena, fuel: nat) -> Result<
    (BasicExprModel, Arena),
    DecodeErrorModel,
>
    decreases fuel, 5nat, 0nat,
{
    match node {
        NodeModel::App(head, children) => match first_dangling(children, g.len()) {
            Some(id) => Err(DecodeErrorModel::Dangling(id)),
            None => if head == "Call"@ && children.len() == 3 && string_literal(
                g[children[1] as int],
            ) is Some {
                match decode_operand_list(g, g[children[2] as int], arena, fuel) {
                    Err(e) => Err(e),
                    Ok((args, arena)) => match decode_option_type(g, g[children[0] as int], fuel) {
                        Err(e) => Err(e),
                        Ok(ty) => Ok(
                            (
                                BasicExprModel::Call(
                                    string_literal(g[children[1] as int])->Some_0,
                                    args,
                                    call_outputs(ty),
                                    ty,
                                ),
                                arena,
                            ),
                        ),
                    },
                }
            } else if head == "Const"@ && children.len() == 3 {
                match decode_literal(g, g[children[2] as int]) {
                    Err(e) => Err(e),
                    Ok(lit) => match decode_type(g, g[children[0] as int], fuel) {
                        Err(e) => Err(e),
                        Ok(ty) => Ok((BasicExprModel::Const(ConstOps::Const, lit, ty), arena)),
                    },
                }
            } else if head == "Print"@ && children.len() == 2 {
                match decode_operand(g, g[children[0] as int], arena, fuel) {
                    Err(e) => Err(e),
                    Ok((first, arena)) => match decode_operand(
                        g,
                        g[children[1] as int],
                        arena,
                        fuel,
                    ) {
                        Err(e) => Err(e),
                        Ok((second, arena)) => Ok(
                            (BasicExprModel::Print(seq![first, second]), arena),
                        ),
                    },
                }
            } else if children.len() == 3 {
                match decode_operand(g, g[children[1] as int], arena, fuel) {
                    Err(e) => Err(e),
                    Ok((first, arena)) => match decode_operand(
                        g,
                        g[children[2] as int],
                        arena,
                        fuel,
                    ) {
                        Err(e) => Err(e),
                        Ok((second, arena)) => match value_op(head) {
                            None => malformed(Shape::Expression, node),
                            Some(op) => match decode_type(g, g[children[0] as int], fuel) {
                                Err(e) => Err(e),
                                Ok(ty) => Ok(
                                    (BasicExprModel::Op(op, seq![first, second], ty), arena),
                                ),
                            },
                        },
                    },
                }
            } else {
                malformed(Shape::Expression, node)
            },
        },
        _ => malformed(Shape::Expression, node),
    }
}

/// The index of the node that a body term stands for, and the arena after
/// the node and everything it refers to have been pushed: `(PureOp expr)`,
/// `(Gamma pred inputs rows)` or `(Theta pred inputs outputs)`. The parts
/// are decoded in this order, and the node is pushed last.
pub open spec fn decode_body(g: Seq<NodeModel>, node: NodeModel, arena: Arena, fuel: nat) -> Result<
    (Id, Arena),
    DecodeErrorModel,
>
    decreases fuel, 6nat, 0nat,
{
    match node {
        NodeModel::App(head, children) => if head == "PureOp"@ && children.len() == 1 {
            match first_dangling(children, g.len()) {
                Some(id) => Err(DecodeErrorModel::Dangling(id)),
                None => match decode_expr(g, g[children[0] as int], arena, fuel) {
                    Err(e) => Err(e),
                    Ok((expr, arena)) => Ok(
                        (arena.len() as usize, arena.push(BodyModel::BasicOp(expr))),
                    ),
                },
            }
        } else if head == "Gamma"@ && children.len() == 3 {
            match first_dangling(children, g.len()) {
                Some(id) => Err(DecodeErrorModel::Dangling(id)),
                None => match decode_operand(g, g[children[0] as int], arena, fuel) {
                    Err(e) => Err(e),
                    Ok((pred, arena)) => match decode_operand_list(
                        g,
                        g[children[1] as int],
                        arena,
                        fuel,
                    ) {
                        Err(e) => Err(e),
                        Ok((inputs, arena)) => match decode_operand_rows(
                            g,
                            g[children[2] as int],
                            arena,
                            fuel,
                        ) {
                            Err(e) => Err(e),
                            Ok((outputs, arena)) => Ok(
                                (
                                    arena.len() as usize,
                                    arena.push(BodyModel::Gamma { pred, inputs, outputs }),
                                ),
                            ),
                        },
                    },
                },
            }
        } else if head == "Theta"@ && children.len() == 3 {
            match first_dangling(children, g.len()) {
                Some(id) => Err(DecodeErrorModel::Dangling(id)),
                None => match decode_operand(g, g[children[0] as int], arena, fuel) {
                    Err(e) => Err(e),
                    Ok((pred, arena)) => match decode_operand_list(
                        g,
                        g[children[1] as int],
                        arena,
                        fuel,
                    ) {
                        Err(e) => Err(e),
                        Ok((inputs, arena)) => match decode_operand_list(
                            g,
                            g[children[2] as int],
                            arena,
                            fuel,
                        ) {
                            Err(e) => Err(e),
                            Ok((outputs, arena)) => Ok(
                                (
                                    arena.len() as usize,
                                    arena.push(BodyModel::Theta { pred, inputs, outputs }),
                                ),
                            ),
                        },
                    },
                },
            }
        } else {
            malformed(Shape::Body, node)
        },
        _ => malformed(Shape::Body, node),
    }
}

/// The function that the output term of a function term completes:
/// `(StateOnly state)` or `(StateAndValue state type value)`. The exit
/// operands are decoded into an empty arena, the state first.
pub open spec fn decode_function_output(
    root: NodeModel,
    g: Seq<NodeModel>,
    name: Seq<char>,
    args: Seq<RvsdgType>,
    output: NodeModel,
) -> Result<FunctionModel, DecodeErrorModel> {
    let n_args = (args.len() - 1) as usize;
    match output {
        NodeModel::App(head, children) => match first_dangling(children, g.len()) {
            Some(id) => Err(DecodeErrorModel::Dangling(id)),
            None => if head == "StateOnly"@ && children.len() == 1 {
                match decode_operand(g, g[children[0] as int], Seq::empty(), g.len()) {
                    Err(e) => Err(e),
                    Ok((state, nodes)) => Ok(
                        FunctionModel { name, n_args, args, nodes, result: None, state },
                    ),
                }
            } else if head == "StateAndValue"@ && children.len() == 3 {
                match decode_operand(g, g[children[0] as int], Seq::empty(), g.len()) {
                    Err(e) => Err(e),
                    Ok((state, nodes)) => match decode_operand(
                        g,
                        g[children[2] as int],
                        nodes,
                        g.len(),
                    ) {
                        Err(e) => Err(e),
                        Ok((value, nodes)) => match decode_type(
                            g,
                            g[children[1] as int],
                            g.len(),
                        ) {
                            Err(e) => Err(e),
                            Ok(ty) => Ok(
                                FunctionModel {
                                    name,
                                    n_args,
                                    args,
                                    nodes,
                                    result: Some((ty, value)),
                                    state,
                                },
                            ),
                        },
                    },
                }
            } else {
                malformed(Shape::Function, root)
            },
        },
        _ => malformed(Shape::Function, root),
    }
}

/// The function that the term `(Func "name" signature output)` at `root`
/// stands for over the graph `g`, or why it stands for none. The signature
/// is a list of edge types, the state type included, so it is not empty.
///
/// Every nesting of nodes may go as deep as the graph has terms. A graph
/// that goes deeper has a cycle; no graph in which every term comes after
/// its children does.
pub open spec fn decode_function(root: NodeModel, g: Seq<NodeModel>) -> Result<
    FunctionModel,
    DecodeErrorModel,
> {
    match root {
        NodeModel::App(head, children) => match first_dangling(children, g.len()) {
            Some(id) => Err(DecodeErrorModel::Dangling(id)),
            None => if head == "Func"@ && children.len() == 3 && string_literal(
                g[children[0] as int],
            ) is Some && g[children[2] as int] is App {
                match decode_signature(g, g[children[1] as int], g.len()) {
                    Err(e) => Err(e),
                    Ok(args) => if args.len() == 0 {
                        malformed(Shape::Function, root)
                    } else {
                        decode_function_output(
                            root,
                            g,
                            string_literal(g[children[0] as int])->Some_0,
                            args,
                            g[children[2] as int],
                        )
                    },
                }
            } else {
                malformed(Shape::Function, root)
            },
        },
        _ => malformed(Shape::Function, root),
    }
}

/// Rows of one width are of one width in the list's order too.
pub proof fn lemma_same_width_in_list_order<T>(rows: Seq<Seq<T>>, backwards: bool)
    ensures
        same_width(in_list_order(rows, backwards)) == same_width(rows),
{
    if backwards {
        let turned = rows.reverse();
        if same_width(rows) {
            assert forall|i: int, j: int|
                #![trigger turned[i], turned[j]]
                0 <= i < turned.len() && 0 <= j < turned.len() implies turned[i].len()
                == turned[j].len() by {
                assert(turned[i] == rows[rows.len() - 1 - i]);
                assert(turned[j] == rows[rows.len() - 1 - j]);
            }
        }
        if same_width(turned) {
            assert forall|i: int, j: int|
                #![trigger rows[i], rows[j]]
                0 <= i < rows.len() && 0 <= j < rows.len() implies rows[i].len()
                == rows[j].len() by {
                assert(rows[i] == turned[rows.len() - 1 - i]);
                assert(rows[j] == turned[rows.len() - 1 - j]);
            }
        }
    }
}

/// `after` holds the nodes of `before` at their indices, and is in
/// topological order if `before` is; its gamma nodes have rows of one
/// width if those of `before` have.
pub open spec fn grows(before: Arena, after: Arena) -> bool {
    &&& before.len() <= after.len()
    &&& forall|i: int| 0 <= i < before.len() ==> after[i] == before[i]
    &&& arena_ordered(before) ==> arena_ordered(after)
    &&& gammas_even(before) ==> gammas_even(after)
}

/// Whether `r` is the outcome `expected` of a decoder that does not touch
/// the arena.
pub open spec fn is_outcome<T>(
    r: Result<T, DecodeError>,
    expected: Result<T, DecodeErrorModel>,
) -> bool {
    match r {
        Ok(value) => expected == Ok::<T, DecodeErrorModel>(value),
        Err(e) => expected == Err::<T, DecodeErrorModel>(e@),
    }
}

} // verus!
