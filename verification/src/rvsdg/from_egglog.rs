//! The decoder from a term graph to an [`RvsdgFunction`].
//!
//! Decoding is post-order: the nodes that an operand refers to are pushed
//! into the arena before the node that holds the operand, so the arena
//! comes out in topological order.

use vstd::prelude::*;

use super::decoding::{
    chain_elements, decode_body, decode_expr, decode_function, decode_literal, decode_operand,
    decode_operand_list, decode_operand_rows, decode_operands_upto, decode_option_type,
    decode_rows_upto, decode_rvsdg_type, decode_signature, decode_type, decode_types_upto,
    first_dangling, first_dangling_from, grows, in_list_order, is_outcome,
    lemma_same_width_in_list_order, list_elements, list_items, prepend, value_op, Arena,
    DecodeError, DecodeErrorModel, Shape,
};
use super::laws::{
    chains_decode, gamma_keeps_its_cases, is_body_shape, is_chain, is_gamma_term,
    lemma_chains_decode, lemma_gamma_keeps_its_cases, lemma_operand_list_order,
    list_keeps_its_order,
};
use super::terms::{str_eq, NodeModel, TermGraph, TermLit, TermNode};
use super::trees::{function_tree, read_function, FunctionTree};
use super::unsharing::lemma_decoding_reads_the_term;
use super::{
    arena_of, body_below, operand_below, operands_below, rows_below, rows_of, rows_same_width,
    same_width, BasicExpr, BasicExprModel, BodyModel, FunctionModel, Id, Operand, RvsdgBody,
    RvsdgFunction, RvsdgType,
};
use crate::bril::{ConstOps, Literal, Type, ValueOps};

verus! {

/// A failure among the first elements of a list is the failure of the
/// whole list.
proof fn lemma_types_failure_stays(
    g: Seq<NodeModel>,
    ids: Seq<usize>,
    k: nat,
    n: nat,
    fuel: nat,
)
    requires
        k <= n,
        decode_types_upto(g, ids, k, fuel) is Err,
    ensures
        decode_types_upto(g, ids, n, fuel) == decode_types_upto(g, ids, k, fuel),
    decreases n,
{
    if k < n {
        lemma_types_failure_stays(g, ids, k, (n - 1) as nat, fuel);
    }
}

/// A failure among the first elements of a list is the failure of the
/// whole list.
proof fn lemma_operands_failure_stays(
    g: Seq<NodeModel>,
    ids: Seq<usize>,
    k: nat,
    n: nat,
    arena: Arena,
    fuel: nat,
)
    requires
        k <= n,
        decode_operands_upto(g, ids, k, arena, fuel) is Err,
    ensures
        decode_operands_upto(g, ids, n, arena, fuel) == decode_operands_upto(
            g,
            ids,
            k,
            arena,
            fuel,
        ),
    decreases n,
{
    if k < n {
        lemma_operands_failure_stays(g, ids, k, (n - 1) as nat, arena, fuel);
    }
}

/// A failure among the first rows of a list is the failure of the whole
/// list.
proof fn lemma_rows_failure_stays(
    g: Seq<NodeModel>,
    ids: Seq<usize>,
    k: nat,
    n: nat,
    arena: Arena,
    fuel: nat,
)
    requires
        k <= n,
        decode_rows_upto(g, ids, k, arena, fuel) is Err,
    ensures
        decode_rows_upto(g, ids, n, arena, fuel) == decode_rows_upto(g, ids, k, arena, fuel),
    decreases n,
{
    if k < n {
        lemma_rows_failure_stays(g, ids, k, (n - 1) as nat, arena, fuel);
    }
}

/// The elements of `v` in reverse order.
fn reversed<T>(v: Vec<T>) -> (r: Vec<T>)
    ensures
        r@ == v@.reverse(),
{
    let ghost given = v@;
    let mut v = v;
    let mut r: Vec<T> = Vec::new();
    while v.len() > 0
        invariant
            v.len() + r.len() == given.len(),
            forall|j: int| 0 <= j < v.len() ==> v[j] == given[j],
            forall|j: int| 0 <= j < r.len() ==> r[j] == given[given.len() - 1 - j],
        decreases v.len(),
    {
        let last = v.pop().unwrap();
        r.push(last);
    }
    assert(r@ =~= given.reverse());
    r
}

/// The primitive operator that a head symbol names, if it names one.
pub fn egglog_op_to_bril(name: &str) -> (r: Option<ValueOps>)
    ensures
        r == value_op(name@),
{
    if str_eq(name, "badd") {
        Some(ValueOps::Add)
    } else if str_eq(name, "bsub") {
        Some(ValueOps::Sub)
    } else if str_eq(name, "bmul") {
        Some(ValueOps::Mul)
    } else if str_eq(name, "bdiv") {
        Some(ValueOps::Div)
    } else if str_eq(name, "beq") {
        Some(ValueOps::Eq)
    } else if str_eq(name, "blt") {
        Some(ValueOps::Lt)
    } else if str_eq(name, "bgt") {
        Some(ValueOps::Gt)
    } else if str_eq(name, "ble") {
        Some(ValueOps::Le)
    } else if str_eq(name, "bge") {
        Some(ValueOps::Ge)
    } else if str_eq(name, "bnot") {
        Some(ValueOps::Not)
    } else if str_eq(name, "band") {
        Some(ValueOps::And)
    } else if str_eq(name, "bor") {
        Some(ValueOps::Or)
    } else if str_eq(name, "bcall") {
        Some(ValueOps::Call)
    } else if str_eq(name, "bid") {
        Some(ValueOps::Id)
    } else if str_eq(name, "bphi") {
        Some(ValueOps::Phi)
    } else if str_eq(name, "bfadd") {
        Some(ValueOps::Fadd)
    } else if str_eq(name, "bfsub") {
        Some(ValueOps::Fsub)
    } else if str_eq(name, "bfmul") {
        Some(ValueOps::Fmul)
    } else if str_eq(name, "bfdiv") {
        Some(ValueOps::Fdiv)
    } else if str_eq(name, "bfeq") {
        Some(ValueOps::Feq)
    } else if str_eq(name, "bflt") {
        Some(ValueOps::Flt)
    } else if str_eq(name, "bfgt") {
        Some(ValueOps::Fgt)
    } else if str_eq(name, "bfle") {
        Some(ValueOps::Fle)
    } else if str_eq(name, "bfge") {
        Some(ValueOps::Fge)
    } else if str_eq(name, "bceq") {
        Some(ValueOps::Ceq)
    } else if str_eq(name, "bclt") {
        Some(ValueOps::Clt)
    } else if str_eq(name, "bcgt") {
        Some(ValueOps::Cgt)
    } else if str_eq(name, "bcle") {
        Some(ValueOps::Cle)
    } else if str_eq(name, "bcge") {
        Some(ValueOps::Cge)
    } else if str_eq(name, "bchar2int") {
        Some(ValueOps::Char2int)
    } else if str_eq(name, "bint2char") {
        Some(ValueOps::Int2char)
    } else if str_eq(name, "balloc") {
        Some(ValueOps::Alloc)
    } else if str_eq(name, "bload") {
        Some(ValueOps::Load)
    } else if str_eq(name, "bptradd") {
        Some(ValueOps::PtrAdd)
    } else {
        None
    }
}

/// The failure for `found` at a position that asks for `expected`.
fn malformed_at<T>(expected: Shape, found: &TermNode) -> (r: Result<T, DecodeError>)
    ensures
        r is Err,
        r->Err_0@ == (DecodeErrorModel::Malformed { expected, found: found@ }),
{
    Err(DecodeError::Malformed { expected, found: found.clone() })
}

/// Looks for a child index outside the graph.
fn check_children(graph: &TermGraph, children: &Vec<usize>) -> (r: Result<(), DecodeError>)
    ensures
        match r {
            Ok(_) => {
                &&& first_dangling(children@, graph@.len()) is None
                &&& forall|k: int| 0 <= k < children@.len() ==> children@[k] < graph@.len()
            },
            Err(e) => e is Dangling && first_dangling(children@, graph@.len()) == Some(
                e->Dangling_0,
            ),
        },
{
    let mut i: usize = 0;
    while i < children.len()
        invariant
            i <= children.len(),
            forall|k: int| 0 <= k < i ==> children@[k] < graph@.len(),
            first_dangling(children@, graph@.len()) == first_dangling_from(
                children@,
                graph@.len(),
                i as int,
            ),
        decreases children.len() - i,
    {
        if children[i] >= graph.nodes.len() {
            return Err(DecodeError::Dangling(children[i]));
        }
        i += 1;
    }
    Ok(())
}

/// The base type that a type term stands for.
pub fn egglog_expr_to_ty(graph: &TermGraph, ty: &TermNode, fuel: usize) -> (r: Result<
    Type,
    DecodeError,
>)
    ensures
        is_outcome(r, decode_type(graph@, ty@, fuel as nat)),
    decreases fuel,
{
    match ty {
        TermNode::App(head, children) => {
            match check_children(graph, children) {
                Err(e) => {
                    return Err(e);
                },
                Ok(_) => {},
            }
            let n = children.len();
            if str_eq(head.as_str(), "IntT") && n == 0 {
                Ok(Type::Int)
            } else if str_eq(head.as_str(), "BoolT") && n == 0 {
                Ok(Type::Bool)
            } else if str_eq(head.as_str(), "FloatT") && n == 0 {
                Ok(Type::Float)
            } else if str_eq(head.as_str(), "CharT") && n == 0 {
                Ok(Type::Char)
            } else if str_eq(head.as_str(), "PointerT") && n == 1 {
                if fuel == 0 {
                    return Err(DecodeError::TooDeep);
                }
                match egglog_expr_to_ty(graph, &graph.nodes[children[0]], fuel - 1) {
                    Ok(inner) => Ok(Type::Pointer(Box::new(inner))),
                    Err(e) => Err(e),
                }
            } else {
                malformed_at(Shape::Type, ty)
            }
        },
        _ => malformed_at(Shape::Type, ty),
    }
}

/// The optional base type that an option-type term stands for.
pub fn egglog_expr_to_option_ty(graph: &TermGraph, ty: &TermNode, fuel: usize) -> (r: Result<
    Option<Type>,
    DecodeError,
>)
    ensures
        is_outcome(r, decode_option_type(graph@, ty@, fuel as nat)),
{
    match ty {
        TermNode::App(head, children) => {
            match check_children(graph, children) {
                Err(e) => {
                    return Err(e);
                },
                Ok(_) => {},
            }
            let n = children.len();
            if str_eq(head.as_str(), "SomeType") && n == 1 {
                match egglog_expr_to_ty(graph, &graph.nodes[children[0]], fuel) {
                    Ok(inner) => Ok(Some(inner)),
                    Err(e) => Err(e),
                }
            } else if str_eq(head.as_str(), "NoneType") && n == 0 {
                Ok(None)
            } else {
                malformed_at(Shape::OptionType, ty)
            }
        },
        _ => malformed_at(Shape::OptionType, ty),
    }
}

/// The edge type that an edge-type term stands for.
pub fn egglog_expr_to_rvsdg_ty(graph: &TermGraph, ty: &TermNode, fuel: usize) -> (r: Result<
    RvsdgType,
    DecodeError,
>)
    ensures
        is_outcome(r, decode_rvsdg_type(graph@, ty@, fuel as nat)),
{
    match ty {
        TermNode::App(head, children) => {
            match check_children(graph, children) {
                Err(e) => {
                    return Err(e);
                },
                Ok(_) => {},
            }
            let n = children.len();
            if str_eq(head.as_str(), "PrintState") && n == 0 {
                Ok(RvsdgType::PrintState)
            } else if str_eq(head.as_str(), "Bril") && n == 1 {
                match egglog_expr_to_ty(graph, &graph.nodes[children[0]], fuel) {
                    Ok(inner) => Ok(RvsdgType::Bril(inner)),
                    Err(e) => Err(e),
                }
            } else {
                malformed_at(Shape::RvsdgType, ty)
            }
        },
        _ => malformed_at(Shape::RvsdgType, ty),
    }
}

/// The literal that a literal term stands for.
pub fn egglog_expr_to_literal(graph: &TermGraph, lit: &TermNode) -> (r: Result<
    Literal,
    DecodeError,
>)
    ensures
        is_outcome(r, decode_literal(graph@, lit@)),
{
    match lit {
        TermNode::App(head, children) => {
            match check_children(graph, children) {
                Err(e) => {
                    return Err(e);
                },
                Ok(_) => {},
            }
            if children.len() != 1 {
                return malformed_at(Shape::Literal, lit);
            }
            let held = &graph.nodes[children[0]];
            if str_eq(head.as_str(), "Num") {
                match held {
                    TermNode::Lit(TermLit::Int(n)) => Ok(Literal::Int(*n)),
                    _ => malformed_at(Shape::Literal, lit),
                }
            } else if str_eq(head.as_str(), "Float") {
                match held {
                    TermNode::Lit(TermLit::Float(bits)) => Ok(Literal::Float(*bits)),
                    _ => malformed_at(Shape::Literal, lit),
                }
            } else if str_eq(head.as_str(), "Char") {
                match held {
                    TermNode::Lit(TermLit::Str(s)) => {
                        if s.as_str().unicode_len() == 1 {
                            Ok(Literal::Char(s.as_str().get_char(0)))
                        } else {
                            malformed_at(Shape::Literal, lit)
                        }
                    },
                    _ => malformed_at(Shape::Literal, lit),
                }
            } else {
                malformed_at(Shape::Literal, lit)
            }
        },
        _ => malformed_at(Shape::Literal, lit),
    }
}

/// `acc` followed by `one` and then `rest` is `acc` with `one` pushed,
/// followed by `rest`.
proof fn lemma_prepend_push(acc: Seq<usize>, one: usize, rest: Result<Seq<usize>, DecodeErrorModel>)
    ensures
        prepend(acc, prepend(seq![one], rest)) == prepend(acc.push(one), rest),
{
    if let Ok(ids) = rest {
        assert(acc + (seq![one] + ids) =~= acc.push(one) + ids);
    }
}

/// Walks a list term: the indices of its elements in visiting order, and
/// whether that order is the reverse of the list's own.
pub fn vec_map(graph: &TermGraph, inputs: &TermNode, fuel: usize) -> (r: Result<
    (Vec<usize>, bool),
    DecodeError,
>)
    ensures
        match r {
            Ok((ids, backwards)) => list_elements(graph@, inputs@, fuel as nat) == Ok::<
                (Seq<usize>, bool),
                DecodeErrorModel,
            >((ids@, backwards)),
            Err(e) => list_elements(graph@, inputs@, fuel as nat) == Err::<
                (Seq<usize>, bool),
                DecodeErrorModel,
            >(e@),
        },
        r matches Ok((ids, backwards)) ==> list_items(graph@, inputs@, fuel as nat) == Ok::<
            Seq<usize>,
            DecodeErrorModel,
        >(in_list_order(ids@, backwards)),
        inputs@ is App && inputs@->App_0 == "vec-of"@ ==> r is Ok && r->Ok_0.0@
            == inputs@->App_1 && !r->Ok_0.1,
        forall|items: Seq<usize>|
            #[trigger] is_chain(graph@, inputs@, items) && items.len() <= fuel ==> r is Ok
                && in_list_order(r->Ok_0.0@, r->Ok_0.1) == items,
{
    proof {
        lemma_chains_decode(graph@, inputs@, fuel as nat);
    }
    if let TermNode::App(head, children) = inputs {
        if str_eq(head.as_str(), "vec-of") {
            let ids = children.clone();
            assert(ids@ =~= children@);
            return Ok((ids, false));
        }
    }
    let mut results: Vec<usize> = Vec::new();
    let mut current: &TermNode = inputs;
    let mut left: usize = fuel;
    loop
        invariant
            left <= fuel,
            !(inputs@ is App && inputs@->App_0 == "vec-of"@),
            chains_decode(graph@, inputs@, fuel as nat),
            chain_elements(graph@, inputs@, fuel as nat) == prepend(
                results@,
                chain_elements(graph@, current@, left as nat),
            ),
        ensures
            chain_elements(graph@, inputs@, fuel as nat) == Ok::<Seq<usize>, DecodeErrorModel>(
                results@,
            ),
        decreases left,
    {
        match current {
            TermNode::App(head, children) => {
                if str_eq(head.as_str(), "vec-push") && children.len() == 2 {
                    if children[1] >= graph.nodes.len() {
                        return Err(DecodeError::Dangling(children[1]));
                    }
                    if left == 0 {
                        return Err(DecodeError::TooDeep);
                    }
                    proof {
                        lemma_prepend_push(
                            results@,
                            children[0],
                            chain_elements(
                                graph@,
                                graph@[children[1] as int],
                                (left - 1) as nat,
                            ),
                        );
                    }
                    results.push(children[0]);
                    current = &graph.nodes[children[1]];
                    left = left - 1;
                } else if str_eq(head.as_str(), "vec-empty") && children.len() == 0 {
                    assert(results@ + Seq::<usize>::empty() =~= results@);
                    break ;
                } else {
                    return malformed_at(Shape::List, current);
                }
            },
            _ => {
                return malformed_at(Shape::List, current);
            },
        }
    }
    Ok((results, true))
}

/// The signature that a list of edge-type terms stands for.
fn decode_signature_list(graph: &TermGraph, sig: &TermNode, fuel: usize) -> (r: Result<
    Vec<RvsdgType>,
    DecodeError,
>)
    ensures
        match r {
            Ok(types) => decode_signature(graph@, sig@, fuel as nat) == Ok::<
                Seq<RvsdgType>,
                DecodeErrorModel,
            >(types@),
            Err(e) => decode_signature(graph@, sig@, fuel as nat) == Err::<
                Seq<RvsdgType>,
                DecodeErrorModel,
            >(e@),
        },
{
    let (ids, backwards) = match vec_map(graph, sig, fuel) {
        Ok(found) => found,
        Err(e) => {
            return Err(e);
        },
    };
    let mut types: Vec<RvsdgType> = Vec::new();
    let mut i: usize = 0;
    while i < ids.len()
        invariant
            i <= ids.len(),
            list_elements(graph@, sig@, fuel as nat) == Ok::<(Seq<usize>, bool), DecodeErrorModel>(
                (ids@, backwards),
            ),
            decode_types_upto(graph@, ids@, i as nat, fuel as nat) == Ok::<
                Seq<RvsdgType>,
                DecodeErrorModel,
            >(types@),
        decreases ids.len() - i,
    {
        if ids[i] >= graph.nodes.len() {
            proof {
                lemma_types_failure_stays(
                    graph@,
                    ids@,
                    (i + 1) as nat,
                    ids@.len(),
                    fuel as nat,
                );
            }
            return Err(DecodeError::Dangling(ids[i]));
        }
        match egglog_expr_to_rvsdg_ty(graph, &graph.nodes[ids[i]], fuel) {
            Ok(ty) => {
                types.push(ty);
            },
            Err(e) => {
                proof {
                    lemma_types_failure_stays(
                        graph@,
                        ids@,
                        (i + 1) as nat,
                        ids@.len(),
                        fuel as nat,
                    );
                }
                return Err(e);
            },
        }
        i += 1;
    }
    if backwards {
        Ok(reversed(types))
    } else {
        Ok(types)
    }
}

/// The decoder's state: the graph it reads and the arena it fills.
pub struct RvsdgFromEgglog<'a> {
    pub graph: &'a TermGraph,
    pub bodies: Vec<RvsdgBody>,
}

impl<'a> RvsdgFromEgglog<'a> {
    /// The arena filled so far.
    pub open spec fn arena(&self) -> Arena {
        arena_of(self.bodies@)
    }

    /// Decodes an operand, pushing the nodes it refers to.
    pub fn egglog_expr_to_operand(&mut self, op: &TermNode, fuel: usize) -> (r: Result<
        Operand,
        DecodeError,
    >)
        ensures
            final(self).graph == old(self).graph,
            match r {
                Ok(v) => {
                    &&& decode_operand(old(self).graph@, op@, old(self).arena(), fuel as nat)
                        == Ok::<(Operand, Arena), DecodeErrorModel>((v, final(self).arena()))
                    &&& grows(old(self).arena(), final(self).arena())
                    &&& operand_below(v, final(self).arena().len() as int)
                },
                Err(e) => decode_operand(old(self).graph@, op@, old(self).arena(), fuel as nat)
                    == Err::<(Operand, Arena), DecodeErrorModel>(e@),
            },
        decreases fuel, 0nat, 0nat,
    {
        let graph = self.graph;
        match op {
            TermNode::App(head, children) => {
                match check_children(graph, children) {
                    Err(e) => {
                        return Err(e);
                    },
                    Ok(_) => {},
                }
                let n = children.len();
                if str_eq(head.as_str(), "Arg") && n == 1 {
                    if let TermNode::Lit(TermLit::Int(position)) = &graph.nodes[children[0]] {
                        return Ok(Operand::Arg(*position as usize));
                    }
                }
                if str_eq(head.as_str(), "Node") && n == 1 {
                    if fuel == 0 {
                        return Err(DecodeError::TooDeep);
                    }
                    match self.egglog_expr_to_body(&graph.nodes[children[0]], fuel - 1) {
                        Ok(id) => Ok(Operand::Id(id)),
                        Err(e) => Err(e),
                    }
                } else if str_eq(head.as_str(), "Project") && n == 2 {
                    if let TermNode::Lit(TermLit::Int(index)) = &graph.nodes[children[0]] {
                        if fuel == 0 {
                            return Err(DecodeError::TooDeep);
                        }
                        match self.egglog_expr_to_body(&graph.nodes[children[1]], fuel - 1) {
                            Ok(id) => Ok(Operand::Project(*index as usize, id)),
                            Err(e) => Err(e),
                        }
                    } else {
                        malformed_at(Shape::Operand, op)
                    }
                } else {
                    malformed_at(Shape::Operand, op)
                }
            },
            _ => malformed_at(Shape::Operand, op),
        }
    }

    /// Decodes a list of operands under its `VO` head.
    pub fn expr_to_vec_operand(&mut self, vec: &TermNode, fuel: usize) -> (r: Result<
        Vec<Operand>,
        DecodeError,
    >)
        ensures
            final(self).graph == old(self).graph,
            match r {
                Ok(v) => {
                    &&& decode_operand_list(old(self).graph@, vec@, old(self).arena(), fuel as nat)
                        == Ok::<(Seq<Operand>, Arena), DecodeErrorModel>(
                        (v@, final(self).arena()),
                    )
                    &&& grows(old(self).arena(), final(self).arena())
                    &&& operands_below(v@, final(self).arena().len() as int)
                    &&& list_keeps_its_order(old(self).graph@, vec@, v@, fuel as nat)
                },
                Err(e) => decode_operand_list(
                    old(self).graph@,
                    vec@,
                    old(self).arena(),
                    fuel as nat,
                ) == Err::<(Seq<Operand>, Arena), DecodeErrorModel>(e@),
            },
        decreases fuel, 2nat, 0nat,
    {
        let graph = self.graph;
        let ghost before = self.arena();
        match vec {
            TermNode::App(head, children) => {
                match check_children(graph, children) {
                    Err(e) => {
                        return Err(e);
                    },
                    Ok(_) => {},
                }
                if !(str_eq(head.as_str(), "VO") && children.len() == 1) {
                    return malformed_at(Shape::OperandList, vec);
                }
                let (ids, backwards) = match vec_map(graph, &graph.nodes[children[0]], fuel) {
                    Ok(found) => found,
                    Err(e) => {
                        return Err(e);
                    },
                };
                let mut results: Vec<Operand> = Vec::new();
                let mut i: usize = 0;
                while i < ids.len()
                    invariant
                        i <= ids.len(),
                        self.graph == graph,
                        graph == old(self).graph,
                        before == old(self).arena(),
                        vec@ == NodeModel::App(head@, children@),
                        first_dangling(children@, graph@.len()) is None,
                        head@ == "VO"@,
                        children@.len() == 1,
                        list_elements(graph@, graph@[children@[0] as int], fuel as nat) == Ok::<
                            (Seq<usize>, bool),
                            DecodeErrorModel,
                        >((ids@, backwards)),
                        decode_operands_upto(graph@, ids@, i as nat, before, fuel as nat) == Ok::<
                            (Seq<Operand>, Arena),
                            DecodeErrorModel,
                        >((results@, self.arena())),
                        grows(before, self.arena()),
                        operands_below(results@, self.arena().len() as int),
                    decreases ids.len() - i,
                {
                    if ids[i] >= graph.nodes.len() {
                        proof {
                            lemma_operands_failure_stays(
                                graph@,
                                ids@,
                                (i + 1) as nat,
                                ids@.len(),
                                before,
                                fuel as nat,
                            );
                        }
                        return Err(DecodeError::Dangling(ids[i]));
                    }
                    let ghost previous = self.arena();
                    match self.egglog_expr_to_operand(&graph.nodes[ids[i]], fuel) {
                        Ok(operand) => {
                            results.push(operand);
                        },
                        Err(e) => {
                            proof {
                                lemma_operands_failure_stays(
                                    graph@,
                                    ids@,
                                    (i + 1) as nat,
                                    ids@.len(),
                                    before,
                                    fuel as nat,
                                );
                            }
                            return Err(e);
                        },
                    }
                    i += 1;
                }
                let results = if backwards {
                    let ghost forwards = results@;
                    let results = reversed(results);
                    assert(operands_below(results@, self.arena().len() as int)) by {
                        assert forall|j: int| 0 <= j < results@.len() implies operand_below(
                            #[trigger] results@[j],
                            self.arena().len() as int,
                        ) by {
                            assert(results@[j] == forwards[forwards.len() - 1 - j]);
                        }
                    }
                    results
                } else {
                    results
                };
                proof {
                    assert(decode_operand_list(graph@, vec@, before, fuel as nat) == Ok::<
                        (Seq<Operand>, Arena),
                        DecodeErrorModel,
                    >((results@, self.arena())));
                    lemma_operand_list_order(graph@, vec@, before, fuel as nat);
                }
                Ok(results)
            },
            _ => malformed_at(Shape::OperandList, vec),
        }
    }

    /// Decodes a list of lists of operands under its `VVO` head.
    pub fn expr_to_vec_vec_operand(&mut self, vec_vec: &TermNode, fuel: usize) -> (r: Result<
        Vec<Vec<Operand>>,
        DecodeError,
    >)
        ensures
            final(self).graph == old(self).graph,
            match r {
                Ok(v) => {
                    &&& decode_operand_rows(
                        old(self).graph@,
                        vec_vec@,
                        old(self).arena(),
                        fuel as nat,
                    ) == Ok::<(Seq<Seq<Operand>>, Arena), DecodeErrorModel>(
                        (rows_of(v@), final(self).arena()),
                    )
                    &&& grows(old(self).arena(), final(self).arena())
                    &&& rows_below(rows_of(v@), final(self).arena().len() as int)
                    &&& same_width(rows_of(v@))
                },
                Err(e) => decode_operand_rows(
                    old(self).graph@,
                    vec_vec@,
                    old(self).arena(),
                    fuel as nat,
                ) == Err::<(Seq<Seq<Operand>>, Arena), DecodeErrorModel>(e@),
            },
        decreases fuel, 4nat, 0nat,
    {
        let graph = self.graph;
        let ghost before = self.arena();
        match vec_vec {
            TermNode::App(head, children) => {
                match check_children(graph, children) {
                    Err(e) => {
                        return Err(e);
                    },
                    Ok(_) => {},
                }
                if !(str_eq(head.as_str(), "VVO") && children.len() == 1) {
                    return malformed_at(Shape::OperandRows, vec_vec);
                }
                let (ids, backwards) = match vec_map(graph, &graph.nodes[children[0]], fuel) {
                    Ok(found) => found,
                    Err(e) => {
                        return Err(e);
                    },
                };
                let mut results: Vec<Vec<Operand>> = Vec::new();
                assert(rows_of(results@) =~= Seq::<Seq<Operand>>::empty());
                let mut i: usize = 0;
                while i < ids.len()
                    invariant
                        i <= ids.len(),
                        self.graph == graph,
                        graph == old(self).graph,
                        before == old(self).arena(),
                        vec_vec@ == NodeModel::App(head@, children@),
                        first_dangling(children@, graph@.len()) is None,
                        head@ == "VVO"@,
                        children@.len() == 1,
                        list_elements(graph@, graph@[children@[0] as int], fuel as nat) == Ok::<
                            (Seq<usize>, bool),
                            DecodeErrorModel,
                        >((ids@, backwards)),
                        decode_rows_upto(graph@, ids@, i as nat, before, fuel as nat) == Ok::<
                            (Seq<Seq<Operand>>, Arena),
                            DecodeErrorModel,
                        >((rows_of(results@), self.arena())),
                        grows(before, self.arena()),
                        rows_below(rows_of(results@), self.arena().len() as int),
                    decreases ids.len() - i,
                {
                    if ids[i] >= graph.nodes.len() {
                        proof {
                            lemma_rows_failure_stays(
                                graph@,
                                ids@,
                                (i + 1) as nat,
                                ids@.len(),
                                before,
                                fuel as nat,
                            );
                        }
                        return Err(DecodeError::Dangling(ids[i]));
                    }
                    let ghost rows_before = rows_of(results@);
                    match self.expr_to_vec_operand(&graph.nodes[ids[i]], fuel) {
                        Ok(row) => {
                            results.push(row);
                            assert(rows_of(results@) =~= rows_before.push(row@));
                        },
                        Err(e) => {
                            proof {
                                lemma_rows_failure_stays(
                                    graph@,
                                    ids@,
                                    (i + 1) as nat,
                                    ids@.len(),
                                    before,
                                    fuel as nat,
                                );
                            }
                            return Err(e);
                        },
                    }
                    i += 1;
                }
                if !rows_same_width(&results) {
                    return malformed_at(Shape::OperandRows, vec_vec);
                }
                proof {
                    lemma_same_width_in_list_order(rows_of(results@), backwards);
                }
                if backwards {
                    let ghost forwards = rows_of(results@);
                    let results = reversed(results);
                    assert(rows_of(results@) =~= forwards.reverse());
                    assert(rows_below(rows_of(results@), self.arena().len() as int)) by {
                        assert forall|j: int| 0 <= j < results@.len() implies operands_below(
                            #[trigger] rows_of(results@)[j],
                            self.arena().len() as int,
                        ) by {
                            assert(rows_of(results@)[j] == forwards[forwards.len() - 1 - j]);
                        }
                    }
                    Ok(results)
                } else {
                    Ok(results)
                }
            },
            _ => malformed_at(Shape::OperandRows, vec_vec),
        }
    }

    /// Decodes a body and pushes it: the index of the new node.
    pub fn egglog_expr_to_body(&mut self, body: &TermNode, fuel: usize) -> (r: Result<
        Id,
        DecodeError,
    >)
        ensures
            final(self).graph == old(self).graph,
            match r {
                Ok(id) => {
                    &&& decode_body(old(self).graph@, body@, old(self).arena(), fuel as nat)
                        == Ok::<(Id, Arena), DecodeErrorModel>((id, final(self).arena()))
                    &&& grows(old(self).arena(), final(self).arena())
                    &&& id + 1 == final(self).arena().len()
                    &&& id >= old(self).arena().len()
                    &&& final(self).arena()[id as int] matches BodyModel::Gamma {
                        outputs,
                        ..
                    } ==> same_width(outputs)
                    &&& is_body_shape(body@)
                    &&& is_gamma_term(body@) ==> gamma_keeps_its_cases(
                        old(self).graph@,
                        body@,
                        final(self).arena()[id as int],
                        fuel as nat,
                    )
                },
                Err(e) => decode_body(old(self).graph@, body@, old(self).arena(), fuel as nat)
                    == Err::<(Id, Arena), DecodeErrorModel>(e@),
            },
            !is_body_shape(body@) ==> r is Err && r->Err_0@ == (DecodeErrorModel::Malformed {
                expected: Shape::Body,
                found: body@,
            }),
        decreases fuel, 6nat, 0nat,
    {
        let graph = self.graph;
        let ghost before = self.arena();
        match body {
            TermNode::App(head, children) => {
                let n = children.len();
                let decoded = if str_eq(head.as_str(), "PureOp") && n == 1 {
                    match check_children(graph, children) {
                        Err(e) => {
                            return Err(e);
                        },
                        Ok(_) => {},
                    }
                    match self.egglog_expr_to_expr(&graph.nodes[children[0]], fuel) {
                        Ok(expr) => RvsdgBody::BasicOp(expr),
                        Err(e) => {
                            return Err(e);
                        },
                    }
                } else if str_eq(head.as_str(), "Gamma") && n == 3 {
                    match check_children(graph, children) {
                        Err(e) => {
                            return Err(e);
                        },
                        Ok(_) => {},
                    }
                    let pred = match self.egglog_expr_to_operand(&graph.nodes[children[0]], fuel) {
                        Ok(pred) => pred,
                        Err(e) => {
                            return Err(e);
                        },
                    };
                    let inputs = match self.expr_to_vec_operand(&graph.nodes[children[1]], fuel) {
                        Ok(inputs) => inputs,
                        Err(e) => {
                            return Err(e);
                        },
                    };
                    let outputs = match self.expr_to_vec_vec_operand(
                        &graph.nodes[children[2]],
                        fuel,
                    ) {
                        Ok(outputs) => outputs,
                        Err(e) => {
                            return Err(e);
                        },
                    };
                    RvsdgBody::Gamma { pred, inputs, outputs }
                } else if str_eq(head.as_str(), "Theta") && n == 3 {
                    match check_children(graph, children) {
                        Err(e) => {
                            return Err(e);
                        },
                        Ok(_) => {},
                    }
                    let pred = match self.egglog_expr_to_operand(&graph.nodes[children[0]], fuel) {
                        Ok(pred) => pred,
                        Err(e) => {
                            return Err(e);
                        },
                    };
                    let inputs = match self.expr_to_vec_operand(&graph.nodes[children[1]], fuel) {
                        Ok(inputs) => inputs,
                        Err(e) => {
                            return Err(e);
                        },
                    };
                    let outputs = match self.expr_to_vec_operand(&graph.nodes[children[2]], fuel) {
                        Ok(outputs) => outputs,
                        Err(e) => {
                            return Err(e);
                        },
                    };
                    RvsdgBody::Theta { pred, inputs, outputs }
                } else {
                    return malformed_at(Shape::Body, body);
                };
                let ghost filled = self.arena();
                assert(body_below(decoded@, filled.len() as int));
                self.bodies.push(decoded);
                assert(self.arena() =~= filled.push(decoded@));
                proof {
                    assert(decode_body(graph@, body@, before, fuel as nat) == Ok::<
                        (Id, Arena),
                        DecodeErrorModel,
                    >(((self.bodies.len() - 1) as usize, self.arena())));
                    if is_gamma_term(body@) {
                        lemma_gamma_keeps_its_cases(graph@, body@, before, fuel as nat);
                    }
                }
                Ok(self.bodies.len() - 1)
            },
            _ => malformed_at(Shape::Body, body),
        }
    }

    /// Decodes a basic operation, pushing the nodes its operands refer to.
    pub fn egglog_expr_to_expr(&mut self, expr: &TermNode, fuel: usize) -> (r: Result<
        BasicExpr<Operand>,
        DecodeError,
    >)
        ensures
            final(self).graph == old(self).graph,
            match r {
                Ok(v) => {
                    &&& decode_expr(old(self).graph@, expr@, old(self).arena(), fuel as nat)
                        == Ok::<(BasicExprModel, Arena), DecodeErrorModel>(
                        (v@, final(self).arena()),
                    )
                    &&& grows(old(self).arena(), final(self).arena())
                    &&& body_below(BodyModel::BasicOp(v@), final(self).arena().len() as int)
                },
                Err(e) => decode_expr(old(self).graph@, expr@, old(self).arena(), fuel as nat)
                    == Err::<(BasicExprModel, Arena), DecodeErrorModel>(e@),
            },
        decreases fuel, 5nat, 0nat,
    {
        let graph = self.graph;
        match expr {
            TermNode::App(head, children) => {
                match check_children(graph, children) {
                    Err(e) => {
                        return Err(e);
                    },
                    Ok(_) => {},
                }
                let n = children.len();
                if str_eq(head.as_str(), "Call") && n == 3 {
                    if let TermNode::Lit(TermLit::Str(ident)) = &graph.nodes[children[1]] {
                        let args = match self.expr_to_vec_operand(&graph.nodes[children[2]], fuel) {
                            Ok(args) => args,
                            Err(e) => {
                                return Err(e);
                            },
                        };
                        let ty = match egglog_expr_to_option_ty(
                            graph,
                            &graph.nodes[children[0]],
                            fuel,
                        ) {
                            Ok(ty) => ty,
                            Err(e) => {
                                return Err(e);
                            },
                        };
                        let outputs: usize = if ty.is_some() {
                            2
                        } else {
                            1
                        };
                        return Ok(BasicExpr::Call(ident.clone(), args, outputs, ty));
                    }
                }
                if str_eq(head.as_str(), "Const") && n == 3 {
                    let lit = match egglog_expr_to_literal(graph, &graph.nodes[children[2]]) {
                        Ok(lit) => lit,
                        Err(e) => {
                            return Err(e);
                        },
                    };
                    match egglog_expr_to_ty(graph, &graph.nodes[children[0]], fuel) {
                        Ok(ty) => Ok(BasicExpr::Const(ConstOps::Const, lit, ty)),
                        Err(e) => Err(e),
                    }
                } else if str_eq(head.as_str(), "Print") && n == 2 {
                    let first = match self.egglog_expr_to_operand(&graph.nodes[children[0]], fuel) {
                        Ok(first) => first,
                        Err(e) => {
                            return Err(e);
                        },
                    };
                    let second = match self.egglog_expr_to_operand(
                        &graph.nodes[children[1]],
                        fuel,
                    ) {
                        Ok(second) => second,
                        Err(e) => {
                            return Err(e);
                        },
                    };
                    let mut operands: Vec<Operand> = Vec::new();
                    operands.push(first);
                    operands.push(second);
                    assert(operands@ =~= seq![first, second]);
                    Ok(BasicExpr::Print(operands))
                } else if n == 3 {
                    let first = match self.egglog_expr_to_operand(&graph.nodes[children[1]], fuel) {
                        Ok(first) => first,
                        Err(e) => {
                            return Err(e);
                        },
                    };
                    let second = match self.egglog_expr_to_operand(
                        &graph.nodes[children[2]],
                        fuel,
                    ) {
                        Ok(second) => second,
                        Err(e) => {
                            return Err(e);
                        },
                    };
                    let op = match egglog_op_to_bril(head.as_str()) {
                        Some(op) => op,
                        None => {
                            return malformed_at(Shape::Expression, expr);
                        },
                    };
                    let ty = match egglog_expr_to_ty(graph, &graph.nodes[children[0]], fuel) {
                        Ok(ty) => ty,
                        Err(e) => {
                            return Err(e);
                        },
                    };
                    let mut operands: Vec<Operand> = Vec::new();
                    operands.push(first);
                    operands.push(second);
                    assert(operands@ =~= seq![first, second]);
                    Ok(BasicExpr::Op(op, operands, ty))
                } else {
                    malformed_at(Shape::Expression, expr)
                }
            },
            _ => malformed_at(Shape::Expression, expr),
        }
    }
}

impl RvsdgFunction {
    /// Decodes the function that `term` stands for over the term arena
    /// `termdag`. The term itself need not be a term of the arena; the
    /// terms it refers to are.
    ///
    /// A function that comes out has its arena in topological order, its
    /// exit operands refer to nodes of the arena, each of its gamma nodes
    /// has rows of one width, and its tree is the tree that the term spells
    /// out.
    pub fn egglog_term_to_function(term: &TermNode, termdag: &TermGraph) -> (r: Result<
        RvsdgFunction,
        DecodeError,
    >)
        ensures
            match r {
                Ok(f) => {
                    &&& decode_function(term@, termdag@) == Ok::<
                        FunctionModel,
                        DecodeErrorModel,
                    >(f@)
                    &&& f@.well_formed()
                    &&& read_function(term@, termdag@) == Ok::<FunctionTree, DecodeErrorModel>(
                        function_tree(f@),
                    )
                },
                Err(e) => decode_function(term@, termdag@) == Err::<
                    FunctionModel,
                    DecodeErrorModel,
                >(e@),
            },
    {
        let r = RvsdgFunction::decode_term(term, termdag);
        if let Ok(f) = &r {
            let size = f.nodes.len();
            proof {
                lemma_decoding_reads_the_term(term@, termdag@);
                assert(f@.nodes.len() == size);
            }
        }
        r
    }

    /// Decodes the function term: the signature first, then the exit
    /// operands into an empty arena.
    fn decode_term(term: &TermNode, graph: &TermGraph) -> (r: Result<RvsdgFunction, DecodeError>)
        ensures
            match r {
                Ok(f) => {
                    &&& decode_function(term@, graph@) == Ok::<FunctionModel, DecodeErrorModel>(f@)
                    &&& f@.well_formed()
                },
                Err(e) => decode_function(term@, graph@) == Err::<FunctionModel, DecodeErrorModel>(
                    e@,
                ),
            },
    {
        let fuel = graph.nodes.len();
        let mut convert = RvsdgFromEgglog { graph, bodies: Vec::new() };
        assert(convert.arena() =~= Seq::<BodyModel>::empty());
        match term {
            TermNode::App(func, arg_ids) => {
                match check_children(graph, arg_ids) {
                    Err(e) => {
                        return Err(e);
                    },
                    Ok(_) => {},
                }
                if !(str_eq(func.as_str(), "Func") && arg_ids.len() == 3) {
                    return malformed_at(Shape::Function, term);
                }
                let name = match &graph.nodes[arg_ids[0]] {
                    TermNode::Lit(TermLit::Str(name)) => name,
                    _ => {
                        return malformed_at(Shape::Function, term);
                    },
                };
                let (func_output, func_args_ids) = match &graph.nodes[arg_ids[2]] {
                    TermNode::App(func_output, func_args_ids) => (func_output, func_args_ids),
                    _ => {
                        return malformed_at(Shape::Function, term);
                    },
                };
                let args = match decode_signature_list(graph, &graph.nodes[arg_ids[1]], fuel) {
                    Ok(args) => args,
                    Err(e) => {
                        return Err(e);
                    },
                };
                if args.len() == 0 {
                    return malformed_at(Shape::Function, term);
                }
                let n_args = args.len() - 1;
                match check_children(graph, func_args_ids) {
                    Err(e) => {
                        return Err(e);
                    },
                    Ok(_) => {},
                }
                let n = func_args_ids.len();
                if str_eq(func_output.as_str(), "StateOnly") && n == 1 {
                    let state = match convert.egglog_expr_to_operand(
                        &graph.nodes[func_args_ids[0]],
                        fuel,
                    ) {
                        Ok(state) => state,
                        Err(e) => {
                            return Err(e);
                        },
                    };
                    Ok(
                        RvsdgFunction {
                            name: name.clone(),
                            n_args,
                            args,
                            nodes: convert.bodies,
                            result: None,
                            state,
                        },
                    )
                } else if str_eq(func_output.as_str(), "StateAndValue") && n == 3 {
                    let state = match convert.egglog_expr_to_operand(
                        &graph.nodes[func_args_ids[0]],
                        fuel,
                    ) {
                        Ok(state) => state,
                        Err(e) => {
                            return Err(e);
                        },
                    };
                    let value = match convert.egglog_expr_to_operand(
                        &graph.nodes[func_args_ids[2]],
                        fuel,
                    ) {
                        Ok(value) => value,
                        Err(e) => {
                            return Err(e);
                        },
                    };
                    let ty = match egglog_expr_to_ty(graph, &graph.nodes[func_args_ids[1]], fuel) {
                        Ok(ty) => ty,
                        Err(e) => {
                            return Err(e);
                        },
                    };
                    Ok(
                        RvsdgFunction {
                            name: name.clone(),
                            n_args,
                            args,
                            nodes: convert.bodies,
                            result: Some((ty, value)),
                            state,
                        },
                    )
                } else {
                    malformed_at(Shape::Function, term)
                }
            },
            _ => malformed_at(Shape::Function, term),
        }
    }
}

} // verus!
