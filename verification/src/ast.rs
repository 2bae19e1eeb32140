//! Constructors for the expressions, types and assumptions of the tree
//! encoding.

use std::rc::Rc;
use vstd::prelude::*;

use crate::schema::{
    Assumption, AssumptionModel, BaseType, BinaryOp, Constant, Expr, ExprModel, Order, RcExpr,
    TreeProgram, Type, TypeModel, UnaryOp,
};

verus! {

/// Another handle on the expression behind `e`.
///
/// Wraps `Rc::clone`, which returns a pointer to the same allocation: the
/// value behind the result is the value behind `e`.
#[verifier::external_body]
pub(crate) fn share(e: &RcExpr) -> (r: RcExpr)
    ensures
        r == *e,
{
    Rc::clone(e)
}

/// The tuple that evaluates `parts` in no particular order: built from the
/// empty tuple by appending one single-component tuple per part.
pub open spec fn parallel_model(parts: Seq<ExprModel>) -> ExprModel
    decreases parts.len(),
{
    if parts.len() == 0 {
        ExprModel::Empty
    } else {
        ExprModel::Concat(
            Order::Parallel,
            Box::new(parallel_model(parts.drop_last())),
            Box::new(ExprModel::Single(Box::new(parts.last()))),
        )
    }
}

/// The values of the expressions of `es`, in order.
pub open spec fn expr_models(es: Seq<RcExpr>) -> Seq<ExprModel> {
    Seq::new(es.len(), |i: int| es[i]@)
}

pub fn intt() -> (r: Type)
    ensures
        r@ == TypeModel::Base(BaseType::IntT),
{
    Type::Base(BaseType::IntT)
}

pub fn boolt() -> (r: Type)
    ensures
        r@ == TypeModel::Base(BaseType::BoolT),
{
    Type::Base(BaseType::BoolT)
}

pub fn emptyt() -> (r: Type)
    ensures
        r@ == TypeModel::TupleT(Seq::empty()),
{
    let r = Type::TupleT(Vec::new());
    assert(r@->TupleT_0 =~= Seq::empty());
    r
}

/// The tuple type whose components are the given scalar types.
pub fn tuplet_vec(types: Vec<BaseType>) -> (r: Type)
    ensures
        r@ == TypeModel::TupleT(types@.map_values(|b: BaseType| TypeModel::Base(b))),
{
    let mut parts: Vec<Type> = Vec::new();
    let mut i: usize = 0;
    while i < types.len()
        invariant
            i <= types.len(),
            parts.len() == i,
            forall|j: int| 0 <= j < i ==> (#[trigger] parts[j])@ == TypeModel::Base(types[j]),
        decreases types.len() - i,
    {
        parts.push(Type::Base(types[i]));
        i += 1;
    }
    let r = Type::TupleT(parts);
    assert(r@->TupleT_0.len() == types.len());
    assert forall|j: int| 0 <= j < types.len() implies r@->TupleT_0[j] == TypeModel::Base(
        types[j],
    ) by {
        assert(parts[j]@ == TypeModel::Base(types[j]));
    }
    assert(r@->TupleT_0 =~= types@.map_values(|b: BaseType| TypeModel::Base(b)));
    r
}

pub fn add(l: RcExpr, r: RcExpr) -> (e: RcExpr)
    ensures
        e@ == ExprModel::Bop(BinaryOp::Add, Box::new(l@), Box::new(r@)),
{
    Rc::new(Expr::Bop(BinaryOp::Add, l, r))
}

pub fn sub(l: RcExpr, r: RcExpr) -> (e: RcExpr)
    ensures
        e@ == ExprModel::Bop(BinaryOp::Sub, Box::new(l@), Box::new(r@)),
{
    Rc::new(Expr::Bop(BinaryOp::Sub, l, r))
}

pub fn mul(l: RcExpr, r: RcExpr) -> (e: RcExpr)
    ensures
        e@ == ExprModel::Bop(BinaryOp::Mul, Box::new(l@), Box::new(r@)),
{
    Rc::new(Expr::Bop(BinaryOp::Mul, l, r))
}

pub fn less_than(l: RcExpr, r: RcExpr) -> (e: RcExpr)
    ensures
        e@ == ExprModel::Bop(BinaryOp::LessThan, Box::new(l@), Box::new(r@)),
{
    Rc::new(Expr::Bop(BinaryOp::LessThan, l, r))
}

pub fn and(l: RcExpr, r: RcExpr) -> (e: RcExpr)
    ensures
        e@ == ExprModel::Bop(BinaryOp::And, Box::new(l@), Box::new(r@)),
{
    Rc::new(Expr::Bop(BinaryOp::And, l, r))
}

pub fn or(l: RcExpr, r: RcExpr) -> (e: RcExpr)
    ensures
        e@ == ExprModel::Bop(BinaryOp::Or, Box::new(l@), Box::new(r@)),
{
    Rc::new(Expr::Bop(BinaryOp::Or, l, r))
}

pub fn not(e: RcExpr) -> (r: RcExpr)
    ensures
        r@ == ExprModel::Uop(UnaryOp::Not, Box::new(e@)),
{
    Rc::new(Expr::Uop(UnaryOp::Not, e))
}

pub fn twrite(addr: RcExpr, val: RcExpr) -> (e: RcExpr)
    ensures
        e@ == ExprModel::Bop(BinaryOp::Write, Box::new(addr@), Box::new(val@)),
{
    Rc::new(Expr::Bop(BinaryOp::Write, addr, val))
}

pub fn tprint(e: RcExpr) -> (r: RcExpr)
    ensures
        r@ == ExprModel::Uop(UnaryOp::Print, Box::new(e@)),
{
    Rc::new(Expr::Uop(UnaryOp::Print, e))
}

pub fn get(e: RcExpr, i: usize) -> (r: RcExpr)
    ensures
        r@ == ExprModel::Get(Box::new(e@), i),
{
    Rc::new(Expr::Get(e, i))
}

pub fn first(e: RcExpr) -> (r: RcExpr)
    ensures
        r@ == ExprModel::Get(Box::new(e@), 0),
{
    get(e, 0)
}

pub fn second(e: RcExpr) -> (r: RcExpr)
    ensures
        r@ == ExprModel::Get(Box::new(e@), 1),
{
    get(e, 1)
}

pub fn write(ptr: RcExpr, val: RcExpr) -> (e: RcExpr)
    ensures
        e@ == ExprModel::Bop(BinaryOp::Write, Box::new(ptr@), Box::new(val@)),
{
    Rc::new(Expr::Bop(BinaryOp::Write, ptr, val))
}

pub fn load(e: RcExpr) -> (r: RcExpr)
    ensures
        r@ == ExprModel::Uop(UnaryOp::Load, Box::new(e@)),
{
    Rc::new(Expr::Uop(UnaryOp::Load, e))
}

pub fn ptradd(ptr: RcExpr, i: RcExpr) -> (e: RcExpr)
    ensures
        e@ == ExprModel::Bop(BinaryOp::PtrAdd, Box::new(ptr@), Box::new(i@)),
{
    Rc::new(Expr::Bop(BinaryOp::PtrAdd, ptr, i))
}

pub fn talloc(e: RcExpr, ty: Type) -> (r: RcExpr)
    ensures
        r@ == ExprModel::Alloc(Box::new(e@), ty@),
{
    Rc::new(Expr::Alloc(e, ty))
}

pub fn call(s: &str, e: RcExpr) -> (r: RcExpr)
    ensures
        r@ == ExprModel::Call(s@, Box::new(e@)),
{
    Rc::new(Expr::Call(s.to_owned(), e))
}

pub fn program_vec(entry: RcExpr, functions: Vec<RcExpr>) -> (p: TreeProgram)
    ensures
        p.entry == entry,
        p.functions == functions,
{
    TreeProgram { entry, functions }
}

pub fn switch_vec(cond: RcExpr, cases: Vec<RcExpr>) -> (r: RcExpr)
    ensures
        r@ == ExprModel::Switch(Box::new(cond@), expr_models(cases@)),
{
    let r = Rc::new(Expr::Switch(cond, cases));
    assert(r@->Switch_1 =~= expr_models(cases@));
    r
}

pub fn empty() -> (r: RcExpr)
    ensures
        r@ == ExprModel::Empty,
{
    Rc::new(Expr::Empty)
}

pub fn single(e: RcExpr) -> (r: RcExpr)
    ensures
        r@ == ExprModel::Single(Box::new(e@)),
{
    Rc::new(Expr::Single(e))
}

/// The tuple of `l` followed by the parts of `r`.
pub fn cons_par(l: RcExpr, r: RcExpr) -> (e: RcExpr)
    ensures
        e@ == ExprModel::Concat(
            Order::Parallel,
            Box::new(ExprModel::Single(Box::new(l@))),
            Box::new(r@),
        ),
{
    Rc::new(Expr::Concat(Order::Parallel, single(l), r))
}

/// The parts of `r` followed by `l`, in no particular order.
pub fn push_par(l: RcExpr, r: RcExpr) -> (e: RcExpr)
    ensures
        e@ == ExprModel::Concat(
            Order::Parallel,
            Box::new(r@),
            Box::new(ExprModel::Single(Box::new(l@))),
        ),
{
    Rc::new(Expr::Concat(Order::Parallel, r, single(l)))
}

/// The parts of `r` followed by `l`, evaluated left to right.
pub fn push_seq(l: RcExpr, r: RcExpr) -> (e: RcExpr)
    ensures
        e@ == ExprModel::Concat(
            Order::Sequential,
            Box::new(r@),
            Box::new(ExprModel::Single(Box::new(l@))),
        ),
{
    Rc::new(Expr::Concat(Order::Sequential, r, single(l)))
}

/// The parts of `r` followed by `l`, evaluated right to left.
pub fn push_rev(l: RcExpr, r: RcExpr) -> (e: RcExpr)
    ensures
        e@ == ExprModel::Concat(
            Order::Reversed,
            Box::new(r@),
            Box::new(ExprModel::Single(Box::new(l@))),
        ),
{
    Rc::new(Expr::Concat(Order::Reversed, r, single(l)))
}

pub fn concat_par(tuple: RcExpr, tuple2: RcExpr) -> (e: RcExpr)
    ensures
        e@ == ExprModel::Concat(Order::Parallel, Box::new(tuple@), Box::new(tuple2@)),
{
    Rc::new(Expr::Concat(Order::Parallel, tuple, tuple2))
}

pub fn concat_seq(tuple: RcExpr, tuple2: RcExpr) -> (e: RcExpr)
    ensures
        e@ == ExprModel::Concat(Order::Sequential, Box::new(tuple@), Box::new(tuple2@)),
{
    Rc::new(Expr::Concat(Order::Sequential, tuple, tuple2))
}

pub fn concat_rev(tuple: RcExpr, tuple2: RcExpr) -> (e: RcExpr)
    ensures
        e@ == ExprModel::Concat(Order::Reversed, Box::new(tuple@), Box::new(tuple2@)),
{
    Rc::new(Expr::Concat(Order::Reversed, tuple, tuple2))
}

/// The tuple of the given expressions, which may be evaluated in any
/// order.
pub fn parallel_vec(es: Vec<RcExpr>) -> (r: RcExpr)
    ensures
        r@ == parallel_model(expr_models(es@)),
{
    let mut acc = empty();
    let mut i: usize = 0;
    while i < es.len()
        invariant
            i <= es.len(),
            acc@ == parallel_model(expr_models(es@.take(i as int))),
        decreases es.len() - i,
    {
        assert(expr_models(es@.take(i + 1)).drop_last() =~= expr_models(es@.take(i as int)));
        acc = push_par(share(&es[i]), acc);
        i += 1;
    }
    assert(es@.take(es.len() as int) =~= es@);
    acc
}

pub fn tlet(lhs: RcExpr, rhs: RcExpr) -> (e: RcExpr)
    ensures
        e@ == ExprModel::Let(Box::new(lhs@), Box::new(rhs@)),
{
    Rc::new(Expr::Let(lhs, rhs))
}

pub fn arg() -> (r: RcExpr)
    ensures
        r@ == ExprModel::Arg,
{
    Rc::new(Expr::Arg)
}

pub fn getat(index: usize) -> (r: RcExpr)
    ensures
        r@ == ExprModel::Get(Box::new(ExprModel::Arg), index),
{
    get(arg(), index)
}

pub fn tif(cond: RcExpr, then_case: RcExpr, else_case: RcExpr) -> (r: RcExpr)
    ensures
        r@ == ExprModel::If(Box::new(cond@), Box::new(then_case@), Box::new(else_case@)),
{
    Rc::new(Expr::If(cond, then_case, else_case))
}

pub fn dowhile(inputs: RcExpr, pred_and_body: RcExpr) -> (r: RcExpr)
    ensures
        r@ == ExprModel::DoWhile(Box::new(inputs@), Box::new(pred_and_body@)),
{
    Rc::new(Expr::DoWhile(inputs, pred_and_body))
}

pub fn function(name: &str, arg_ty: Type, ret_ty: Type, body: RcExpr) -> (r: RcExpr)
    ensures
        r@ == ExprModel::Function(name@, arg_ty@, ret_ty@, Box::new(body@)),
{
    Rc::new(Expr::Function(name.to_owned(), arg_ty, ret_ty, body))
}

pub fn ttrue() -> (r: RcExpr)
    ensures
        r@ == ExprModel::Const(Constant::Bool(true)),
{
    Rc::new(Expr::Const(Constant::Bool(true)))
}

pub fn tfalse() -> (r: RcExpr)
    ensures
        r@ == ExprModel::Const(Constant::Bool(false)),
{
    Rc::new(Expr::Const(Constant::Bool(false)))
}

pub fn tint(i: i64) -> (r: RcExpr)
    ensures
        r@ == ExprModel::Const(Constant::Int(i)),
{
    Rc::new(Expr::Const(Constant::Int(i)))
}

pub fn inlet(e: RcExpr) -> (a: Assumption)
    ensures
        a@ == AssumptionModel::InLet(Box::new(e@)),
{
    Assumption::InLet(e)
}

pub fn inloop(e1: RcExpr, e2: RcExpr) -> (a: Assumption)
    ensures
        a@ == AssumptionModel::InLoop(Box::new(e1@), Box::new(e2@)),
{
    Assumption::InLoop(e1, e2)
}

pub fn inif(is_then: bool, pred: RcExpr) -> (a: Assumption)
    ensures
        a@ == AssumptionModel::InIf(is_then, Box::new(pred@)),
{
    Assumption::InIf(is_then, pred)
}

pub fn infunc(name: &str) -> (a: Assumption)
    ensures
        a@ == AssumptionModel::InFunc(name@),
{
    Assumption::InFunc(name.to_owned())
}

pub fn tassume(assumption: Assumption, body: RcExpr) -> (r: RcExpr)
    ensures
        r@ == ExprModel::Assume(assumption@, Box::new(body@)),
{
    Rc::new(Expr::Assume(assumption, body))
}

} // verus!
