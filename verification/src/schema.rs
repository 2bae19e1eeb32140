//! The tree encoding: types, operators, expressions and the assumptions
//! that record the scope an expression stands in.

use std::rc::Rc;
use vstd::prelude::*;

verus! {

/// The type of a scalar value.
#[derive(Clone, Copy, Debug, PartialEq, Eq, Hash, Structural)]
pub enum BaseType {
    IntT,
    BoolT,
}

/// The type of an expression: a scalar, or a tuple of component types.
#[derive(Debug, PartialEq, Eq, Hash)]
pub enum Type {
    Base(BaseType),
    TupleT(Vec<Type>),
}

/// The mathematical value of a [`Type`].
pub enum TypeModel {
    Base(BaseType),
    TupleT(Seq<TypeModel>),
}

/// The order in which the parts of a tuple are evaluated.
#[derive(Clone, Copy, Debug, PartialEq, Eq, Hash)]
pub enum Order {
    /// No constraint between the parts.
    Parallel,
    /// Left to right.
    Sequential,
    /// Right to left.
    Reversed,
}

#[derive(Clone, Copy, Debug, PartialEq, Eq, Hash)]
pub enum BinaryOp {
    Add,
    Sub,
    Mul,
    LessThan,
    And,
    Or,
    Write,
    PtrAdd,
}

#[derive(Clone, Copy, Debug, PartialEq, Eq, Hash)]
pub enum UnaryOp {
    Not,
    Print,
    Load,
}

#[derive(Clone, Copy, Debug, PartialEq, Eq, Hash)]
pub enum Constant {
    Int(i64),
    Bool(bool),
}

/// A shared expression.
pub type RcExpr = Rc<Expr>;

/// The structural scope in which an expression is valid.
#[derive(Clone, Debug, PartialEq, Eq, Hash)]
pub enum Assumption {
    /// Inside the body of a let whose bound value is the given expression.
    InLet(RcExpr),
    /// Inside a loop with the given initial values and the given body.
    InLoop(RcExpr, RcExpr),
    /// Inside the then (`true`) or else (`false`) arm under the predicate.
    InIf(bool, RcExpr),
    /// At the top level of the named function.
    InFunc(String),
}

/// An expression of the tree encoding.
#[derive(Clone, Debug, PartialEq, Eq, Hash)]
pub enum Expr {
    Const(Constant),
    Bop(BinaryOp, RcExpr, RcExpr),
    Uop(UnaryOp, RcExpr),
    /// The component at the given index of a tuple.
    Get(RcExpr, usize),
    Alloc(RcExpr, Type),
    Call(String, RcExpr),
    /// The empty tuple.
    Empty,
    /// The tuple of one component.
    Single(RcExpr),
    /// The concatenation of two tuples, evaluated in the given order.
    Concat(Order, RcExpr, RcExpr),
    /// A multi-way branch on an integer predicate.
    Switch(RcExpr, Vec<RcExpr>),
    /// A two-way branch: predicate, then arm, else arm.
    If(RcExpr, RcExpr, RcExpr),
    /// Binds the first expression as the argument of the second.
    Let(RcExpr, RcExpr),
    /// A loop: initial values, then the tuple of predicate and next values.
    DoWhile(RcExpr, RcExpr),
    /// The argument of the enclosing scope.
    Arg,
    /// The inner expression, recorded as valid under the assumption.
    Assume(Assumption, RcExpr),
    /// A function: name, argument type, result type, body.
    Function(String, Type, Type, RcExpr),
}

/// The mathematical value of an [`Assumption`].
pub enum AssumptionModel {
    InLet(Box<ExprModel>),
    InLoop(Box<ExprModel>, Box<ExprModel>),
    InIf(bool, Box<ExprModel>),
    InFunc(Seq<char>),
}

/// The mathematical value of an [`Expr`].
pub enum ExprModel {
    Const(Constant),
    Bop(BinaryOp, Box<ExprModel>, Box<ExprModel>),
    Uop(UnaryOp, Box<ExprModel>),
    Get(Box<ExprModel>, usize),
    Alloc(Box<ExprModel>, TypeModel),
    Call(Seq<char>, Box<ExprModel>),
    Empty,
    Single(Box<ExprModel>),
    Concat(Order, Box<ExprModel>, Box<ExprModel>),
    Switch(Box<ExprModel>, Seq<ExprModel>),
    If(Box<ExprModel>, Box<ExprModel>, Box<ExprModel>),
    Let(Box<ExprModel>, Box<ExprModel>),
    DoWhile(Box<ExprModel>, Box<ExprModel>),
    Arg,
    Assume(AssumptionModel, Box<ExprModel>),
    Function(Seq<char>, TypeModel, TypeModel, Box<ExprModel>),
}

/// A whole program: its entry function and its other functions.
#[derive(Clone, Debug, PartialEq, Eq)]
pub struct TreeProgram {
    pub entry: RcExpr,
    pub functions: Vec<RcExpr>,
}

/// The value of a type, component by component.
pub open spec fn type_model(ty: Type) -> TypeModel
    decreases ty,
{
    match ty {
        Type::Base(b) => TypeModel::Base(b),
        Type::TupleT(parts) => TypeModel::TupleT(
            Seq::new(
                parts.len() as nat,
                |i: int|
                    if 0 <= i < parts.len() {
                        type_model(parts[i])
                    } else {
                        TypeModel::TupleT(Seq::empty())
                    },
            ),
        ),
    }
}

/// The values of the types of `parts`, in order.
pub open spec fn type_models(parts: Seq<Type>) -> Seq<TypeModel> {
    Seq::new(parts.len(), |i: int| type_model(parts[i]))
}

/// The value of a tuple type is the tuple of the values of its parts.
pub proof fn lemma_tuple_model(parts: Vec<Type>)
    ensures
        type_model(Type::TupleT(parts)) == TypeModel::TupleT(type_models(parts@)),
{
    assert(type_model(Type::TupleT(parts))->TupleT_0 =~= type_models(parts@));
}

/// The value of an assumption.
pub open spec fn assumption_model(assumption: Assumption) -> AssumptionModel
    decreases assumption,
{
    match assumption {
        Assumption::InLet(bound) => AssumptionModel::InLet(Box::new(expr_model(*bound))),
        Assumption::InLoop(inputs, body) => AssumptionModel::InLoop(
            Box::new(expr_model(*inputs)),
            Box::new(expr_model(*body)),
        ),
        Assumption::InIf(arm, pred) => AssumptionModel::InIf(arm, Box::new(expr_model(*pred))),
        Assumption::InFunc(name) => AssumptionModel::InFunc(name@),
    }
}

/// The value of an expression, with sharing forgotten.
pub open spec fn expr_model(expr: Expr) -> ExprModel
    decreases expr,
{
    match expr {
        Expr::Const(c) => ExprModel::Const(c),
        Expr::Bop(op, l, r) => ExprModel::Bop(
            op,
            Box::new(expr_model(*l)),
            Box::new(expr_model(*r)),
        ),
        Expr::Uop(op, e) => ExprModel::Uop(op, Box::new(expr_model(*e))),
        Expr::Get(e, i) => ExprModel::Get(Box::new(expr_model(*e)), i),
        Expr::Alloc(e, ty) => ExprModel::Alloc(Box::new(expr_model(*e)), type_model(ty)),
        Expr::Call(name, e) => ExprModel::Call(name@, Box::new(expr_model(*e))),
        Expr::Empty => ExprModel::Empty,
        Expr::Single(e) => ExprModel::Single(Box::new(expr_model(*e))),
        Expr::Concat(order, l, r) => ExprModel::Concat(
            order,
            Box::new(expr_model(*l)),
            Box::new(expr_model(*r)),
        ),
        Expr::Switch(pred, cases) => ExprModel::Switch(
            Box::new(expr_model(*pred)),
            Seq::new(
                cases.len() as nat,
                |i: int|
                    if 0 <= i < cases.len() {
                        expr_model(*cases[i])
                    } else {
                        ExprModel::Empty
                    },
            ),
        ),
        Expr::If(pred, then_case, else_case) => ExprModel::If(
            Box::new(expr_model(*pred)),
            Box::new(expr_model(*then_case)),
            Box::new(expr_model(*else_case)),
        ),
        Expr::Let(bound, body) => ExprModel::Let(
            Box::new(expr_model(*bound)),
            Box::new(expr_model(*body)),
        ),
        Expr::DoWhile(inputs, body) => ExprModel::DoWhile(
            Box::new(expr_model(*inputs)),
            Box::new(expr_model(*body)),
        ),
        Expr::Arg => ExprModel::Arg,
        Expr::Assume(assumption, e) => ExprModel::Assume(
            assumption_model(assumption),
            Box::new(expr_model(*e)),
        ),
        Expr::Function(name, arg_ty, ret_ty, body) => ExprModel::Function(
            name@,
            type_model(arg_ty),
            type_model(ret_ty),
            Box::new(expr_model(*body)),
        ),
    }
}

impl View for Type {
    type V = TypeModel;

    open spec fn view(&self) -> TypeModel {
        type_model(*self)
    }
}

impl View for Assumption {
    type V = AssumptionModel;

    open spec fn view(&self) -> AssumptionModel {
        assumption_model(*self)
    }
}

impl View for Expr {
    type V = ExprModel;

    open spec fn view(&self) -> ExprModel {
        expr_model(*self)
    }
}

impl Clone for Type {
    fn clone(&self) -> (r: Type)
        ensures
            r@ == self@,
        decreases *self,
    {
        match self {
            Type::Base(b) => Type::Base(*b),
            Type::TupleT(parts) => {
                let mut copies: Vec<Type> = Vec::new();
                let mut i: usize = 0;
                while i < parts.len()
                    invariant
                        *self == Type::TupleT(*parts),
                        i <= parts.len(),
                        copies.len() == i,
                        forall|j: int| 0 <= j < i ==> copies[j]@ == parts[j]@,
                    decreases parts.len() - i,
                {
                    proof {
                        vstd::std_specs::vec::axiom_vec_index_decreases(*parts, i as int);
                        assert(decreases_to!(*self => self->TupleT_0[i as int]));
                    }
                    copies.push(parts[i].clone());
                    i += 1;
                }
                let r = Type::TupleT(copies);
                assert(r@->TupleT_0 =~= self@->TupleT_0);
                r
            },
        }
    }
}

} // verus!
