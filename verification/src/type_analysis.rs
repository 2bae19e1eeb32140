//! The structural type checker of the tree encoding: the type of an
//! expression is found from the types of its parts, on demand.

use vstd::prelude::*;

use crate::schema::{
    lemma_tuple_model, type_models, BaseType, BinaryOp, Constant, Expr, ExprModel, RcExpr, Type,
    TypeModel, UnaryOp,
};

verus! {

/// Why an expression has no type.
#[derive(Clone, Copy, Debug, PartialEq, Eq, Hash)]
pub enum TypeError {
    /// A part does not have the type that its place asks for, or two parts
    /// that must agree do not.
    Mismatch,
    /// A tuple is asked for, and a scalar is given.
    NotATuple,
    /// The index of a `Get` lies outside the tuple.
    IndexOutOfRange,
    /// A switch has no case.
    EmptySwitch,
    /// No rule gives the expression a type.
    Untyped,
}

pub open spec fn int_model() -> TypeModel {
    TypeModel::Base(BaseType::IntT)
}

pub open spec fn bool_model() -> TypeModel {
    TypeModel::Base(BaseType::BoolT)
}

/// The type of a binary operation on operands of the types `l` and `r`.
pub open spec fn binary_type(op: BinaryOp, l: TypeModel, r: TypeModel) -> Result<
    TypeModel,
    TypeError,
> {
    match op {
        BinaryOp::Add | BinaryOp::Sub | BinaryOp::Mul => if l == int_model() && r == int_model() {
            Ok(int_model())
        } else {
            Err(TypeError::Mismatch)
        },
        BinaryOp::LessThan => if l == int_model() && r == int_model() {
            Ok(bool_model())
        } else {
            Err(TypeError::Mismatch)
        },
        BinaryOp::And | BinaryOp::Or => if l == bool_model() && r == bool_model() {
            Ok(bool_model())
        } else {
            Err(TypeError::Mismatch)
        },
        BinaryOp::Write | BinaryOp::PtrAdd => Err(TypeError::Untyped),
    }
}

/// The type of a unary operation on an operand of the type `x`.
pub open spec fn unary_type(op: UnaryOp, x: TypeModel) -> Result<TypeModel, TypeError> {
    match op {
        UnaryOp::Not => if x == bool_model() {
            Ok(bool_model())
        } else {
            Err(TypeError::Mismatch)
        },
        UnaryOp::Print | UnaryOp::Load => Err(TypeError::Untyped),
    }
}

/// The type of the component at index `i` of a value of the type `tuple`.
pub open spec fn component_type(tuple: TypeModel, i: usize) -> Result<TypeModel, TypeError> {
    match tuple {
        TypeModel::TupleT(parts) => if i < parts.len() {
            Ok(parts[i as int])
        } else {
            Err(TypeError::IndexOutOfRange)
        },
        TypeModel::Base(_) => Err(TypeError::NotATuple),
    }
}

/// The type of the concatenation of values of the types `l` and `r`.
pub open spec fn concat_type(l: TypeModel, r: TypeModel) -> Result<TypeModel, TypeError> {
    match (l, r) {
        (TypeModel::TupleT(ls), TypeModel::TupleT(rs)) => Ok(TypeModel::TupleT(ls + rs)),
        _ => Err(TypeError::NotATuple),
    }
}

/// The type of a loop whose inputs have the type `inputs` and whose body
/// has the type `body`: the body yields a boolean and then one value for
/// each input.
pub open spec fn loop_type(inputs: TypeModel, body: TypeModel) -> Result<TypeModel, TypeError> {
    match inputs {
        TypeModel::TupleT(carried) => if body == TypeModel::TupleT(seq![bool_model()] + carried) {
            Ok(inputs)
        } else {
            Err(TypeError::Mismatch)
        },
        TypeModel::Base(_) => Err(TypeError::NotATuple),
    }
}

/// The type on which the first `k` of `cases` agree.
pub open spec fn common_type_upto(cases: Seq<ExprModel>, arg: TypeModel, k: nat) -> Result<
    TypeModel,
    TypeError,
>
    decreases cases, k,
{
    if k == 0 || k > cases.len() {
        Err(TypeError::EmptySwitch)
    } else if k == 1 {
        type_of(cases[0], arg)
    } else {
        match common_type_upto(cases, arg, (k - 1) as nat) {
            Err(e) => Err(e),
            Ok(common) => match type_of(cases[k - 1], arg) {
                Err(e) => Err(e),
                Ok(ty) => if ty == common {
                    Ok(common)
                } else {
                    Err(TypeError::Mismatch)
                },
            },
        }
    }
}

/// The type of `e` where the argument of its scope has the type `arg`, or
/// why it has none.
///
/// Arithmetic takes integers and gives an integer, a comparison takes
/// integers and gives a boolean, the boolean operators take and give
/// booleans. A switch has the type on which all its cases agree, under a
/// scalar predicate. A tuple has the tuple of the types of its parts, in
/// the order of the parts whatever the order of evaluation; `Get` has the
/// type of the component it names. The body of a let is typed under the
/// type of the bound value. An assumption does not change the type.
pub open spec fn type_of(e: ExprModel, arg: TypeModel) -> Result<TypeModel, TypeError>
    decreases e, 0nat,
{
    match e {
        ExprModel::Const(Constant::Int(_)) => Ok(int_model()),
        ExprModel::Const(Constant::Bool(_)) => Ok(bool_model()),
        ExprModel::Bop(op, l, r) => match type_of(*l, arg) {
            Err(e) => Err(e),
            Ok(lt) => match type_of(*r, arg) {
                Err(e) => Err(e),
                Ok(rt) => binary_type(op, lt, rt),
            },
        },
        ExprModel::Uop(op, x) => match type_of(*x, arg) {
            Err(e) => Err(e),
            Ok(xt) => unary_type(op, xt),
        },
        ExprModel::Get(x, i) => match type_of(*x, arg) {
            Err(e) => Err(e),
            Ok(xt) => component_type(xt, i),
        },
        ExprModel::Alloc(_, _) => Err(TypeError::Untyped),
        ExprModel::Call(_, _) => Err(TypeError::Untyped),
        ExprModel::Empty => Ok(TypeModel::TupleT(Seq::empty())),
        ExprModel::Single(x) => match type_of(*x, arg) {
            Err(e) => Err(e),
            Ok(xt) => Ok(TypeModel::TupleT(seq![xt])),
        },
        ExprModel::Concat(_, l, r) => match type_of(*l, arg) {
            Err(e) => Err(e),
            Ok(lt) => match type_of(*r, arg) {
                Err(e) => Err(e),
                Ok(rt) => concat_type(lt, rt),
            },
        },
        ExprModel::Switch(pred, cases) => match type_of(*pred, arg) {
            Err(e) => Err(e),
            Ok(TypeModel::TupleT(_)) => Err(TypeError::Mismatch),
            Ok(TypeModel::Base(_)) => common_type_upto(cases, arg, cases.len()),
        },
        ExprModel::If(pred, then_case, else_case) => match type_of(*pred, arg) {
            Err(e) => Err(e),
            Ok(pt) => if pt != bool_model() {
                Err(TypeError::Mismatch)
            } else {
                match type_of(*then_case, arg) {
                    Err(e) => Err(e),
                    Ok(tt) => match type_of(*else_case, arg) {
                        Err(e) => Err(e),
                        Ok(et) => if tt == et {
                            Ok(tt)
                        } else {
                            Err(TypeError::Mismatch)
                        },
                    },
                }
            },
        },
        ExprModel::Let(bound, body) => match type_of(*bound, arg) {
            Err(e) => Err(e),
            Ok(bt) => type_of(*body, bt),
        },
        ExprModel::DoWhile(inputs, body) => match type_of(*inputs, arg) {
            Err(e) => Err(e),
            Ok(it) => match type_of(*body, it) {
                Err(e) => Err(e),
                Ok(bt) => loop_type(it, bt),
            },
        },
        ExprModel::Arg => Ok(arg),
        ExprModel::Assume(_, x) => type_of(*x, arg),
        ExprModel::Function(_, arg_ty, ret_ty, body) => match type_of(*body, arg_ty) {
            Err(e) => Err(e),
            Ok(bt) => if bt == ret_ty {
                Ok(ret_ty)
            } else {
                Err(TypeError::Mismatch)
            },
        },
    }
}

/// Whether two types are the same.
pub fn types_equal(a: &Type, b: &Type) -> (r: bool)
    ensures
        r == (a@ == b@),
    decreases *a,
{
    match (a, b) {
        (Type::Base(x), Type::Base(y)) => *x == *y,
        (Type::TupleT(xs), Type::TupleT(ys)) => {
            proof {
                lemma_tuple_model(*xs);
                lemma_tuple_model(*ys);
            }
            if xs.len() != ys.len() {
                assert(type_models(xs@).len() != type_models(ys@).len());
                return false;
            }
            let mut i: usize = 0;
            while i < xs.len()
                invariant
                    *a == Type::TupleT(*xs),
                    i <= xs.len(),
                    xs.len() == ys.len(),
                    a@ == TypeModel::TupleT(type_models(xs@)),
                    b@ == TypeModel::TupleT(type_models(ys@)),
                    forall|j: int| 0 <= j < i ==> (#[trigger] xs[j])@ == ys[j]@,
                decreases xs.len() - i,
            {
                proof {
                    vstd::std_specs::vec::axiom_vec_index_decreases(*xs, i as int);
                    assert(decreases_to!(*a => a->TupleT_0[i as int]));
                }
                if !types_equal(&xs[i], &ys[i]) {
                    assert(type_models(xs@)[i as int] != type_models(ys@)[i as int]);
                    return false;
                }
                i += 1;
            }
            assert(type_models(xs@) =~= type_models(ys@));
            true
        },
        _ => false,
    }
}

/// Whether `ty` is the given scalar type.
fn is_base(ty: &Type, base: BaseType) -> (r: bool)
    ensures
        r == (ty@ == TypeModel::Base(base)),
{
    match ty {
        Type::Base(b) => *b == base,
        Type::TupleT(_) => false,
    }
}

/// The type of a binary operation on operands of the given types.
fn binary_result(op: BinaryOp, l: &Type, r: &Type) -> (t: Result<Type, TypeError>)
    ensures
        match t {
            Ok(ty) => binary_type(op, l@, r@) == Ok::<TypeModel, TypeError>(ty@),
            Err(e) => binary_type(op, l@, r@) == Err::<TypeModel, TypeError>(e),
        },
{
    match op {
        BinaryOp::Add | BinaryOp::Sub | BinaryOp::Mul => {
            if is_base(l, BaseType::IntT) && is_base(r, BaseType::IntT) {
                Ok(Type::Base(BaseType::IntT))
            } else {
                Err(TypeError::Mismatch)
            }
        },
        BinaryOp::LessThan => {
            if is_base(l, BaseType::IntT) && is_base(r, BaseType::IntT) {
                Ok(Type::Base(BaseType::BoolT))
            } else {
                Err(TypeError::Mismatch)
            }
        },
        BinaryOp::And | BinaryOp::Or => {
            if is_base(l, BaseType::BoolT) && is_base(r, BaseType::BoolT) {
                Ok(Type::Base(BaseType::BoolT))
            } else {
                Err(TypeError::Mismatch)
            }
        },
        BinaryOp::Write | BinaryOp::PtrAdd => Err(TypeError::Untyped),
    }
}

/// The type of a loop with inputs and body of the given types.
fn loop_result(inputs: Type, body: &Type) -> (t: Result<Type, TypeError>)
    ensures
        match t {
            Ok(ty) => loop_type(inputs@, body@) == Ok::<TypeModel, TypeError>(ty@),
            Err(e) => loop_type(inputs@, body@) == Err::<TypeModel, TypeError>(e),
        },
{
    match &inputs {
        Type::Base(_) => Err(TypeError::NotATuple),
        Type::TupleT(carried) => {
            proof {
                lemma_tuple_model(*carried);
            }
            let ghost expected = seq![bool_model()] + type_models(carried@);
            match body {
                Type::Base(_) => Err(TypeError::Mismatch),
                Type::TupleT(yielded) => {
                    proof {
                        lemma_tuple_model(*yielded);
                    }
                    if carried.len() == usize::MAX || yielded.len() != carried.len() + 1 {
                        assert(type_models(yielded@).len() != expected.len());
                        return Err(TypeError::Mismatch);
                    }
                    if !is_base(&yielded[0], BaseType::BoolT) {
                        assert(type_models(yielded@)[0] != expected[0]);
                        return Err(TypeError::Mismatch);
                    }
                    let mut i: usize = 0;
                    while i < carried.len()
                        invariant
                            i <= carried.len(),
                            yielded.len() == carried.len() + 1,
                            inputs@ == TypeModel::TupleT(type_models(carried@)),
                            body@ == TypeModel::TupleT(type_models(yielded@)),
                            expected == seq![bool_model()] + type_models(carried@),
                            yielded[0]@ == bool_model(),
                            forall|j: int|
                                0 <= j < i ==> (#[trigger] yielded[j + 1])@ == carried[j]@,
                        decreases carried.len() - i,
                    {
                        if !types_equal(&yielded[i + 1], &carried[i]) {
                            assert(type_models(yielded@)[i + 1] != expected[i + 1]);
                            return Err(TypeError::Mismatch);
                        }
                        i += 1;
                    }
                    assert(type_models(yielded@) =~= expected) by {
                        assert forall|j: int| 0 <= j < expected.len() implies type_models(
                            yielded@,
                        )[j] == expected[j] by {
                            if j > 0 {
                                assert(yielded[(j - 1) + 1]@ == carried[j - 1]@);
                            }
                        }
                    }
                    Ok(inputs)
                },
            }
        },
    }
}

/// The type on which the cases of the switch `expr` agree.
fn common_type(expr: &RcExpr, arg_ty: &Type) -> (r: Result<Type, TypeError>)
    requires
        expr@ is Switch,
    ensures
        match r {
            Ok(ty) => common_type_upto(expr@->Switch_1, arg_ty@, expr@->Switch_1.len()) == Ok::<
                TypeModel,
                TypeError,
            >(ty@),
            Err(e) => common_type_upto(expr@->Switch_1, arg_ty@, expr@->Switch_1.len()) == Err::<
                TypeModel,
                TypeError,
            >(e),
        },
    decreases expr, 0nat,
{
    match &**expr {
        Expr::Switch(pred, cases) => {
            if cases.len() == 0 {
                return Err(TypeError::EmptySwitch);
            }
            proof {
                vstd::std_specs::vec::axiom_vec_index_decreases(*cases, 0);
                assert(decreases_to!(expr => (**expr)->Switch_1[0]));
            }
            let common = match type_of_expr(&cases[0], arg_ty) {
                Ok(common) => common,
                Err(e) => {
                    proof {
                        lemma_common_failure_stays(
                            expr@->Switch_1,
                            arg_ty@,
                            1,
                            cases.len() as nat,
                        );
                    }
                    return Err(e);
                },
            };
            let mut i: usize = 1;
            while i < cases.len()
                invariant
                    **expr == Expr::Switch(*pred, *cases),
                    1 <= i <= cases.len(),
                    expr@->Switch_1.len() == cases.len(),
                    common_type_upto(expr@->Switch_1, arg_ty@, i as nat) == Ok::<
                        TypeModel,
                        TypeError,
                    >(common@),
                decreases cases.len() - i,
            {
                proof {
                    vstd::std_specs::vec::axiom_vec_index_decreases(*cases, i as int);
                    assert(decreases_to!(expr => (**expr)->Switch_1[i as int]));
                }
                match type_of_expr(&cases[i], arg_ty) {
                    Err(e) => {
                        proof {
                            lemma_common_failure_stays(
                                expr@->Switch_1,
                                arg_ty@,
                                (i + 1) as nat,
                                cases.len() as nat,
                            );
                        }
                        return Err(e);
                    },
                    Ok(ty) => {
                        if !types_equal(&ty, &common) {
                            proof {
                                lemma_common_failure_stays(
                                    expr@->Switch_1,
                                    arg_ty@,
                                    (i + 1) as nat,
                                    cases.len() as nat,
                                );
                            }
                            return Err(TypeError::Mismatch);
                        }
                    },
                }
                i += 1;
            }
            Ok(common)
        },
        _ => Err(TypeError::EmptySwitch),
    }
}

/// The type of `expr` where the argument of its scope has the type
/// `arg_ty`.
pub fn type_of_expr(expr: &RcExpr, arg_ty: &Type) -> (r: Result<Type, TypeError>)
    ensures
        match r {
            Ok(ty) => type_of(expr@, arg_ty@) == Ok::<TypeModel, TypeError>(ty@),
            Err(e) => type_of(expr@, arg_ty@) == Err::<TypeModel, TypeError>(e),
        },
    decreases expr, 1nat,
{
    match &**expr {
        Expr::Const(Constant::Int(_)) => Ok(Type::Base(BaseType::IntT)),
        Expr::Const(Constant::Bool(_)) => Ok(Type::Base(BaseType::BoolT)),
        Expr::Bop(op, l, r) => {
            let lt = type_of_expr(l, arg_ty)?;
            let rt = type_of_expr(r, arg_ty)?;
            binary_result(*op, &lt, &rt)
        },
        Expr::Uop(op, x) => {
            let xt = type_of_expr(x, arg_ty)?;
            match op {
                UnaryOp::Not => {
                    if is_base(&xt, BaseType::BoolT) {
                        Ok(Type::Base(BaseType::BoolT))
                    } else {
                        Err(TypeError::Mismatch)
                    }
                },
                UnaryOp::Print | UnaryOp::Load => Err(TypeError::Untyped),
            }
        },
        Expr::Get(x, i) => {
            let xt = type_of_expr(x, arg_ty)?;
            match xt {
                Type::TupleT(parts) => {
                    proof {
                        lemma_tuple_model(parts);
                    }
                    if *i < parts.len() {
                        Ok(parts[*i].clone())
                    } else {
                        Err(TypeError::IndexOutOfRange)
                    }
                },
                Type::Base(_) => Err(TypeError::NotATuple),
            }
        },
        Expr::Alloc(_, _) => Err(TypeError::Untyped),
        Expr::Call(_, _) => Err(TypeError::Untyped),
        Expr::Empty => {
            let parts: Vec<Type> = Vec::new();
            proof {
                lemma_tuple_model(parts);
                assert(type_models(parts@) =~= Seq::empty());
            }
            Ok(Type::TupleT(parts))
        },
        Expr::Single(x) => {
            let xt = type_of_expr(x, arg_ty)?;
            let mut parts: Vec<Type> = Vec::new();
            parts.push(xt);
            proof {
                lemma_tuple_model(parts);
                assert(type_models(parts@) =~= seq![xt@]);
            }
            Ok(Type::TupleT(parts))
        },
        Expr::Concat(_, l, r) => {
            let lt = type_of_expr(l, arg_ty)?;
            let rt = type_of_expr(r, arg_ty)?;
            match (lt, rt) {
                (Type::TupleT(ls), Type::TupleT(rs)) => {
                    let mut parts = ls;
                    let mut rest = rs;
                    proof {
                        lemma_tuple_model(ls);
                        lemma_tuple_model(rs);
                    }
                    parts.append(&mut rest);
                    proof {
                        lemma_tuple_model(parts);
                        assert(type_models(parts@) =~= type_models(ls@) + type_models(rs@));
                    }
                    Ok(Type::TupleT(parts))
                },
                _ => Err(TypeError::NotATuple),
            }
        },
        Expr::Switch(pred, cases) => {
            let pt = type_of_expr(pred, arg_ty)?;
            match pt {
                Type::TupleT(_) => Err(TypeError::Mismatch),
                Type::Base(_) => common_type(expr, arg_ty),
            }
        },
        Expr::If(pred, then_case, else_case) => {
            let pt = type_of_expr(pred, arg_ty)?;
            if !is_base(&pt, BaseType::BoolT) {
                return Err(TypeError::Mismatch);
            }
            let tt = type_of_expr(then_case, arg_ty)?;
            let et = type_of_expr(else_case, arg_ty)?;
            if types_equal(&tt, &et) {
                Ok(tt)
            } else {
                Err(TypeError::Mismatch)
            }
        },
        Expr::Let(bound, body) => {
            let bt = type_of_expr(bound, arg_ty)?;
            type_of_expr(body, &bt)
        },
        Expr::DoWhile(inputs, body) => {
            let it = type_of_expr(inputs, arg_ty)?;
            let bt = type_of_expr(body, &it)?;
            loop_result(it, &bt)
        },
        Expr::Arg => Ok(arg_ty.clone()),
        Expr::Assume(_, x) => type_of_expr(x, arg_ty),
        Expr::Function(_, arg, ret, body) => {
            let bt = type_of_expr(body, arg)?;
            if types_equal(&bt, ret) {
                Ok(ret.clone())
            } else {
                Err(TypeError::Mismatch)
            }
        },
    }
}

/// A failure among the first cases of a switch is the failure of the
/// switch.
proof fn lemma_common_failure_stays(cases: Seq<ExprModel>, arg: TypeModel, k: nat, n: nat)
    requires
        1 <= k <= n <= cases.len(),
        common_type_upto(cases, arg, k) is Err,
    ensures
        common_type_upto(cases, arg, n) == common_type_upto(cases, arg, k),
    decreases n,
{
    if k < n {
        lemma_common_failure_stays(cases, arg, k, (n - 1) as nat);
    }
}

} // verus!
