//! The context-tagging pass: every constant and every argument of a
//! function body is wrapped in the assumption of the smallest scope that
//! encloses it.

use std::rc::Rc;
use vstd::prelude::*;

use crate::ast::{expr_models, share};
use crate::schema::{Assumption, AssumptionModel, Expr, ExprModel, RcExpr, TreeProgram, TypeModel};
use crate::type_analysis::{common_type_upto, type_of};

verus! {

/// Why an expression could not be tagged.
#[derive(Clone, Copy, Debug, PartialEq, Eq, Hash)]
pub enum ContextError {
    /// The expression to tag as a function is not a function.
    NotAFunction,
    /// The body holds an expression that is tagged already, or a function.
    NotContextFree,
}

/// Whether every expression of `es`, from position `from` on, is free of
/// assumptions and of functions.
pub open spec fn all_context_free(es: Seq<ExprModel>, from: int) -> bool
    decreases es, es.len() - from,
{
    if from < 0 || from >= es.len() {
        true
    } else {
        context_free(es[from]) && all_context_free(es, from + 1)
    }
}

/// Whether `e` holds no assumption and no function: what the body of a
/// function is before it is tagged.
pub open spec fn context_free(e: ExprModel) -> bool
    decreases e,
{
    match e {
        ExprModel::Const(_) => true,
        ExprModel::Bop(_, l, r) => context_free(*l) && context_free(*r),
        ExprModel::Uop(_, x) => context_free(*x),
        ExprModel::Get(x, _) => context_free(*x),
        ExprModel::Alloc(x, _) => context_free(*x),
        ExprModel::Call(_, x) => context_free(*x),
        ExprModel::Empty => true,
        ExprModel::Single(x) => context_free(*x),
        ExprModel::Concat(_, l, r) => context_free(*l) && context_free(*r),
        ExprModel::Switch(pred, cases) => context_free(*pred) && all_context_free(cases, 0),
        ExprModel::If(pred, then_case, else_case) => context_free(*pred) && context_free(
            *then_case,
        ) && context_free(*else_case),
        ExprModel::Let(bound, body) => context_free(*bound) && context_free(*body),
        ExprModel::DoWhile(inputs, body) => context_free(*inputs) && context_free(*body),
        ExprModel::Arg => true,
        ExprModel::Assume(_, _) => false,
        ExprModel::Function(_, _, _, _) => false,
    }
}

/// The expression `e` tagged for the scope `ctx`.
///
/// A constant or an argument is wrapped in `ctx`. The body of a let is
/// tagged for the let and its tagged bound value, each arm of an if for
/// the arm and the tagged predicate, the body of a loop for the loop, its
/// tagged inputs and its untagged body. The cases of a switch stay in the
/// scope of the switch. The empty tuple takes no tag.
pub open spec fn with_context(e: ExprModel, ctx: AssumptionModel) -> ExprModel
    decreases e,
{
    match e {
        ExprModel::Const(_) => ExprModel::Assume(ctx, Box::new(e)),
        ExprModel::Arg => ExprModel::Assume(ctx, Box::new(e)),
        ExprModel::Empty => e,
        ExprModel::Bop(op, l, r) => ExprModel::Bop(
            op,
            Box::new(with_context(*l, ctx)),
            Box::new(with_context(*r, ctx)),
        ),
        ExprModel::Uop(op, x) => ExprModel::Uop(op, Box::new(with_context(*x, ctx))),
        ExprModel::Get(x, i) => ExprModel::Get(Box::new(with_context(*x, ctx)), i),
        ExprModel::Alloc(x, ty) => ExprModel::Alloc(Box::new(with_context(*x, ctx)), ty),
        ExprModel::Call(name, x) => ExprModel::Call(name, Box::new(with_context(*x, ctx))),
        ExprModel::Single(x) => ExprModel::Single(Box::new(with_context(*x, ctx))),
        ExprModel::Concat(order, l, r) => ExprModel::Concat(
            order,
            Box::new(with_context(*l, ctx)),
            Box::new(with_context(*r, ctx)),
        ),
        ExprModel::Switch(pred, cases) => ExprModel::Switch(
            Box::new(with_context(*pred, ctx)),
            Seq::new(
                cases.len(),
                |i: int|
                    if 0 <= i < cases.len() {
                        with_context(cases[i], ctx)
                    } else {
                        ExprModel::Empty
                    },
            ),
        ),
        ExprModel::If(pred, then_case, else_case) => {
            let tagged = with_context(*pred, ctx);
            ExprModel::If(
                Box::new(tagged),
                Box::new(with_context(*then_case, AssumptionModel::InIf(true, Box::new(tagged)))),
                Box::new(with_context(*else_case, AssumptionModel::InIf(false, Box::new(tagged)))),
            )
        },
        ExprModel::Let(bound, body) => {
            let tagged = with_context(*bound, ctx);
            ExprModel::Let(
                Box::new(tagged),
                Box::new(with_context(*body, AssumptionModel::InLet(Box::new(tagged)))),
            )
        },
        ExprModel::DoWhile(inputs, body) => {
            let tagged = with_context(*inputs, ctx);
            ExprModel::DoWhile(
                Box::new(tagged),
                Box::new(with_context(*body, AssumptionModel::InLoop(Box::new(tagged), body))),
            )
        },
        ExprModel::Assume(_, _) => e,
        ExprModel::Function(_, _, _, _) => e,
    }
}

/// The function `f` with its body tagged for the scope of the function.
pub open spec fn function_with_context(f: ExprModel) -> ExprModel {
    match f {
        ExprModel::Function(name, arg_ty, ret_ty, body) => ExprModel::Function(
            name,
            arg_ty,
            ret_ty,
            Box::new(with_context(*body, AssumptionModel::InFunc(name))),
        ),
        _ => f,
    }
}

/// A copy of the assumption that shares its expressions.
fn copy_assumption(ctx: &Assumption) -> (r: Assumption)
    ensures
        r@ == ctx@,
{
    match ctx {
        Assumption::InLet(bound) => Assumption::InLet(share(bound)),
        Assumption::InLoop(inputs, body) => Assumption::InLoop(share(inputs), share(body)),
        Assumption::InIf(arm, pred) => Assumption::InIf(*arm, share(pred)),
        Assumption::InFunc(name) => Assumption::InFunc(name.clone()),
    }
}

/// Tags `expr` for the scope `ctx`.
pub fn add_ctx(expr: &RcExpr, ctx: &Assumption) -> (r: Result<RcExpr, ContextError>)
    ensures
        r is Ok <==> context_free(expr@),
        r matches Ok(tagged) ==> tagged@ == with_context(expr@, ctx@),
        r matches Err(e) ==> e == ContextError::NotContextFree,
    decreases expr,
{
    match &**expr {
        Expr::Const(_) => Ok(Rc::new(Expr::Assume(copy_assumption(ctx), share(expr)))),
        Expr::Arg => Ok(Rc::new(Expr::Assume(copy_assumption(ctx), share(expr)))),
        Expr::Empty => Ok(share(expr)),
        Expr::Bop(op, l, r) => {
            let l = add_ctx(l, ctx)?;
            let r = add_ctx(r, ctx)?;
            Ok(Rc::new(Expr::Bop(*op, l, r)))
        },
        Expr::Uop(op, x) => {
            let x = add_ctx(x, ctx)?;
            Ok(Rc::new(Expr::Uop(*op, x)))
        },
        Expr::Get(x, i) => {
            let x = add_ctx(x, ctx)?;
            Ok(Rc::new(Expr::Get(x, *i)))
        },
        Expr::Alloc(x, ty) => {
            let x = add_ctx(x, ctx)?;
            Ok(Rc::new(Expr::Alloc(x, ty.clone())))
        },
        Expr::Call(name, x) => {
            let x = add_ctx(x, ctx)?;
            Ok(Rc::new(Expr::Call(name.clone(), x)))
        },
        Expr::Single(x) => {
            let x = add_ctx(x, ctx)?;
            Ok(Rc::new(Expr::Single(x)))
        },
        Expr::Concat(order, l, r) => {
            let l = add_ctx(l, ctx)?;
            let r = add_ctx(r, ctx)?;
            Ok(Rc::new(Expr::Concat(*order, l, r)))
        },
        Expr::Switch(pred, cases) => {
            let tagged_pred = add_ctx(pred, ctx)?;
            let mut tagged_cases: Vec<RcExpr> = Vec::new();
            let mut i: usize = 0;
            while i < cases.len()
                invariant
                    **expr == Expr::Switch(*pred, *cases),
                    i <= cases.len(),
                    tagged_cases.len() == i,
                    all_context_free(expr@->Switch_1, 0) == all_context_free(
                        expr@->Switch_1,
                        i as int,
                    ),
                    forall|j: int|
                        0 <= j < i ==> (#[trigger] tagged_cases[j])@ == with_context(
                            cases[j]@,
                            ctx@,
                        ),
                decreases cases.len() - i,
            {
                proof {
                    vstd::std_specs::vec::axiom_vec_index_decreases(*cases, i as int);
                    assert(decreases_to!(expr => (**expr)->Switch_1[i as int]));
                }
                let tagged = add_ctx(&cases[i], ctx)?;
                tagged_cases.push(tagged);
                i += 1;
            }
            let r = Rc::new(Expr::Switch(tagged_pred, tagged_cases));
            assert(r@->Switch_1 =~= with_context(expr@, ctx@)->Switch_1);
            Ok(r)
        },
        Expr::If(pred, then_case, else_case) => {
            let pred = add_ctx(pred, ctx)?;
            let then_case = add_ctx(then_case, &Assumption::InIf(true, share(&pred)))?;
            let else_case = add_ctx(else_case, &Assumption::InIf(false, share(&pred)))?;
            Ok(Rc::new(Expr::If(pred, then_case, else_case)))
        },
        Expr::Let(bound, body) => {
            let bound = add_ctx(bound, ctx)?;
            let body = add_ctx(body, &Assumption::InLet(share(&bound)))?;
            Ok(Rc::new(Expr::Let(bound, body)))
        },
        Expr::DoWhile(inputs, body) => {
            let inputs = add_ctx(inputs, ctx)?;
            let tagged = add_ctx(body, &Assumption::InLoop(share(&inputs), share(body)))?;
            Ok(Rc::new(Expr::DoWhile(inputs, tagged)))
        },
        Expr::Assume(_, _) => Err(ContextError::NotContextFree),
        Expr::Function(_, _, _, _) => Err(ContextError::NotContextFree),
    }
}

/// Tags the body of the function `func` for the scope of the function.
pub fn func_add_context(func: &RcExpr) -> (r: Result<RcExpr, ContextError>)
    ensures
        match r {
            Ok(tagged) => {
                &&& func@ matches ExprModel::Function(_, _, _, body)
                &&& context_free(*body)
                &&& tagged@ == function_with_context(func@)
            },
            Err(ContextError::NotAFunction) => !(func@ is Function),
            Err(ContextError::NotContextFree) => {
                &&& func@ matches ExprModel::Function(_, _, _, body)
                &&& !context_free(*body)
            },
        },
{
    match &**func {
        Expr::Function(name, arg_ty, ret_ty, body) => {
            let body = add_ctx(body, &Assumption::InFunc(name.clone()))?;
            Ok(Rc::new(Expr::Function(name.clone(), arg_ty.clone(), ret_ty.clone(), body)))
        },
        _ => Err(ContextError::NotAFunction),
    }
}

/// Why the function `f` cannot be tagged, if it cannot.
pub open spec fn function_error(f: ExprModel) -> Option<ContextError> {
    match f {
        ExprModel::Function(_, _, _, body) => if context_free(*body) {
            None
        } else {
            Some(ContextError::NotContextFree)
        },
        _ => Some(ContextError::NotAFunction),
    }
}

/// The functions of a program in the order in which they are tagged: the
/// entry comes last.
pub open spec fn tagging_order(program: TreeProgram) -> Seq<ExprModel> {
    expr_models(program.functions@).push(program.entry@)
}

impl TreeProgram {
    /// Tags every function of the program, the entry last. The first
    /// function that cannot be tagged gives the error.
    pub fn add_context(&self) -> (r: Result<TreeProgram, ContextError>)
        ensures
            match r {
                Ok(tagged) => {
                    &&& forall|k: int|
                        0 <= k < tagging_order(*self).len() ==> function_error(
                            #[trigger] tagging_order(*self)[k],
                        ) is None
                    &&& tagged.entry@ == function_with_context(self.entry@)
                    &&& tagged.functions.len() == self.functions.len()
                    &&& forall|k: int|
                        0 <= k < self.functions.len() ==> (#[trigger] tagged.functions[k])@
                            == function_with_context(self.functions[k]@)
                },
                Err(e) => exists|k: int|
                    {
                        &&& 0 <= k < tagging_order(*self).len()
                        &&& function_error(#[trigger] tagging_order(*self)[k]) == Some(e)
                        &&& forall|j: int|
                            0 <= j < k ==> function_error(#[trigger] tagging_order(*self)[j])
                                is None
                    },
            },
    {
        let mut functions: Vec<RcExpr> = Vec::new();
        let mut i: usize = 0;
        while i < self.functions.len()
            invariant
                i <= self.functions.len(),
                functions.len() == i,
                forall|k: int|
                    0 <= k < i ==> function_error(#[trigger] tagging_order(*self)[k]) is None,
                forall|k: int|
                    0 <= k < i ==> (#[trigger] functions[k])@ == function_with_context(
                        self.functions[k]@,
                    ),
            decreases self.functions.len() - i,
        {
            match func_add_context(&self.functions[i]) {
                Ok(tagged) => {
                    functions.push(tagged);
                },
                Err(e) => {
                    assert(function_error(tagging_order(*self)[i as int]) == Some(e));
                    return Err(e);
                },
            }
            i += 1;
        }
        match func_add_context(&self.entry) {
            Ok(entry) => Ok(TreeProgram { entry, functions }),
            Err(e) => {
                assert(function_error(tagging_order(*self)[self.functions.len() as int]) == Some(
                    e,
                ));
                Err(e)
            },
        }
    }
}

/// Whether some expression of `es`, from position `from` on, is scoped.
pub open spec fn any_scoped(es: Seq<ExprModel>, from: int) -> bool
    decreases es, es.len() - from,
{
    if from < 0 || from >= es.len() {
        false
    } else {
        scoped(es[from]) || any_scoped(es, from + 1)
    }
}

/// Whether some constant or argument inside `e` stands in the scope that
/// `e` itself stands in, or in a scope that is made from it.
pub open spec fn scoped(e: ExprModel) -> bool
    decreases e,
{
    match e {
        ExprModel::Const(_) => true,
        ExprModel::Arg => true,
        ExprModel::Empty => false,
        ExprModel::Bop(_, l, r) => scoped(*l) || scoped(*r),
        ExprModel::Uop(_, x) => scoped(*x),
        ExprModel::Get(x, _) => scoped(*x),
        ExprModel::Alloc(x, _) => scoped(*x),
        ExprModel::Call(_, x) => scoped(*x),
        ExprModel::Single(x) => scoped(*x),
        ExprModel::Concat(_, l, r) => scoped(*l) || scoped(*r),
        ExprModel::Switch(pred, cases) => scoped(*pred) || any_scoped(cases, 0),
        ExprModel::If(pred, _, _) => scoped(*pred),
        ExprModel::Let(bound, _) => scoped(*bound),
        ExprModel::DoWhile(inputs, _) => scoped(*inputs),
        ExprModel::Assume(_, _) => false,
        ExprModel::Function(_, _, _, _) => false,
    }
}

/// A scoped expression among `es` from `from` on, where there is one.
proof fn lemma_scoped_witness(es: Seq<ExprModel>, from: int) -> (k: int)
    requires
        any_scoped(es, from),
    ensures
        from <= k < es.len(),
        0 <= k,
        scoped(es[k]),
    decreases es.len() - from,
{
    if scoped(es[from]) {
        from
    } else {
        lemma_scoped_witness(es, from + 1)
    }
}

/// No expression of `es` from `from` on is scoped, where none is.
proof fn lemma_none_scoped(es: Seq<ExprModel>, from: int, k: int)
    requires
        !any_scoped(es, from),
        0 <= from <= k < es.len(),
    ensures
        !scoped(es[k]),
    decreases es.len() - from,
{
    if from < k {
        lemma_none_scoped(es, from + 1, k);
    }
}

/// An expression that holds a constant or an argument in its own scope
/// comes out different under different assumptions, so the two tagged
/// expressions are never one tree node.
pub proof fn lemma_context_distinct(e: ExprModel, c1: AssumptionModel, c2: AssumptionModel)
    requires
        c1 != c2,
        scoped(e),
    ensures
        with_context(e, c1) != with_context(e, c2),
    decreases e,
{
    match e {
        ExprModel::Bop(_, l, r) => {
            if scoped(*l) {
                lemma_context_distinct(*l, c1, c2);
            } else {
                lemma_context_distinct(*r, c1, c2);
            }
        },
        ExprModel::Uop(_, x) => lemma_context_distinct(*x, c1, c2),
        ExprModel::Get(x, _) => lemma_context_distinct(*x, c1, c2),
        ExprModel::Alloc(x, _) => lemma_context_distinct(*x, c1, c2),
        ExprModel::Call(_, x) => lemma_context_distinct(*x, c1, c2),
        ExprModel::Single(x) => lemma_context_distinct(*x, c1, c2),
        ExprModel::Concat(_, l, r) => {
            if scoped(*l) {
                lemma_context_distinct(*l, c1, c2);
            } else {
                lemma_context_distinct(*r, c1, c2);
            }
        },
        ExprModel::Switch(pred, cases) => {
            if scoped(*pred) {
                lemma_context_distinct(*pred, c1, c2);
            } else {
                let k = lemma_scoped_witness(cases, 0);
                lemma_context_distinct(cases[k], c1, c2);
                assert(with_context(e, c1)->Switch_1[k] == with_context(cases[k], c1));
                assert(with_context(e, c2)->Switch_1[k] == with_context(cases[k], c2));
            }
        },
        ExprModel::If(pred, _, _) => lemma_context_distinct(*pred, c1, c2),
        ExprModel::Let(bound, _) => lemma_context_distinct(*bound, c1, c2),
        ExprModel::DoWhile(inputs, _) => lemma_context_distinct(*inputs, c1, c2),
        _ => {},
    }
}

/// An expression that holds no constant and no argument in its own scope
/// comes out the same under every assumption.
pub proof fn lemma_context_irrelevant(e: ExprModel, c1: AssumptionModel, c2: AssumptionModel)
    requires
        !scoped(e),
    ensures
        with_context(e, c1) == with_context(e, c2),
    decreases e,
{
    match e {
        ExprModel::Bop(_, l, r) => {
            lemma_context_irrelevant(*l, c1, c2);
            lemma_context_irrelevant(*r, c1, c2);
        },
        ExprModel::Uop(_, x) => lemma_context_irrelevant(*x, c1, c2),
        ExprModel::Get(x, _) => lemma_context_irrelevant(*x, c1, c2),
        ExprModel::Alloc(x, _) => lemma_context_irrelevant(*x, c1, c2),
        ExprModel::Call(_, x) => lemma_context_irrelevant(*x, c1, c2),
        ExprModel::Single(x) => lemma_context_irrelevant(*x, c1, c2),
        ExprModel::Concat(_, l, r) => {
            lemma_context_irrelevant(*l, c1, c2);
            lemma_context_irrelevant(*r, c1, c2);
        },
        ExprModel::Switch(pred, cases) => {
            lemma_context_irrelevant(*pred, c1, c2);
            assert forall|k: int| 0 <= k < cases.len() implies with_context(cases[k], c1)
                == with_context(cases[k], c2) by {
                lemma_none_scoped(cases, 0, k);
                lemma_context_irrelevant(cases[k], c1, c2);
            }
            assert(with_context(e, c1)->Switch_1 =~= with_context(e, c2)->Switch_1);
        },
        ExprModel::If(pred, _, _) => lemma_context_irrelevant(*pred, c1, c2),
        ExprModel::Let(bound, _) => lemma_context_irrelevant(*bound, c1, c2),
        ExprModel::DoWhile(inputs, _) => lemma_context_irrelevant(*inputs, c1, c2),
        _ => {},
    }
}

/// The two arms of one if: where both arms are the same expression, and it
/// holds a constant or an argument in its own scope, the tagged arms
/// differ.
pub proof fn lemma_if_arms_distinct(pred: ExprModel, arm: ExprModel, ctx: AssumptionModel)
    requires
        scoped(arm),
    ensures
        with_context(
            ExprModel::If(Box::new(pred), Box::new(arm), Box::new(arm)),
            ctx,
        ) matches ExprModel::If(_, then_case, else_case) && then_case != else_case,
{
    let tagged = with_context(pred, ctx);
    lemma_context_distinct(
        arm,
        AssumptionModel::InIf(true, Box::new(tagged)),
        AssumptionModel::InIf(false, Box::new(tagged)),
    );
}

/// The expression `e` with every assumption taken off.
pub open spec fn without_context(e: ExprModel) -> ExprModel
    decreases e,
{
    match e {
        ExprModel::Const(_) => e,
        ExprModel::Arg => e,
        ExprModel::Empty => e,
        ExprModel::Bop(op, l, r) => ExprModel::Bop(
            op,
            Box::new(without_context(*l)),
            Box::new(without_context(*r)),
        ),
        ExprModel::Uop(op, x) => ExprModel::Uop(op, Box::new(without_context(*x))),
        ExprModel::Get(x, i) => ExprModel::Get(Box::new(without_context(*x)), i),
        ExprModel::Alloc(x, ty) => ExprModel::Alloc(Box::new(without_context(*x)), ty),
        ExprModel::Call(name, x) => ExprModel::Call(name, Box::new(without_context(*x))),
        ExprModel::Single(x) => ExprModel::Single(Box::new(without_context(*x))),
        ExprModel::Concat(order, l, r) => ExprModel::Concat(
            order,
            Box::new(without_context(*l)),
            Box::new(without_context(*r)),
        ),
        ExprModel::Switch(pred, cases) => ExprModel::Switch(
            Box::new(without_context(*pred)),
            Seq::new(
                cases.len(),
                |i: int|
                    if 0 <= i < cases.len() {
                        without_context(cases[i])
                    } else {
                        ExprModel::Empty
                    },
            ),
        ),
        ExprModel::If(pred, then_case, else_case) => ExprModel::If(
            Box::new(without_context(*pred)),
            Box::new(without_context(*then_case)),
            Box::new(without_context(*else_case)),
        ),
        ExprModel::Let(bound, body) => ExprModel::Let(
            Box::new(without_context(*bound)),
            Box::new(without_context(*body)),
        ),
        ExprModel::DoWhile(inputs, body) => ExprModel::DoWhile(
            Box::new(without_context(*inputs)),
            Box::new(without_context(*body)),
        ),
        ExprModel::Assume(_, x) => without_context(*x),
        ExprModel::Function(name, arg_ty, ret_ty, body) => ExprModel::Function(
            name,
            arg_ty,
            ret_ty,
            Box::new(without_context(*body)),
        ),
    }
}

/// Each of `es` from `from` on is free of context, where all are.
proof fn lemma_each_context_free(es: Seq<ExprModel>, from: int, k: int)
    requires
        all_context_free(es, from),
        0 <= from <= k < es.len(),
    ensures
        context_free(es[k]),
    decreases es.len() - from,
{
    if from < k {
        lemma_each_context_free(es, from + 1, k);
    }
}

/// Tagging only adds: with the assumptions taken off again, the tagged
/// expression is the expression that was tagged.
pub proof fn lemma_tagging_only_adds(e: ExprModel, ctx: AssumptionModel)
    requires
        context_free(e),
    ensures
        without_context(with_context(e, ctx)) == e,
    decreases e,
{
    match e {
        ExprModel::Const(_) | ExprModel::Arg => {
            assert(without_context(e) == e);
        },
        ExprModel::Bop(_, l, r) => {
            lemma_tagging_only_adds(*l, ctx);
            lemma_tagging_only_adds(*r, ctx);
        },
        ExprModel::Uop(_, x) => lemma_tagging_only_adds(*x, ctx),
        ExprModel::Get(x, _) => lemma_tagging_only_adds(*x, ctx),
        ExprModel::Alloc(x, _) => lemma_tagging_only_adds(*x, ctx),
        ExprModel::Call(_, x) => lemma_tagging_only_adds(*x, ctx),
        ExprModel::Single(x) => lemma_tagging_only_adds(*x, ctx),
        ExprModel::Concat(_, l, r) => {
            lemma_tagging_only_adds(*l, ctx);
            lemma_tagging_only_adds(*r, ctx);
        },
        ExprModel::Switch(pred, cases) => {
            lemma_tagging_only_adds(*pred, ctx);
            let tagged = with_context(e, ctx)->Switch_1;
            assert forall|k: int| 0 <= k < cases.len() implies without_context(tagged[k])
                == cases[k] by {
                lemma_each_context_free(cases, 0, k);
                lemma_tagging_only_adds(cases[k], ctx);
            }
            assert(without_context(with_context(e, ctx))->Switch_1 =~= cases);
        },
        ExprModel::If(pred, then_case, else_case) => {
            let tagged = with_context(*pred, ctx);
            lemma_tagging_only_adds(*pred, ctx);
            lemma_tagging_only_adds(*then_case, AssumptionModel::InIf(true, Box::new(tagged)));
            lemma_tagging_only_adds(*else_case, AssumptionModel::InIf(false, Box::new(tagged)));
        },
        ExprModel::Let(bound, body) => {
            let tagged = with_context(*bound, ctx);
            lemma_tagging_only_adds(*bound, ctx);
            lemma_tagging_only_adds(*body, AssumptionModel::InLet(Box::new(tagged)));
        },
        ExprModel::DoWhile(inputs, body) => {
            let tagged = with_context(*inputs, ctx);
            lemma_tagging_only_adds(*inputs, ctx);
            lemma_tagging_only_adds(*body, AssumptionModel::InLoop(Box::new(tagged), body));
        },
        _ => {},
    }
}

/// The cases of a tagged switch agree on the type on which the cases of
/// the switch agree.
proof fn lemma_tagged_cases_keep_their_type(
    pred: ExprModel,
    cases: Seq<ExprModel>,
    ctx: AssumptionModel,
    arg: TypeModel,
    k: nat,
)
    requires
        k <= cases.len(),
    ensures
        common_type_upto(
            with_context(ExprModel::Switch(Box::new(pred), cases), ctx)->Switch_1,
            arg,
            k,
        ) == common_type_upto(cases, arg, k),
    decreases cases, k,
{
    if k > 0 {
        lemma_tagged_cases_keep_their_type(pred, cases, ctx, arg, (k - 1) as nat);
        lemma_tagging_keeps_the_type(cases[k - 1], ctx, arg);
    }
}

/// Tagging does not change the type: the tagged expression has the type
/// of the expression that was tagged, or fails as it fails.
pub proof fn lemma_tagging_keeps_the_type(e: ExprModel, ctx: AssumptionModel, arg: TypeModel)
    ensures
        type_of(with_context(e, ctx), arg) == type_of(e, arg),
    decreases e, 0nat,
{
    match e {
        ExprModel::Const(_) | ExprModel::Arg => {
            assert(type_of(with_context(e, ctx), arg) == type_of(e, arg));
        },
        ExprModel::Bop(_, l, r) => {
            lemma_tagging_keeps_the_type(*l, ctx, arg);
            lemma_tagging_keeps_the_type(*r, ctx, arg);
        },
        ExprModel::Uop(_, x) => lemma_tagging_keeps_the_type(*x, ctx, arg),
        ExprModel::Get(x, _) => lemma_tagging_keeps_the_type(*x, ctx, arg),
        ExprModel::Single(x) => lemma_tagging_keeps_the_type(*x, ctx, arg),
        ExprModel::Concat(_, l, r) => {
            lemma_tagging_keeps_the_type(*l, ctx, arg);
            lemma_tagging_keeps_the_type(*r, ctx, arg);
        },
        ExprModel::Switch(pred, cases) => {
            lemma_tagging_keeps_the_type(*pred, ctx, arg);
            lemma_tagged_cases_keep_their_type(*pred, cases, ctx, arg, cases.len());
        },
        ExprModel::If(pred, then_case, else_case) => {
            let tagged = with_context(*pred, ctx);
            lemma_tagging_keeps_the_type(*pred, ctx, arg);
            lemma_tagging_keeps_the_type(
                *then_case,
                AssumptionModel::InIf(true, Box::new(tagged)),
                arg,
            );
            lemma_tagging_keeps_the_type(
                *else_case,
                AssumptionModel::InIf(false, Box::new(tagged)),
                arg,
            );
        },
        ExprModel::Let(bound, body) => {
            let tagged = with_context(*bound, ctx);
            lemma_tagging_keeps_the_type(*bound, ctx, arg);
            if let Ok(bound_ty) = type_of(*bound, arg) {
                lemma_tagging_keeps_the_type(
                    *body,
                    AssumptionModel::InLet(Box::new(tagged)),
                    bound_ty,
                );
            }
        },
        ExprModel::DoWhile(inputs, body) => {
            let tagged = with_context(*inputs, ctx);
            lemma_tagging_keeps_the_type(*inputs, ctx, arg);
            if let Ok(inputs_ty) = type_of(*inputs, arg) {
                lemma_tagging_keeps_the_type(
                    *body,
                    AssumptionModel::InLoop(Box::new(tagged), body),
                    inputs_ty,
                );
            }
        },
        _ => {},
    }
}

} // verus!
