use eggcc::add_context::{add_ctx, func_add_context, ContextError};
use eggcc::ast::{
    arg, dowhile, empty, function, getat, inif, infunc, inlet, inloop, intt, parallel_vec,
    program_vec, single, switch_vec, tassume, tfalse, tif, tint, tlet, ttrue, tuplet_vec,
};
use eggcc::schema::{BaseType, Expr, RcExpr, Type};
use eggcc::type_analysis::type_of_expr;

fn int_tuple() -> Type {
    tuplet_vec(vec![BaseType::IntT])
}

/// The type of the body of `func` under its declared argument type.
fn checks(func: &RcExpr) -> bool {
    match &**func {
        Expr::Function(_, arg_ty, ret_ty, _) => type_of_expr(func, arg_ty).as_ref() == Ok(ret_ty),
        _ => false,
    }
}

#[test]
fn test_in_context_in_func() {
    let expr = function("main", intt(), intt(), tint(2));
    let expected = function("main", intt(), intt(), tassume(infunc("main"), tint(2)));
    assert_eq!(func_add_context(&expr), Ok(expected.clone()));
    assert!(checks(&expr));
    assert!(checks(&expected));
}

#[test]
fn test_in_context_two_lets() {
    let expr = function(
        "main",
        intt(),
        intt(),
        tlet(
            tint(1),
            tlet(
                eggcc::ast::add(arg(), arg()),
                eggcc::ast::mul(arg(), tint(2)),
            ),
        ),
    );
    let int1 = tassume(infunc("main"), tint(1));
    let arg1 = tassume(inlet(int1.clone()), arg());
    let addarg1 = eggcc::ast::add(arg1.clone(), arg1.clone());
    let int2 = tassume(inlet(addarg1.clone()), tint(2));
    let arg2 = tassume(inlet(addarg1.clone()), arg());
    let expr2 = function(
        "main",
        intt(),
        intt(),
        tlet(
            int1,
            tlet(
                eggcc::ast::add(arg1.clone(), arg1.clone()),
                eggcc::ast::mul(arg2.clone(), int2.clone()),
            ),
        ),
    );
    assert_eq!(func_add_context(&expr), Ok(expr2.clone()));
    assert!(checks(&expr));
    assert!(checks(&expr2));
}

#[test]
fn test_switch_contexts() {
    let expr = function("main", intt(), intt(), tif(ttrue(), tint(1), tint(2)));
    let pred = tassume(infunc("main"), ttrue());
    let expr2 = function(
        "main",
        intt(),
        intt(),
        tif(
            pred.clone(),
            tassume(inif(true, pred.clone()), tint(1)),
            tassume(inif(false, pred.clone()), tint(2)),
        ),
    );
    assert_eq!(func_add_context(&expr), Ok(expr2.clone()));
    assert!(checks(&expr));
    assert!(checks(&expr2));
}

#[test]
fn test_dowhile_cycle_in_context() {
    // the loop runs one iteration and returns 3
    let myloop = dowhile(arg(), parallel_vec(vec![tfalse(), tint(3)]));
    let expr = function("main", int_tuple(), int_tuple(), myloop);

    let fargincontext = tassume(infunc("main"), arg());
    let inner_in_context = inloop(fargincontext.clone(), parallel_vec(vec![tfalse(), tint(3)]));
    let expr2 = function(
        "main",
        int_tuple(),
        int_tuple(),
        dowhile(
            fargincontext.clone(),
            parallel_vec(vec![
                tassume(inner_in_context.clone(), tfalse()),
                tassume(inner_in_context.clone(), tint(3)),
            ]),
        ),
    );
    // the body of the untagged function holds no assumption
    match &*expr {
        Expr::Function(_, _, _, body) => assert!(add_ctx(body, &infunc("main")).is_ok()),
        _ => panic!("not a function"),
    }
    assert_eq!(func_add_context(&expr), Ok(expr2.clone()));
    // and the body of the tagged one does
    match &*expr2 {
        Expr::Function(_, _, _, body) => {
            assert_eq!(add_ctx(body, &infunc("main")), Err(ContextError::NotContextFree))
        }
        _ => panic!("not a function"),
    }
    assert!(checks(&expr));
    assert!(checks(&expr2));
}

#[test]
fn tagged_body_is_not_tagged_again() {
    let tagged = function("main", intt(), intt(), tassume(infunc("main"), tint(2)));
    assert_eq!(func_add_context(&tagged), Err(ContextError::NotContextFree));
}

#[test]
fn only_functions_are_tagged_as_functions() {
    assert_eq!(func_add_context(&tint(2)), Err(ContextError::NotAFunction));
    let nested = function("outer", intt(), intt(), function("inner", intt(), intt(), tint(1)));
    assert_eq!(func_add_context(&nested), Err(ContextError::NotContextFree));
}

#[test]
fn empty_tuple_takes_no_tag() {
    let ctx = infunc("main");
    assert_eq!(add_ctx(&empty(), &ctx), Ok(empty()));
    assert_eq!(
        add_ctx(&single(tint(1)), &ctx),
        Ok(single(tassume(infunc("main"), tint(1))))
    );
}

#[test]
fn switch_cases_stay_in_the_scope_of_the_switch() {
    let ctx = infunc("f");
    let expr = switch_vec(getat(0), vec![tint(1), tint(2), arg()]);
    let tag = |e: RcExpr| tassume(infunc("f"), e);
    let expected = switch_vec(
        eggcc::ast::get(tag(arg()), 0),
        vec![tag(tint(1)), tag(tint(2)), tag(arg())],
    );
    assert_eq!(add_ctx(&expr, &ctx), Ok(expected));
}

#[test]
fn same_expression_under_two_assumptions_gives_two_trees() {
    let body = eggcc::ast::add(arg(), tint(1));
    let then_tagged = add_ctx(&body, &inif(true, ttrue())).unwrap();
    let else_tagged = add_ctx(&body, &inif(false, ttrue())).unwrap();
    assert_ne!(then_tagged, else_tagged);

    let branch = tif(ttrue(), body.clone(), body);
    match &*add_ctx(&branch, &infunc("main")).unwrap() {
        Expr::If(_, then_case, else_case) => assert_ne!(then_case, else_case),
        _ => panic!("not an if"),
    }
    // with no constant and no argument in scope there is nothing to tag
    assert_eq!(
        add_ctx(&empty(), &inif(true, ttrue())),
        add_ctx(&empty(), &inif(false, ttrue()))
    );
}

#[test]
fn program_is_tagged_function_by_function() {
    let main = function("main", intt(), intt(), arg());
    let helper = function("helper", intt(), intt(), tint(7));
    let program = program_vec(main, vec![helper]);
    let tagged = program.add_context().unwrap();
    assert_eq!(
        tagged.entry,
        function("main", intt(), intt(), tassume(infunc("main"), arg()))
    );
    assert_eq!(
        tagged.functions,
        vec![function("helper", intt(), intt(), tassume(infunc("helper"), tint(7)))]
    );

    let broken = program_vec(tint(1), vec![function("f", intt(), intt(), tassume(infunc("f"), arg()))]);
    assert_eq!(broken.add_context().err(), Some(ContextError::NotContextFree));
    let broken = program_vec(tint(1), vec![]);
    assert_eq!(broken.add_context().err(), Some(ContextError::NotAFunction));
}
