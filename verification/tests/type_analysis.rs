use eggcc::ast::{
    and, arg, boolt, concat_rev, dowhile, empty, emptyt, first, function, get, infunc, intt,
    less_than, load, not, or, parallel_vec, push_seq, single, switch_vec, tassume, tfalse, tif,
    tint, tlet, tprint, ttrue, tuplet_vec,
};
use eggcc::schema::{BaseType, RcExpr, Type};
use eggcc::type_analysis::{type_of_expr, types_equal, TypeError};

fn ty(e: &RcExpr) -> Result<Type, TypeError> {
    type_of_expr(e, &emptyt())
}

#[test]
fn simple_types() {
    let n = eggcc::ast::add(tint(1), tint(2));
    let m = eggcc::ast::mul(n.clone(), n.clone());
    let s = eggcc::ast::sub(n.clone(), m.clone());
    let x = less_than(m.clone(), n.clone());
    let y = not(x.clone());
    let z = and(x.clone(), or(y.clone(), y.clone()));

    assert_eq!(ty(&n), Ok(intt()));
    assert_eq!(ty(&m), Ok(intt()));
    assert_eq!(ty(&s), Ok(intt()));
    assert_eq!(ty(&x), Ok(boolt()));
    assert_eq!(ty(&y), Ok(boolt()));
    assert_eq!(ty(&z), Ok(boolt()));
}

#[test]
fn switch() {
    let n1 = tint(1);
    let n2 = tint(3);
    let switch = switch_vec(
        not(less_than(n1.clone(), n2.clone())),
        vec![
            eggcc::ast::add(n1.clone(), n1.clone()),
            eggcc::ast::sub(n1.clone(), n2.clone()),
            eggcc::ast::mul(n2.clone(), n2.clone()),
        ],
    );
    assert_eq!(ty(&switch), Ok(intt()));
}

#[test]
fn tuple() {
    let n = eggcc::ast::add(tint(1), tint(2));
    let m = eggcc::ast::mul(n.clone(), n.clone());
    let x = less_than(m.clone(), n.clone());
    let y = not(x.clone());
    let z = and(x.clone(), or(y.clone(), y.clone()));

    let tup1 = empty();
    let tup2 = push_seq(z.clone(), empty());
    let tup3 = parallel_vec(vec![x.clone(), m.clone()]);
    let tup4 = parallel_vec(vec![tup2.clone(), tup3.clone()]);

    let get1 = get(tup3.clone(), 0);
    let get2 = get(tup3.clone(), 1);
    let get3 = get(get(tup4.clone(), 1), 1);

    assert_eq!(ty(&tup1), Ok(Type::TupleT(vec![])));
    assert_eq!(ty(&tup2), Ok(Type::TupleT(vec![boolt()])));
    assert_eq!(ty(&tup3), Ok(Type::TupleT(vec![boolt(), intt()])));
    assert_eq!(
        ty(&tup4),
        Ok(Type::TupleT(vec![
            Type::TupleT(vec![boolt()]),
            Type::TupleT(vec![boolt(), intt()]),
        ]))
    );

    assert_eq!(ty(&get1), Ok(boolt()));
    assert_eq!(ty(&get2), Ok(intt()));
    assert_eq!(ty(&get3), Ok(intt()));
}

#[test]
fn get_outside_the_tuple_fails() {
    let tup = parallel_vec(vec![ttrue(), tint(1)]);
    assert_eq!(ty(&get(tup.clone(), 2)), Err(TypeError::IndexOutOfRange));
    assert_eq!(ty(&get(tint(1), 0)), Err(TypeError::NotATuple));
    assert_eq!(ty(&get(get(tup, 0), 0)), Err(TypeError::NotATuple));
}

#[test]
fn two_way_switch_over_integers_is_an_integer() {
    let switch = switch_vec(tint(0), vec![tint(10), tint(20)]);
    assert_eq!(ty(&switch), Ok(intt()));
}

#[test]
fn switch_cases_must_agree() {
    let switch = switch_vec(tint(0), vec![tint(10), ttrue()]);
    assert_eq!(ty(&switch), Err(TypeError::Mismatch));
    let switch = switch_vec(tint(0), vec![tint(10), tint(3), single(tint(1))]);
    assert_eq!(ty(&switch), Err(TypeError::Mismatch));
    assert_eq!(ty(&switch_vec(tint(0), vec![])), Err(TypeError::EmptySwitch));
    assert_eq!(ty(&switch_vec(empty(), vec![tint(1)])), Err(TypeError::Mismatch));
    let inner_fails = switch_vec(tint(0), vec![tint(10), not(tint(1)), ttrue()]);
    assert_eq!(ty(&inner_fails), Err(TypeError::Mismatch));
    let untyped_case = switch_vec(tint(0), vec![tint(10), load(tint(1))]);
    assert_eq!(ty(&untyped_case), Err(TypeError::Untyped));
}

#[test]
fn operands_must_have_the_type_of_the_operator() {
    assert_eq!(ty(&eggcc::ast::add(tint(1), ttrue())), Err(TypeError::Mismatch));
    assert_eq!(ty(&less_than(ttrue(), tint(1))), Err(TypeError::Mismatch));
    assert_eq!(ty(&and(tint(1), ttrue())), Err(TypeError::Mismatch));
    assert_eq!(ty(&not(tint(1))), Err(TypeError::Mismatch));
    assert_eq!(ty(&tif(tint(1), tint(1), tint(2))), Err(TypeError::Mismatch));
    assert_eq!(ty(&tif(ttrue(), tint(1), tfalse())), Err(TypeError::Mismatch));
    assert_eq!(ty(&tif(tfalse(), tint(1), tint(2))), Ok(intt()));
}

#[test]
fn order_of_evaluation_does_not_change_the_type() {
    let reversed = concat_rev(single(tint(1)), single(ttrue()));
    assert_eq!(ty(&reversed), Ok(Type::TupleT(vec![intt(), boolt()])));
    assert_eq!(ty(&concat_rev(tint(1), empty())), Err(TypeError::NotATuple));
}

#[test]
fn argument_has_the_type_of_its_scope() {
    assert_eq!(type_of_expr(&arg(), &boolt()), Ok(boolt()));
    let pair = tuplet_vec(vec![BaseType::IntT, BaseType::BoolT]);
    assert_eq!(type_of_expr(&first(arg()), &pair), Ok(intt()));
    // the body of a let is typed under the bound value
    let bound = tlet(ttrue(), not(arg()));
    assert_eq!(type_of_expr(&bound, &intt()), Ok(boolt()));
    assert_eq!(ty(&tassume(infunc("f"), tint(1))), Ok(intt()));
}

#[test]
fn loop_body_yields_a_flag_and_the_carried_values() {
    let carried = tuplet_vec(vec![BaseType::IntT]);
    let body = parallel_vec(vec![tfalse(), first(arg())]);
    assert_eq!(type_of_expr(&dowhile(arg(), body), &carried), Ok(carried.clone()));
    let no_flag = parallel_vec(vec![first(arg())]);
    assert_eq!(type_of_expr(&dowhile(arg(), no_flag), &carried), Err(TypeError::Mismatch));
    let wrong = parallel_vec(vec![tfalse(), ttrue()]);
    assert_eq!(type_of_expr(&dowhile(arg(), wrong), &carried), Err(TypeError::Mismatch));
    assert_eq!(type_of_expr(&dowhile(tint(1), tint(2)), &carried), Err(TypeError::NotATuple));
}

#[test]
fn function_body_must_have_the_declared_type() {
    let good = function("f", intt(), boolt(), less_than(arg(), tint(3)));
    assert_eq!(ty(&good), Ok(boolt()));
    let bad = function("f", intt(), intt(), less_than(arg(), tint(3)));
    assert_eq!(ty(&bad), Err(TypeError::Mismatch));
}

#[test]
fn effects_and_memory_have_no_rule() {
    assert_eq!(ty(&tprint(tint(1))), Err(TypeError::Untyped));
    assert_eq!(ty(&load(tint(1))), Err(TypeError::Untyped));
    assert_eq!(ty(&eggcc::ast::write(tint(1), tint(2))), Err(TypeError::Untyped));
    assert_eq!(ty(&eggcc::ast::ptradd(tint(1), tint(2))), Err(TypeError::Untyped));
    assert_eq!(ty(&eggcc::ast::talloc(tint(1), intt())), Err(TypeError::Untyped));
    assert_eq!(ty(&eggcc::ast::call("f", tint(1))), Err(TypeError::Untyped));
}

#[test]
fn types_compare_by_structure() {
    let a = Type::TupleT(vec![intt(), Type::TupleT(vec![boolt()])]);
    let b = Type::TupleT(vec![intt(), Type::TupleT(vec![boolt()])]);
    let c = Type::TupleT(vec![intt(), Type::TupleT(vec![intt()])]);
    assert!(types_equal(&a, &b));
    assert!(!types_equal(&a, &c));
    assert!(!types_equal(&a, &intt()));
    assert!(!types_equal(&Type::TupleT(vec![]), &Type::TupleT(vec![intt()])));
    assert_eq!(a.clone(), a);
}
