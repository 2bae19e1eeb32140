use eggcc::ast::{
    and, arg, boolt, concat_par, concat_rev, concat_seq, cons_par, dowhile, empty, emptyt, first,
    function, get, getat, inif, infunc, inlet, inloop, intt, less_than, load, not, or,
    parallel_vec, program_vec, ptradd, push_par, push_rev, push_seq, second, single, switch_vec,
    talloc, tassume, tfalse, tif, tint, tlet, tprint, ttrue, tuplet_vec, twrite,
};
use eggcc::schema::{
    Assumption, BaseType, BinaryOp, Constant, Expr, Order, RcExpr, Type, UnaryOp,
};
use std::rc::Rc;

fn rc(e: Expr) -> RcExpr {
    Rc::new(e)
}

#[test]
fn add_builds_a_binary_node() {
    let e = eggcc::ast::add(tint(1), tint(2));
    match &*e {
        Expr::Bop(BinaryOp::Add, l, r) => {
            assert_eq!(**l, Expr::Const(Constant::Int(1)));
            assert_eq!(**r, Expr::Const(Constant::Int(2)));
        }
        _ => panic!("not an addition"),
    }
}

#[test]
fn types() {
    assert_eq!(intt(), Type::Base(BaseType::IntT));
    assert_eq!(boolt(), Type::Base(BaseType::BoolT));
    assert_eq!(emptyt(), Type::TupleT(vec![]));
    assert_eq!(
        tuplet_vec(vec![BaseType::IntT, BaseType::BoolT]),
        Type::TupleT(vec![Type::Base(BaseType::IntT), Type::Base(BaseType::BoolT)])
    );
    assert_eq!(tuplet_vec(vec![]), emptyt());
}

#[test]
fn constants_and_argument() {
    assert_eq!(tint(-7), rc(Expr::Const(Constant::Int(-7))));
    assert_eq!(ttrue(), rc(Expr::Const(Constant::Bool(true))));
    assert_eq!(tfalse(), rc(Expr::Const(Constant::Bool(false))));
    assert_eq!(arg(), rc(Expr::Arg));
    assert_eq!(empty(), rc(Expr::Empty));
}

#[test]
fn binary_operators_keep_the_order_of_their_operands() {
    let (l, r) = (tint(1), tint(2));
    let cases: Vec<(RcExpr, BinaryOp)> = vec![
        (eggcc::ast::add(l.clone(), r.clone()), BinaryOp::Add),
        (eggcc::ast::sub(l.clone(), r.clone()), BinaryOp::Sub),
        (eggcc::ast::mul(l.clone(), r.clone()), BinaryOp::Mul),
        (less_than(l.clone(), r.clone()), BinaryOp::LessThan),
        (and(l.clone(), r.clone()), BinaryOp::And),
        (or(l.clone(), r.clone()), BinaryOp::Or),
        (twrite(l.clone(), r.clone()), BinaryOp::Write),
        (eggcc::ast::write(l.clone(), r.clone()), BinaryOp::Write),
        (ptradd(l.clone(), r.clone()), BinaryOp::PtrAdd),
    ];
    for (built, op) in cases {
        assert_eq!(built, rc(Expr::Bop(op, l.clone(), r.clone())));
    }
}

#[test]
fn unary_operators() {
    let e = tint(1);
    assert_eq!(not(e.clone()), rc(Expr::Uop(UnaryOp::Not, e.clone())));
    assert_eq!(tprint(e.clone()), rc(Expr::Uop(UnaryOp::Print, e.clone())));
    assert_eq!(load(e.clone()), rc(Expr::Uop(UnaryOp::Load, e.clone())));
    assert_eq!(talloc(e.clone(), intt()), rc(Expr::Alloc(e.clone(), intt())));
    assert_eq!(eggcc::ast::call("f", e.clone()), rc(Expr::Call("f".to_string(), e)));
}

#[test]
fn projections() {
    let e = arg();
    assert_eq!(get(e.clone(), 5), rc(Expr::Get(e.clone(), 5)));
    assert_eq!(first(e.clone()), rc(Expr::Get(e.clone(), 0)));
    assert_eq!(second(e.clone()), rc(Expr::Get(e.clone(), 1)));
    assert_eq!(getat(3), rc(Expr::Get(arg(), 3)));
}

#[test]
fn tuples() {
    let (l, r) = (tint(1), empty());
    assert_eq!(single(l.clone()), rc(Expr::Single(l.clone())));
    assert_eq!(
        cons_par(l.clone(), r.clone()),
        rc(Expr::Concat(Order::Parallel, single(l.clone()), r.clone()))
    );
    assert_eq!(
        push_par(l.clone(), r.clone()),
        rc(Expr::Concat(Order::Parallel, r.clone(), single(l.clone())))
    );
    assert_eq!(
        push_seq(l.clone(), r.clone()),
        rc(Expr::Concat(Order::Sequential, r.clone(), single(l.clone())))
    );
    assert_eq!(
        push_rev(l.clone(), r.clone()),
        rc(Expr::Concat(Order::Reversed, r.clone(), single(l.clone())))
    );
    let (a, b) = (single(tint(1)), single(tint(2)));
    assert_eq!(
        concat_par(a.clone(), b.clone()),
        rc(Expr::Concat(Order::Parallel, a.clone(), b.clone()))
    );
    assert_eq!(
        concat_seq(a.clone(), b.clone()),
        rc(Expr::Concat(Order::Sequential, a.clone(), b.clone()))
    );
    assert_eq!(
        concat_rev(a.clone(), b.clone()),
        rc(Expr::Concat(Order::Reversed, a.clone(), b.clone()))
    );
}

#[test]
fn parallel_tuple_is_built_by_pushing() {
    assert_eq!(parallel_vec(vec![]), empty());
    let (a, b, c) = (tint(1), tint(2), tint(3));
    assert_eq!(
        parallel_vec(vec![a.clone(), b.clone(), c.clone()]),
        push_par(c, push_par(b, push_par(a, empty())))
    );
}

#[test]
fn control() {
    let (p, a, b) = (ttrue(), tint(1), tint(2));
    assert_eq!(
        tif(p.clone(), a.clone(), b.clone()),
        rc(Expr::If(p.clone(), a.clone(), b.clone()))
    );
    assert_eq!(
        switch_vec(p.clone(), vec![a.clone(), b.clone()]),
        rc(Expr::Switch(p.clone(), vec![a.clone(), b.clone()]))
    );
    assert_eq!(tlet(a.clone(), b.clone()), rc(Expr::Let(a.clone(), b.clone())));
    assert_eq!(dowhile(a.clone(), b.clone()), rc(Expr::DoWhile(a.clone(), b.clone())));
    assert_eq!(
        function("f", intt(), boolt(), p.clone()),
        rc(Expr::Function("f".to_string(), intt(), boolt(), p.clone()))
    );
    let program = program_vec(a.clone(), vec![b.clone(), p.clone()]);
    assert_eq!(program.entry, a);
    assert_eq!(program.functions, vec![b, p]);
}

#[test]
fn assumptions() {
    let (a, b) = (tint(1), tint(2));
    assert_eq!(inlet(a.clone()), Assumption::InLet(a.clone()));
    assert_eq!(inloop(a.clone(), b.clone()), Assumption::InLoop(a.clone(), b.clone()));
    assert_eq!(inif(true, a.clone()), Assumption::InIf(true, a.clone()));
    assert_eq!(inif(false, a.clone()), Assumption::InIf(false, a.clone()));
    assert_eq!(infunc("main"), Assumption::InFunc("main".to_string()));
    assert_eq!(
        tassume(infunc("main"), a.clone()),
        rc(Expr::Assume(Assumption::InFunc("main".to_string()), a))
    );
}
