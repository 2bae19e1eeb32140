use eggcc::bril::{ConstOps, Literal, Type, ValueOps};
use eggcc::rvsdg::decoding::{DecodeError, Shape};
use eggcc::rvsdg::from_egglog::{egglog_op_to_bril, vec_map, RvsdgFromEgglog};
use eggcc::rvsdg::to_egglog::op_to_egglog;
use eggcc::rvsdg::terms::{TermGraph, TermLit, TermNode};
use eggcc::rvsdg::{
    rows_same_width, BasicExpr, Operand, RvsdgBody, RvsdgFunction, RvsdgType,
};
use egglog::{Term, TermDag};

/// The term as a plain value.
fn read_term(term: &Term) -> TermNode {
    match term {
        Term::Lit(egglog::ast::Literal::Int(n)) => TermNode::Lit(TermLit::Int(*n)),
        Term::Lit(egglog::ast::Literal::F64(x)) => TermNode::Lit(TermLit::Float(x.0.to_bits())),
        Term::Lit(egglog::ast::Literal::String(s)) => TermNode::Lit(TermLit::Str(s.to_string())),
        Term::Lit(egglog::ast::Literal::Bool(b)) => TermNode::Lit(TermLit::Bool(*b)),
        Term::Lit(egglog::ast::Literal::Unit) => TermNode::Lit(TermLit::Unit),
        Term::Var(name) => TermNode::Var(name.to_string()),
        Term::App(head, children) => TermNode::App(head.to_string(), children.clone()),
    }
}

/// Every term of the arena as a plain value, in index order.
fn read_dag(dag: &TermDag) -> TermGraph {
    TermGraph { nodes: (0..dag.size()).map(|id| read_term(&dag.get(id))).collect() }
}

/// Decodes the function that the term stands for over the arena.
fn decode(term: Term, dag: &TermDag) -> Result<RvsdgFunction, DecodeError> {
    RvsdgFunction::egglog_term_to_function(&read_term(&term), &read_dag(dag))
}

fn app(dag: &mut TermDag, head: &str, children: Vec<Term>) -> Term {
    dag.app(head.into(), children)
}

fn int_lit(dag: &mut TermDag, n: i64) -> Term {
    dag.lit(egglog::ast::Literal::Int(n))
}

fn str_lit(dag: &mut TermDag, s: &str) -> Term {
    dag.lit(egglog::ast::Literal::String(s.into()))
}

fn arg(dag: &mut TermDag, position: i64) -> Term {
    let n = int_lit(dag, position);
    app(dag, "Arg", vec![n])
}

fn int_ty(dag: &mut TermDag) -> Term {
    app(dag, "IntT", vec![])
}

fn flat(dag: &mut TermDag, items: Vec<Term>) -> Term {
    app(dag, "vec-of", items)
}

/// The chain of pushes for `items`: the outermost push holds the last item.
fn chain(dag: &mut TermDag, items: Vec<Term>) -> Term {
    let mut list = app(dag, "vec-empty", vec![]);
    for item in items {
        list = app(dag, "vec-push", vec![item, list]);
    }
    list
}

fn vo(dag: &mut TermDag, list: Term) -> Term {
    app(dag, "VO", vec![list])
}

fn vvo(dag: &mut TermDag, list: Term) -> Term {
    app(dag, "VVO", vec![list])
}

fn const_node(dag: &mut TermDag, n: i64) -> Term {
    let ty = int_ty(dag);
    let op = app(dag, "const", vec![]);
    let num = int_lit(dag, n);
    let lit = app(dag, "Num", vec![num]);
    let expr = app(dag, "Const", vec![ty, op, lit]);
    let body = app(dag, "PureOp", vec![expr]);
    app(dag, "Node", vec![body])
}

fn signature(dag: &mut TermDag) -> Term {
    let int = int_ty(dag);
    let bril = app(dag, "Bril", vec![int]);
    let state = app(dag, "PrintState", vec![]);
    flat(dag, vec![bril, state])
}

fn func(dag: &mut TermDag, name: &str, sig: Term, output: Term) -> Term {
    let name = str_lit(dag, name);
    app(dag, "Func", vec![name, sig, output])
}

fn state_only(dag: &mut TermDag, state: Term) -> Term {
    app(dag, "StateOnly", vec![state])
}

fn const_body(n: i64) -> RvsdgBody {
    RvsdgBody::BasicOp(BasicExpr::Const(ConstOps::Const, Literal::Int(n), Type::Int))
}

/// A function whose state is the first output of the given body term.
fn function_of_body(dag: &mut TermDag, body: Term) -> Term {
    let zero = int_lit(dag, 0);
    let state = app(dag, "Project", vec![zero, body]);
    let sig = signature(dag);
    let output = state_only(dag, state);
    func(dag, "main", sig, output)
}

#[test]
fn decodes_a_function_with_a_value() {
    let mut dag = TermDag::default();
    let one = const_node(&mut dag, 1);
    let ty = int_ty(&mut dag);
    let a0 = arg(&mut dag, 0);
    let sum = app(&mut dag, "badd", vec![ty.clone(), a0, one]);
    let body = app(&mut dag, "PureOp", vec![sum]);
    let value = app(&mut dag, "Node", vec![body]);
    let state = arg(&mut dag, 1);
    let output = app(&mut dag, "StateAndValue", vec![state, ty, value]);
    let sig = signature(&mut dag);
    let term = func(&mut dag, "main", sig, output);

    let f = decode(term, &dag).unwrap();
    assert_eq!(f.name, "main");
    assert_eq!(f.n_args, 1);
    assert_eq!(f.args, vec![RvsdgType::Bril(Type::Int), RvsdgType::PrintState]);
    assert_eq!(
        f.nodes,
        vec![
            const_body(1),
            RvsdgBody::BasicOp(BasicExpr::Op(
                ValueOps::Add,
                vec![Operand::Arg(0), Operand::Id(0)],
                Type::Int
            )),
        ]
    );
    assert_eq!(f.result, Some((Type::Int, Operand::Id(1))));
    assert_eq!(f.state, Operand::Arg(1));
    assert!(f.is_well_formed());
}

#[test]
fn decodes_a_function_without_a_value() {
    let mut dag = TermDag::default();
    let state = arg(&mut dag, 0);
    let output = state_only(&mut dag, state);
    let print_state = app(&mut dag, "PrintState", vec![]);
    let sig = chain(&mut dag, vec![print_state]);
    let term = func(&mut dag, "empty", sig, output);

    let f = decode(term, &dag).unwrap();
    assert_eq!(f.name, "empty");
    assert_eq!(f.n_args, 0);
    assert_eq!(f.args, vec![RvsdgType::PrintState]);
    assert!(f.nodes.is_empty());
    assert_eq!(f.result, None);
    assert_eq!(f.state, Operand::Arg(0));
}

/// Decodes a theta whose outputs are the given list of constants.
fn theta_outputs(dag: &mut TermDag, outputs: Term) -> RvsdgFunction {
    let pred = arg(dag, 0);
    let empty = flat(dag, vec![]);
    let inputs = vo(dag, empty);
    let outputs = vo(dag, outputs);
    let theta = app(dag, "Theta", vec![pred, inputs, outputs]);
    let term = function_of_body(dag, theta);
    decode(term, dag).unwrap()
}

fn theta_of(f: &RvsdgFunction) -> Vec<Operand> {
    match f.nodes.last().unwrap() {
        RvsdgBody::Theta { outputs, .. } => outputs.clone(),
        other => panic!("not a theta: {:?}", other),
    }
}

/// The constants that the operands refer to, in the operands' order.
fn constants(f: &RvsdgFunction, ops: &[Operand]) -> Vec<i64> {
    ops.iter()
        .map(|op| match op {
            Operand::Id(id) => match &f.nodes[*id] {
                RvsdgBody::BasicOp(BasicExpr::Const(_, Literal::Int(n), _)) => *n,
                other => panic!("not a constant: {:?}", other),
            },
            other => panic!("not a node: {:?}", other),
        })
        .collect()
}

#[test]
fn flat_list_keeps_order() {
    let mut dag = TermDag::default();
    let items = vec![
        const_node(&mut dag, 10),
        const_node(&mut dag, 20),
        const_node(&mut dag, 30),
    ];
    let list = flat(&mut dag, items);
    let f = theta_outputs(&mut dag, list);
    let outputs = theta_of(&f);
    assert_eq!(outputs, vec![Operand::Id(0), Operand::Id(1), Operand::Id(2)]);
    assert_eq!(constants(&f, &outputs), vec![10, 20, 30]);
    assert!(f.is_well_formed());
}

#[test]
fn chain_list_keeps_order_and_pushes_the_last_element_first() {
    let mut dag = TermDag::default();
    let items = vec![
        const_node(&mut dag, 10),
        const_node(&mut dag, 20),
        const_node(&mut dag, 30),
    ];
    let list = chain(&mut dag, items);
    let f = theta_outputs(&mut dag, list);
    let outputs = theta_of(&f);
    assert_eq!(constants(&f, &outputs), vec![10, 20, 30]);
    assert_eq!(outputs, vec![Operand::Id(2), Operand::Id(1), Operand::Id(0)]);
    assert_eq!(f.nodes[0], const_body(30));
    assert!(f.is_well_formed());
}

#[test]
fn lists_of_length_zero_and_one_round_trip_in_both_forms() {
    for n in 0..2 {
        for chained in [false, true] {
            let mut dag = TermDag::default();
            let items: Vec<Term> = (0..n).map(|k| const_node(&mut dag, 7 + k)).collect();
            let list = if chained { chain(&mut dag, items) } else { flat(&mut dag, items) };
            let f = theta_outputs(&mut dag, list);
            let outputs = theta_of(&f);
            let expected: Vec<i64> = (0..n).map(|k| 7 + k).collect();
            assert_eq!(constants(&f, &outputs), expected);
        }
    }
}

#[test]
fn gamma_has_one_row_per_case() {
    let mut dag = TermDag::default();
    let pred = arg(&mut dag, 0);
    let a1 = arg(&mut dag, 1);
    let input_list = flat(&mut dag, vec![a1]);
    let inputs = vo(&mut dag, input_list);
    let mut rows = vec![];
    for case in 0..3 {
        let value = const_node(&mut dag, case);
        let state = arg(&mut dag, 0);
        let row = flat(&mut dag, vec![value, state]);
        rows.push(vo(&mut dag, row));
    }
    let row_list = chain(&mut dag, rows);
    let outputs = vvo(&mut dag, row_list);
    let gamma = app(&mut dag, "Gamma", vec![pred, inputs, outputs]);
    let term = function_of_body(&mut dag, gamma);

    let f = decode(term, &dag).unwrap();
    assert_eq!(f.nodes.len(), 4);
    match &f.nodes[3] {
        RvsdgBody::Gamma { pred, inputs, outputs } => {
            assert_eq!(*pred, Operand::Arg(0));
            assert_eq!(*inputs, vec![Operand::Arg(1)]);
            assert_eq!(outputs.len(), 3);
            assert!(outputs.iter().all(|row| row.len() == 2));
            let firsts: Vec<Operand> = outputs.iter().map(|row| row[0]).collect();
            assert_eq!(constants(&f, &firsts), vec![0, 1, 2]);
            assert!(outputs.iter().all(|row| row[1] == Operand::Arg(0)));
        }
        other => panic!("not a gamma: {:?}", other),
    }
    assert_eq!(f.state, Operand::Project(0, 3));
    assert!(f.is_well_formed());
}

/// Decodes a gamma whose rows list the given numbers of operands.
fn gamma_of_widths(widths: &[usize], chained: bool) -> Result<RvsdgFunction, DecodeError> {
    let mut dag = TermDag::default();
    let list = |dag: &mut TermDag, items: Vec<Term>| {
        if chained {
            chain(dag, items)
        } else {
            flat(dag, items)
        }
    };
    let pred = arg(&mut dag, 0);
    let none = flat(&mut dag, vec![]);
    let inputs = vo(&mut dag, none);
    let mut rows = vec![];
    for width in widths {
        let operands = (0..*width).map(|k| arg(&mut dag, k as i64)).collect();
        let row = list(&mut dag, operands);
        rows.push(vo(&mut dag, row));
    }
    let row_list = list(&mut dag, rows);
    let outputs = vvo(&mut dag, row_list);
    let gamma = app(&mut dag, "Gamma", vec![pred, inputs, outputs]);
    let term = function_of_body(&mut dag, gamma);
    decode(term, &dag)
}

#[test]
fn gamma_rows_of_different_widths_are_malformed() {
    for chained in [false, true] {
        for widths in [&[0usize, 1][..], &[1, 0], &[2, 2, 3], &[3, 2, 2], &[1, 2, 1]] {
            match gamma_of_widths(widths, chained) {
                Err(DecodeError::Malformed { expected: Shape::OperandRows, found }) => {
                    assert!(matches!(found, TermNode::App(head, _) if head == "VVO"))
                }
                other => panic!("unexpected for {:?}: {:?}", widths, other),
            }
        }
    }
}

#[test]
fn gamma_rows_of_one_width_decode() {
    for chained in [false, true] {
        for widths in [&[][..], &[0usize], &[0, 0], &[2], &[3, 3, 3]] {
            let f = gamma_of_widths(widths, chained).unwrap();
            match f.nodes.last().unwrap() {
                RvsdgBody::Gamma { outputs, .. } => {
                    assert_eq!(outputs.len(), widths.len());
                    for (row, width) in outputs.iter().zip(widths) {
                        let expected: Vec<Operand> = (0..*width).map(Operand::Arg).collect();
                        assert_eq!(*row, expected);
                    }
                    assert!(rows_same_width(outputs));
                }
                other => panic!("not a gamma: {:?}", other),
            }
        }
    }
}

#[test]
fn rows_of_one_width() {
    let row = |n: usize| vec![Operand::Arg(0); n];
    assert!(rows_same_width(&vec![]));
    assert!(rows_same_width(&vec![row(4)]));
    assert!(rows_same_width(&vec![row(2), row(2), row(2)]));
    assert!(!rows_same_width(&vec![row(2), row(2), row(1)]));
    assert!(!rows_same_width(&vec![row(0), row(1)]));
}

#[test]
fn shared_subterm_is_decoded_once_per_occurrence() {
    let mut dag = TermDag::default();
    let one = const_node(&mut dag, 1);
    let ty = int_ty(&mut dag);
    let sum = app(&mut dag, "bmul", vec![ty, one.clone(), one]);
    let body = app(&mut dag, "PureOp", vec![sum]);
    let term = function_of_body(&mut dag, body);

    let f = decode(term, &dag).unwrap();
    assert_eq!(
        f.nodes,
        vec![
            const_body(1),
            const_body(1),
            RvsdgBody::BasicOp(BasicExpr::Op(
                ValueOps::Mul,
                vec![Operand::Id(0), Operand::Id(1)],
                Type::Int
            )),
        ]
    );
}

#[test]
fn call_counts_its_outputs() {
    for with_value in [true, false] {
        let mut dag = TermDag::default();
        let ty = if with_value {
            let int = int_ty(&mut dag);
            app(&mut dag, "SomeType", vec![int])
        } else {
            app(&mut dag, "NoneType", vec![])
        };
        let name = str_lit(&mut dag, "callee");
        let a0 = arg(&mut dag, 0);
        let a1 = arg(&mut dag, 1);
        let list = chain(&mut dag, vec![a0, a1]);
        let args = vo(&mut dag, list);
        let call = app(&mut dag, "Call", vec![ty, name, args]);
        let body = app(&mut dag, "PureOp", vec![call]);
        let term = function_of_body(&mut dag, body);

        let f = decode(term, &dag).unwrap();
        let expected = if with_value { Some(Type::Int) } else { None };
        assert_eq!(
            f.nodes,
            vec![RvsdgBody::BasicOp(BasicExpr::Call(
                "callee".to_string(),
                vec![Operand::Arg(0), Operand::Arg(1)],
                if with_value { 2 } else { 1 },
                expected
            ))]
        );
    }
}

#[test]
fn print_takes_two_operands() {
    let mut dag = TermDag::default();
    let value = const_node(&mut dag, 5);
    let state = arg(&mut dag, 0);
    let print = app(&mut dag, "Print", vec![value, state]);
    let body = app(&mut dag, "PureOp", vec![print]);
    let term = function_of_body(&mut dag, body);

    let f = decode(term, &dag).unwrap();
    assert_eq!(
        f.nodes,
        vec![
            const_body(5),
            RvsdgBody::BasicOp(BasicExpr::Print(vec![Operand::Id(0), Operand::Arg(0)])),
        ]
    );
}

fn decode_const(dag: &mut TermDag, ty: Term, lit: Term) -> Result<RvsdgFunction, DecodeError> {
    let op = app(dag, "const", vec![]);
    let expr = app(dag, "Const", vec![ty, op, lit]);
    let body = app(dag, "PureOp", vec![expr]);
    let term = function_of_body(dag, body);
    decode(term, dag)
}

#[test]
fn literals_and_types_map_one_to_one() {
    let mut dag = TermDag::default();
    let ty = app(&mut dag, "FloatT", vec![]);
    let x = dag.lit(egglog::ast::Literal::F64(1.5f64.into()));
    let lit = app(&mut dag, "Float", vec![x]);
    let f = decode_const(&mut dag, ty, lit).unwrap();
    assert_eq!(
        f.nodes,
        vec![RvsdgBody::BasicOp(BasicExpr::Const(
            ConstOps::Const,
            Literal::Float(1.5f64.to_bits()),
            Type::Float
        ))]
    );

    let mut dag = TermDag::default();
    let ty = app(&mut dag, "CharT", vec![]);
    let s = str_lit(&mut dag, "x");
    let lit = app(&mut dag, "Char", vec![s]);
    let f = decode_const(&mut dag, ty, lit).unwrap();
    assert_eq!(
        f.nodes,
        vec![RvsdgBody::BasicOp(BasicExpr::Const(ConstOps::Const, Literal::Char('x'), Type::Char))]
    );

    let mut dag = TermDag::default();
    let inner = app(&mut dag, "BoolT", vec![]);
    let ty = app(&mut dag, "PointerT", vec![inner]);
    let ty = app(&mut dag, "PointerT", vec![ty]);
    let n = int_lit(&mut dag, -3);
    let lit = app(&mut dag, "Num", vec![n]);
    let f = decode_const(&mut dag, ty, lit).unwrap();
    assert_eq!(
        f.nodes,
        vec![RvsdgBody::BasicOp(BasicExpr::Const(
            ConstOps::Const,
            Literal::Int(-3),
            Type::Pointer(Box::new(Type::Pointer(Box::new(Type::Bool))))
        ))]
    );
}

#[test]
fn char_literal_of_two_characters_is_malformed() {
    let mut dag = TermDag::default();
    let ty = app(&mut dag, "CharT", vec![]);
    let s = str_lit(&mut dag, "xy");
    let lit = app(&mut dag, "Char", vec![s]);
    match decode_const(&mut dag, ty, lit) {
        Err(DecodeError::Malformed { expected: Shape::Literal, found }) => {
            assert!(matches!(found, TermNode::App(head, _) if head == "Char"));
        }
        other => panic!("unexpected: {:?}", other),
    }
}

#[test]
fn unknown_body_head_fails() {
    let mut dag = TermDag::default();
    let pred = arg(&mut dag, 0);
    let body = app(&mut dag, "Lambda", vec![pred]);
    let term = function_of_body(&mut dag, body);
    match decode(term, &dag) {
        Err(DecodeError::Malformed { expected: Shape::Body, found }) => {
            assert!(matches!(found, TermNode::App(head, _) if head == "Lambda"));
        }
        other => panic!("unexpected: {:?}", other),
    }
}

#[test]
fn known_head_with_wrong_arity_fails() {
    let mut dag = TermDag::default();
    let pred = arg(&mut dag, 0);
    let body = app(&mut dag, "Gamma", vec![pred]);
    let term = function_of_body(&mut dag, body);
    assert!(matches!(
        decode(term, &dag),
        Err(DecodeError::Malformed { expected: Shape::Body, .. })
    ));
}

#[test]
fn unknown_operator_fails() {
    let mut dag = TermDag::default();
    let ty = int_ty(&mut dag);
    let a0 = arg(&mut dag, 0);
    let a1 = arg(&mut dag, 1);
    let expr = app(&mut dag, "frobnicate", vec![ty, a0, a1]);
    let body = app(&mut dag, "PureOp", vec![expr]);
    let term = function_of_body(&mut dag, body);
    assert!(matches!(
        decode(term, &dag),
        Err(DecodeError::Malformed { expected: Shape::Expression, .. })
    ));
}

#[test]
fn each_position_reports_its_own_shape() {
    let mut dag = TermDag::default();
    let x = dag.var("x".into());
    assert!(matches!(
        decode(x.clone(), &dag),
        Err(DecodeError::Malformed { expected: Shape::Function, found: TermNode::Var(_) })
    ));

    let sig = signature(&mut dag);
    let output = state_only(&mut dag, x.clone());
    let term = func(&mut dag, "main", sig, output);
    assert!(matches!(
        decode(term, &dag),
        Err(DecodeError::Malformed { expected: Shape::Operand, .. })
    ));

    let state = arg(&mut dag, 0);
    let output = state_only(&mut dag, state.clone());
    let term = func(&mut dag, "main", x.clone(), output.clone());
    assert!(matches!(
        decode(term, &dag),
        Err(DecodeError::Malformed { expected: Shape::List, .. })
    ));

    let sig = flat(&mut dag, vec![x.clone()]);
    let term = func(&mut dag, "main", sig, output.clone());
    assert!(matches!(
        decode(term, &dag),
        Err(DecodeError::Malformed { expected: Shape::RvsdgType, .. })
    ));

    let bril = app(&mut dag, "Bril", vec![x.clone()]);
    let sig = flat(&mut dag, vec![bril]);
    let term = func(&mut dag, "main", sig, output.clone());
    assert!(matches!(
        decode(term, &dag),
        Err(DecodeError::Malformed { expected: Shape::Type, .. })
    ));

    let empty = flat(&mut dag, vec![]);
    let term = func(&mut dag, "main", empty, output);
    assert!(matches!(
        decode(term, &dag),
        Err(DecodeError::Malformed { expected: Shape::Function, .. })
    ));

    let pure = app(&mut dag, "PureOp", vec![x.clone()]);
    let term = function_of_body(&mut dag, pure);
    assert!(matches!(
        decode(term, &dag),
        Err(DecodeError::Malformed { expected: Shape::Expression, .. })
    ));

    let theta = app(&mut dag, "Theta", vec![state.clone(), x.clone(), x.clone()]);
    let term = function_of_body(&mut dag, theta);
    assert!(matches!(
        decode(term, &dag),
        Err(DecodeError::Malformed { expected: Shape::OperandList, .. })
    ));

    let none = flat(&mut dag, vec![]);
    let inputs = vo(&mut dag, none);
    let gamma = app(&mut dag, "Gamma", vec![state, inputs.clone(), inputs]);
    let term = function_of_body(&mut dag, gamma);
    assert!(matches!(
        decode(term, &dag),
        Err(DecodeError::Malformed { expected: Shape::OperandRows, .. })
    ));

    let name = str_lit(&mut dag, "f");
    let a0 = arg(&mut dag, 0);
    let list = flat(&mut dag, vec![a0]);
    let args = vo(&mut dag, list);
    let call = app(&mut dag, "Call", vec![x, name, args]);
    let body = app(&mut dag, "PureOp", vec![call]);
    let term = function_of_body(&mut dag, body);
    assert!(matches!(
        decode(term, &dag),
        Err(DecodeError::Malformed { expected: Shape::OptionType, .. })
    ));
}

#[test]
fn index_outside_the_graph_is_dangling() {
    let mut dag = TermDag::default();
    let state = arg(&mut dag, 0);
    let output = state_only(&mut dag, state);
    let sig = signature(&mut dag);
    let name = str_lit(&mut dag, "main");
    let ids = vec![dag.lookup(&name), dag.lookup(&sig), dag.lookup(&output), 999];
    let term = Term::App("Func".into(), ids);
    assert_eq!(
        decode(term, &dag),
        Err(DecodeError::Dangling(999))
    );
}

#[test]
fn cyclic_graph_is_too_deep() {
    let mut dag = TermDag::default();
    let zero = int_lit(&mut dag, 0);
    let zero_id = dag.lookup(&zero);
    let project_id = dag.size();
    let pure_id = project_id + 1;
    let print_id = pure_id + 1;
    dag.nodes.push(Term::App("Project".into(), vec![zero_id, pure_id]));
    dag.nodes.push(Term::App("PureOp".into(), vec![print_id]));
    dag.nodes.push(Term::App("Print".into(), vec![project_id, project_id]));
    let output_id = dag.size();
    dag.nodes.push(Term::App("StateOnly".into(), vec![project_id]));
    let sig = signature(&mut dag);
    let name = str_lit(&mut dag, "main");
    let term = Term::App("Func".into(), vec![dag.lookup(&name), dag.lookup(&sig), output_id]);
    assert_eq!(decode(term, &dag), Err(DecodeError::TooDeep));
}

#[test]
fn negative_position_wraps() {
    let mut dag = TermDag::default();
    let state = arg(&mut dag, -1);
    let output = state_only(&mut dag, state);
    let sig = signature(&mut dag);
    let term = func(&mut dag, "main", sig, output);
    let f = decode(term, &dag).unwrap();
    assert_eq!(f.state, Operand::Arg(usize::MAX));
}

#[test]
fn decode_works_on_a_graph_written_by_hand() {
    let graph = TermGraph {
        nodes: vec![
            TermNode::Lit(TermLit::Int(0)),
            TermNode::App("Arg".to_string(), vec![0]),
            TermNode::App("StateOnly".to_string(), vec![1]),
            TermNode::App("PrintState".to_string(), vec![]),
            TermNode::App("vec-of".to_string(), vec![3]),
            TermNode::Lit(TermLit::Str("f".to_string())),
        ],
    };
    let root = TermNode::App("Func".to_string(), vec![5, 4, 2]);
    let f = RvsdgFunction::egglog_term_to_function(&root, &graph).unwrap();
    assert_eq!(
        f,
        RvsdgFunction {
            name: "f".to_string(),
            n_args: 0,
            args: vec![RvsdgType::PrintState],
            nodes: vec![],
            result: None,
            state: Operand::Arg(0),
        }
    );
}

#[test]
fn operator_names() {
    assert_eq!(egglog_op_to_bril("badd"), Some(ValueOps::Add));
    assert_eq!(egglog_op_to_bril("blt"), Some(ValueOps::Lt));
    assert_eq!(egglog_op_to_bril("bptradd"), Some(ValueOps::PtrAdd));
    assert_eq!(egglog_op_to_bril("add"), None);
    assert_eq!(egglog_op_to_bril("Print"), None);
    assert_eq!(egglog_op_to_bril(""), None);
    let all = [
        ValueOps::Add,
        ValueOps::Sub,
        ValueOps::Mul,
        ValueOps::Div,
        ValueOps::Eq,
        ValueOps::Lt,
        ValueOps::Gt,
        ValueOps::Le,
        ValueOps::Ge,
        ValueOps::Not,
        ValueOps::And,
        ValueOps::Or,
        ValueOps::Call,
        ValueOps::Id,
        ValueOps::Phi,
        ValueOps::Fadd,
        ValueOps::Fsub,
        ValueOps::Fmul,
        ValueOps::Fdiv,
        ValueOps::Feq,
        ValueOps::Flt,
        ValueOps::Fgt,
        ValueOps::Fle,
        ValueOps::Fge,
        ValueOps::Ceq,
        ValueOps::Clt,
        ValueOps::Cgt,
        ValueOps::Cle,
        ValueOps::Cge,
        ValueOps::Char2int,
        ValueOps::Int2char,
        ValueOps::Alloc,
        ValueOps::Load,
        ValueOps::PtrAdd,
    ];
    for op in all {
        assert_eq!(egglog_op_to_bril(op_to_egglog(op)), Some(op));
    }
    assert_eq!(op_to_egglog(ValueOps::Char2int), "bchar2int");
}

#[test]
fn well_formed_functions_refer_backwards() {
    let mut f = RvsdgFunction {
        name: "f".to_string(),
        n_args: 0,
        args: vec![RvsdgType::PrintState],
        nodes: vec![
            const_body(1),
            RvsdgBody::Gamma {
                pred: Operand::Id(0),
                inputs: vec![Operand::Arg(0)],
                outputs: vec![vec![Operand::Id(0)], vec![Operand::Arg(3)]],
            },
        ],
        result: Some((Type::Int, Operand::Project(0, 1))),
        state: Operand::Arg(0),
    };
    assert!(f.is_well_formed());
    f.state = Operand::Id(2);
    assert!(!f.is_well_formed());
    f.state = Operand::Id(1);
    f.result = Some((Type::Int, Operand::Project(0, 2)));
    assert!(!f.is_well_formed());
    f.result = None;
    assert!(f.is_well_formed());
    // a node may not refer to itself or to a later node
    f.nodes[1] = RvsdgBody::Theta {
        pred: Operand::Arg(0),
        inputs: vec![],
        outputs: vec![Operand::Id(1)],
    };
    assert!(!f.is_well_formed());
    f.nodes[1] = RvsdgBody::Gamma {
        pred: Operand::Arg(0),
        inputs: vec![],
        outputs: vec![vec![], vec![Operand::Project(1, 5)]],
    };
    assert!(!f.is_well_formed());
    // the rows of a gamma have one width
    f.nodes[1] = RvsdgBody::Gamma {
        pred: Operand::Arg(0),
        inputs: vec![],
        outputs: vec![vec![Operand::Id(0)], vec![Operand::Id(0), Operand::Arg(1)]],
    };
    assert!(!f.is_well_formed());
    f.nodes[1] = RvsdgBody::Gamma {
        pred: Operand::Arg(0),
        inputs: vec![],
        outputs: vec![vec![Operand::Id(0), Operand::Arg(2)], vec![Operand::Id(0), Operand::Arg(1)]],
    };
    assert!(f.is_well_formed());
    // a theta has one row, of any width
    f.nodes[1] = RvsdgBody::Theta {
        pred: Operand::Arg(0),
        inputs: vec![Operand::Arg(0)],
        outputs: vec![Operand::Id(0), Operand::Arg(1), Operand::Arg(2)],
    };
    assert!(f.is_well_formed());
    f.nodes[1] = RvsdgBody::BasicOp(BasicExpr::Print(vec![Operand::Id(0), Operand::Arg(0)]));
    assert!(f.is_well_formed());
    f.nodes[0] = RvsdgBody::BasicOp(BasicExpr::Call("g".to_string(), vec![Operand::Id(0)], 1, None));
    assert!(!f.is_well_formed());
}

/// A gamma with two rows whose lists are written flat or as chains.
fn gamma_function(chained: bool) -> RvsdgFunction {
    let mut dag = TermDag::default();
    let list = |dag: &mut TermDag, items: Vec<Term>| {
        if chained {
            chain(dag, items)
        } else {
            flat(dag, items)
        }
    };
    let pred = const_node(&mut dag, 0);
    let in0 = const_node(&mut dag, 5);
    let in1 = arg(&mut dag, 1);
    let input_list = list(&mut dag, vec![in0, in1]);
    let inputs = vo(&mut dag, input_list);
    let mut rows = vec![];
    for case in 1..3 {
        let a = const_node(&mut dag, 10 * case);
        let b = const_node(&mut dag, 10 * case + 1);
        let row = list(&mut dag, vec![a, b]);
        rows.push(vo(&mut dag, row));
    }
    let row_list = list(&mut dag, rows);
    let outputs = vvo(&mut dag, row_list);
    let gamma = app(&mut dag, "Gamma", vec![pred, inputs, outputs]);
    let term = function_of_body(&mut dag, gamma);
    decode(term, &dag).unwrap()
}

#[test]
fn both_list_forms_decode_to_the_same_tree() {
    let flat = gamma_function(false);
    let chained = gamma_function(true);
    // the arenas are laid out in different orders
    assert_ne!(flat.nodes, chained.nodes);
    assert_eq!(flat.nodes.len(), chained.nodes.len());
    assert!(flat.same_tree(&chained));
    assert!(chained.same_tree(&flat));
    assert!(flat.same_tree(&flat));
}

#[test]
fn decoding_gives_the_tree_of_a_function_that_shares_its_nodes() {
    // the function that an encoder started from: one constant, used twice
    let shared = RvsdgFunction {
        name: "main".to_string(),
        n_args: 1,
        args: vec![RvsdgType::Bril(Type::Int), RvsdgType::PrintState],
        nodes: vec![
            const_body(1),
            RvsdgBody::BasicOp(BasicExpr::Op(
                ValueOps::Mul,
                vec![Operand::Id(0), Operand::Id(0)],
                Type::Int,
            )),
        ],
        result: None,
        state: Operand::Project(0, 1),
    };
    let mut dag = TermDag::default();
    let one = const_node(&mut dag, 1);
    let ty = int_ty(&mut dag);
    let product = app(&mut dag, "bmul", vec![ty, one.clone(), one]);
    let body = app(&mut dag, "PureOp", vec![product]);
    let term = function_of_body(&mut dag, body);
    let decoded = decode(term, &dag).unwrap();

    assert_eq!(decoded.nodes.len(), 3);
    assert_ne!(decoded, shared);
    assert!(decoded.same_tree(&shared));
    assert!(shared.same_tree(&decoded));
}

#[test]
fn functions_with_different_trees_differ() {
    let base = gamma_function(false);
    let mut other = base.clone();
    other.name = "other".to_string();
    assert!(!base.same_tree(&other));

    let mut other = base.clone();
    other.n_args = 7;
    assert!(!base.same_tree(&other));

    let mut other = base.clone();
    other.args.pop();
    assert!(!base.same_tree(&other));

    let mut other = base.clone();
    other.state = Operand::Arg(0);
    assert!(!base.same_tree(&other));

    let mut other = base.clone();
    other.result = Some((Type::Int, Operand::Arg(0)));
    assert!(!base.same_tree(&other));
    let mut another = other.clone();
    another.result = Some((Type::Bool, Operand::Arg(0)));
    assert!(!other.same_tree(&another));
    another.result = Some((Type::Int, Operand::Arg(1)));
    assert!(!other.same_tree(&another));
    another.result = Some((Type::Int, Operand::Arg(0)));
    assert!(other.same_tree(&another));

    // a constant deep inside
    let mut other = base.clone();
    other.nodes[0] = const_body(99);
    assert!(!base.same_tree(&other));

    // a row more
    let mut other = base.clone();
    let last = other.nodes.len() - 1;
    if let RvsdgBody::Gamma { outputs, .. } = &mut other.nodes[last] {
        outputs.push(vec![Operand::Arg(0), Operand::Arg(0)]);
    }
    assert!(!base.same_tree(&other));

    // an operand the other way round
    let mut other = base.clone();
    if let RvsdgBody::Gamma { inputs, .. } = &mut other.nodes[last] {
        inputs.reverse();
    }
    assert!(!base.same_tree(&other));

    // a theta is no gamma
    let mut other = base.clone();
    if let RvsdgBody::Gamma { pred, inputs, .. } = other.nodes[last].clone() {
        other.nodes[last] = RvsdgBody::Theta { pred, inputs, outputs: vec![] };
    }
    assert!(!base.same_tree(&other));

    // a function that is not well formed has the tree of nothing
    let mut broken = base.clone();
    broken.state = Operand::Id(100);
    assert!(!broken.same_tree(&broken));
    assert!(!base.same_tree(&broken));
}

#[test]
fn calls_and_prints_compare_by_their_parts() {
    let with = |expr: BasicExpr<Operand>| RvsdgFunction {
        name: "f".to_string(),
        n_args: 0,
        args: vec![RvsdgType::PrintState],
        nodes: vec![RvsdgBody::BasicOp(expr)],
        result: None,
        state: Operand::Id(0),
    };
    let call = |name: &str, outs: usize, ty: Option<Type>| {
        with(BasicExpr::Call(name.to_string(), vec![Operand::Arg(0)], outs, ty))
    };
    let pointer = || Type::Pointer(Box::new(Type::Char));
    assert!(call("g", 2, Some(pointer())).same_tree(&call("g", 2, Some(pointer()))));
    assert!(!call("g", 2, Some(pointer())).same_tree(&call("h", 2, Some(pointer()))));
    assert!(!call("g", 2, Some(pointer())).same_tree(&call("g", 1, Some(pointer()))));
    assert!(!call("g", 2, Some(pointer())).same_tree(&call("g", 2, None)));
    assert!(!call("g", 2, Some(pointer()))
        .same_tree(&call("g", 2, Some(Type::Pointer(Box::new(Type::Int))))));
    let print = with(BasicExpr::Print(vec![Operand::Arg(0), Operand::Arg(1)]));
    assert!(print.same_tree(&print.clone()));
    assert!(!print.same_tree(&call("g", 1, None)));
    assert!(!print.same_tree(&with(BasicExpr::Print(vec![Operand::Arg(0)]))));
    let float = |bits: u64| with(BasicExpr::Const(ConstOps::Const, Literal::Float(bits), Type::Float));
    assert!(float(1).same_tree(&float(1)));
    assert!(!float(1).same_tree(&float(2)));
    assert!(Type::Float.same(&Type::Float));
    assert!(!pointer().same(&Type::Char));
}

fn app_node(head: &str, children: Vec<usize>) -> TermNode {
    TermNode::App(head.to_string(), children)
}

#[test]
fn a_flat_list_is_walked_front_to_back() {
    let graph = TermGraph { nodes: vec![] };
    for n in [0usize, 1, 5] {
        let items: Vec<usize> = (0..n).map(|k| 10 + k).collect();
        let list = app_node("vec-of", items.clone());
        assert_eq!(vec_map(&graph, &list, 0), Ok((items, false)));
    }
}

#[test]
fn a_chain_is_walked_back_to_front() {
    for n in [0usize, 1, 4] {
        // the elements stand at the indices 100, 101, ...; the chain at 0, 1, ...
        let mut nodes = vec![app_node("vec-empty", vec![])];
        for k in 0..n {
            nodes.push(app_node("vec-push", vec![100 + k, k]));
        }
        let graph = TermGraph { nodes };
        let list = &graph.nodes[n];
        let visited: Vec<usize> = (0..n).rev().map(|k| 100 + k).collect();
        assert_eq!(vec_map(&graph, list, n), Ok((visited, true)));
        if n > 0 {
            assert_eq!(vec_map(&graph, list, n - 1), Err(DecodeError::TooDeep));
        }
    }
    let graph = TermGraph { nodes: vec![app_node("vec-of", vec![])] };
    let on_flat = app_node("vec-push", vec![7, 0]);
    assert!(matches!(
        vec_map(&graph, &on_flat, 9),
        Err(DecodeError::Malformed { expected: Shape::List, found: TermNode::App(head, _) })
            if head == "vec-of"
    ));
    let dangling = app_node("vec-push", vec![7, 3]);
    assert_eq!(vec_map(&graph, &dangling, 9), Err(DecodeError::Dangling(3)));
}

#[test]
fn what_is_no_body_pushes_no_node() {
    let graph = TermGraph { nodes: vec![TermNode::Lit(TermLit::Int(0))] };
    let no_bodies = [
        app_node("Foo", vec![0]),
        app_node("PureOp", vec![]),
        app_node("PureOp", vec![0, 0]),
        app_node("Gamma", vec![0, 0]),
        app_node("Theta", vec![0, 0, 0, 0]),
        TermNode::Lit(TermLit::Int(3)),
        TermNode::Var("x".to_string()),
    ];
    for body in no_bodies {
        let mut convert = RvsdgFromEgglog { graph: &graph, bodies: vec![const_body(1)] };
        match convert.egglog_expr_to_body(&body, 5) {
            Err(DecodeError::Malformed { expected: Shape::Body, found }) => {
                assert_eq!(found, body)
            }
            other => panic!("unexpected: {:?}", other),
        }
        assert_eq!(convert.bodies, vec![const_body(1)]);
    }
}

#[test]
fn a_gamma_with_uneven_rows_pushes_no_node() {
    let graph = TermGraph {
        nodes: vec![
            TermNode::Lit(TermLit::Int(0)),
            app_node("Arg", vec![0]),
            app_node("vec-of", vec![]),
            app_node("VO", vec![2]),
            app_node("vec-of", vec![1]),
            app_node("VO", vec![4]),
            app_node("vec-of", vec![3, 5]),
            app_node("VVO", vec![6]),
        ],
    };
    let gamma = app_node("Gamma", vec![1, 3, 7]);
    let mut convert = RvsdgFromEgglog { graph: &graph, bodies: vec![] };
    assert_eq!(
        convert.egglog_expr_to_body(&gamma, 5),
        Err(DecodeError::Malformed {
            expected: Shape::OperandRows,
            found: app_node("VVO", vec![6]),
        })
    );
    assert!(convert.bodies.is_empty());
    // as the outputs of a theta the same two lists are no rows
    let theta = app_node("Theta", vec![1, 3, 5]);
    assert_eq!(convert.egglog_expr_to_body(&theta, 5), Ok(0));
}

#[test]
fn a_body_is_pushed_after_what_it_refers_to() {
    let graph = TermGraph {
        nodes: vec![
            TermNode::Lit(TermLit::Int(0)),
            app_node("Arg", vec![0]),
            app_node("vec-of", vec![1, 1]),
            app_node("VO", vec![2]),
            app_node("vec-of", vec![3, 3, 3]),
            app_node("VVO", vec![4]),
        ],
    };
    let gamma = app_node("Gamma", vec![1, 3, 5]);
    let mut convert = RvsdgFromEgglog { graph: &graph, bodies: vec![const_body(1)] };
    assert_eq!(convert.egglog_expr_to_body(&gamma, 5), Ok(1));
    let row = vec![Operand::Arg(0), Operand::Arg(0)];
    assert_eq!(
        convert.bodies,
        vec![
            const_body(1),
            RvsdgBody::Gamma {
                pred: Operand::Arg(0),
                inputs: row.clone(),
                outputs: vec![row.clone(), row.clone(), row.clone()],
            },
        ]
    );
    assert_eq!(convert.expr_to_vec_operand(&graph.nodes[3], 5), Ok(row));
    assert_eq!(convert.egglog_expr_to_operand(&graph.nodes[1], 0), Ok(Operand::Arg(0)));
    assert_eq!(convert.bodies.len(), 2);
}
