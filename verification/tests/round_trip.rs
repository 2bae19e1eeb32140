use eggcc::bril::{ConstOps, Literal, Type, ValueOps};
use eggcc::rvsdg::to_egglog::op_to_egglog;
use eggcc::rvsdg::decoding::DecodeError;
use eggcc::rvsdg::terms::{TermGraph, TermLit, TermNode};
use eggcc::rvsdg::{BasicExpr, Operand, RvsdgBody, RvsdgFunction, RvsdgType};
use egglog::{Term, TermDag};

/// The term as a plain value.
fn read_term(term: &Term) -> TermNode {
    match term {
        Term::Lit(egglog::ast::Literal::Int(n)) => TermNode::Lit(TermLit::Int(*n)),
        Term::Lit(egglog::ast::Literal::F64(x)) => TermNode::Lit(TermLit::Float(x.0.to_bits())),
        Term::Lit(egglog::ast::Literal::String(s)) => TermNode::Lit(TermLit::Str(s.to_string())),
        Term::Lit(egglog::ast::Literal::Bool(b)) => TermNode::Lit(TermLit::Bool(*b)),
        Term::Lit(egglog::ast::Literal::Unit) => TermNode::Lit(TermLit::Unit),
        Term::Var(name) => TermNode::Var(name.to_string()),
        Term::App(head, children) => TermNode::App(head.to_string(), children.clone()),
    }
}

/// Every term of the arena as a plain value, in index order.
fn read_dag(dag: &TermDag) -> TermGraph {
    TermGraph { nodes: (0..dag.size()).map(|id| read_term(&dag.get(id))).collect() }
}

/// Decodes the function that the term stands for over the arena.
fn decode(term: Term, dag: &TermDag) -> Result<RvsdgFunction, DecodeError> {
    RvsdgFunction::egglog_term_to_function(&read_term(&term), &read_dag(dag))
}

/// Writes the terms of a function into an arena, every list in one form.
struct Encoder<'a> {
    function: &'a RvsdgFunction,
    dag: TermDag,
    chained: bool,
}

impl<'a> Encoder<'a> {
    fn app(&mut self, head: &str, children: Vec<Term>) -> Term {
        self.dag.app(head.into(), children)
    }

    fn index(&mut self, n: usize) -> Term {
        self.dag.lit(egglog::ast::Literal::Int(n as i64))
    }

    fn list(&mut self, items: Vec<Term>) -> Term {
        if self.chained {
            let mut list = self.app("vec-empty", vec![]);
            for item in items {
                list = self.app("vec-push", vec![item, list]);
            }
            list
        } else {
            self.app("vec-of", items)
        }
    }

    fn ty(&mut self, ty: &Type) -> Term {
        match ty {
            Type::Int => self.app("IntT", vec![]),
            Type::Bool => self.app("BoolT", vec![]),
            Type::Float => self.app("FloatT", vec![]),
            Type::Char => self.app("CharT", vec![]),
            Type::Pointer(inner) => {
                let inner = self.ty(inner);
                self.app("PointerT", vec![inner])
            }
        }
    }

    fn literal(&mut self, lit: &Literal) -> Term {
        match lit {
            Literal::Int(n) => {
                let n = self.dag.lit(egglog::ast::Literal::Int(*n));
                self.app("Num", vec![n])
            }
            Literal::Float(bits) => {
                let x = self.dag.lit(egglog::ast::Literal::F64(f64::from_bits(*bits).into()));
                self.app("Float", vec![x])
            }
            Literal::Char(c) => {
                let s = self.dag.lit(egglog::ast::Literal::String(c.to_string().into()));
                self.app("Char", vec![s])
            }
            Literal::Bool(_) => panic!("a boolean literal has no term"),
        }
    }

    fn operand(&mut self, op: &Operand) -> Term {
        match op {
            Operand::Arg(n) => {
                let n = self.index(*n);
                self.app("Arg", vec![n])
            }
            Operand::Id(id) => {
                let body = self.body(*id);
                self.app("Node", vec![body])
            }
            Operand::Project(i, id) => {
                let i = self.index(*i);
                let body = self.body(*id);
                self.app("Project", vec![i, body])
            }
        }
    }

    fn operands(&mut self, ops: &[Operand]) -> Term {
        let items = ops.iter().map(|op| self.operand(op)).collect();
        let list = self.list(items);
        self.app("VO", vec![list])
    }

    fn body(&mut self, id: usize) -> Term {
        let function = self.function;
        match &function.nodes[id] {
            RvsdgBody::BasicOp(expr) => {
                let expr = self.expr(expr);
                self.app("PureOp", vec![expr])
            }
            RvsdgBody::Gamma { pred, inputs, outputs } => {
                let pred = self.operand(pred);
                let inputs = self.operands(inputs);
                let rows = outputs.iter().map(|row| self.operands(row)).collect();
                let rows = self.list(rows);
                let outputs = self.app("VVO", vec![rows]);
                self.app("Gamma", vec![pred, inputs, outputs])
            }
            RvsdgBody::Theta { pred, inputs, outputs } => {
                let pred = self.operand(pred);
                let inputs = self.operands(inputs);
                let outputs = self.operands(outputs);
                self.app("Theta", vec![pred, inputs, outputs])
            }
        }
    }

    fn expr(&mut self, expr: &BasicExpr<Operand>) -> Term {
        match expr {
            BasicExpr::Op(op, args, ty) => {
                let ty = self.ty(ty);
                let first = self.operand(&args[0]);
                let second = self.operand(&args[1]);
                self.app(op_to_egglog(*op), vec![ty, first, second])
            }
            BasicExpr::Call(name, args, _, ty) => {
                let ty = match ty {
                    Some(ty) => {
                        let ty = self.ty(ty);
                        self.app("SomeType", vec![ty])
                    }
                    None => self.app("NoneType", vec![]),
                };
                let name = self.dag.lit(egglog::ast::Literal::String(name.as_str().into()));
                let args = self.operands(args);
                self.app("Call", vec![ty, name, args])
            }
            BasicExpr::Print(args) => {
                let first = self.operand(&args[0]);
                let second = self.operand(&args[1]);
                self.app("Print", vec![first, second])
            }
            BasicExpr::Const(_, lit, ty) => {
                let ty = self.ty(ty);
                let op = self.app("const", vec![]);
                let lit = self.literal(lit);
                self.app("Const", vec![ty, op, lit])
            }
        }
    }

    fn function(&mut self) -> Term {
        let function = self.function;
        let name = self.dag.lit(egglog::ast::Literal::String(function.name.as_str().into()));
        let types = function
            .args
            .iter()
            .map(|ty| match ty {
                RvsdgType::PrintState => self.app("PrintState", vec![]),
                RvsdgType::Bril(ty) => {
                    let ty = self.ty(ty);
                    self.app("Bril", vec![ty])
                }
            })
            .collect();
        let signature = self.list(types);
        let state = self.operand(&function.state);
        let output = match &function.result {
            None => self.app("StateOnly", vec![state]),
            Some((ty, value)) => {
                let ty = self.ty(ty);
                let value = self.operand(value);
                self.app("StateAndValue", vec![state, ty, value])
            }
        };
        self.app("Func", vec![name, signature, output])
    }
}

fn round_trip(function: &RvsdgFunction, chained: bool) -> RvsdgFunction {
    let mut encoder = Encoder { function, dag: TermDag::default(), chained };
    let term = encoder.function();
    decode(term, &encoder.dag).unwrap()
}

fn constant(lit: Literal, ty: Type) -> RvsdgBody {
    RvsdgBody::BasicOp(BasicExpr::Const(ConstOps::Const, lit, ty))
}

/// A function whose arena lies in the order in which a decoder fills it
/// from flat lists, and shares no node.
fn unshared() -> RvsdgFunction {
    RvsdgFunction {
        name: "loop_and_branch".to_string(),
        n_args: 2,
        args: vec![
            RvsdgType::Bril(Type::Int),
            RvsdgType::Bril(Type::Pointer(Box::new(Type::Float))),
            RvsdgType::PrintState,
        ],
        nodes: vec![
            // 0: the predicate of the branch
            RvsdgBody::BasicOp(BasicExpr::Op(
                ValueOps::Lt,
                vec![Operand::Arg(0), Operand::Arg(0)],
                Type::Bool,
            )),
            // 1, 2: the constants of the two rows
            constant(Literal::Int(-4), Type::Int),
            constant(Literal::Char('q'), Type::Char),
            // 3: the branch
            RvsdgBody::Gamma {
                pred: Operand::Id(0),
                inputs: vec![Operand::Arg(0), Operand::Arg(2)],
                outputs: vec![
                    vec![Operand::Id(1), Operand::Arg(1)],
                    vec![Operand::Id(2), Operand::Arg(1)],
                ],
            },
            // 4: a call on the first output of the branch
            RvsdgBody::BasicOp(BasicExpr::Call(
                "helper".to_string(),
                vec![Operand::Project(0, 3), Operand::Arg(2)],
                2,
                Some(Type::Float),
            )),
            // 5: the constant that the loop carries
            constant(Literal::Float(2.5f64.to_bits()), Type::Float),
            // 6: the print inside the loop
            RvsdgBody::BasicOp(BasicExpr::Print(vec![Operand::Arg(0), Operand::Arg(1)])),
            // 7: the loop
            RvsdgBody::Theta {
                pred: Operand::Arg(0),
                inputs: vec![Operand::Project(0, 4), Operand::Id(5)],
                outputs: vec![Operand::Arg(0), Operand::Id(6)],
            },
        ],
        result: None,
        state: Operand::Project(1, 7),
    }
}

/// A function that uses one constant three times and one sum twice.
fn shared() -> RvsdgFunction {
    RvsdgFunction {
        name: "shared".to_string(),
        n_args: 0,
        args: vec![RvsdgType::PrintState],
        nodes: vec![
            constant(Literal::Int(1), Type::Int),
            RvsdgBody::BasicOp(BasicExpr::Op(
                ValueOps::Add,
                vec![Operand::Id(0), Operand::Id(0)],
                Type::Int,
            )),
            RvsdgBody::BasicOp(BasicExpr::Op(
                ValueOps::Mul,
                vec![Operand::Id(1), Operand::Id(1)],
                Type::Int,
            )),
            RvsdgBody::BasicOp(BasicExpr::Print(vec![Operand::Id(0), Operand::Arg(0)])),
        ],
        result: Some((Type::Int, Operand::Id(2))),
        state: Operand::Id(3),
    }
}

#[test]
fn a_function_that_shares_nothing_comes_back_as_it_was() {
    let function = unshared();
    assert!(function.is_well_formed());
    assert_eq!(round_trip(&function, false), function);
}

#[test]
fn chained_lists_change_the_order_of_the_arena_and_nothing_else() {
    let function = unshared();
    let decoded = round_trip(&function, true);
    assert_ne!(decoded, function);
    assert_eq!(decoded.nodes.len(), function.nodes.len());
    assert!(decoded.is_well_formed());
    assert!(decoded.same_tree(&function));
    // decoding what was decoded changes nothing more
    assert_eq!(round_trip(&decoded, true).nodes.len(), decoded.nodes.len());
    assert!(round_trip(&decoded, true).same_tree(&function));
}

#[test]
fn shared_nodes_come_back_once_for_each_use() {
    let function = shared();
    assert!(function.is_well_formed());
    for chained in [false, true] {
        let decoded = round_trip(&function, chained);
        // the constant: twice under each of two sums, and once under the print
        assert_eq!(decoded.nodes.len(), 2 * (2 + 1) + 1 + 1 + 1);
        assert!(decoded.is_well_formed());
        assert!(decoded.same_tree(&function));
        assert_eq!(decoded.name, function.name);
        assert_eq!(decoded.args, function.args);
        assert_eq!(decoded.n_args, function.n_args);
        // a second round trip finds nothing left to unshare
        assert_eq!(round_trip(&decoded, chained), decoded);
    }
}

#[test]
fn decoding_twice_gives_the_same_function() {
    let function = shared();
    let mut encoder = Encoder { function: &function, dag: TermDag::default(), chained: false };
    let term = encoder.function();
    let first = decode(term.clone(), &encoder.dag);
    let second = decode(term, &encoder.dag);
    assert_eq!(first, second);
}

#[test]
fn writing_then_decoding_gives_back_an_unshared_function() {
    let function = unshared();
    assert!(function.is_writable());
    let (root, graph) = function.to_term_graph().unwrap();
    assert_eq!(RvsdgFunction::egglog_term_to_function(&root, &graph), Ok(function));
}

#[test]
fn writing_then_decoding_keeps_the_tree_of_a_function_that_shares() {
    let function = shared();
    let (root, graph) = function.to_term_graph().unwrap();
    let decoded = RvsdgFunction::egglog_term_to_function(&root, &graph).unwrap();
    assert_eq!(decoded.nodes.len(), 9);
    assert!(decoded.same_tree(&function));
    assert!(decoded.is_writable());
    // what comes back shares nothing, so it comes back again as it is
    let (root, graph) = decoded.to_term_graph().unwrap();
    assert_eq!(RvsdgFunction::egglog_term_to_function(&root, &graph), Ok(decoded));
}

#[test]
fn written_terms_come_after_their_children() {
    let (root, graph) = shared().to_term_graph().unwrap();
    for (index, node) in graph.nodes.iter().enumerate() {
        if let TermNode::App(_, children) = node {
            assert!(children.iter().all(|child| *child < index));
        }
    }
    match &root {
        TermNode::App(head, children) => {
            assert_eq!(head, "Func");
            assert_eq!(children.len(), 3);
            assert_eq!(graph.nodes[children[0]], TermNode::Lit(TermLit::Str("shared".to_string())));
            assert!(matches!(&graph.nodes[children[1]], TermNode::App(head, _) if head == "vec-of"));
            assert!(
                matches!(&graph.nodes[children[2]], TermNode::App(head, _) if head == "StateAndValue")
            );
        }
        other => panic!("not an application: {:?}", other),
    }
}

#[test]
fn the_smallest_function_is_written_in_five_terms() {
    let function = RvsdgFunction {
        name: "f".to_string(),
        n_args: 0,
        args: vec![RvsdgType::PrintState],
        nodes: vec![],
        result: None,
        state: Operand::Arg(0),
    };
    let (root, graph) = function.to_term_graph().unwrap();
    assert_eq!(
        graph,
        TermGraph {
            nodes: vec![
                TermNode::Lit(TermLit::Str("f".to_string())),
                TermNode::App("PrintState".to_string(), vec![]),
                TermNode::App("vec-of".to_string(), vec![1]),
                TermNode::Lit(TermLit::Int(0)),
                TermNode::App("Arg".to_string(), vec![3]),
                TermNode::App("StateOnly".to_string(), vec![4]),
            ],
        }
    );
    assert_eq!(root, TermNode::App("Func".to_string(), vec![0, 2, 5]));
    assert_eq!(RvsdgFunction::egglog_term_to_function(&root, &graph), Ok(function));
}

#[test]
fn what_no_term_can_stand_for_is_not_written() {
    let base = unshared();
    assert!(base.is_writable());

    let mut f = base.clone();
    f.nodes[1] = constant(Literal::Bool(true), Type::Bool);
    assert!(!f.is_writable());
    assert!(f.to_term_graph().is_none());

    let mut f = base.clone();
    f.nodes[6] = RvsdgBody::BasicOp(BasicExpr::Print(vec![Operand::Arg(0)]));
    assert!(!f.is_writable());

    let mut f = base.clone();
    f.nodes[0] =
        RvsdgBody::BasicOp(BasicExpr::Op(ValueOps::Not, vec![Operand::Arg(0)], Type::Bool));
    assert!(!f.is_writable());

    let mut f = base.clone();
    f.nodes[4] = RvsdgBody::BasicOp(BasicExpr::Call("g".to_string(), vec![], 3, None));
    assert!(!f.is_writable());
    f.nodes[4] = RvsdgBody::BasicOp(BasicExpr::Call("g".to_string(), vec![], 1, None));
    assert!(f.is_writable());

    let mut f = base.clone();
    if let RvsdgBody::Gamma { outputs, .. } = &mut f.nodes[3] {
        outputs[1].pop();
    }
    assert!(!f.is_well_formed());
    assert!(!f.is_writable());
    assert!(f.to_term_graph().is_none());

    let mut f = base.clone();
    f.n_args = 3;
    assert!(!f.is_writable());

    let mut f = base.clone();
    f.args.clear();
    f.n_args = 0;
    assert!(!f.is_writable());

    let mut f = base.clone();
    f.state = Operand::Arg(usize::MAX);
    assert!(!f.is_writable());
    f.state = Operand::Arg(i64::MAX as usize);
    assert!(f.is_writable());
    let (root, graph) = f.to_term_graph().unwrap();
    let decoded = RvsdgFunction::egglog_term_to_function(&root, &graph).unwrap();
    assert_eq!(decoded.state, f.state);
    assert!(decoded.same_tree(&f));
    // the nodes that nothing refers to are not written
    assert!(decoded.nodes.is_empty());

    let mut f = base.clone();
    f.state = Operand::Id(8);
    assert!(!f.is_writable());

    let mut f = base.clone();
    if let RvsdgBody::Gamma { outputs, .. } = &mut f.nodes[3] {
        outputs[1][0] = Operand::Project(usize::MAX, 1);
    }
    assert!(!f.is_writable());
}
