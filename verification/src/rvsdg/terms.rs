//! The term substrate seen from the decoder: terms as plain values, in an
//! arena where they refer to one another by index.

use vstd::prelude::*;

verus! {

/// A literal inside a term. A floating-point literal is held by the 64
/// bits of its IEEE 754 binary64 representation.
#[derive(Clone, Debug, PartialEq, Eq, Hash)]
pub enum TermLit {
    Int(i64),
    Float(u64),
    Str(String),
    Bool(bool),
    Unit,
}

/// One term: a literal, a variable, or a head symbol applied to the terms
/// at the given indices of the graph.
#[derive(Debug, PartialEq, Eq, Hash)]
pub enum TermNode {
    Lit(TermLit),
    Var(String),
    App(String, Vec<usize>),
}

/// An arena of terms that refer to one another by index.
#[derive(Debug, PartialEq, Eq)]
pub struct TermGraph {
    pub nodes: Vec<TermNode>,
}

/// The mathematical value of a [`TermLit`].
pub enum LitModel {
    Int(i64),
    Float(u64),
    Str(Seq<char>),
    Bool(bool),
    Unit,
}

/// The mathematical value of a [`TermNode`].
pub enum NodeModel {
    Lit(LitModel),
    Var(Seq<char>),
    App(Seq<char>, Seq<usize>),
}

impl View for TermLit {
    type V = LitModel;

    open spec fn view(&self) -> LitModel {
        match *self {
            TermLit::Int(n) => LitModel::Int(n),
            TermLit::Float(bits) => LitModel::Float(bits),
            TermLit::Str(s) => LitModel::Str(s@),
            TermLit::Bool(b) => LitModel::Bool(b),
            TermLit::Unit => LitModel::Unit,
        }
    }
}

impl View for TermNode {
    type V = NodeModel;

    open spec fn view(&self) -> NodeModel {
        match *self {
            TermNode::Lit(lit) => NodeModel::Lit(lit@),
            TermNode::Var(name) => NodeModel::Var(name@),
            TermNode::App(head, children) => NodeModel::App(head@, children@),
        }
    }
}

impl View for TermGraph {
    type V = Seq<NodeModel>;

    open spec fn view(&self) -> Seq<NodeModel> {
        self.nodes@.map_values(|n: TermNode| n@)
    }
}

impl Clone for TermNode {
    fn clone(&self) -> (r: TermNode)
        ensures
            r@ == self@,
    {
        match self {
            TermNode::Lit(TermLit::Int(n)) => TermNode::Lit(TermLit::Int(*n)),
            TermNode::Lit(TermLit::Float(bits)) => TermNode::Lit(TermLit::Float(*bits)),
            TermNode::Lit(TermLit::Str(s)) => TermNode::Lit(TermLit::Str(s.clone())),
            TermNode::Lit(TermLit::Bool(b)) => TermNode::Lit(TermLit::Bool(*b)),
            TermNode::Lit(TermLit::Unit) => TermNode::Lit(TermLit::Unit),
            TermNode::Var(name) => TermNode::Var(name.clone()),
            TermNode::App(head, children) => {
                let copies = children.clone();
                assert(copies@ =~= children@);
                TermNode::App(head.clone(), copies)
            },
        }
    }
}

/// Whether two strings hold the same characters.
pub(crate) fn str_eq(a: &str, b: &str) -> (r: bool)
    ensures
        r == (a@ == b@),
{
    let x = a.to_owned();
    let y = b.to_owned();
    x == y
}

} // verus!
