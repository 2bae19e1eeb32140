//! Reading a term does not depend on the terms that come after those it
//! refers to, nor on depth allowed beyond what it needs: what a term
//! spells out over a graph, it spells out over every graph that holds the
//! same terms at the same indices, at every greater depth.

use vstd::prelude::*;

use super::decoding::{
    chain_elements, decode_literal, decode_option_type, decode_rvsdg_type, decode_signature,
    decode_type, decode_types_upto, first_dangling, first_dangling_from, list_elements,
};
use super::terms::NodeModel;
use super::trees::{
    read_body, read_expr, read_operand, read_operand_list, read_operand_rows, read_operands_upto,
    read_rows_upto,
};

verus! {

/// Whether `h` holds the terms of `g` at their indices.
pub open spec fn graph_extends(g: Seq<NodeModel>, h: Seq<NodeModel>) -> bool {
    &&& g.len() <= h.len()
    &&& forall|i: int| 0 <= i < g.len() ==> h[i] == g[i]
}

/// Where no child from `from` on dangles, each of them lies inside the
/// graph.
pub proof fn lemma_inside_from(children: Seq<usize>, bound: nat, from: int, k: int)
    requires
        first_dangling_from(children, bound, from) is None,
        0 <= from <= k < children.len(),
    ensures
        children[k] < bound,
    decreases children.len() - from,
{
    if from < k {
        lemma_inside_from(children, bound, from + 1, k);
    }
}

/// Where no child dangles, every child lies inside the graph.
pub proof fn lemma_inside(children: Seq<usize>, bound: nat, k: int)
    requires
        first_dangling(children, bound) is None,
        0 <= k < children.len(),
    ensures
        children[k] < bound,
{
    lemma_inside_from(children, bound, 0, k);
}

/// Children that do not dangle in a graph do not dangle in a larger one.
pub proof fn lemma_still_inside_from(children: Seq<usize>, small: nat, large: nat, from: int)
    requires
        small <= large,
        from >= 0,
        first_dangling_from(children, small, from) is None,
    ensures
        first_dangling_from(children, large, from) is None,
    decreases children.len() - from,
{
    if from < children.len() {
        lemma_still_inside_from(children, small, large, from + 1);
    }
}

/// What a term gives over `g`, it gives over `h`: the facts about its
/// children that every lemma below starts from.
proof fn lemma_children_carry_over(
    g: Seq<NodeModel>,
    h: Seq<NodeModel>,
    children: Seq<usize>,
)
    requires
        graph_extends(g, h),
        first_dangling(children, g.len()) is None,
    ensures
        first_dangling(children, h.len()) is None,
        forall|k: int| 0 <= k < children.len() ==> children[k] < g.len() && h[children[k] as int]
            == g[children[k] as int],
{
    lemma_still_inside_from(children, g.len(), h.len(), 0);
    assert forall|k: int| 0 <= k < children.len() implies children[k] < g.len()
        && h[children[k] as int] == g[children[k] as int] by {
        lemma_inside(children, g.len(), k);
    }
}

pub proof fn lemma_type_grows(
    g: Seq<NodeModel>,
    h: Seq<NodeModel>,
    node: NodeModel,
    fuel: nat,
    more: nat,
)
    requires
        graph_extends(g, h),
        fuel <= more,
        decode_type(g, node, fuel) is Ok,
    ensures
        decode_type(h, node, more) == decode_type(g, node, fuel),
    decreases fuel,
{
    if let NodeModel::App(head, children) = node {
        lemma_children_carry_over(g, h, children);
        if head == "PointerT"@ && children.len() == 1 && !(head == "IntT"@ && children.len() == 0)
            && !(head == "BoolT"@ && children.len() == 0) && !(head == "FloatT"@
            && children.len() == 0) && !(head == "CharT"@ && children.len() == 0) {
            lemma_type_grows(
                g,
                h,
                g[children[0] as int],
                (fuel - 1) as nat,
                (more - 1) as nat,
            );
        }
    }
}

pub proof fn lemma_option_type_grows(
    g: Seq<NodeModel>,
    h: Seq<NodeModel>,
    node: NodeModel,
    fuel: nat,
    more: nat,
)
    requires
        graph_extends(g, h),
        fuel <= more,
        decode_option_type(g, node, fuel) is Ok,
    ensures
        decode_option_type(h, node, more) == decode_option_type(g, node, fuel),
{
    if let NodeModel::App(head, children) = node {
        lemma_children_carry_over(g, h, children);
        if head == "SomeType"@ && children.len() == 1 {
            lemma_type_grows(g, h, g[children[0] as int], fuel, more);
        }
    }
}

pub proof fn lemma_rvsdg_type_grows(
    g: Seq<NodeModel>,
    h: Seq<NodeModel>,
    node: NodeModel,
    fuel: nat,
    more: nat,
)
    requires
        graph_extends(g, h),
        fuel <= more,
        decode_rvsdg_type(g, node, fuel) is Ok,
    ensures
        decode_rvsdg_type(h, node, more) == decode_rvsdg_type(g, node, fuel),
{
    if let NodeModel::App(head, children) = node {
        lemma_children_carry_over(g, h, children);
        if children.len() == 1 {
            lemma_type_grows(g, h, g[children[0] as int], fuel, more);
        }
    }
}

pub proof fn lemma_literal_grows(g: Seq<NodeModel>, h: Seq<NodeModel>, node: NodeModel)
    requires
        graph_extends(g, h),
        decode_literal(g, node) is Ok,
    ensures
        decode_literal(h, node) == decode_literal(g, node),
{
    if let NodeModel::App(head, children) = node {
        lemma_children_carry_over(g, h, children);
    }
}

pub proof fn lemma_chain_grows(
    g: Seq<NodeModel>,
    h: Seq<NodeModel>,
    node: NodeModel,
    fuel: nat,
    more: nat,
)
    requires
        graph_extends(g, h),
        fuel <= more,
        chain_elements(g, node, fuel) is Ok,
    ensures
        chain_elements(h, node, more) == chain_elements(g, node, fuel),
    decreases fuel,
{
    if let NodeModel::App(head, children) = node {
        if head == "vec-push"@ && children.len() == 2 {
            lemma_chain_grows(
                g,
                h,
                g[children[1] as int],
                (fuel - 1) as nat,
                (more - 1) as nat,
            );
        }
    }
}

pub proof fn lemma_list_grows(
    g: Seq<NodeModel>,
    h: Seq<NodeModel>,
    node: NodeModel,
    fuel: nat,
    more: nat,
)
    requires
        graph_extends(g, h),
        fuel <= more,
        list_elements(g, node, fuel) is Ok,
    ensures
        list_elements(h, node, more) == list_elements(g, node, fuel),
{
    if !(node is App && node->App_0 == "vec-of"@) {
        lemma_chain_grows(g, h, node, fuel, more);
    }
}

pub proof fn lemma_types_grow(
    g: Seq<NodeModel>,
    h: Seq<NodeModel>,
    ids: Seq<usize>,
    k: nat,
    fuel: nat,
    more: nat,
)
    requires
        graph_extends(g, h),
        fuel <= more,
        k <= ids.len(),
        decode_types_upto(g, ids, k, fuel) is Ok,
    ensures
        decode_types_upto(h, ids, k, more) == decode_types_upto(g, ids, k, fuel),
    decreases k,
{
    if k > 0 {
        lemma_types_grow(g, h, ids, (k - 1) as nat, fuel, more);
        lemma_rvsdg_type_grows(g, h, g[ids[k - 1] as int], fuel, more);
    }
}

pub proof fn lemma_signature_grows(
    g: Seq<NodeModel>,
    h: Seq<NodeModel>,
    node: NodeModel,
    fuel: nat,
    more: nat,
)
    requires
        graph_extends(g, h),
        fuel <= more,
        decode_signature(g, node, fuel) is Ok,
    ensures
        decode_signature(h, node, more) == decode_signature(g, node, fuel),
{
    lemma_list_grows(g, h, node, fuel, more);
    let ids = list_elements(g, node, fuel)->Ok_0.0;
    lemma_types_grow(g, h, ids, ids.len(), fuel, more);
}

pub proof fn lemma_operand_grows(
    g: Seq<NodeModel>,
    h: Seq<NodeModel>,
    node: NodeModel,
    fuel: nat,
    more: nat,
)
    requires
        graph_extends(g, h),
        fuel <= more,
        read_operand(g, node, fuel) is Ok,
    ensures
        read_operand(h, node, more) == read_operand(g, node, fuel),
    decreases fuel, 0nat, 0nat,
{
    if let NodeModel::App(head, children) = node {
        lemma_children_carry_over(g, h, children);
        if fuel > 0 && children.len() > 0 {
            let body = g[children[children.len() - 1] as int];
            if read_body(g, body, (fuel - 1) as nat) is Ok {
                lemma_body_grows(g, h, body, (fuel - 1) as nat, (more - 1) as nat);
            }
        }
    }
}

pub proof fn lemma_operands_grow(
    g: Seq<NodeModel>,
    h: Seq<NodeModel>,
    ids: Seq<usize>,
    k: nat,
    fuel: nat,
    more: nat,
)
    requires
        graph_extends(g, h),
        fuel <= more,
        k <= ids.len(),
        read_operands_upto(g, ids, k, fuel) is Ok,
    ensures
        read_operands_upto(h, ids, k, more) == read_operands_upto(g, ids, k, fuel),
    decreases fuel, 1nat, k,
{
    if k > 0 {
        lemma_operands_grow(g, h, ids, (k - 1) as nat, fuel, more);
        lemma_operand_grows(g, h, g[ids[k - 1] as int], fuel, more);
    }
}

pub proof fn lemma_operand_list_grows(
    g: Seq<NodeModel>,
    h: Seq<NodeModel>,
    node: NodeModel,
    fuel: nat,
    more: nat,
)
    requires
        graph_extends(g, h),
        fuel <= more,
        read_operand_list(g, node, fuel) is Ok,
    ensures
        read_operand_list(h, node, more) == read_operand_list(g, node, fuel),
    decreases fuel, 2nat, 0nat,
{
    if let NodeModel::App(head, children) = node {
        lemma_children_carry_over(g, h, children);
        lemma_list_grows(g, h, g[children[0] as int], fuel, more);
        let ids = list_elements(g, g[children[0] as int], fuel)->Ok_0.0;
        lemma_operands_grow(g, h, ids, ids.len(), fuel, more);
    }
}

pub proof fn lemma_rows_grow(
    g: Seq<NodeModel>,
    h: Seq<NodeModel>,
    ids: Seq<usize>,
    k: nat,
    fuel: nat,
    more: nat,
)
    requires
        graph_extends(g, h),
        fuel <= more,
        k <= ids.len(),
        read_rows_upto(g, ids, k, fuel) is Ok,
    ensures
        read_rows_upto(h, ids, k, more) == read_rows_upto(g, ids, k, fuel),
    decreases fuel, 3nat, k,
{
    if k > 0 {
        lemma_rows_grow(g, h, ids, (k - 1) as nat, fuel, more);
        lemma_operand_list_grows(g, h, g[ids[k - 1] as int], fuel, more);
    }
}

pub proof fn lemma_operand_rows_grow(
    g: Seq<NodeModel>,
    h: Seq<NodeModel>,
    node: NodeModel,
    fuel: nat,
    more: nat,
)
    requires
        graph_extends(g, h),
        fuel <= more,
        read_operand_rows(g, node, fuel) is Ok,
    ensures
        read_operand_rows(h, node, more) == read_operand_rows(g, node, fuel),
    decreases fuel, 4nat, 0nat,
{
    if let NodeModel::App(head, children) = node {
        lemma_children_carry_over(g, h, children);
        lemma_list_grows(g, h, g[children[0] as int], fuel, more);
        let ids = list_elements(g, g[children[0] as int], fuel)->Ok_0.0;
        lemma_rows_grow(g, h, ids, ids.len(), fuel, more);
    }
}

pub proof fn lemma_expr_grows(
    g: Seq<NodeModel>,
    h: Seq<NodeModel>,
    node: NodeModel,
    fuel: nat,
    more: nat,
)
    requires
        graph_extends(g, h),
        fuel <= more,
        read_expr(g, node, fuel) is Ok,
    ensures
        read_expr(h, node, more) == read_expr(g, node, fuel),
    decreases fuel, 5nat, 0nat,
{
    if let NodeModel::App(head, children) = node {
        lemma_children_carry_over(g, h, children);
        if children.len() == 3 {
            if read_operand_list(g, g[children[2] as int], fuel) is Ok {
                lemma_operand_list_grows(g, h, g[children[2] as int], fuel, more);
            }
            if decode_option_type(g, g[children[0] as int], fuel) is Ok {
                lemma_option_type_grows(g, h, g[children[0] as int], fuel, more);
            }
            if decode_literal(g, g[children[2] as int]) is Ok {
                lemma_literal_grows(g, h, g[children[2] as int]);
            }
            if decode_type(g, g[children[0] as int], fuel) is Ok {
                lemma_type_grows(g, h, g[children[0] as int], fuel, more);
            }
            if read_operand(g, g[children[1] as int], fuel) is Ok {
                lemma_operand_grows(g, h, g[children[1] as int], fuel, more);
            }
            if read_operand(g, g[children[2] as int], fuel) is Ok {
                lemma_operand_grows(g, h, g[children[2] as int], fuel, more);
            }
        } else if children.len() == 2 {
            lemma_operand_grows(g, h, g[children[0] as int], fuel, more);
            lemma_operand_grows(g, h, g[children[1] as int], fuel, more);
        }
    }
}

pub proof fn lemma_body_grows(
    g: Seq<NodeModel>,
    h: Seq<NodeModel>,
    node: NodeModel,
    fuel: nat,
    more: nat,
)
    requires
        graph_extends(g, h),
        fuel <= more,
        read_body(g, node, fuel) is Ok,
    ensures
        read_body(h, node, more) == read_body(g, node, fuel),
    decreases fuel, 6nat, 0nat,
{
    if let NodeModel::App(head, children) = node {
        lemma_children_carry_over(g, h, children);
        if children.len() == 1 {
            lemma_expr_grows(g, h, g[children[0] as int], fuel, more);
        } else if children.len() == 3 {
            lemma_operand_grows(g, h, g[children[0] as int], fuel, more);
            lemma_operand_list_grows(g, h, g[children[1] as int], fuel, more);
            if read_operand_rows(g, g[children[2] as int], fuel) is Ok {
                lemma_operand_rows_grow(g, h, g[children[2] as int], fuel, more);
            }
            if read_operand_list(g, g[children[2] as int], fuel) is Ok {
                lemma_operand_list_grows(g, h, g[children[2] as int], fuel, more);
            }
        }
    }
}

} // verus!
