//! What holds of every decoding: an unknown body is a failure, both list
//! encodings give back the order of their elements, a gamma node keeps the
//! rows of its term and has them of one width, an operator is known by its
//! name, and the depth limit binds no graph in which every term comes
//! after its children.

use vstd::prelude::*;

use super::decoding::{
    chain_elements, decode_body, decode_expr, decode_function, decode_operand, decode_operand_list,
    decode_operand_rows, decode_operands_upto, decode_option_type, decode_rows_upto,
    decode_rvsdg_type, decode_signature, decode_type, decode_types_upto, first_dangling,
    first_dangling_from, in_list_order, lemma_same_width_in_list_order, list_elements,
    list_items, malformed, value_op,
    value_op_name, Arena, DecodeErrorModel, Shape,
};
use super::growth::lemma_inside;
use super::terms::NodeModel;
use super::{same_width, BodyModel, Operand};
use crate::bril::ValueOps;

verus! {

/// Whether `node` has the head and the number of children of a body term.
pub open spec fn is_body_shape(node: NodeModel) -> bool {
    node matches NodeModel::App(head, children) && {
        ||| head == "PureOp"@ && children.len() == 1
        ||| head == "Gamma"@ && children.len() == 3
        ||| head == "Theta"@ && children.len() == 3
    }
}

/// A term that is a literal or a variable, or whose head and number of
/// children are none of those of a body, is no body: decoding it fails,
/// names the term, and leaves no node behind.
pub proof fn lemma_unknown_body_fails(g: Seq<NodeModel>, node: NodeModel, arena: Arena, fuel: nat)
    requires
        !is_body_shape(node),
    ensures
        decode_body(g, node, arena, fuel) == malformed::<(usize, Arena)>(Shape::Body, node),
{
}

/// An operand that refers to a term that is no body is not skipped:
/// decoding the operand fails with the failure of that term.
pub proof fn lemma_operand_of_unknown_body_fails(
    g: Seq<NodeModel>,
    body: usize,
    arena: Arena,
    fuel: nat,
)
    requires
        body < g.len(),
        fuel > 0,
        !is_body_shape(g[body as int]),
    ensures
        decode_operand(g, NodeModel::App("Node"@, seq![body]), arena, fuel) == malformed::<
            (Operand, Arena),
        >(Shape::Body, g[body as int]),
{
    let children = seq![body];
    assert(first_dangling_from(children, g.len(), 1) is None);
    assert(first_dangling(children, g.len()) is None);
    lemma_unknown_body_fails(g, g[body as int], arena, (fuel - 1) as nat);
    reveal_strlit("Arg");
    reveal_strlit("Node");
    assert("Arg"@ != "Node"@) by {
        assert("Arg"@.len() != "Node"@.len());
    }
}

/// Whether the chain of pushes at `node` encodes the list `items`: each
/// push holds the last element of its list and the chain of the elements
/// before it.
pub open spec fn is_chain(g: Seq<NodeModel>, node: NodeModel, items: Seq<usize>) -> bool
    decreases items.len(),
{
    if items.len() == 0 {
        node == NodeModel::App("vec-empty"@, Seq::empty())
    } else {
        &&& node matches NodeModel::App(head, children)
        &&& head == "vec-push"@
        &&& children.len() == 2
        &&& children[0] == items.last()
        &&& children[1] < g.len()
        &&& is_chain(g, g[children[1] as int], items.drop_last())
    }
}

/// The three list heads are three different symbols.
proof fn lemma_list_heads_differ()
    ensures
        "vec-of"@ != "vec-push"@,
        "vec-of"@ != "vec-empty"@,
        "vec-push"@ != "vec-empty"@,
{
    reveal_strlit("vec-of");
    reveal_strlit("vec-push");
    reveal_strlit("vec-empty");
    assert("vec-of"@.len() == 6);
    assert("vec-push"@.len() == 8);
    assert("vec-empty"@.len() == 9);
}

/// Walking a chain visits its elements from the last to the first.
proof fn lemma_chain_walk(g: Seq<NodeModel>, node: NodeModel, items: Seq<usize>, fuel: nat)
    requires
        is_chain(g, node, items),
        fuel >= items.len(),
    ensures
        chain_elements(g, node, fuel) == Ok::<Seq<usize>, DecodeErrorModel>(items.reverse()),
    decreases items.len(),
{
    lemma_list_heads_differ();
    if items.len() == 0 {
        assert(items.reverse() =~= Seq::<usize>::empty());
    } else {
        let children = node->App_1;
        lemma_chain_walk(g, g[children[1] as int], items.drop_last(), (fuel - 1) as nat);
        assert(seq![children[0]] + items.drop_last().reverse() =~= items.reverse());
    }
}

/// A flat vector of `items` decodes to `items`, in their order, whatever
/// their number.
pub proof fn lemma_flat_list_round_trip(g: Seq<NodeModel>, items: Seq<usize>, fuel: nat)
    ensures
        list_items(g, NodeModel::App("vec-of"@, items), fuel) == Ok::<
            Seq<usize>,
            DecodeErrorModel,
        >(items),
{
}

/// A chain of pushes that encodes `items` decodes to `items`, in their
/// order, whatever their number, where the depth allowed is at least the
/// length of the chain.
pub proof fn lemma_chain_round_trip(
    g: Seq<NodeModel>,
    node: NodeModel,
    items: Seq<usize>,
    fuel: nat,
)
    requires
        is_chain(g, node, items),
        fuel >= items.len(),
    ensures
        list_items(g, node, fuel) == Ok::<Seq<usize>, DecodeErrorModel>(items),
{
    lemma_list_heads_differ();
    lemma_chain_walk(g, node, items, fuel);
    assert(items.reverse().reverse() =~= items);
}

/// Whether every chain of pushes at `node`, no longer than the depth
/// allowed, decodes to the list that it encodes.
pub open spec fn chains_decode(g: Seq<NodeModel>, node: NodeModel, fuel: nat) -> bool {
    forall|items: Seq<usize>|
        #[trigger] is_chain(g, node, items) && items.len() <= fuel ==> list_items(g, node, fuel)
            == Ok::<Seq<usize>, DecodeErrorModel>(items)
}

/// Every chain of pushes decodes to the list that it encodes.
pub proof fn lemma_chains_decode(g: Seq<NodeModel>, node: NodeModel, fuel: nat)
    ensures
        chains_decode(g, node, fuel),
{
    assert forall|items: Seq<usize>|
        #[trigger] is_chain(g, node, items) && items.len() <= fuel implies list_items(
        g,
        node,
        fuel,
    ) == Ok::<Seq<usize>, DecodeErrorModel>(items) by {
        lemma_chain_round_trip(g, node, items, fuel);
    }
}

/// Whether the term at index `id` decodes to the operand `op` against
/// some arena.
pub open spec fn decodes_to(g: Seq<NodeModel>, id: usize, op: Operand, fuel: nat) -> bool {
    exists|arena: Arena|
        (#[trigger] decode_operand(g, g[id as int], arena, fuel)) matches Ok((found, _))
            && found == op
}

/// The operands of the first `k` terms come out one for one, in order.
proof fn lemma_operands_one_for_one(
    g: Seq<NodeModel>,
    ids: Seq<usize>,
    k: nat,
    arena: Arena,
    fuel: nat,
)
    requires
        k <= ids.len(),
        decode_operands_upto(g, ids, k, arena, fuel) is Ok,
    ensures
        decode_operands_upto(g, ids, k, arena, fuel)->Ok_0.0.len() == k,
        forall|j: int|
            0 <= j < k ==> decodes_to(
                g,
                ids[j],
                #[trigger] decode_operands_upto(g, ids, k, arena, fuel)->Ok_0.0[j],
                fuel,
            ),
    decreases k,
{
    if k > 0 {
        lemma_operands_one_for_one(g, ids, (k - 1) as nat, arena, fuel);
        let before = decode_operands_upto(g, ids, (k - 1) as nat, arena, fuel)->Ok_0;
        let ops = decode_operands_upto(g, ids, k, arena, fuel)->Ok_0.0;
        assert(decode_operand(g, g[ids[k - 1] as int], before.1, fuel) is Ok);
        assert(decodes_to(g, ids[k - 1], ops[k - 1], fuel));
        assert forall|j: int| 0 <= j < k implies decodes_to(g, ids[j], #[trigger] ops[j], fuel) by {
            if j < k - 1 {
                assert(ops[j] == before.0[j]);
            }
        }
    }
}

/// The list term under the `VO` or `VVO` head of `node`.
pub open spec fn listed(g: Seq<NodeModel>, node: NodeModel) -> NodeModel {
    g[node->App_1[0] as int]
}

/// Whether `ops` holds one operand for each element of the list of
/// operand terms under `node`, each decoded from the element at its
/// position.
pub open spec fn list_keeps_its_order(
    g: Seq<NodeModel>,
    node: NodeModel,
    ops: Seq<Operand>,
    fuel: nat,
) -> bool {
    &&& list_items(g, listed(g, node), fuel) is Ok
    &&& ops.len() == list_items(g, listed(g, node), fuel)->Ok_0.len()
    &&& forall|k: int|
        0 <= k < ops.len() ==> decodes_to(
            g,
            #[trigger] list_items(g, listed(g, node), fuel)->Ok_0[k],
            ops[k],
            fuel,
        )
}

/// A list of operand terms that decodes gives one operand for each
/// element of the list, and the operand at each position is decoded from
/// the element at that position, in the flat form and in the chain form
/// alike.
pub proof fn lemma_operand_list_order(g: Seq<NodeModel>, node: NodeModel, arena: Arena, fuel: nat)
    requires
        decode_operand_list(g, node, arena, fuel) is Ok,
    ensures
        list_items(g, listed(g, node), fuel) is Ok,
        decode_operand_list(g, node, arena, fuel)->Ok_0.0.len() == list_items(
            g,
            listed(g, node),
            fuel,
        )->Ok_0.len(),
        forall|k: int|
            0 <= k < list_items(g, listed(g, node), fuel)->Ok_0.len() ==> decodes_to(
                g,
                #[trigger] list_items(g, listed(g, node), fuel)->Ok_0[k],
                decode_operand_list(g, node, arena, fuel)->Ok_0.0[k],
                fuel,
            ),
{
    let (ids, backwards) = list_elements(g, listed(g, node), fuel)->Ok_0;
    lemma_operands_one_for_one(g, ids, ids.len(), arena, fuel);
    let visited = decode_operands_upto(g, ids, ids.len(), arena, fuel)->Ok_0.0;
    let items = in_list_order(ids, backwards);
    let ops = in_list_order(visited, backwards);
    assert forall|k: int| 0 <= k < items.len() implies decodes_to(
        g,
        #[trigger] items[k],
        ops[k],
        fuel,
    ) by {
        if backwards {
            let j = ids.len() - 1 - k;
            assert(items[k] == ids[j]);
            assert(ops[k] == visited[j]);
            assert(decodes_to(g, ids[j], visited[j], fuel));
        } else {
            assert(decodes_to(g, ids[k], visited[k], fuel));
        }
    }
}

/// The number of operands that the row term at index `id` lists.
pub open spec fn row_len(g: Seq<NodeModel>, id: usize, fuel: nat) -> nat {
    list_items(g, listed(g, g[id as int]), fuel)->Ok_0.len()
}

/// Whether the row term at index `id` decodes to the row `row` against
/// some arena.
pub open spec fn row_decodes_to(
    g: Seq<NodeModel>,
    id: usize,
    row: Seq<Operand>,
    fuel: nat,
) -> bool {
    exists|arena: Arena|
        (#[trigger] decode_operand_list(g, g[id as int], arena, fuel)) matches Ok((found, _))
            && found == row
}

/// The rows of the first `k` terms come out one for one, each as long as
/// its term lists operands.
proof fn lemma_rows_one_for_one(
    g: Seq<NodeModel>,
    ids: Seq<usize>,
    k: nat,
    arena: Arena,
    fuel: nat,
)
    requires
        k <= ids.len(),
        decode_rows_upto(g, ids, k, arena, fuel) is Ok,
    ensures
        decode_rows_upto(g, ids, k, arena, fuel)->Ok_0.0.len() == k,
        forall|j: int|
            0 <= j < k ==> (#[trigger] decode_rows_upto(g, ids, k, arena, fuel)->Ok_0.0[j]).len()
                == row_len(g, ids[j], fuel) && row_decodes_to(
                g,
                ids[j],
                decode_rows_upto(g, ids, k, arena, fuel)->Ok_0.0[j],
                fuel,
            ),
    decreases k,
{
    if k > 0 {
        lemma_rows_one_for_one(g, ids, (k - 1) as nat, arena, fuel);
        let before = decode_rows_upto(g, ids, (k - 1) as nat, arena, fuel)->Ok_0;
        let rows = decode_rows_upto(g, ids, k, arena, fuel)->Ok_0.0;
        lemma_operand_list_order(g, g[ids[k - 1] as int], before.1, fuel);
        assert(decode_operand_list(g, g[ids[k - 1] as int], before.1, fuel) is Ok);
        assert(row_decodes_to(g, ids[k - 1], rows[k - 1], fuel));
        assert forall|j: int| 0 <= j < k implies (#[trigger] rows[j]).len() == row_len(
            g,
            ids[j],
            fuel,
        ) && row_decodes_to(g, ids[j], rows[j], fuel) by {
            if j < k - 1 {
                assert(rows[j] == before.0[j]);
            }
        }
    }
}

/// A list of rows that decodes gives one row for each row term, in order:
/// the row at each position is decoded from the row term at that position,
/// and is as long as that term lists operands.
pub proof fn lemma_rows_keep_their_shape(
    g: Seq<NodeModel>,
    node: NodeModel,
    arena: Arena,
    fuel: nat,
)
    requires
        decode_operand_rows(g, node, arena, fuel) is Ok,
    ensures
        list_items(g, listed(g, node), fuel) is Ok,
        decode_operand_rows(g, node, arena, fuel)->Ok_0.0.len() == list_items(
            g,
            listed(g, node),
            fuel,
        )->Ok_0.len(),
        forall|k: int|
            0 <= k < list_items(g, listed(g, node), fuel)->Ok_0.len() ==> (
            #[trigger] decode_operand_rows(g, node, arena, fuel)->Ok_0.0[k]).len() == row_len(
                g,
                list_items(g, listed(g, node), fuel)->Ok_0[k],
                fuel,
            ) && row_decodes_to(
                g,
                list_items(g, listed(g, node), fuel)->Ok_0[k],
                decode_operand_rows(g, node, arena, fuel)->Ok_0.0[k],
                fuel,
            ),
{
    let (ids, backwards) = list_elements(g, listed(g, node), fuel)->Ok_0;
    lemma_rows_one_for_one(g, ids, ids.len(), arena, fuel);
    let visited = decode_rows_upto(g, ids, ids.len(), arena, fuel)->Ok_0.0;
    let items = in_list_order(ids, backwards);
    let rows = in_list_order(visited, backwards);
    assert forall|k: int| 0 <= k < items.len() implies (#[trigger] rows[k]).len() == row_len(
        g,
        items[k],
        fuel,
    ) && row_decodes_to(g, items[k], rows[k], fuel) by {
        if backwards {
            let j = ids.len() - 1 - k;
            assert(items[k] == ids[j]);
            assert(rows[k] == visited[j]);
            assert(row_decodes_to(g, ids[j], visited[j], fuel));
        } else {
            assert(row_decodes_to(g, ids[k], visited[k], fuel));
        }
    }
}

/// Whether `node` is a gamma term: the head of one, on a predicate, a list
/// of inputs and a list of rows.
pub open spec fn is_gamma_term(node: NodeModel) -> bool {
    node matches NodeModel::App(head, children) && head == "Gamma"@ && children.len() == 3
}

/// The cases of a gamma term: the row terms that its list of rows holds,
/// in the list's order.
pub open spec fn gamma_cases(g: Seq<NodeModel>, node: NodeModel, fuel: nat) -> Seq<usize> {
    list_items(g, listed(g, g[node->App_1[2] as int]), fuel)->Ok_0
}

/// Whether `body` is a gamma node with one row of outputs for each case of
/// the gamma term `node`, the row at each position decoded from the case
/// at that position, and all rows of one width.
pub open spec fn gamma_keeps_its_cases(
    g: Seq<NodeModel>,
    node: NodeModel,
    body: BodyModel,
    fuel: nat,
) -> bool {
    body matches BodyModel::Gamma { outputs, .. } && {
        &&& outputs.len() == gamma_cases(g, node, fuel).len()
        &&& same_width(outputs)
        &&& forall|k: int|
            0 <= k < outputs.len() ==> row_decodes_to(
                g,
                gamma_cases(g, node, fuel)[k],
                #[trigger] outputs[k],
                fuel,
            )
    }
}

/// The node that a gamma term decodes to is pushed last, and it has one
/// row of outputs for each case of the term: the row for the predicate
/// value `k` is what the case at position `k` decodes to.
pub proof fn lemma_gamma_keeps_its_cases(
    g: Seq<NodeModel>,
    node: NodeModel,
    arena: Arena,
    fuel: nat,
)
    requires
        is_gamma_term(node),
        decode_body(g, node, arena, fuel) is Ok,
    ensures
        gamma_keeps_its_cases(g, node, decode_body(g, node, arena, fuel)->Ok_0.1.last(), fuel),
{
    reveal_strlit("PureOp");
    reveal_strlit("Gamma");
    assert("PureOp"@ != "Gamma"@) by {
        assert("PureOp"@.len() != "Gamma"@.len());
    }
    let children = node->App_1;
    let (pred, after_pred) = decode_operand(g, g[children[0] as int], arena, fuel)->Ok_0;
    let (inputs, after_inputs) = decode_operand_list(
        g,
        g[children[1] as int],
        after_pred,
        fuel,
    )->Ok_0;
    lemma_rows_keep_their_shape(g, g[children[2] as int], after_inputs, fuel);
    lemma_decoded_rows_have_one_width(g, g[children[2] as int], after_inputs, fuel);
}

/// The rows that a list of rows decodes to have the same number of
/// operands.
pub proof fn lemma_decoded_rows_have_one_width(
    g: Seq<NodeModel>,
    node: NodeModel,
    arena: Arena,
    fuel: nat,
)
    requires
        decode_operand_rows(g, node, arena, fuel) is Ok,
    ensures
        same_width(decode_operand_rows(g, node, arena, fuel)->Ok_0.0),
{
    let (ids, backwards) = list_elements(g, listed(g, node), fuel)->Ok_0;
    let rows = decode_rows_upto(g, ids, ids.len(), arena, fuel)->Ok_0.0;
    lemma_same_width_in_list_order(rows, backwards);
}

/// The node that a gamma term decodes to has one row of outputs for each
/// case of the term, and all its rows have the same number of outputs.
pub proof fn lemma_gamma_branch_count(g: Seq<NodeModel>, node: NodeModel, arena: Arena, fuel: nat)
    requires
        is_gamma_term(node),
        decode_body(g, node, arena, fuel) is Ok,
    ensures
        decode_body(g, node, arena, fuel)->Ok_0.1.last() matches BodyModel::Gamma {
            outputs,
            ..
        } && outputs.len() == gamma_cases(g, node, fuel).len() && same_width(outputs),
{
    lemma_gamma_keeps_its_cases(g, node, arena, fuel);
}

/// Every primitive operator has a head symbol of its own: the symbol that
/// names an operator names no other.
pub proof fn lemma_operator_names_round_trip(op: ValueOps)
    ensures
        value_op(value_op_name(op)) == Some(op),
{
    // Each name is spelled out, so that any two are told apart by their
    // lengths or by a character.
    reveal_strlit("badd");
    assert("badd"@.len() == 4);
    assert("badd"@[1] == 'a');
    assert("badd"@[2] == 'd');
    assert("badd"@[3] == 'd');
    reveal_strlit("bsub");
    assert("bsub"@.len() == 4);
    assert("bsub"@[1] == 's');
    assert("bsub"@[2] == 'u');
    assert("bsub"@[3] == 'b');
    reveal_strlit("bmul");
    assert("bmul"@.len() == 4);
    assert("bmul"@[1] == 'm');
    assert("bmul"@[2] == 'u');
    assert("bmul"@[3] == 'l');
    reveal_strlit("bdiv");
    assert("bdiv"@.len() == 4);
    assert("bdiv"@[1] == 'd');
    assert("bdiv"@[2] == 'i');
    assert("bdiv"@[3] == 'v');
    reveal_strlit("beq");
    assert("beq"@.len() == 3);
    assert("beq"@[1] == 'e');
    assert("beq"@[2] == 'q');
    reveal_strlit("blt");
    assert("blt"@.len() == 3);
    assert("blt"@[1] == 'l');
    assert("blt"@[2] == 't');
    reveal_strlit("bgt");
    assert("bgt"@.len() == 3);
    assert("bgt"@[1] == 'g');
    assert("bgt"@[2] == 't');
    reveal_strlit("ble");
    assert("ble"@.len() == 3);
    assert("ble"@[1] == 'l');
    assert("ble"@[2] == 'e');
    reveal_strlit("bge");
    assert("bge"@.len() == 3);
    assert("bge"@[1] == 'g');
    assert("bge"@[2] == 'e');
    reveal_strlit("bnot");
    assert("bnot"@.len() == 4);
    assert("bnot"@[1] == 'n');
    assert("bnot"@[2] == 'o');
    assert("bnot"@[3] == 't');
    reveal_strlit("band");
    assert("band"@.len() == 4);
    assert("band"@[1] == 'a');
    assert("band"@[2] == 'n');
    assert("band"@[3] == 'd');
    reveal_strlit("bor");
    assert("bor"@.len() == 3);
    assert("bor"@[1] == 'o');
    assert("bor"@[2] == 'r');
    reveal_strlit("bcall");
    assert("bcall"@.len() == 5);
    assert("bcall"@[1] == 'c');
    assert("bcall"@[2] == 'a');
    assert("bcall"@[3] == 'l');
    assert("bcall"@[4] == 'l');
    reveal_strlit("bid");
    assert("bid"@.len() == 3);
    assert("bid"@[1] == 'i');
    assert("bid"@[2] == 'd');
    reveal_strlit("bphi");
    assert("bphi"@.len() == 4);
    assert("bphi"@[1] == 'p');
    assert("bphi"@[2] == 'h');
    assert("bphi"@[3] == 'i');
    reveal_strlit("bfadd");
    assert("bfadd"@.len() == 5);
    assert("bfadd"@[1] == 'f');
    assert("bfadd"@[2] == 'a');
    assert("bfadd"@[3] == 'd');
    assert("bfadd"@[4] == 'd');
    reveal_strlit("bfsub");
    assert("bfsub"@.len() == 5);
    assert("bfsub"@[1] == 'f');
    assert("bfsub"@[2] == 's');
    assert("bfsub"@[3] == 'u');
    assert("bfsub"@[4] == 'b');
    reveal_strlit("bfmul");
    assert("bfmul"@.len() == 5);
    assert("bfmul"@[1] == 'f');
    assert("bfmul"@[2] == 'm');
    assert("bfmul"@[3] == 'u');
    assert("bfmul"@[4] == 'l');
    reveal_strlit("bfdiv");
    assert("bfdiv"@.len() == 5);
    assert("bfdiv"@[1] == 'f');
    assert("bfdiv"@[2] == 'd');
    assert("bfdiv"@[3] == 'i');
    assert("bfdiv"@[4] == 'v');
    reveal_strlit("bfeq");
    assert("bfeq"@.len() == 4);
    assert("bfeq"@[1] == 'f');
    assert("bfeq"@[2] == 'e');
    assert("bfeq"@[3] == 'q');
    reveal_strlit("bflt");
    assert("bflt"@.len() == 4);
    assert("bflt"@[1] == 'f');
    assert("bflt"@[2] == 'l');
    assert("bflt"@[3] == 't');
    reveal_strlit("bfgt");
    assert("bfgt"@.len() == 4);
    assert("bfgt"@[1] == 'f');
    assert("bfgt"@[2] == 'g');
    assert("bfgt"@[3] == 't');
    reveal_strlit("bfle");
    assert("bfle"@.len() == 4);
    assert("bfle"@[1] == 'f');
    assert("bfle"@[2] == 'l');
    assert("bfle"@[3] == 'e');
    reveal_strlit("bfge");
    assert("bfge"@.len() == 4);
    assert("bfge"@[1] == 'f');
    assert("bfge"@[2] == 'g');
    assert("bfge"@[3] == 'e');
    reveal_strlit("bceq");
    assert("bceq"@.len() == 4);
    assert("bceq"@[1] == 'c');
    assert("bceq"@[2] == 'e');
    assert("bceq"@[3] == 'q');
    reveal_strlit("bclt");
    assert("bclt"@.len() == 4);
    assert("bclt"@[1] == 'c');
    assert("bclt"@[2] == 'l');
    assert("bclt"@[3] == 't');
    reveal_strlit("bcgt");
    assert("bcgt"@.len() == 4);
    assert("bcgt"@[1] == 'c');
    assert("bcgt"@[2] == 'g');
    assert("bcgt"@[3] == 't');
    reveal_strlit("bcle");
    assert("bcle"@.len() == 4);
    assert("bcle"@[1] == 'c');
    assert("bcle"@[2] == 'l');
    assert("bcle"@[3] == 'e');
    reveal_strlit("bcge");
    assert("bcge"@.len() == 4);
    assert("bcge"@[1] == 'c');
    assert("bcge"@[2] == 'g');
    assert("bcge"@[3] == 'e');
    reveal_strlit("bchar2int");
    assert("bchar2int"@.len() == 9);
    assert("bchar2int"@[1] == 'c');
    assert("bchar2int"@[2] == 'h');
    assert("bchar2int"@[3] == 'a');
    assert("bchar2int"@[4] == 'r');
    assert("bchar2int"@[5] == '2');
    assert("bchar2int"@[6] == 'i');
    assert("bchar2int"@[7] == 'n');
    assert("bchar2int"@[8] == 't');
    reveal_strlit("bint2char");
    assert("bint2char"@.len() == 9);
    assert("bint2char"@[1] == 'i');
    assert("bint2char"@[2] == 'n');
    assert("bint2char"@[3] == 't');
    assert("bint2char"@[4] == '2');
    assert("bint2char"@[5] == 'c');
    assert("bint2char"@[6] == 'h');
    assert("bint2char"@[7] == 'a');
    assert("bint2char"@[8] == 'r');
    reveal_strlit("balloc");
    assert("balloc"@.len() == 6);
    assert("balloc"@[1] == 'a');
    assert("balloc"@[2] == 'l');
    assert("balloc"@[3] == 'l');
    assert("balloc"@[4] == 'o');
    assert("balloc"@[5] == 'c');
    reveal_strlit("bload");
    assert("bload"@.len() == 5);
    assert("bload"@[1] == 'l');
    assert("bload"@[2] == 'o');
    assert("bload"@[3] == 'a');
    assert("bload"@[4] == 'd');
    reveal_strlit("bptradd");
    assert("bptradd"@.len() == 7);
    assert("bptradd"@[1] == 'p');
    assert("bptradd"@[2] == 't');
    assert("bptradd"@[3] == 'r');
    assert("bptradd"@[4] == 'a');
    assert("bptradd"@[5] == 'd');
    assert("bptradd"@[6] == 'd');
}

/// Whether `node` refers only to terms at indices below `bound`.
pub open spec fn refers_below(node: NodeModel, bound: nat) -> bool {
    node matches NodeModel::App(_, children) ==> forall|k: int|
        0 <= k < children.len() ==> #[trigger] children[k] < bound
}

/// Whether every term of the graph refers only to terms before it, as in
/// every graph that was built by adding each term after its children.
pub open spec fn children_first(g: Seq<NodeModel>) -> bool {
    forall|i: int| 0 <= i < g.len() ==> refers_below(#[trigger] g[i], i as nat)
}

/// A term of a children-first graph at an index below `bound` refers below
/// `bound`.
proof fn lemma_child_refers_below(g: Seq<NodeModel>, id: usize, bound: nat)
    requires
        children_first(g),
        id < g.len(),
        id <= bound,
    ensures
        refers_below(g[id as int], bound),
{
    assert(refers_below(g[id as int], id as nat));
}

/// A type term that refers below the depth allowed is not too deep. The
/// lemmas that follow say the same of every other kind of term.
proof fn lemma_type_depth(g: Seq<NodeModel>, node: NodeModel, fuel: nat)
    requires
        children_first(g),
        refers_below(node, fuel),
    ensures
        decode_type(g, node, fuel) != Err::<crate::bril::Type, DecodeErrorModel>(
            DecodeErrorModel::TooDeep,
        ),
    decreases fuel,
{
    if let NodeModel::App(head, children) = node {
        if first_dangling(children, g.len()) is None && head == "PointerT"@ && children.len()
            == 1 {
            assert(children[0] < fuel);
            lemma_inside(children, g.len(), 0);
            lemma_child_refers_below(g, children[0], (fuel - 1) as nat);
            lemma_type_depth(g, g[children[0] as int], (fuel - 1) as nat);
        }
    }
}

/// The child at position `k` of a term whose children all lie inside a
/// children-first graph refers below `fuel`, like its parent.
proof fn lemma_step(g: Seq<NodeModel>, node: NodeModel, k: int, fuel: nat)
    requires
        children_first(g),
        refers_below(node, fuel),
        node is App,
        first_dangling(node->App_1, g.len()) is None,
        0 <= k < node->App_1.len(),
    ensures
        node->App_1[k] < g.len(),
        node->App_1[k] < fuel,
        refers_below(g[node->App_1[k] as int], fuel),
        fuel > 0 ==> refers_below(g[node->App_1[k] as int], (fuel - 1) as nat),
{
    lemma_inside(node->App_1, g.len(), k);
    assert(node->App_1[k] < fuel);
    lemma_child_refers_below(g, node->App_1[k], (fuel - 1) as nat);
    lemma_child_refers_below(g, node->App_1[k], fuel);
}

/// A chain that refers below the depth allowed is not too deep, and its
/// elements lie below that depth too.
proof fn lemma_chain_depth(g: Seq<NodeModel>, node: NodeModel, fuel: nat)
    requires
        children_first(g),
        refers_below(node, fuel),
    ensures
        chain_elements(g, node, fuel) != Err::<Seq<usize>, DecodeErrorModel>(
            DecodeErrorModel::TooDeep,
        ),
        chain_elements(g, node, fuel) matches Ok(ids) ==> forall|k: int|
            0 <= k < ids.len() ==> #[trigger] ids[k] < fuel,
    decreases fuel,
{
    if let NodeModel::App(head, children) = node {
        if head == "vec-push"@ && children.len() == 2 && children[1] < g.len() {
            assert(children[1] < fuel);
            assert(children[0] < fuel);
            lemma_child_refers_below(g, children[1], (fuel - 1) as nat);
            lemma_chain_depth(g, g[children[1] as int], (fuel - 1) as nat);
            let rest = chain_elements(g, g[children[1] as int], (fuel - 1) as nat);
            if let Ok(ids) = rest {
                let all = seq![children[0]] + ids;
                assert forall|k: int| 0 <= k < all.len() implies #[trigger] all[k] < fuel by {
                    if k > 0 {
                        assert(all[k] == ids[k - 1]);
                    }
                }
            }
        }
    }
}

proof fn lemma_list_depth(g: Seq<NodeModel>, node: NodeModel, fuel: nat)
    requires
        children_first(g),
        refers_below(node, fuel),
    ensures
        list_elements(g, node, fuel) != Err::<(Seq<usize>, bool), DecodeErrorModel>(
            DecodeErrorModel::TooDeep,
        ),
        list_elements(g, node, fuel) matches Ok((ids, _)) ==> forall|k: int|
            0 <= k < ids.len() ==> #[trigger] ids[k] < fuel,
{
    lemma_chain_depth(g, node, fuel);
}

proof fn lemma_types_depth(g: Seq<NodeModel>, ids: Seq<usize>, k: nat, fuel: nat)
    requires
        children_first(g),
        k <= ids.len(),
        forall|j: int| 0 <= j < ids.len() ==> #[trigger] ids[j] < fuel,
    ensures
        decode_types_upto(g, ids, k, fuel) != Err::<Seq<super::RvsdgType>, DecodeErrorModel>(
            DecodeErrorModel::TooDeep,
        ),
    decreases k,
{
    if k > 0 {
        lemma_types_depth(g, ids, (k - 1) as nat, fuel);
        let id = ids[k - 1];
        if id < g.len() {
            lemma_child_refers_below(g, id, fuel);
            lemma_rvsdg_type_depth(g, g[id as int], fuel);
        }
    }
}

proof fn lemma_rvsdg_type_depth(g: Seq<NodeModel>, node: NodeModel, fuel: nat)
    requires
        children_first(g),
        refers_below(node, fuel),
    ensures
        decode_rvsdg_type(g, node, fuel) != Err::<super::RvsdgType, DecodeErrorModel>(
            DecodeErrorModel::TooDeep,
        ),
{
    if let NodeModel::App(head, children) = node {
        if first_dangling(children, g.len()) is None && children.len() == 1 {
            lemma_step(g, node, 0, fuel);
            lemma_type_depth(g, g[children[0] as int], fuel);
        }
    }
}

proof fn lemma_option_type_depth(g: Seq<NodeModel>, node: NodeModel, fuel: nat)
    requires
        children_first(g),
        refers_below(node, fuel),
    ensures
        decode_option_type(g, node, fuel) != Err::<Option<crate::bril::Type>, DecodeErrorModel>(
            DecodeErrorModel::TooDeep,
        ),
{
    if let NodeModel::App(head, children) = node {
        if first_dangling(children, g.len()) is None && children.len() == 1 {
            lemma_step(g, node, 0, fuel);
            lemma_type_depth(g, g[children[0] as int], fuel);
        }
    }
}

proof fn lemma_signature_depth(g: Seq<NodeModel>, node: NodeModel, fuel: nat)
    requires
        children_first(g),
        refers_below(node, fuel),
    ensures
        decode_signature(g, node, fuel) != Err::<Seq<super::RvsdgType>, DecodeErrorModel>(
            DecodeErrorModel::TooDeep,
        ),
{
    lemma_list_depth(g, node, fuel);
    if let Ok((ids, _)) = list_elements(g, node, fuel) {
        lemma_types_depth(g, ids, ids.len(), fuel);
    }
}

proof fn lemma_operand_depth(g: Seq<NodeModel>, node: NodeModel, arena: Arena, fuel: nat)
    requires
        children_first(g),
        refers_below(node, fuel),
    ensures
        decode_operand(g, node, arena, fuel) != Err::<(Operand, Arena), DecodeErrorModel>(
            DecodeErrorModel::TooDeep,
        ),
    decreases fuel, 0nat, 0nat,
{
    if let NodeModel::App(head, children) = node {
        if first_dangling(children, g.len()) is None {
            if children.len() == 1 {
                lemma_step(g, node, 0, fuel);
                lemma_body_depth(g, g[children[0] as int], arena, (fuel - 1) as nat);
            } else if children.len() == 2 {
                lemma_step(g, node, 1, fuel);
                lemma_body_depth(g, g[children[1] as int], arena, (fuel - 1) as nat);
            }
        }
    }
}

proof fn lemma_operands_depth(
    g: Seq<NodeModel>,
    ids: Seq<usize>,
    k: nat,
    arena: Arena,
    fuel: nat,
)
    requires
        children_first(g),
        k <= ids.len(),
        forall|j: int| 0 <= j < ids.len() ==> #[trigger] ids[j] < fuel,
    ensures
        decode_operands_upto(g, ids, k, arena, fuel) != Err::<
            (Seq<Operand>, Arena),
            DecodeErrorModel,
        >(DecodeErrorModel::TooDeep),
    decreases fuel, 1nat, k,
{
    if k > 0 {
        lemma_operands_depth(g, ids, (k - 1) as nat, arena, fuel);
        let id = ids[k - 1];
        if let Ok((_, before)) = decode_operands_upto(g, ids, (k - 1) as nat, arena, fuel) {
            if id < g.len() {
                lemma_child_refers_below(g, id, fuel);
                lemma_operand_depth(g, g[id as int], before, fuel);
            }
        }
    }
}

proof fn lemma_operand_list_depth(g: Seq<NodeModel>, node: NodeModel, arena: Arena, fuel: nat)
    requires
        children_first(g),
        refers_below(node, fuel),
    ensures
        decode_operand_list(g, node, arena, fuel) != Err::<
            (Seq<Operand>, Arena),
            DecodeErrorModel,
        >(DecodeErrorModel::TooDeep),
    decreases fuel, 2nat, 0nat,
{
    if let NodeModel::App(head, children) = node {
        if first_dangling(children, g.len()) is None && children.len() == 1 {
            lemma_step(g, node, 0, fuel);
            lemma_list_depth(g, g[children[0] as int], fuel);
            if let Ok((ids, _)) = list_elements(g, g[children[0] as int], fuel) {
                lemma_operands_depth(g, ids, ids.len(), arena, fuel);
            }
        }
    }
}

proof fn lemma_rows_depth(g: Seq<NodeModel>, ids: Seq<usize>, k: nat, arena: Arena, fuel: nat)
    requires
        children_first(g),
        k <= ids.len(),
        forall|j: int| 0 <= j < ids.len() ==> #[trigger] ids[j] < fuel,
    ensures
        decode_rows_upto(g, ids, k, arena, fuel) != Err::<
            (Seq<Seq<Operand>>, Arena),
            DecodeErrorModel,
        >(DecodeErrorModel::TooDeep),
    decreases fuel, 3nat, k,
{
    if k > 0 {
        lemma_rows_depth(g, ids, (k - 1) as nat, arena, fuel);
        let id = ids[k - 1];
        if let Ok((_, before)) = decode_rows_upto(g, ids, (k - 1) as nat, arena, fuel) {
            if id < g.len() {
                lemma_child_refers_below(g, id, fuel);
                lemma_operand_list_depth(g, g[id as int], before, fuel);
            }
        }
    }
}

proof fn lemma_operand_rows_depth(g: Seq<NodeModel>, node: NodeModel, arena: Arena, fuel: nat)
    requires
        children_first(g),
        refers_below(node, fuel),
    ensures
        decode_operand_rows(g, node, arena, fuel) != Err::<
            (Seq<Seq<Operand>>, Arena),
            DecodeErrorModel,
        >(DecodeErrorModel::TooDeep),
    decreases fuel, 4nat, 0nat,
{
    if let NodeModel::App(head, children) = node {
        if first_dangling(children, g.len()) is None && children.len() == 1 {
            lemma_step(g, node, 0, fuel);
            lemma_list_depth(g, g[children[0] as int], fuel);
            if let Ok((ids, _)) = list_elements(g, g[children[0] as int], fuel) {
                lemma_rows_depth(g, ids, ids.len(), arena, fuel);
            }
        }
    }
}

proof fn lemma_expr_depth(g: Seq<NodeModel>, node: NodeModel, arena: Arena, fuel: nat)
    requires
        children_first(g),
        refers_below(node, fuel),
    ensures
        decode_expr(g, node, arena, fuel) != Err::<
            (super::BasicExprModel, Arena),
            DecodeErrorModel,
        >(DecodeErrorModel::TooDeep),
    decreases fuel, 5nat, 0nat,
{
    if let NodeModel::App(head, children) = node {
        if first_dangling(children, g.len()) is None {
            if children.len() == 3 {
                lemma_step(g, node, 0, fuel);
                lemma_step(g, node, 1, fuel);
                lemma_step(g, node, 2, fuel);
                lemma_type_depth(g, g[children[0] as int], fuel);
                lemma_option_type_depth(g, g[children[0] as int], fuel);
                lemma_operand_list_depth(g, g[children[2] as int], arena, fuel);
                lemma_operand_depth(g, g[children[1] as int], arena, fuel);
                if let Ok((_, after)) = decode_operand(g, g[children[1] as int], arena, fuel) {
                    lemma_operand_depth(g, g[children[2] as int], after, fuel);
                }
            } else if children.len() == 2 {
                lemma_step(g, node, 0, fuel);
                lemma_step(g, node, 1, fuel);
                lemma_operand_depth(g, g[children[0] as int], arena, fuel);
                if let Ok((_, after)) = decode_operand(g, g[children[0] as int], arena, fuel) {
                    lemma_operand_depth(g, g[children[1] as int], after, fuel);
                }
            }
        }
    }
}

proof fn lemma_body_depth(g: Seq<NodeModel>, node: NodeModel, arena: Arena, fuel: nat)
    requires
        children_first(g),
        refers_below(node, fuel),
    ensures
        decode_body(g, node, arena, fuel) != Err::<(usize, Arena), DecodeErrorModel>(
            DecodeErrorModel::TooDeep,
        ),
    decreases fuel, 6nat, 0nat,
{
    if let NodeModel::App(head, children) = node {
        if first_dangling(children, g.len()) is None {
            if children.len() == 1 {
                lemma_step(g, node, 0, fuel);
                lemma_expr_depth(g, g[children[0] as int], arena, fuel);
            } else if children.len() == 3 {
                lemma_step(g, node, 0, fuel);
                lemma_step(g, node, 1, fuel);
                lemma_step(g, node, 2, fuel);
                lemma_operand_depth(g, g[children[0] as int], arena, fuel);
                if let Ok((_, after_pred)) = decode_operand(
                    g,
                    g[children[0] as int],
                    arena,
                    fuel,
                ) {
                    lemma_operand_list_depth(g, g[children[1] as int], after_pred, fuel);
                    if let Ok((_, after_inputs)) = decode_operand_list(
                        g,
                        g[children[1] as int],
                        after_pred,
                        fuel,
                    ) {
                        lemma_operand_rows_depth(g, g[children[2] as int], after_inputs, fuel);
                        lemma_operand_list_depth(g, g[children[2] as int], after_inputs, fuel);
                    }
                }
            }
        }
    }
}

/// The depth limit binds no graph in which every term comes after its
/// children: decoding a function over such a graph never fails for being
/// too deep, whatever the root term.
pub proof fn lemma_children_first_is_never_too_deep(root: NodeModel, g: Seq<NodeModel>)
    requires
        children_first(g),
    ensures
        decode_function(root, g) != Err::<super::FunctionModel, DecodeErrorModel>(
            DecodeErrorModel::TooDeep,
        ),
{
    if let NodeModel::App(head, children) = root {
        if first_dangling(children, g.len()) is None && children.len() == 3 {
            let fuel = g.len();
            lemma_inside(children, g.len(), 1);
            lemma_inside(children, g.len(), 2);
            lemma_child_refers_below(g, children[1], fuel);
            lemma_child_refers_below(g, children[2], fuel);
            lemma_signature_depth(g, g[children[1] as int], fuel);
            let output = g[children[2] as int];
            if let NodeModel::App(out_head, out_children) = output {
                if first_dangling(out_children, g.len()) is None {
                    if out_children.len() == 1 {
                        lemma_step(g, output, 0, fuel);
                        lemma_operand_depth(g, g[out_children[0] as int], Seq::empty(), fuel);
                    } else if out_children.len() == 3 {
                        lemma_step(g, output, 0, fuel);
                        lemma_step(g, output, 1, fuel);
                        lemma_step(g, output, 2, fuel);
                        lemma_operand_depth(g, g[out_children[0] as int], Seq::empty(), fuel);
                        if let Ok((_, nodes)) = decode_operand(
                            g,
                            g[out_children[0] as int],
                            Seq::empty(),
                            fuel,
                        ) {
                            lemma_operand_depth(g, g[out_children[2] as int], nodes, fuel);
                        }
                        lemma_type_depth(g, g[out_children[1] as int], fuel);
                    }
                }
            }
        }
    }
}

} // verus!
