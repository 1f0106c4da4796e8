//! The laws of the tree builder, each proved over the models that the
//! builder's own contract speaks of.

use vstd::prelude::*;

use crate::builder::ConvertError;
use crate::builder::bounded_policies_of;
use crate::builder::bounded_policy_of;
use crate::builder::lemma_bounded_all_ok;
use crate::builder::lemma_bounded_first_err;
use crate::builder::policies_of;
use crate::builder::policy_of;
use crate::canonical::built_shape;
use crate::canonical::canonical_node;
use crate::canonical::canonical_nodes;
use crate::parse_tree::NodeModel;
use crate::parse_tree::RuleKind;
use crate::parse_tree::height;
use crate::parse_tree::lemma_max_child_height_bound;
use crate::parse_tree::max_child_height;
use crate::parse_tree::lemma_wf_child;
use crate::parse_tree::node_leaf_tokens;
use crate::parse_tree::node_leaf_tokens_from;
use crate::parse_tree::swap_node;
use crate::parse_tree::swap_nodes;
use crate::parse_tree::swapped_at_node;
use crate::parse_tree::wf;
use crate::policy::PolicyModel;
use crate::policy::PolicyType;
use crate::policy::leaf_tokens;
use crate::policy::leaf_tokens_from;
use crate::policy::swap_policies;
use crate::policy::swap_policy;
use crate::policy::swapped_at_object;

verus! {

/// Law: conversion preserves the leaf tokens. The leaves of the policy
/// value tree of a well-formed parse node, read left to right, are
/// exactly the leaf tokens of the parse node, in the same order, each
/// with its text and its 1-based source column.
pub proof fn lemma_convert_preserves_leaf_tokens(n: NodeModel)
    requires
        wf(n),
    ensures
        leaf_tokens(policy_of(n)) == node_leaf_tokens(n),
    decreases n, 0int, 0int,
{
    match n.rule {
        RuleKind::Str | RuleKind::Number => {
        },
        RuleKind::And | RuleKind::Or => {
            reveal_with_fuel(leaf_tokens, 3);
            lemma_convert_preserves_leaf_tokens_from(n.children, 0);
        },
        _ => {
        },
    }
}

/// The same law over the operands `children[i..]` of a connective node.
proof fn lemma_convert_preserves_leaf_tokens_from(children: Seq<NodeModel>, i: int)
    requires
        forall|k: int| 0 <= k < children.len() ==> wf(#[trigger] children[k]),
    ensures
        leaf_tokens_from(policies_of(children), i) == node_leaf_tokens_from(children, i),
    decreases children, 1int, children.len() - i,
{
    if 0 <= i < children.len() {
        assert(policies_of(children)[i] == policy_of(children[i]));
        lemma_convert_preserves_leaf_tokens(children[i]);
        lemma_convert_preserves_leaf_tokens_from(children, i + 1);
    }
}

/// Law: for every well-formed parse node the conversion returns a tree
/// whose leaf count equals the number of leaf tokens of the parse node
/// (one per quoted or numeric token the grammar matched).
pub proof fn lemma_convert_preserves_leaf_count(n: NodeModel)
    requires
        wf(n),
    ensures
        leaf_tokens(policy_of(n)).len() == node_leaf_tokens(n).len(),
{
    lemma_convert_preserves_leaf_tokens(n);
}

/// Column offsets read left to right are non-decreasing.
pub open spec fn columns_non_decreasing(tokens: Seq<(Seq<char>, int)>) -> bool {
    forall|a: int, b: int|
        0 <= a <= b < tokens.len() ==> (#[trigger] tokens[a]).1 <= (#[trigger] tokens[b]).1
}

/// Law: when the grammar engine hands over leaf tokens whose columns are
/// non-decreasing left to right (as token positions in the source text
/// are), the leaves of the converted tree, read via an in-order
/// traversal, keep that order.
pub proof fn lemma_convert_keeps_column_order(n: NodeModel)
    requires
        wf(n),
        columns_non_decreasing(node_leaf_tokens(n)),
    ensures
        columns_non_decreasing(leaf_tokens(policy_of(n))),
{
    lemma_convert_preserves_leaf_tokens(n);
}

/// Law: swapping `and` and `or` in the input swaps the tag of every
/// connective node of the converted tree and changes nothing else: the
/// swapped parse node is still well-formed, and its policy value tree is
/// the original one with only the connective tags exchanged.
pub proof fn lemma_convert_swaps_connectives(n: NodeModel)
    requires
        wf(n),
    ensures
        wf(swap_node(n)),
        policy_of(swap_node(n)) == swap_policy(policy_of(n)),
    decreases n,
{
    match n.rule {
        RuleKind::Str | RuleKind::Number => {
            assert(swap_nodes(n.children)[0] == swap_node(n.children[0]));
            assert(swap_node(n).children.len() == 1);
        },
        RuleKind::And | RuleKind::Or => {
            reveal_with_fuel(swap_policy, 3);
            assert forall|k: int| 0 <= k < n.children.len() implies wf(
                #[trigger] swap_nodes(n.children)[k],
            ) && policy_of(swap_nodes(n.children)[k]) == swap_policy(
                policy_of(n.children[k]),
            ) by {
                lemma_wf_child(n, k);
                lemma_convert_swaps_connectives(n.children[k]);
                assert(swap_nodes(n.children)[k] == swap_node(n.children[k]));
            }
            assert(wf(swap_node(n)));
            assert forall|k: int|
                0 <= k < n.children.len() implies policies_of(swap_nodes(n.children))[k]
                == swap_policies(policies_of(n.children))[k] by {
                assert(policies_of(swap_nodes(n.children))[k] == policy_of(
                    swap_nodes(n.children)[k],
                ));
                assert(swap_policies(policies_of(n.children))[k] == swap_policy(
                    policies_of(n.children)[k],
                ));
                assert(policies_of(n.children)[k] == policy_of(n.children[k]));
            }
            assert(policies_of(swap_nodes(n.children)) =~= swap_policies(
                policies_of(n.children),
            ));
        },
        _ => {
        },
    }
}

/// Law: swapping the connective written at one single nesting level of
/// the input — the level that `path` names by operand positions from
/// the root — swaps the tag of the corresponding node of the converted
/// tree and nothing else: the changed parse node is still well-formed,
/// and its policy value tree differs from the original's in exactly
/// that one connective tag — every leaf text, every leaf column and all
/// other structure stay equal.
pub proof fn lemma_convert_swaps_one_connective(n1: NodeModel, n2: NodeModel, path: Seq<int>)
    requires
        wf(n1),
        swapped_at_node(n1, n2, path),
    ensures
        wf(n2),
        swapped_at_object(policy_of(n1), policy_of(n2), path),
    decreases path.len(),
{
    if path.len() == 0 {
        assert(n2.children == n1.children);
        assert forall|i: int| 0 <= i < n2.children.len() implies wf(
            #[trigger] n2.children[i],
        ) by {
            lemma_wf_child(n1, i);
        }
        assert(wf(n2));
        assert(swapped_at_object(policy_of(n1), policy_of(n2), path));
    } else {
        let k = path[0];
        lemma_wf_child(n1, k);
        lemma_convert_swaps_one_connective(n1.children[k], n2.children[k], path.drop_first());
        assert forall|j: int| 0 <= j < n2.children.len() implies wf(
            #[trigger] n2.children[j],
        ) by {
            if j != k {
                assert(n1.children[j] == n2.children[j]);
                lemma_wf_child(n1, j);
            }
        }
        assert(wf(n2));
        assert forall|j: int|
            0 <= j < n1.children.len() && j != k implies #[trigger] policies_of(n1.children)[j]
            == policies_of(n2.children)[j] by {
            assert(policies_of(n1.children)[j] == policy_of(n1.children[j]));
            assert(policies_of(n2.children)[j] == policy_of(n2.children[j]));
        }
        assert(policies_of(n1.children)[k] == policy_of(n1.children[k]));
        assert(policies_of(n2.children)[k] == policy_of(n2.children[k]));
        assert(swapped_at_object(policy_of(n1), policy_of(n2), path));
    }
}

/// Law: every tree the builder emits has the built shape, so the
/// canonical re-serialization applies to every conversion result: the
/// round trip composes with `convert` in verified code.
pub proof fn lemma_convert_output_built_shape(n: NodeModel)
    requires
        wf(n),
    ensures
        built_shape(policy_of(n)),
    decreases n,
{
    match n.rule {
        RuleKind::Str | RuleKind::Number => {
        },
        RuleKind::And | RuleKind::Or => {
            assert forall|k: int| 0 <= k < n.children.len() implies built_shape(
                #[trigger] policies_of(n.children)[k],
            ) by {
                lemma_wf_child(n, k);
                lemma_convert_output_built_shape(n.children[k]);
                assert(policies_of(n.children)[k] == policy_of(n.children[k]));
            }
            assert(built_shape(policy_of(n)));
        },
        _ => {
        },
    }
}

/// Law: structural round trip. Re-building a policy value tree from the
/// canonical parse tree of a built tree yields a tree equal in shape and
/// leaf content to the original: the canonical parse tree is well-formed,
/// and the builder maps it back to the very same tree.
pub proof fn lemma_structural_round_trip(m: PolicyModel)
    requires
        built_shape(m),
    ensures
        wf(canonical_node(m)),
        policy_of(canonical_node(m)) == m,
    decreases m,
{
    match m {
        PolicyModel::Leaf { text, col } => {
            assert(canonical_node(m).children[0] == NodeModel {
                rule: RuleKind::Inner,
                text: text,
                col: col,
                children: Seq::empty(),
            });
        },
        PolicyModel::Object { conn, inner } => {
            match *inner {
                PolicyModel::Array { items } => {
                    assert forall|k: int| 0 <= k < items.len() implies wf(
                        #[trigger] canonical_nodes(items)[k],
                    ) && policy_of(canonical_nodes(items)[k]) == items[k] by {
                        assert(built_shape(items[k]));
                        lemma_structural_round_trip(items[k]);
                        assert(canonical_nodes(items)[k] == canonical_node(items[k]));
                    }
                    assert(wf(canonical_node(m)));
                    assert forall|k: int|
                        0 <= k < items.len() implies policies_of(canonical_nodes(items))[k]
                        == items[k] by {
                        assert(policies_of(canonical_nodes(items))[k] == policy_of(
                            canonical_nodes(items)[k],
                        ));
                    }
                    assert(policies_of(canonical_nodes(items)) =~= items);
                    assert(policy_of(canonical_node(m)) == m);
                },
                _ => {
                },
            }
        },
        PolicyModel::Array { .. } => {
        },
    }
}

/// The first operand from `i` on that is not well-formed, when one
/// exists: every operand before it is well-formed.
proof fn lemma_first_non_wf(children: Seq<NodeModel>, i: int) -> (k: int)
    requires
        0 <= i <= children.len(),
        exists|j: int| i <= j < children.len() && !wf(#[trigger] children[j]),
    ensures
        i <= k < children.len(),
        !wf(children[k]),
        forall|j: int| i <= j < k ==> wf(#[trigger] children[j]),
    decreases children.len() - i,
{
    if wf(children[i]) {
        let w = choose|j: int| i <= j < children.len() && !wf(#[trigger] children[j]);
        assert(i + 1 <= w);
        lemma_first_non_wf(children, i + 1)
    } else {
        i
    }
}

/// Law: a depth bound no smaller than the input's nesting depth never
/// changes the outcome. Within the bound the depth-bounded conversion
/// agrees exactly with the unbounded one: it succeeds with the same
/// policy value tree on every well-formed parse node and reports the
/// invariant violation on every other. The depth error can therefore
/// only come from input nested deeper than the bound.
pub proof fn lemma_bounded_convert_within_depth(n: NodeModel, depth: nat)
    requires
        height(n) <= depth,
    ensures
        wf(n) ==> bounded_policy_of(n, depth) == Ok::<PolicyModel, ConvertError>(policy_of(n)),
        !wf(n) ==> bounded_policy_of(n, depth) == Err::<PolicyModel, ConvertError>(
            ConvertError::InvariantViolation,
        ),
    decreases n,
{
    assert(height(n) == 1 + max_child_height(n.children, 0));
    match n.rule {
        RuleKind::Str | RuleKind::Number => {
        },
        RuleKind::And | RuleKind::Or => {
            let d1 = (depth - 1) as nat;
            assert forall|j: int|
                0 <= j < n.children.len() implies height(#[trigger] n.children[j]) <= d1 by {
                lemma_max_child_height_bound(n.children, 0, j);
            }
            assert forall|j: int| 0 <= j < n.children.len() implies (wf(#[trigger] n.children[j])
                ==> bounded_policy_of(n.children[j], d1) == Ok::<PolicyModel, ConvertError>(
                policy_of(n.children[j]),
            )) && (!wf(n.children[j]) ==> bounded_policy_of(n.children[j], d1) == Err::<
                PolicyModel,
                ConvertError,
            >(ConvertError::InvariantViolation)) by {
                lemma_bounded_convert_within_depth(n.children[j], d1);
            }
            if wf(n) {
                assert forall|j: int| 0 <= j < n.children.len() implies wf(
                    #[trigger] n.children[j],
                ) by {
                    lemma_wf_child(n, j);
                }
                lemma_bounded_all_ok(n.children, d1, 0);
                let spec_items = bounded_policies_of(n.children, d1, 0)->Ok_0;
                assert forall|j: int|
                    0 <= j < n.children.len() implies spec_items[j] == policies_of(
                    n.children,
                )[j] by {
                    assert(spec_items[j] == bounded_policy_of(n.children[j], d1)->Ok_0);
                    assert(policies_of(n.children)[j] == policy_of(n.children[j]));
                }
                assert(spec_items =~= policies_of(n.children));
            } else {
                assert(exists|j: int|
                    0 <= j < n.children.len() && !wf(#[trigger] n.children[j])) by {
                    if forall|j: int| 0 <= j < n.children.len() ==> wf(#[trigger] n.children[j]) {
                        assert(wf(n));
                    }
                }
                let k = lemma_first_non_wf(n.children, 0);
                lemma_bounded_first_err(n.children, d1, 0, k);
            }
        },
        _ => {
        },
    }
}

} // verus!
