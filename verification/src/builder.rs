//! The tree builder: the recursive conversion from a grammar-produced
//! parse tree into the typed policy value tree.
//!
//! The builder walks the parse node and emits one policy node per parse
//! node: a `String` leaf for a quoted attribute or a numeric literal
//! (carrying the inner token text and the 1-based source column where
//! the token begins, the opening quote included), and an
//! `Object` tagged `And` or `Or` holding the ordered operand `Array` for
//! a connective group. A node labeled with a structural-only rule has no
//! translation: reaching one is a broken grammar/builder invariant and is
//! reported as a distinguished, non-retryable error value rather than an
//! uncatchable abort.

use vstd::prelude::*;

use crate::parse_tree::NodeModel;
use crate::parse_tree::ParseNode;
use crate::parse_tree::RuleKind;
use crate::parse_tree::node_models;
use crate::parse_tree::wf;
use crate::policy::PolicyModel;
use crate::policy::PolicyType;
use crate::policy::PolicyValue;
use crate::policy::value_models;

verus! {

/// The builder's failure signal. Syntax errors in the policy text never
/// reach the builder: the grammar engine rejects them first. The builder
/// itself fails only on a broken internal invariant, or, in the
/// depth-bounded variant, on input nested beyond the caller's bound.
#[derive(Clone, Copy, PartialEq, Eq, Structural, Debug)]
pub enum ConvertError {
    /// The parse node is a shape the grammar was not supposed to hand
    /// over: a structural-only rule label, or a leaf without exactly one
    /// inner token. Retrying with the same input cannot succeed.
    InvariantViolation,
    /// The depth-bounded conversion met a node nested deeper than the
    /// caller's maximum depth.
    DepthExceeded,
}

/// The policy value trees of a sequence of operand parse nodes, in order.
pub open spec fn policies_of(children: Seq<NodeModel>) -> Seq<PolicyModel>
    decreases children, 0int,
{
    Seq::new(
        children.len(),
        |i: int|
            if 0 <= i < children.len() {
                policy_of(children[i])
            } else {
                arbitrary()
            },
    )
}

/// The policy value tree that a well-formed parse node converts to: a
/// leaf keeps its single inner token's text and the leaf node's own
/// starting column (where the quoted or numeric token begins), and a
/// connective node wraps the converted operands, in order, in one
/// `Array` under one `Object`.
pub open spec fn policy_of(n: NodeModel) -> PolicyModel
    decreases n, 1int,
{
    match n.rule {
        RuleKind::Str | RuleKind::Number => PolicyModel::Leaf {
            text: n.children[0].text,
            col: n.col,
        },
        RuleKind::And | RuleKind::Or => PolicyModel::Object {
            conn: if n.rule == RuleKind::And {
                PolicyType::And
            } else {
                PolicyType::Or
            },
            inner: Box::new(PolicyModel::Array { items: policies_of(n.children) }),
        },
        _ => arbitrary(),
    }
}

/// Converts a grammar-produced parse node into the typed policy value
/// tree. Total over the node shapes the grammar can legally produce;
/// any other shape yields the invariant-violation error, never a silent
/// empty result.
pub fn convert(node: &ParseNode) -> (result: Result<PolicyValue, ConvertError>)
    ensures
        result is Ok <==> wf(node@),
        result is Ok ==> result->Ok_0@ == policy_of(node@),
        result is Err ==> result->Err_0 == ConvertError::InvariantViolation,
    decreases *node,
{
    match node.rule {
        RuleKind::Str | RuleKind::Number => {
            if node.children.len() == 1 {
                let token = &node.children[0];
                proof {
                    assert(node@.children == node_models(node.children@));
                    assert(node@.children[0] == node.children@[0]@);
                }
                Ok(PolicyValue::String(token.text.clone(), node.column))
            } else {
                proof {
                    assert(node@.children == node_models(node.children@));
                }
                Err(ConvertError::InvariantViolation)
            }
        },
        RuleKind::And | RuleKind::Or => {
            let mut items: Vec<PolicyValue> = Vec::new();
            let mut i: usize = 0;
            while i < node.children.len()
                invariant
                    node.rule == RuleKind::And || node.rule == RuleKind::Or,
                    i <= node.children@.len(),
                    items@.len() == i,
                    forall|j: int| 0 <= j < i ==> wf(#[trigger] node@.children[j]),
                    forall|j: int|
                        0 <= j < i ==> #[trigger] items@[j]@ == policy_of(node@.children[j]),
                decreases node.children@.len() - i,
            {
                proof {
                    assert(node@.children == node_models(node.children@));
                    assert(node@.children[i as int] == node.children@[i as int]@);
                }
                match convert(&node.children[i]) {
                    Ok(child_value) => items.push(child_value),
                    Err(e) => {
                        proof {
                            if wf(node@) {
                                crate::parse_tree::lemma_wf_child(node@, i as int);
                            }
                        }
                        return Err(e);
                    },
                }
                i = i + 1;
            }
            let conn = if node.rule == RuleKind::And {
                PolicyType::And
            } else {
                PolicyType::Or
            };
            proof {
                assert(node@.children == node_models(node.children@));
                assert(wf(node@));
                assert forall|j: int|
                    0 <= j < items@.len() implies value_models(items@)[j] == policies_of(
                    node@.children,
                )[j] by {
                    assert(value_models(items@)[j] == items@[j]@);
                    assert(policies_of(node@.children)[j] == policy_of(node@.children[j]));
                }
                assert(value_models(items@) =~= policies_of(node@.children));
            }
            let ghost items_snap = items@;
            let operands = PolicyValue::Array(items);
            let ghost operands_model = operands@;
            let result_value = PolicyValue::Object(conn, Box::new(operands));
            proof {
                assert(operands_model == (PolicyModel::Array { items: value_models(items_snap) }));
                assert(value_models(items_snap) == policies_of(node@.children));
                assert(result_value@ == (PolicyModel::Object {
                    conn,
                    inner: Box::new(operands_model),
                }));
                assert(policy_of(node@) == (PolicyModel::Object {
                    conn,
                    inner: Box::new(
                        PolicyModel::Array { items: policies_of(node@.children) },
                    ),
                }));
                assert(result_value@ == policy_of(node@));
            }
            Ok(result_value)
        },
        _ => Err(ConvertError::InvariantViolation),
    }
}

/// The exact outcome of the depth-bounded conversion of `n` with a
/// budget of `depth` levels: the budget is checked before the node is
/// examined, a node spends one level, and a connective hands the rest to
/// its operands, left to right, the first failure winning.
pub open spec fn bounded_policy_of(n: NodeModel, depth: nat) -> Result<
    PolicyModel,
    ConvertError,
>
    decreases n, 0int, 0int,
{
    if depth == 0 {
        Err(ConvertError::DepthExceeded)
    } else {
        match n.rule {
            RuleKind::Str | RuleKind::Number => if n.children.len() == 1 {
                Ok(PolicyModel::Leaf { text: n.children[0].text, col: n.col })
            } else {
                Err(ConvertError::InvariantViolation)
            },
            RuleKind::And | RuleKind::Or => match bounded_policies_of(
                n.children,
                (depth - 1) as nat,
                0,
            ) {
                Ok(items) => Ok(
                    PolicyModel::Object {
                        conn: if n.rule == RuleKind::And {
                            PolicyType::And
                        } else {
                            PolicyType::Or
                        },
                        inner: Box::new(PolicyModel::Array { items }),
                    },
                ),
                Err(e) => Err(e),
            },
            _ => Err(ConvertError::InvariantViolation),
        }
    }
}

/// The outcomes of the depth-bounded conversion of the operands
/// `children[i..]`, each with budget `depth`, combined left to right:
/// the first failure, or all the converted operands in order.
pub open spec fn bounded_policies_of(children: Seq<NodeModel>, depth: nat, i: int) -> Result<
    Seq<PolicyModel>,
    ConvertError,
>
    decreases children, 1int, children.len() - i,
{
    if 0 <= i < children.len() {
        match bounded_policy_of(children[i], depth) {
            Ok(first) => match bounded_policies_of(children, depth, i + 1) {
                Ok(rest) => Ok(seq![first] + rest),
                Err(e) => Err(e),
            },
            Err(e) => Err(e),
        }
    } else {
        Ok(Seq::empty())
    }
}

/// When the operands before `k` convert and operand `k` fails, the
/// combined outcome is operand `k`'s failure.
pub(crate) proof fn lemma_bounded_first_err(children: Seq<NodeModel>, depth: nat, i: int, k: int)
    requires
        0 <= i <= k < children.len(),
        forall|j: int|
            i <= j < k ==> bounded_policy_of(#[trigger] children[j], depth) is Ok,
        bounded_policy_of(children[k], depth) is Err,
    ensures
        bounded_policies_of(children, depth, i) == Err::<Seq<PolicyModel>, ConvertError>(
            bounded_policy_of(children[k], depth)->Err_0,
        ),
    decreases k - i,
{
    if i < k {
        lemma_bounded_first_err(children, depth, i + 1, k);
    }
}

/// When every operand from `i` on converts, the combined outcome is the
/// sequence of the converted operands, in order.
pub(crate) proof fn lemma_bounded_all_ok(children: Seq<NodeModel>, depth: nat, i: int)
    requires
        0 <= i <= children.len(),
        forall|j: int|
            i <= j < children.len() ==> bounded_policy_of(#[trigger] children[j], depth) is Ok,
    ensures
        bounded_policies_of(children, depth, i) is Ok,
        bounded_policies_of(children, depth, i)->Ok_0.len() == children.len() - i,
        forall|j: int|
            i <= j < children.len() ==> bounded_policies_of(children, depth, i)->Ok_0[j - i]
                == bounded_policy_of(#[trigger] children[j], depth)->Ok_0,
    decreases children.len() - i,
{
    if i < children.len() {
        lemma_bounded_all_ok(children, depth, i + 1);
    }
}

/// Converts like `convert`, but refuses input nested deeper than
/// `max_depth` levels with the depth error instead of recursing without
/// bound: the guard for adversarial policy text.
pub fn convert_bounded(node: &ParseNode, max_depth: usize) -> (result: Result<
    PolicyValue,
    ConvertError,
>)
    ensures
        result is Ok <==> bounded_policy_of(node@, max_depth as nat) is Ok,
        result is Ok ==> result->Ok_0@ == bounded_policy_of(node@, max_depth as nat)->Ok_0,
        result is Err ==> result->Err_0 == bounded_policy_of(node@, max_depth as nat)->Err_0,
    decreases *node,
{
    if max_depth == 0 {
        return Err(ConvertError::DepthExceeded);
    }
    match node.rule {
        RuleKind::Str | RuleKind::Number => {
            if node.children.len() == 1 {
                let token = &node.children[0];
                proof {
                    assert(node@.children == node_models(node.children@));
                    assert(node@.children[0] == node.children@[0]@);
                }
                Ok(PolicyValue::String(token.text.clone(), node.column))
            } else {
                proof {
                    assert(node@.children == node_models(node.children@));
                }
                Err(ConvertError::InvariantViolation)
            }
        },
        RuleKind::And | RuleKind::Or => {
            let depth_left = max_depth - 1;
            let mut items: Vec<PolicyValue> = Vec::new();
            let mut i: usize = 0;
            while i < node.children.len()
                invariant
                    node.rule == RuleKind::And || node.rule == RuleKind::Or,
                    1 <= max_depth,
                    depth_left == max_depth - 1,
                    i <= node.children@.len(),
                    items@.len() == i,
                    forall|j: int|
                        0 <= j < i ==> bounded_policy_of(
                            #[trigger] node@.children[j],
                            depth_left as nat,
                        ) is Ok,
                    forall|j: int|
                        0 <= j < i ==> #[trigger] items@[j]@ == bounded_policy_of(
                            node@.children[j],
                            depth_left as nat,
                        )->Ok_0,
                decreases node.children@.len() - i,
            {
                proof {
                    assert(node@.children == node_models(node.children@));
                    assert(node@.children[i as int] == node.children@[i as int]@);
                }
                match convert_bounded(&node.children[i], depth_left) {
                    Ok(child_value) => items.push(child_value),
                    Err(e) => {
                        proof {
                            lemma_bounded_first_err(
                                node@.children,
                                depth_left as nat,
                                0,
                                i as int,
                            );
                        }
                        return Err(e);
                    },
                }
                i = i + 1;
            }
            let conn = if node.rule == RuleKind::And {
                PolicyType::And
            } else {
                PolicyType::Or
            };
            proof {
                assert(node@.children == node_models(node.children@));
                lemma_bounded_all_ok(node@.children, depth_left as nat, 0);
                let spec_items = bounded_policies_of(
                    node@.children,
                    depth_left as nat,
                    0,
                )->Ok_0;
                assert forall|j: int|
                    0 <= j < items@.len() implies value_models(items@)[j] == spec_items[j] by {
                    assert(value_models(items@)[j] == items@[j]@);
                    assert(spec_items[j] == bounded_policy_of(
                        node@.children[j],
                        depth_left as nat,
                    )->Ok_0);
                }
                assert(value_models(items@) =~= spec_items);
            }
            let ghost items_snap = items@;
            let operands = PolicyValue::Array(items);
            let ghost operands_model = operands@;
            let result_value = PolicyValue::Object(conn, Box::new(operands));
            proof {
                assert(operands_model == (PolicyModel::Array { items: value_models(items_snap) }));
                assert(result_value@ == (PolicyModel::Object {
                    conn,
                    inner: Box::new(operands_model),
                }));
                assert(result_value@ == bounded_policy_of(node@, max_depth as nat)->Ok_0);
            }
            Ok(result_value)
        },
        _ => Err(ConvertError::InvariantViolation),
    }
}

} // verus!
