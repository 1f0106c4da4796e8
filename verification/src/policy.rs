//! The typed policy value tree.
//!
//! A policy is a boolean expression over attributes. Its canonical
//! in-memory form is a tree with three shapes: a `String` leaf carrying
//! the attribute text and its 1-based source column, an `Object` node
//! pairing a connective with its operand list, and an `Array` holding the
//! ordered operands of an enclosing `Object`.

use vstd::prelude::*;

verus! {

/// The logical connectives a policy can combine attributes with. A closed
/// set: there is no third connective at this layer.
#[derive(Clone, Copy, PartialEq, Eq, Structural, Debug)]
pub enum PolicyType {
    And,
    Or,
}

/// A node of the policy value tree.
///
/// Every `Object` built by this crate wraps an `Array`: a connective
/// always owns one ordered operand list, never a bare leaf directly.
#[derive(PartialEq, Debug)]
pub enum PolicyValue {
    /// An attribute leaf: the attribute text exactly as it stood between
    /// the quotes (or the bare numeric literal), and the 1-based column
    /// in the source line where the token begins — for a quoted
    /// attribute, the column of the opening quote.
    String(String, usize),
    /// A connective over one boxed operand list.
    Object(PolicyType, Box<PolicyValue>),
    /// The ordered operands of an enclosing `Object`.
    Array(Vec<PolicyValue>),
}

/// The mathematical model of a policy value tree.
pub enum PolicyModel {
    Leaf { text: Seq<char>, col: int },
    Object { conn: PolicyType, inner: Box<PolicyModel> },
    Array { items: Seq<PolicyModel> },
}

/// The models of a sequence of policy values, element by element.
pub open spec fn value_models(values: Seq<PolicyValue>) -> Seq<PolicyModel>
    decreases values, 0int,
{
    Seq::new(
        values.len(),
        |i: int|
            if 0 <= i < values.len() {
                values[i]@
            } else {
                arbitrary()
            },
    )
}

impl View for PolicyValue {
    type V = PolicyModel;

    open spec fn view(&self) -> PolicyModel
        decreases self, 1int,
    {
        match self {
            PolicyValue::String(text, col) => PolicyModel::Leaf { text: text@, col: *col as int },
            PolicyValue::Object(conn, inner) => PolicyModel::Object {
                conn: *conn,
                inner: Box::new((**inner)@),
            },
            PolicyValue::Array(items) => PolicyModel::Array { items: value_models(items@) },
        }
    }
}

/// The leaf tokens of a policy value tree, read left to right via an
/// in-order traversal: the text and the 1-based column of every leaf.
pub open spec fn leaf_tokens(m: PolicyModel) -> Seq<(Seq<char>, int)>
    decreases m, 0int, 0int,
{
    match m {
        PolicyModel::Leaf { text, col } => seq![(text, col)],
        PolicyModel::Object { conn: _, inner } => leaf_tokens(*inner),
        PolicyModel::Array { items } => leaf_tokens_from(items, 0),
    }
}

/// The leaf tokens of the operands `items[i..]`, concatenated in order.
pub open spec fn leaf_tokens_from(items: Seq<PolicyModel>, i: int) -> Seq<(Seq<char>, int)>
    decreases items, 1int, items.len() - i,
{
    if 0 <= i < items.len() {
        leaf_tokens(items[i]) + leaf_tokens_from(items, i + 1)
    } else {
        Seq::empty()
    }
}

/// The same policy value tree with every `And` tag replaced by `Or` and
/// every `Or` by `And`; leaves, operand order and tree shape are kept.
pub open spec fn swap_policy(m: PolicyModel) -> PolicyModel
    decreases m, 1int,
{
    match m {
        PolicyModel::Leaf { .. } => m,
        PolicyModel::Object { conn, inner } => PolicyModel::Object {
            conn: swap_conn(conn),
            inner: Box::new(swap_policy(*inner)),
        },
        PolicyModel::Array { items } => PolicyModel::Array { items: swap_policies(items) },
    }
}

/// `swap_policy`, element by element.
pub open spec fn swap_policies(items: Seq<PolicyModel>) -> Seq<PolicyModel>
    decreases items, 0int,
{
    Seq::new(
        items.len(),
        |i: int|
            if 0 <= i < items.len() {
                swap_policy(items[i])
            } else {
                arbitrary()
            },
    )
}

/// Two policy value trees identical except that the tag of the single
/// connective node that `path` names is exchanged. The path is the list
/// of operand positions from the root down to the swapped node: an
/// empty path swaps the root's tag over the very same operand list;
/// otherwise the root tags agree and only the operand at `path[0]`
/// carries the swap deeper.
pub open spec fn swapped_at_object(m1: PolicyModel, m2: PolicyModel, path: Seq<int>) -> bool
    decreases path.len(),
{
    match (m1, m2) {
        (
            PolicyModel::Object { conn: c1, inner: i1 },
            PolicyModel::Object { conn: c2, inner: i2 },
        ) => if path.len() == 0 {
            c2 == swap_conn(c1) && i2 == i1
        } else {
            c2 == c1 && match (*i1, *i2) {
                (PolicyModel::Array { items: a1 }, PolicyModel::Array { items: a2 }) => {
                    &&& a2.len() == a1.len()
                    &&& 0 <= path[0] < a1.len()
                    &&& swapped_at_object(a1[path[0]], a2[path[0]], path.drop_first())
                    &&& forall|j: int|
                        0 <= j < a1.len() && j != path[0] ==> #[trigger] a1[j] == a2[j]
                },
                _ => false,
            }
        },
        _ => false,
    }
}

/// Exchanges the two connectives.
pub open spec fn swap_conn(t: PolicyType) -> PolicyType {
    if t == PolicyType::And {
        PolicyType::Or
    } else {
        PolicyType::And
    }
}

} // verus!
