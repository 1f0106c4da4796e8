//! The canonical re-serialization of a built policy value tree: the
//! parse tree a compliant grammar engine would hand over for it. It is
//! the witness of the structural round trip: re-building from it yields
//! the original tree.

use vstd::prelude::*;

use crate::parse_tree::NodeModel;
use crate::parse_tree::ParseNode;
use crate::parse_tree::RuleKind;
use crate::parse_tree::node_models;
use crate::policy::PolicyModel;
use crate::policy::PolicyType;
use crate::policy::PolicyValue;
use crate::policy::value_models;

verus! {

/// A policy value tree of the shape the builder emits: every `Object`
/// wraps an `Array` of operands of the same shape, and an `Array` never
/// stands alone.
pub open spec fn built_shape(m: PolicyModel) -> bool
    decreases m,
{
    match m {
        PolicyModel::Leaf { .. } => true,
        PolicyModel::Object { conn: _, inner } => match *inner {
            PolicyModel::Array { items } => forall|i: int|
                0 <= i < items.len() ==> built_shape(#[trigger] items[i]),
            _ => false,
        },
        PolicyModel::Array { .. } => false,
    }
}

/// The canonical parse tree of a built policy value tree: a leaf becomes
/// a `Str` node wrapping one inner token with the leaf's text and
/// column, and a connective node becomes its group node over the
/// canonical parse trees of its operands.
pub open spec fn canonical_node(m: PolicyModel) -> NodeModel
    decreases m, 1int,
{
    match m {
        PolicyModel::Leaf { text, col } => NodeModel {
            rule: RuleKind::Str,
            text: text,
            col: col,
            children: seq![
                NodeModel { rule: RuleKind::Inner, text: text, col: col, children: Seq::empty() }
            ],
        },
        PolicyModel::Object { conn, inner } => NodeModel {
            rule: if conn == PolicyType::And {
                RuleKind::And
            } else {
                RuleKind::Or
            },
            text: Seq::empty(),
            col: 1,
            children: match *inner {
                PolicyModel::Array { items } => canonical_nodes(items),
                _ => Seq::empty(),
            },
        },
        PolicyModel::Array { .. } => arbitrary(),
    }
}

/// `canonical_node`, element by element.
pub open spec fn canonical_nodes(items: Seq<PolicyModel>) -> Seq<NodeModel>
    decreases items, 0int,
{
    Seq::new(
        items.len(),
        |i: int|
            if 0 <= i < items.len() {
                canonical_node(items[i])
            } else {
                arbitrary()
            },
    )
}

/// Emits the canonical parse tree of a built policy value tree.
pub fn canonical_parse_node(value: &PolicyValue) -> (result: ParseNode)
    requires
        built_shape(value@),
    ensures
        result@ == canonical_node(value@),
    decreases *value,
{
    match value {
        PolicyValue::String(text, col) => {
            let token = ParseNode {
                rule: RuleKind::Inner,
                text: text.clone(),
                column: *col,
                children: Vec::new(),
            };
            let result = ParseNode {
                rule: RuleKind::Str,
                text: text.clone(),
                column: *col,
                children: vec![token],
            };
            proof {
                let expected = canonical_node(value@);
                assert(node_models(Seq::<ParseNode>::empty()) =~= Seq::<NodeModel>::empty());
                assert(result@.children == node_models(result.children@));
                assert(result@.children[0] == result.children@[0]@);
                assert(result@.children[0] == expected.children[0]);
                assert(result@.children =~= expected.children);
            }
            result
        },
        PolicyValue::Object(conn, inner) => {
            match &**inner {
                PolicyValue::Array(operands) => {
                    proof {
                        assert(value@ == (PolicyModel::Object {
                            conn: *conn,
                            inner: Box::new((**inner)@),
                        }));
                        assert((**inner)@ == (PolicyModel::Array {
                            items: value_models(operands@),
                        }));
                        assert forall|j: int| 0 <= j < operands@.len() implies built_shape(
                            #[trigger] operands@[j]@,
                        ) by {
                            assert(value_models(operands@)[j] == operands@[j]@);
                        }
                    }
                    let children = canonical_operands(operands);
                    let rule = if *conn == PolicyType::And {
                        RuleKind::And
                    } else {
                        RuleKind::Or
                    };
                    let result = ParseNode { rule, text: String::new(), column: 1, children };
                    proof {
                        assert(result@.children == node_models(result.children@));
                        assert forall|j: int|
                            0 <= j < result.children@.len() implies result@.children[j]
                            == canonical_nodes(value_models(operands@))[j] by {
                            assert(result@.children[j] == result.children@[j]@);
                            assert(canonical_nodes(value_models(operands@))[j] == canonical_node(
                                value_models(operands@)[j],
                            ));
                            assert(value_models(operands@)[j] == operands@[j]@);
                        }
                        assert(result@.children =~= canonical_nodes(value_models(operands@)));
                    }
                    result
                },
                _ => {
                    proof {
                        assert(value@ == (PolicyModel::Object {
                            conn: *conn,
                            inner: Box::new((**inner)@),
                        }));
                        assert(false);
                    }
                    vstd::pervasive::unreached()
                },
            }
        },
        PolicyValue::Array(_) => {
            proof {
                assert(false);
            }
            vstd::pervasive::unreached()
        },
    }
}

/// Emits the canonical parse trees of a connective's operands, in order.
fn canonical_operands(operands: &Vec<PolicyValue>) -> (result: Vec<ParseNode>)
    requires
        forall|j: int| 0 <= j < operands@.len() ==> built_shape(#[trigger] operands@[j]@),
    ensures
        result@.len() == operands@.len(),
        forall|j: int|
            0 <= j < operands@.len() ==> #[trigger] result@[j]@ == canonical_node(
                operands@[j]@,
            ),
    decreases *operands,
{
    let mut result: Vec<ParseNode> = Vec::new();
    let mut i: usize = 0;
    while i < operands.len()
        invariant
            i <= operands@.len(),
            result@.len() == i,
            forall|j: int| 0 <= j < operands@.len() ==> built_shape(#[trigger] operands@[j]@),
            forall|j: int|
                0 <= j < i ==> #[trigger] result@[j]@ == canonical_node(operands@[j]@),
        decreases operands@.len() - i,
    {
        let child = canonical_parse_node(&operands[i]);
        result.push(child);
        i = i + 1;
    }
    result
}

} // verus!
