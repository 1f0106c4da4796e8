use policy_tree::builder::ConvertError;
use policy_tree::builder::convert;
use policy_tree::builder::convert_bounded;
use policy_tree::canonical::canonical_parse_node;
use policy_tree::parse_tree::ParseNode;
use policy_tree::parse_tree::RuleKind;
use policy_tree::policy::PolicyType;
use policy_tree::policy::PolicyValue;

/// A quoted-string leaf as the grammar engine reports it: the node
/// starts at the opening quote and wraps one inner token holding the
/// text between the quotes, which starts one column later.
fn string_leaf(text: &str, col: usize) -> ParseNode {
    ParseNode {
        rule: RuleKind::Str,
        text: format!("\"{}\"", text),
        column: col,
        children: vec![ParseNode {
            rule: RuleKind::Inner,
            text: text.to_string(),
            column: col + 1,
            children: vec![],
        }],
    }
}

/// A numeric leaf: same shape as a string leaf, bare literal text.
fn number_leaf(text: &str, col: usize) -> ParseNode {
    ParseNode {
        rule: RuleKind::Number,
        text: text.to_string(),
        column: col,
        children: vec![ParseNode {
            rule: RuleKind::Inner,
            text: text.to_string(),
            column: col,
            children: vec![],
        }],
    }
}

/// A connective group over the given operands.
fn group(rule: RuleKind, children: Vec<ParseNode>) -> ParseNode {
    ParseNode {
        rule,
        text: String::new(),
        column: 1,
        children,
    }
}

/// A node labeled with a structural-only rule.
fn structural(rule: RuleKind) -> ParseNode {
    ParseNode {
        rule,
        text: String::new(),
        column: 1,
        children: vec![],
    }
}

fn leaf_value(text: &str, col: usize) -> PolicyValue {
    PolicyValue::String(text.to_string(), col)
}

fn object(conn: PolicyType, operands: Vec<PolicyValue>) -> PolicyValue {
    PolicyValue::Object(conn, Box::new(PolicyValue::Array(operands)))
}

/// The leaves of a policy value tree, left to right.
fn leaves_of(value: &PolicyValue) -> Vec<(String, usize)> {
    match value {
        PolicyValue::String(text, col) => vec![(text.clone(), *col)],
        PolicyValue::Object(_, inner) => leaves_of(inner),
        PolicyValue::Array(items) => items.iter().flat_map(leaves_of).collect(),
    }
}

#[test]
fn converts_single_string_leaf() {
    let result = convert(&string_leaf("admin", 1));
    assert_eq!(result, Ok(leaf_value("admin", 1)));
}

#[test]
fn converts_number_leaf_like_string_leaf() {
    let result = convert(&number_leaf("42", 7));
    assert_eq!(result, Ok(leaf_value("42", 7)));
}

#[test]
fn converts_and_of_two_strings() {
    // `"a" and "b"`: the second token starts at column 9.
    let node = group(RuleKind::And, vec![string_leaf("a", 1), string_leaf("b", 9)]);
    let expected = object(PolicyType::And, vec![leaf_value("a", 1), leaf_value("b", 9)]);
    assert_eq!(convert(&node), Ok(expected));
}

#[test]
fn converts_or_with_nested_and() {
    // `("a" and "b") or "c"`
    let node = group(
        RuleKind::Or,
        vec![
            group(RuleKind::And, vec![string_leaf("a", 2), string_leaf("b", 10)]),
            string_leaf("c", 18),
        ],
    );
    let expected = object(
        PolicyType::Or,
        vec![
            object(PolicyType::And, vec![leaf_value("a", 2), leaf_value("b", 10)]),
            leaf_value("c", 18),
        ],
    );
    assert_eq!(convert(&node), Ok(expected));
}

#[test]
fn structural_node_is_invariant_violation() {
    let result = convert(&structural(RuleKind::Comment));
    assert_eq!(result, Err(ConvertError::InvariantViolation));
}

#[test]
fn end_of_input_marker_is_invariant_violation() {
    let result = convert(&structural(RuleKind::EndOfInput));
    assert_eq!(result, Err(ConvertError::InvariantViolation));
}

#[test]
fn structural_operand_fails_whole_conversion() {
    let node = group(RuleKind::And, vec![string_leaf("a", 1), structural(RuleKind::Whitespace)]);
    assert_eq!(convert(&node), Err(ConvertError::InvariantViolation));
}

#[test]
fn leaf_without_inner_token_is_invariant_violation() {
    let node = ParseNode {
        rule: RuleKind::Str,
        text: "\"a\"".to_string(),
        column: 1,
        children: vec![],
    };
    assert_eq!(convert(&node), Err(ConvertError::InvariantViolation));
}

#[test]
fn empty_operand_list_converts_to_empty_array() {
    let node = group(RuleKind::Or, vec![]);
    assert_eq!(convert(&node), Ok(object(PolicyType::Or, vec![])));
}

#[test]
fn leaf_count_matches_token_count() {
    let node = group(
        RuleKind::Or,
        vec![
            group(RuleKind::And, vec![string_leaf("a", 2), number_leaf("5", 10)]),
            string_leaf("c", 16),
        ],
    );
    let value = convert(&node).unwrap();
    assert_eq!(leaves_of(&value).len(), 3);
}

#[test]
fn leaf_columns_are_in_source_order() {
    let node = group(
        RuleKind::Or,
        vec![
            group(RuleKind::And, vec![string_leaf("a", 2), string_leaf("b", 10)]),
            string_leaf("c", 18),
        ],
    );
    let value = convert(&node).unwrap();
    let leaves = leaves_of(&value);
    assert_eq!(
        leaves,
        vec![
            ("a".to_string(), 2),
            ("b".to_string(), 10),
            ("c".to_string(), 18),
        ]
    );
    assert!(leaves.windows(2).all(|pair| pair[0].1 <= pair[1].1));
}

#[test]
fn swapping_connective_changes_only_the_tag() {
    let and_node = group(RuleKind::And, vec![string_leaf("a", 1), string_leaf("b", 9)]);
    let or_node = group(RuleKind::Or, vec![string_leaf("a", 1), string_leaf("b", 9)]);
    let and_value = convert(&and_node).unwrap();
    let or_value = convert(&or_node).unwrap();
    match (and_value, or_value) {
        (PolicyValue::Object(and_tag, and_inner), PolicyValue::Object(or_tag, or_inner)) => {
            assert_eq!(and_tag, PolicyType::And);
            assert_eq!(or_tag, PolicyType::Or);
            assert_eq!(and_inner, or_inner);
        },
        _ => panic!("both conversions must yield connective nodes"),
    }
}

#[test]
fn swapping_nested_connective_changes_only_that_tag() {
    // `("a" and "b") or "c"` against `("a" or "b") or "c"`: the swap sits
    // one level down; only that node's tag may differ.
    let nested_and = group(
        RuleKind::Or,
        vec![
            group(RuleKind::And, vec![string_leaf("a", 2), string_leaf("b", 10)]),
            string_leaf("c", 18),
        ],
    );
    let nested_or = group(
        RuleKind::Or,
        vec![
            group(RuleKind::Or, vec![string_leaf("a", 2), string_leaf("b", 10)]),
            string_leaf("c", 18),
        ],
    );
    let expected_and = object(
        PolicyType::Or,
        vec![
            object(PolicyType::And, vec![leaf_value("a", 2), leaf_value("b", 10)]),
            leaf_value("c", 18),
        ],
    );
    let expected_or = object(
        PolicyType::Or,
        vec![
            object(PolicyType::Or, vec![leaf_value("a", 2), leaf_value("b", 10)]),
            leaf_value("c", 18),
        ],
    );
    assert_eq!(convert(&nested_and), Ok(expected_and));
    assert_eq!(convert(&nested_or), Ok(expected_or));
}

#[test]
fn deeply_nested_input_converts() {
    let mut node = string_leaf("x", 500);
    for _ in 0..1000 {
        node = group(RuleKind::And, vec![node]);
    }
    let value = convert(&node).unwrap();
    assert_eq!(leaves_of(&value), vec![("x".to_string(), 500)]);
}

#[test]
fn structural_round_trip_rebuilds_the_same_tree() {
    let node = group(
        RuleKind::Or,
        vec![
            group(RuleKind::And, vec![string_leaf("a", 2), string_leaf("b", 10)]),
            number_leaf("7", 18),
        ],
    );
    let value = convert(&node).unwrap();
    let rebuilt = convert(&canonical_parse_node(&value)).unwrap();
    assert_eq!(rebuilt, value);
}

#[test]
fn bounded_conversion_agrees_within_depth() {
    let node = group(
        RuleKind::Or,
        vec![
            group(RuleKind::And, vec![string_leaf("a", 2), string_leaf("b", 10)]),
            string_leaf("c", 18),
        ],
    );
    assert_eq!(convert_bounded(&node, 64), convert(&node));
}

#[test]
fn bounded_conversion_reports_depth_error() {
    let mut node = string_leaf("x", 1);
    for _ in 0..100 {
        node = group(RuleKind::And, vec![node]);
    }
    assert_eq!(convert_bounded(&node, 10), Err(ConvertError::DepthExceeded));
}

#[test]
fn bounded_conversion_accepts_exact_depth() {
    // One connective over one leaf needs a budget of exactly two levels.
    let node = group(RuleKind::And, vec![string_leaf("a", 1)]);
    assert_eq!(convert_bounded(&node, 2), convert(&node));
    assert_eq!(convert_bounded(&node, 1), Err(ConvertError::DepthExceeded));
}

#[test]
fn bounded_conversion_still_rejects_structural_nodes() {
    let node = group(RuleKind::And, vec![structural(RuleKind::Quote)]);
    assert_eq!(convert_bounded(&node, 64), Err(ConvertError::InvariantViolation));
}
