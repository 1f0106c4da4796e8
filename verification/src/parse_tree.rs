//! The parse tree handed over by the grammar engine.
//!
//! The grammar engine (an external collaborator) turns policy text into a
//! tree of nodes, each labeled with the grammar rule that produced it. The
//! tree builder only ever reads a node's rule label, its token text, its
//! 1-based source column and its children, so a node is modeled here as
//! exactly those four plain values.

use vstd::prelude::*;

verus! {

/// The closed set of rule labels the grammar can attach to a parse node.
///
/// `Str`, `Number`, `And` and `Or` are the four labels the tree builder
/// translates. All the others exist only to shape the grammar (precedence
/// wrapping, punctuation, comments, whitespace, the end-of-input marker)
/// and must never label a node that is handed to the builder.
#[derive(Clone, Copy, PartialEq, Eq, Structural, Debug)]
pub enum RuleKind {
    /// A double-quoted attribute string, wrapping one inner token.
    Str,
    /// A bare numeric attribute literal, wrapping one inner token.
    Number,
    /// An AND group; its children are the operands in source order.
    And,
    /// An OR group; its children are the operands in source order.
    Or,
    /// Structural: the overall content wrapper.
    Content,
    /// Structural: the end-of-input marker.
    EndOfInput,
    /// Structural: the token text inside a quoted string or a number.
    Inner,
    /// Structural: precedence wrapper inside an OR group.
    OrInner,
    /// Structural: precedence wrapper inside an AND group.
    AndInner,
    /// Structural: a single term.
    Term,
    /// Structural: a general node wrapper.
    Node,
    /// Structural: a general value wrapper.
    Value,
    /// Structural: an operand position of an AND group.
    AndValue,
    /// Structural: an operand position of an OR group.
    OrValue,
    /// Structural: a single character of a token.
    Character,
    /// Structural: a comment.
    Comment,
    /// Structural: an opening parenthesis.
    BraceOpen,
    /// Structural: a closing parenthesis.
    BraceClose,
    /// Structural: a quote character.
    Quote,
    /// Structural: insignificant whitespace.
    Whitespace,
}

/// One node of the parse tree, as the grammar engine reports it: the rule
/// label, the matched token text, the 1-based column in the source line
/// where the match starts, and the child nodes in source order.
#[derive(PartialEq, Debug)]
pub struct ParseNode {
    pub rule: RuleKind,
    pub text: String,
    pub column: usize,
    pub children: Vec<ParseNode>,
}

/// The mathematical model of a parse node.
pub struct NodeModel {
    pub rule: RuleKind,
    pub text: Seq<char>,
    pub col: int,
    pub children: Seq<NodeModel>,
}

/// The models of a sequence of parse nodes, element by element.
pub open spec fn node_models(nodes: Seq<ParseNode>) -> Seq<NodeModel>
    decreases nodes, 0int,
{
    Seq::new(
        nodes.len(),
        |i: int|
            if 0 <= i < nodes.len() {
                nodes[i]@
            } else {
                arbitrary()
            },
    )
}

impl View for ParseNode {
    type V = NodeModel;

    open spec fn view(&self) -> NodeModel
        decreases self, 1int,
    {
        NodeModel {
            rule: self.rule,
            text: self.text@,
            col: self.column as int,
            children: node_models(self.children@),
        }
    }
}

/// A parse node is well-formed when the tree builder has a translation for
/// every node of it: a leaf (`Str` or `Number`) wraps exactly one inner
/// token, and a connective (`And` or `Or`) has only well-formed operands.
/// A node labeled with a structural-only rule is not well-formed.
pub open spec fn wf(n: NodeModel) -> bool
    decreases n,
{
    match n.rule {
        RuleKind::Str | RuleKind::Number => n.children.len() == 1,
        RuleKind::And | RuleKind::Or => forall|i: int|
            0 <= i < n.children.len() ==> wf(#[trigger] n.children[i]),
        _ => false,
    }
}

/// The leaf tokens of a parse tree, in source order, read left to right:
/// for every `Str` or `Number` node, the text of its single inner token
/// and the node's own starting column (for a quoted attribute, where the
/// opening quote stands).
pub open spec fn node_leaf_tokens(n: NodeModel) -> Seq<(Seq<char>, int)>
    decreases n, 0int, 0int,
{
    match n.rule {
        RuleKind::Str | RuleKind::Number => seq![(n.children[0].text, n.col)],
        RuleKind::And | RuleKind::Or => node_leaf_tokens_from(n.children, 0),
        _ => Seq::empty(),
    }
}

/// The leaf tokens of the operands `children[i..]`, concatenated in order.
pub open spec fn node_leaf_tokens_from(children: Seq<NodeModel>, i: int) -> Seq<
    (Seq<char>, int),
>
    decreases children, 1int, children.len() - i,
{
    if 0 <= i < children.len() {
        node_leaf_tokens(children[i]) + node_leaf_tokens_from(children, i + 1)
    } else {
        Seq::empty()
    }
}

/// The nesting depth of a parse tree: 1 for a node without children,
/// 1 more than the deepest child otherwise.
pub open spec fn height(n: NodeModel) -> nat
    decreases n, 0int, 0int,
{
    1 + max_child_height(n.children, 0)
}

/// The largest height among the children `children[i..]`; 0 when there
/// are none.
pub open spec fn max_child_height(children: Seq<NodeModel>, i: int) -> nat
    decreases children, 1int, children.len() - i,
{
    if 0 <= i < children.len() {
        let first = height(children[i]);
        let rest = max_child_height(children, i + 1);
        if first > rest {
            first
        } else {
            rest
        }
    } else {
        0
    }
}

/// The same parse tree with every `And` rule label replaced by `Or` and
/// every `Or` by `And`; token text, columns, order and all other labels
/// are kept.
pub open spec fn swap_node(n: NodeModel) -> NodeModel
    decreases n, 1int,
{
    NodeModel {
        rule: swap_rule(n.rule),
        text: n.text,
        col: n.col,
        children: swap_nodes(n.children),
    }
}

/// `swap_node`, element by element.
pub open spec fn swap_nodes(children: Seq<NodeModel>) -> Seq<NodeModel>
    decreases children, 0int,
{
    Seq::new(
        children.len(),
        |i: int|
            if 0 <= i < children.len() {
                swap_node(children[i])
            } else {
                arbitrary()
            },
    )
}

/// Two parse trees identical except that the connective rule label of
/// the single node that `path` names is exchanged `And` <-> `Or`. The
/// path is the list of operand positions from the root down to the
/// swapped connective: an empty path swaps the root's label over the
/// very same operands; otherwise the roots agree and only the operand
/// at `path[0]` carries the swap deeper.
pub open spec fn swapped_at_node(n1: NodeModel, n2: NodeModel, path: Seq<int>) -> bool
    decreases path.len(),
{
    (n1.rule == RuleKind::And || n1.rule == RuleKind::Or) && if path.len() == 0 {
        n2 == NodeModel {
            rule: swap_rule(n1.rule),
            text: n1.text,
            col: n1.col,
            children: n1.children,
        }
    } else {
        &&& n2.rule == n1.rule
        &&& n2.text == n1.text
        &&& n2.col == n1.col
        &&& n2.children.len() == n1.children.len()
        &&& 0 <= path[0] < n1.children.len()
        &&& swapped_at_node(n1.children[path[0]], n2.children[path[0]], path.drop_first())
        &&& forall|j: int|
            0 <= j < n1.children.len() && j != path[0] ==> #[trigger] n1.children[j]
                == n2.children[j]
    }
}

/// Exchanges the two connective rule labels and keeps every other label.
pub open spec fn swap_rule(r: RuleKind) -> RuleKind {
    if r == RuleKind::And {
        RuleKind::Or
    } else if r == RuleKind::Or {
        RuleKind::And
    } else {
        r
    }
}

/// No child is deeper than the largest height among the children.
pub proof fn lemma_max_child_height_bound(children: Seq<NodeModel>, i: int, j: int)
    requires
        0 <= i <= j < children.len(),
    ensures
        height(children[j]) <= max_child_height(children, i),
    decreases j - i,
{
    if i < j {
        lemma_max_child_height_bound(children, i + 1, j);
    }
}

/// A well-formed connective node has only well-formed operands.
pub proof fn lemma_wf_child(n: NodeModel, i: int)
    requires
        wf(n),
        n.rule == RuleKind::And || n.rule == RuleKind::Or,
        0 <= i < n.children.len(),
    ensures
        wf(n.children[i]),
{
}

} // verus!
