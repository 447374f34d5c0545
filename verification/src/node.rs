//! The tree of nodes that the grammar matcher yields for a script.

use vstd::prelude::*;

verus! {

/// The kind of a node: the grammar rule that matched its text.
#[derive(Clone, Copy, Debug, PartialEq, Eq)]
pub enum NodeKind {
    /// One line of dialogue.
    Line,
    /// A group of choices.
    Choices,
    /// One choice of a group.
    Choice,
    /// The declaration of a branch label.
    Branch,
    /// A jump: inside a line or a choice, or on its own after an entry.
    Goto,
    /// The tag list of a line or a choice.
    Tags,
    /// One tag.
    Tag,
    /// The text of a line or a choice.
    Text,
    /// The name that a branch declares or a jump refers to.
    Label,
    /// The end of the input.
    EndOfInput,
    /// Any other rule of the grammar: one that stands for no part of a
    /// script.
    Other,
}

/// A node of the tree: its kind, the text it spans, and the nodes inside
/// it in the order of the text.
#[derive(Debug, PartialEq, Eq)]
pub struct Node {
    pub kind: NodeKind,
    pub text: String,
    pub children: Vec<Node>,
}

impl Node {
    /// A node with the given kind, text and children.
    pub fn new(kind: NodeKind, text: String, children: Vec<Node>) -> (node: Node)
        ensures
            node.kind == kind,
            node.text == text,
            node.children == children,
    {
        Node { kind, text, children }
    }
}

} // verus!
