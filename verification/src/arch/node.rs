//! The unit of rendered output.
use vstd::prelude::*;
use crate::ValueType;

verus! {

/// What a node stands for; used for presentation only.
#[derive(Clone, Copy, Debug, PartialEq, Eq, Structural)]
pub enum NodeKind {
    Value(ValueType),
    Instruction,
    Static,
}

impl Default for NodeKind {
    fn default() -> (r: NodeKind)
        ensures
            r == NodeKind::Static,
    {
        NodeKind::Static
    }
}

/// A piece of text that is handed to the sink.
#[derive(Debug)]
pub struct Node {
    pub string: String,
    pub kind: NodeKind,
}

/// The mathematical value of a [`Node`].
pub struct NodeView {
    pub text: Seq<char>,
    pub kind: NodeKind,
}

impl View for Node {
    type V = NodeView;

    open spec fn view(&self) -> NodeView {
        NodeView { text: self.string@, kind: self.kind }
    }
}

impl Clone for Node {
    fn clone(&self) -> (r: Node)
        ensures
            r@ == self@,
    {
        Node { string: self.string.clone(), kind: self.kind }
    }
}

impl Default for Node {
    fn default() -> (r: Node)
        ensures
            r@ == (NodeView { text: Seq::empty(), kind: NodeKind::Static }),
    {
        Node { string: String::new(), kind: NodeKind::Static }
    }
}

impl Node {
    /// A static node with the given text.
    pub fn new(string: String) -> (r: Node)
        ensures
            r@ == (NodeView { text: string@, kind: NodeKind::Static }),
    {
        Node { string, kind: NodeKind::Static }
    }

    /// A static node with the text of `s`.
    pub fn text(s: &str) -> (r: Node)
        ensures
            r@ == (NodeView { text: s@, kind: NodeKind::Static }),
    {
        Node { string: s.to_owned(), kind: NodeKind::Static }
    }

    /// The node's text.
    pub fn to_text(&self) -> (r: String)
        ensures
            r@ == self@.text,
    {
        self.string.clone()
    }
}

/// Which operation caused the sink to be called.
#[derive(Clone, Copy, Debug, PartialEq, Eq, Structural)]
pub enum CallbackKind {
    Val,
    Raw,
    Address,
    Label,
    Symbol,
    MatcherName,
    Static,
    /// Padding up to the given column.
    Pad(usize),
}

} // verus!
