//! The parse tree: what the parser hands to the extractor.
//!
//! A tree does not hold the text it was made from. Its nodes hold
//! positions in that text, counted in characters from 0.

use crate::grammar::{NodeView, Rule, SpanView, SyntaxErrorView};
use crate::text::push_decimal;
use vstd::prelude::*;
use vstd::string::*;

verus! {

/// A stretch of the text: the characters from `start` up to, but not
/// including, `end`.
#[derive(Clone, Copy, Debug, PartialEq, Eq, Structural)]
pub struct Span {
    pub start: usize,
    pub end: usize,
}

impl View for Span {
    type V = SpanView;

    open spec fn view(&self) -> SpanView {
        SpanView { start: self.start as int, end: self.end as int }
    }
}

/// One match of a top-level rule.
#[derive(Clone, Copy, Debug, PartialEq, Eq, Structural)]
pub enum Node {
    /// The section line; the span covers the header, brackets included.
    Section { header: Span },
    /// A property line.
    Property { name: Span, value: Span },
    /// The end of the text.
    EndOfInput { at: usize },
}

impl View for Node {
    type V = NodeView;

    open spec fn view(&self) -> NodeView {
        match *self {
            Node::Section { header } => NodeView::Section { header: header@ },
            Node::Property { name, value } => NodeView::Property { name: name@, value: value@ },
            Node::EndOfInput { at } => NodeView::EndOfInput { at: at as int },
        }
    }
}

impl Node {
    /// The rule that the node is a match of.
    pub open spec fn spec_rule(&self) -> Rule {
        match *self {
            Node::Section { .. } => Rule::Section,
            Node::Property { .. } => Rule::Property,
            Node::EndOfInput { .. } => Rule::EndOfInput,
        }
    }

    /// The rule that the node is a match of.
    #[verifier::when_used_as_spec(spec_rule)]
    pub fn rule(&self) -> (rule: Rule)
        ensures
            rule == self.spec_rule(),
    {
        match *self {
            Node::Section { .. } => Rule::Section,
            Node::Property { .. } => Rule::Property,
            Node::EndOfInput { .. } => Rule::EndOfInput,
        }
    }
}

/// The views of `nodes`, in the same order.
pub open spec fn node_views(nodes: Seq<Node>) -> Seq<NodeView> {
    Seq::new(nodes.len(), |i: int| nodes[i]@)
}

/// The top-level matches of a text, in the order of the text.
#[derive(Clone, Debug, PartialEq, Eq)]
pub struct ParseTree {
    pub nodes: Vec<Node>,
}

impl View for ParseTree {
    type V = Seq<NodeView>;

    open spec fn view(&self) -> Seq<NodeView> {
        node_views(self.nodes@)
    }
}

/// Whether every span of `nodes` lies inside a text of `len` characters.
pub open spec fn nodes_within(nodes: Seq<NodeView>, len: nat) -> bool {
    forall|i: int| 0 <= i < nodes.len() ==> (#[trigger] nodes[i]).within(len)
}

impl ParseTree {
    /// Whether every span of the tree lies inside `text`.
    pub open spec fn within(&self, text: Seq<char>) -> bool {
        nodes_within(self@, text.len())
    }
}

/// Where and why a text stopped matching the grammar.
#[derive(Clone, Copy, Debug, PartialEq, Eq, Structural)]
pub struct SyntaxError {
    /// The rule that could not be matched.
    pub rule: Rule,
    /// The position, counted in characters from 0, of the first character
    /// that the rule could not take; the length of the text where the
    /// text ended too early.
    pub offset: usize,
    /// The number of the line that `offset` lies on, counted from 1.
    pub line: usize,
}

impl View for SyntaxError {
    type V = SyntaxErrorView;

    open spec fn view(&self) -> SyntaxErrorView {
        SyntaxErrorView { rule: self.rule, offset: self.offset as int, line: self.line as int }
    }
}

impl SyntaxError {
    /// The error in words, for whoever wrote the text: the line, the
    /// offset, and what was expected there.
    pub fn message(&self) -> (words: String)
        ensures
            words@ == self@.message(),
    {
        let mut words = String::new();
        words.append("line ");
        push_decimal(&mut words, self.line as u64);
        words.append(", offset ");
        push_decimal(&mut words, self.offset as u64);
        words.append(": expected ");
        words.append(self.rule.describe());
        words
    }
}

} // verus!
