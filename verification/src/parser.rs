//! The parser: applies the grammar to a text and builds the parse tree.

use crate::grammar::{
    lemma_newline_end, lemma_property_advances, match_file, match_lines, match_property,
    match_section, newline_end, run_end, CharClass, NodeView, Rule, SyntaxErrorView,
};
use crate::text::chars_of;
use crate::tree::{node_views, Node, ParseTree, Span, SyntaxError};
use vstd::prelude::*;

verus! {

/// The nodes `done` put in front of what `rest` holds, or the failure of
/// `rest`.
spec fn after(done: Seq<NodeView>, rest: Result<Seq<NodeView>, SyntaxErrorView>) -> Result<
    Seq<NodeView>,
    SyntaxErrorView,
> {
    match rest {
        Ok(nodes) => Ok(done + nodes),
        Err(e) => Err(e),
    }
}

/// The end of the longest run of characters of `class` that starts at
/// `pos`.
fn scan(chars: &Vec<char>, pos: usize, class: CharClass) -> (end: usize)
    requires
        pos <= chars.len(),
    ensures
        end == run_end(chars@, pos as int, class),
        pos <= end <= chars.len(),
{
    let mut end: usize = pos;
    while end < chars.len() && class.has(chars[end])
        invariant
            pos <= end <= chars.len(),
            run_end(chars@, pos as int, class) == run_end(chars@, end as int, class),
        decreases chars.len() - end,
    {
        end = end + 1;
    }
    end
}

/// The position after the line terminator at `pos`, if there is one.
fn newline(chars: &Vec<char>, pos: usize) -> (next: Option<usize>)
    requires
        pos <= chars.len(),
    ensures
        match next {
            Some(n) => newline_end(chars@, pos as int) == Some(n as int),
            None => newline_end(chars@, pos as int) is None,
        },
{
    if pos < chars.len() && chars[pos] == '\n' {
        Some(pos + 1)
    } else if pos < chars.len() && chars[pos] == '\r' {
        if pos + 1 < chars.len() && chars[pos + 1] == '\n' {
            Some(pos + 2)
        } else {
            Some(pos + 1)
        }
    } else {
        None
    }
}

/// Applies the rule `section` at the start of the text.
fn section(chars: &Vec<char>) -> (r: Result<(Node, usize), SyntaxError>)
    ensures
        match r {
            Ok((node, next)) => match_section(chars@) == Ok::<_, SyntaxErrorView>(
                (node@, next as int),
            ) && 3 <= next <= chars.len() && node@.within(chars@.len()),
            Err(e) => match_section(chars@) == Err::<(NodeView, int), _>(e@),
        },
{
    let open = scan(chars, 0, CharClass::Blank);
    if !(open < chars.len() && chars[open] == '[') {
        return Err(SyntaxError { rule: Rule::Header, offset: open, line: 1 });
    }
    let close = scan(chars, open + 1, CharClass::Header);
    if !(close < chars.len() && chars[close] == ']') {
        return Err(SyntaxError { rule: Rule::Header, offset: close, line: 1 });
    }
    let tail = scan(chars, close + 1, CharClass::Blank);
    proof {
        lemma_newline_end(chars@, tail as int);
    }
    match newline(chars, tail) {
        None => Err(SyntaxError { rule: Rule::Newline, offset: tail, line: 1 }),
        Some(next) => Ok((Node::Section { header: Span { start: open, end: close + 1 } }, next)),
    }
}

/// Applies the rule `property` at `pos`, on line number `line`.
fn property(chars: &Vec<char>, pos: usize, line: usize) -> (r: Result<(Node, usize), SyntaxError>)
    requires
        pos <= chars.len(),
    ensures
        match r {
            Ok((node, next)) => match_property(chars@, pos as int, line as int) == Ok::<
                _,
                SyntaxErrorView,
            >((node@, next as int)) && pos < next <= chars.len() && node@.within(chars@.len()),
            Err(e) => match_property(chars@, pos as int, line as int) == Err::<(NodeView, int), _>(
                e@,
            ),
        },
{
    proof {
        lemma_property_advances(chars@, pos as int, line as int);
    }
    let eq = scan(chars, pos, CharClass::Name);
    if eq == pos {
        return Err(SyntaxError { rule: Rule::Name, offset: pos, line });
    }
    if !(eq < chars.len() && chars[eq] == '=') {
        return Err(SyntaxError { rule: Rule::Separator, offset: eq, line });
    }
    let end = scan(chars, eq + 1, CharClass::Value);
    match newline(chars, end) {
        None => Err(SyntaxError { rule: Rule::Newline, offset: end, line }),
        Some(next) => Ok(
            (
                Node::Property {
                    name: Span { start: pos, end: eq },
                    value: Span { start: eq + 1, end },
                },
                next,
            ),
        ),
    }
}

/// Applies the rule `file` to the text `chars`.
pub fn parse_chars(chars: &Vec<char>) -> (r: Result<ParseTree, SyntaxError>)
    ensures
        match r {
            Ok(tree) => match_file(chars@) == Ok::<_, SyntaxErrorView>(tree@) && tree.within(
                chars@,
            ),
            Err(e) => match_file(chars@) == Err::<Seq<NodeView>, _>(e@),
        },
{
    let (first, start) = match section(chars) {
        Ok(found) => found,
        Err(e) => {
            return Err(e);
        },
    };
    let mut nodes: Vec<Node> = Vec::new();
    nodes.push(first);
    let mut pos: usize = start;
    let mut line: usize = 2;
    assert(node_views(nodes@) =~= seq![first@]);
    while pos < chars.len()
        invariant
            2 <= line <= pos <= chars.len(),
            match_file(chars@) == after(
                node_views(nodes@),
                match_lines(chars@, pos as int, line as int),
            ),
            forall|i: int| 0 <= i < nodes.len() ==> (#[trigger] nodes[i])@.within(chars@.len()),
        decreases chars.len() - pos,
    {
        let ghost done = node_views(nodes@);
        match property(chars, pos, line) {
            Err(e) => {
                return Err(e);
            },
            Ok((node, next)) => {
                nodes.push(node);
                proof {
                    let rest = match_lines(chars@, next as int, line as int + 1);
                    assert(node_views(nodes@) =~= done.push(node@));
                    match rest {
                        Ok(more) => {
                            assert(done + (seq![node@] + more) =~= done.push(node@) + more);
                        },
                        Err(_) => {},
                    }
                }
                pos = next;
                line = line + 1;
            },
        }
    }
    let ghost done = node_views(nodes@);
    nodes.push(Node::EndOfInput { at: pos });
    proof {
        assert(node_views(nodes@) =~= done + seq![NodeView::EndOfInput { at: pos as int }]);
    }
    let tree = ParseTree { nodes };
    assert(tree.within(chars@));
    Ok(tree)
}

/// The parser of the runtime configuration dialect.
#[derive(Clone, Copy, Debug)]
pub struct INIParser;

impl INIParser {
    /// Applies the grammar to `input`: the parse tree where `input` is a
    /// section line followed by property lines and nothing else, and
    /// otherwise the first place where it is not.
    pub fn parse(input: &str) -> (r: Result<ParseTree, SyntaxError>)
        ensures
            match r {
                Ok(tree) => match_file(input@) == Ok::<_, SyntaxErrorView>(tree@) && tree.within(
                    input@,
                ),
                Err(e) => match_file(input@) == Err::<Seq<NodeView>, _>(e@),
            },
    {
        let chars = chars_of(input);
        parse_chars(&chars)
    }
}

} // verus!
