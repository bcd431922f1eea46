//! The grammar of the runtime configuration dialect.
//!
//! A configuration text is one section line followed by any number of
//! property lines and nothing else:
//!
//! ```text
//! file      = section property* end-of-input
//! section   = blank* header blank* newline
//! header    = "[" header-char* "]"
//! property  = name "=" value newline
//! name      = name-char+
//! value     = value-char*
//! newline   = "\n" | "\r\n" | "\r"
//! blank     = " " | "\t"
//! ```
//!
//! A name character is an ASCII letter, an ASCII digit or `_`; a value
//! character is anything but `\n` and `\r`; a header character is a value
//! character other than `]`. Every repetition is greedy. Blank lines,
//! comments and quoting do not exist in this dialect, a second section
//! line is no property line, and the last line needs its line terminator
//! like every other.
//!
//! The grammar takes any header in brackets. That the header is `[api]`
//! is for the extractor to see, so that a text with another section is
//! told apart from a text that is no configuration at all.
//!
//! The rules are written here as functions over a text and a position in
//! it, both mathematical: a text is a `Seq<char>` and a position an `int`.

use crate::text::decimal;
use vstd::prelude::*;

verus! {

/// The named rules of the grammar.
#[derive(Clone, Copy, Debug, PartialEq, Eq, Structural)]
pub enum Rule {
    /// The whole text.
    File,
    /// The section line.
    Section,
    /// The bracketed section header on the section line.
    Header,
    /// A property line.
    Property,
    /// The name of a property.
    Name,
    /// The `=` between the name and the value of a property.
    Separator,
    /// The value of a property.
    Value,
    /// A line terminator.
    Newline,
    /// The end of the text.
    EndOfInput,
}

impl Rule {
    /// What the rule matches, in words.
    pub open spec fn spec_describe(self) -> Seq<char> {
        match self {
            Rule::File => "a configuration"@,
            Rule::Section => "a section line"@,
            Rule::Header => "a section header in brackets"@,
            Rule::Property => "a property line"@,
            Rule::Name => "a property name"@,
            Rule::Separator => "`=` after the property name"@,
            Rule::Value => "a property value"@,
            Rule::Newline => "a line terminator"@,
            Rule::EndOfInput => "the end of the text"@,
        }
    }

    /// What the rule matches, in words.
    pub fn describe(self) -> (words: &'static str)
        ensures
            words@ == self.spec_describe(),
    {
        match self {
            Rule::File => "a configuration",
            Rule::Section => "a section line",
            Rule::Header => "a section header in brackets",
            Rule::Property => "a property line",
            Rule::Name => "a property name",
            Rule::Separator => "`=` after the property name",
            Rule::Value => "a property value",
            Rule::Newline => "a line terminator",
            Rule::EndOfInput => "the end of the text",
        }
    }
}

/// The character classes that the grammar repeats.
#[derive(Clone, Copy, Debug, PartialEq, Eq, Structural)]
pub enum CharClass {
    /// A space or a tab.
    Blank,
    /// An ASCII letter, an ASCII digit or an underscore.
    Name,
    /// Any character that does not end a line.
    Value,
    /// Any character that ends neither a line nor a section header.
    Header,
}

/// Whether `c` is one of the two characters that line terminators are made
/// of.
pub open spec fn is_line_break(c: char) -> bool {
    c == '\n' || c == '\r'
}

impl CharClass {
    /// Whether `c` belongs to this class.
    pub open spec fn contains(self, c: char) -> bool {
        match self {
            CharClass::Blank => c == ' ' || c == '\t',
            CharClass::Name => {
                ||| 'a' <= c <= 'z'
                ||| 'A' <= c <= 'Z'
                ||| '0' <= c <= '9'
                ||| c == '_'
            },
            CharClass::Value => !is_line_break(c),
            CharClass::Header => !is_line_break(c) && c != ']',
        }
    }

    /// Decides [`CharClass::contains`].
    pub fn has(self, c: char) -> (b: bool)
        ensures
            b == self.contains(c),
    {
        match self {
            CharClass::Blank => c == ' ' || c == '\t',
            CharClass::Name => {
                (c >= 'a' && c <= 'z') || (c >= 'A' && c <= 'Z') || (c >= '0' && c <= '9') || c
                    == '_'
            },
            CharClass::Value => c != '\n' && c != '\r',
            CharClass::Header => c != '\n' && c != '\r' && c != ']',
        }
    }
}

/// A stretch of a text: the characters from `start` up to, but not
/// including, `end`.
pub struct SpanView {
    pub start: int,
    pub end: int,
}

impl SpanView {
    /// Whether the stretch lies inside a text of `len` characters.
    pub open spec fn within(self, len: nat) -> bool {
        0 <= self.start <= self.end <= len
    }

    /// The characters of `s` that the stretch covers.
    pub open spec fn text(self, s: Seq<char>) -> Seq<char> {
        s.subrange(self.start, self.end)
    }
}

/// One match of a top-level rule.
pub enum NodeView {
    /// The section line; the span covers the header, brackets included.
    Section { header: SpanView },
    /// A property line.
    Property { name: SpanView, value: SpanView },
    /// The end of the text.
    EndOfInput { at: int },
}

impl NodeView {
    /// Whether every span of the node lies inside a text of `len`
    /// characters.
    pub open spec fn within(self, len: nat) -> bool {
        match self {
            NodeView::Section { header } => header.within(len),
            NodeView::Property { name, value } => name.within(len) && value.within(len),
            NodeView::EndOfInput { at } => 0 <= at <= len,
        }
    }
}

/// Where and why a text stopped matching the grammar.
pub struct SyntaxErrorView {
    /// The rule that could not be matched.
    pub rule: Rule,
    /// The position of the first character that the rule could not take;
    /// the length of the text where the text ended too early. Up to
    /// here the text could still become a configuration.
    pub offset: int,
    /// The number of the line that `offset` lies on, counted from 1: see
    /// [`line_of`].
    pub line: int,
}

impl SyntaxErrorView {
    /// The error in words: the line, the offset, and what was expected
    /// there.
    pub open spec fn message(self) -> Seq<char> {
        "line "@ + decimal(self.line) + ", offset "@ + decimal(self.offset) + ": expected "@
            + self.rule.spec_describe()
    }
}

/// The end of the longest run of characters of `class` that starts at
/// `pos`; `pos` itself where there is none.
pub open spec fn run_end(s: Seq<char>, pos: int, class: CharClass) -> int
    decreases s.len() - pos,
{
    if 0 <= pos < s.len() && class.contains(s[pos]) {
        run_end(s, pos + 1, class)
    } else {
        pos
    }
}

/// The position after the line terminator at `pos`, if there is one.
/// A `\r` directly followed by `\n` is one terminator.
pub open spec fn newline_end(s: Seq<char>, pos: int) -> Option<int> {
    if 0 <= pos < s.len() && s[pos] == '\n' {
        Some(pos + 1)
    } else if 0 <= pos < s.len() && s[pos] == '\r' {
        if pos + 1 < s.len() && s[pos + 1] == '\n' {
            Some(pos + 2)
        } else {
            Some(pos + 1)
        }
    } else {
        None
    }
}

/// The rule `section`, applied at the start of `s`: the node and the
/// position of the line that follows, or the failure.
pub open spec fn match_section(s: Seq<char>) -> Result<(NodeView, int), SyntaxErrorView> {
    let open = run_end(s, 0, CharClass::Blank);
    if !(open < s.len() && s[open] == '[') {
        Err(SyntaxErrorView { rule: Rule::Header, offset: open, line: 1 })
    } else {
        let close = run_end(s, open + 1, CharClass::Header);
        if !(close < s.len() && s[close] == ']') {
            Err(SyntaxErrorView { rule: Rule::Header, offset: close, line: 1 })
        } else {
            let tail = run_end(s, close + 1, CharClass::Blank);
            match newline_end(s, tail) {
                None => Err(SyntaxErrorView { rule: Rule::Newline, offset: tail, line: 1 }),
                Some(next) => Ok(
                    (NodeView::Section { header: SpanView { start: open, end: close + 1 } }, next),
                ),
            }
        }
    }
}

/// The rule `property`, applied at `pos` on line number `line`: the node
/// and the position of the line that follows, or the failure.
pub open spec fn match_property(s: Seq<char>, pos: int, line: int) -> Result<
    (NodeView, int),
    SyntaxErrorView,
> {
    let eq = run_end(s, pos, CharClass::Name);
    if eq == pos {
        Err(SyntaxErrorView { rule: Rule::Name, offset: pos, line })
    } else if !(eq < s.len() && s[eq] == '=') {
        Err(SyntaxErrorView { rule: Rule::Separator, offset: eq, line })
    } else {
        let end = run_end(s, eq + 1, CharClass::Value);
        match newline_end(s, end) {
            None => Err(SyntaxErrorView { rule: Rule::Newline, offset: end, line }),
            Some(next) => Ok(
                (
                    NodeView::Property {
                        name: SpanView { start: pos, end: eq },
                        value: SpanView { start: eq + 1, end },
                    },
                    next,
                ),
            ),
        }
    }
}

/// The rules `property* end-of-input`, applied at `pos` on line number
/// `line`: the nodes in the order of the text, the end of the text last.
pub open spec fn match_lines(s: Seq<char>, pos: int, line: int) -> Result<
    Seq<NodeView>,
    SyntaxErrorView,
>
    decreases s.len() - pos,
{
    if pos < 0 || pos >= s.len() {
        Ok(seq![NodeView::EndOfInput { at: pos }])
    } else {
        match match_property(s, pos, line) {
            Err(e) => Err(e),
            Ok((node, next)) => {
                proof {
                    lemma_property_advances(s, pos, line);
                }
                match match_lines(s, next, line + 1) {
                    Err(e) => Err(e),
                    Ok(rest) => Ok(seq![node] + rest),
                }
            },
        }
    }
}

/// The rule `file`: the nodes of `s` in the order of the text, or the
/// first failure.
pub open spec fn match_file(s: Seq<char>) -> Result<Seq<NodeView>, SyntaxErrorView> {
    match match_section(s) {
        Err(e) => Err(e),
        Ok((section, next)) => match match_lines(s, next, 2) {
            Err(e) => Err(e),
            Ok(rest) => Ok(seq![section] + rest),
        },
    }
}

/// A run ends inside the text, holds only characters of its class, and
/// stops at the end of the text or before a character outside the class.
pub proof fn lemma_run_end(s: Seq<char>, pos: int, class: CharClass)
    requires
        0 <= pos <= s.len(),
    ensures
        pos <= run_end(s, pos, class) <= s.len(),
        forall|i: int| pos <= i < run_end(s, pos, class) ==> class.contains(#[trigger] s[i]),
        run_end(s, pos, class) < s.len() ==> !class.contains(s[run_end(s, pos, class)]),
    decreases s.len() - pos,
{
    if pos < s.len() && class.contains(s[pos]) {
        lemma_run_end(s, pos + 1, class);
    }
}

/// A run is determined by its two properties: `end` is the end of the run
/// at `pos` if everything between them is in the class and the run cannot
/// go on at `end`.
pub proof fn lemma_run_end_is(s: Seq<char>, pos: int, end: int, class: CharClass)
    requires
        0 <= pos <= end <= s.len(),
        forall|i: int| pos <= i < end ==> class.contains(#[trigger] s[i]),
        end < s.len() ==> !class.contains(s[end]),
    ensures
        run_end(s, pos, class) == end,
    decreases end - pos,
{
    if pos < end {
        lemma_run_end_is(s, pos + 1, end, class);
    }
}

/// A line terminator, where there is one, is one or two characters long
/// and lies inside the text.
pub proof fn lemma_newline_end(s: Seq<char>, pos: int)
    requires
        0 <= pos <= s.len(),
    ensures
        newline_end(s, pos) matches Some(next) ==> pos < next <= s.len() && next <= pos + 2
            && is_line_break(s[pos]),
        newline_end(s, pos) is None <==> (pos == s.len() || !is_line_break(s[pos])),
{
}

/// A matched property line is not empty, ends inside the text, and its
/// spans lie inside the text.
pub proof fn lemma_property_advances(s: Seq<char>, pos: int, line: int)
    requires
        0 <= pos <= s.len(),
    ensures
        match_property(s, pos, line) matches Ok((node, next)) ==> pos < next <= s.len()
            && node.within(s.len()),
        match_property(s, pos, line) matches Err(e) ==> pos <= e.offset <= s.len() && e.line
            == line,
{
    lemma_run_end(s, pos, CharClass::Name);
    let eq = run_end(s, pos, CharClass::Name);
    if eq < s.len() {
        lemma_run_end(s, eq + 1, CharClass::Value);
        lemma_newline_end(s, run_end(s, eq + 1, CharClass::Value));
    }
}

/// Whether a line ends with the character at `i`: a `\n`, or a `\r` that
/// no `\n` follows.
pub open spec fn ends_line(s: Seq<char>, i: int) -> bool {
    0 <= i < s.len() && (s[i] == '\n' || (s[i] == '\r' && !(i + 1 < s.len() && s[i + 1] == '\n')))
}

/// The number of the line that position `pos` of `s` lies on, counted
/// from 1: one more than the number of lines that end before `pos`.
pub open spec fn line_of(s: Seq<char>, pos: int) -> int
    decreases pos,
{
    if pos <= 0 {
        1
    } else if ends_line(s, pos - 1) {
        line_of(s, pos - 1) + 1
    } else {
        line_of(s, pos - 1)
    }
}

/// Positions with no line break between them lie on one line.
proof fn lemma_same_line(s: Seq<char>, from: int, to: int)
    requires
        0 <= from <= to <= s.len(),
        forall|i: int| from <= i < to ==> !is_line_break(#[trigger] s[i]),
    ensures
        line_of(s, to) == line_of(s, from),
    decreases to - from,
{
    if from < to {
        lemma_same_line(s, from, to - 1);
    }
}

/// The position after a line terminator lies on the next line.
proof fn lemma_next_line(s: Seq<char>, pos: int)
    requires
        0 <= pos <= s.len(),
        newline_end(s, pos) is Some,
    ensures
        line_of(s, newline_end(s, pos)->Some_0) == line_of(s, pos) + 1,
{
    let next = newline_end(s, pos)->Some_0;
    if next == pos + 2 {
        assert(line_of(s, pos + 1) == line_of(s, pos));
    }
}

/// Where a property line matches, the next line has the next number;
/// where it fails, the failure lies on the line itself.
proof fn lemma_property_line(s: Seq<char>, pos: int, line: int)
    requires
        0 <= pos <= s.len(),
        line == line_of(s, pos),
    ensures
        match_property(s, pos, line) matches Ok((_, next)) ==> line_of(s, next) == line + 1,
        match_property(s, pos, line) matches Err(e) ==> e.line == line_of(s, e.offset),
{
    let eq = run_end(s, pos, CharClass::Name);
    lemma_run_end(s, pos, CharClass::Name);
    lemma_same_line(s, pos, eq);
    if eq != pos && eq < s.len() && s[eq] == '=' {
        let end = run_end(s, eq + 1, CharClass::Value);
        lemma_run_end(s, eq + 1, CharClass::Value);
        lemma_same_line(s, pos, end);
        if newline_end(s, end) is Some {
            lemma_next_line(s, end);
        }
    }
}

/// A failure among the property lines lies on the line whose number it
/// holds.
proof fn lemma_lines_line(s: Seq<char>, pos: int, line: int)
    requires
        0 <= pos <= s.len(),
        line == line_of(s, pos),
    ensures
        match_lines(s, pos, line) matches Err(e) ==> e.line == line_of(s, e.offset),
    decreases s.len() - pos,
{
    if pos < s.len() {
        lemma_property_line(s, pos, line);
        lemma_property_advances(s, pos, line);
        match match_property(s, pos, line) {
            Ok((_, next)) => {
                lemma_lines_line(s, next, line + 1);
            },
            Err(_) => {},
        }
    }
}

/// The line that a syntax error holds is the line that its offset lies
/// on: one more than the number of lines that end before the offset.
/// The offset itself lies inside the text, or at its end.
pub proof fn theorem_error_line(s: Seq<char>)
    ensures
        match_file(s) matches Err(e) ==> e.line == line_of(s, e.offset) && 0 <= e.offset
            <= s.len(),
{
    let open = run_end(s, 0, CharClass::Blank);
    lemma_run_end(s, 0, CharClass::Blank);
    lemma_same_line(s, 0, open);
    if open < s.len() && s[open] == '[' {
        let close = run_end(s, open + 1, CharClass::Header);
        lemma_run_end(s, open + 1, CharClass::Header);
        lemma_same_line(s, 0, close);
        if close < s.len() && s[close] == ']' {
            let tail = run_end(s, close + 1, CharClass::Blank);
            lemma_run_end(s, close + 1, CharClass::Blank);
            lemma_same_line(s, 0, tail);
            lemma_newline_end(s, tail);
            if newline_end(s, tail) is Some {
                let next = newline_end(s, tail)->Some_0;
                lemma_next_line(s, tail);
                lemma_lines_line(s, next, 2);
                lemma_lines_offset(s, next, 2);
            }
        }
    }
}

/// A failure among the property lines lies inside the text, or at its
/// end.
pub proof fn lemma_lines_offset(s: Seq<char>, pos: int, line: int)
    requires
        0 <= pos <= s.len(),
    ensures
        match_lines(s, pos, line) matches Err(e) ==> pos <= e.offset <= s.len(),
    decreases s.len() - pos,
{
    if pos < s.len() {
        lemma_property_advances(s, pos, line);
        match match_property(s, pos, line) {
            Ok((_, next)) => {
                lemma_lines_offset(s, next, line + 1);
            },
            Err(_) => {},
        }
    }
}

/// Whether `nodes` is property lines and then the end of a text of `len`
/// characters, all inside that text.
pub open spec fn is_lines(nodes: Seq<NodeView>, len: nat) -> bool {
    &&& nodes.len() >= 1
    &&& nodes.last() == (NodeView::EndOfInput { at: len as int })
    &&& forall|i: int|
        0 <= i < nodes.len() - 1 ==> (#[trigger] nodes[i]) is Property && nodes[i].within(len)
}

/// The property lines of a text are followed by its end, and by nothing
/// else.
proof fn lemma_lines_shape(s: Seq<char>, pos: int, line: int)
    requires
        0 <= pos <= s.len(),
    ensures
        match_lines(s, pos, line) matches Ok(nodes) ==> is_lines(nodes, s.len()),
    decreases s.len() - pos,
{
    if pos < s.len() {
        lemma_property_advances(s, pos, line);
        match match_property(s, pos, line) {
            Ok((node, next)) => {
                lemma_lines_shape(s, next, line + 1);
                match match_lines(s, next, line + 1) {
                    Ok(rest) => {
                        let nodes = seq![node] + rest;
                        assert forall|i: int| 0 <= i < nodes.len() - 1 implies (
                        #[trigger] nodes[i]) is Property && nodes[i].within(s.len()) by {
                            if i > 0 {
                                assert(nodes[i] == rest[i - 1]);
                            }
                        }
                    },
                    Err(_) => {},
                }
            },
            Err(_) => {},
        }
    }
}

/// A parse tree is the section, then the property lines in the order of
/// the text, then the end of the text, and every span of it lies inside
/// the text.
pub proof fn theorem_tree_shape(s: Seq<char>)
    ensures
        match_file(s) matches Ok(nodes) ==> {
            &&& nodes.len() >= 2
            &&& nodes[0] is Section
            &&& nodes[0].within(s.len())
            &&& is_lines(nodes.drop_first(), s.len())
        },
{
    let open = run_end(s, 0, CharClass::Blank);
    lemma_run_end(s, 0, CharClass::Blank);
    if open < s.len() {
        let close = run_end(s, open + 1, CharClass::Header);
        lemma_run_end(s, open + 1, CharClass::Header);
        if close < s.len() {
            let tail = run_end(s, close + 1, CharClass::Blank);
            lemma_run_end(s, close + 1, CharClass::Blank);
            lemma_newline_end(s, tail);
            match match_section(s) {
                Ok((section, next)) => {
                    lemma_lines_shape(s, next, 2);
                    match match_lines(s, next, 2) {
                        Ok(rest) => {
                            assert((seq![section] + rest).drop_first() =~= rest);
                        },
                        Err(_) => {},
                    }
                },
                Err(_) => {},
            }
        }
    }
}

} // verus!
