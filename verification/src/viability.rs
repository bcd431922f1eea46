//! Where a syntax error stands.
//!
//! A text is viable if it can still become a well-formed document, that
//! is, if some well-formed document starts with it. The theorem of this
//! module says that the offset of a syntax error is the place where the
//! text stops being viable.

use crate::document::{
    document_of, theorem_accepted_is_well_formed, theorem_accepts_documents, Document,
};
use crate::grammar::{
    lemma_lines_offset, lemma_newline_end, lemma_property_advances, lemma_run_end,
    lemma_run_end_is, match_file,
    match_lines, match_property, match_section, newline_end, run_end, CharClass, Rule,
    SyntaxErrorView,
};
use vstd::prelude::*;

verus! {

/// Whether some well-formed document starts with `prefix`.
pub open spec fn viable(prefix: Seq<char>) -> bool {
    exists|doc: Document| doc.well_formed() && prefix.is_prefix_of(#[trigger] doc.render())
}

/// Whether `s` and `t` are the same up to position `m`.
spec fn agree(s: Seq<char>, t: Seq<char>, m: int) -> bool {
    &&& 0 <= m <= s.len()
    &&& m <= t.len()
    &&& forall|i: int| 0 <= i < m ==> s[i] == t[i]
}

/// Whether `t` has a `\n` at `pos` only where `s` has one too.
spec fn no_new_line_feed(s: Seq<char>, t: Seq<char>, pos: int) -> bool {
    (0 <= pos < t.len() && t[pos] == '\n') ==> (pos < s.len() && s[pos] == '\n')
}

/// A run of `s` that ends before `m` is a run of every text that is the
/// same up to `m`.
proof fn lemma_run_agrees(s: Seq<char>, t: Seq<char>, m: int, pos: int, class: CharClass)
    requires
        agree(s, t, m),
        0 <= pos,
        run_end(s, pos, class) < m,
    ensures
        run_end(t, pos, class) == run_end(s, pos, class),
{
    if pos <= s.len() {
        lemma_run_end(s, pos, class);
        lemma_run_end_is(t, pos, run_end(s, pos, class), class);
    }
}

/// A line terminator of `s` that ends at or before `m` is a line
/// terminator of every text that is the same up to `m` and has no new
/// `\n` behind it.
proof fn lemma_newline_agrees(s: Seq<char>, t: Seq<char>, m: int, pos: int)
    requires
        agree(s, t, m),
        0 <= pos,
        newline_end(s, pos) matches Some(next) && next <= m && no_new_line_feed(s, t, next),
    ensures
        newline_end(t, pos) == newline_end(s, pos),
{
}

/// A section line of `s` that ends at or before `m` is the section line
/// of every text that is the same up to `m` and has no new `\n` behind
/// it.
proof fn lemma_section_agrees(s: Seq<char>, t: Seq<char>, m: int)
    requires
        agree(s, t, m),
        match_section(s) matches Ok((_, next)) && next <= m && no_new_line_feed(s, t, next),
    ensures
        match_section(t) == match_section(s),
{
    let open = run_end(s, 0, CharClass::Blank);
    lemma_run_end(s, 0, CharClass::Blank);
    let close = run_end(s, open + 1, CharClass::Header);
    lemma_run_end(s, open + 1, CharClass::Header);
    let tail = run_end(s, close + 1, CharClass::Blank);
    lemma_run_end(s, close + 1, CharClass::Blank);
    lemma_newline_end(s, tail);
    lemma_run_agrees(s, t, m, 0, CharClass::Blank);
    lemma_run_agrees(s, t, m, open + 1, CharClass::Header);
    lemma_run_agrees(s, t, m, close + 1, CharClass::Blank);
    lemma_newline_agrees(s, t, m, tail);
}

/// A property line of `s` that ends at or before `m` is a property line
/// of every text that is the same up to `m` and has no new `\n` behind
/// it.
proof fn lemma_property_agrees(s: Seq<char>, t: Seq<char>, m: int, pos: int, line: int)
    requires
        agree(s, t, m),
        0 <= pos <= s.len(),
        match_property(s, pos, line) matches Ok((_, next)) && next <= m && no_new_line_feed(
            s,
            t,
            next,
        ),
    ensures
        match_property(t, pos, line) == match_property(s, pos, line),
{
    let eq = run_end(s, pos, CharClass::Name);
    lemma_run_end(s, pos, CharClass::Name);
    let end = run_end(s, eq + 1, CharClass::Value);
    lemma_run_end(s, eq + 1, CharClass::Value);
    lemma_newline_end(s, end);
    lemma_run_agrees(s, t, m, pos, CharClass::Name);
    lemma_run_agrees(s, t, m, eq + 1, CharClass::Value);
    lemma_newline_agrees(s, t, m, end);
}

/// A failure of the section line of `s` before `m` is the failure of
/// every text that is the same up to `m`.
proof fn lemma_section_fails_alike(s: Seq<char>, t: Seq<char>, m: int)
    requires
        agree(s, t, m),
        match_section(s) matches Err(e) && e.offset < m,
    ensures
        match_section(t) == match_section(s),
{
    let open = run_end(s, 0, CharClass::Blank);
    lemma_run_end(s, 0, CharClass::Blank);
    if open < s.len() && s[open] == '[' {
        let close = run_end(s, open + 1, CharClass::Header);
        lemma_run_end(s, open + 1, CharClass::Header);
        if close < s.len() && s[close] == ']' {
            lemma_run_end(s, close + 1, CharClass::Blank);
            lemma_run_agrees(s, t, m, close + 1, CharClass::Blank);
        }
        lemma_run_agrees(s, t, m, open + 1, CharClass::Header);
    }
    lemma_run_agrees(s, t, m, 0, CharClass::Blank);
}

/// A failure of a property line of `s` before `m` is the failure of
/// every text that is the same up to `m`.
proof fn lemma_property_fails_alike(s: Seq<char>, t: Seq<char>, m: int, pos: int, line: int)
    requires
        agree(s, t, m),
        0 <= pos <= s.len(),
        match_property(s, pos, line) matches Err(e) && e.offset < m,
    ensures
        match_property(t, pos, line) == match_property(s, pos, line),
{
    let eq = run_end(s, pos, CharClass::Name);
    lemma_run_end(s, pos, CharClass::Name);
    if eq != pos && eq < s.len() && s[eq] == '=' {
        let end = run_end(s, eq + 1, CharClass::Value);
        lemma_run_end(s, eq + 1, CharClass::Value);
        lemma_newline_end(s, end);
        lemma_run_agrees(s, t, m, eq + 1, CharClass::Value);
    }
    lemma_run_agrees(s, t, m, pos, CharClass::Name);
}

/// A failure among the property lines of `s` before `m` is the failure
/// of every text that is the same up to `m`.
proof fn lemma_lines_fail_alike(s: Seq<char>, t: Seq<char>, m: int, pos: int, line: int)
    requires
        agree(s, t, m),
        0 <= pos <= s.len(),
        match_lines(s, pos, line) matches Err(e) && e.offset < m,
    ensures
        match_lines(t, pos, line) == match_lines(s, pos, line),
    decreases s.len() - pos,
{
    lemma_lines_offset(s, pos, line);
    lemma_property_advances(s, pos, line);
    match match_property(s, pos, line) {
        Ok((_, next)) => {
            lemma_lines_offset(s, next, line + 1);
            lemma_property_agrees(s, t, m, pos, line);
            lemma_lines_fail_alike(s, t, m, next, line + 1);
        },
        Err(_) => {
            lemma_property_fails_alike(s, t, m, pos, line);
        },
    }
}

/// What is missing at a failure: the shortest text that, put in the
/// place of everything from the offset on, makes a well-formed document.
spec fn closing(s: Seq<char>, e: SyntaxErrorView) -> Seq<char> {
    match e.rule {
        Rule::Header => if run_end(s, 0, CharClass::Blank) == e.offset {
            seq!['[', ']', '\n']
        } else {
            seq![']', '\n']
        },
        Rule::Separator => seq!['=', '\n'],
        Rule::Newline => seq!['\n'],
        _ => Seq::empty(),
    }
}

/// The text `s` up to the failure `e`, closed.
spec fn closed_at(s: Seq<char>, e: SyntaxErrorView) -> Seq<char> {
    s.take(e.offset) + closing(s, e)
}

/// A failure right where a property line starts is a missing name.
proof fn lemma_failure_at_start(s: Seq<char>, pos: int, line: int)
    requires
        0 <= pos <= s.len(),
        match_lines(s, pos, line) matches Err(e) && e.offset == pos,
    ensures
        match_lines(s, pos, line)->Err_0.rule == Rule::Name,
{
    lemma_property_advances(s, pos, line);
    lemma_run_end(s, pos, CharClass::Name);
    match match_property(s, pos, line) {
        Ok((_, next)) => {
            lemma_lines_offset(s, next, line + 1);
        },
        Err(_) => {
            let eq = run_end(s, pos, CharClass::Name);
            if eq < s.len() {
                lemma_run_end(s, eq + 1, CharClass::Value);
            }
        },
    }
}

/// A property line that lacks its separator matches once `=` and a line
/// terminator stand in the place of everything behind the name.
proof fn lemma_separator_closed(s: Seq<char>, t: Seq<char>, pos: int, line: int)
    requires
        0 <= pos <= s.len(),
        match_property(s, pos, line) matches Err(e) && e.rule == Rule::Separator && t == s.take(
            e.offset,
        ) + seq!['=', '\n'],
    ensures
        match_lines(t, pos, line) is Ok,
{
    let eq = run_end(s, pos, CharClass::Name);
    lemma_run_end(s, pos, CharClass::Name);
    lemma_run_end_is(t, pos, eq, CharClass::Name);
    lemma_run_end_is(t, eq + 1, eq + 1, CharClass::Value);
    assert(match_lines(t, eq + 2, line + 1) is Ok);
}

/// A property line that lacks its line terminator matches once it has
/// one.
proof fn lemma_newline_closed(s: Seq<char>, t: Seq<char>, pos: int, line: int)
    requires
        0 <= pos <= s.len(),
        match_property(s, pos, line) matches Err(e) && e.rule == Rule::Newline && t == s.take(
            e.offset,
        ) + seq!['\n'],
    ensures
        match_lines(t, pos, line) is Ok,
{
    let eq = run_end(s, pos, CharClass::Name);
    lemma_run_end(s, pos, CharClass::Name);
    let end = run_end(s, eq + 1, CharClass::Value);
    lemma_run_end(s, eq + 1, CharClass::Value);
    lemma_newline_end(s, end);
    lemma_run_end_is(t, pos, eq, CharClass::Name);
    lemma_run_end_is(t, eq + 1, end, CharClass::Value);
    assert(match_lines(t, end + 1, line + 1) is Ok);
}

/// Where the property lines of `s` fail, the property lines of `s`
/// closed at the failure match.
proof fn lemma_lines_closed(s: Seq<char>, t: Seq<char>, pos: int, line: int)
    requires
        0 <= pos <= s.len(),
        match_lines(s, pos, line) matches Err(e) && t == closed_at(s, e) && e.rule != Rule::Header,
    ensures
        match_lines(t, pos, line) is Ok,
    decreases s.len() - pos,
{
    let e = match_lines(s, pos, line)->Err_0;
    let k = e.offset;
    lemma_lines_offset(s, pos, line);
    lemma_property_advances(s, pos, line);
    match match_property(s, pos, line) {
        Ok((_, next)) => {
            lemma_lines_offset(s, next, line + 1);
            if next == k {
                lemma_failure_at_start(s, next, line + 1);
            }
            lemma_property_agrees(s, t, k, pos, line);
            lemma_lines_closed(s, t, next, line + 1);
        },
        Err(_) => {
            if e.rule == Rule::Separator {
                lemma_separator_closed(s, t, pos, line);
            } else if e.rule == Rule::Newline {
                lemma_newline_closed(s, t, pos, line);
            }
        },
    }
}

/// A text without a section header matches once it has an empty one.
proof fn lemma_header_closed(s: Seq<char>, t: Seq<char>)
    requires
        !(run_end(s, 0, CharClass::Blank) < s.len() && s[run_end(s, 0, CharClass::Blank)] == '['),
        t == s.take(run_end(s, 0, CharClass::Blank)) + seq!['[', ']', '\n'],
    ensures
        match_file(t) is Ok,
{
    let open = run_end(s, 0, CharClass::Blank);
    lemma_run_end(s, 0, CharClass::Blank);
    lemma_run_end_is(t, 0, open, CharClass::Blank);
    lemma_run_end_is(t, open + 1, open + 1, CharClass::Header);
    lemma_run_end_is(t, open + 2, open + 2, CharClass::Blank);
}

/// A text whose section header is not closed matches once it is.
proof fn lemma_bracket_closed(s: Seq<char>, t: Seq<char>)
    requires
        match_section(s) matches Err(e) && e.rule == Rule::Header && e.offset != run_end(
            s,
            0,
            CharClass::Blank,
        ) && t == s.take(e.offset) + seq![']', '\n'],
    ensures
        match_file(t) is Ok,
{
    let open = run_end(s, 0, CharClass::Blank);
    lemma_run_end(s, 0, CharClass::Blank);
    let close = run_end(s, open + 1, CharClass::Header);
    lemma_run_end(s, open + 1, CharClass::Header);
    lemma_run_end_is(t, 0, open, CharClass::Blank);
    lemma_run_end_is(t, open + 1, close, CharClass::Header);
    lemma_run_end_is(t, close + 1, close + 1, CharClass::Blank);
}

/// A text whose section line does not end matches once it does.
proof fn lemma_section_closed(s: Seq<char>, t: Seq<char>)
    requires
        match_section(s) matches Err(e) && e.rule == Rule::Newline && t == s.take(e.offset)
            + seq!['\n'],
    ensures
        match_file(t) is Ok,
{
    let open = run_end(s, 0, CharClass::Blank);
    lemma_run_end(s, 0, CharClass::Blank);
    let close = run_end(s, open + 1, CharClass::Header);
    lemma_run_end(s, open + 1, CharClass::Header);
    let tail = run_end(s, close + 1, CharClass::Blank);
    lemma_run_end(s, close + 1, CharClass::Blank);
    lemma_run_end_is(t, 0, open, CharClass::Blank);
    lemma_run_end_is(t, open + 1, close, CharClass::Header);
    lemma_run_end_is(t, close + 1, tail, CharClass::Blank);
}

/// The section line of `s` ends inside `s`, where `s` has one.
proof fn lemma_section_ends(s: Seq<char>)
    ensures
        match_section(s) matches Ok((_, next)) ==> 0 <= next <= s.len(),
        match_section(s) matches Err(e) ==> 0 <= e.offset <= s.len(),
{
    let open = run_end(s, 0, CharClass::Blank);
    lemma_run_end(s, 0, CharClass::Blank);
    if open < s.len() {
        let close = run_end(s, open + 1, CharClass::Header);
        lemma_run_end(s, open + 1, CharClass::Header);
        if close < s.len() {
            let tail = run_end(s, close + 1, CharClass::Blank);
            lemma_run_end(s, close + 1, CharClass::Blank);
            lemma_newline_end(s, tail);
        }
    }
}

/// Where `s` fails, `s` closed at the failure matches.
proof fn lemma_file_closed(s: Seq<char>)
    requires
        match_file(s) is Err,
    ensures
        match_file(closed_at(s, match_file(s)->Err_0)) is Ok,
{
    let e = match_file(s)->Err_0;
    let k = e.offset;
    let t = closed_at(s, e);
    lemma_section_ends(s);
    match match_section(s) {
        Err(_) => {
            let open = run_end(s, 0, CharClass::Blank);
            if open < s.len() {
                lemma_run_end(s, open + 1, CharClass::Header);
            }
            if e.rule == Rule::Newline {
                lemma_section_closed(s, t);
            } else if k == open {
                lemma_header_closed(s, t);
            } else {
                lemma_bracket_closed(s, t);
            }
        },
        Ok((_, next)) => {
            lemma_lines_offset(s, next, 2);
            lemma_rules_of_lines(s, next, 2);
            if next == k {
                lemma_failure_at_start(s, next, 2);
            }
            lemma_section_agrees(s, t, k);
            lemma_lines_closed(s, t, next, 2);
        },
    }
}

/// A failure among the property lines is none of the section header.
proof fn lemma_rules_of_lines(s: Seq<char>, pos: int, line: int)
    requires
        0 <= pos <= s.len(),
    ensures
        match_lines(s, pos, line) matches Err(e) ==> e.rule != Rule::Header,
    decreases s.len() - pos,
{
    if pos < s.len() {
        lemma_property_advances(s, pos, line);
        match match_property(s, pos, line) {
            Ok((_, next)) => {
                lemma_rules_of_lines(s, next, line + 1);
            },
            Err(_) => {},
        }
    }
}

/// A syntax error stands where the text stops being viable: some
/// well-formed document starts with the text before the offset, and none
/// starts with the text up to and including the character at the offset.
pub proof fn theorem_error_offset(s: Seq<char>)
    ensures
        match_file(s) matches Err(e) ==> 0 <= e.offset <= s.len() && viable(s.take(e.offset)) && (
        e.offset < s.len() ==> !viable(s.take(e.offset + 1))),
{
    if match_file(s) is Err {
        let e = match_file(s)->Err_0;
        let k = e.offset;
        lemma_section_ends(s);
        match match_section(s) {
            Ok((_, next)) => {
                lemma_lines_offset(s, next, 2);
            },
            Err(_) => {},
        }
        let t = closed_at(s, e);
        lemma_file_closed(s);
        theorem_accepted_is_well_formed(t);
        if k < s.len() && viable(s.take(k + 1)) {
            let doc = choose|doc: Document|
                doc.well_formed() && s.take(k + 1).is_prefix_of(#[trigger] doc.render());
            let u = doc.render();
            theorem_accepts_documents(u);
            assert(agree(s, u, k + 1)) by {
                assert forall|i: int| 0 <= i < k + 1 implies s[i] == u[i] by {
                    assert(s.take(k + 1)[i] == s[i]);
                }
            }
            lemma_file_fails_alike(s, u, k + 1);
        }
    }
}

/// A failure of `s` before `m` is the failure of every text that is the
/// same up to `m`.
proof fn lemma_file_fails_alike(s: Seq<char>, t: Seq<char>, m: int)
    requires
        agree(s, t, m),
        match_file(s) matches Err(e) && e.offset < m,
    ensures
        match_file(t) == match_file(s),
{
    lemma_section_ends(s);
    match match_section(s) {
        Ok((_, next)) => {
            lemma_lines_offset(s, next, 2);
            lemma_section_agrees(s, t, m);
            lemma_lines_fail_alike(s, t, m, next, 2);
        },
        Err(_) => {
            lemma_section_fails_alike(s, t, m);
        },
    }
}

} // verus!
