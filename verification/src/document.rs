//! Configuration texts as they are written, and what the parser makes of
//! them.
//!
//! A [`Document`] lists the pieces of a text: the section line and the
//! property lines, each with its line terminator. The theorems of this
//! module say that the parser reads every well-formed document as it was
//! written, and what follows from that for the configuration.

use crate::grammar::{
    is_line_break, lemma_newline_end, lemma_property_advances, lemma_run_end, lemma_run_end_is,
    match_file, match_lines, match_property, match_section, newline_end, run_end, CharClass,
    NodeView, Rule, SpanView, SyntaxErrorView,
};
use crate::rc::{
    api_header, config_of, is_outcome, walk, ConfigError, ConfigErrorView, ConfigView, Field,
    SettingsView, Slots, ZulipRuntimeConfig,
};
use vstd::prelude::*;

verus! {

/// Whether every character of `t` belongs to `class`.
pub open spec fn all_in(t: Seq<char>, class: CharClass) -> bool {
    forall|i: int| 0 <= i < t.len() ==> class.contains(#[trigger] t[i])
}

/// Whether `t` is one of the three line terminators.
pub open spec fn is_newline(t: Seq<char>) -> bool {
    t == seq!['\n'] || t == seq!['\r', '\n'] || t == seq!['\r']
}

/// One property line as written.
pub struct Line {
    pub name: Seq<char>,
    pub value: Seq<char>,
    /// The line terminator.
    pub newline: Seq<char>,
}

impl Line {
    /// Whether the pieces are what the grammar allows: a name of one or
    /// more name characters, a value without line breaks, and a line
    /// terminator.
    pub open spec fn well_formed(self) -> bool {
        &&& self.name.len() > 0
        &&& all_in(self.name, CharClass::Name)
        &&& all_in(self.value, CharClass::Value)
        &&& is_newline(self.newline)
    }

    /// The line as text.
    pub open spec fn render(self) -> Seq<char> {
        self.name + seq!['='] + self.value + self.newline
    }
}

/// The text of `lines`, one after the other.
pub open spec fn render_lines(lines: Seq<Line>) -> Seq<char>
    decreases lines.len(),
{
    if lines.len() == 0 {
        Seq::empty()
    } else {
        lines[0].render() + render_lines(lines.drop_first())
    }
}

/// Whether every line of `lines` is well formed.
pub open spec fn lines_well_formed(lines: Seq<Line>) -> bool {
    forall|i: int| 0 <= i < lines.len() ==> (#[trigger] lines[i]).well_formed()
}

/// The value of the last line of `lines` that is named `name`.
pub open spec fn last_value(lines: Seq<Line>, name: Seq<char>) -> Option<Seq<char>>
    decreases lines.len(),
{
    if lines.len() == 0 {
        None
    } else {
        match last_value(lines.drop_first(), name) {
            Some(value) => Some(value),
            None => if lines[0].name == name {
                Some(lines[0].value)
            } else {
                None
            },
        }
    }
}

/// A configuration text as written.
pub struct Document {
    /// The blanks before the section header.
    pub indent: Seq<char>,
    /// The section header, brackets included.
    pub header: Seq<char>,
    /// The blanks after the section header.
    pub padding: Seq<char>,
    /// The line terminator of the section line.
    pub newline: Seq<char>,
    /// The property lines.
    pub lines: Seq<Line>,
}

impl Document {
    /// Whether the pieces are what the grammar allows.
    pub open spec fn well_formed(self) -> bool {
        &&& all_in(self.indent, CharClass::Blank)
        &&& self.header.len() >= 2
        &&& self.header.first() == '['
        &&& self.header.last() == ']'
        &&& all_in(self.header.subrange(1, self.header.len() - 1), CharClass::Header)
        &&& all_in(self.padding, CharClass::Blank)
        &&& is_newline(self.newline)
        &&& lines_well_formed(self.lines)
    }

    /// The section line as text.
    pub open spec fn render_section(self) -> Seq<char> {
        self.indent + self.header + self.padding + self.newline
    }

    /// The document as text.
    pub open spec fn render(self) -> Seq<char> {
        self.render_section() + render_lines(self.lines)
    }

    /// What the document configures: a section other than `[api]` is a
    /// mismatch; each setting is the value of the last line of its name;
    /// the first of `email`, `key` and `site` that no line is named after
    /// is missing.
    pub open spec fn outcome(self) -> Result<ConfigView, ConfigErrorView> {
        if self.header != api_header() {
            Err(ConfigErrorView::SectionMismatch { found: self.header })
        } else {
            Slots {
                email: last_value(self.lines, Field::Email.spec_name()),
                key: last_value(self.lines, Field::Key.spec_name()),
                site: last_value(self.lines, Field::Site.spec_name()),
            }.finish()
        }
    }
}

/// A run of characters of one class that is followed by the end of the
/// text, or by a character outside the class, is taken whole.
proof fn lemma_run_over(s: Seq<char>, pos: int, t: Seq<char>, class: CharClass)
    requires
        0 <= pos,
        pos + t.len() <= s.len(),
        forall|i: int| 0 <= i < t.len() ==> s[pos + i] == #[trigger] t[i],
        all_in(t, class),
        pos + t.len() < s.len() ==> !class.contains(s[pos + t.len()]),
    ensures
        run_end(s, pos, class) == pos + t.len(),
{
    assert forall|i: int| pos <= i < pos + t.len() implies class.contains(#[trigger] s[i]) by {
        assert(s[pos + (i - pos)] == t[i - pos]);
    }
    lemma_run_end_is(s, pos, pos + t.len(), class);
}

/// A line terminator that is not followed by `\n` is taken whole.
proof fn lemma_newline_over(s: Seq<char>, pos: int, t: Seq<char>)
    requires
        0 <= pos,
        pos + t.len() <= s.len(),
        forall|i: int| 0 <= i < t.len() ==> s[pos + i] == #[trigger] t[i],
        is_newline(t),
        pos + t.len() < s.len() ==> s[pos + t.len()] != '\n',
    ensures
        newline_end(s, pos) == Some(pos + t.len()),
{
    assert(s[pos + 0] == t[0]);
}

/// The text of a well-formed line starts with a name character.
proof fn lemma_line_starts_with_name(line: Line)
    requires
        line.well_formed(),
    ensures
        line.render().len() == line.name.len() + 1 + line.value.len() + line.newline.len(),
        CharClass::Name.contains(line.render()[0]),
{
    assert(line.render()[0] == line.name[0]);
}

/// The text of well-formed lines is empty or starts with a name
/// character.
proof fn lemma_lines_start_with_name(lines: Seq<Line>)
    requires
        lines_well_formed(lines),
    ensures
        render_lines(lines).len() > 0 ==> CharClass::Name.contains(render_lines(lines)[0]),
        lines.len() == 0 <==> render_lines(lines).len() == 0,
{
    if lines.len() > 0 {
        lemma_line_starts_with_name(lines[0]);
    }
}

/// The node that the parser makes of a line written at `pos`.
pub open spec fn line_node(line: Line, pos: int) -> NodeView {
    NodeView::Property {
        name: SpanView { start: pos, end: pos + line.name.len() },
        value: SpanView {
            start: pos + line.name.len() + 1,
            end: pos + line.name.len() + 1 + line.value.len(),
        },
    }
}

/// A well-formed line that is followed by the end of the text or by
/// another line is matched as written.
proof fn lemma_match_line(s: Seq<char>, pos: int, number: int, line: Line, rest: Seq<char>)
    requires
        0 <= pos <= s.len(),
        line.well_formed(),
        s.skip(pos) == line.render() + rest,
        rest.len() > 0 ==> rest[0] != '\n',
    ensures
        match_property(s, pos, number) == Ok::<_, SyntaxErrorView>(
            (line_node(line, pos), pos + line.render().len()),
        ),
        pos + line.render().len() <= s.len(),
        s.skip(pos + line.render().len()) == rest,
        s.subrange(pos, pos + line.name.len()) == line.name,
        s.subrange(pos + line.name.len() + 1, pos + line.name.len() + 1 + line.value.len())
            == line.value,
{
    let text = line.render();
    let tail = s.skip(pos);
    let n = line.name.len() as int;
    let v = line.value.len() as int;
    let k = line.newline.len() as int;
    assert forall|i: int| 0 <= i < tail.len() implies s[pos + i] == #[trigger] tail[i] by {}
    assert forall|i: int| 0 <= i < n implies s[pos + i] == #[trigger] line.name[i] by {
        assert(tail[i] == text[i]);
    }
    assert(s[pos + n] == '=') by {
        assert(tail[n] == text[n]);
    }
    assert forall|i: int| 0 <= i < v implies s[pos + n + 1 + i] == #[trigger] line.value[i] by {
        assert(tail[n + 1 + i] == text[n + 1 + i]);
    }
    assert forall|i: int| 0 <= i < k implies s[pos + n + 1 + v + i] == #[trigger] line.newline[i] by {
        assert(tail[n + 1 + v + i] == text[n + 1 + v + i]);
    }
    assert(s[pos + n + 1 + v] == line.newline[0]);
    lemma_run_over(s, pos, line.name, CharClass::Name);
    lemma_run_over(s, pos + n + 1, line.value, CharClass::Value);
    if rest.len() > 0 {
        assert(s[pos + text.len()] == rest[0]) by {
            assert(tail[text.len() as int] == rest[0]);
        }
    }
    lemma_newline_over(s, pos + n + 1 + v, line.newline);
    assert(s.skip(pos + text.len()) =~= rest) by {
        assert forall|i: int| 0 <= i < rest.len() implies s[pos + text.len() + i] == rest[i] by {
            assert(tail[text.len() + i] == rest[i]);
        }
    }
}

/// The slots after the lines `lines`, read in order, starting with
/// `slots`.
pub open spec fn slots_after(lines: Seq<Line>, slots: Slots) -> Slots
    decreases lines.len(),
{
    if lines.len() == 0 {
        slots
    } else {
        slots_after(lines.drop_first(), slots.assign(lines[0].name, lines[0].value))
    }
}

/// Well-formed lines that end the text are matched as written, and the
/// walk over their nodes assigns them in order.
proof fn lemma_match_lines(s: Seq<char>, pos: int, number: int, lines: Seq<Line>, slots: Slots)
    requires
        0 <= pos <= s.len(),
        lines_well_formed(lines),
        s.skip(pos) == render_lines(lines),
    ensures
        match_lines(s, pos, number) matches Ok(nodes) && walk(s, nodes, slots) == Ok::<
            _,
            ConfigErrorView,
        >(slots_after(lines, slots)),
    decreases lines.len(),
{
    lemma_lines_start_with_name(lines);
    if lines.len() > 0 {
        let line = lines[0];
        let rest = lines.drop_first();
        assert(lines_well_formed(rest));
        lemma_lines_start_with_name(rest);
        lemma_line_starts_with_name(line);
        lemma_match_line(s, pos, number, line, render_lines(rest));
        let next = pos + line.render().len();
        let node = line_node(line, pos);
        let assigned = slots.assign(line.name, line.value);
        lemma_match_lines(s, next, number + 1, rest, assigned);
        let more = match_lines(s, next, number + 1)->Ok_0;
        assert((seq![node] + more).drop_first() =~= more);
    }
}

/// The slots after some lines hold, for each name, the value of the last
/// line of that name, and what they held before where there is no such
/// line.
proof fn lemma_slots_after(lines: Seq<Line>, slots: Slots)
    ensures
        slots_after(lines, slots).email == match last_value(lines, Field::Email.spec_name()) {
            Some(value) => Some(value),
            None => slots.email,
        },
        slots_after(lines, slots).key == match last_value(lines, Field::Key.spec_name()) {
            Some(value) => Some(value),
            None => slots.key,
        },
        slots_after(lines, slots).site == match last_value(lines, Field::Site.spec_name()) {
            Some(value) => Some(value),
            None => slots.site,
        },
    decreases lines.len(),
{
    if lines.len() > 0 {
        lemma_slots_after(lines.drop_first(), slots.assign(lines[0].name, lines[0].value));
    }
}

/// The section line of a well-formed document is matched as written.
proof fn lemma_match_section(doc: Document)
    requires
        doc.well_formed(),
    ensures
        match_section(doc.render()) == Ok::<_, SyntaxErrorView>(
            (
                NodeView::Section {
                    header: SpanView {
                        start: doc.indent.len() as int,
                        end: (doc.indent.len() + doc.header.len()) as int,
                    },
                },
                doc.render_section().len() as int,
            ),
        ),
        doc.render().subrange(
            doc.indent.len() as int,
            (doc.indent.len() + doc.header.len()) as int,
        ) == doc.header,
        doc.render().skip(doc.render_section().len() as int) == render_lines(doc.lines),
{
    let s = doc.render();
    let a = doc.indent.len() as int;
    let h = doc.header.len() as int;
    let p = doc.padding.len() as int;
    lemma_run_over(s, 0, doc.indent, CharClass::Blank);
    lemma_run_over(s, a + 1, doc.header.subrange(1, h - 1), CharClass::Header);
    lemma_run_over(s, a + h, doc.padding, CharClass::Blank);
    lemma_lines_start_with_name(doc.lines);
    lemma_newline_over(s, a + h + p, doc.newline);
}

/// The parser reads every well-formed document as it was written: the
/// configuration of its text is the outcome of the document.
pub proof fn theorem_parse_render(doc: Document)
    requires
        doc.well_formed(),
    ensures
        config_of(doc.render()) == doc.outcome(),
{
    let s = doc.render();
    let start = doc.render_section().len() as int;
    lemma_match_section(doc);
    lemma_match_lines(s, start, 2, doc.lines, Slots::empty());
    lemma_slots_after(doc.lines, Slots::empty());
    let section = match_section(s)->Ok_0.0;
    let more = match_lines(s, start, 2)->Ok_0;
    assert((seq![section] + more).drop_first() =~= more);
}

/// Whether a line of `lines` is named `name`.
pub open spec fn has_line(lines: Seq<Line>, name: Seq<char>) -> bool {
    exists|i: int| 0 <= i < lines.len() && (#[trigger] lines[i]).name == name
}

/// Whether line `at` is the last line of `lines` that is named `name`.
pub open spec fn is_last_named(lines: Seq<Line>, at: int, name: Seq<char>) -> bool {
    &&& 0 <= at < lines.len()
    &&& lines[at].name == name
    &&& forall|j: int| at < j < lines.len() ==> (#[trigger] lines[j]).name != name
}

/// [`last_value`] finds nothing exactly where no line has the name, and
/// otherwise the value of the last line that has it.
pub proof fn lemma_last_value(lines: Seq<Line>, name: Seq<char>)
    ensures
        last_value(lines, name) is None <==> !has_line(lines, name),
        forall|at: int|
            is_last_named(lines, at, name) ==> last_value(lines, name) == Some(
                #[trigger] lines[at].value,
            ),
    decreases lines.len(),
{
    if lines.len() > 0 {
        let rest = lines.drop_first();
        lemma_last_value(rest, name);
        if has_line(rest, name) {
            let i = choose|i: int| 0 <= i < rest.len() && (#[trigger] rest[i]).name == name;
            assert(lines[i + 1].name == name);
        }
        if has_line(lines, name) {
            let i = choose|i: int| 0 <= i < lines.len() && (#[trigger] lines[i]).name == name;
            if i > 0 {
                assert(rest[i - 1].name == name);
            }
        }
        assert forall|at: int| is_last_named(lines, at, name) implies last_value(lines, name)
            == Some(#[trigger] lines[at].value) by {
            if at > 0 {
                assert(rest[at - 1] == lines[at]);
            }
        }
    }
}

/// A well-formed `[api]` document that names `email`, `key` and `site`,
/// in whatever order and among whatever other properties, configures the
/// values as they are written, character for character: for each of the
/// three, the value of the last line of that name.
pub proof fn theorem_values_as_written(doc: Document, email: int, key: int, site: int)
    requires
        doc.well_formed(),
        doc.header == api_header(),
        is_last_named(doc.lines, email, Field::Email.spec_name()),
        is_last_named(doc.lines, key, Field::Key.spec_name()),
        is_last_named(doc.lines, site, Field::Site.spec_name()),
    ensures
        config_of(doc.render()) == Ok::<_, ConfigErrorView>(
            ConfigView {
                api: SettingsView {
                    email: doc.lines[email].value,
                    key: doc.lines[key].value,
                    site: doc.lines[site].value,
                },
            },
        ),
{
    theorem_parse_render(doc);
    lemma_last_value(doc.lines, Field::Email.spec_name());
    lemma_last_value(doc.lines, Field::Key.spec_name());
    lemma_last_value(doc.lines, Field::Site.spec_name());
}

/// A text that is property lines only, with no section line before them,
/// is a syntax error at its very start: the section header is missing.
pub proof fn theorem_missing_header_rejected(lines: Seq<Line>)
    requires
        lines_well_formed(lines),
    ensures
        config_of(render_lines(lines)) == Err::<ConfigView, _>(
            ConfigErrorView::Syntax(SyntaxErrorView { rule: Rule::Header, offset: 0, line: 1 }),
        ),
{
    lemma_lines_start_with_name(lines);
}

/// A property whose name is none of `email`, `key` and `site` changes
/// nothing, wherever among the property lines it is written.
pub proof fn theorem_unknown_property_ignored(doc: Document, at: int, extra: Line)
    requires
        doc.well_formed(),
        extra.well_formed(),
        0 <= at <= doc.lines.len(),
        extra.name != Field::Email.spec_name(),
        extra.name != Field::Key.spec_name(),
        extra.name != Field::Site.spec_name(),
    ensures
        config_of((Document { lines: doc.lines.insert(at, extra), ..doc }).render()) == config_of(
            doc.render(),
        ),
{
    let longer = Document { lines: doc.lines.insert(at, extra), ..doc };
    assert(lines_well_formed(longer.lines));
    theorem_parse_render(doc);
    theorem_parse_render(longer);
    lemma_last_value_without(doc.lines, at, extra, Field::Email.spec_name());
    lemma_last_value_without(doc.lines, at, extra, Field::Key.spec_name());
    lemma_last_value_without(doc.lines, at, extra, Field::Site.spec_name());
}

/// A line of another name does not change the last value of `name`.
proof fn lemma_last_value_without(lines: Seq<Line>, at: int, extra: Line, name: Seq<char>)
    requires
        0 <= at <= lines.len(),
        extra.name != name,
    ensures
        last_value(lines.insert(at, extra), name) == last_value(lines, name),
    decreases lines.len(),
{
    let longer = lines.insert(at, extra);
    if at == 0 {
        assert(longer.drop_first() =~= lines);
    } else {
        lemma_last_value_without(lines.drop_first(), at - 1, extra, name);
        assert(longer.drop_first() =~= lines.drop_first().insert(at - 1, extra));
    }
}

/// A well-formed document whose section is not `[api]` is a section
/// mismatch, whatever its properties are; the error holds the header as
/// written.
pub proof fn theorem_unknown_section_rejected(doc: Document)
    requires
        doc.well_formed(),
        doc.header != api_header(),
    ensures
        config_of(doc.render()) == Err::<ConfigView, _>(
            ConfigErrorView::SectionMismatch { found: doc.header },
        ),
{
    theorem_parse_render(doc);
}

/// A well-formed `[api]` document configures something exactly where it
/// names all of `email`, `key` and `site`. Where it does not, the error
/// is the first of the three, in that order, that it does not name.
pub proof fn theorem_missing_field_rejected(doc: Document)
    requires
        doc.well_formed(),
        doc.header == api_header(),
    ensures
        config_of(doc.render()) is Ok <==> has_line(doc.lines, Field::Email.spec_name())
            && has_line(doc.lines, Field::Key.spec_name()) && has_line(
            doc.lines,
            Field::Site.spec_name(),
        ),
        !has_line(doc.lines, Field::Email.spec_name()) ==> config_of(doc.render()) == Err::<
            ConfigView,
            _,
        >(ConfigErrorView::MissingField(Field::Email)),
        has_line(doc.lines, Field::Email.spec_name()) && !has_line(
            doc.lines,
            Field::Key.spec_name(),
        ) ==> config_of(doc.render()) == Err::<ConfigView, _>(
            ConfigErrorView::MissingField(Field::Key),
        ),
        has_line(doc.lines, Field::Email.spec_name()) && has_line(
            doc.lines,
            Field::Key.spec_name(),
        ) && !has_line(doc.lines, Field::Site.spec_name()) ==> config_of(doc.render()) == Err::<
            ConfigView,
            _,
        >(ConfigErrorView::MissingField(Field::Site)),
{
    theorem_parse_render(doc);
    lemma_last_value(doc.lines, Field::Email.spec_name());
    lemma_last_value(doc.lines, Field::Key.spec_name());
    lemma_last_value(doc.lines, Field::Site.spec_name());
}

/// Reading is a function of the text: two readings of one text agree.
/// Both fail with the same error, or both succeed with settings that are
/// equal field by field.
pub proof fn theorem_reading_twice_agrees(
    rc: Seq<char>,
    first: Result<ZulipRuntimeConfig, ConfigError>,
    second: Result<ZulipRuntimeConfig, ConfigError>,
)
    requires
        is_outcome(first, config_of(rc)),
        is_outcome(second, config_of(rc)),
    ensures
        match (first, second) {
            (Ok(a), Ok(b)) => {
                &&& a.api.email@ == b.api.email@
                &&& a.api.key@ == b.api.key@
                &&& a.api.site@ == b.api.site@
            },
            (Err(a), Err(b)) => a@ == b@,
            _ => false,
        },
{
}

/// The property line that the text `s` holds at `pos`, where it holds
/// one: its pieces as written.
pub open spec fn line_at(s: Seq<char>, pos: int) -> Line {
    let eq = run_end(s, pos, CharClass::Name);
    let end = run_end(s, eq + 1, CharClass::Value);
    Line {
        name: s.subrange(pos, eq),
        value: s.subrange(eq + 1, end),
        newline: s.subrange(end, newline_end(s, end)->Some_0),
    }
}

/// The property lines that the text `s` holds from `pos` on, up to the
/// first place that is no property line.
pub open spec fn lines_at(s: Seq<char>, pos: int) -> Seq<Line>
    decreases s.len() - pos,
{
    if pos < 0 || pos >= s.len() {
        Seq::empty()
    } else {
        match match_property(s, pos, 0) {
            Err(_) => Seq::empty(),
            Ok((_, next)) => {
                proof {
                    lemma_property_advances(s, pos, 0);
                }
                seq![line_at(s, pos)] + lines_at(s, next)
            },
        }
    }
}

/// The document that the text `s` is, where it is one: its pieces as
/// written.
pub open spec fn document_of(s: Seq<char>) -> Document {
    let open = run_end(s, 0, CharClass::Blank);
    let close = run_end(s, open + 1, CharClass::Header);
    let tail = run_end(s, close + 1, CharClass::Blank);
    let next = newline_end(s, tail)->Some_0;
    Document {
        indent: s.subrange(0, open),
        header: s.subrange(open, close + 1),
        padding: s.subrange(close + 1, tail),
        newline: s.subrange(tail, next),
        lines: lines_at(s, next),
    }
}

/// A line terminator in a text is one of the three.
proof fn lemma_newline_is_written(s: Seq<char>, pos: int)
    requires
        0 <= pos <= s.len(),
        newline_end(s, pos) is Some,
    ensures
        is_newline(s.subrange(pos, newline_end(s, pos)->Some_0)),
{
    let next = newline_end(s, pos)->Some_0;
    let t = s.subrange(pos, next);
    if s[pos] == '\n' {
        assert(t =~= seq!['\n']);
    } else if pos + 1 < s.len() && s[pos + 1] == '\n' {
        assert(t =~= seq!['\r', '\n']);
    } else {
        assert(t =~= seq!['\r']);
    }
}

/// Where property lines match up to the end of the text, the text from
/// there on is those lines as written, and each of them is well formed.
proof fn lemma_lines_are_written(s: Seq<char>, pos: int, number: int)
    requires
        0 <= pos <= s.len(),
        match_lines(s, pos, number) is Ok,
    ensures
        lines_well_formed(lines_at(s, pos)),
        render_lines(lines_at(s, pos)) == s.skip(pos),
    decreases s.len() - pos,
{
    if pos < s.len() {
        lemma_property_advances(s, pos, number);
        lemma_property_advances(s, pos, 0);
        let eq = run_end(s, pos, CharClass::Name);
        lemma_run_end(s, pos, CharClass::Name);
        let end = run_end(s, eq + 1, CharClass::Value);
        lemma_run_end(s, eq + 1, CharClass::Value);
        lemma_newline_end(s, end);
        lemma_newline_is_written(s, end);
        let next = newline_end(s, end)->Some_0;
        lemma_lines_are_written(s, next, number + 1);
        assert(lines_well_formed(lines_at(s, pos)));
        assert(lines_at(s, pos).drop_first() =~= lines_at(s, next));
    }
}

/// Every text that the grammar accepts is a well-formed document, written
/// out: nothing else matches.
pub proof fn theorem_accepted_is_well_formed(s: Seq<char>)
    requires
        match_file(s) is Ok,
    ensures
        document_of(s).well_formed(),
        document_of(s).render() == s,
{
    let open = run_end(s, 0, CharClass::Blank);
    lemma_run_end(s, 0, CharClass::Blank);
    let close = run_end(s, open + 1, CharClass::Header);
    lemma_run_end(s, open + 1, CharClass::Header);
    let tail = run_end(s, close + 1, CharClass::Blank);
    lemma_run_end(s, close + 1, CharClass::Blank);
    lemma_newline_end(s, tail);
    lemma_newline_is_written(s, tail);
    let next = newline_end(s, tail)->Some_0;
    lemma_lines_are_written(s, next, 2);
}

/// The grammar accepts exactly the well-formed documents, written out.
pub proof fn theorem_accepts_documents(s: Seq<char>)
    ensures
        match_file(s) is Ok <==> exists|doc: Document| doc.well_formed() && #[trigger] doc.render()
            == s,
{
    if match_file(s) is Ok {
        theorem_accepted_is_well_formed(s);
    }
    if exists|doc: Document| doc.well_formed() && #[trigger] doc.render() == s {
        let doc = choose|doc: Document| doc.well_formed() && #[trigger] doc.render() == s;
        theorem_parse_render(doc);
    }
}

} // verus!
