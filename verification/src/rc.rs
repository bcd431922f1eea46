//! The runtime configuration: the settings record, and the extractor that
//! fills it from a parse tree.

use crate::grammar::{match_file, NodeView, SyntaxErrorView};
use crate::parser::parse_chars;
use crate::text::chars_of;
use crate::tree::{Node, ParseTree, Span, SyntaxError};
use vstd::prelude::*;
use vstd::string::*;

verus! {

/// The settings of the `[api]` section.
#[derive(Clone, Debug, PartialEq, Eq)]
pub struct ZulipAPISettings {
    /// The account that requests are made for.
    pub email: String,
    /// The API key of that account.
    pub key: String,
    /// The base URL of the server, without a trailing slash.
    pub site: String,
}

/// A runtime configuration.
#[derive(Clone, Debug, PartialEq, Eq)]
pub struct ZulipRuntimeConfig {
    pub api: ZulipAPISettings,
}

/// What a [`ZulipAPISettings`] holds, as sequences of characters.
pub struct SettingsView {
    pub email: Seq<char>,
    pub key: Seq<char>,
    pub site: Seq<char>,
}

/// What a [`ZulipRuntimeConfig`] holds, as sequences of characters.
pub struct ConfigView {
    pub api: SettingsView,
}

impl View for ZulipAPISettings {
    type V = SettingsView;

    open spec fn view(&self) -> SettingsView {
        SettingsView { email: self.email@, key: self.key@, site: self.site@ }
    }
}

impl View for ZulipRuntimeConfig {
    type V = ConfigView;

    open spec fn view(&self) -> ConfigView {
        ConfigView { api: self.api@ }
    }
}

/// The properties that a configuration must hold.
#[derive(Clone, Copy, Debug, PartialEq, Eq, Structural)]
pub enum Field {
    Email,
    Key,
    Site,
}

impl Field {
    /// The name under which the property is written.
    pub open spec fn spec_name(self) -> Seq<char> {
        match self {
            Field::Email => "email"@,
            Field::Key => "key"@,
            Field::Site => "site"@,
        }
    }

    /// The name under which the property is written.
    pub fn name(self) -> (name: &'static str)
        ensures
            name@ == self.spec_name(),
    {
        match self {
            Field::Email => "email",
            Field::Key => "key",
            Field::Site => "site",
        }
    }
}

/// The header that the section line must hold.
pub open spec fn api_header() -> Seq<char> {
    "[api]"@
}

/// Why a text is not a runtime configuration.
#[derive(Clone, Debug, PartialEq, Eq)]
pub enum ConfigError {
    /// The text does not match the grammar.
    Syntax(SyntaxError),
    /// The section is not `[api]`; `found` is the header as written.
    SectionMismatch { found: String },
    /// A required property does not appear.
    MissingField(Field),
}

/// What a [`ConfigError`] holds, over mathematical values.
pub enum ConfigErrorView {
    Syntax(SyntaxErrorView),
    SectionMismatch { found: Seq<char> },
    MissingField(Field),
}

impl View for ConfigError {
    type V = ConfigErrorView;

    open spec fn view(&self) -> ConfigErrorView {
        match self {
            ConfigError::Syntax(e) => ConfigErrorView::Syntax(e@),
            ConfigError::SectionMismatch { found } => ConfigErrorView::SectionMismatch {
                found: found@,
            },
            ConfigError::MissingField(field) => ConfigErrorView::MissingField(*field),
        }
    }
}

impl ConfigErrorView {
    /// The error in words.
    pub open spec fn message(self) -> Seq<char> {
        match self {
            ConfigErrorView::Syntax(e) => e.message(),
            ConfigErrorView::SectionMismatch { found } => "unknown section "@ + found
                + ", expected [api]"@,
            ConfigErrorView::MissingField(field) => "missing property "@ + field.spec_name(),
        }
    }
}

impl ConfigError {
    /// The error in words, for whoever wrote the text: where the text
    /// stops matching the grammar, the section that was found, or the
    /// property that was not.
    pub fn message(&self) -> (words: String)
        ensures
            words@ == self@.message(),
    {
        match self {
            ConfigError::Syntax(e) => e.message(),
            ConfigError::SectionMismatch { found } => {
                let mut words = String::new();
                words.append("unknown section ");
                words.append(found.as_str());
                words.append(", expected [api]");
                words
            },
            ConfigError::MissingField(field) => {
                let mut words = String::new();
                words.append("missing property ");
                words.append(field.name());
                words
            },
        }
    }
}

/// The values collected so far, one slot for each required property.
pub struct Slots {
    pub email: Option<Seq<char>>,
    pub key: Option<Seq<char>>,
    pub site: Option<Seq<char>>,
}

impl Slots {
    /// No property seen yet.
    pub open spec fn empty() -> Slots {
        Slots { email: None, key: None, site: None }
    }

    /// The slots after a property `name` with the value `value`: the slot
    /// of that name holds `value`, whatever it held before, and a name
    /// that has no slot changes nothing.
    pub open spec fn assign(self, name: Seq<char>, value: Seq<char>) -> Slots {
        Slots {
            email: if name == Field::Email.spec_name() {
                Some(value)
            } else {
                self.email
            },
            key: if name == Field::Key.spec_name() {
                Some(value)
            } else {
                self.key
            },
            site: if name == Field::Site.spec_name() {
                Some(value)
            } else {
                self.site
            },
        }
    }

    /// The configuration that the slots make, or the first of `email`,
    /// `key` and `site` whose slot is empty.
    pub open spec fn finish(self) -> Result<ConfigView, ConfigErrorView> {
        match (self.email, self.key, self.site) {
            (Some(email), Some(key), Some(site)) => Ok(
                ConfigView { api: SettingsView { email, key, site } },
            ),
            (None, _, _) => Err(ConfigErrorView::MissingField(Field::Email)),
            (_, None, _) => Err(ConfigErrorView::MissingField(Field::Key)),
            (_, _, _) => Err(ConfigErrorView::MissingField(Field::Site)),
        }
    }
}

/// The slots after a walk over `nodes`, in order, that starts with
/// `slots` and stops at the end of the text: a section that is not
/// `[api]` ends the walk with a failure, a property is assigned to its
/// slot.
pub open spec fn walk(s: Seq<char>, nodes: Seq<NodeView>, slots: Slots) -> Result<
    Slots,
    ConfigErrorView,
>
    decreases nodes.len(),
{
    if nodes.len() == 0 {
        Ok(slots)
    } else {
        match nodes[0] {
            NodeView::EndOfInput { .. } => Ok(slots),
            NodeView::Section { header } => if header.text(s) == api_header() {
                walk(s, nodes.drop_first(), slots)
            } else {
                Err(ConfigErrorView::SectionMismatch { found: header.text(s) })
            },
            NodeView::Property { name, value } => walk(
                s,
                nodes.drop_first(),
                slots.assign(name.text(s), value.text(s)),
            ),
        }
    }
}

/// The configuration that the parse tree `nodes` of the text `s` stands
/// for.
pub open spec fn extracted(s: Seq<char>, nodes: Seq<NodeView>) -> Result<
    ConfigView,
    ConfigErrorView,
> {
    match walk(s, nodes, Slots::empty()) {
        Ok(slots) => slots.finish(),
        Err(e) => Err(e),
    }
}

/// The configuration that the text `s` stands for.
pub open spec fn config_of(s: Seq<char>) -> Result<ConfigView, ConfigErrorView> {
    match match_file(s) {
        Ok(nodes) => extracted(s, nodes),
        Err(e) => Err(ConfigErrorView::Syntax(e)),
    }
}

/// Whether `r` is the outcome `expected`, error or value, seen through
/// the views.
pub open spec fn is_outcome(
    r: Result<ZulipRuntimeConfig, ConfigError>,
    expected: Result<ConfigView, ConfigErrorView>,
) -> bool {
    match r {
        Ok(config) => expected == Ok::<_, ConfigErrorView>(config@),
        Err(e) => expected == Err::<ConfigView, _>(e@),
    }
}

/// Whether the stretch `span` of `chars` reads `word`.
fn reads(chars: &Vec<char>, span: Span, word: &Vec<char>) -> (b: bool)
    requires
        span@.within(chars@.len()),
    ensures
        b == (span@.text(chars@) == word@),
{
    let len = span.end - span.start;
    if len != word.len() {
        return false;
    }
    let mut i: usize = 0;
    while i < len
        invariant
            span@.within(chars@.len()),
            len == span.end - span.start,
            len == word.len(),
            i <= len,
            forall|j: int| 0 <= j < i ==> chars@[span.start + j] == word@[j],
        decreases len - i,
    {
        if chars[span.start + i] != word[i] {
            return false;
        }
        i = i + 1;
    }
    assert(span@.text(chars@) =~= word@);
    true
}

/// The stretch `span` of `input`, as a string of its own.
fn slice(input: &str, span: Span) -> (s: String)
    requires
        span@.within(input@.len()),
    ensures
        s@ == span@.text(input@),
{
    input.substring_char(span.start, span.end).to_owned()
}

/// The text of `span` where there is one.
spec fn slot_text(s: Seq<char>, span: Option<Span>) -> Option<Seq<char>> {
    match span {
        Some(span) => Some(span@.text(s)),
        None => None,
    }
}

/// The extractor on a text whose characters are at hand.
fn extract_chars(input: &str, chars: &Vec<char>, tree: &ParseTree) -> (r: Result<
    ZulipRuntimeConfig,
    ConfigError,
>)
    requires
        chars@ == input@,
        tree.within(input@),
    ensures
        is_outcome(r, extracted(input@, tree@)),
{
    let header = chars_of("[api]");
    let email_name = chars_of(Field::Email.name());
    let key_name = chars_of(Field::Key.name());
    let site_name = chars_of(Field::Site.name());
    let mut email: Option<Span> = None;
    let mut key: Option<Span> = None;
    let mut site: Option<Span> = None;
    let ghost s = input@;
    let ghost all = tree@;
    let mut i: usize = 0;
    let mut at_end = false;
    assert(all.skip(0) =~= all);
    while i < tree.nodes.len() && !at_end
        invariant
            input@ == s,
            chars@ == s,
            all == tree@,
            tree.within(s),
            header@ == api_header(),
            email_name@ == Field::Email.spec_name(),
            key_name@ == Field::Key.spec_name(),
            site_name@ == Field::Site.spec_name(),
            i <= tree.nodes.len(),
            email matches Some(span) ==> span@.within(s.len()),
            key matches Some(span) ==> span@.within(s.len()),
            site matches Some(span) ==> span@.within(s.len()),
            !at_end ==> walk(s, all, Slots::empty()) == walk(
                s,
                all.skip(i as int),
                Slots {
                    email: slot_text(s, email),
                    key: slot_text(s, key),
                    site: slot_text(s, site),
                },
            ),
            at_end ==> walk(s, all, Slots::empty()) == Ok::<_, ConfigErrorView>(
                Slots {
                    email: slot_text(s, email),
                    key: slot_text(s, key),
                    site: slot_text(s, site),
                },
            ),
        decreases tree.nodes.len() - i + if at_end { 0int } else { 1int },
    {
        let node = tree.nodes[i];
        proof {
            assert(all.skip(i as int).drop_first() =~= all.skip(i as int + 1));
        }
        match node {
            Node::EndOfInput { .. } => {
                at_end = true;
            },
            Node::Section { header: found } => {
                if !reads(chars, found, &header) {
                    return Err(ConfigError::SectionMismatch { found: slice(input, found) });
                }
                i = i + 1;
            },
            Node::Property { name, value } => {
                if reads(chars, name, &email_name) {
                    email = Some(value);
                }
                if reads(chars, name, &key_name) {
                    key = Some(value);
                }
                if reads(chars, name, &site_name) {
                    site = Some(value);
                }
                i = i + 1;
            },
        }
    }
    let email = match email {
        Some(span) => span,
        None => {
            return Err(ConfigError::MissingField(Field::Email));
        },
    };
    let key = match key {
        Some(span) => span,
        None => {
            return Err(ConfigError::MissingField(Field::Key));
        },
    };
    let site = match site {
        Some(span) => span,
        None => {
            return Err(ConfigError::MissingField(Field::Site));
        },
    };
    Ok(
        ZulipRuntimeConfig {
            api: ZulipAPISettings {
                email: slice(input, email),
                key: slice(input, key),
                site: slice(input, site),
            },
        },
    )
}

/// The extractor: walks the parse tree `tree` of the text `input` once,
/// in the order of the text, up to the end of the text. A section that is
/// not `[api]` is refused; the value of `email`, `key` and `site` is that
/// of the last property of that name; properties of other names are
/// passed over; a configuration that lacks one of the three is refused.
pub fn extract(input: &str, tree: &ParseTree) -> (r: Result<ZulipRuntimeConfig, ConfigError>)
    requires
        tree.within(input@),
    ensures
        is_outcome(r, extracted(input@, tree@)),
{
    let chars = chars_of(input);
    extract_chars(input, &chars, tree)
}

/// Reads the runtime configuration `rc`: the settings of its `[api]`
/// section, or why `rc` holds none. A text that does not match the
/// grammar is a syntax error, whatever its section and properties are.
/// A property with nothing behind its `=` is there, and its value is
/// empty.
pub fn parse_from_str(rc: &str) -> (r: Result<ZulipRuntimeConfig, ConfigError>)
    ensures
        is_outcome(r, config_of(rc@)),
{
    let chars = chars_of(rc);
    match parse_chars(&chars) {
        Ok(tree) => extract_chars(rc, &chars, &tree),
        Err(e) => Err(ConfigError::Syntax(e)),
    }
}

} // verus!
