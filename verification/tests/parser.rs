use zulip::grammar::{CharClass, Rule};
use zulip::parser::{parse_chars, INIParser};
use zulip::rc::{extract, ConfigError, Field, ZulipAPISettings, ZulipRuntimeConfig};
use zulip::text::chars_of;
use zulip::tree::{Node, ParseTree, Span, SyntaxError};

fn span(start: usize, end: usize) -> Span {
    Span { start, end }
}

#[test]
fn the_tree_holds_the_lines_in_order() {
    let tree = INIParser::parse(" [api]\t\r\nemail=e@x\nfoo=\nkey=k\r").unwrap();
    assert_eq!(
        tree.nodes,
        vec![
            Node::Section { header: span(1, 6) },
            Node::Property { name: span(9, 14), value: span(15, 18) },
            Node::Property { name: span(19, 22), value: span(23, 23) },
            Node::Property { name: span(24, 27), value: span(28, 29) },
            Node::EndOfInput { at: 30 },
        ]
    );
}

#[test]
fn the_smallest_tree_is_a_section_and_the_end() {
    let tree = INIParser::parse("[]\n").unwrap();
    assert_eq!(tree.nodes, vec![Node::Section { header: span(0, 2) }, Node::EndOfInput { at: 3 }]);
}

#[test]
fn nodes_know_their_rule() {
    assert_eq!(Node::Section { header: span(0, 5) }.rule(), Rule::Section);
    assert_eq!(Node::Property { name: span(6, 7), value: span(8, 9) }.rule(), Rule::Property);
    assert_eq!(Node::EndOfInput { at: 10 }.rule(), Rule::EndOfInput);
}

#[test]
fn the_parser_stops_at_the_first_failure() {
    assert_eq!(
        INIParser::parse("[api]\nemail\nkey\n"),
        Err(SyntaxError { rule: Rule::Separator, offset: 11, line: 2 })
    );
}

#[test]
fn a_carriage_return_before_a_line_feed_is_one_terminator() {
    let tree = INIParser::parse("[api]\r\na=b\r\n").unwrap();
    assert_eq!(
        tree.nodes,
        vec![
            Node::Section { header: span(0, 5) },
            Node::Property { name: span(7, 8), value: span(9, 10) },
            Node::EndOfInput { at: 12 },
        ]
    );
    assert_eq!(
        INIParser::parse("[api]\n\ra=b\n"),
        Err(SyntaxError { rule: Rule::Name, offset: 6, line: 2 })
    );
}

#[test]
fn parsing_characters_is_parsing_the_text() {
    let text = "[api]\nemail=e\nkey=ключ\nsite=s\n";
    assert_eq!(parse_chars(&chars_of(text)), INIParser::parse(text));
    let broken = "[api]\nemail=e\nkey";
    assert_eq!(parse_chars(&chars_of(broken)), INIParser::parse(broken));
}

#[test]
fn character_classes() {
    for c in ['a', 'z', 'A', 'Z', '0', '9', '_'] {
        assert!(CharClass::Name.has(c));
    }
    for c in ['-', '.', ' ', '=', '[', 'é', '\n', '@', '`', '{', '/', ':'] {
        assert!(!CharClass::Name.has(c));
    }
    assert!(CharClass::Blank.has(' '));
    assert!(CharClass::Blank.has('\t'));
    assert!(!CharClass::Blank.has('\n'));
    assert!(!CharClass::Blank.has('\u{a0}'));
    assert!(CharClass::Value.has(']'));
    assert!(CharClass::Value.has('\t'));
    assert!(!CharClass::Value.has('\n'));
    assert!(!CharClass::Value.has('\r'));
    assert!(CharClass::Header.has('['));
    assert!(!CharClass::Header.has(']'));
    assert!(!CharClass::Header.has('\n'));
    assert!(!CharClass::Header.has('\r'));
}

#[test]
fn extraction_reads_the_spans_of_the_tree() {
    let text = "[api]\nemail=e\nkey=k\nsite=s\n";
    let tree = INIParser::parse(text).unwrap();
    assert_eq!(
        extract(text, &tree),
        Ok(ZulipRuntimeConfig {
            api: ZulipAPISettings {
                email: "e".to_string(),
                key: "k".to_string(),
                site: "s".to_string(),
            },
        })
    );
}

#[test]
fn extraction_stops_at_the_end_of_the_text() {
    let text = "[api]\nemail=e\nkey=k\n";
    let tree = ParseTree {
        nodes: vec![
            Node::Section { header: span(0, 5) },
            Node::Property { name: span(6, 11), value: span(12, 13) },
            Node::EndOfInput { at: 14 },
            Node::Property { name: span(14, 17), value: span(18, 19) },
        ],
    };
    assert_eq!(extract(text, &tree), Err(ConfigError::MissingField(Field::Key)));
}

#[test]
fn extraction_refuses_any_section_but_api() {
    let text = "[api]\n[apis]\n";
    let tree = ParseTree {
        nodes: vec![
            Node::Section { header: span(0, 5) },
            Node::Section { header: span(6, 12) },
            Node::EndOfInput { at: 13 },
        ],
    };
    assert_eq!(
        extract(text, &tree),
        Err(ConfigError::SectionMismatch { found: "[apis]".to_string() })
    );
}

#[test]
fn extraction_of_an_empty_tree_misses_the_email() {
    assert_eq!(
        extract("", &ParseTree { nodes: vec![] }),
        Err(ConfigError::MissingField(Field::Email))
    );
}

#[test]
fn characters_of_a_text() {
    assert_eq!(chars_of(""), Vec::<char>::new());
    assert_eq!(chars_of("aé\n例"), vec!['a', 'é', '\n', '例']);
}

#[test]
fn rules_are_described_in_words() {
    assert_eq!(Rule::File.describe(), "a configuration");
    assert_eq!(Rule::Section.describe(), "a section line");
    assert_eq!(Rule::Header.describe(), "a section header in brackets");
    assert_eq!(Rule::Property.describe(), "a property line");
    assert_eq!(Rule::Name.describe(), "a property name");
    assert_eq!(Rule::Separator.describe(), "`=` after the property name");
    assert_eq!(Rule::Value.describe(), "a property value");
    assert_eq!(Rule::Newline.describe(), "a line terminator");
    assert_eq!(Rule::EndOfInput.describe(), "the end of the text");
}

#[test]
fn a_syntax_error_is_put_in_words() {
    let e = SyntaxError { rule: Rule::Newline, offset: 120, line: 11 };
    assert_eq!(e.message(), "line 11, offset 120: expected a line terminator");
}

#[test]
fn lines_are_counted_by_their_terminators() {
    let line = |text: &str| INIParser::parse(text).unwrap_err().line;
    assert_eq!(line("[api]\r\na=b\rc=d\n!"), 4);
    assert_eq!(line("[api]\ra=b\r\n!"), 3);
    assert_eq!(line("[api]\r\n\r\n"), 2);
    assert_eq!(line("[api]\r\r"), 2);
    assert_eq!(line("[api]\na=\r\nb=\n\r"), 4);
    assert_eq!(line("\r\n[api]\n"), 1);
}

fn closings() -> Vec<&'static str> {
    vec!["", "\n", "=\n", "]\n", "[]\n"]
}

#[test]
fn up_to_the_offset_a_text_can_still_become_a_configuration() {
    let broken = [
        "",
        "   ",
        "email=e\n",
        "  [api",
        "[api\nemail=e\n",
        "[api] ",
        "[api] x\n",
        "[api]\nemail",
        "[api]\nemail e\n",
        "[api]\nemail=e",
        "[api]\nemail=e\n\n",
        "[api]\r\nemail=e\r\nkey=k\r!",
        "[api]\rkey=k\r=\r",
    ];
    for text in broken {
        let e = INIParser::parse(text).unwrap_err();
        let chars: Vec<char> = text.chars().collect();
        let before: String = chars[..e.offset].iter().collect();
        let closed = closings().iter().any(|c| INIParser::parse(&format!("{}{}", before, c)).is_ok());
        assert!(closed, "{:?}", text);
        if e.offset < chars.len() {
            let upto: String = chars[..e.offset + 1].iter().collect();
            for tail in ["", "\n", "=\n", "]\n", "[]\n", "a=b\n", "=b\n", " [x]\n"] {
                let again = INIParser::parse(&format!("{}{}", upto, tail)).unwrap_err();
                assert_eq!(again, e, "{:?} {:?}", text, tail);
            }
        }
    }
}
