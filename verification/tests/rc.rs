use zulip::grammar::Rule;
use zulip::rc::{parse_from_str, ConfigError, Field, ZulipAPISettings, ZulipRuntimeConfig};
use zulip::tree::SyntaxError;

fn config(email: &str, key: &str, site: &str) -> ZulipRuntimeConfig {
    ZulipRuntimeConfig {
        api: ZulipAPISettings {
            email: email.to_string(),
            key: key.to_string(),
            site: site.to_string(),
        },
    }
}

fn syntax(rule: Rule, offset: usize, line: usize) -> ConfigError {
    ConfigError::Syntax(SyntaxError { rule, offset, line })
}

#[test]
fn parses_the_three_settings() {
    let parsed =
        parse_from_str("[api]\nemail=test@test.tester.com\nkey=testkey\nsite=http://127.0.0.1:9999\n");
    assert_eq!(parsed, Ok(config("test@test.tester.com", "testkey", "http://127.0.0.1:9999")));
}

#[test]
fn order_of_the_properties_does_not_matter() {
    let expected = Ok(config("e", "k", "s"));
    assert_eq!(parse_from_str("[api]\nemail=e\nkey=k\nsite=s\n"), expected);
    assert_eq!(parse_from_str("[api]\nemail=e\nsite=s\nkey=k\n"), expected);
    assert_eq!(parse_from_str("[api]\nkey=k\nemail=e\nsite=s\n"), expected);
    assert_eq!(parse_from_str("[api]\nkey=k\nsite=s\nemail=e\n"), expected);
    assert_eq!(parse_from_str("[api]\nsite=s\nemail=e\nkey=k\n"), expected);
    assert_eq!(parse_from_str("[api]\nsite=s\nkey=k\nemail=e\n"), expected);
}

#[test]
fn values_are_taken_as_written() {
    let parsed = parse_from_str("[api]\nemail= a b \nkey=k=v=\t\nsite=[x] # not a comment\n");
    assert_eq!(parsed, Ok(config(" a b ", "k=v=\t", "[x] # not a comment")));
}

#[test]
fn values_may_hold_any_characters_but_line_breaks() {
    let parsed = parse_from_str("[api]\nemail=zoë@example.org\nkey=ключ\nsite=https://例え.jp\n");
    assert_eq!(parsed, Ok(config("zoë@example.org", "ключ", "https://例え.jp")));
}

#[test]
fn an_empty_value_is_a_value() {
    assert_eq!(parse_from_str("[api]\nemail=\nkey=k\nsite=s\n"), Ok(config("", "k", "s")));
}

#[test]
fn the_last_of_two_properties_of_one_name_counts() {
    let parsed = parse_from_str("[api]\nemail=first\nkey=k\nemail=second\nsite=s\n");
    assert_eq!(parsed, Ok(config("second", "k", "s")));
}

#[test]
fn all_three_line_terminators_are_taken() {
    assert_eq!(parse_from_str("[api]\r\nemail=e\r\nkey=k\r\nsite=s\r\n"), Ok(config("e", "k", "s")));
    assert_eq!(parse_from_str("[api]\remail=e\rkey=k\rsite=s\r"), Ok(config("e", "k", "s")));
    assert_eq!(parse_from_str("[api]\r\nemail=e\nkey=k\rsite=s\n"), Ok(config("e", "k", "s")));
}

#[test]
fn blanks_around_the_header_are_passed_over() {
    assert_eq!(parse_from_str(" \t[api]\t \nemail=e\nkey=k\nsite=s\n"), Ok(config("e", "k", "s")));
}

#[test]
fn an_unknown_property_is_passed_over() {
    let parsed = parse_from_str("[api]\nemail=e\nfoo=bar\nkey=k\nsite=s\n");
    assert_eq!(parsed, Ok(config("e", "k", "s")));
    assert_eq!(parsed, parse_from_str("[api]\nemail=e\nkey=k\nsite=s\n"));
    assert_eq!(parsed, parse_from_str("[api]\nfoo=bar\nemail=e\nkey=k\nsite=s\n"));
    assert_eq!(parsed, parse_from_str("[api]\nemail=e\nkey=k\nsite=s\nfoo=bar\n"));
}

#[test]
fn names_are_compared_exactly() {
    assert_eq!(
        parse_from_str("[api]\nEmail=e\nkey=k\nsite=s\n"),
        Err(ConfigError::MissingField(Field::Email))
    );
    assert_eq!(
        parse_from_str("[api]\nemail=e\nkeys=k\nsite=s\n"),
        Err(ConfigError::MissingField(Field::Key))
    );
}

#[test]
fn a_missing_header_is_a_syntax_error() {
    assert_eq!(parse_from_str("email=e\nkey=k\nsite=s\n"), Err(syntax(Rule::Header, 0, 1)));
    assert_eq!(parse_from_str(""), Err(syntax(Rule::Header, 0, 1)));
    assert_eq!(parse_from_str("  \nemail=e\n"), Err(syntax(Rule::Header, 2, 1)));
}

#[test]
fn an_unknown_section_is_a_mismatch() {
    assert_eq!(
        parse_from_str("[other]\nemail=e\nkey=k\nsite=s\n"),
        Err(ConfigError::SectionMismatch { found: "[other]".to_string() })
    );
    assert_eq!(
        parse_from_str("[ api ]\nemail=e\nkey=k\nsite=s\n"),
        Err(ConfigError::SectionMismatch { found: "[ api ]".to_string() })
    );
    assert_eq!(
        parse_from_str("[API]\n"),
        Err(ConfigError::SectionMismatch { found: "[API]".to_string() })
    );
    assert_eq!(
        parse_from_str("[]\n"),
        Err(ConfigError::SectionMismatch { found: "[]".to_string() })
    );
}

#[test]
fn a_syntax_error_comes_before_a_mismatch() {
    assert_eq!(parse_from_str("[other]\nemail\n"), Err(syntax(Rule::Separator, 13, 2)));
}

#[test]
fn a_missing_site_is_reported() {
    assert_eq!(
        parse_from_str("[api]\nemail=a@b.c\nkey=k\n"),
        Err(ConfigError::MissingField(Field::Site))
    );
}

#[test]
fn the_first_missing_property_is_reported() {
    assert_eq!(parse_from_str("[api]\n"), Err(ConfigError::MissingField(Field::Email)));
    assert_eq!(parse_from_str("[api]\nsite=s\n"), Err(ConfigError::MissingField(Field::Email)));
    assert_eq!(parse_from_str("[api]\nemail=e\n"), Err(ConfigError::MissingField(Field::Key)));
    assert_eq!(
        parse_from_str("[api]\nemail=e\nsite=s\n"),
        Err(ConfigError::MissingField(Field::Key))
    );
    assert_eq!(
        parse_from_str("[api]\nkey=k\nemail=e\n"),
        Err(ConfigError::MissingField(Field::Site))
    );
}

#[test]
fn reading_twice_gives_the_same() {
    let text = "[api]\nemail=test@test.tester.com\nkey=testkey\nsite=http://127.0.0.1:9999\n";
    let first = parse_from_str(text).unwrap();
    let second = parse_from_str(text).unwrap();
    assert_eq!(first.api.email, second.api.email);
    assert_eq!(first.api.key, second.api.key);
    assert_eq!(first.api.site, second.api.site);
    let broken = "[api]\nemail";
    assert_eq!(parse_from_str(broken), parse_from_str(broken));
}

#[test]
fn the_header_must_be_closed_on_its_line() {
    assert_eq!(parse_from_str("[api\nemail=e\n"), Err(syntax(Rule::Header, 4, 1)));
    assert_eq!(parse_from_str("[api"), Err(syntax(Rule::Header, 4, 1)));
    assert_eq!(parse_from_str("[api\r]\n"), Err(syntax(Rule::Header, 4, 1)));
}

#[test]
fn the_header_must_end_its_line() {
    assert_eq!(parse_from_str("[api] x\nemail=e\n"), Err(syntax(Rule::Newline, 6, 1)));
    assert_eq!(parse_from_str("[api]"), Err(syntax(Rule::Newline, 5, 1)));
    assert_eq!(parse_from_str("[api]  "), Err(syntax(Rule::Newline, 7, 1)));
    assert_eq!(parse_from_str("[api][api]\n"), Err(syntax(Rule::Newline, 5, 1)));
}

#[test]
fn a_property_needs_a_name() {
    assert_eq!(parse_from_str("[api]\n=e\n"), Err(syntax(Rule::Name, 6, 2)));
    assert_eq!(parse_from_str("[api]\nemail=e\n key=k\n"), Err(syntax(Rule::Name, 14, 3)));
    assert_eq!(parse_from_str("[api]\nemail=e\n[api]\n"), Err(syntax(Rule::Name, 14, 3)));
    assert_eq!(parse_from_str("[api]\nemail=e\n# key\n"), Err(syntax(Rule::Name, 14, 3)));
}

#[test]
fn a_blank_line_is_a_syntax_error() {
    assert_eq!(parse_from_str("[api]\n\nemail=e\n"), Err(syntax(Rule::Name, 6, 2)));
    assert_eq!(parse_from_str("[api]\nemail=e\nkey=k\nsite=s\n\n"), Err(syntax(Rule::Name, 27, 5)));
    assert_eq!(parse_from_str("\n[api]\n"), Err(syntax(Rule::Header, 0, 1)));
}

#[test]
fn a_property_needs_its_separator() {
    assert_eq!(parse_from_str("[api]\nemail\n"), Err(syntax(Rule::Separator, 11, 2)));
    assert_eq!(parse_from_str("[api]\nemail =e\n"), Err(syntax(Rule::Separator, 11, 2)));
    assert_eq!(parse_from_str("[api]\nemail:e\n"), Err(syntax(Rule::Separator, 11, 2)));
    assert_eq!(parse_from_str("[api]\ne-mail=e\n"), Err(syntax(Rule::Separator, 7, 2)));
    assert_eq!(parse_from_str("[api]\nemail"), Err(syntax(Rule::Separator, 11, 2)));
}

#[test]
fn the_last_line_needs_its_terminator() {
    assert_eq!(
        parse_from_str("[api]\nemail=e\nkey=k\nsite=s"),
        Err(syntax(Rule::Newline, 26, 4))
    );
}

#[test]
fn offsets_count_characters() {
    assert_eq!(parse_from_str("[äpi]\nkey=ключ\nsite"), Err(syntax(Rule::Separator, 19, 3)));
}

#[test]
fn a_syntax_error_says_where_and_what() {
    let e = parse_from_str("[api]\nemail=e\nkey\n").unwrap_err();
    assert_eq!(e.message(), "line 3, offset 17: expected `=` after the property name");
    let e = parse_from_str("email=e\n").unwrap_err();
    assert_eq!(e.message(), "line 1, offset 0: expected a section header in brackets");
    let e = parse_from_str("[api]\nemail=e").unwrap_err();
    assert_eq!(e.message(), "line 2, offset 13: expected a line terminator");
    let e = parse_from_str("[api]\n\n").unwrap_err();
    assert_eq!(e.message(), "line 2, offset 6: expected a property name");
}

#[test]
fn a_syntax_error_on_a_late_line_is_numbered_in_decimal() {
    let mut text = String::from("[api]\n");
    for _ in 0..1203 {
        text.push_str("a=b\n");
    }
    text.push_str("c\n");
    let e = parse_from_str(&text).unwrap_err();
    assert_eq!(e, syntax(Rule::Separator, 4819, 1205));
    assert_eq!(e.message(), "line 1205, offset 4819: expected `=` after the property name");
}

#[test]
fn a_mismatch_names_the_section() {
    let e = parse_from_str("[zulip]\n").unwrap_err();
    assert_eq!(e.message(), "unknown section [zulip], expected [api]");
}

#[test]
fn a_missing_field_is_named() {
    assert_eq!(ConfigError::MissingField(Field::Email).message(), "missing property email");
    assert_eq!(ConfigError::MissingField(Field::Key).message(), "missing property key");
    assert_eq!(ConfigError::MissingField(Field::Site).message(), "missing property site");
}

#[test]
fn fields_are_named_as_they_are_written() {
    assert_eq!(Field::Email.name(), "email");
    assert_eq!(Field::Key.name(), "key");
    assert_eq!(Field::Site.name(), "site");
}
