use jaeb::attrs::{HandlerAttrs, ListenerAttrs};

fn parse_attrs(input: &str) -> Result<HandlerAttrs, String> {
    HandlerAttrs::parse(input)
}

fn parse_listener_attrs(input: &str) -> Result<ListenerAttrs, String> {
    ListenerAttrs::parse(input)
}

#[test]
fn parse_empty_attrs() {
    let attrs = parse_attrs("").expect("should parse");
    assert!(attrs.retries.is_none());
    assert!(attrs.retry_strategy.is_none());
    assert!(attrs.retry_base_ms.is_none());
    assert!(attrs.retry_max_ms.is_none());
    assert!(attrs.dead_letter.is_none());
    assert!(attrs.priority.is_none());
    assert!(attrs.name.is_none());
}

#[test]
fn parse_name_attr() {
    let attrs = parse_attrs(r#"name = "custom""#).expect("should parse");
    assert_eq!(attrs.name.as_deref(), Some("custom"));
}

#[test]
fn parse_name_empty_string() {
    let attrs = parse_attrs(r#"name = """#).expect("should parse");
    assert_eq!(attrs.name.as_deref(), Some(""));
}

#[test]
fn parse_name_with_retry_attrs() {
    let attrs = parse_attrs(r#"name = "x", retries = 3, dead_letter = true"#).expect("should parse");
    assert_eq!(attrs.name.as_deref(), Some("x"));
    assert_eq!(attrs.retries, Some(3));
    assert_eq!(attrs.dead_letter, Some(true));
}

#[test]
fn parse_priority_positive() {
    let attrs = parse_attrs("priority = 10").expect("should parse");
    assert_eq!(attrs.priority, Some(10));
}

#[test]
fn parse_priority_negative() {
    let attrs = parse_attrs("priority = -3").expect("should parse");
    assert_eq!(attrs.priority, Some(-3));
}

#[test]
fn parse_reject_duplicate_name() {
    let err = parse_attrs(r#"name = "a", name = "b""#).expect_err("should fail");
    assert!(err.to_string().contains("duplicate attribute `name`"));
}

#[test]
fn parse_reject_non_string_name() {
    let err = parse_attrs("name = 42").expect_err("should fail");
    assert!(err.to_string().contains("expected string literal"));
}

#[test]
fn has_subscription_policy_excludes_name() {
    let attrs = parse_attrs(r#"name = "x""#).expect("should parse");
    assert!(!attrs.has_subscription_policy());
    assert!(!attrs.has_retry_strategy_attrs());
}

#[test]
fn parse_all_retry_strategies() {
    for strategy in &["fixed", "exponential", "exponential_jitter"] {
        let input = format!(r#"retry_strategy = "{strategy}""#);
        let attrs = parse_attrs(&input).expect("should parse");
        assert_eq!(attrs.retry_strategy.as_deref(), Some(*strategy));
    }
}

#[test]
fn parse_reject_unknown_attr() {
    let err = parse_attrs("unknown = 1").expect_err("should fail");
    assert!(err.to_string().contains("unknown attribute `unknown`"));
}

#[test]
fn parse_reject_unknown_retry_strategy() {
    let err = parse_attrs(r#"retry_strategy = "unknown""#).expect_err("should fail");
    assert!(err.to_string().contains("expected one of"));
}

#[test]
fn parse_full_retry_config() {
    let attrs = parse_attrs(r#"retries = 5, retry_strategy = "fixed", retry_base_ms = 200, dead_letter = false"#)
        .expect("should parse");
    assert_eq!(attrs.retries, Some(5));
    assert_eq!(attrs.dead_letter, Some(false));
    assert_eq!(attrs.retry_base_ms, Some(200));
    assert_eq!(attrs.retry_strategy.as_deref(), Some("fixed"));
    assert!(attrs.has_subscription_policy());
    assert!(attrs.has_retry_strategy_attrs());
}

#[test]
fn parse_exponential_config() {
    let attrs = parse_attrs(r#"retries = 3, retry_strategy = "exponential", retry_base_ms = 50, retry_max_ms = 5000"#)
        .expect("should parse");
    assert_eq!(attrs.retries, Some(3));
    assert_eq!(attrs.retry_strategy.as_deref(), Some("exponential"));
    assert_eq!(attrs.retry_base_ms, Some(50));
    assert_eq!(attrs.retry_max_ms, Some(5000));
}

#[test]
fn parse_reject_duplicate_retries() {
    let err = parse_attrs("retries = 1, retries = 2").expect_err("should fail");
    assert!(err.to_string().contains("duplicate attribute `retries`"));
}

#[test]
fn parse_reject_non_int_priority() {
    let err = parse_attrs(r#"priority = "high""#).expect_err("should fail");
    assert!(err.to_string().contains("expected integer"));
}

// Listener attributes: the same grammar.

#[test]
fn attrs_parse_empty_attrs() {
    let attrs = parse_listener_attrs("").unwrap();
    assert!(attrs.retries.is_none());
    assert!(attrs.retry_strategy.is_none());
    assert!(attrs.retry_base_ms.is_none());
    assert!(attrs.retry_max_ms.is_none());
    assert!(attrs.dead_letter.is_none());
    assert!(attrs.name.is_none());
}

#[test]
fn attrs_parse_name_attr() {
    let attrs = parse_listener_attrs(r#"name = "custom""#).unwrap();
    assert_eq!(attrs.name.as_deref(), Some("custom"));
}

#[test]
fn attrs_parse_name_empty_string() {
    let attrs = parse_listener_attrs(r#"name = """#).unwrap();
    assert_eq!(attrs.name.as_deref(), Some(""));
}

#[test]
fn attrs_parse_name_with_retry_attrs() {
    let attrs = parse_listener_attrs(r#"name = "x", retries = 3, dead_letter = true"#).unwrap();
    assert_eq!(attrs.name.as_deref(), Some("x"));
    assert_eq!(attrs.retries, Some(3));
    assert_eq!(attrs.dead_letter, Some(true));
}

#[test]
fn attrs_parse_reject_duplicate_name() {
    let err = parse_listener_attrs(r#"name = "a", name = "b""#).unwrap_err();
    assert!(err.to_string().contains("duplicate attribute `name`"));
}

#[test]
fn attrs_parse_reject_non_string_name() {
    let err = parse_listener_attrs("name = 42").unwrap_err();
    assert!(err.to_string().contains("expected string literal"));
}

#[test]
fn has_failure_policy_excludes_name() {
    let attrs = parse_listener_attrs(r#"name = "x""#).unwrap();
    assert!(!attrs.has_failure_policy());
    assert!(!attrs.has_retry_strategy_attrs());
}

#[test]
fn attrs_parse_all_retry_strategies() {
    for strategy in &["fixed", "exponential", "exponential_jitter"] {
        let input = format!(r#"retry_strategy = "{strategy}""#);
        let attrs = parse_listener_attrs(&input).unwrap();
        assert_eq!(attrs.retry_strategy.as_deref(), Some(*strategy));
    }
}

#[test]
fn attrs_parse_reject_unknown_attr() {
    let err = parse_listener_attrs("unknown = 1").unwrap_err();
    assert!(err.to_string().contains("unknown attribute `unknown`"));
}

#[test]
fn attrs_parse_reject_unknown_retry_strategy() {
    let err = parse_listener_attrs(r#"retry_strategy = "unknown""#).unwrap_err();
    assert!(err.to_string().contains("expected one of"));
}

#[test]
fn attrs_parse_full_retry_config() {
    let attrs =
        parse_listener_attrs(r#"retries = 5, retry_strategy = "fixed", retry_base_ms = 200, dead_letter = false"#).unwrap();
    assert_eq!(attrs.retries, Some(5));
    assert_eq!(attrs.dead_letter, Some(false));
    assert_eq!(attrs.retry_base_ms, Some(200));
    assert_eq!(attrs.retry_strategy.as_deref(), Some("fixed"));
    assert!(attrs.has_failure_policy());
    assert!(attrs.has_retry_strategy_attrs());
}

#[test]
fn attrs_parse_exponential_config() {
    let attrs =
        parse_listener_attrs(r#"retries = 3, retry_strategy = "exponential", retry_base_ms = 50, retry_max_ms = 5000"#).unwrap();
    assert_eq!(attrs.retries, Some(3));
    assert_eq!(attrs.retry_strategy.as_deref(), Some("exponential"));
    assert_eq!(attrs.retry_base_ms, Some(50));
    assert_eq!(attrs.retry_max_ms, Some(5000));
}

#[test]
fn attrs_parse_reject_duplicate_retries() {
    let err = parse_listener_attrs("retries = 1, retries = 2").unwrap_err();
    assert!(err.to_string().contains("duplicate attribute `retries`"));
}

// Further cases of the grammar.

#[test]
fn listener_attrs_accept_priority() {
    let attrs = parse_listener_attrs("priority = 10").expect("should parse");
    assert_eq!(attrs.priority, Some(10));
    assert!(attrs.has_failure_policy());
    let attrs = parse_listener_attrs("priority = -2, name = \"x\"").expect("should parse");
    assert_eq!(attrs.priority, Some(-2));
}

#[test]
fn listener_unknown_attr_message_lists_priority() {
    let err = parse_listener_attrs("foo = 1").unwrap_err();
    assert_eq!(
        err,
        "unknown attribute `foo`, expected one of: retries, retry_strategy, retry_base_ms, retry_max_ms, dead_letter, priority, name"
    );
}

#[test]
fn parse_trailing_comma_and_spaces() {
    let attrs = parse_attrs("  retries = 2 ,  dead_letter = false , ").expect("should parse");
    assert_eq!(attrs.retries, Some(2));
    assert_eq!(attrs.dead_letter, Some(false));
}

#[test]
fn parse_integer_with_underscores() {
    let attrs = parse_attrs("retry_base_ms = 1_000").expect("should parse");
    assert_eq!(attrs.retry_base_ms, Some(1000));
}

#[test]
fn parse_reject_missing_equals() {
    let err = parse_attrs("retries 3").unwrap_err();
    assert_eq!(err, "expected `=`");
}

#[test]
fn parse_reject_missing_comma() {
    let err = parse_attrs("retries = 3 dead_letter = true").unwrap_err();
    assert_eq!(err, "expected `,`");
}

#[test]
fn parse_reject_non_bool_dead_letter() {
    let err = parse_attrs("dead_letter = 1").unwrap_err();
    assert_eq!(err, "expected bool");
}

#[test]
fn parse_reject_priority_out_of_range() {
    let err = parse_attrs("priority = 3000000000").unwrap_err();
    assert_eq!(err, "number too large to fit in target type");
}

#[test]
fn parse_string_escapes() {
    let attrs = parse_attrs(r#"name = "a\"b\\c""#).expect("should parse");
    assert_eq!(attrs.name.as_deref(), Some("a\"b\\c"));
}

#[test]
fn unknown_attr_message_lists_priority_for_handlers() {
    let err = parse_attrs("foo = 1").unwrap_err();
    assert_eq!(
        err,
        "unknown attribute `foo`, expected one of: retries, retry_strategy, retry_base_ms, retry_max_ms, dead_letter, priority, name"
    );
}

#[test]
fn parse_integer_radix_prefixes() {
    let attrs = parse_attrs("retries = 0b101, retry_base_ms = 0x1F_4, retry_max_ms = 0o17, priority = -0x10")
        .expect("should parse");
    assert_eq!(attrs.retries, Some(5));
    assert_eq!(attrs.retry_base_ms, Some(500));
    assert_eq!(attrs.retry_max_ms, Some(15));
    assert_eq!(attrs.priority, Some(-16));
}

#[test]
fn parse_integer_with_suffix() {
    let attrs = parse_attrs("retries = 7u32, retry_base_ms = 0xffu64").expect("should parse");
    assert_eq!(attrs.retries, Some(7));
    assert_eq!(attrs.retry_base_ms, Some(255));
}

#[test]
fn parse_reject_radix_prefix_without_digits() {
    let err = parse_attrs("retries = 0x").unwrap_err();
    assert_eq!(err, "expected expression");
}

#[test]
fn parse_reject_float_literals() {
    assert_eq!(parse_attrs("retries = 1.5").unwrap_err(), "expected integer");
    assert_eq!(parse_attrs("retry_base_ms = 1e3").unwrap_err(), "expected integer");
    assert_eq!(parse_attrs("priority = -2.5").unwrap_err(), "expected integer");
    assert_eq!(parse_attrs("name = 1.0").unwrap_err(), "expected string literal");
    assert_eq!(parse_attrs("dead_letter = 1E_3").unwrap_err(), "expected bool");
    assert_eq!(parse_attrs("retries = 2., dead_letter = true").unwrap_err(), "expected integer");
}

#[test]
fn parse_hex_digits_are_not_exponents() {
    let attrs = parse_attrs("retries = 0x1e3").expect("should parse");
    assert_eq!(attrs.retries, Some(483));
}

#[test]
fn parse_reject_digit_outside_radix() {
    assert_eq!(parse_attrs("retries = 0b12").unwrap_err(), "expected expression");
    assert_eq!(parse_attrs("retries = 0o8").unwrap_err(), "expected expression");
    assert_eq!(parse_attrs("retries = 0x_").unwrap_err(), "expected expression");
}

#[test]
fn parse_string_hex_and_unicode_escapes() {
    let attrs = parse_attrs(r#"name = "\x41\u{42}\u{1F6_00}""#).expect("should parse");
    assert_eq!(attrs.name.as_deref(), Some("AB\u{1F600}"));
}

#[test]
fn parse_string_line_continuation() {
    let attrs = parse_attrs("name = \"ab\\\n     cd\"").expect("should parse");
    assert_eq!(attrs.name.as_deref(), Some("abcd"));
}

#[test]
fn parse_raw_strings() {
    let attrs = parse_attrs(r##"name = r"a\b", retry_strategy = r#"fixed"#"##).expect("should parse");
    assert_eq!(attrs.name.as_deref(), Some("a\\b"));
    assert_eq!(attrs.retry_strategy.as_deref(), Some("fixed"));
    let attrs = parse_attrs(r###"name = r##"say "hi"#"##"###).expect("should parse");
    assert_eq!(attrs.name.as_deref(), Some("say \"hi\"#"));
}

#[test]
fn parse_reject_malformed_escapes() {
    assert_eq!(parse_attrs(r#"name = "\x80""#).unwrap_err(), "expected expression");
    assert_eq!(parse_attrs(r#"name = "\u{D800}""#).unwrap_err(), "expected expression");
    assert_eq!(parse_attrs(r#"name = "\u{}""#).unwrap_err(), "expected expression");
    assert_eq!(parse_attrs(r#"name = "\u{1234567}""#).unwrap_err(), "expected expression");
    assert_eq!(parse_attrs(r#"name = r#"open"#).unwrap_err(), "expected expression");
}

#[test]
fn parse_skips_comments_and_unicode_whitespace() {
    let attrs = parse_attrs("retries = 3 /* three /* nested */ */, // trailing\n dead_letter\u{00A0}=\u{2003}true")
        .expect("should parse");
    assert_eq!(attrs.retries, Some(3));
    assert_eq!(attrs.dead_letter, Some(true));
}

#[test]
fn parse_doc_comments_are_not_skipped() {
    assert_eq!(parse_attrs("/// doc\nretries = 3").unwrap_err(), "expected identifier");
    assert_eq!(parse_attrs("retries = 3 /* open").unwrap_err(), "expected integer");
}

#[test]
fn parse_other_expressions_are_not_literals() {
    assert_eq!(parse_attrs("retries = foo()").unwrap_err(), "expected integer");
    assert_eq!(parse_attrs("retries = (3)").unwrap_err(), "expected integer");
    assert_eq!(parse_attrs("retries = 3 + 1, dead_letter = true").unwrap_err(), "expected integer");
    assert_eq!(parse_attrs("priority = -(3)").unwrap_err(), "expected integer");
    assert_eq!(parse_attrs("dead_letter = !true").unwrap_err(), "expected bool");
    assert_eq!(parse_attrs(r#"name = "a".to_string()"#).unwrap_err(), "expected string literal");
    assert_eq!(parse_attrs("name = foo::bar(1, 2)").unwrap_err(), "expected string literal");
    assert_eq!(parse_attrs("retries = (3").unwrap_err(), "expected expression");
    assert_eq!(parse_attrs("retries = 3 3").unwrap_err(), "expected `,`");
}

#[test]
fn parse_path_key_is_not_an_identifier() {
    assert_eq!(parse_attrs("a::b = 1").unwrap_err(), "expected identifier");
    assert_eq!(parse_attrs("retries = 1, a :: b = 1").unwrap_err(), "expected identifier");
    assert_eq!(parse_attrs("a:: = 1").unwrap_err(), "expected identifier");
}
