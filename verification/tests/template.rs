use memimpact::template::{
    unescape, unknown_field_message, Field, MemorySample, Placeholder, Template, Token,
};

fn sample() -> MemorySample<'static> {
    MemorySample {
        pid: 4242,
        process_name: "firefox",
        current_bytes: 10 * 1024 * 1024, // 10 MB
        max_bytes: 2 * 1024 * 1024 * 1024, // 2 GB
        timestamp: 1_700_000_000,
    }
}

// ---------------------------
// Field parsing
// ---------------------------

#[test]
fn field_from_str_valid() {
    assert_eq!("Pid".parse::<Field>().unwrap(), Field::Pid);
    assert_eq!("ProcessName".parse::<Field>().unwrap(), Field::ProcessName);
    assert_eq!("CurrentBytes".parse::<Field>().unwrap(), Field::CurrentBytes);
    assert_eq!("MaxBytes".parse::<Field>().unwrap(), Field::MaxBytes);
    assert_eq!("CurrentHuman".parse::<Field>().unwrap(), Field::CurrentHuman);
    assert_eq!("MaxHuman".parse::<Field>().unwrap(), Field::MaxHuman);
    assert_eq!("Timestamp".parse::<Field>().unwrap(), Field::Timestamp);
}

#[test]
fn field_from_str_invalid() {
    let err = "UnknownThing".parse::<Field>().unwrap_err();
    assert!(err.contains("unknow field"));
}

#[test]
fn unknown_field_is_quoted_in_the_message() {
    assert_eq!(
        "UnknownThing".parse::<Field>().unwrap_err(),
        "unknow field \"UnknownThing\""
    );
    assert_eq!("".parse::<Field>().unwrap_err(), "unknow field \"\"");
    assert_eq!("a\"b\n".parse::<Field>().unwrap_err(), "unknow field \"a\\\"b\\n\"");
    assert_eq!(unknown_field_message("\"x\""), "unknow field \"x\"");
    assert_eq!(unknown_field_message(""), "unknow field ");
}

#[test]
fn field_names_are_matched_exactly() {
    assert!("pid".parse::<Field>().is_err());
    assert!("PID".parse::<Field>().is_err());
    assert!(" Pid".parse::<Field>().is_err());
    assert!("Pid ".parse::<Field>().is_err());
    assert!("Pi".parse::<Field>().is_err());
    assert!("Pidd".parse::<Field>().is_err());
    assert!("MaxBytesHuman".parse::<Field>().is_err());
}

#[test]
fn field_names_read_back_as_their_fields() {
    for field in [
        Field::Pid,
        Field::ProcessName,
        Field::CurrentBytes,
        Field::MaxBytes,
        Field::CurrentHuman,
        Field::MaxHuman,
        Field::Timestamp,
    ] {
        assert_eq!(field.name().parse::<Field>().unwrap(), field);
        let chars: Vec<char> = field.name().chars().collect();
        assert_eq!(Field::from_chars(&chars), Some(field));
    }
    assert_eq!(Field::Pid.name(), "Pid");
    assert_eq!(Field::MaxHuman.name(), "MaxHuman");
    assert_eq!(Field::from_chars(&['P', 'i']), None);
}

// ---------------------------
// Template parsing
// ---------------------------

#[test]
fn parse_literal_only() {
    let t = Template::parse("hello world").unwrap();
    assert_eq!(t.tokens.len(), 1);
    matches!(t.tokens[0], Token::Literal(_));
}

#[test]
fn parse_single_placeholder() {
    let t = Template::parse("{Pid}").unwrap();
    assert_eq!(t.tokens.len(), 1);
    match &t.tokens[0] {
        Token::Placeholder(p) => assert_eq!(p.field, Field::Pid),
        _ => panic!("expected placeholder"),
    }
}

#[test]
fn parse_mixed_tokens() {
    let t = Template::parse("PID={Pid} NAME={ProcessName}").unwrap();
    assert_eq!(t.tokens.len(), 4); // Lit, Ph, Lit, Ph
}

#[test]
fn parse_unclosed_placeholder() {
    let err = Template::parse("hello {Pid").unwrap_err();
    assert_eq!(err, "Unclosed placeholder");
}

#[test]
fn parse_gives_the_tokens_in_order() {
    let t = Template::parse("PID={Pid} NAME={ProcessName}!").unwrap();
    assert_eq!(t.tokens.len(), 5);
    assert!(matches!(t.tokens[0], Token::Literal(ref s) if s == "PID="));
    assert!(matches!(t.tokens[1], Token::Placeholder(Placeholder { field: Field::Pid })));
    assert!(matches!(t.tokens[2], Token::Literal(ref s) if s == " NAME="));
    assert!(matches!(
        t.tokens[3],
        Token::Placeholder(Placeholder { field: Field::ProcessName })
    ));
    assert!(matches!(t.tokens[4], Token::Literal(ref s) if s == "!"));
}

#[test]
fn parse_empty_input_gives_no_token() {
    let t = Template::parse("").unwrap();
    assert_eq!(t.tokens.len(), 0);
    let mut out = String::from("kept");
    t.render(&sample(), &mut out).unwrap();
    assert_eq!(out, "kept");
}

#[test]
fn parse_joins_escaped_braces_with_the_text_around_them() {
    let t = Template::parse("a{{b}}c").unwrap();
    assert_eq!(t.tokens.len(), 1);
    assert!(matches!(t.tokens[0], Token::Literal(ref s) if s == "a{b}c"));
}

#[test]
fn compiled_templates_are_in_normal_form() {
    let formats =
        ["", "a", "{Pid}", "a{Pid}", "{Pid}a", "{{}}{Pid}{{{MaxHuman}}}x{{", "{Pid}{Pid}"];
    for format in formats {
        let t = Template::parse(format).unwrap();
        let mut after_literal = false;
        for token in &t.tokens {
            match token {
                Token::Literal(text) => {
                    assert!(!text.is_empty(), "{:?}", format);
                    assert!(!after_literal, "{:?}", format);
                    after_literal = true;
                }
                Token::Placeholder(_) => after_literal = false,
            }
        }
    }
}

#[test]
fn parse_reports_each_error_by_its_message() {
    assert_eq!(Template::parse("{").unwrap_err(), "Unclosed placeholder");
    assert_eq!(Template::parse("a {Pid").unwrap_err(), "Unclosed placeholder");
    assert_eq!(Template::parse("{}").unwrap_err(), "Empty placeholder {}");
    assert_eq!(Template::parse("a{}b").unwrap_err(), "Empty placeholder {}");
    assert_eq!(Template::parse("}").unwrap_err(), "Unmatched '}'");
    assert_eq!(Template::parse("{Pid}}").unwrap_err(), "Unmatched '}'");
    assert_eq!(Template::parse("{Nope}").unwrap_err(), "unknow field \"Nope\"");
    assert_eq!(Template::parse("{pid}").unwrap_err(), "unknow field \"pid\"");
    assert_eq!(Template::parse("{ Pid }").unwrap_err(), "unknow field \" Pid \"");
    assert_eq!(Template::parse("{a{b}").unwrap_err(), "unknow field \"a{b\"");
}

#[test]
fn parse_reports_the_first_error() {
    assert_eq!(Template::parse("} {").unwrap_err(), "Unmatched '}'");
    assert_eq!(Template::parse("{} }").unwrap_err(), "Empty placeholder {}");
    assert_eq!(Template::parse("{Nope} {").unwrap_err(), "unknow field \"Nope\"");
    assert_eq!(Template::parse("{Pid} {").unwrap_err(), "Unclosed placeholder");
}

// ---------------------------
// Rendering
// ---------------------------

#[test]
fn render_simple_fields() {
    let t = Template::parse("PID={Pid} NAME={ProcessName}").unwrap();
    let mut out = String::new();
    t.render(&sample(), &mut out).unwrap();

    assert_eq!(out, "PID=4242 NAME=firefox");
}

#[test]
fn render_byte_fields() {
    let t = Template::parse("{CurrentBytes}/{MaxBytes}").unwrap();
    let mut out = String::new();
    t.render(&sample(), &mut out).unwrap();

    assert_eq!(out, format!("{}/{}", sample().current_bytes, sample().max_bytes));
}

#[test]
fn render_human_fields() {
    let t = Template::parse("{CurrentHuman} {MaxHuman}").unwrap();
    let mut out = String::new();
    t.render(&sample(), &mut out).unwrap();

    assert_eq!(out, "10GiB 2TiB");
}

#[test]
fn render_timestamp_default_unix() {
    let t = Template::parse("{Timestamp}").unwrap();
    let mut out = String::new();
    t.render(&sample(), &mut out).unwrap();

    assert_eq!(out, sample().timestamp.to_string());
}

// ---------------------------
// Edge behavior
// ---------------------------

#[test]
fn render_multiple_same_placeholder() {
    let t = Template::parse("{Pid}-{Pid}-{Pid}").unwrap();
    let mut out = String::new();
    t.render(&sample(), &mut out).unwrap();

    assert_eq!(out, "4242-4242-4242");
}

#[test]
fn render_adjacent_placeholders() {
    let t = Template::parse("{Pid}{ProcessName}").unwrap();
    let mut out = String::new();
    t.render(&sample(), &mut out).unwrap();

    assert_eq!(out, "4242firefox");
}

#[test]
fn parse_escaped_open_brace() {
    let t = Template::parse("{{").unwrap();
    assert!(matches!(t.tokens[0], Token::Literal(ref s) if s == "{"));
}

#[test]
fn parse_escaped_close_brace() {
    let t = Template::parse("}}").unwrap();
    assert!(matches!(t.tokens[0], Token::Literal(ref s) if s == "}"));
}

#[test]
fn parse_literal_json() {
    let t = Template::parse(r#"{{"pid": {Pid}}}"#).unwrap();
    let mut out = String::new();
    t.render(&sample(), &mut out).unwrap();
    assert_eq!(out, r#"{"pid": 4242}"#);
}

#[test]
fn error_if_placeholder_not_closed() {
    assert!(Template::parse("hello {Pid").is_err());
}

#[test]
fn error_if_single_closing_brace() {
    assert!(Template::parse("hello } world").is_err());
}

#[test]
fn error_if_empty_placeholder() {
    assert!(Template::parse("{}").is_err());
}

#[test]
fn render_every_field() {
    let t = Template::parse(
        "{Pid}|{ProcessName}|{CurrentBytes}|{MaxBytes}|{CurrentHuman}|{MaxHuman}|{Timestamp}",
    )
    .unwrap();
    let mut out = String::new();
    t.render(&sample(), &mut out).unwrap();
    assert_eq!(out, "4242|firefox|10485760|2147483648|10GiB|2TiB|1700000000");
}

#[test]
fn render_appends_to_what_is_there() {
    let t = Template::parse("{Pid}").unwrap();
    let mut out = String::from("> ");
    t.render(&sample(), &mut out).unwrap();
    t.render(&sample(), &mut out).unwrap();
    assert_eq!(out, "> 42424242");
}

#[test]
fn render_reflects_only_the_sample_given() {
    let t = Template::parse("{Pid} {ProcessName} {CurrentBytes} {MaxHuman} {Timestamp}").unwrap();
    let first = sample();
    let second = MemorySample {
        pid: -7,
        process_name: "(two words)",
        current_bytes: 0,
        max_bytes: u64::MAX,
        timestamp: 1,
    };
    let mut out = String::new();
    t.render(&first, &mut out).unwrap();
    assert_eq!(out, "4242 firefox 10485760 2TiB 1700000000");
    let mut out = String::new();
    t.render(&second, &mut out).unwrap();
    assert_eq!(out, "-7 (two words) 0 15ZiB 1");
    let mut out = String::new();
    t.render(&first, &mut out).unwrap();
    assert_eq!(out, "4242 firefox 10485760 2TiB 1700000000");
}

#[test]
fn render_hand_built_tokens() {
    let t = Template {
        tokens: vec![
            Token::Literal(String::new()),
            Token::Literal("{x}".to_string()),
            Token::Placeholder(Placeholder { field: Field::MaxBytes }),
        ],
    };
    let mut out = String::new();
    t.render(&sample(), &mut out).unwrap();
    assert_eq!(out, "{x}2147483648");
}

#[test]
fn text_without_braces_renders_as_itself() {
    for text in ["", "hello world", "caf\u{e9}: 100%\n", "a\\b"] {
        let t = Template::parse(text).unwrap();
        let mut out = String::new();
        t.render(&sample(), &mut out).unwrap();
        assert_eq!(out, text);
    }
}

// ---------------------------
// Escapes
// ---------------------------

#[test]
fn unescape_replaces_the_four_escapes() {
    assert_eq!(unescape(r#"a\nb\tc\\d\"e"#).unwrap(), "a\nb\tc\\d\"e");
    assert_eq!(unescape("").unwrap(), "");
    assert_eq!(unescape("plain text").unwrap(), "plain text");
    assert_eq!(unescape(r"\\n").unwrap(), "\\n");
    assert_eq!(unescape("caf\u{e9}\\n").unwrap(), "caf\u{e9}\n");
}

#[test]
fn unescape_reports_an_unknown_escape() {
    assert_eq!(unescape(r"a\qb").unwrap_err(), "Unknown escape: \\q");
    assert_eq!(unescape(r"\r").unwrap_err(), "Unknown escape: \\r");
    assert_eq!(unescape("\\\u{e9}").unwrap_err(), "Unknown escape: \\\u{e9}");
    assert_eq!(unescape(r"\x\").unwrap_err(), "Unknown escape: \\x");
}

#[test]
fn unescape_reports_a_trailing_backslash() {
    assert_eq!(unescape("\\").unwrap_err(), "Trailing backslash");
    assert_eq!(unescape("abc\\").unwrap_err(), "Trailing backslash");
    assert_eq!(unescape(r"a\n\").unwrap_err(), "Trailing backslash");
}
