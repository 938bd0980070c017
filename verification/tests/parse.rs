use doctor::ast::{BlockTag, BodyItem, Description, DocComment};
use doctor::error::Error;
use doctor::parse;
use doctor::parsers::{is_empty_or_multispace, take_until_either, Token};
use doctor::render::render;
use doctor::trace::{Trace, TraceKind};

#[test]
fn test_parse_invalid() {
    assert_eq!(
        parse("/** Comment */ not comment"),
        Err(Error::ParseError(
            r#"0: at line 1, in Eof:
/** Comment */ not comment
              ^

1: at line 1, in doc_comment:
/** Comment */ not comment
^

"#
            .to_owned()
        ))
    )
}

#[test]
fn test_parse_empty_input() {
    assert_eq!(
        parse(""),
        Err(Error::ParseError(
            "0: in Tag, got empty input\n\n1: in comment_start, got empty input\n\n2: in doc_comment, got empty input\n\n"
                .to_owned()
        ))
    )
}

#[test]
fn test_parse_unterminated() {
    assert_eq!(
        parse("/** hi"),
        Err(Error::ParseError(
            "0: at line 1, in Tag:\n/** hi\n      ^\n\n1: at line 1, in comment_end:\n/** hi\n      ^\n\n2: at line 1, in doc_comment:\n/** hi\n^\n\n"
                .to_owned()
        ))
    )
}

#[test]
fn test_parse_unterminated_multi_line() {
    assert_eq!(
        parse("/**\n * x\n"),
        Err(Error::ParseError(
            "0: at line 3, in Tag:\n\n^\n\n1: at line 3, in comment_end:\n\n^\n\n2: at line 1, in doc_comment:\n/**\n^\n\n"
                .to_owned()
        ))
    )
}

#[test]
fn test_parse_missing_open_marker() {
    assert!(parse("no comment here").is_err());
    assert!(parse("/* plain comment */").is_err());
}

#[test]
fn test_parse_block_tags() {
    assert_eq!(
        parse("/**\n * d1\n * @t1\n * @t2 body\n */"),
        Ok(DocComment {
            description: Some(Description {
                body_items: vec![BodyItem::TextSegment("d1\n")]
            }),
            block_tags: vec![
                BlockTag {
                    name: "t1",
                    body_items: vec![]
                },
                BlockTag {
                    name: "t2",
                    body_items: vec![BodyItem::TextSegment("body\n")]
                },
            ]
        })
    );
}

#[test]
fn test_parse_escaped_braces() {
    assert_eq!(
        parse("/** text \\{not a tag\\} */"),
        Ok(DocComment {
            description: Some(Description {
                body_items: vec![BodyItem::TextSegment("text \\{not a tag\\} ")]
            }),
            block_tags: vec![]
        })
    );
}

#[test]
fn test_parse_segments_not_blank() {
    let parsed = parse("/**\n * d1\n *\n */").unwrap();
    let description = parsed.description.expect("description expected");
    assert_eq!(
        description.body_items,
        vec![
            BodyItem::TextSegment("d1\n"),
            BodyItem::TextSegment("\n"),
        ]
    );
    let mut some_visible = false;
    for item in &description.body_items {
        if let BodyItem::TextSegment(t) = item {
            assert!(!t.is_empty());
            let visible = !is_empty_or_multispace(t);
            assert!(visible || *t == "\n" || *t == "\r\n");
            some_visible = some_visible || visible;
        }
    }
    assert!(some_visible);
}

#[test]
fn test_is_empty_or_multispace() {
    assert!(is_empty_or_multispace(""));
    assert!(is_empty_or_multispace("  \t "));
    assert!(is_empty_or_multispace(" \r\n "));
    assert!(!is_empty_or_multispace(" x "));
}

#[test]
fn test_take_until_either() {
    let tokens = vec![Token::Escapable("{"), Token::NonEscapable("*/")];
    assert_eq!(
        take_until_either(&tokens, "ab\\{cd{e*/f"),
        ("{e*/f", "ab\\{cd")
    );
    assert_eq!(take_until_either(&tokens, "plain"), ("", "plain"));
    assert_eq!(take_until_either(&tokens, "a*/b"), ("*/b", "a"));
}

#[test]
fn test_render_expected_char() {
    let t = Trace {
        errors: vec![("x", TraceKind::Char('}'))],
    };
    assert_eq!(
        render("zx", &t),
        "0: at line 1:\nzx\n ^\nexpected '}', found x\n\n"
    );
}

#[test]
fn test_render_expected_char_at_end() {
    let t = Trace {
        errors: vec![("", TraceKind::Char('}'))],
    };
    assert_eq!(
        render("z{", &t),
        "0: at line 1:\nz{\n  ^\nexpected '}', got end of input\n\n"
    );
}
