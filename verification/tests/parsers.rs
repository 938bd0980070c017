use doctor::ast::{BlockTag, BodyItem, Description, DocComment, InlineTag};
use doctor::parsers::{
    body_text_segment, block_tag, comment_end, comment_start, description, doc_comment,
    inline_tag, inline_tag_body, inline_tag_body_line, line_leading, tag_name,
};
use doctor::trace::{Rule, Trace, TraceKind};

fn trace(entries: Vec<(&str, TraceKind)>) -> Trace<'_> {
    Trace { errors: entries }
}

#[test]
fn test_comment_start() {
    assert_eq!(comment_start("/**"), Ok(("", ())));
    assert_eq!(comment_start("/**   \n"), Ok(("", ())));
    assert_eq!(
        comment_start("/** the rest of the line"),
        Ok(("the rest of the line", ()))
    );
    assert_eq!(
        comment_start("/*"),
        Err(trace(vec![
            ("/*", TraceKind::Tag),
            ("/*", TraceKind::Context(Rule::CommentStart)),
        ]))
    );
}

#[test]
fn test_comment_end() {
    assert_eq!(comment_end("*/"), Ok(("", ())));
    assert_eq!(comment_end("\t */"), Ok(("", ())));
    assert_eq!(comment_end("\n */"), Ok(("", ())));
    assert_eq!(
        comment_end("*/this is not comment anymore"),
        Ok(("this is not comment anymore", ()))
    );
    assert_eq!(
        comment_end("*"),
        Err(trace(vec![
            ("*", TraceKind::Tag),
            ("*", TraceKind::Context(Rule::CommentEnd)),
        ]))
    );
}

#[test]
fn test_line_leading() {
    assert_eq!(line_leading("*"), Ok(("", "*")));
    assert_eq!(line_leading(" * "), Ok(("", " * ")));
    assert_eq!(
        line_leading(" * text after the separator"),
        Ok(("text after the separator", " * "))
    );

    assert_eq!(
        line_leading(" */ "),
        Err(trace(vec![
            ("*/ ", TraceKind::Not),
            (" */ ", TraceKind::Context(Rule::LineLeading)),
        ]))
    );
    assert_eq!(
        line_leading(" \n * "),
        Err(trace(vec![
            ("\n * ", TraceKind::Tag),
            (" \n * ", TraceKind::Context(Rule::LineLeading)),
        ]))
    );
    assert_eq!(
        line_leading("text"),
        Err(trace(vec![
            ("text", TraceKind::Tag),
            ("text", TraceKind::Context(Rule::LineLeading)),
        ]))
    );
}

#[test]
fn test_tag_name() {
    assert_eq!(tag_name("@my_tag"), Ok(("", "my_tag")));
    assert_eq!(tag_name("@myTag1"), Ok(("", "myTag1")));
    assert_eq!(tag_name("@myTag1 the rest"), Ok((" the rest", "myTag1")));
    assert_eq!(
        tag_name("myTag1"),
        Err(trace(vec![
            ("myTag1", TraceKind::Tag),
            ("myTag1", TraceKind::Context(Rule::TagName)),
        ]))
    );
    assert_eq!(
        tag_name("@1myTag"),
        Err(trace(vec![
            ("1myTag", TraceKind::Alpha),
            ("@1myTag", TraceKind::Context(Rule::TagName)),
        ]))
    );
    assert_eq!(
        tag_name("@_myTag"),
        Err(trace(vec![
            ("_myTag", TraceKind::Alpha),
            ("@_myTag", TraceKind::Context(Rule::TagName)),
        ]))
    );
}

#[test]
fn test_inline_tag_body_line() {
    assert_eq!(inline_tag_body_line("\n"), Ok(("", "\n")));
    assert_eq!(inline_tag_body_line("Hello"), Ok(("", "Hello")));
    assert_eq!(inline_tag_body_line("Hello\n"), Ok(("", "Hello\n")));
    assert_eq!(inline_tag_body_line("Hello}"), Ok(("}", "Hello")));
    assert_eq!(
        inline_tag_body_line("Hello { world"),
        Ok(("{ world", "Hello "))
    );
    assert_eq!(inline_tag_body_line("He\\}llo}"), Ok(("}", "He\\}llo")));
    assert_eq!(
        inline_tag_body_line("Hello \\{\\} world"),
        Ok(("", "Hello \\{\\} world"))
    );

    assert_eq!(
        inline_tag_body_line("Hello \\ world"),
        Ok(("", "Hello \\ world"))
    );
    assert_eq!(inline_tag_body_line("Hello \\"), Ok(("", "Hello \\")));

    assert_eq!(
        inline_tag_body_line(""),
        Err(trace(vec![
            ("", TraceKind::NonEmpty),
            ("", TraceKind::Alt),
            ("", TraceKind::Context(Rule::InlineTagBodyLine)),
        ]))
    );
}

#[test]
fn test_inline_tag_body() {
    let input = r#"Hello
        * world.
        * \{\}
        *
        * Second paragraph.
        * }"#;
    assert_eq!(
        inline_tag_body(input),
        Ok((
            "        * }",
            vec![
                "Hello\n",
                "world.\n",
                "\\{\\}\n",
                "\n",
                "Second paragraph.\n"
            ]
        ))
    );
}

#[test]
fn test_inline_tag() {
    assert_eq!(
        inline_tag("{@tag}"),
        Ok((
            "",
            InlineTag {
                name: "tag",
                body_lines: vec![]
            }
        ))
    );
    assert_eq!(
        inline_tag("{@tag body text}"),
        Ok((
            "",
            InlineTag {
                name: "tag",
                body_lines: vec!["body text"]
            }
        ))
    );
    assert_eq!(
        inline_tag("{@tag - body text}"),
        Ok((
            "",
            InlineTag {
                name: "tag",
                body_lines: vec!["- body text"]
            }
        ))
    );
    assert_eq!(
        inline_tag("{@tag \\{\\}}"),
        Ok((
            "",
            InlineTag {
                name: "tag",
                body_lines: vec!["\\{\\}"]
            }
        ))
    );
    assert_eq!(
        inline_tag("{@tag @body}"),
        Ok((
            "",
            InlineTag {
                name: "tag",
                body_lines: vec!["@body"]
            }
        ))
    );
    assert_eq!(
        inline_tag("{@tag\n * line 1\n * line 2}"),
        Ok((
            "",
            InlineTag {
                name: "tag",
                body_lines: vec!["\n", "line 1\n", "line 2"]
            }
        ))
    );
}

#[test]
fn test_body_text_segment() {
    assert_eq!(body_text_segment("\n"), Ok(("", "\n")));
    assert_eq!(
        body_text_segment("Hello {@ world\n"),
        Ok(("{@ world\n", "Hello "))
    );
    assert_eq!(
        body_text_segment("Hello */ world"),
        Ok(("*/ world", "Hello "))
    );
    assert_eq!(
        body_text_segment("Hello \\{@ world\n"),
        Ok(("@ world\n", "Hello \\{"))
    );
    assert_eq!(
        body_text_segment("Hello \\{\\@ world\n"),
        Ok(("", "Hello \\{\\@ world\n"))
    );
    assert_eq!(
        body_text_segment("Hello \\\\{@ world\n"),
        Ok(("{@ world\n", "Hello \\\\"))
    );
    assert_eq!(
        body_text_segment("Hello \\\\\\{ world\n"),
        Ok(("", "Hello \\\\\\{ world\n"))
    );
    assert_eq!(
        body_text_segment("Hello world\r\n"),
        Ok(("", "Hello world\r\n"))
    );
    assert_eq!(
        body_text_segment(""),
        Err(trace(vec![
            ("", TraceKind::Verify),
            ("", TraceKind::Alt),
            ("", TraceKind::Context(Rule::BodyTextSegment)),
        ]))
    );
    assert_eq!(
        body_text_segment("   \t "),
        Err(trace(vec![
            ("   \t ", TraceKind::Verify),
            ("   \t ", TraceKind::Alt),
            ("   \t ", TraceKind::Context(Rule::BodyTextSegment)),
        ]))
    );
    assert_eq!(
        body_text_segment("{"),
        Err(trace(vec![
            ("{", TraceKind::Verify),
            ("{", TraceKind::Alt),
            ("{", TraceKind::Context(Rule::BodyTextSegment)),
        ]))
    );
    assert_eq!(
        body_text_segment("@"),
        Err(trace(vec![
            ("@", TraceKind::Verify),
            ("@", TraceKind::Alt),
            ("@", TraceKind::Context(Rule::BodyTextSegment)),
        ]))
    );
}

#[test]
fn test_description() {
    assert_eq!(
        description(
            r#"This is the description section
            * that contains
            * multiple lines
            *
            * and paragraphs.
            * @blockTag"#
        ),
        Ok((
            "@blockTag",
            Description {
                body_items: vec![
                    BodyItem::TextSegment("This is the description section\n"),
                    BodyItem::TextSegment("that contains\n"),
                    BodyItem::TextSegment("multiple lines\n"),
                    BodyItem::TextSegment("\n"),
                    BodyItem::TextSegment("and paragraphs.\n"),
                ]
            }
        ))
    );
    assert_eq!(
        description(
            r#"This is the description section
            * that contains both text segments and {@inlineTag}.
            * @blockTag"#
        ),
        Ok((
            "@blockTag",
            Description {
                body_items: vec![
                    BodyItem::TextSegment("This is the description section\n"),
                    BodyItem::TextSegment("that contains both text segments and "),
                    BodyItem::InlineTag(InlineTag {
                        name: "inlineTag",
                        body_lines: vec![]
                    }),
                    BodyItem::TextSegment(".\n"),
                ]
            }
        ))
    );
    assert_eq!(
        description(
            r#"This is the description section
            * that contains multi-line {@inlineTag
            * tag body
            * }
            * @blockTag"#
        ),
        Ok((
            "@blockTag",
            Description {
                body_items: vec![
                    BodyItem::TextSegment("This is the description section\n"),
                    BodyItem::TextSegment("that contains multi-line "),
                    BodyItem::InlineTag(InlineTag {
                        name: "inlineTag",
                        body_lines: vec!["\n", "tag body\n"]
                    }),
                    BodyItem::TextSegment("\n"),
                ]
            }
        ))
    );
    assert_eq!(
        description("{@inlineTag with body}    \n"),
        Ok((
            "",
            Description {
                body_items: vec![
                    BodyItem::InlineTag(InlineTag {
                        name: "inlineTag",
                        body_lines: vec!["with body"]
                    }),
                    BodyItem::TextSegment("\n"),
                ]
            }
        ))
    );
}

#[test]
fn test_block_tag() {
    assert_eq!(
        block_tag("@blockTag "),
        Ok((
            "",
            BlockTag {
                name: "blockTag",
                body_items: vec![]
            }
        ))
    );
    assert_eq!(
        block_tag("@blockTag*/"),
        Ok((
            "*/",
            BlockTag {
                name: "blockTag",
                body_items: vec![]
            }
        ))
    );
    assert_eq!(
        block_tag("@blockTag with body */"),
        Ok((
            "*/",
            BlockTag {
                name: "blockTag",
                body_items: vec![BodyItem::TextSegment("with body ")]
            }
        ))
    );
    assert_eq!(
        block_tag(r#"@blockTag with body @anotherBlockTag"#),
        Ok((
            "@anotherBlockTag",
            BlockTag {
                name: "blockTag",
                body_items: vec![BodyItem::TextSegment("with body ")]
            }
        ))
    );
    assert_eq!(
        block_tag(
            r#"@blockTag with body
                * @anotherBlockTag"#
        ),
        Ok((
            "@anotherBlockTag",
            BlockTag {
                name: "blockTag",
                body_items: vec![BodyItem::TextSegment("with body\n")]
            }
        ))
    );
    assert_eq!(
        block_tag("@blockTag {@inlineTag}"),
        Ok((
            "",
            BlockTag {
                name: "blockTag",
                body_items: vec![BodyItem::InlineTag(InlineTag {
                    name: "inlineTag",
                    body_lines: vec![]
                })]
            }
        ))
    );
}

#[test]
fn test_comment_empty() {
    assert_eq!(
        doc_comment("/** */"),
        Ok((
            "",
            DocComment {
                description: None,
                block_tags: vec![],
            }
        ))
    );
}

#[test]
fn test_comment_one_line_description() {
    assert_eq!(
        doc_comment("/** One-line description. */"),
        Ok((
            "",
            DocComment {
                description: Some(Description {
                    body_items: vec![BodyItem::TextSegment("One-line description. ")]
                }),
                block_tags: vec![],
            }
        ))
    );
    assert_eq!(
        doc_comment("/** One-line description containing {@inlineTag} */"),
        Ok((
            "",
            DocComment {
                description: Some(Description {
                    body_items: vec![
                        BodyItem::TextSegment("One-line description containing "),
                        BodyItem::InlineTag(InlineTag {
                            name: "inlineTag",
                            body_lines: vec![]
                        })
                    ]
                }),
                block_tags: vec![],
            }
        ))
    );
    assert_eq!(
        doc_comment(
            "/** One-line description containing {@inlineTag} and some text after it. */"
        ),
        Ok((
            "",
            DocComment {
                description: Some(Description {
                    body_items: vec![
                        BodyItem::TextSegment("One-line description containing "),
                        BodyItem::InlineTag(InlineTag {
                            name: "inlineTag",
                            body_lines: vec![]
                        }),
                        BodyItem::TextSegment("and some text after it. "),
                    ]
                }),
                block_tags: vec![],
            }
        ))
    );
    assert_eq!(
        doc_comment("/** One-line description containing {@inlineTag with body} */"),
        Ok((
            "",
            DocComment {
                description: Some(Description {
                    body_items: vec![
                        BodyItem::TextSegment("One-line description containing "),
                        BodyItem::InlineTag(InlineTag {
                            name: "inlineTag",
                            body_lines: vec!["with body"]
                        }),
                    ]
                }),
                block_tags: vec![],
            }
        ))
    );
}

#[test]
fn test_comment_multi_line() {
    assert_eq!(
        doc_comment(
            r#"/**
                * This is a description-only comment.
                * The description contains an {@inlineTag} though.
                */"#
        ),
        Ok((
            "",
            DocComment {
                description: Some(Description {
                    body_items: vec![
                        BodyItem::TextSegment("This is a description-only comment.\n"),
                        BodyItem::TextSegment("The description contains an "),
                        BodyItem::InlineTag(InlineTag {
                            name: "inlineTag",
                            body_lines: vec![],
                        }),
                        BodyItem::TextSegment("though.\n")
                    ]
                }),
                block_tags: vec![]
            }
        ))
    );
}

#[test]
fn test_comment_all_elements() {
    assert_eq!(
        doc_comment(
            r#"/**
                * This is a doc comment.
                * It contains an {@inlineTag with some body} in its description.
                *
                * @blockTag1
                * @blockTag2 with body text
                * @blockTag3 with body text and {@inlineTag}
                */"#
        ),
        Ok((
            "",
            DocComment {
                description: Some(Description {
                    body_items: vec![
                        BodyItem::TextSegment("This is a doc comment.\n"),
                        BodyItem::TextSegment("It contains an "),
                        BodyItem::InlineTag(InlineTag {
                            name: "inlineTag",
                            body_lines: vec!["with some body"],
                        }),
                        BodyItem::TextSegment("in its description.\n"),
                        BodyItem::TextSegment("\n"),
                    ]
                }),
                block_tags: vec![
                    BlockTag {
                        name: "blockTag1",
                        body_items: vec![]
                    },
                    BlockTag {
                        name: "blockTag2",
                        body_items: vec![BodyItem::TextSegment("with body text\n"),]
                    },
                    BlockTag {
                        name: "blockTag3",
                        body_items: vec![
                            BodyItem::TextSegment("with body text and "),
                            BodyItem::InlineTag(InlineTag {
                                name: "inlineTag",
                                body_lines: vec![]
                            }),
                            BodyItem::TextSegment("\n"),
                        ]
                    },
                ]
            }
        ))
    )
}
