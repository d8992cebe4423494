use svelters::error::{CollectingErrorReporter, ParseError, ParseErrorKind};
use svelters::nodes::{
    Comment, CommentText, ConstTag, DebugTag, Expression, ExpressionKind, FragmentItem, Mustache,
    MustacheItem, RawMustacheTag, Text,
};
use svelters::parser::{new_span, Parser};
use svelters::tokens::{
    CommentEndToken, CommentStartToken, ConstTagToken, DebugTagToken, HtmlTagToken,
    MustacheCloseToken, MustacheOpenToken, WhitespaceToken,
};

fn ident(name: &str, lo: usize, hi: usize) -> Expression {
    Expression { kind: ExpressionKind::Identifier(name.to_string()), span: new_span(lo, hi) }
}

#[test]
fn fragment() {
    let mut error_reporter = CollectingErrorReporter::new();
    let nodes = Parser::new("Hello, {world}!").parse(&mut error_reporter);
    assert_eq!(nodes.len(), 3);
    assert!(error_reporter.is_empty())
}

#[test]
fn text() {
    let mut error_reporter = CollectingErrorReporter::new();
    let nodes = Parser::new("Hello, world!").parse(&mut error_reporter);

    assert_eq!(
        nodes,
        vec![FragmentItem::Text(Text { text: "Hello, world!".into(), span: new_span(0, 13) })]
    );
    assert!(error_reporter.is_empty())
}

#[test]
fn mustache_expression() {
    let mut error_reporter = CollectingErrorReporter::new();
    let nodes = Parser::new("{hello}").parse(&mut error_reporter);
    let expected_node = Mustache {
        mustache_open: MustacheOpenToken { span: new_span(0, 1) },
        leading_whitespace: None,
        mustache_item: MustacheItem::Expression(ident("hello", 1, 6)),
        trailing_whitespace: None,
        mustache_close: Some(MustacheCloseToken { span: new_span(6, 7) }),
        span: new_span(0, 7),
    };

    assert_eq!(nodes, vec![FragmentItem::Mustache(expected_node)]);
    assert!(error_reporter.is_empty())
}

#[test]
fn mustache_expression_whitespace() {
    let mut error_reporter = CollectingErrorReporter::new();
    let nodes = Parser::new("{  hello   }").parse(&mut error_reporter);
    let expected_node = Mustache {
        mustache_open: MustacheOpenToken { span: new_span(0, 1) },
        leading_whitespace: Some(WhitespaceToken { span: new_span(1, 3) }),
        mustache_item: MustacheItem::Expression(ident("hello", 3, 8)),
        trailing_whitespace: Some(WhitespaceToken { span: new_span(8, 11) }),
        mustache_close: Some(MustacheCloseToken { span: new_span(11, 12) }),
        span: new_span(0, 12),
    };

    assert_eq!(nodes, vec![FragmentItem::Mustache(expected_node)]);
    assert!(error_reporter.is_empty())
}

#[test]
fn mustache_expression_missing_close() {
    let mut error_reporter = CollectingErrorReporter::new();
    let nodes = Parser::new("{hello").parse(&mut error_reporter);
    let expected_node = Mustache {
        mustache_open: MustacheOpenToken { span: new_span(0, 1) },
        leading_whitespace: None,
        mustache_item: MustacheItem::Expression(ident("hello", 1, 6)),
        trailing_whitespace: None,
        mustache_close: None,
        span: new_span(0, 6),
    };

    assert_eq!(nodes, vec![FragmentItem::Mustache(expected_node)]);
    assert_eq!(
        error_reporter.parse_errors(),
        &[ParseError::new(ParseErrorKind::MustacheNotClosed, new_span(5, 6))]
    );
}

#[test]
fn comment() {
    let mut error_reporter = CollectingErrorReporter::new();
    let nodes = Parser::new("<!-- a comment -->").parse(&mut error_reporter);

    assert_eq!(
        nodes,
        vec![FragmentItem::Comment(Comment {
            comment_start: CommentStartToken { span: new_span(0, 4) },
            comment_text: CommentText { text: " a comment ".into(), span: new_span(4, 15) },
            comment_end: Some(CommentEndToken { span: new_span(15, 18) }),
            span: new_span(0, 18),
        })]
    );
    assert!(error_reporter.is_empty())
}

#[test]
fn mustache_const_tag() {
    let mut error_reporter = CollectingErrorReporter::new();
    let nodes = Parser::new("{@const hello}").parse(&mut error_reporter);
    let expected_node = Mustache {
        mustache_open: MustacheOpenToken { span: new_span(0, 1) },
        leading_whitespace: None,
        mustache_item: MustacheItem::ConstTag(ConstTag {
            const_tag: ConstTagToken { span: new_span(1, 7) },
            whitespace: Some(WhitespaceToken { span: new_span(7, 8) }),
            expression: ident("hello", 8, 13),
            span: new_span(1, 13),
        }),
        trailing_whitespace: None,
        mustache_close: Some(MustacheCloseToken { span: new_span(13, 14) }),
        span: new_span(0, 14),
    };

    assert_eq!(nodes, vec![FragmentItem::Mustache(expected_node)]);
    assert_eq!(
        error_reporter.parse_errors(),
        &[ParseError::new(ParseErrorKind::InvalidConstArgs, new_span(8, 13))]
    );
}

#[test]
fn mustache_debug_tag() {
    let mut error_reporter = CollectingErrorReporter::new();
    let nodes = Parser::new("{@debug hello}").parse(&mut error_reporter);
    let expected_node = Mustache {
        mustache_open: MustacheOpenToken { span: new_span(0, 1) },
        leading_whitespace: None,
        mustache_item: MustacheItem::DebugTag(DebugTag {
            debug_tag: DebugTagToken { span: new_span(1, 7) },
            whitespace: Some(WhitespaceToken { span: new_span(7, 8) }),
            identifiers: vec![ident("hello", 8, 13)],
            span: new_span(1, 13),
        }),
        trailing_whitespace: None,
        mustache_close: Some(MustacheCloseToken { span: new_span(13, 14) }),
        span: new_span(0, 14),
    };

    assert_eq!(nodes, vec![FragmentItem::Mustache(expected_node)]);
    assert!(error_reporter.is_empty())
}

#[test]
fn mustache_debug_tag_sequence() {
    let mut error_reporter = CollectingErrorReporter::new();
    let nodes = Parser::new("{@debug hello, 123}").parse(&mut error_reporter);
    let expected_node = Mustache {
        mustache_open: MustacheOpenToken { span: new_span(0, 1) },
        leading_whitespace: None,
        mustache_item: MustacheItem::DebugTag(DebugTag {
            debug_tag: DebugTagToken { span: new_span(1, 7) },
            whitespace: Some(WhitespaceToken { span: new_span(7, 8) }),
            identifiers: vec![
                ident("hello", 8, 13),
                Expression { kind: ExpressionKind::Other, span: new_span(15, 18) },
            ],
            span: new_span(1, 18),
        }),
        trailing_whitespace: None,
        mustache_close: Some(MustacheCloseToken { span: new_span(18, 19) }),
        span: new_span(0, 19),
    };

    assert_eq!(nodes, vec![FragmentItem::Mustache(expected_node)]);
    assert_eq!(
        error_reporter.parse_errors(),
        &[ParseError::new(ParseErrorKind::InvalidDebugArgs, new_span(15, 18))]
    );
}

#[test]
fn mustache_debug_all_tag() {
    let mut error_reporter = CollectingErrorReporter::new();
    let nodes = Parser::new("{@debug}").parse(&mut error_reporter);
    let expected_node = Mustache {
        mustache_open: MustacheOpenToken { span: new_span(0, 1) },
        leading_whitespace: None,
        mustache_item: MustacheItem::DebugTag(DebugTag {
            debug_tag: DebugTagToken { span: new_span(1, 7) },
            whitespace: None,
            identifiers: vec![],
            span: new_span(1, 7),
        }),
        trailing_whitespace: None,
        mustache_close: Some(MustacheCloseToken { span: new_span(7, 8) }),
        span: new_span(0, 8),
    };

    assert_eq!(nodes, vec![FragmentItem::Mustache(expected_node)]);
    assert!(error_reporter.is_empty())
}

#[test]
fn mustache_raw_tag() {
    let mut error_reporter = CollectingErrorReporter::new();
    let nodes = Parser::new("{@html hello}").parse(&mut error_reporter);
    let expected_node = Mustache {
        mustache_open: MustacheOpenToken { span: new_span(0, 1) },
        leading_whitespace: None,
        mustache_item: MustacheItem::RawMustacheTag(RawMustacheTag {
            html_tag: HtmlTagToken { span: new_span(1, 6) },
            whitespace: Some(WhitespaceToken { span: new_span(6, 7) }),
            expression: ident("hello", 7, 12),
            span: new_span(1, 12),
        }),
        trailing_whitespace: None,
        mustache_close: Some(MustacheCloseToken { span: new_span(12, 13) }),
        span: new_span(0, 13),
    };

    assert_eq!(nodes, vec![FragmentItem::Mustache(expected_node)]);
    assert!(error_reporter.is_empty())
}
