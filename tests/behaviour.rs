use svelters::error::{CollectingErrorReporter, ParseError, ParseErrorKind};
use svelters::expression::join_parts;
use svelters::nodes::{
    ConstTag, Expression, ExpressionKind, FragmentItem, IfBlockOpen, KeyBlockOpen, MustacheItem,
};
use svelters::parser::{new_span, Parser};
use svelters::span::Span;
use svelters::state::mustache::{const_tag_of, debug_args_diagnostics};
use svelters::tokens::{ConstTagToken, WhitespaceToken};

fn parse(source: &str) -> (Vec<FragmentItem>, Vec<ParseError>) {
    let mut reporter = CollectingErrorReporter::new();
    let nodes = Parser::new(source).parse(&mut reporter);
    (nodes, reporter.parse_errors().to_vec())
}

fn span_of(item: &FragmentItem) -> Span {
    match item {
        FragmentItem::Comment(c) => c.span,
        FragmentItem::Mustache(m) => m.span,
        FragmentItem::Text(t) => t.span,
    }
}

fn assert_tiles(source: &str, nodes: &[FragmentItem]) {
    let mut at = 0;
    for node in nodes {
        let span = span_of(node);
        assert_eq!(span.lo, at);
        assert!(span.lo < span.hi);
        at = span.hi;
    }
    assert_eq!(at, source.len());
}

fn mustache_item(item: &FragmentItem) -> &MustacheItem {
    match item {
        FragmentItem::Mustache(m) => &m.mustache_item,
        _ => panic!("not a mustache"),
    }
}

#[test]
fn spans_cover_mixed_input() {
    let source = "a <!-- c --> b {x} {@const y = 1}<!--x-->{z";
    let (nodes, errors) = parse(source);
    assert_eq!(nodes.len(), 8);
    assert_tiles(source, &nodes);
    assert_eq!(errors, vec![ParseError::new(ParseErrorKind::MustacheNotClosed, new_span(42, 43))]);
}

#[test]
fn empty_input_gives_nothing() {
    let (nodes, errors) = parse("");
    assert!(nodes.is_empty());
    assert!(errors.is_empty());
}

#[test]
fn text_with_multibyte_characters() {
    let source = "héllo {wörld}ü";
    let (nodes, errors) = parse(source);
    assert!(errors.is_empty());
    assert_tiles(source, &nodes);
    match &nodes[0] {
        FragmentItem::Text(t) => {
            assert_eq!(t.text, "héllo ");
            assert_eq!(t.span, new_span(0, 7));
        }
        _ => panic!("expected text"),
    }
    assert_eq!(
        mustache_item(&nodes[1]),
        &MustacheItem::Expression(Expression {
            kind: ExpressionKind::Identifier("wörld".to_string()),
            span: new_span(8, 14),
        })
    );
}

#[test]
fn missing_close_after_multibyte_character() {
    let (nodes, errors) = parse("{wörld");
    assert_eq!(span_of(&nodes[0]), new_span(0, 7));
    assert_eq!(errors, vec![ParseError::new(ParseErrorKind::MustacheNotClosed, new_span(6, 7))]);
}

#[test]
fn missing_close_lies_after_content_not_at_end() {
    let (nodes, errors) = parse("{a  <b>");
    assert_eq!(nodes.len(), 1);
    let item = mustache_item(&nodes[0]);
    assert!(matches!(item, MustacheItem::Expression(_)) || matches!(item, MustacheItem::InvalidSyntax(_)));
    assert_eq!(errors.last().unwrap().kind, ParseErrorKind::MustacheNotClosed);
    assert_eq!(errors.last().unwrap().span.hi, span_of(&nodes[0]).hi);
}

#[test]
fn unclosed_comment() {
    let (nodes, errors) = parse("<!-- open");
    match &nodes[0] {
        FragmentItem::Comment(c) => {
            assert_eq!(c.comment_text.text, " open");
            assert_eq!(c.comment_end, None);
            assert_eq!(c.span, new_span(0, 9));
        }
        _ => panic!("expected comment"),
    }
    assert_eq!(errors, vec![ParseError::new(ParseErrorKind::CommentNotClosed, new_span(8, 9))]);
}

#[test]
fn const_tag_with_assignment_is_valid() {
    let (nodes, errors) = parse("{@const a = b}");
    assert!(errors.is_empty());
    match mustache_item(&nodes[0]) {
        MustacheItem::ConstTag(c) => {
            assert_eq!(c.expression.kind, ExpressionKind::Assignment("=".to_string()));
            assert_eq!(c.expression.span, new_span(8, 13));
            assert_eq!(c.span, new_span(1, 13));
        }
        _ => panic!("expected const tag"),
    }
}

#[test]
fn const_tag_compound_assignment_is_invalid() {
    let (_, errors) = parse("{@const a += b}");
    assert_eq!(errors, vec![ParseError::new(ParseErrorKind::InvalidConstArgs, new_span(8, 14))]);
}

#[test]
fn const_tag_without_whitespace_goes_on() {
    let (nodes, errors) = parse("{@const(a = b)}");
    assert_eq!(errors[0], ParseError::new(ParseErrorKind::MissingWhitespaceAfterConstTag, new_span(7, 7)));
    match mustache_item(&nodes[0]) {
        MustacheItem::ConstTag(c) => assert_eq!(c.whitespace, None),
        _ => panic!("expected const tag"),
    }
}

#[test]
fn debug_tag_arguments_each_reported() {
    let (_, errors) = parse("{@debug 1, a, 2}");
    assert_eq!(
        errors,
        vec![
            ParseError::new(ParseErrorKind::InvalidDebugArgs, new_span(8, 9)),
            ParseError::new(ParseErrorKind::InvalidDebugArgs, new_span(14, 15)),
        ]
    );
}

#[test]
fn debug_tag_without_whitespace() {
    let (_, errors) = parse("{@debug(a)}");
    assert_eq!(errors[0], ParseError::new(ParseErrorKind::MissingWhitespaceAfterDebugTag, new_span(7, 7)));
}

#[test]
fn html_tag_without_whitespace() {
    let (_, errors) = parse("{@html(a)}");
    assert_eq!(errors, vec![ParseError::new(ParseErrorKind::MissingWhitespaceAfterHtmlTag, new_span(6, 6))]);
}

#[test]
fn if_and_key_blocks() {
    let (nodes, errors) = parse("{#if a}{#key b}");
    assert!(errors.is_empty());
    assert!(matches!(mustache_item(&nodes[0]), MustacheItem::IfBlockOpen(IfBlockOpen { span, .. }) if *span == new_span(1, 6)));
    assert!(matches!(mustache_item(&nodes[1]), MustacheItem::KeyBlockOpen(KeyBlockOpen { span, .. }) if *span == new_span(8, 14)));
}

#[test]
fn unreadable_expression_becomes_invalid_syntax() {
    let (nodes, errors) = parse("{) x}");
    assert_eq!(nodes.len(), 1);
    match mustache_item(&nodes[0]) {
        MustacheItem::InvalidSyntax(s) => {
            assert_eq!(s.text, ") x");
            assert_eq!(s.span, new_span(1, 4));
        }
        _ => panic!("expected invalid syntax"),
    }
    assert_eq!(errors, vec![ParseError::new(ParseErrorKind::InvalidExpression, new_span(1, 4))]);
}

#[test]
fn empty_mustache() {
    let (nodes, errors) = parse("{}");
    assert_eq!(span_of(&nodes[0]), new_span(0, 2));
    assert_eq!(errors, vec![ParseError::new(ParseErrorKind::InvalidExpression, new_span(1, 1))]);
}

#[test]
fn sequence_expression_in_mustache() {
    let (nodes, errors) = parse("{a, b}");
    assert!(errors.is_empty());
    assert_eq!(
        mustache_item(&nodes[0]),
        &MustacheItem::Expression(Expression { kind: ExpressionKind::Sequence, span: new_span(1, 5) })
    );
}

#[test]
fn lone_open_brace() {
    let (nodes, errors) = parse("{");
    assert_eq!(span_of(&nodes[0]), new_span(0, 1));
    assert_eq!(
        errors,
        vec![
            ParseError::new(ParseErrorKind::InvalidExpression, new_span(1, 1)),
            ParseError::new(ParseErrorKind::MustacheNotClosed, new_span(0, 1)),
        ]
    );
}

#[test]
fn const_tag_of_reports_non_assignment() {
    let token = ConstTagToken { span: new_span(1, 7) };
    let ws = Some(WhitespaceToken { span: new_span(7, 8) });
    let e = Expression { kind: ExpressionKind::Other, span: new_span(8, 11) };
    let (tag, diagnostic) = const_tag_of(token, ws, e.clone());
    assert_eq!(tag, ConstTag { const_tag: token, whitespace: ws, expression: e, span: new_span(1, 11) });
    assert_eq!(diagnostic, Some(ParseError::new(ParseErrorKind::InvalidConstArgs, new_span(8, 11))));
    let a = Expression { kind: ExpressionKind::Assignment("=".to_string()), span: new_span(8, 13) };
    assert_eq!(const_tag_of(token, None, a).1, None);
}

#[test]
fn debug_diagnostics_skip_identifiers() {
    let ids = vec![
        Expression { kind: ExpressionKind::Identifier("a".to_string()), span: new_span(0, 1) },
        Expression { kind: ExpressionKind::Other, span: new_span(3, 4) },
    ];
    assert_eq!(
        debug_args_diagnostics(&ids),
        vec![ParseError::new(ParseErrorKind::InvalidDebugArgs, new_span(3, 4))]
    );
}

#[test]
fn join_parts_spans_first_to_last() {
    let parts = vec![
        Expression { kind: ExpressionKind::Other, span: new_span(2, 3) },
        Expression { kind: ExpressionKind::Other, span: new_span(5, 9) },
    ];
    assert_eq!(join_parts(parts), Expression { kind: ExpressionKind::Sequence, span: new_span(2, 9) });
    let one = Expression { kind: ExpressionKind::Assignment("=".to_string()), span: new_span(1, 4) };
    assert_eq!(join_parts(vec![one.clone()]), one);
}

#[test]
fn spans_reproduce_source() {
    let source = "x {a} <!-- é --> {@html b} ü {c";
    let (nodes, _) = parse(source);
    let mut text = String::new();
    for node in &nodes {
        let span = span_of(node);
        text.push_str(&source[span.lo..span.hi]);
    }
    assert_eq!(text, source);
}

#[test]
fn children_lie_within_their_node() {
    let (nodes, _) = parse("{ @const a = 1 }");
    match &nodes[0] {
        FragmentItem::Mustache(m) => {
            let inner = match &m.mustache_item {
                MustacheItem::ConstTag(c) => {
                    assert!(c.span.lo <= c.const_tag.span.lo && c.expression.span.hi <= c.span.hi);
                    c.span
                }
                _ => panic!("expected const tag"),
            };
            assert!(m.span.lo <= m.mustache_open.span.lo);
            assert!(m.span.lo <= inner.lo && inner.hi <= m.span.hi);
            assert_eq!(m.leading_whitespace.unwrap().span, new_span(1, 2));
            assert_eq!(m.trailing_whitespace.unwrap().span, new_span(14, 15));
            assert_eq!(m.mustache_close.unwrap().span, new_span(15, 16));
        }
        _ => panic!("expected mustache"),
    }
}

#[test]
fn missing_close_before_other_text() {
    let (nodes, errors) = parse("{a b}");
    assert_eq!(nodes.len(), 2);
    assert_eq!(span_of(&nodes[0]), new_span(0, 3));
    assert_eq!(errors, vec![ParseError::new(ParseErrorKind::MustacheNotClosed, new_span(2, 3))]);
    assert_eq!(span_of(&nodes[1]), new_span(3, 5));
}

#[test]
fn debug_tag_with_only_whitespace() {
    let (nodes, errors) = parse("{@debug }");
    assert!(errors.is_empty());
    match mustache_item(&nodes[0]) {
        MustacheItem::DebugTag(d) => {
            assert!(d.identifiers.is_empty());
            assert_eq!(d.span, new_span(1, 8));
        }
        _ => panic!("expected debug tag"),
    }
}

#[test]
fn const_tag_compound_assignment_keeps_operator() {
    let (nodes, _) = parse("{@const x += 1}");
    match mustache_item(&nodes[0]) {
        MustacheItem::ConstTag(c) => {
            assert_eq!(c.expression.kind, ExpressionKind::Assignment("+=".to_string()));
        }
        _ => panic!("expected const tag"),
    }
    let e = Expression { kind: ExpressionKind::Assignment("-=".to_string()), span: new_span(8, 14) };
    let token = ConstTagToken { span: new_span(1, 7) };
    assert_eq!(
        const_tag_of(token, None, e).1,
        Some(ParseError::new(ParseErrorKind::InvalidConstArgs, new_span(8, 14)))
    );
}
