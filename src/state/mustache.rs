use super::fragment::FragmentState;
use super::State;
use crate::cursor::{is_ascii_bytes, last_char_span, occurs_at, same_text, ws_end, Cursor};
use crate::error::{CollectingErrorReporter, ParseError, ParseErrorKind};
use crate::expression::{
    expression_part, join_parts, joined, joined_part, parse_js_expression, script_read,
    script_result,
};
use crate::nodes::{
    ConstTag, DebugTag, Expression, ExpressionKind, FragmentItem, IfBlockOpen, InvalidSyntax,
    KeyBlockOpen, Mustache, MustacheItem, RawMustacheTag,
};
use crate::parser::{anchored_in, item_diagnostic, transition, Parser};
use crate::span::Span;
use crate::tokens::{
    ConstTagToken, DebugTagToken, HtmlTagToken, IfOpenToken, KeyOpenToken, MustacheCloseToken,
    MustacheOpenToken, WhitespaceToken,
};
use vstd::prelude::*;

verus! {

/// A diagnostic of a kind that is placed by position alone.
pub open spec fn is_plain_kind(k: ParseErrorKind) -> bool {
    !(k is InvalidConstArgs || k is InvalidDebugArgs || k is MustacheNotClosed
        || k is CommentNotClosed)
}

/// `e1` extends `e0` with diagnostics placed within `[lo, hi]` by position alone.
pub open spec fn added_plain(e0: Seq<ParseError>, e1: Seq<ParseError>, lo: int, hi: int) -> bool {
    &&& e0.len() <= e1.len()
    &&& e1.subrange(0, e0.len() as int) == e0
    &&& forall|k: int|
        e0.len() <= k < e1.len() ==> is_plain_kind((#[trigger] e1[k]).kind) && e1[k].span.wf()
            && lo <= e1[k].span.lo && e1[k].span.hi <= hi
}

/// `item` was read from `[lo, hi]`, is well formed, and `e1` extends `e0`
/// with diagnostics that belong to it.
pub open spec fn item_done(
    item: MustacheItem,
    lo: int,
    hi: int,
    e0: Seq<ParseError>,
    e1: Seq<ParseError>,
) -> bool {
    &&& item.wf()
    &&& lo <= item.span_of().lo
    &&& item.span_of().hi == hi
    &&& e0.len() <= e1.len()
    &&& e1.subrange(0, e0.len() as int) == e0
    &&& forall|k: int| e0.len() <= k < e1.len() ==> item_diagnostic(#[trigger] e1[k], item, lo, hi)
}

/// A tag's argument: optional whitespace from `lo`, then an expression that ends at `hi`.
pub open spec fn argument_ok(ws: Option<WhitespaceToken>, e: Expression, lo: int, hi: int) -> bool {
    &&& lo <= e.span.lo
    &&& e.span.wf()
    &&& e.span.hi == hi
    &&& ws matches Some(w) ==> w.span.lo == lo && w.span.wf() && w.span.hi <= e.span.lo
}

/// The diagnostics of a `@debug` tag's arguments: one for each that is not an
/// identifier, on that argument, in order.
pub open spec fn debug_diagnostics(ids: Seq<Expression>) -> Seq<ParseError>
    decreases ids.len(),
{
    if ids.len() == 0 {
        Seq::empty()
    } else {
        let rest = debug_diagnostics(ids.drop_last());
        if ids.last().kind is Identifier {
            rest
        } else {
            rest.push(ParseError { kind: ParseErrorKind::InvalidDebugArgs, span: ids.last().span })
        }
    }
}

/// Each diagnostic of a `@debug` tag lies on one of its arguments.
pub proof fn lemma_debug_diagnostics_anchored(ids: Seq<Expression>)
    ensures
        forall|k: int|
            0 <= k < debug_diagnostics(ids).len() ==> (#[trigger] debug_diagnostics(ids)[k]).kind
                == ParseErrorKind::InvalidDebugArgs && exists|j: int|
                0 <= j < ids.len() && (#[trigger] ids[j]).span == debug_diagnostics(ids)[k].span,
    decreases ids.len(),
{
    if ids.len() > 0 {
        let rest = ids.drop_last();
        lemma_debug_diagnostics_anchored(rest);
        assert forall|k: int| 0 <= k < debug_diagnostics(ids).len() implies (#[trigger] debug_diagnostics(
            ids,
        )[k]).kind == ParseErrorKind::InvalidDebugArgs && exists|j: int|
            0 <= j < ids.len() && (#[trigger] ids[j]).span == debug_diagnostics(ids)[k].span by {
            if k < debug_diagnostics(rest).len() {
                let j = choose|j: int|
                    0 <= j < rest.len() && (#[trigger] rest[j]).span == debug_diagnostics(rest)[k].span;
                assert(ids[j] == rest[j]);
            } else {
                assert(ids[ids.len() - 1].span == debug_diagnostics(ids)[k].span);
            }
        }
    }
}

/// The diagnostics of a `@debug` tag's arguments.
pub fn debug_args_diagnostics(identifiers: &Vec<Expression>) -> (r: Vec<ParseError>)
    ensures
        r@ == debug_diagnostics(identifiers@),
{
    let mut r: Vec<ParseError> = Vec::new();
    let mut i: usize = 0;
    while i < identifiers.len()
        invariant
            i <= identifiers@.len(),
            r@ == debug_diagnostics(identifiers@.subrange(0, i as int)),
        decreases identifiers@.len() - i,
    {
        proof {
            assert(identifiers@.subrange(0, i + 1).drop_last() =~= identifiers@.subrange(0, i as int));
        }
        if !matches!(identifiers[i].kind, ExpressionKind::Identifier(_)) {
            r.push(ParseError::new(ParseErrorKind::InvalidDebugArgs, identifiers[i].span));
        }
        i = i + 1;
    }
    assert(identifiers@.subrange(0, i as int) =~= identifiers@);
    r
}

/// `e` is an assignment with the plain operator, `target = value`.
pub open spec fn is_plain_assignment(e: Expression) -> bool {
    e.kind matches ExpressionKind::Assignment(op) && op@ == "="@
}

/// The diagnostics of a `@const` tag's argument: none for a plain
/// assignment, else one on the argument.
pub open spec fn const_diagnostics(e: Expression) -> Seq<ParseError> {
    if is_plain_assignment(e) {
        Seq::empty()
    } else {
        seq![ParseError { kind: ParseErrorKind::InvalidConstArgs, span: e.span }]
    }
}

/// Builds a `@const` tag around its argument, with the diagnostic that the
/// argument calls for: none for an assignment, else one on the argument.
pub fn const_tag_of(
    const_tag: ConstTagToken,
    whitespace: Option<WhitespaceToken>,
    expression: Expression,
) -> (r: (ConstTag, Option<ParseError>))
    ensures
        r.0 == (ConstTag {
            const_tag,
            whitespace,
            expression,
            span: Span { lo: const_tag.span.lo, hi: expression.span.hi },
        }),
        r.1 == (if is_plain_assignment(expression) {
            None
        } else {
            Some(ParseError { kind: ParseErrorKind::InvalidConstArgs, span: expression.span })
        }),
{
    let plain = match &expression.kind {
        ExpressionKind::Assignment(op) => same_text(op.as_str(), "="),
        _ => false,
    };
    let diagnostic = if plain {
        None
    } else {
        Some(ParseError::new(ParseErrorKind::InvalidConstArgs, expression.span))
    };
    let span = const_tag.span.with_hi(expression.span.hi);
    (ConstTag { const_tag, whitespace, expression, span }, diagnostic)
}

/// `@const`
pub open spec fn const_keyword() -> Seq<u8> {
    seq![64u8, 99u8, 111u8, 110u8, 115u8, 116u8]
}

fn keyword_const() -> (r: [u8; 6])
    ensures
        is_ascii_bytes(r@),
        r@ == const_keyword(),
{
    let r: [u8; 6] = [64, 99, 111, 110, 115, 116];
    assert(r@ =~= seq![64u8, 99u8, 111u8, 110u8, 115u8, 116u8]);
    r
}

/// `@debug`
pub open spec fn debug_keyword() -> Seq<u8> {
    seq![64u8, 100u8, 101u8, 98u8, 117u8, 103u8]
}

fn keyword_debug() -> (r: [u8; 6])
    ensures
        is_ascii_bytes(r@),
        r@ == debug_keyword(),
{
    let r: [u8; 6] = [64, 100, 101, 98, 117, 103];
    assert(r@ =~= seq![64u8, 100u8, 101u8, 98u8, 117u8, 103u8]);
    r
}

/// `@html`
pub open spec fn html_keyword() -> Seq<u8> {
    seq![64u8, 104u8, 116u8, 109u8, 108u8]
}

fn keyword_html() -> (r: [u8; 5])
    ensures
        is_ascii_bytes(r@),
        r@ == html_keyword(),
{
    let r: [u8; 5] = [64, 104, 116, 109, 108];
    assert(r@ =~= seq![64u8, 104u8, 116u8, 109u8, 108u8]);
    r
}

/// `#if`
pub open spec fn if_keyword() -> Seq<u8> {
    seq![35u8, 105u8, 102u8]
}

fn keyword_if() -> (r: [u8; 3])
    ensures
        is_ascii_bytes(r@),
        r@ == if_keyword(),
{
    let r: [u8; 3] = [35, 105, 102];
    assert(r@ =~= seq![35u8, 105u8, 102u8]);
    r
}

/// `#key`
pub open spec fn key_keyword() -> Seq<u8> {
    seq![35u8, 107u8, 101u8, 121u8]
}

fn keyword_key() -> (r: [u8; 4])
    ensures
        is_ascii_bytes(r@),
        r@ == key_keyword(),
{
    let r: [u8; 4] = [35, 107, 101, 121];
    assert(r@ =~= seq![35u8, 107u8, 101u8, 121u8]);
    r
}

/// The item read at `pos` is the one of the keyword there, or a bare
/// expression where no keyword comes.
pub open spec fn item_fits_keyword(item: MustacheItem, b: Seq<u8>, pos: int) -> bool {
    if occurs_at(b, pos, const_keyword()) {
        item is ConstTag
    } else if occurs_at(b, pos, debug_keyword()) {
        item is DebugTag
    } else if occurs_at(b, pos, html_keyword()) {
        item is RawMustacheTag
    } else if occurs_at(b, pos, if_keyword()) {
        item is IfBlockOpen
    } else if occurs_at(b, pos, key_keyword()) {
        item is KeyBlockOpen
    } else {
        item is Expression
    }
}

/// Where the argument of the item at `pos` starts: after the keyword and
/// any whitespace, or at `pos` itself for a bare expression.
pub open spec fn argument_pos(b: Seq<u8>, pos: int) -> int {
    if occurs_at(b, pos, const_keyword()) || occurs_at(b, pos, debug_keyword()) {
        ws_end(b, pos + 6)
    } else if occurs_at(b, pos, html_keyword()) {
        ws_end(b, pos + 5)
    } else if occurs_at(b, pos, if_keyword()) {
        ws_end(b, pos + 3)
    } else if occurs_at(b, pos, key_keyword()) {
        ws_end(b, pos + 4)
    } else {
        pos
    }
}

/// An item can be read at `pos`: the script parser reads its argument, or,
/// for `@debug`, no argument follows at all.
pub open spec fn item_read(source: Seq<char>, b: Seq<u8>, pos: int) -> bool {
    let p = argument_pos(b, pos);
    if !occurs_at(b, pos, const_keyword()) && occurs_at(b, pos, debug_keyword()) {
        p == b.len() || b[p] == 125 || script_read(source, b, p)
    } else {
        script_read(source, b, p)
    }
}

/// `ws` is the whitespace token that reading whitespace from `at` gives:
/// present exactly where some whitespace comes, and then spanning all of it.
pub open spec fn ws_token_at(ws: Option<WhitespaceToken>, b: Seq<u8>, at: int) -> bool {
    &&& (ws is Some <==> ws_end(b, at) > at)
    &&& (ws matches Some(w) ==> w.span == (Span { lo: at as usize, hi: ws_end(b, at) as usize }))
}

/// The keyword token of a tag.
pub open spec fn tag_keyword(item: MustacheItem) -> Span {
    match item {
        MustacheItem::ConstTag(n) => n.const_tag.span,
        MustacheItem::DebugTag(n) => n.debug_tag.span,
        MustacheItem::RawMustacheTag(n) => n.html_tag.span,
        MustacheItem::IfBlockOpen(n) => n.if_open.span,
        MustacheItem::KeyBlockOpen(n) => n.key_open.span,
        MustacheItem::EachBlockOpen(n) => n.each_open.span,
        _ => arbitrary(),
    }
}

/// The whitespace token after a tag's keyword.
pub open spec fn tag_ws(item: MustacheItem) -> Option<WhitespaceToken> {
    match item {
        MustacheItem::ConstTag(n) => n.whitespace,
        MustacheItem::DebugTag(n) => n.whitespace,
        MustacheItem::RawMustacheTag(n) => n.whitespace,
        MustacheItem::IfBlockOpen(n) => n.whitespace,
        MustacheItem::KeyBlockOpen(n) => n.whitespace,
        _ => None,
    }
}

/// A tag read at `pos` with a keyword of `n` bytes: the keyword spans them,
/// the whitespace token is the one read after it, and the tag starts at `pos`.
pub open spec fn keyword_shape(item: MustacheItem, b: Seq<u8>, pos: int, n: int) -> bool {
    &&& tag_keyword(item) == (Span { lo: pos as usize, hi: (pos + n) as usize })
    &&& ws_token_at(tag_ws(item), b, pos + n)
    &&& item.span_of().lo == pos
}

/// The tokens of an item read at `pos`, by its kind; a `@debug` tag holds no
/// identifiers where no argument follows, else exactly what the script
/// parser read.
pub open spec fn item_shape(item: MustacheItem, source: Seq<char>, b: Seq<u8>, pos: int) -> bool {
    match item {
        MustacheItem::ConstTag(_) => keyword_shape(item, b, pos, 6),
        MustacheItem::DebugTag(d) => keyword_shape(item, b, pos, 6) && ({
            let p = ws_end(b, pos + 6);
            if p == b.len() || b[p] == 125 {
                d.identifiers@.len() == 0
            } else {
                d.identifiers@.map_values(|e| expression_part(e)) == script_result(source, p)
            }
        }),
        MustacheItem::RawMustacheTag(_) => keyword_shape(item, b, pos, 5),
        MustacheItem::IfBlockOpen(_) => keyword_shape(item, b, pos, 3),
        MustacheItem::KeyBlockOpen(_) => keyword_shape(item, b, pos, 4),
        MustacheItem::InvalidSyntax(n) => n.span.lo == pos,
        _ => true,
    }
}

/// The missing-whitespace diagnostic of the keyword at `pos`, if any: where
/// a keyword that takes an argument is not followed by whitespace.
pub open spec fn keyword_diags(b: Seq<u8>, pos: int) -> Seq<ParseError> {
    let p = argument_pos(b, pos);
    if occurs_at(b, pos, const_keyword()) {
        missing_ws(ParseErrorKind::MissingWhitespaceAfterConstTag, pos + 6, p == pos + 6)
    } else if occurs_at(b, pos, debug_keyword()) {
        if p == b.len() || b[p] == 125 {
            Seq::empty()
        } else {
            missing_ws(ParseErrorKind::MissingWhitespaceAfterDebugTag, pos + 6, p == pos + 6)
        }
    } else if occurs_at(b, pos, html_keyword()) {
        missing_ws(ParseErrorKind::MissingWhitespaceAfterHtmlTag, pos + 5, p == pos + 5)
    } else if occurs_at(b, pos, if_keyword()) {
        missing_ws(ParseErrorKind::MissingWhitespaceAfterIfOpen, pos + 3, p == pos + 3)
    } else if occurs_at(b, pos, key_keyword()) {
        missing_ws(ParseErrorKind::MissingWhitespaceAfterKeyOpen, pos + 4, p == pos + 4)
    } else {
        Seq::empty()
    }
}

/// The diagnostics of an item's arguments.
pub open spec fn item_arg_diags(item: MustacheItem) -> Seq<ParseError> {
    match item {
        MustacheItem::ConstTag(c) => const_diagnostics(c.expression),
        MustacheItem::DebugTag(d) => debug_diagnostics(d.identifiers@),
        MustacheItem::InvalidSyntax(n) => seq![ParseError { kind: ParseErrorKind::InvalidExpression, span: n.span }],
        _ => Seq::empty(),
    }
}

/// The diagnostics a mustache's item adds, in order: the keyword's, then
/// those of its arguments (or of the unreadable text).
pub open spec fn item_diags(m: Mustache, b: Seq<u8>) -> Seq<ParseError> {
    keyword_diags(b, item_start(m)) + item_arg_diags(m.mustache_item)
}

/// What a mustache read from `source` (bytes `b`) holds: the placeholder
/// exactly where no item can be read, otherwise the keyword's item built from
/// what the script parser read; whitespace and the closing brace follow the
/// item with no gap, and the node ends after them.
pub open spec fn mustache_read(m: Mustache, source: Seq<char>, b: Seq<u8>) -> bool {
    &&& (m.mustache_item is InvalidSyntax <==> !item_read(source, b, item_start(m)))
    &&& (!(m.mustache_item is InvalidSyntax) ==> item_fits_keyword(m.mustache_item, b, item_start(m)))
    &&& (!(m.mustache_item is InvalidSyntax) && !(m.mustache_item is DebugTag) ==> expression_part(
        tag_expression(m.mustache_item),
    ) == joined_part(script_result(source, argument_pos(b, item_start(m)))))
    &&& (m.trailing_whitespace matches Some(t) ==> t.span.lo == m.mustache_item.span_of().hi)
    &&& (m.mustache_close matches Some(c) ==> c.span.lo == after_trailing(m) && c.span.hi == m.span.hi
        && c.span.hi == c.span.lo + 1)
    &&& (m.mustache_close is None ==> m.span.hi == after_trailing(m))
    &&& m.mustache_open.span == (Span { lo: m.span.lo, hi: (m.span.lo + 1) as usize })
    &&& item_start(m) == ws_end(b, m.span.lo + 1)
    &&& ws_token_at(m.leading_whitespace, b, m.span.lo + 1)
    &&& item_shape(m.mustache_item, source, b, item_start(m))
    &&& after_trailing(m) == ws_end(b, m.mustache_item.span_of().hi as int)
    &&& ws_token_at(m.trailing_whitespace, b, m.mustache_item.span_of().hi as int)
    &&& (m.mustache_close is Some <==> after_trailing(m) < b.len() && b[after_trailing(m)] == 125)
}

/// Where the item of a mustache and its trailing whitespace end.
pub open spec fn after_trailing(m: Mustache) -> int {
    match m.trailing_whitespace {
        Some(t) => t.span.hi as int,
        None => m.mustache_item.span_of().hi as int,
    }
}

/// Where the item of a mustache starts: after the brace and any whitespace.
pub open spec fn item_start(m: Mustache) -> int {
    match m.leading_whitespace {
        Some(w) => w.span.hi as int,
        None => m.span.lo + 1,
    }
}

/// The expression of a tag that takes one.
pub open spec fn tag_expression(item: MustacheItem) -> Expression {
    match item {
        MustacheItem::RawMustacheTag(n) => n.expression,
        MustacheItem::IfBlockOpen(n) => n.expression,
        MustacheItem::KeyBlockOpen(n) => n.expression,
        MustacheItem::ConstTag(n) => n.expression,
        MustacheItem::Expression(e) => e,
        _ => arbitrary(),
    }
}

/// The diagnostic for whitespace missing at `at`, where it is `absent`.
pub open spec fn missing_ws(kind: ParseErrorKind, at: int, absent: bool) -> Seq<ParseError> {
    if absent {
        seq![ParseError { kind, span: Span { lo: at as usize, hi: at as usize } }]
    } else {
        Seq::empty()
    }
}

/// Joining parts keeps what the script parser read: one part as it is, more
/// as a sequence from the first to the last.
pub proof fn lemma_joined_part(parts: Seq<Expression>)
    requires
        parts.len() > 0,
    ensures
        expression_part(joined(parts)) == joined_part(parts.map_values(|e| expression_part(e))),
{
    let q = parts.map_values(|e: Expression| expression_part(e));
    assert(q[0] == expression_part(parts[0]));
    assert(q.last() == expression_part(parts.last()));
}

/// Reads the whitespace and the expression that follow a tag keyword;
/// where the whitespace is missing, reports `kind` and goes on.
fn parse_tag_argument(
    cursor: &mut Cursor,
    reporter: &mut CollectingErrorReporter,
    kind: ParseErrorKind,
) -> (r: Option<(Option<WhitespaceToken>, Expression)>)
    requires
        old(cursor).wf(),
        is_plain_kind(kind),
    ensures
        final(cursor).wf(),
        final(cursor).source == old(cursor).source,
        old(cursor).position <= final(cursor).position,
        added_plain(old(reporter)@, final(reporter)@, old(cursor).position as int, final(cursor).position as int),
        r matches Some(a) ==> argument_ok(a.0, a.1, old(cursor).position as int, final(cursor).position as int),
        ({
            let p = ws_end(old(cursor).bytes(), old(cursor).position as int);
            &&& r is Some <==> script_read(old(cursor).source@, old(cursor).bytes(), p)
            &&& final(reporter)@ == old(reporter)@ + missing_ws(kind, old(cursor).position as int, p == old(cursor).position)
            &&& r matches Some(a) ==> (a.0 is Some <==> p > old(cursor).position) && expression_part(a.1)
                == joined_part(script_result(old(cursor).source@, p))
        }),
        r matches Some(a) ==> ws_token_at(a.0, old(cursor).bytes(), old(cursor).position as int),
{
    let whitespace = cursor.require_whitespace(kind, reporter);
    proof {
        if whitespace is Some {
            assert(reporter@ =~= old(reporter)@ + missing_ws(kind, old(cursor).position as int, false));
        } else {
            assert(reporter@ =~= old(reporter)@ + missing_ws(kind, old(cursor).position as int, true));
        }
    }
    proof {
        assert(reporter@.subrange(0, old(reporter)@.len() as int) =~= old(reporter)@);
    }
    match parse_js_expression(cursor) {
        Some(parts) => {
            proof {
                lemma_joined_part(parts@);
            }
            let expression = join_parts(parts);
            Some((whitespace, expression))
        },
        None => None,
    }
}

/// The state entered at a `{`: it reads one mustache tag.
#[derive(Debug, Default)]
pub struct MustacheState;

impl MustacheState {
    #[verifier::rlimit(50)]
    pub fn next_state(self, parser: &mut Parser, reporter: &mut CollectingErrorReporter) -> (r:
        State)
        requires
            old(parser).wf(),
            old(parser).cursor.position < old(parser).cursor.bytes().len(),
            old(parser).cursor.bytes()[old(parser).cursor.position as int] == 123,
        ensures
            transition(*old(parser), *final(parser), old(reporter)@, final(reporter)@, 0, r),
            final(parser).nodes@.len() == old(parser).nodes@.len() + 1,
            r is Fragment,
            // the diagnostics added: those of the item, then, where the brace
            // is missing, one on the last character read
            final(parser).nodes@.last() matches FragmentItem::Mustache(m) && (m.mustache_close is Some
                ==> final(reporter)@ == old(reporter)@ + item_diags(m, old(parser).cursor.bytes())),
            final(parser).nodes@.last() matches FragmentItem::Mustache(m) && (m.mustache_close is None
                ==> final(reporter)@.len() == old(reporter)@.len() + item_diags(m, old(parser).cursor.bytes()).len() + 1
                && final(reporter)@.drop_last() == old(reporter)@ + item_diags(m, old(parser).cursor.bytes())
                && final(reporter)@.last().kind == ParseErrorKind::MustacheNotClosed
                && last_char_span(old(parser).cursor.bytes(), m.span.hi as int, final(reporter)@.last().span)),
            final(parser).nodes@.last() matches FragmentItem::Mustache(m) && mustache_read(
                m,
                old(parser).cursor.source@,
                old(parser).cursor.bytes(),
            ),
            // the item is the placeholder exactly where no item can be read;
            // otherwise it is the keyword's, built from what the script parser read
            final(parser).nodes@.last() matches FragmentItem::Mustache(m) && (m.mustache_item is InvalidSyntax
                <==> !item_read(old(parser).cursor.source@, old(parser).cursor.bytes(), item_start(m))),
            final(parser).nodes@.last() matches FragmentItem::Mustache(m) && (!(m.mustache_item is InvalidSyntax)
                ==> item_fits_keyword(m.mustache_item, old(parser).cursor.bytes(), item_start(m))),
            final(parser).nodes@.last() matches FragmentItem::Mustache(m) && (!(m.mustache_item is InvalidSyntax)
                && !(m.mustache_item is DebugTag) ==> expression_part(tag_expression(m.mustache_item)) == joined_part(
                script_result(old(parser).cursor.source@, argument_pos(old(parser).cursor.bytes(), item_start(m))))),
            // whitespace and the closing brace follow the item with no gap
            final(parser).nodes@.last() matches FragmentItem::Mustache(m) && (m.trailing_whitespace matches Some(t)
                ==> t.span.lo == m.mustache_item.span_of().hi),
            final(parser).nodes@.last() matches FragmentItem::Mustache(m) && (m.mustache_close matches Some(c)
                ==> c.span.lo == after_trailing(m)),
            final(parser).nodes@.last() matches FragmentItem::Mustache(m) && (m.mustache_close is None
                ==> m.span.hi == after_trailing(m)),
            // a bare expression adds no diagnostic of its own
            final(parser).nodes@.last() matches FragmentItem::Mustache(m) && (m.mustache_item is Expression
                && m.mustache_close is Some ==> final(reporter)@ == old(reporter)@),
            // a `@const` tag adds the missing-whitespace diagnostic where the
            // whitespace is absent, and one on its argument unless that is a
            // plain assignment
            final(parser).nodes@.last() matches FragmentItem::Mustache(m) && (m.mustache_item is ConstTag
                && m.mustache_close is Some ==> final(reporter)@ == old(reporter)@ + missing_ws(
                ParseErrorKind::MissingWhitespaceAfterConstTag,
                item_start(m) + 6,
                argument_pos(old(parser).cursor.bytes(), item_start(m)) == item_start(m) + 6,
            ) + const_diagnostics(tag_expression(m.mustache_item))),
            final(parser).nodes@.last() matches FragmentItem::Mustache(m) && (m.mustache_item is Expression
                && m.mustache_close is None ==> final(reporter)@.drop_last() == old(reporter)@),
            final(parser).nodes@.last() matches FragmentItem::Mustache(m) && m.mustache_open.span == (
            Span { lo: old(parser).cursor.position, hi: (old(parser).cursor.position + 1) as usize }),
            // the closing brace is taken where it comes after the item and its whitespace
            final(parser).nodes@.last() matches FragmentItem::Mustache(m) && (m.mustache_close matches Some(
                c,
            ) ==> c.span.hi == m.span.hi && c.span.lo + 1 == c.span.hi
                && final(parser).cursor.bytes()[c.span.lo as int] == 125),
            final(parser).nodes@.last() matches FragmentItem::Mustache(m) && (m.mustache_close is None
                ==> (m.span.hi == final(parser).cursor.bytes().len() || final(parser).cursor.bytes()[m.span.hi as int] != 125)
                && final(reporter)@.last().kind == ParseErrorKind::MustacheNotClosed),
    {
        let start = parser.cursor.position();
        let open = parser.cursor.eat_char(123);
        let open = open.unwrap();
        let leading_whitespace = parser.cursor.allow_whitespace();
        let item_start = parser.cursor.position();
        let ghost e_item = reporter@;
        let mustache_item = match self.parse_item(&mut parser.cursor, reporter) {
            Some(item) => item,
            None => {
                // No item could be read: what stands up to the next `}` is kept
                // as invalid syntax, and the tag goes on from there.
                let ghost e_mid = reporter@;
                let item = Self::invalid_syntax(&mut parser.cursor, reporter, item_start);
                proof {
                    let e1 = reporter@;
                    assert forall|k: int| e_item.len() <= k < e1.len() implies item_diagnostic(
                        #[trigger] e1[k],
                        item,
                        item_start as int,
                        parser.cursor.position as int,
                    ) by {
                        if k < e_mid.len() {
                            assert(e1[k] == e1.subrange(0, e_mid.len() as int)[k]);
                            assert(e1[k] == e_mid[k]);
                        }
                    }
                    assert(e1.subrange(0, e_item.len() as int) =~= e1.subrange(0, e_mid.len() as int).subrange(0, e_item.len() as int));
                    assert(e1 =~= e_item + keyword_diags(old(parser).cursor.bytes(), item_start as int) + item_arg_diags(item));
                }
                item
            },
        };
        let ghost e_after_item = reporter@;
        assert(e_after_item == e_item + keyword_diags(old(parser).cursor.bytes(), item_start as int) + item_arg_diags(mustache_item));
        let item_end = parser.cursor.position();
        let trailing_whitespace = parser.cursor.allow_whitespace();
        let ghost e_close = reporter@;
        let mustache_close = match parser.cursor.eat_char(125) {
            Some(span) => Some(MustacheCloseToken { span }),
            None => {
                let span = parser.cursor.last_char();
                reporter.report(ParseError::new(ParseErrorKind::MustacheNotClosed, span));
                None
            },
        };
        let mustache = Mustache {
            mustache_open: MustacheOpenToken { span: open },
            leading_whitespace,
            mustache_item,
            trailing_whitespace,
            mustache_close,
            span: parser.cursor.span_from(start),
        };
        let ghost item = FragmentItem::Mustache(mustache);
        proof {
            assert(crate::state::mustache::item_start(mustache) == item_start);
            assert(e_item == old(reporter)@);
            assert(e_close == e_after_item);
            assert(e_close =~= old(reporter)@ + item_diags(mustache, old(parser).cursor.bytes()));
            if mustache.mustache_close is None {
                assert(reporter@.drop_last() =~= e_close);
            }
        }
        parser.push_node(FragmentItem::Mustache(mustache));
        proof {
            let before = *old(parser);
            assert(parser.nodes@.drop_last() =~= before.nodes@);
            let e0 = old(reporter)@;
            let e1 = reporter@;
            assert(e1.subrange(0, e0.len() as int) =~= e0) by {
                assert(e_close.subrange(0, e0.len() as int) =~= e0);
            }
            assert forall|k: int| e0.len() <= k < e1.len() implies anchored_in(
                #[trigger] e1[k],
                item,
                before.cursor.bytes(),
            ) by {
                if k < e_close.len() {
                    assert(e1[k] == e_close[k]);
                    assert(item_diagnostic(e1[k], mustache.mustache_item, item_start as int, item_end as int));
                }
            }
        }
        State::Fragment(FragmentState)
    }

    /// Reads what stands between the braces, by the keyword that comes first.
    fn parse_item(&self, cursor: &mut Cursor, reporter: &mut CollectingErrorReporter) -> (r: Option<
        MustacheItem,
    >)
        requires
            old(cursor).wf(),
        ensures
            final(cursor).wf(),
            final(cursor).source == old(cursor).source,
            old(cursor).position <= final(cursor).position,
            r matches Some(item) ==> item_done(item, old(cursor).position as int, final(cursor).position as int, old(reporter)@, final(reporter)@),
            r is None ==> added_plain(old(reporter)@, final(reporter)@, old(cursor).position as int, final(cursor).position as int),
            r matches Some(item) ==> item_fits_keyword(item, old(cursor).bytes(), old(cursor).position as int),
            r matches Some(item) ==> item_shape(item, old(cursor).source@, old(cursor).bytes(), old(cursor).position as int)
                && final(reporter)@ == old(reporter)@ + keyword_diags(old(cursor).bytes(), old(cursor).position as int)
                + item_arg_diags(item),
            r is None ==> final(reporter)@ == old(reporter)@ + keyword_diags(old(cursor).bytes(), old(cursor).position as int),
            r is Some <==> item_read(old(cursor).source@, old(cursor).bytes(), old(cursor).position as int),
            r matches Some(item) ==> (!(item is DebugTag) ==> expression_part(tag_expression(item)) == joined_part(
                script_result(old(cursor).source@, argument_pos(old(cursor).bytes(), old(cursor).position as int)),
            )),
            r matches Some(item) ==> (item is Expression ==> final(reporter)@ == old(reporter)@),
            r matches Some(item) ==> (item is ConstTag ==> final(reporter)@ == old(reporter)@
                + missing_ws(
                ParseErrorKind::MissingWhitespaceAfterConstTag,
                old(cursor).position + 6,
                argument_pos(old(cursor).bytes(), old(cursor).position as int) == old(cursor).position + 6,
            ) + const_diagnostics(tag_expression(item))),
    {
        let kw = keyword_const();
        if let Some(span) = cursor.eat_chars(kw.as_slice()) {
            return self.parse_const_tag(cursor, reporter, ConstTagToken { span });
        }
        let kw = keyword_debug();
        if let Some(span) = cursor.eat_chars(kw.as_slice()) {
            return self.parse_debug_tag(cursor, reporter, DebugTagToken { span });
        }
        let kw = keyword_html();
        if let Some(span) = cursor.eat_chars(kw.as_slice()) {
            return Self::parse_keyword_tag(cursor, reporter, span, ParseErrorKind::MissingWhitespaceAfterHtmlTag);
        }
        let kw = keyword_if();
        if let Some(span) = cursor.eat_chars(kw.as_slice()) {
            return Self::parse_keyword_tag(cursor, reporter, span, ParseErrorKind::MissingWhitespaceAfterIfOpen);
        }
        let kw = keyword_key();
        if let Some(span) = cursor.eat_chars(kw.as_slice()) {
            return Self::parse_keyword_tag(cursor, reporter, span, ParseErrorKind::MissingWhitespaceAfterKeyOpen);
        }
        let r = self.parse_mustache_tag(cursor);
        proof {
            assert(reporter@.subrange(0, old(reporter)@.len() as int) =~= old(reporter)@);
        }
        r
    }

    /// A bare expression between the braces.
    fn parse_mustache_tag(&self, cursor: &mut Cursor) -> (r: Option<MustacheItem>)
        requires
            old(cursor).wf(),
        ensures
            final(cursor).wf(),
            final(cursor).source == old(cursor).source,
            old(cursor).position <= final(cursor).position,
            r matches Some(item) ==> item is Expression && item.wf() && old(cursor).position <= item.span_of().lo
                && item.span_of().hi == final(cursor).position,
            r is Some <==> script_read(old(cursor).source@, old(cursor).bytes(), old(cursor).position as int),
            r matches Some(item) ==> item matches MustacheItem::Expression(e) && expression_part(e) == joined_part(
                script_result(old(cursor).source@, old(cursor).position as int),
            ),
    {
        match parse_js_expression(cursor) {
            Some(parts) => {
                proof {
                    lemma_joined_part(parts@);
                }
                Some(MustacheItem::Expression(join_parts(parts)))
            },
            None => None,
        }
    }

    /// `@const` followed by an assignment.
    fn parse_const_tag(
        &self,
        cursor: &mut Cursor,
        reporter: &mut CollectingErrorReporter,
        const_tag: ConstTagToken,
    ) -> (r: Option<MustacheItem>)
        requires
            old(cursor).wf(),
            const_tag.span.wf(),
            const_tag.span.hi == old(cursor).position,
        ensures
            final(cursor).wf(),
            final(cursor).source == old(cursor).source,
            old(cursor).position <= final(cursor).position,
            r matches Some(item) ==> item_done(item, const_tag.span.lo as int, final(cursor).position as int, old(reporter)@, final(reporter)@),
            r matches Some(item) ==> item is ConstTag,
            r is None ==> added_plain(old(reporter)@, final(reporter)@, const_tag.span.lo as int, final(cursor).position as int),
            ({
                let p = ws_end(old(cursor).bytes(), const_tag.span.hi as int);
                let ws_diag = missing_ws(ParseErrorKind::MissingWhitespaceAfterConstTag, const_tag.span.hi as int, p == const_tag.span.hi);
                &&& r is Some <==> script_read(old(cursor).source@, old(cursor).bytes(), p)
                &&& r is None ==> final(reporter)@ == old(reporter)@ + ws_diag
                &&& r matches Some(item) ==> item matches MustacheItem::ConstTag(c)
                    && c.const_tag == const_tag
                    && (c.whitespace is Some <==> p > const_tag.span.hi)
                    && expression_part(c.expression) == joined_part(script_result(old(cursor).source@, p))
                    && c.span == (Span { lo: const_tag.span.lo, hi: c.expression.span.hi })
                    && final(reporter)@ == old(reporter)@ + ws_diag + const_diagnostics(c.expression)
                    && ws_token_at(c.whitespace, old(cursor).bytes(), const_tag.span.hi as int)
            }),
    {
        let argument = parse_tag_argument(cursor, reporter, ParseErrorKind::MissingWhitespaceAfterConstTag);
        match argument {
            Some((whitespace, expression)) => {
                let ghost e_arg = reporter@;
                let (tag, diagnostic) = const_tag_of(const_tag, whitespace, expression);
                if let Some(d) = diagnostic {
                    reporter.report(d);
                }
                let ghost item = MustacheItem::ConstTag(tag);
                proof {
                    assert(reporter@ =~= e_arg + const_diagnostics(tag.expression));
                    let e0 = old(reporter)@;
                    let e1 = reporter@;
                    assert(e1.subrange(0, e0.len() as int) =~= e_arg.subrange(0, e0.len() as int));
                    assert forall|k: int| e0.len() <= k < e1.len() implies item_diagnostic(
                        #[trigger] e1[k],
                        item,
                        const_tag.span.lo as int,
                        cursor.position as int,
                    ) by {
                        if k < e_arg.len() {
                            assert(e1[k] == e_arg[k]);
                        }
                    }
                }
                Some(MustacheItem::ConstTag(tag))
            },
            None => None,
        }
    }

    /// `@debug`, then identifiers separated by commas, or nothing at all.
    fn parse_debug_tag(
        &self,
        cursor: &mut Cursor,
        reporter: &mut CollectingErrorReporter,
        debug_tag: DebugTagToken,
    ) -> (r: Option<MustacheItem>)
        requires
            old(cursor).wf(),
            debug_tag.span.wf(),
            debug_tag.span.hi == old(cursor).position,
        ensures
            final(cursor).wf(),
            final(cursor).source == old(cursor).source,
            old(cursor).position <= final(cursor).position,
            r matches Some(item) ==> item_done(item, debug_tag.span.lo as int, final(cursor).position as int, old(reporter)@, final(reporter)@),
            r matches Some(item) ==> item is DebugTag,
            r is None ==> added_plain(old(reporter)@, final(reporter)@, debug_tag.span.lo as int, final(cursor).position as int),
            ({
                let b = old(cursor).bytes();
                let p = ws_end(b, debug_tag.span.hi as int);
                let bare = p == b.len() || b[p] == 125;
                let ws_diag = missing_ws(ParseErrorKind::MissingWhitespaceAfterDebugTag, p, p == debug_tag.span.hi);
                &&& r is Some <==> bare || script_read(old(cursor).source@, b, p)
                &&& r is None ==> final(reporter)@ == old(reporter)@ + ws_diag
                &&& r matches Some(item) ==> item matches MustacheItem::DebugTag(d)
                    && d.debug_tag == debug_tag
                    && (d.whitespace is Some <==> p > debug_tag.span.hi)
                    && d.span == (Span { lo: debug_tag.span.lo, hi: final(cursor).position })
                    && (bare ==> d.identifiers@.len() == 0 && final(reporter)@ == old(reporter)@)
                    && (!bare ==> d.identifiers@.map_values(|e| expression_part(e)) == script_result(old(cursor).source@, p)
                        && final(reporter)@ == old(reporter)@ + ws_diag + debug_diagnostics(d.identifiers@))
                    && ws_token_at(d.whitespace, b, debug_tag.span.hi as int)
            }),
    {
        let whitespace = cursor.allow_whitespace();
        let ghost e0 = old(reporter)@;
        if cursor.is_at_end() || cursor.next_is(125) {
            let span = debug_tag.span.with_hi(cursor.position());
            let tag = DebugTag { debug_tag, whitespace, identifiers: Vec::new(), span };
            proof {
                assert(reporter@.subrange(0, e0.len() as int) =~= e0);
            }
            return Some(MustacheItem::DebugTag(tag));
        }
        if whitespace.is_none() {
            let at = cursor.position();
            reporter.report(ParseError::new(ParseErrorKind::MissingWhitespaceAfterDebugTag, Span { lo: at, hi: at }));
        }
        let ghost e_arg = reporter@;
        proof {
            let p = cursor.position as int;
            if whitespace is Some {
                assert(e_arg =~= old(reporter)@ + missing_ws(ParseErrorKind::MissingWhitespaceAfterDebugTag, p, false));
            } else {
                assert(e_arg =~= old(reporter)@ + missing_ws(ParseErrorKind::MissingWhitespaceAfterDebugTag, p, true));
            }
        }
        let ghost expr_start = cursor.position as int;
        proof {
            assert(e_arg.subrange(0, e0.len() as int) =~= e0);
        }
        match parse_js_expression(cursor) {
            Some(identifiers) => {
                let diagnostics = debug_args_diagnostics(&identifiers);
                proof {
                    lemma_debug_diagnostics_anchored(identifiers@);
                }
                let mut i: usize = 0;
                while i < diagnostics.len()
                    invariant
                        i <= diagnostics@.len(),
                        reporter@ == e_arg + diagnostics@.subrange(0, i as int),
                    decreases diagnostics@.len() - i,
                {
                    reporter.report(diagnostics[i]);
                    proof {
                        assert(diagnostics@.subrange(0, i + 1) =~= diagnostics@.subrange(0, i as int).push(diagnostics@[i as int]));
                    }
                    i = i + 1;
                }
                let span = debug_tag.span.with_hi(cursor.position());
                let tag = DebugTag { debug_tag, whitespace, identifiers, span };
                let ghost item = MustacheItem::DebugTag(tag);
                proof {
                    let e1 = reporter@;
                    let ids = tag.identifiers@;
                    assert(diagnostics@.subrange(0, i as int) =~= diagnostics@);
                    assert(e1.subrange(0, e0.len() as int) =~= e0);
                    assert forall|j: int| 0 <= j < ids.len() implies crate::nodes::holds(span, #[trigger] ids[j].span) by {
                        assert(expr_start <= ids[j].span.lo && ids[j].span.wf() && ids[j].span.hi <= ids.last().span.hi);
                    }
                    assert forall|k: int| e0.len() <= k < e1.len() implies item_diagnostic(
                        #[trigger] e1[k],
                        item,
                        debug_tag.span.lo as int,
                        cursor.position as int,
                    ) by {
                        if k < e_arg.len() {
                            assert(e1[k] == e_arg[k]);
                        } else {
                            let d = diagnostics@[k - e_arg.len()];
                            assert(e1[k] == d);
                            let j = choose|j: int| 0 <= j < ids.len() && (#[trigger] ids[j]).span == d.span;
                            assert(expr_start <= ids[j].span.lo);
                        }
                    }
                }
                Some(MustacheItem::DebugTag(tag))
            },
            None => None,
        }
    }

    /// `@html`, `#if` or `#key`, each followed by one expression.
    fn parse_keyword_tag(
        cursor: &mut Cursor,
        reporter: &mut CollectingErrorReporter,
        keyword: Span,
        kind: ParseErrorKind,
    ) -> (r: Option<MustacheItem>)
        requires
            old(cursor).wf(),
            keyword.wf(),
            keyword.hi == old(cursor).position,
            kind == ParseErrorKind::MissingWhitespaceAfterHtmlTag || kind
                == ParseErrorKind::MissingWhitespaceAfterIfOpen || kind
                == ParseErrorKind::MissingWhitespaceAfterKeyOpen,
        ensures
            final(cursor).wf(),
            final(cursor).source == old(cursor).source,
            old(cursor).position <= final(cursor).position,
            r matches Some(item) ==> item_done(item, keyword.lo as int, final(cursor).position as int, old(reporter)@, final(reporter)@),
            ({
                let p = ws_end(old(cursor).bytes(), keyword.hi as int);
                &&& r is Some <==> script_read(old(cursor).source@, old(cursor).bytes(), p)
                &&& final(reporter)@ == old(reporter)@ + missing_ws(kind, keyword.hi as int, p == keyword.hi)
                &&& r matches Some(item) ==> expression_part(tag_expression(item)) == joined_part(
                    script_result(old(cursor).source@, p),
                )
            }),
            r matches Some(item) ==> tag_keyword(item) == keyword && ws_token_at(tag_ws(item), old(cursor).bytes(), keyword.hi as int)
                && item.span_of().lo == keyword.lo,
            r matches Some(item) ==> (kind == ParseErrorKind::MissingWhitespaceAfterHtmlTag ==> item is RawMustacheTag)
                && (kind == ParseErrorKind::MissingWhitespaceAfterIfOpen ==> item is IfBlockOpen)
                && (kind == ParseErrorKind::MissingWhitespaceAfterKeyOpen ==> item is KeyBlockOpen),
            r is None ==> added_plain(old(reporter)@, final(reporter)@, keyword.lo as int, final(cursor).position as int),
    {
        match parse_tag_argument(cursor, reporter, kind) {
            Some((whitespace, expression)) => {
                let span = keyword.with_hi(expression.span.hi);
                let item = match kind {
                    ParseErrorKind::MissingWhitespaceAfterIfOpen => MustacheItem::IfBlockOpen(
                        IfBlockOpen { if_open: IfOpenToken { span: keyword }, whitespace, expression, span },
                    ),
                    ParseErrorKind::MissingWhitespaceAfterKeyOpen => MustacheItem::KeyBlockOpen(
                        KeyBlockOpen { key_open: KeyOpenToken { span: keyword }, whitespace, expression, span },
                    ),
                    _ => MustacheItem::RawMustacheTag(
                        RawMustacheTag { html_tag: HtmlTagToken { span: keyword }, whitespace, expression, span },
                    ),
                };
                Some(item)
            },
            None => None,
        }
    }

    /// Keeps the text from `item_start` up to the next `}` (or the end) as
    /// invalid syntax, and reports it.
    fn invalid_syntax(cursor: &mut Cursor, reporter: &mut CollectingErrorReporter, item_start: usize) -> (r:
        MustacheItem)
        requires
            old(cursor).wf(),
            item_start <= old(cursor).position,
            vstd::utf8::is_char_boundary(old(cursor).bytes(), item_start as int),
        ensures
            final(cursor).wf(),
            final(cursor).source == old(cursor).source,
            old(cursor).position <= final(cursor).position,
            r is InvalidSyntax,
            item_done(r, item_start as int, final(cursor).position as int, old(reporter)@, final(reporter)@),
            // the text up to the next `}` (or the end) is kept, and reported
            r matches MustacheItem::InvalidSyntax(n) && n.span == (Span { lo: item_start, hi: final(cursor).position })
                && final(reporter)@ == old(reporter)@.push(ParseError { kind: ParseErrorKind::InvalidExpression, span: n.span })
                && vstd::utf8::encode_utf8(n.text@) == old(cursor).bytes().subrange(item_start as int, n.span.hi as int),
            final(cursor).position == old(cursor).bytes().len() || old(cursor).bytes()[final(cursor).position as int] == 125,
            forall|j: int| old(cursor).position <= j < final(cursor).position ==> !occurs_at(old(cursor).bytes(), j, seq![125u8]),
    {
        let close: [u8; 1] = [125];
        assert(close@ =~= seq![125u8]);
        let stop = cursor.find_from(cursor.position(), close.as_slice());
        proof {
            if stop < cursor.bytes().len() {
                assert(cursor.bytes().subrange(stop as int, stop + 1)[0] == 125);
            }
        }
        let text = cursor.text_between(item_start, stop);
        cursor.eat_to(stop);
        let span = Span { lo: item_start, hi: stop };
        reporter.report(ParseError::new(ParseErrorKind::InvalidExpression, span));
        proof {
            assert(reporter@.subrange(0, old(reporter)@.len() as int) =~= old(reporter)@);
        }
        MustacheItem::InvalidSyntax(InvalidSyntax { text, span })
    }
}

} // verus!
