use crate::cursor::{last_char_span, Cursor};
use crate::error::{CollectingErrorReporter, ParseError, ParseErrorKind};
use crate::nodes::{FragmentItem, MustacheItem};
use crate::span::Span;
use crate::state::fragment::FragmentState;
use crate::state::fragment::text_stops_at;
use crate::state::comment::comment_read;
use crate::cursor::{is_ws, ws_end};
use crate::expression::{expression_part, script_read, script_result};
use crate::state::mustache::{
    argument_pos, const_keyword, debug_keyword, html_keyword, if_keyword, item_start, key_keyword,
    mustache_read,
};
use crate::tokens::MustacheCloseToken;
use crate::state::{comment_end_lit, comment_start_lit, State};
use crate::cursor::occurs_at;
use vstd::utf8::encode_utf8;
use vstd::prelude::*;

verus! {

pub fn new_span(lo: usize, hi: usize) -> (r: Span)
    ensures
        r == (Span { lo, hi }),
{
    Span { lo, hi }
}

/// What an item read from `source` (bytes `b`) holds: a text run holds its
/// text and no construct begins inside it; a comment holds its text, and is
/// closed exactly where a `-->` comes (`comment_read`); a mustache starts at
/// a `{` and holds what `mustache_read` says.
pub open spec fn read_from_source(item: FragmentItem, source: Seq<char>, b: Seq<u8>) -> bool {
    match item {
        FragmentItem::Text(t) => encode_utf8(t.text@) == b.subrange(t.span.lo as int, t.span.hi as int)
            && t.span.hi <= b.len() && (forall|j: int| t.span.lo <= j < t.span.hi ==> !text_stops_at(b, j))
            && (t.span.hi == b.len() || text_stops_at(b, t.span.hi as int)),
        FragmentItem::Comment(c) => comment_read(c, b),
        FragmentItem::Mustache(m) => mustache_read(m, source, b) && m.span.lo < b.len() && b[m.span.lo as int] == 123,
    }
}

/// Item `i` ends where item `i + 1` starts.
pub open spec fn follows(items: Seq<FragmentItem>, i: int) -> bool {
    items[i].span_of().hi == items[i + 1].span_of().lo
}

/// The spans of `items`, in order, cover `[0, end)` with no gap and no overlap.
pub open spec fn tiles(items: Seq<FragmentItem>, end: int) -> bool {
    &&& items.len() == 0 ==> end == 0
    &&& items.len() > 0 ==> items[0].span_of().lo == 0 && items.last().span_of().hi == end
    &&& forall|i: int| 0 <= i < items.len() - 1 ==> #[trigger] follows(items, i)
    &&& forall|i: int| 0 <= i < items.len() ==> (#[trigger] items[i]).span_of().wf()
}

/// A diagnostic of a tag's argument lies on that argument, after the keyword;
/// any other diagnostic of the item lies within `[lo, hi]` and is one that
/// its kind of tag reports (or the item is the placeholder for an unreadable
/// one).
pub open spec fn item_diagnostic(e: ParseError, item: MustacheItem, lo: int, hi: int) -> bool {
    match e.kind {
        ParseErrorKind::InvalidConstArgs => match item {
            MustacheItem::ConstTag(c) => c.expression.span == e.span && c.const_tag.span.hi
                <= e.span.lo,
            _ => false,
        },
        ParseErrorKind::InvalidDebugArgs => match item {
            MustacheItem::DebugTag(d) => d.debug_tag.span.hi <= e.span.lo && exists|j: int|
                0 <= j < d.identifiers@.len() && (#[trigger] d.identifiers@[j]).span == e.span,
            _ => false,
        },
        ParseErrorKind::MustacheNotClosed => false,
        ParseErrorKind::CommentNotClosed => false,
        _ => e.span.wf() && lo <= e.span.lo && e.span.hi <= hi && (item is InvalidSyntax || match e.kind {
            ParseErrorKind::MissingWhitespaceAfterConstTag => item is ConstTag,
            ParseErrorKind::MissingWhitespaceAfterDebugTag => item is DebugTag,
            ParseErrorKind::MissingWhitespaceAfterHtmlTag => item is RawMustacheTag,
            ParseErrorKind::MissingWhitespaceAfterIfOpen => item is IfBlockOpen,
            ParseErrorKind::MissingWhitespaceAfterKeyOpen => item is KeyBlockOpen,
            _ => false,
        }),
    }
}

/// The diagnostic `e` belongs to the top-level item `item` of source `b`: an
/// unclosed construct is reported on its last character, a tag's argument
/// on the argument itself, anything else within the item.
pub open spec fn anchored_in(e: ParseError, item: FragmentItem, b: Seq<u8>) -> bool {
    match e.kind {
        ParseErrorKind::MustacheNotClosed => match item {
            FragmentItem::Mustache(m) => m.mustache_close is None && last_char_span(
                b,
                m.span.hi as int,
                e.span,
            ),
            _ => false,
        },
        ParseErrorKind::CommentNotClosed => match item {
            FragmentItem::Comment(c) => c.comment_end is None && last_char_span(
                b,
                c.span.hi as int,
                e.span,
            ),
            _ => false,
        },
        ParseErrorKind::InvalidConstArgs | ParseErrorKind::InvalidDebugArgs => match item {
            FragmentItem::Mustache(m) => item_diagnostic(
                e,
                m.mustache_item,
                m.span.lo as int,
                m.span.hi as int,
            ),
            _ => false,
        },
        _ => match item {
            FragmentItem::Mustache(m) => item_diagnostic(
                e,
                m.mustache_item,
                m.span.lo as int,
                m.span.hi as int,
            ),
            _ => false,
        },
    }
}

/// `e1` extends `e0`, and each diagnostic added belongs to `item`.
pub open spec fn added_for(
    e0: Seq<ParseError>,
    e1: Seq<ParseError>,
    item: FragmentItem,
    b: Seq<u8>,
) -> bool {
    &&& e0.len() <= e1.len()
    &&& e1.subrange(0, e0.len() as int) == e0
    &&& forall|k: int| e0.len() <= k < e1.len() ==> anchored_in(#[trigger] e1[k], item, b)
}

/// One step of the parse: nothing is added, or one item is appended together
/// with its diagnostics.
pub open spec fn step_ok(
    n0: Seq<FragmentItem>,
    n1: Seq<FragmentItem>,
    e0: Seq<ParseError>,
    e1: Seq<ParseError>,
    b: Seq<u8>,
) -> bool {
    ||| n1 == n0 && e1 == e0
    ||| n1.len() == n0.len() + 1 && n1.drop_last() == n0 && added_for(e0, e1, n1.last(), b)
}

/// What every state's transition guarantees: the parser stays well formed,
/// the next state is ready to run, the parse makes progress, and the step is
/// one of `step_ok`.
pub open spec fn transition<'a>(
    before: Parser<'a>,
    after: Parser<'a>,
    e0: Seq<ParseError>,
    e1: Seq<ParseError>,
    rank0: int,
    next: State,
) -> bool {
    &&& after.wf()
    &&& after.cursor.source == before.cursor.source
    &&& before.cursor.position <= after.cursor.position
    &&& next.ready(after.cursor.bytes(), after.cursor.position as int)
    &&& 2 * (after.cursor.bytes().len() - after.cursor.position) + next.rank() < 2 * (
    before.cursor.bytes().len() - before.cursor.position) + rank0
    &&& step_ok(before.nodes@, after.nodes@, e0, e1, before.cursor.bytes())
}

/// Every diagnostic from index `from` on belongs to one of `items`.
pub open spec fn all_anchored(
    errors: Seq<ParseError>,
    from: int,
    items: Seq<FragmentItem>,
    b: Seq<u8>,
) -> bool {
    forall|k: int|
        from <= k < errors.len() ==> exists|i: int|
            0 <= i < items.len() && anchored_in(#[trigger] errors[k], #[trigger] items[i], b)
}

/// Every unclosed mustache or comment from index `from` on is reported on
/// the last character of its construct: the diagnostic ends where the
/// construct ends, not at the end of the input.
pub open spec fn unclosed_reported_at_end(
    errors: Seq<ParseError>,
    from: int,
    items: Seq<FragmentItem>,
) -> bool {
    forall|k: int|
        from <= k < errors.len() && ((#[trigger] errors[k]).kind is MustacheNotClosed
            || errors[k].kind is CommentNotClosed) ==> errors[k].span.lo < errors[k].span.hi
            && exists|i: int|
            0 <= i < items.len() && (#[trigger] items[i]).span_of().hi == errors[k].span.hi
                && match items[i] {
                FragmentItem::Mustache(m) => errors[k].kind is MustacheNotClosed
                    && m.mustache_close is None,
                FragmentItem::Comment(c) => errors[k].kind is CommentNotClosed
                    && c.comment_end is None,
                _ => false,
            }
}

/// Every diagnostic of a tag's argument from index `from` on lies exactly on
/// that argument, after the tag's keyword.
pub open spec fn arguments_reported_on_argument(
    errors: Seq<ParseError>,
    from: int,
    items: Seq<FragmentItem>,
) -> bool {
    forall|k: int|
        from <= k < errors.len() && ((#[trigger] errors[k]).kind is InvalidConstArgs
            || errors[k].kind is InvalidDebugArgs) ==> exists|i: int|
            0 <= i < items.len() && match #[trigger] items[i] {
                FragmentItem::Mustache(m) => match m.mustache_item {
                    MustacheItem::ConstTag(c) => errors[k].kind is InvalidConstArgs
                        && c.expression.span == errors[k].span && c.const_tag.span.hi
                        <= errors[k].span.lo,
                    MustacheItem::DebugTag(d) => errors[k].kind is InvalidDebugArgs
                        && d.debug_tag.span.hi <= errors[k].span.lo && exists|j: int|
                        0 <= j < d.identifiers@.len() && (#[trigger] d.identifiers@[j]).span
                            == errors[k].span,
                    _ => false,
                },
                _ => false,
            }
}

pub proof fn lemma_anchored_laws(
    errors: Seq<ParseError>,
    from: int,
    items: Seq<FragmentItem>,
    b: Seq<u8>,
)
    requires
        all_anchored(errors, from, items, b),
    ensures
        unclosed_reported_at_end(errors, from, items),
        arguments_reported_on_argument(errors, from, items),
{
    assert forall|k: int|
        from <= k < errors.len() && ((#[trigger] errors[k]).kind is MustacheNotClosed
            || errors[k].kind is CommentNotClosed) implies errors[k].span.lo < errors[k].span.hi
        && exists|i: int|
        0 <= i < items.len() && (#[trigger] items[i]).span_of().hi == errors[k].span.hi
            && match items[i] {
            FragmentItem::Mustache(m) => errors[k].kind is MustacheNotClosed
                && m.mustache_close is None,
            FragmentItem::Comment(c) => errors[k].kind is CommentNotClosed
                && c.comment_end is None,
            _ => false,
        } by {
        let i = choose|i: int| 0 <= i < items.len() && anchored_in(#[trigger] errors[k], #[trigger] items[i], b);
        assert(anchored_in(errors[k], items[i], b));
    }
    assert forall|k: int|
        from <= k < errors.len() && ((#[trigger] errors[k]).kind is InvalidConstArgs
            || errors[k].kind is InvalidDebugArgs) implies exists|i: int|
        0 <= i < items.len() && match #[trigger] items[i] {
            FragmentItem::Mustache(m) => match m.mustache_item {
                MustacheItem::ConstTag(c) => errors[k].kind is InvalidConstArgs
                    && c.expression.span == errors[k].span && c.const_tag.span.hi
                    <= errors[k].span.lo,
                MustacheItem::DebugTag(d) => errors[k].kind is InvalidDebugArgs
                    && d.debug_tag.span.hi <= errors[k].span.lo && exists|j: int|
                    0 <= j < d.identifiers@.len() && (#[trigger] d.identifiers@[j]).span
                        == errors[k].span,
                _ => false,
            },
            _ => false,
        } by {
        let i = choose|i: int| 0 <= i < items.len() && anchored_in(#[trigger] errors[k], #[trigger] items[i], b);
        assert(anchored_in(errors[k], items[i], b));
    }
}

/// The source text that the items' spans stand for, in order.
pub open spec fn spans_text(items: Seq<FragmentItem>, b: Seq<u8>) -> Seq<u8>
    decreases items.len(),
{
    if items.len() == 0 {
        Seq::empty()
    } else {
        spans_text(items.drop_last(), b) + b.subrange(
            items.last().span_of().lo as int,
            items.last().span_of().hi as int,
        )
    }
}

/// Items that tile the source reproduce it: the text of their spans, put
/// together in order, is the source byte for byte.
pub proof fn lemma_spans_reproduce_source(items: Seq<FragmentItem>, b: Seq<u8>)
    requires
        tiles(items, b.len() as int),
    ensures
        spans_text(items, b) == b,
{
    lemma_spans_text_prefix(items, b, b.len() as int);
    assert(b.subrange(0, b.len() as int) =~= b);
}

proof fn lemma_spans_text_prefix(items: Seq<FragmentItem>, b: Seq<u8>, end: int)
    requires
        tiles(items, end),
        end <= b.len(),
    ensures
        spans_text(items, b) == b.subrange(0, end),
    decreases items.len(),
{
    if items.len() == 0 {
        assert(b.subrange(0, 0) =~= Seq::<u8>::empty());
    } else {
        let rest = items.drop_last();
        let last = items.last();
        let lo = last.span_of().lo as int;
        assert(last.span_of().wf());
        if rest.len() > 0 {
            assert(follows(items, rest.len() - 1));
            assert forall|i: int| 0 <= i < rest.len() - 1 implies #[trigger] follows(rest, i) by {
                assert(follows(items, i));
            }
            assert forall|i: int| 0 <= i < rest.len() implies (#[trigger] rest[i]).span_of().wf() by {
                assert(items[i].span_of().wf());
            }
        }
        lemma_spans_text_prefix(rest, b, lo);
        assert(b.subrange(0, lo) + b.subrange(lo, end) =~= b.subrange(0, end));
    }
}

pub proof fn lemma_tiles_push(items: Seq<FragmentItem>, item: FragmentItem)
    requires
        tiles(items, item.span_of().lo as int),
        item.span_of().wf(),
    ensures
        tiles(items.push(item), item.span_of().hi as int),
{
    let n = items.push(item);
    assert forall|i: int| 0 <= i < n.len() - 1 implies #[trigger] follows(n, i) by {
        if i < items.len() - 1 {
            assert(follows(items, i));
        }
    }
    assert forall|i: int| 0 <= i < n.len() implies (#[trigger] n[i]).span_of().wf() by {
        if i < items.len() {
            assert(items[i].span_of().wf());
        }
    }
}

/// A text with no `{` and no `<!--` is read as one text run that holds it
/// all, and no diagnostic belongs to it.
pub proof fn lemma_plain_text_is_one_run(
    items: Seq<FragmentItem>,
    errors: Seq<ParseError>,
    from: int,
    source: Seq<char>,
    b: Seq<u8>,
)
    requires
        b.len() > 0,
        forall|j: int| 0 <= j < b.len() ==> !text_stops_at(b, j),
        tiles(items, b.len() as int),
        forall|i: int| 0 <= i < items.len() ==> (#[trigger] items[i]).wf(),
        forall|i: int| 0 <= i < items.len() ==> read_from_source(#[trigger] items[i], source, b),
        all_anchored(errors, from, items, b),
        0 <= from <= errors.len(),
    ensures
        items.len() == 1,
        items[0] matches FragmentItem::Text(t) && t.span == (Span { lo: 0, hi: b.len() as usize })
            && encode_utf8(t.text@) == b,
        errors.len() == from,
{
    assert(read_from_source(items[0], source, b));
    assert(text_stops_at(b, 0) || items[0] is Text);
    if items.len() > 1 {
        assert(follows(items, 0));
        assert(read_from_source(items[1], source, b));
        assert(items[1].span_of().wf());
        assert(items[1].wf());
    }
    assert(b.subrange(0, b.len() as int) =~= b);
    if errors.len() > from {
        let i = choose|i: int| 0 <= i < items.len() && anchored_in(#[trigger] errors[from], #[trigger] items[i], b);
        assert(i == 0);
    }
}

/// A text that is one closed comment, `<!--` at the start and the first
/// `-->` at the end, is read as that one comment, and no diagnostic belongs
/// to it.
pub proof fn lemma_lone_comment(
    items: Seq<FragmentItem>,
    errors: Seq<ParseError>,
    from: int,
    source: Seq<char>,
    b: Seq<u8>,
)
    requires
        b.len() >= 7,
        occurs_at(b, 0, comment_start_lit()),
        occurs_at(b, b.len() - 3, comment_end_lit()),
        forall|j: int| 4 <= j < b.len() - 3 ==> !occurs_at(b, j, comment_end_lit()),
        tiles(items, b.len() as int),
        forall|i: int| 0 <= i < items.len() ==> (#[trigger] items[i]).wf(),
        forall|i: int| 0 <= i < items.len() ==> read_from_source(#[trigger] items[i], source, b),
        all_anchored(errors, from, items, b),
        0 <= from <= errors.len(),
    ensures
        items.len() == 1,
        items[0] matches FragmentItem::Comment(c) && c.span == (Span { lo: 0, hi: b.len() as usize })
            && c.comment_text.span == (Span { lo: 4, hi: (b.len() - 3) as usize })
            && encode_utf8(c.comment_text.text@) == b.subrange(4, b.len() - 3)
            && c.comment_end is Some,
        errors.len() == from,
{
    assert(read_from_source(items[0], source, b));
    assert(b.subrange(0, 4)[0] == 60);
    assert(text_stops_at(b, 0));
    let c = items[0]->Comment_0;
    let hi = c.comment_text.span.hi as int;
    if hi < b.len() - 3 {
        assert(occurs_at(b, hi, comment_end_lit()));
    }
    if hi > b.len() - 3 {
        assert(!occurs_at(b, b.len() - 3, comment_end_lit()));
    }
    if items.len() > 1 {
        assert(follows(items, 0));
        assert(read_from_source(items[1], source, b));
        assert(items[1].wf());
    }
    if errors.len() > from {
        let i = choose|i: int| 0 <= i < items.len() && anchored_in(#[trigger] errors[from], #[trigger] items[i], b);
        assert(i == 0);
    }
}

/// A text `{e}` whose inside starts with no whitespace and no tag keyword,
/// where the script parser reads one identifier or expression `e` that ends
/// just before the closing `}` at the end, is read as one mustache holding
/// that expression, with no whitespace tokens and with its closing brace.
pub proof fn lemma_lone_bare_mustache(
    items: Seq<FragmentItem>,
    errors: Seq<ParseError>,
    from: int,
    source: Seq<char>,
    b: Seq<u8>,
)
    requires
        all_anchored(errors, from, items, b),
        0 <= from <= errors.len(),
        b.len() >= 3,
        b[0] == 123,
        !is_ws(b[1]),
        !occurs_at(b, 1, const_keyword()),
        !occurs_at(b, 1, debug_keyword()),
        !occurs_at(b, 1, html_keyword()),
        !occurs_at(b, 1, if_keyword()),
        !occurs_at(b, 1, key_keyword()),
        script_read(source, b, 1),
        script_result(source, 1).len() == 1,
        script_result(source, 1)[0].3 == b.len() - 1,
        b[b.len() - 1] == 125,
        tiles(items, b.len() as int),
        forall|i: int| 0 <= i < items.len() ==> (#[trigger] items[i]).wf(),
        forall|i: int| 0 <= i < items.len() ==> read_from_source(#[trigger] items[i], source, b),
    ensures
        items.len() == 1,
        items[0] matches FragmentItem::Mustache(m) && m.span == (Span { lo: 0, hi: b.len() as usize })
            && m.mustache_open.span == (Span { lo: 0, hi: 1 }) && m.leading_whitespace is None
            && m.trailing_whitespace is None && m.mustache_close == Some(
            MustacheCloseToken { span: Span { lo: (b.len() - 1) as usize, hi: b.len() as usize } },
        ) && m.mustache_item is Expression,
        items[0] matches FragmentItem::Mustache(m) && expression_part(m.mustache_item->Expression_0)
            == script_result(source, 1)[0],
        errors.len() == from,
{
    assert(read_from_source(items[0], source, b));
    assert(text_stops_at(b, 0));
    if items[0] is Comment {
        assert(b.subrange(0, 4)[0] == 60);
    }
    let m = items[0]->Mustache_0;
    assert(ws_end(b, 1) == 1);
    assert(item_start(m) == 1);
    assert(argument_pos(b, 1) == 1);
    let hi = m.mustache_item.span_of().hi as int;
    assert(hi == b.len() - 1);
    assert(ws_end(b, hi) == hi);
    if items.len() > 1 {
        assert(follows(items, 0));
        assert(read_from_source(items[1], source, b));
        assert(items[1].wf());
    }
    if errors.len() > from {
        let i = choose|i: int| 0 <= i < items.len() && anchored_in(#[trigger] errors[from], #[trigger] items[i], b);
        assert(i == 0);
    }
}

/// The state-machine driver: the cursor and the items read so far.
pub struct Parser<'a> {
    pub cursor: Cursor<'a>,
    pub nodes: Vec<FragmentItem>,
}

impl<'a> Parser<'a> {
    /// The items read so far tile the text up to the cursor, and each is well formed.
    pub open spec fn wf(&self) -> bool {
        &&& self.cursor.wf()
        &&& tiles(self.nodes@, self.cursor.position as int)
        &&& forall|i: int| 0 <= i < self.nodes@.len() ==> (#[trigger] self.nodes@[i]).wf()
        &&& forall|i: int|
            0 <= i < self.nodes@.len() ==> read_from_source(
                #[trigger] self.nodes@[i],
                self.cursor.source@,
                self.cursor.bytes(),
            )
    }

    pub fn new(source: &'a str) -> (r: Parser<'a>)
        ensures
            r.wf(),
            r.cursor.source == source,
            r.cursor.position == 0,
            r.nodes@.len() == 0,
    {
        Parser { cursor: Cursor::new(source), nodes: Vec::new() }
    }

    /// Appends an item that runs from where the previous one ended to the cursor.
    pub fn push_node(&mut self, item: FragmentItem)
        requires
            old(self).cursor.wf(),
            tiles(old(self).nodes@, item.span_of().lo as int),
            forall|i: int| 0 <= i < old(self).nodes@.len() ==> (#[trigger] old(self).nodes@[i]).wf(),
            forall|i: int|
                0 <= i < old(self).nodes@.len() ==> read_from_source(
                    #[trigger] old(self).nodes@[i],
                    old(self).cursor.source@,
                    old(self).cursor.bytes(),
                ),
            read_from_source(item, old(self).cursor.source@, old(self).cursor.bytes()),
            item.wf(),
            item.span_of().wf(),
            item.span_of().hi == old(self).cursor.position,
        ensures
            final(self).wf(),
            final(self).cursor == old(self).cursor,
            final(self).nodes@ == old(self).nodes@.push(item),
    {
        proof {
            lemma_tiles_push(self.nodes@, item);
        }
        self.nodes.push(item);
    }

    /// Reads the whole text: the top-level items in source order; each
    /// diagnostic is reported, in the order found, to `reporter`.
    pub fn parse(self, reporter: &mut CollectingErrorReporter) -> (r: Vec<FragmentItem>)
        requires
            self.wf(),
            self.cursor.position == 0,
        ensures
            tiles(r@, self.cursor.bytes().len() as int),
            forall|i: int| 0 <= i < r@.len() ==> (#[trigger] r@[i]).wf(),
            forall|i: int|
                0 <= i < r@.len() ==> read_from_source(#[trigger] r@[i], self.cursor.source@, self.cursor.bytes()),
            old(reporter)@.len() <= final(reporter)@.len(),
            final(reporter)@.subrange(0, old(reporter)@.len() as int) == old(reporter)@,
            all_anchored(final(reporter)@, old(reporter)@.len() as int, r@, self.cursor.bytes()),
            unclosed_reported_at_end(final(reporter)@, old(reporter)@.len() as int, r@),
            arguments_reported_on_argument(final(reporter)@, old(reporter)@.len() as int, r@),
    {
        let ghost b = self.cursor.bytes();
        let ghost e0 = reporter@;
        let ghost source = self.cursor.source;
        let mut parser = self;
        let mut state = State::Fragment(FragmentState);
        while !parser.cursor.is_at_end()
            invariant
                parser.wf(),
                parser.cursor.source == source,
                parser.cursor.bytes() == b,
                state.ready(b, parser.cursor.position as int),
                e0.len() <= reporter@.len(),
                reporter@.subrange(0, e0.len() as int) == e0,
                all_anchored(reporter@, e0.len() as int, parser.nodes@, b),
            decreases 2 * (b.len() - parser.cursor.position) + state.rank(),
        {
            let ghost before = parser;
            let ghost r0 = reporter@;
            state = state.next_state(&mut parser, reporter);
            proof {
                let n0 = before.nodes@;
                let n1 = parser.nodes@;
                let r1 = reporter@;
                if n1 == n0 && r1 == r0 {
                } else {
                    assert(r1.subrange(0, r0.len() as int) == r0);
                    assert(r1.subrange(0, e0.len() as int) =~= e0) by {
                        assert(r1.subrange(0, e0.len() as int) =~= r1.subrange(
                            0,
                            r0.len() as int,
                        ).subrange(0, e0.len() as int));
                    }
                    assert forall|k: int| e0.len() <= k < r1.len() implies exists|i: int|
                        0 <= i < n1.len() && anchored_in(#[trigger] r1[k], #[trigger] n1[i], b) by {
                        if k < r0.len() {
                            assert(r1[k] == r1.subrange(0, r0.len() as int)[k]);
                            let i = choose|i: int|
                                0 <= i < n0.len() && anchored_in(#[trigger] r0[k], #[trigger] n0[i], b);
                            assert(n1[i] == n1.drop_last()[i]);
                        } else {
                            assert(anchored_in(r1[k], n1[n1.len() - 1], b));
                        }
                    }
                }
            }
        }
        proof {
            lemma_anchored_laws(reporter@, e0.len() as int, parser.nodes@, b);
        }
        parser.nodes
    }
}

} // verus!
