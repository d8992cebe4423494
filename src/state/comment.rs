use super::fragment::FragmentState;
use super::{comment_end_bytes, comment_end_lit, comment_start_bytes, comment_start_lit, State};
use crate::cursor::{last_char_span, occurs_at};
use crate::error::{CollectingErrorReporter, ParseError, ParseErrorKind};
use crate::nodes::{Comment, CommentText, FragmentItem};
use crate::parser::{anchored_in, transition, Parser};
use crate::span::Span;
use crate::tokens::{CommentEndToken, CommentStartToken};
use vstd::prelude::*;

verus! {

/// What a comment read from bytes `b` holds: `<!--`, then the text up to
/// the first `-->`, then that `-->`; or, where none comes, the text up to the
/// end and no closing token.
pub open spec fn comment_read(c: Comment, b: Seq<u8>) -> bool {
    &&& occurs_at(b, c.span.lo as int, comment_start_lit())
    &&& c.comment_start.span == (Span { lo: c.span.lo, hi: (c.span.lo + 4) as usize })
    &&& c.comment_text.span.lo == c.comment_start.span.hi
    &&& c.comment_text.span.hi <= b.len()
    &&& forall|j: int|
        c.comment_text.span.lo <= j < c.comment_text.span.hi ==> !occurs_at(b, j, comment_end_lit())
    &&& vstd::utf8::encode_utf8(c.comment_text.text@) == b.subrange(
        c.comment_text.span.lo as int,
        c.comment_text.span.hi as int,
    )
    &&& (c.comment_end is Some <==> c.comment_text.span.hi < b.len())
    &&& (c.comment_end matches Some(e) ==> e.span == (Span {
        lo: c.comment_text.span.hi,
        hi: (c.comment_text.span.hi + 3) as usize,
    }) && c.span.hi == e.span.hi && occurs_at(b, c.comment_text.span.hi as int, comment_end_lit()))
    &&& (c.comment_end is None ==> c.span.hi == c.comment_text.span.hi)
}

/// The state entered at a `<!--`: it reads one comment.
#[derive(Debug, Default)]
pub struct CommentState;

impl CommentState {
    pub fn next_state(self, parser: &mut Parser, reporter: &mut CollectingErrorReporter) -> (r:
        State)
        requires
            old(parser).wf(),
            occurs_at(old(parser).cursor.bytes(), old(parser).cursor.position as int, comment_start_lit()),
        ensures
            transition(*old(parser), *final(parser), old(reporter)@, final(reporter)@, 0, r),
            final(parser).nodes@.len() == old(parser).nodes@.len() + 1,
            final(parser).nodes@.last() matches FragmentItem::Comment(c) && comment_read(c, old(parser).cursor.bytes())
                && c.span.lo == old(parser).cursor.position,
            // a closed comment adds no diagnostic; an unclosed one adds one on
            // its last character
            final(parser).nodes@.last() matches FragmentItem::Comment(c) && (c.comment_end is Some
                ==> final(reporter)@ == old(reporter)@),
            final(parser).nodes@.last() matches FragmentItem::Comment(c) && (c.comment_end is None
                ==> final(reporter)@.len() == old(reporter)@.len() + 1 && final(reporter)@.drop_last() == old(reporter)@
                && final(reporter)@.last().kind == ParseErrorKind::CommentNotClosed
                && last_char_span(old(parser).cursor.bytes(), c.span.hi as int, final(reporter)@.last().span)),
    {
        let start = parser.cursor.position();
        let start_lit = comment_start_bytes();
        let end_lit = comment_end_bytes();
        let open = parser.cursor.eat_chars(start_lit.as_slice());
        let open = open.unwrap();
        let text_lo = parser.cursor.position();
        let text_hi = parser.cursor.find_from(text_lo, end_lit.as_slice());
        let text = parser.cursor.text_between(text_lo, text_hi);
        parser.cursor.eat_to(text_hi);
        let comment_end = match parser.cursor.eat_chars(end_lit.as_slice()) {
            Some(span) => Some(CommentEndToken { span }),
            None => {
                let span = parser.cursor.last_char();
                reporter.report(ParseError::new(ParseErrorKind::CommentNotClosed, span));
                None
            },
        };
        let comment = Comment {
            comment_start: CommentStartToken { span: open },
            comment_text: CommentText { text, span: crate::span::Span { lo: text_lo, hi: text_hi } },
            comment_end,
            span: parser.cursor.span_from(start),
        };
        let ghost item = FragmentItem::Comment(comment);
        proof {
            if comment.comment_end is None {
                assert(reporter@.drop_last() =~= old(reporter)@);
            }
        }
        parser.push_node(FragmentItem::Comment(comment));
        proof {
            let before = *old(parser);
            assert(parser.nodes@.drop_last() =~= before.nodes@);
            let e0 = old(reporter)@;
            let e1 = reporter@;
            assert(e1.subrange(0, e0.len() as int) =~= e0);
            assert forall|k: int| e0.len() <= k < e1.len() implies anchored_in(#[trigger] e1[k], item, before.cursor.bytes()) by {
            }
        }
        State::Fragment(FragmentState)
    }
}

} // verus!
