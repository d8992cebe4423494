use super::comment::CommentState;
use super::mustache::MustacheState;
use super::{comment_start_bytes, comment_start_lit, State};
use crate::cursor::{bytes_start_with, occurs_at};
use crate::error::CollectingErrorReporter;
use crate::nodes::{FragmentItem, Text};
use crate::parser::{transition, Parser};
use crate::span::Span;
use vstd::prelude::*;
use vstd::utf8::*;

verus! {

broadcast use group_utf8_lib;

/// Where a text run that goes on at `i` stops: at a `{` or at a `<!--`.
pub open spec fn text_stops_at(b: Seq<u8>, i: int) -> bool {
    b[i] == 123 || occurs_at(b, i, comment_start_lit())
}

/// The top-level state: it decides what construct begins at the cursor.
#[derive(Debug, Default)]
pub struct FragmentState;

impl FragmentState {
    pub fn next_state(self, parser: &mut Parser, reporter: &mut CollectingErrorReporter) -> (r:
        State)
        requires
            old(parser).wf(),
            old(parser).cursor.position < old(parser).cursor.bytes().len(),
        ensures
            transition(*old(parser), *final(parser), old(reporter)@, final(reporter)@, 1, r),
            // a text run ends exactly where the next construct begins
            final(parser).nodes@.len() > old(parser).nodes@.len() ==> final(parser).nodes@.last() is Text,
            // a text run holds the text of its span, and no construct begins inside it
            final(parser).nodes@.len() > old(parser).nodes@.len() ==> (final(parser).nodes@.last() matches FragmentItem::Text(t)
                && encode_utf8(t.text@) == final(parser).cursor.bytes().subrange(t.span.lo as int, t.span.hi as int)
                && forall|j: int| t.span.lo <= j < t.span.hi ==> !text_stops_at(final(parser).cursor.bytes(), j)),
            final(parser).nodes@.len() == old(parser).nodes@.len() ==> text_stops_at(
                old(parser).cursor.bytes(),
                old(parser).cursor.position as int,
            ),
            final(parser).nodes@.len() > old(parser).nodes@.len() ==> (final(parser).cursor.position
                == final(parser).cursor.bytes().len() || text_stops_at(final(parser).cursor.bytes(), final(parser).cursor.position as int)),
    {
        if parser.cursor.next_is(123) {
            return State::Mustache(MustacheState);
        }
        let start_lit = comment_start_bytes();
        if parser.cursor.starts_with(start_lit.as_slice()) {
            return State::Comment(CommentState);
        }
        let start = parser.cursor.position();
        let b = parser.cursor.source.as_bytes();
        let mut end: usize = start + 1;
        while end < b.len() && b[end] != 123 && !bytes_start_with(b, end, start_lit.as_slice())
            invariant
                b@ == parser.cursor.bytes(),
                start < end <= b@.len(),
                start_lit@ == comment_start_lit(),
                !text_stops_at(b@, start as int),
                forall|j: int| start < j < end ==> !text_stops_at(b@, j),
            decreases b@.len() - end,
        {
            end = end + 1;
        }
        proof {
            if end < b@.len() {
                if b@[end as int] != 123 {
                    assert(b@.subrange(end as int, end + 4)[0] == 60);
                }
                is_char_boundary_iff_not_is_continuation_byte(b@, end as int);
            } else {
                is_char_boundary_start_end_of_seq(b@);
            }
        }
        let text = parser.cursor.text_between(start, end);
        parser.cursor.eat_to(end);
        parser.push_node(FragmentItem::Text(Text { text, span: Span { lo: start, hi: end } }));
        proof {
            let before = *old(parser);
            assert(parser.nodes@.drop_last() =~= before.nodes@);
            assert(reporter@.subrange(0, reporter@.len() as int) =~= reporter@);
        }
        State::Fragment(FragmentState)
    }
}

} // verus!
