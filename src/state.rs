pub mod comment;
pub mod fragment;
pub mod mustache;

use crate::cursor::occurs_at;
use crate::error::CollectingErrorReporter;
use crate::parser::{transition, Parser};
use comment::CommentState;
use fragment::FragmentState;
use mustache::MustacheState;
use vstd::prelude::*;

verus! {

/// `<!--`
pub open spec fn comment_start_lit() -> Seq<u8> {
    seq![60u8, 33u8, 45u8, 45u8]
}

/// `-->`
pub open spec fn comment_end_lit() -> Seq<u8> {
    seq![45u8, 45u8, 62u8]
}

pub fn comment_start_bytes() -> (r: [u8; 4])
    ensures
        r@ == comment_start_lit(),
        crate::cursor::is_ascii_bytes(r@),
{
    let r: [u8; 4] = [60, 33, 45, 45];
    assert(r@ =~= comment_start_lit());
    r
}

pub fn comment_end_bytes() -> (r: [u8; 3])
    ensures
        r@ == comment_end_lit(),
        crate::cursor::is_ascii_bytes(r@),
{
    let r: [u8; 3] = [45, 45, 62];
    assert(r@ =~= comment_end_lit());
    r
}

/// The syntactic context the parser is in.
pub enum State {
    Fragment(FragmentState),
    Comment(CommentState),
    Mustache(MustacheState),
}

impl State {
    /// The text at `pos` is what the state expects to find there.
    pub open spec fn ready(self, b: Seq<u8>, pos: int) -> bool {
        match self {
            State::Fragment(_) => true,
            State::Comment(_) => occurs_at(b, pos, comment_start_lit()),
            State::Mustache(_) => 0 <= pos < b.len() && b[pos] == 123,
        }
    }

    /// Dispatching from the top level consumes nothing; the other states do.
    pub open spec fn rank(self) -> int {
        match self {
            State::Fragment(_) => 1,
            _ => 0,
        }
    }

    /// Runs one unit of work of the current state and yields the next state.
    pub fn next_state(self, parser: &mut Parser, reporter: &mut CollectingErrorReporter) -> (r:
        State)
        requires
            old(parser).wf(),
            old(parser).cursor.position < old(parser).cursor.bytes().len(),
            self.ready(old(parser).cursor.bytes(), old(parser).cursor.position as int),
        ensures
            transition(*old(parser), *final(parser), old(reporter)@, final(reporter)@, self.rank(), r),
    {
        match self {
            State::Fragment(s) => s.next_state(parser, reporter),
            State::Comment(s) => s.next_state(parser, reporter),
            State::Mustache(s) => s.next_state(parser, reporter),
        }
    }
}

} // verus!
