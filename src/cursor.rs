use crate::error::{CollectingErrorReporter, ParseError, ParseErrorKind};
use crate::span::Span;
use crate::tokens::WhitespaceToken;
use vstd::prelude::*;
use vstd::utf8::*;
use vstd::string::StringSliceAdditionalSpecFns;

verus! {

broadcast use group_utf8_lib;

/// The whitespace that separates the parts of a tag: space, tab, line feed,
/// form feed and carriage return.
pub open spec fn is_ws(b: u8) -> bool {
    b == 32 || b == 9 || b == 10 || b == 12 || b == 13
}

/// The first offset from `p` on that holds no whitespace, or the end.
pub open spec fn ws_end(b: Seq<u8>, p: int) -> int
    decreases b.len() - p,
{
    if 0 <= p < b.len() && is_ws(b[p]) {
        ws_end(b, p + 1)
    } else {
        p
    }
}

/// A run of whitespace from `p` that stops at `q` ends at `ws_end(b, p)`.
pub proof fn lemma_ws_end(b: Seq<u8>, p: int, q: int)
    requires
        0 <= p <= q <= b.len(),
        forall|j: int| p <= j < q ==> is_ws(#[trigger] b[j]),
        q == b.len() || !is_ws(b[q]),
    ensures
        ws_end(b, p) == q,
    decreases q - p,
{
    if p < q {
        lemma_ws_end(b, p + 1, q);
    }
}

/// Every byte of `lit` is ASCII.
pub open spec fn is_ascii_bytes(lit: Seq<u8>) -> bool {
    forall|i: int| 0 <= i < lit.len() ==> #[trigger] lit[i] <= 0x7f
}

/// `lit` occurs in `b` at `pos`.
pub open spec fn occurs_at(b: Seq<u8>, pos: int, lit: Seq<u8>) -> bool {
    0 <= pos && pos + lit.len() <= b.len() && b.subrange(pos, pos + lit.len()) =~= lit
}

/// The span of the last character that ends at `end`: the bytes from `lo` to
/// `end` are one character.
pub open spec fn last_char_span(b: Seq<u8>, end: int, s: Span) -> bool {
    s.hi == end && s.lo < s.hi && is_char_boundary(b, s.lo as int) && forall|j: int|
        s.lo < j < s.hi ==> is_continuation_byte(#[trigger] b[j])
}

/// Stepping over an ASCII byte from a character boundary lands on a character boundary.
pub proof fn lemma_ascii_step(b: Seq<u8>, p: int)
    requires
        valid_utf8(b),
        is_char_boundary(b, p),
        0 <= p < b.len(),
        b[p] <= 0x7f,
    ensures
        is_char_boundary(b, p + 1),
{
    let s = b.subrange(p, b.len() as int);
    valid_utf8_split(b, p);
    if p + 1 == b.len() {
        is_char_boundary_start_end_of_seq(b);
    } else {
        assert(s[0] == b[p]);
        reveal_with_fuel(is_char_boundary, 2);
        assert(is_char_boundary(s, 1));
        is_char_boundary_iff_not_is_continuation_byte(s, 1);
        assert(s[1] == b[p + 1]);
        is_char_boundary_iff_not_is_continuation_byte(b, p + 1);
    }
}

/// A position in the source text, always on a character boundary.
pub struct Cursor<'a> {
    pub source: &'a str,
    pub position: usize,
}

impl<'a> Cursor<'a> {
    /// The source text as UTF-8 bytes.
    pub open spec fn bytes(&self) -> Seq<u8> {
        self.source.spec_bytes()
    }

    pub open spec fn wf(&self) -> bool {
        self.bytes().len() <= usize::MAX && self.position <= self.bytes().len() && is_char_boundary(
            self.bytes(),
            self.position as int,
        )
    }

    pub fn new(source: &'a str) -> (r: Cursor<'a>)
        ensures
            r.wf(),
            r.source == source,
            r.position == 0,
    {
        let _ = source.as_bytes().len();
        Cursor { source, position: 0 }
    }

    pub fn position(&self) -> (r: usize)
        ensures
            r == self.position,
    {
        self.position
    }

    pub fn len(&self) -> (r: usize)
        ensures
            r == self.bytes().len(),
    {
        self.source.as_bytes().len()
    }

    pub fn is_at_end(&self) -> (r: bool)
        requires
            self.wf(),
        ensures
            r == (self.position == self.bytes().len()),
    {
        self.position == self.source.as_bytes().len()
    }

    /// Whether the next byte is `c`.
    pub fn next_is(&self, c: u8) -> (r: bool)
        ensures
            r == (self.position < self.bytes().len() && self.bytes()[self.position as int] == c),
    {
        let b = self.source.as_bytes();
        self.position < b.len() && b[self.position] == c
    }

    /// Whether `lit` comes next.
    pub fn starts_with(&self, lit: &[u8]) -> (r: bool)
        ensures
            r == occurs_at(self.bytes(), self.position as int, lit@),
    {
        bytes_start_with(self.source.as_bytes(), self.position, lit)
    }

    /// The first offset from `from` on where `lit` occurs, or the end of the
    /// text where it does not occur.
    pub fn find_from(&self, from: usize, lit: &[u8]) -> (r: usize)
        requires
            self.wf(),
            from <= self.bytes().len(),
            lit@.len() > 0,
            lit@[0] <= 0x7f,
        ensures
            from <= r <= self.bytes().len(),
            r == self.bytes().len() || occurs_at(self.bytes(), r as int, lit@),
            forall|j: int| from <= j < r ==> !occurs_at(self.bytes(), j, lit@),
            is_char_boundary(self.bytes(), r as int),
    {
        let b = self.source.as_bytes();
        let mut i: usize = from;
        while i < b.len() && !bytes_start_with(b, i, lit)
            invariant
                b@ == self.bytes(),
                from <= i <= b@.len(),
                forall|j: int| from <= j < i ==> !occurs_at(b@, j, lit@),
            decreases b@.len() - i,
        {
            i = i + 1;
        }
        proof {
            if i < b@.len() {
                assert(b@.subrange(i as int, i + lit@.len())[0] == lit@[0]);
                is_char_boundary_iff_not_is_continuation_byte(b@, i as int);
            } else {
                is_char_boundary_start_end_of_seq(b@);
            }
        }
        i
    }

    /// Steps over `n` ASCII bytes.
    fn advance_ascii(&mut self, n: usize)
        requires
            old(self).wf(),
            old(self).position + n <= old(self).bytes().len(),
            forall|j: int|
                old(self).position <= j < old(self).position + n ==> #[trigger] old(self).bytes()[j] <= 0x7f,
        ensures
            final(self).wf(),
            final(self).source == old(self).source,
            final(self).position == old(self).position + n,
    {
        let target = self.position + n;
        while self.position < target
            invariant
                self.wf(),
                self.source == old(self).source,
                old(self).position <= self.position <= target,
                target <= self.bytes().len(),
                forall|j: int| old(self).position <= j < target ==> #[trigger] self.bytes()[j] <= 0x7f,
            decreases target - self.position,
        {
            proof {
                lemma_ascii_step(self.bytes(), self.position as int);
            }
            self.position = self.position + 1;
        }
    }

    /// Consumes the ASCII character `c` if it comes next.
    pub fn eat_char(&mut self, c: u8) -> (r: Option<Span>)
        requires
            old(self).wf(),
            c <= 0x7f,
        ensures
            final(self).wf(),
            final(self).source == old(self).source,
            old(self).position < old(self).bytes().len() && old(self).bytes()[old(self).position as int] == c ==> r == Some(Span { lo: old(self).position, hi: (old(self).position + 1) as usize })
                && final(self).position == old(self).position + 1,
            !(old(self).position < old(self).bytes().len() && old(self).bytes()[old(self).position as int] == c) ==> r is None && final(self).position == old(self).position,
    {
        if self.next_is(c) {
            let lo = self.position;
            self.advance_ascii(1);
            Some(Span { lo, hi: self.position })
        } else {
            None
        }
    }

    /// Consumes the ASCII text `lit` if it comes next.
    pub fn eat_chars(&mut self, lit: &[u8]) -> (r: Option<Span>)
        requires
            old(self).wf(),
            is_ascii_bytes(lit@),
        ensures
            final(self).wf(),
            final(self).source == old(self).source,
            occurs_at(old(self).bytes(), old(self).position as int, lit@) ==> r == Some(
                Span { lo: old(self).position, hi: (old(self).position + lit@.len()) as usize },
            ) && final(self).position == old(self).position + lit@.len(),
            !occurs_at(old(self).bytes(), old(self).position as int, lit@) ==> r is None
                && final(self).position == old(self).position,
    {
        if self.starts_with(lit) {
            let lo = self.position;
            proof {
                assert forall|j: int|
                    self.position <= j < self.position + lit@.len() implies #[trigger] self.bytes()[j]
                    <= 0x7f by {
                    assert(self.bytes().subrange(
                        self.position as int,
                        self.position + lit@.len(),
                    )[j - self.position] == lit@[j - self.position]);
                }
            }
            self.advance_ascii(lit.len());
            Some(Span { lo, hi: self.position })
        } else {
            None
        }
    }

    /// Consumes all whitespace that comes next; a token only where there was some.
    pub fn allow_whitespace(&mut self) -> (r: Option<WhitespaceToken>)
        requires
            old(self).wf(),
        ensures
            final(self).wf(),
            final(self).source == old(self).source,
            old(self).position <= final(self).position,
            forall|j: int|
                old(self).position <= j < final(self).position ==> is_ws(#[trigger] old(self).bytes()[j]),
            final(self).position == old(self).bytes().len() || !is_ws(
                old(self).bytes()[final(self).position as int],
            ),
            r is Some <==> old(self).position < final(self).position,
            r is Some ==> r->Some_0.span == (Span { lo: old(self).position, hi: final(self).position }),
            final(self).position == ws_end(old(self).bytes(), old(self).position as int),
    {
        let lo = self.position;
        let b = self.source.as_bytes();
        while self.position < b.len() && is_ws_byte(b[self.position])
            invariant
                self.wf(),
                self.source == old(self).source,
                b@ == self.bytes(),
                lo == old(self).position,
                lo <= self.position,
                forall|j: int| lo <= j < self.position ==> is_ws(#[trigger] b@[j]),
            decreases b@.len() - self.position,
        {
            proof {
                lemma_ascii_step(self.bytes(), self.position as int);
            }
            self.position = self.position + 1;
        }
        proof {
            lemma_ws_end(b@, lo as int, self.position as int);
        }
        if self.position > lo {
            Some(WhitespaceToken { span: Span { lo, hi: self.position } })
        } else {
            None
        }
    }

    /// As `allow_whitespace`, but where there is none, reports `kind` at the
    /// current position.
    pub fn require_whitespace(
        &mut self,
        kind: ParseErrorKind,
        reporter: &mut CollectingErrorReporter,
    ) -> (r: Option<WhitespaceToken>)
        requires
            old(self).wf(),
        ensures
            final(self).wf(),
            final(self).source == old(self).source,
            old(self).position <= final(self).position,
            r is Some <==> old(self).position < final(self).position,
            r is Some ==> r->Some_0.span == (Span { lo: old(self).position, hi: final(self).position }),
            r is Some ==> final(reporter)@ == old(reporter)@,
            r is None ==> final(reporter)@ == old(reporter)@.push(
                ParseError { kind, span: Span { lo: old(self).position, hi: old(self).position } },
            ),
            final(self).position == ws_end(old(self).bytes(), old(self).position as int),
    {
        let r = self.allow_whitespace();
        if r.is_none() {
            let at = self.position;
            reporter.report(ParseError::new(kind, Span { lo: at, hi: at }));
        }
        r
    }

    /// The span of the character that ends at the current position.
    pub fn last_char(&self) -> (r: Span)
        requires
            self.wf(),
            self.position > 0,
        ensures
            last_char_span(self.bytes(), self.position as int, r),
    {
        let b = self.source.as_bytes();
        let mut lo: usize = self.position - 1;
        while lo > 0 && is_continuation(b[lo])
            invariant
                b@ == self.bytes(),
                self.wf(),
                lo < self.position,
                forall|j: int| lo < j < self.position ==> is_continuation_byte(#[trigger] b@[j]),
            decreases lo,
        {
            lo = lo - 1;
        }
        proof {
            if lo > 0 {
                is_char_boundary_iff_not_is_continuation_byte(b@, lo as int);
            } else {
                is_char_boundary_start_end_of_seq(b@);
            }
        }
        Span { lo, hi: self.position }
    }

    /// Moves forward to `offset`.
    pub fn eat_to(&mut self, offset: usize)
        requires
            old(self).wf(),
            old(self).position <= offset <= old(self).bytes().len(),
            is_char_boundary(old(self).bytes(), offset as int),
        ensures
            final(self).wf(),
            final(self).source == old(self).source,
            final(self).position == offset,
    {
        self.position = offset;
    }

    /// The span from `start` to the current position.
    pub fn span_from(&self, start: usize) -> (r: Span)
        requires
            start <= self.position,
        ensures
            r == (Span { lo: start, hi: self.position }),
    {
        Span { lo: start, hi: self.position }
    }

    /// The text of the source between two character boundaries.
    pub fn text_between(&self, lo: usize, hi: usize) -> (r: String)
        requires
            lo <= hi <= self.bytes().len(),
            is_char_boundary(self.bytes(), lo as int),
            is_char_boundary(self.bytes(), hi as int),
        ensures
            encode_utf8(r@) == self.bytes().subrange(lo as int, hi as int),
    {
        let (_, tail) = self.source.split_at(lo);
        proof {
            let b = self.bytes();
            valid_utf8_split(b, lo as int);
            let t = b.subrange(lo as int, b.len() as int);
            assert(tail.spec_bytes() =~= t);
            assert(t.subrange(0, hi - lo) =~= b.subrange(lo as int, hi as int));
            if hi < b.len() {
                is_char_boundary_iff_not_is_continuation_byte(b, hi as int);
                if hi - lo < t.len() {
                    assert(t[hi - lo] == b[hi as int]);
                    is_char_boundary_iff_not_is_continuation_byte(t, hi - lo);
                }
            } else {
                is_char_boundary_start_end_of_seq(t);
            }
        }
        let (piece, _) = tail.split_at(hi - lo);
        let r = piece.to_string();
        proof {
            vstd::string::to_string_from_display_ensures_for_str(piece, r);
        }
        r
    }
}

/// Whether `lit` occurs in `b` at `at`.
pub fn bytes_start_with(b: &[u8], at: usize, lit: &[u8]) -> (r: bool)
    ensures
        r == occurs_at(b@, at as int, lit@),
{
    if at > b.len() || lit.len() > b.len() - at {
        return false;
    }
    let mut i: usize = 0;
    while i < lit.len()
        invariant
            at + lit@.len() <= b@.len(),
            b@.len() <= usize::MAX,
            i <= lit@.len(),
            forall|j: int| 0 <= j < i ==> b@[at + j] == lit@[j],
        decreases lit@.len() - i,
    {
        if b[at + i] != lit[i] {
            assert(b@.subrange(at as int, at + lit@.len())[i as int] != lit@[i as int]);
            return false;
        }
        i = i + 1;
    }
    assert(b@.subrange(at as int, at + lit@.len()) =~= lit@);
    true
}

/// Whether two texts are the same.
pub fn same_text(a: &str, b: &str) -> (r: bool)
    ensures
        r == (a@ == b@),
{
    let x = a.as_bytes();
    let y = b.as_bytes();
    if x.len() != y.len() {
        proof {
            if a@ == b@ {
                assert(x@ == y@);
            }
        }
        return false;
    }
    let mut i: usize = 0;
    while i < x.len()
        invariant
            x@.len() == y@.len(),
            x@ == a.spec_bytes(),
            y@ == b.spec_bytes(),
            i <= x@.len(),
            forall|j: int| 0 <= j < i ==> x@[j] == y@[j],
        decreases x@.len() - i,
    {
        if x[i] != y[i] {
            proof {
                if a@ == b@ {
                    assert(x@ == y@);
                }
            }
            return false;
        }
        i = i + 1;
    }
    proof {
        assert(x@ =~= y@);
        assert(decode_utf8(encode_utf8(a@)) == a@);
        assert(decode_utf8(encode_utf8(b@)) == b@);
    }
    true
}

/// Whether `b` is whitespace.
pub fn is_ws_byte(b: u8) -> (r: bool)
    ensures
        r == is_ws(b),
{
    b == 32 || b == 9 || b == 10 || b == 12 || b == 13
}

/// Whether `b` continues a multi-byte character.
pub fn is_continuation(b: u8) -> (r: bool)
    ensures
        r == is_continuation_byte(b),
{
    0x80 <= b && b <= 0xbf
}

} // verus!
