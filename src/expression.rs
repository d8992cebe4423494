use crate::cursor::Cursor;
use crate::nodes::{Expression, ExpressionKind};
use crate::span::Span;
use swc_common::{BytePos, Spanned};
use swc_ecma_ast::Expr;
use swc_ecma_parser::{Parser as EcmaParser, StringInput, Syntax};
use vstd::prelude::*;
use vstd::string::StringSliceAdditionalSpecFns;
use vstd::utf8::*;

verus! {

/// The longest source, in bytes, handed to the script expression parser,
/// whose byte positions are 32-bit and reserve the highest values.
pub const MAX_SCRIPT_SOURCE: usize = 0x8000_0000;

/// swc_ecma_ast's `Expr`: an expression tree, handed unopened from the
/// script parser to the conversion below.
#[verifier::external_type_specification]
#[verifier::external_body]
pub struct ExExpr(swc_ecma_ast::Expr);

/// What the script parser reads from `source` at byte offset `pos`: the
/// comma-separated parts of a sequence expression, or the single expression,
/// each as a tag (0 an identifier, with its name; 1 an assignment, with its
/// operator; 2 anything else, with no text), a text and a byte range.
pub uninterp spec fn script_parts(source: Seq<char>, pos: int) -> Option<
    Seq<(int, Seq<char>, int, int)>,
>;

pub open spec fn part_view(t: (u8, String, u32, u32)) -> (int, Seq<char>, int, int) {
    (t.0 as int, t.1@, t.2 as int, t.3 as int)
}

/// Relies on swc_ecma_parser's `Parser::new` (TypeScript syntax, the default
/// target, no comments) and `Parser::parse_expr`, over the text of `source`
/// from byte `pos` on (the slice `source[pos..]` and `StringInput::new`,
/// which asserts `start <= end`), and on swc_ecma_ast's `Expr` variants,
/// `AssignOp::as_str` and swc_common's `Spanned` to hand each part back.
/// The result depends on the text and the offset alone.
#[verifier::external_body]
fn ecma_script_parts(source: &str, pos: u32, end: u32) -> (r: Option<Vec<(u8, String, u32, u32)>>)
    requires
        pos <= end,
        end == source.spec_bytes().len() < MAX_SCRIPT_SOURCE,
        is_char_boundary(source.spec_bytes(), pos as int),
    ensures
        r matches Some(v) ==> script_parts(source@, pos as int) == Some(v@.map_values(|t| part_view(t))),
        r is None ==> script_parts(source@, pos as int) is None,
{
    let input = StringInput::new(&source[pos as usize..], BytePos(pos), BytePos(end));
    let exprs = match *EcmaParser::new(Syntax::Typescript(Default::default()), input, None).parse_expr().ok()? {
        Expr::Seq(seq) => seq.exprs,
        e => vec![Box::new(e)],
    };
    Some(exprs.iter().map(|e| { let (tag, text) = match &**e {
        Expr::Ident(i) => (0, i.sym.to_string()),
        Expr::Assign(a) => (1, a.op.as_str().into()),
        _ => (2, "".into()),
    }; (tag, text, e.span_lo().0, e.span_hi().0) }).collect())
}

/// The tag, text and byte range of an expression, as the script parser
/// hands them back.
pub open spec fn expression_part(e: Expression) -> (int, Seq<char>, int, int) {
    match e.kind {
        ExpressionKind::Identifier(n) => (0, n@, e.span.lo as int, e.span.hi as int),
        ExpressionKind::Assignment(op) => (1, op@, e.span.lo as int, e.span.hi as int),
        ExpressionKind::Other => (2, Seq::empty(), e.span.lo as int, e.span.hi as int),
        ExpressionKind::Sequence => (3, Seq::empty(), e.span.lo as int, e.span.hi as int),
    }
}

/// Part `i` of what the script parser read ends where part `i + 1` starts or before.
pub open spec fn read_before_next(q: Seq<(int, Seq<char>, int, int)>, i: int) -> bool {
    q[i].3 <= q[i + 1].2
}

/// What the script parser read can be taken: at least one part, each with a
/// known tag, lying in order in the text from `pos` on, the last one ending
/// at a character boundary of `b`.
pub open spec fn read_fits(q: Seq<(int, Seq<char>, int, int)>, pos: int, b: Seq<u8>) -> bool {
    &&& q.len() > 0
    &&& forall|i: int|
        0 <= i < q.len() ==> 0 <= (#[trigger] q[i]).0 <= 2 && (q[i].0 == 2 ==> q[i].1.len() == 0)
            && pos <= q[i].2 <= q[i].3 <= q.last().3
    &&& forall|i: int| 0 <= i < q.len() - 1 ==> #[trigger] read_before_next(q, i)
    &&& q.last().3 <= b.len()
    &&& is_char_boundary(b, q.last().3)
}

/// The script parser reads something usable at `pos`.
pub open spec fn script_read(source: Seq<char>, b: Seq<u8>, pos: int) -> bool {
    &&& b.len() < MAX_SCRIPT_SOURCE
    &&& script_parts(source, pos) is Some
    &&& read_fits(script_parts(source, pos)->Some_0, pos, b)
}

/// What the script parser read at `pos`, where it read something.
pub open spec fn script_result(source: Seq<char>, pos: int) -> Seq<(int, Seq<char>, int, int)> {
    script_parts(source, pos)->Some_0
}

/// The tag, text and range that the parts joined into one expression have.
pub open spec fn joined_part(q: Seq<(int, Seq<char>, int, int)>) -> (int, Seq<char>, int, int) {
    if q.len() == 1 {
        q[0]
    } else {
        (3, Seq::empty(), q[0].2, q.last().3)
    }
}

/// The parts the script parser read, as expressions, where they can be taken.
pub fn parts_from_read(q: Vec<(u8, String, u32, u32)>, pos: usize, source: &str) -> (r: Option<Vec<Expression>>)
    ensures
        r is Some <==> read_fits(q@.map_values(|t| part_view(t)), pos as int, source.spec_bytes()),
        r matches Some(v) ==> v@.map_values(|e| expression_part(e)) == q@.map_values(|t| part_view(t))
            && parts_fit(v@, pos as int, source.spec_bytes()),
{
    let ghost qv = q@.map_values(|t| part_view(t));
    let n = q.len();
    if n == 0 {
        return None;
    }
    let last_hi = q[n - 1].3;
    let mut v: Vec<Expression> = Vec::new();
    let mut i: usize = 0;
    while i < n
        invariant
            n == q@.len(),
            qv == q@.map_values(|t| part_view(t)),
            last_hi == q@[n - 1].3,
            i <= n,
            v@.len() == i,
            forall|k: int| 0 <= k < i ==> #[trigger] expression_part(v@[k]) == qv[k],
            forall|k: int|
                0 <= k < i ==> 0 <= (#[trigger] qv[k]).0 <= 2 && (qv[k].0 == 2 ==> qv[k].1.len() == 0)
                    && pos <= qv[k].2 <= qv[k].3 <= qv.last().3,
            forall|k: int| 0 <= k < i && k < n - 1 ==> #[trigger] read_before_next(qv, k),
        decreases n - i,
    {
        let lo = q[i].2;
        let hi = q[i].3;
        let tag = q[i].0;
        if tag > 2 || (tag == 2 && !q[i].1.as_str().is_empty()) || (lo as usize) < pos || lo > hi || hi > last_hi {
            assert(!(0 <= qv[i as int].0 <= 2 && (qv[i as int].0 == 2 ==> qv[i as int].1.len() == 0)
                && pos <= qv[i as int].2 <= qv[i as int].3 <= qv.last().3));
            return None;
        }
        if i + 1 < n && hi > q[i + 1].2 {
            assert(!read_before_next(qv, i as int));
            return None;
        }
        let span = Span { lo: lo as usize, hi: hi as usize };
        let kind = if tag == 0 {
            ExpressionKind::Identifier(q[i].1.clone())
        } else if tag == 1 {
            ExpressionKind::Assignment(q[i].1.clone())
        } else {
            proof {
                assert(qv[i as int].1 =~= Seq::<char>::empty());
            }
            ExpressionKind::Other
        };
        v.push(Expression { kind, span });
        proof {
            assert(expression_part(v@[i as int]) == qv[i as int]);
        }
        i = i + 1;
    }
    let end = last_hi as usize;
    if end <= source.as_bytes().len() && source.is_char_boundary(end) {
        proof {
            assert(v@.map_values(|e| expression_part(e)) =~= qv);
            assert forall|k: int| 0 <= k < v@.len() - 1 implies #[trigger] ends_before_next(v@, k) by {
                assert(read_before_next(qv, k));
                assert(expression_part(v@[k]) == qv[k]);
                assert(expression_part(v@[k + 1]) == qv[k + 1]);
            }
            assert forall|k: int| 0 <= k < v@.len() implies pos <= (#[trigger] v@[k]).span.lo
                && v@[k].span.wf() && v@[k].span.hi <= v@.last().span.hi by {
                assert(expression_part(v@[k]) == qv[k]);
                assert(expression_part(v@[n - 1]) == qv[n - 1]);
            }
            assert(expression_part(v@[n - 1]) == qv[n - 1]);
        }
        Some(v)
    } else {
        None
    }
}

/// Part `i` ends where part `i + 1` starts or before.
pub open spec fn ends_before_next(parts: Seq<Expression>, i: int) -> bool {
    parts[i].span.hi <= parts[i + 1].span.lo
}

/// The parts lie in order in the text from `pos` on, and the last one ends at
/// a character boundary of `b`.
pub open spec fn parts_fit(parts: Seq<Expression>, pos: int, b: Seq<u8>) -> bool {
    &&& parts.len() > 0
    &&& forall|i: int|
        0 <= i < parts.len() ==> pos <= (#[trigger] parts[i]).span.lo && parts[i].span.wf()
            && parts[i].span.hi <= parts.last().span.hi
    &&& forall|i: int| 0 <= i < parts.len() - 1 ==> #[trigger] ends_before_next(parts, i)
    &&& parts.last().span.hi <= b.len()
    &&& is_char_boundary(b, parts.last().span.hi as int)
}

/// Whether the parts that the script parser returned can be taken as they are.
pub fn parts_fit_exec(parts: &Vec<Expression>, pos: usize, source: &str) -> (r: bool)
    ensures
        r == parts_fit(parts@, pos as int, source.spec_bytes()),
{
    let n = parts.len();
    if n == 0 {
        return false;
    }
    let last_hi = parts[n - 1].span.hi;
    let mut i: usize = 0;
    while i < n
        invariant
            n == parts@.len(),
            i <= n,
            last_hi == parts@.last().span.hi,
            forall|k: int|
                0 <= k < i ==> pos <= (#[trigger] parts@[k]).span.lo && parts@[k].span.wf()
                    && parts@[k].span.hi <= last_hi,
            forall|k: int| 0 <= k < i && k < n - 1 ==> #[trigger] ends_before_next(parts@, k),
        decreases n - i,
    {
        if parts[i].span.lo < pos || parts[i].span.lo > parts[i].span.hi || parts[i].span.hi > last_hi {
            assert(!(pos <= parts@[i as int].span.lo && parts@[i as int].span.wf() && parts@[i as int].span.hi <= last_hi));
            return false;
        }
        if i + 1 < n && parts[i].span.hi > parts[i + 1].span.lo {
            assert(!ends_before_next(parts@, i as int));
            return false;
        }
        i = i + 1;
    }
    last_hi <= source.as_bytes().len() && source.is_char_boundary(last_hi)
}

/// The single expression that the parts stand for: the one part, or a
/// sequence that runs from the first to the last.
pub open spec fn joined(parts: Seq<Expression>) -> Expression {
    if parts.len() == 1 {
        parts[0]
    } else {
        Expression {
            kind: ExpressionKind::Sequence,
            span: Span { lo: parts[0].span.lo, hi: parts.last().span.hi },
        }
    }
}

/// Joins the comma-separated parts of an expression back into one.
pub fn join_parts(parts: Vec<Expression>) -> (r: Expression)
    requires
        parts@.len() > 0,
    ensures
        r == joined(parts@),
{
    let n = parts.len();
    if n == 1 {
        let mut parts = parts;
        parts.remove(0)
    } else {
        Expression {
            kind: ExpressionKind::Sequence,
            span: Span { lo: parts[0].span.lo, hi: parts[n - 1].span.hi },
        }
    }
}

/// Reads script expressions at the cursor, and moves the cursor to the end of
/// the last one. What the script parser reads is taken exactly where its
/// parts lie in order from the cursor on and end on a character boundary;
/// otherwise the result is `None` and the cursor stays.
pub fn parse_js_expression(cursor: &mut Cursor) -> (r: Option<Vec<Expression>>)
    requires
        old(cursor).wf(),
    ensures
        final(cursor).wf(),
        final(cursor).source == old(cursor).source,
        r is Some <==> script_read(old(cursor).source@, old(cursor).bytes(), old(cursor).position as int),
        r matches Some(parts) ==> parts@.map_values(|e| expression_part(e)) == script_result(
            old(cursor).source@,
            old(cursor).position as int,
        ) && parts_fit(parts@, old(cursor).position as int, old(cursor).bytes())
            && final(cursor).position == parts@.last().span.hi,
        r is None ==> final(cursor).position == old(cursor).position,
{
    if cursor.len() >= MAX_SCRIPT_SOURCE {
        return None;
    }
    match ecma_script_parts(cursor.source, cursor.position as u32, cursor.len() as u32) {
        Some(q) => match parts_from_read(q, cursor.position, cursor.source) {
            Some(parts) => {
                let hi = parts[parts.len() - 1].span.hi;
                cursor.eat_to(hi);
                Some(parts)
            },
            None => None,
        },
        None => None,
    }
}

} // verus!
