use crate::span::Span;
use crate::tokens::{
    AsToken, CommaToken, CommentEndToken, CommentStartToken, ConstTagToken, DebugTagToken,
    EachOpenToken, HtmlTagToken, IfOpenToken, KeyOpenToken, MustacheCloseToken,
    MustacheOpenToken, ParenCloseToken, ParenOpenToken, WhitespaceToken,
};
use vstd::prelude::*;

verus! {

/// What the template logic needs to know of a script expression.
#[derive(Debug, Clone, PartialEq, Eq)]
pub enum ExpressionKind {
    /// A bare identifier, with its name.
    Identifier(String),
    /// An assignment `target op value`, with its operator (`=`, `+=`, ...).
    Assignment(String),
    /// Two or more expressions joined by commas.
    Sequence,
    /// Any other expression.
    Other,
}

/// A script expression embedded in the template.
#[derive(Debug, Clone, PartialEq, Eq)]
pub struct Expression {
    pub kind: ExpressionKind,
    pub span: Span,
}

#[derive(Debug, Clone, PartialEq, Eq)]
pub struct Fragment {
    pub fragment_items: Vec<FragmentItem>,
    pub span: Span,
}

/// A top-level item of a template.
#[derive(Debug, Clone, PartialEq, Eq)]
pub enum FragmentItem {
    Comment(Comment),
    Mustache(Mustache),
    Text(Text),
}

#[derive(Debug, Clone, PartialEq, Eq)]
pub struct Comment {
    pub comment_start: CommentStartToken,
    pub comment_text: CommentText,
    pub comment_end: Option<CommentEndToken>,
    pub span: Span,
}

#[derive(Debug, Clone, PartialEq, Eq)]
pub struct Mustache {
    pub mustache_open: MustacheOpenToken,
    pub leading_whitespace: Option<WhitespaceToken>,
    pub mustache_item: MustacheItem,
    pub trailing_whitespace: Option<WhitespaceToken>,
    pub mustache_close: Option<MustacheCloseToken>,
    pub span: Span,
}

#[derive(Debug, Clone, PartialEq, Eq)]
pub struct Text {
    pub text: String,
    pub span: Span,
}

/// Source text that could not be read as what was expected there.
#[derive(Debug, Clone, PartialEq, Eq)]
pub struct InvalidSyntax {
    pub text: String,
    pub span: Span,
}

#[derive(Debug, Clone, PartialEq, Eq)]
pub struct CommentText {
    pub text: String,
    pub span: Span,
}

/// What stands between the braces of a mustache.
#[derive(Debug, Clone, PartialEq, Eq)]
pub enum MustacheItem {
    IfBlockOpen(IfBlockOpen),
    EachBlockOpen(EachBlockOpen),
    KeyBlockOpen(KeyBlockOpen),
    RawMustacheTag(RawMustacheTag),
    DebugTag(DebugTag),
    ConstTag(ConstTag),
    Expression(Expression),
    InvalidSyntax(InvalidSyntax),
}

#[derive(Debug, Clone, PartialEq, Eq)]
pub struct IfBlockOpen {
    pub if_open: IfOpenToken,
    pub whitespace: Option<WhitespaceToken>,
    pub expression: Expression,
    pub span: Span,
}

#[derive(Debug, Clone, PartialEq, Eq)]
pub struct EachBlockOpen {
    pub each_open: EachOpenToken,
    pub whitespace: WhitespaceToken,
    pub expression: Expression,
    pub as_: EachAs,
    pub context: Context,
    pub index: Option<EachIndex>,
    pub key: Option<EachKey>,
    pub span: Span,
}

#[derive(Debug, Clone, PartialEq, Eq)]
pub struct KeyBlockOpen {
    pub key_open: KeyOpenToken,
    pub whitespace: Option<WhitespaceToken>,
    pub expression: Expression,
    pub span: Span,
}

#[derive(Debug, Clone, PartialEq, Eq)]
pub struct RawMustacheTag {
    pub html_tag: HtmlTagToken,
    pub whitespace: Option<WhitespaceToken>,
    pub expression: Expression,
    pub span: Span,
}

#[derive(Debug, Clone, PartialEq, Eq)]
pub struct DebugTag {
    pub debug_tag: DebugTagToken,
    pub whitespace: Option<WhitespaceToken>,
    pub identifiers: Vec<Expression>,
    pub span: Span,
}

#[derive(Debug, Clone, PartialEq, Eq)]
pub struct ConstTag {
    pub const_tag: ConstTagToken,
    pub whitespace: Option<WhitespaceToken>,
    pub expression: Expression,
    pub span: Span,
}

#[derive(Debug, Clone, PartialEq, Eq)]
pub struct EachAs {
    pub leading_ws: WhitespaceToken,
    pub as_: AsToken,
    pub trailing_ws: WhitespaceToken,
    pub span: Span,
}

#[derive(Debug, Clone, PartialEq, Eq)]
pub enum Context {
    Identifier(Identifier),
    Expression(Expression),
}

#[derive(Debug, Clone, PartialEq, Eq)]
pub struct EachIndex {
    pub trailing_ws: Option<WhitespaceToken>,
    pub comma: CommaToken,
    pub whitespace: Option<WhitespaceToken>,
    pub identifier: Identifier,
    pub span: Span,
}

#[derive(Debug, Clone, PartialEq, Eq)]
pub struct EachKey {
    pub whitespace: Option<WhitespaceToken>,
    pub paren_open: ParenOpenToken,
    pub leading_ws: Option<WhitespaceToken>,
    pub expression: Expression,
    pub trailing_ws: Option<WhitespaceToken>,
    pub paren_close: ParenCloseToken,
    pub span: Span,
}

#[derive(Debug, Clone, PartialEq, Eq)]
pub struct Identifier {
    pub name: String,
    pub span: Span,
}

/// Any node of the syntax tree.
#[derive(Debug, Clone, PartialEq, Eq)]
pub enum Node {
    Fragment(Fragment),
    FragmentItem(FragmentItem),
    Comment(Comment),
    Mustache(Mustache),
    Text(Text),
    InvalidSyntax(InvalidSyntax),
    CommentText(CommentText),
    MustacheItem(MustacheItem),
    IfBlockOpen(IfBlockOpen),
    EachBlockOpen(EachBlockOpen),
    KeyBlockOpen(KeyBlockOpen),
    RawMustacheTag(RawMustacheTag),
    DebugTag(DebugTag),
    ConstTag(ConstTag),
    EachAs(EachAs),
    Context(Context),
    EachIndex(EachIndex),
    EachKey(EachKey),
    Identifier(Identifier),
}

/// `outer` holds the optional whitespace token `t`.
pub open spec fn holds_ws(outer: Span, t: Option<WhitespaceToken>) -> bool {
    match t {
        Some(w) => w.span.wf() && outer.contains(w.span),
        None => true,
    }
}

/// `a` comes before `b` in the source, with the optional whitespace `ws`
/// between them.
pub open spec fn in_order(a: Span, ws: Option<WhitespaceToken>, b: Span) -> bool {
    a.hi <= b.lo && match ws {
        Some(w) => a.hi <= w.span.lo && w.span.hi <= b.lo,
        None => true,
    }
}

/// `outer` holds the well-formed span `inner`.
pub open spec fn holds(outer: Span, inner: Span) -> bool {
    inner.wf() && outer.contains(inner)
}

impl Context {
    pub open spec fn span_of(self) -> Span {
        match self {
            Context::Identifier(i) => i.span,
            Context::Expression(e) => e.span,
        }
    }
}

impl MustacheItem {
    pub open spec fn span_of(self) -> Span {
        match self {
            MustacheItem::IfBlockOpen(n) => n.span,
            MustacheItem::EachBlockOpen(n) => n.span,
            MustacheItem::KeyBlockOpen(n) => n.span,
            MustacheItem::RawMustacheTag(n) => n.span,
            MustacheItem::DebugTag(n) => n.span,
            MustacheItem::ConstTag(n) => n.span,
            MustacheItem::Expression(n) => n.span,
            MustacheItem::InvalidSyntax(n) => n.span,
        }
    }

    /// The item's span holds the span of each of its children, and they come
    /// in source order.
    pub open spec fn wf(self) -> bool {
        self.span_of().wf() && match self {
            MustacheItem::IfBlockOpen(n) => holds(n.span, n.if_open.span) && holds_ws(
                n.span,
                n.whitespace,
            ) && holds(n.span, n.expression.span) && in_order(
                n.if_open.span,
                n.whitespace,
                n.expression.span,
            ),
            MustacheItem::EachBlockOpen(n) => holds(n.span, n.each_open.span) && holds(
                n.span,
                n.whitespace.span,
            ) && holds(n.span, n.expression.span) && holds(n.span, n.as_.span) && holds(
                n.span,
                n.context.span_of(),
            ) && (n.index is Some ==> holds(n.span, n.index->Some_0.span)) && (n.key is Some
                ==> holds(n.span, n.key->Some_0.span)),
            MustacheItem::KeyBlockOpen(n) => holds(n.span, n.key_open.span) && holds_ws(
                n.span,
                n.whitespace,
            ) && holds(n.span, n.expression.span) && in_order(
                n.key_open.span,
                n.whitespace,
                n.expression.span,
            ),
            MustacheItem::RawMustacheTag(n) => holds(n.span, n.html_tag.span) && holds_ws(
                n.span,
                n.whitespace,
            ) && holds(n.span, n.expression.span) && in_order(
                n.html_tag.span,
                n.whitespace,
                n.expression.span,
            ),
            MustacheItem::DebugTag(n) => holds(n.span, n.debug_tag.span) && holds_ws(
                n.span,
                n.whitespace,
            ) && (forall|i: int|
                0 <= i < n.identifiers@.len() ==> holds(n.span, #[trigger] n.identifiers@[i].span)
                    && in_order(n.debug_tag.span, n.whitespace, n.identifiers@[i].span)) && (forall|i: int|
                0 <= i < n.identifiers@.len() - 1 ==> #[trigger] crate::expression::ends_before_next(
                    n.identifiers@,
                    i,
                )),
            MustacheItem::ConstTag(n) => holds(n.span, n.const_tag.span) && holds_ws(
                n.span,
                n.whitespace,
            ) && holds(n.span, n.expression.span) && in_order(
                n.const_tag.span,
                n.whitespace,
                n.expression.span,
            ),
            MustacheItem::Expression(_) => true,
            MustacheItem::InvalidSyntax(_) => true,
        }
    }
}

impl Mustache {
    /// The mustache's span holds the span of each of its children, in source
    /// order, and its item is well formed.
    pub open spec fn wf(self) -> bool {
        self.span.wf() && holds(self.span, self.mustache_open.span) && holds_ws(
            self.span,
            self.leading_whitespace,
        ) && holds(self.span, self.mustache_item.span_of()) && self.mustache_item.wf()
            && holds_ws(self.span, self.trailing_whitespace) && (self.trailing_whitespace matches Some(t)
            ==> self.mustache_item.span_of().hi <= t.span.lo) && (self.mustache_close is Some
            ==> holds(self.span, self.mustache_close->Some_0.span)) && in_order(
            self.mustache_open.span,
            self.leading_whitespace,
            self.mustache_item.span_of(),
        ) && (self.mustache_close is Some ==> in_order(
            self.mustache_item.span_of(),
            self.trailing_whitespace,
            self.mustache_close->Some_0.span,
        ))
    }
}

impl Comment {
    /// The comment's span holds the span of each of its children, in source order.
    pub open spec fn wf(self) -> bool {
        self.span.wf() && holds(self.span, self.comment_start.span) && holds(
            self.span,
            self.comment_text.span,
        ) && (self.comment_end is Some ==> holds(self.span, self.comment_end->Some_0.span))
            && self.comment_start.span.hi <= self.comment_text.span.lo && (self.comment_end is Some
            ==> self.comment_text.span.hi <= self.comment_end->Some_0.span.lo)
    }
}

impl FragmentItem {
    pub open spec fn span_of(self) -> Span {
        match self {
            FragmentItem::Comment(n) => n.span,
            FragmentItem::Mustache(n) => n.span,
            FragmentItem::Text(n) => n.span,
        }
    }

    /// Every node in the item holds the spans of its direct children, in
    /// source order; a text run is never empty.
    pub open spec fn wf(self) -> bool {
        match self {
            FragmentItem::Comment(n) => n.wf(),
            FragmentItem::Mustache(n) => n.wf(),
            FragmentItem::Text(n) => n.span.lo < n.span.hi,
        }
    }
}

} // verus!
