//! Naming rules for the generated syntax types: how a grammar rule's label,
//! optionality and repetition become a field name, a variant name and a type.
use crate::cursor::same_text;
use convert_case::{Case, Casing};
use vstd::prelude::*;
use vstd::string::{StringExecFns, StringSliceAdditionalSpecFns};
use vstd::utf8::*;

verus! {

/// How often a field occurs in its node.
#[derive(Debug, Clone, Copy, PartialEq, Eq, Structural)]
pub enum FieldFlag {
    Optional,
    Repeated,
}

/// What a grammar rule says of a field beyond its type.
#[derive(Debug, Clone, Copy)]
pub struct FieldMeta<'a> {
    pub label: Option<&'a str>,
    pub flag: Option<FieldFlag>,
}

impl<'a> Default for FieldMeta<'a> {
    fn default() -> (r: FieldMeta<'a>)
        ensures
            r.label is None,
            r.flag is None,
    {
        FieldMeta { label: None, flag: None }
    }
}

/// `_`
pub open spec fn ends_with_underscore(b: Seq<u8>) -> bool {
    b.len() > 0 && b.last() == 95
}

/// The name a field gets before repetition is taken into account: a label
/// that ends in `_` is a prefix to the fallback name; any other label
/// replaces it.
pub open spec fn base_name(label: Option<&str>, fallback: Seq<char>) -> Seq<char> {
    match label {
        Some(l) => if ends_with_underscore(l.spec_bytes()) {
            l@ + fallback
        } else {
            l@
        },
        None => fallback,
    }
}

broadcast use group_utf8_lib;

/// The letter cases that generated names are written in.
#[derive(Debug, Clone, Copy, PartialEq, Eq, Structural)]
pub enum TextCase {
    /// `snake_case`, for fields.
    Snake,
    /// `PascalCase`, for variants.
    Pascal,
}

/// What `convert_case` makes of a text in the given case.
pub uninterp spec fn in_case(s: Seq<char>, case: TextCase) -> Seq<char>;

/// What `std::path::Path::parent` gives for a path, as text.
pub uninterp spec fn path_parent(p: Seq<char>) -> Option<Seq<char>>;

/// Relies on `pluralizer::pluralize(word, 2, false)`: the plural of `word`,
/// without the count. Its rules are global and can be changed at run time, so
/// nothing is stated of the result. It keeps the case of the word by slicing
/// after its first byte, which panics on a word that begins with a character
/// of more than one byte; an ASCII word is safe.
#[verifier::external_body]
fn plural_of(word: &str) -> String
    requires
        is_ascii_chars(word@),
{
    pluralizer::pluralize(word, 2, false)
}

/// Relies on convert_case's `Casing::to_case`, whose result depends on the
/// text and the case alone.
#[verifier::external_body]
fn to_case(s: &str, case: TextCase) -> (r: String)
    ensures
        r@ == in_case(s@, case),
{
    match case {
        TextCase::Snake => s.to_case(Case::Snake),
        TextCase::Pascal => s.to_case(Case::Pascal),
    }
}

/// Relies on `std::path::Path::parent`, which works on the text of the path
/// alone; the parent is handed back as text.
#[verifier::external_body]
fn parent_of(p: &str) -> (r: Option<String>)
    ensures
        r matches Some(q) ==> path_parent(p@) == Some(q@),
        r is None ==> path_parent(p@) is None,
{
    std::path::Path::new(p).parent().map(|q| q.to_string_lossy().into_owned())
}

/// The directory two levels above `manifest_dir` (the generator's own crate
/// directory), or `None` where there is no such directory.
pub fn project_root(manifest_dir: &str) -> (r: Option<String>)
    ensures
        r matches Some(root) ==> path_parent(manifest_dir@) is Some && path_parent(
            path_parent(manifest_dir@)->Some_0,
        ) == Some(root@),
        r is None ==> match path_parent(manifest_dir@) {
            Some(p) => path_parent(p) is None,
            None => true,
        },
{
    match parent_of(manifest_dir) {
        Some(crate_dir) => {
            let r = parent_of(crate_dir.as_str());
            proof {
                if r is Some {
                    assert(path_parent(manifest_dir@) == Some(crate_dir@));
                }
            }
            r
        },
        None => None,
    }
}

/// Whether `s` ends in `_`.
fn has_trailing_underscore(s: &str) -> (r: bool)
    ensures
        r == ends_with_underscore(s.spec_bytes()),
{
    let b = s.as_bytes();
    b.len() > 0 && b[b.len() - 1] == 95
}

/// The grammar tokens whose field has a type of its own, by token text.
pub open spec fn token_type_of(token: Seq<char>) -> Option<Seq<char>> {
    if token == "expression"@ {
        Some("Box<swc_ecma_ast::Expr>"@)
    } else if token == "text"@ {
        Some("String"@)
    } else {
        None
    }
}

/// The name of the token type that each other grammar token gets.
pub open spec fn token_name_of(token: Seq<char>) -> Option<Seq<char>> {
    if token == "whitespace"@ {
        Some("Whitespace"@)
    } else if token == "{"@ {
        Some("MustacheOpen"@)
    } else if token == "}"@ {
        Some("MustacheClose"@)
    } else if token == "<!--"@ {
        Some("CommentStart"@)
    } else if token == "-->"@ {
        Some("CommentEnd"@)
    } else if token == "@const"@ {
        Some("ConstTag"@)
    } else if token == "@debug"@ {
        Some("DebugTag"@)
    } else if token == "@html"@ {
        Some("HtmlTag"@)
    } else if token == "#key"@ {
        Some("KeyOpen"@)
    } else if token == "#if"@ {
        Some("IfOpen"@)
    } else {
        None
    }
}

/// The type a grammar token's field has, where it has one of its own.
pub fn token_type(token: &str) -> (r: Option<&'static str>)
    ensures
        r matches Some(t) ==> token_type_of(token@) == Some(t@),
        r is None ==> token_type_of(token@) is None,
{
    if same_text(token, "expression") {
        Some("Box<swc_ecma_ast::Expr>")
    } else if same_text(token, "text") {
        Some("String")
    } else {
        None
    }
}

/// The name of the token type a grammar token gets.
pub fn token_name(token: &str) -> (r: Option<&'static str>)
    ensures
        r matches Some(t) ==> token_name_of(token@) == Some(t@),
        r is None ==> token_name_of(token@) is None,
{
    if same_text(token, "whitespace") {
        Some("Whitespace")
    } else if same_text(token, "{") {
        Some("MustacheOpen")
    } else if same_text(token, "}") {
        Some("MustacheClose")
    } else if same_text(token, "<!--") {
        Some("CommentStart")
    } else if same_text(token, "-->") {
        Some("CommentEnd")
    } else if same_text(token, "@const") {
        Some("ConstTag")
    } else if same_text(token, "@debug") {
        Some("DebugTag")
    } else if same_text(token, "@html") {
        Some("HtmlTag")
    } else if same_text(token, "#key") {
        Some("KeyOpen")
    } else if same_text(token, "#if") {
        Some("IfOpen")
    } else {
        None
    }
}

/// A grammar rule, as the generator reads it: nodes and tokens by name.
pub enum GrammarRule {
    Labeled { label: String, rule: Box<GrammarRule> },
    Node(String),
    Token(String),
    Opt(Box<GrammarRule>),
    Rep(Box<GrammarRule>),
    Sequence(Vec<GrammarRule>),
    Alt(Vec<GrammarRule>),
}

/// A field of a generated type: its name before labels apply, its type, and
/// what the grammar says of it.
pub struct Field<'a> {
    pub name: String,
    pub type_str: String,
    pub meta: FieldMeta<'a>,
}

/// The name and the type text of the field for the grammar token `token`:
/// a token with a type of its own is named after itself; any other is named
/// after its token type, in snake case, and has that type with `Token`
/// appended.
pub open spec fn token_field_text(token: Seq<char>, name: Seq<char>, type_str: Seq<char>) -> bool {
    match token_type_of(token) {
        Some(ty) => name == token && type_str == ty,
        None => name == in_case(token_name_of(token)->Some_0, TextCase::Snake) && type_str
            == token_name_of(token)->Some_0 + "Token"@,
    }
}

/// The field for a grammar token that one of the token tables knows.
pub fn get_token_field<'a>(token: &str, meta: FieldMeta<'a>) -> (r: Field<'a>)
    requires
        token_type_of(token@) is Some || token_name_of(token@) is Some,
    ensures
        token_field_text(token@, r.name@, r.type_str@),
        r.meta == meta,
{
    match token_type(token) {
        Some(ty) => Field { name: token.to_owned(), type_str: ty.to_owned(), meta },
        None => {
            let token_type_name = token_name(token).unwrap();
            let mut type_str = token_type_name.to_owned();
            type_str.append("Token");
            Field { name: to_case(token_type_name, TextCase::Snake), type_str, meta }
        },
    }
}

/// The field for a grammar node: named after the node in snake case, with
/// the node's type.
pub fn get_node_field<'a>(node: &str, meta: FieldMeta<'a>) -> (r: Field<'a>)
    ensures
        r.name@ == in_case(node@, TextCase::Snake),
        r.type_str@ == node@,
        r.meta == meta,
{
    Field { name: to_case(node, TextCase::Snake), type_str: node.to_owned(), meta }
}

/// The node or token below the labels, options and repetitions of a rule.
pub open spec fn simple_leaf(rule: GrammarRule) -> GrammarRule
    decreases rule,
{
    match rule {
        GrammarRule::Labeled { rule: inner, .. } => simple_leaf(*inner),
        GrammarRule::Opt(inner) => simple_leaf(*inner),
        GrammarRule::Rep(inner) => simple_leaf(*inner),
        _ => rule,
    }
}

/// The flag a field gets from a rule: the innermost option or repetition,
/// else `flag`.
pub open spec fn simple_flag(rule: GrammarRule, flag: Option<FieldFlag>) -> Option<FieldFlag>
    decreases rule,
{
    match rule {
        GrammarRule::Labeled { rule: inner, .. } => simple_flag(*inner, flag),
        GrammarRule::Opt(inner) => simple_flag(*inner, Some(FieldFlag::Optional)),
        GrammarRule::Rep(inner) => simple_flag(*inner, Some(FieldFlag::Repeated)),
        _ => flag,
    }
}

/// The label a field gets from a rule: the innermost label, else `label`.
pub open spec fn simple_label(rule: GrammarRule, label: Option<Seq<char>>) -> Option<Seq<char>>
    decreases rule,
{
    match rule {
        GrammarRule::Labeled { label: l, rule: inner } => simple_label(*inner, Some(l@)),
        GrammarRule::Opt(inner) => simple_label(*inner, label),
        GrammarRule::Rep(inner) => simple_label(*inner, label),
        _ => label,
    }
}

pub open spec fn label_view(label: Option<&str>) -> Option<Seq<char>> {
    match label {
        Some(l) => Some(l@),
        None => None,
    }
}

/// A rule that stands for one field: labels, options and repetitions over a
/// node, or over a token that one of the token tables knows.
pub open spec fn is_simple_rule(rule: GrammarRule) -> bool {
    match simple_leaf(rule) {
        GrammarRule::Node(_) => true,
        GrammarRule::Token(t) => token_type_of(t@) is Some || token_name_of(t@) is Some,
        _ => false,
    }
}

/// The field a simple rule stands for: the innermost label and flag on the
/// way down are gathered into the field's meta, and the node or token below
/// gives its name and type.
pub fn get_simple_field<'a>(rule: &'a GrammarRule, meta: FieldMeta<'a>) -> (r: Field<'a>)
    requires
        is_simple_rule(*rule),
    ensures
        r.meta.flag == simple_flag(*rule, meta.flag),
        label_view(r.meta.label) == simple_label(*rule, label_view(meta.label)),
        simple_leaf(*rule) matches GrammarRule::Node(n) ==> r.name@ == in_case(n@, TextCase::Snake)
            && r.type_str@ == n@,
        simple_leaf(*rule) matches GrammarRule::Token(t) ==> token_field_text(t@, r.name@, r.type_str@),
    decreases rule,
{
    match rule {
        GrammarRule::Labeled { label, rule } => get_simple_field(rule, meta.with_label(label.as_str())),
        GrammarRule::Node(n) => get_node_field(n.as_str(), meta),
        GrammarRule::Token(t) => get_token_field(t.as_str(), meta),
        GrammarRule::Opt(rule) => get_simple_field(rule, meta.with_flag(FieldFlag::Optional)),
        GrammarRule::Rep(rule) => get_simple_field(rule, meta.with_flag(FieldFlag::Repeated)),
        GrammarRule::Sequence(_) | GrammarRule::Alt(_) => vstd::pervasive::unreached(),
    }
}

/// The text of a field's type: wrapped in `Option` or `Vec` by its flag.
pub open spec fn type_text_of(flag: Option<FieldFlag>, type_str: Seq<char>) -> Seq<char> {
    match flag {
        Some(FieldFlag::Optional) => "Option<"@ + type_str + ">"@,
        Some(FieldFlag::Repeated) => "Vec<"@ + type_str + ">"@,
        None => type_str,
    }
}

impl<'a> Field<'a> {
    /// The name and the type text of the field in a struct.
    pub fn into_struct_field(self) -> (r: (String, String))
        requires
            self.meta.flag == Some(FieldFlag::Repeated) ==> is_ascii_chars(base_name(self.meta.label, self.name@)),
        ensures
            self.meta.flag != Some(FieldFlag::Repeated) ==> r.0@ == base_name(self.meta.label, self.name@),
            r.1@ == type_text_of(self.meta.flag, self.type_str@),
    {
        let ident = self.meta.struct_field_ident(self.name.as_str());
        let ty = self.meta.type_text(self.type_str.as_str());
        (ident, ty)
    }

    /// The name and the type text of the field as a variant of an enum.
    pub fn into_enum_variant(self) -> (r: (String, String))
        requires
            self.meta.flag == Some(FieldFlag::Repeated) ==> is_ascii_chars(base_name(self.meta.label, self.name@)),
        ensures
            self.meta.flag != Some(FieldFlag::Repeated) ==> r.0@ == in_case(base_name(self.meta.label, self.name@), TextCase::Pascal),
            r.1@ == type_text_of(self.meta.flag, self.type_str@),
    {
        let ident = self.meta.enum_variant_ident(self.name.as_str());
        let ty = self.meta.type_text(self.type_str.as_str());
        (ident, ty)
    }
}

impl<'a> FieldMeta<'a> {
    /// The text of the field's type.
    pub fn type_text(&self, type_str: &str) -> (r: String)
        ensures
            r@ == type_text_of(self.flag, type_str@),
    {
        match self.flag {
            Some(FieldFlag::Optional) => {
                let mut r = "Option<".to_owned();
                r.append(type_str);
                r.append(">");
                r
            },
            Some(FieldFlag::Repeated) => {
                let mut r = "Vec<".to_owned();
                r.append(type_str);
                r.append(">");
                r
            },
            None => type_str.to_owned(),
        }
    }

    pub fn with_label(self, label: &'a str) -> (r: Self)
        ensures
            r.label == Some(label),
            r.flag == self.flag,
    {
        let mut meta = self;
        meta.label = Some(label);
        meta
    }

    pub fn with_flag(self, flag: FieldFlag) -> (r: Self)
        ensures
            r.label == self.label,
            r.flag == Some(flag),
    {
        let mut meta = self;
        meta.flag = Some(flag);
        meta
    }

    /// The field's name before repetition is taken into account.
    pub fn base_name(&self, fallback_name: &str) -> (r: String)
        ensures
            r@ == base_name(self.label, fallback_name@),
    {
        match self.label {
            Some(label) => {
                let mut name = label.to_owned();
                if has_trailing_underscore(label) {
                    name.append(fallback_name);
                }
                name
            },
            None => fallback_name.to_owned(),
        }
    }

    /// The name of the field in a struct: the base name, made plural where
    /// the field repeats (which asks for an ASCII name).
    pub fn struct_field_ident(&self, fallback_name: &str) -> (r: String)
        requires
            self.flag == Some(FieldFlag::Repeated) ==> is_ascii_chars(base_name(self.label, fallback_name@)),
        ensures
            self.flag != Some(FieldFlag::Repeated) ==> r@ == base_name(self.label, fallback_name@),
    {
        let name = self.base_name(fallback_name);
        if matches!(self.flag, Some(FieldFlag::Repeated)) {
            plural_of(name.as_str())
        } else {
            name
        }
    }

    /// The name of the variant in an enum: the field's name in Pascal case.
    pub fn enum_variant_ident(&self, fallback_name: &str) -> (r: String)
        requires
            self.flag == Some(FieldFlag::Repeated) ==> is_ascii_chars(base_name(self.label, fallback_name@)),
        ensures
            self.flag != Some(FieldFlag::Repeated) ==> r@ == in_case(base_name(self.label, fallback_name@), TextCase::Pascal),
    {
        let name = self.struct_field_ident(fallback_name);
        to_case(name.as_str(), TextCase::Pascal)
    }
}

} // verus!
