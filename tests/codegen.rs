use svelters::codegen::{
    get_node_field, get_simple_field, get_token_field, project_root, FieldFlag, FieldMeta,
    GrammarRule,
};

#[test]
fn label_replaces_fallback_name() {
    let meta = FieldMeta::default().with_label("as_");
    assert_eq!(meta.struct_field_ident("each"), "as_each");
    let meta = FieldMeta::default().with_label("index");
    assert_eq!(meta.struct_field_ident("each"), "index");
    assert_eq!(FieldMeta::default().struct_field_ident("comment"), "comment");
}

#[test]
fn repeated_field_is_plural() {
    let meta = FieldMeta::default().with_flag(FieldFlag::Repeated);
    assert_eq!(meta.struct_field_ident("identifier"), "identifiers");
    assert_eq!(meta.enum_variant_ident("fragment_item"), "FragmentItems");
}

#[test]
fn variant_is_pascal_case() {
    assert_eq!(FieldMeta::default().enum_variant_ident("mustache_item"), "MustacheItem");
    let meta = FieldMeta::default().with_label("leading_ws").with_flag(FieldFlag::Optional);
    assert_eq!(meta.label, Some("leading_ws"));
    assert_eq!(meta.flag, Some(FieldFlag::Optional));
}

#[test]
fn project_root_is_two_levels_up() {
    assert_eq!(project_root("/work/svelters/crates/codegen"), Some("/work/svelters".to_string()));
    assert_eq!(project_root("/"), None);
}

#[test]
fn token_with_type_of_its_own() {
    let f = get_token_field("expression", FieldMeta::default());
    assert_eq!(f.name, "expression");
    assert_eq!(f.type_str, "Box<swc_ecma_ast::Expr>");
}

#[test]
fn token_named_after_its_type() {
    let f = get_token_field("@const", FieldMeta::default());
    assert_eq!(f.name, "const_tag");
    assert_eq!(f.type_str, "ConstTagToken");
}

#[test]
fn node_field_in_snake_case() {
    let f = get_node_field("MustacheItem", FieldMeta::default());
    assert_eq!(f.name, "mustache_item");
    assert_eq!(f.type_str, "MustacheItem");
}

#[test]
fn simple_field_gathers_label_and_flag() {
    let rule = GrammarRule::Labeled {
        label: "leading_".to_string(),
        rule: Box::new(GrammarRule::Opt(Box::new(GrammarRule::Token("whitespace".to_string())))),
    };
    let f = get_simple_field(&rule, FieldMeta::default());
    assert_eq!(f.meta.label, Some("leading_"));
    assert_eq!(f.meta.flag, Some(FieldFlag::Optional));
    let (name, ty) = f.into_struct_field();
    assert_eq!(name, "leading_whitespace");
    assert_eq!(ty, "Option<WhitespaceToken>");
}

#[test]
fn repeated_node_as_variant() {
    let rule = GrammarRule::Rep(Box::new(GrammarRule::Node("FragmentItem".to_string())));
    let f = get_simple_field(&rule, FieldMeta::default());
    let (name, ty) = f.into_enum_variant();
    assert_eq!(name, "FragmentItems");
    assert_eq!(ty, "Vec<FragmentItem>");
}

#[test]
fn innermost_flag_wins() {
    let rule = GrammarRule::Opt(Box::new(GrammarRule::Rep(Box::new(GrammarRule::Node("Identifier".to_string())))));
    let f = get_simple_field(&rule, FieldMeta::default());
    assert_eq!(f.meta.flag, Some(FieldFlag::Repeated));
    assert_eq!(f.name, "identifier");
}
