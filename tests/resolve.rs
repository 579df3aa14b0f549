use mkvm::resolve::{resolve, resolve_fragments, ResolveError};

const PASSES: u64 = 100;

#[test]
fn two_fragments_converge() {
    let texts = vec!["value: 1".to_string(), "other: \"{{value}}\"".to_string()];
    let out = resolve_fragments(&texts, 2).unwrap();
    assert!(out.contains("other: \"1\""));
    assert!(!out.contains("{{"));
}

#[test]
fn resolved_text_is_a_fixed_point() {
    let texts = vec!["value: 1".to_string(), "other: \"{{value}}\"".to_string()];
    let out = resolve_fragments(&texts, PASSES).unwrap();
    assert_eq!(resolve(out.clone(), PASSES), Ok(out.clone()));
    assert_eq!(resolve(out.clone(), 1), Ok(out));
}

#[test]
fn text_without_templates_is_unchanged() {
    let text = "a: 1\nb: two\n".to_string();
    assert_eq!(resolve(text.clone(), 1), Ok(text));
}

#[test]
fn chained_templates_need_several_passes() {
    let text = "a: 1\nb: \"{{c}}\"\nc: \"{{a}}\"\n".to_string();
    assert_eq!(resolve(text.clone(), 2), Err(ResolveError::NotConverged));
    let out = resolve(text, PASSES).unwrap();
    assert_eq!(out, "a: 1\nb: \"1\"\nc: \"1\"\n");
}

#[test]
fn zero_passes_do_not_converge() {
    assert_eq!(resolve("a: 1".to_string(), 0), Err(ResolveError::NotConverged));
}

#[test]
fn malformed_expression_is_a_template_error() {
    let r = resolve("a: \"{{#if}}\"".to_string(), PASSES);
    assert!(matches!(r, Err(ResolveError::Template(_))));
}

#[test]
fn invalid_yaml_is_a_yaml_error() {
    let r = resolve("a: [1, 2".to_string(), PASSES);
    assert!(matches!(r, Err(ResolveError::Yaml(_))));
}

#[test]
fn partial_calls_are_refused() {
    let r = resolve("a: '{{#*inline \"p\"}}{{> p}}{{/inline}}{{> p}}'".to_string(), PASSES);
    assert!(matches!(r, Err(ResolveError::Template(_))));
    let r = resolve("a: '{{~> p}}'".to_string(), PASSES);
    assert!(matches!(r, Err(ResolveError::Template(_))));
    let r = resolve("a: '{{#> p}}x{{/p}}'".to_string(), PASSES);
    assert!(matches!(r, Err(ResolveError::Template(_))));
}

#[test]
fn comparison_in_text_is_not_a_partial() {
    let text = "a: 'x > y'\nb: '{ {> }'\n".to_string();
    assert_eq!(resolve(text.clone(), PASSES), Ok(text));
}

#[test]
fn unclosed_block_is_a_template_error() {
    let r = resolve("a: '{{#if x}}'".to_string(), PASSES);
    assert!(matches!(r, Err(ResolveError::Template(_))));
}
