use rubble_templates::compile_template_from_string;
use rubble_templates::bindings::Bindings;
use rubble_templates::literal::extract_literal;
use rubble_templates::std_fun::strings::{
    concat_function, quotes_function, right_brackets_function, string_functions, trim_function,
};
use rubble_templates::units::Position;
use rubble_templates::ast::SyntaxNode;

#[test]
fn concat_joins_parameters() {
    let params = vec![
        "1".to_string(),
        "hello".to_string(),
        " ".to_string(),
        "3.14".to_string(),
        "world!".to_string(),
    ];
    assert_eq!(concat_function(&params), "1hello 3.14world!".to_string());
    assert_eq!(concat_function(&[]), "".to_string());
}

#[test]
fn trim_trims_and_joins_parameters() {
    let params = vec![
        " hello ".to_string(),
        "   world".to_string(),
        "text  ".to_string(),
    ];
    assert_eq!(trim_function(&params), "helloworldtext".to_string());
    assert_eq!(trim_function(&["  \t\n  ".to_string()]), "".to_string());
}

#[test]
fn marker_helpers_ignore_parameters() {
    assert_eq!(right_brackets_function(&["x".to_string()]), "}}".to_string());
    assert_eq!(quotes_function(&[]), "\"".to_string());
}

#[test]
fn string_functions_evaluate_in_templates() {
    let result = compile_template_from_string(
        "{{ concat 1 \"hello\" \" \" 3.14 \"world!\" }}".to_string(),
        Bindings::new(),
        string_functions(),
    );
    assert_eq!(result.ok(), Some("1hello 3.14world!".to_string()));

    let result = compile_template_from_string(
        "closing: {{ $} }}".to_string(),
        Bindings::new(),
        string_functions(),
    );
    assert_eq!(result.ok(), Some("closing: }}".to_string()));

    let result = compile_template_from_string(
        "a quote: {{ $quote }}".to_string(),
        Bindings::new(),
        string_functions(),
    );
    assert_eq!(result.ok(), Some("a quote: \"".to_string()));
}

#[test]
fn extract_literal_recognizes_numbers_and_strings() {
    for numeral in ["1", "-12.2", "+0.5", ".5", "1.", "1e5", "2E-3", "inf", "Infinity", "nan"] {
        assert_eq!(extract_literal(&numeral.to_string()), Some(numeral.to_string()));
    }
    assert_eq!(extract_literal(&"\"ab\"".to_string()), Some("ab".to_string()));
    for not_literal in
        ["", "+", "-", ".", "e5", "1e", "1e+", "--1", "1.2.3", "in", "infinit", "\"\"", "\"a",
            "abc", "1 2"] {
        assert_eq!(extract_literal(&not_literal.to_string()), None);
    }
}

#[test]
fn bindings_insert_and_get() {
    let mut bindings: Bindings<String> = Bindings::new();
    assert!(bindings.get("a").is_none());
    bindings.insert("a".to_string(), "1".to_string());
    bindings.insert("b".to_string(), "2".to_string());
    assert_eq!(bindings.get("a"), Some(&"1".to_string()));
    assert_eq!(bindings.get("b"), Some(&"2".to_string()));
    bindings.insert("a".to_string(), "3".to_string());
    assert_eq!(bindings.get("a"), Some(&"3".to_string()));
    assert!(bindings.get("c").is_none());
}

#[test]
fn position_raw_value_unwraps_the_offset() {
    assert_eq!(Position::Unknown.raw_value(), None);
    assert_eq!(Position::RelativeToInvocation(3).raw_value(), Some(3));
    assert_eq!(Position::RelativeToCodeStart(4).raw_value(), Some(4));
    assert_eq!(Position::Absolute(5).raw_value(), Some(5));
}

#[test]
fn syntax_node_building_blocks() {
    let anonymous = SyntaxNode::AnonymousNode {
        starts_at: Position::RelativeToCodeStart(0),
        children: vec![],
    };
    assert!(anonymous.is_anonymous());

    let child = SyntaxNode::NamedNode {
        identifier: "child".to_string(),
        starts_at: Position::RelativeToCodeStart(5),
        children: vec![],
    };
    let with_child = anonymous.add_child(child.clone());
    let named = with_child.with_identifier("parent", Position::RelativeToCodeStart(1));
    assert!(!named.is_anonymous());

    let expected = SyntaxNode::NamedNode {
        identifier: "parent".to_string(),
        starts_at: Position::RelativeToCodeStart(1),
        children: vec![child],
    };
    assert_eq!(named, expected);
    assert_eq!(named.clone(), expected);
}
