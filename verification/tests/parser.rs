use rubble_templates::ast::SyntaxNode::{AnonymousNode, NamedNode};
use rubble_templates::parser::parse_ast;
use rubble_templates::units::Position;

#[test]
fn should_parse_ast() {
    // every identifier is recorded at its exact 0-based character offset in
    // the marker-stripped text " (list 1 2 (if a b c)) "
    let input = "{{ (list 1 2 (if a b c)) }}";
    let actual = parse_ast(input, "{{", "}}");

    let expected = AnonymousNode {
        starts_at: Position::RelativeToCodeStart(0),
        children: vec![NamedNode {
            identifier: "list".to_string(),
            starts_at: Position::RelativeToCodeStart(2),
            children: vec![
                NamedNode {
                    identifier: "1".to_string(),
                    children: vec![],
                    starts_at: Position::RelativeToCodeStart(7),
                },
                NamedNode {
                    identifier: "2".to_string(),
                    starts_at: Position::RelativeToCodeStart(9),
                    children: vec![],
                },
                NamedNode {
                    identifier: "if".to_string(),
                    starts_at: Position::RelativeToCodeStart(12),
                    children: vec![
                        NamedNode {
                            identifier: "a".to_string(),
                            starts_at: Position::RelativeToCodeStart(15),
                            children: vec![],
                        },
                        NamedNode {
                            identifier: "b".to_string(),
                            starts_at: Position::RelativeToCodeStart(17),
                            children: vec![],
                        },
                        NamedNode {
                            identifier: "c".to_string(),
                            starts_at: Position::RelativeToCodeStart(19),
                            children: vec![],
                        },
                    ],
                },
            ],
        }],
    };
    assert_eq!(expected, actual);
}

#[test]
fn ast_should_parse_ast() {
    // the same structural check once more, the markers stripped by the parser
    let input = "{{ (list 1 2 (if a b c)) }}";
    let actual = parse_ast(input, "{{", "}}");
    let reference = parse_ast(" (list 1 2 (if a b c)) ", "{{", "}}");
    assert_eq!(reference, actual);
}

#[test]
fn parse_accepts_unbalanced_parentheses() {
    // an unmatched opening parenthesis ends the scan at the end of the input
    let actual = parse_ast("{{ (plus 1 2 }}", "{{", "}}");

    let expected = AnonymousNode {
        starts_at: Position::RelativeToCodeStart(0),
        children: vec![NamedNode {
            identifier: "plus".to_string(),
            starts_at: Position::RelativeToCodeStart(2),
            children: vec![
                NamedNode {
                    identifier: "1".to_string(),
                    starts_at: Position::RelativeToCodeStart(7),
                    children: vec![],
                },
                NamedNode {
                    identifier: "2".to_string(),
                    starts_at: Position::RelativeToCodeStart(9),
                    children: vec![],
                },
            ],
        }],
    };
    assert_eq!(expected, actual);
}

#[test]
fn parse_quoted_token_keeps_spaces_and_quotes() {
    let actual = parse_ast("{{ concat \"a b\" }}", "{{", "}}");

    let expected = NamedNode {
        identifier: "concat".to_string(),
        starts_at: Position::RelativeToCodeStart(1),
        children: vec![NamedNode {
            identifier: "\"a b\"".to_string(),
            starts_at: Position::RelativeToCodeStart(8),
            children: vec![],
        }],
    };
    assert_eq!(expected, actual);
}

#[test]
fn parse_without_markers_is_unchanged_input() {
    // marker stripping only applies when the markers are present; a trailing
    // token that no delimiter closes is dropped, so the block stays anonymous
    let actual = parse_ast("a", "{{", "}}");
    let expected = AnonymousNode {
        starts_at: Position::RelativeToCodeStart(0),
        children: vec![],
    };
    assert_eq!(expected, actual);
}

#[test]
fn parse_parentheses_inside_quotes_are_plain_characters() {
    let actual = parse_ast("{{ f \"(x)\" }}", "{{", "}}");

    let expected = NamedNode {
        identifier: "f".to_string(),
        starts_at: Position::RelativeToCodeStart(1),
        children: vec![NamedNode {
            identifier: "\"(x)\"".to_string(),
            starts_at: Position::RelativeToCodeStart(3),
            children: vec![],
        }],
    };
    assert_eq!(expected, actual);
}

#[test]
fn parse_token_directly_before_parenthesis() {
    // the token is flushed once, and the scan resumes just past the child
    let actual = parse_ast("{{ f(x) y }}", "{{", "}}");

    let expected = NamedNode {
        identifier: "f".to_string(),
        starts_at: Position::RelativeToCodeStart(1),
        children: vec![
            NamedNode {
                identifier: "x".to_string(),
                starts_at: Position::RelativeToCodeStart(3),
                children: vec![],
            },
            NamedNode {
                identifier: "y".to_string(),
                starts_at: Position::RelativeToCodeStart(6),
                children: vec![],
            },
        ],
    };
    assert_eq!(expected, actual);
}
