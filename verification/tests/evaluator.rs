use rubble_templates::ast::SyntaxNode;
use rubble_templates::bindings::Bindings;
use rubble_templates::engine::{with_invocation_pos, SimpleEvaluationEngine};
use rubble_templates::evaluator::{
    BoxedFunction, Context, EvaluationError, Evaluator, SyntaxError,
};
use rubble_templates::functions::{FunctionWithAst, FunctionWithContext, SimpleFunction};
use rubble_templates::units::Position;

fn node_of(identifier: &str) -> SyntaxNode {
    SyntaxNode::AnonymousNode {
        starts_at: Position::RelativeToCodeStart(0),
        children: vec![SyntaxNode::NamedNode {
            identifier: identifier.to_string(),
            starts_at: Position::RelativeToCodeStart(10),
            children: vec![],
        }],
    }
}

#[test]
fn should_evaluate_variable() {
    let mut variables = Bindings::new();
    variables.insert("variable".to_string(), "1234".to_string());
    let mut context = Context::with_variables(variables);
    let engine = SimpleEvaluationEngine::from(Bindings::new());

    // variable substitution
    let result = engine.evaluate(&node_of("variable"), &mut context);
    assert_eq!(result.ok(), Some("1234".to_string()));

    // number literal
    let result = engine.evaluate(&node_of("-12.2"), &mut context);
    assert_eq!(result.ok(), Some("-12.2".to_string()));

    // string literal
    let result = engine.evaluate(&node_of("\"test\""), &mut context);
    assert_eq!(result.ok(), Some("test".to_string()));
}

#[test]
fn should_evaluate_function() {
    let mut context = Context::empty();
    let mut functions = Bindings::new();

    // using a closure as a function in the evaluation engine
    let function = |_evaluator: &SimpleEvaluationEngine,
                    parameters: &[SyntaxNode],
                    _context: &mut Context| {
        if let Some(SyntaxNode::NamedNode { identifier, .. }) = parameters.get(0) {
            Result::Ok(identifier.clone())
        } else {
            Result::Err(SyntaxError::new(EvaluationError::InvalidArguments {
                description: None,
                arguments: parameters.to_vec(),
            }))
        }
    };

    functions.insert(
        "our_function".to_string(),
        BoxedFunction::from_boxed(FunctionWithAst::new(function)),
    );
    let engine = SimpleEvaluationEngine::from(functions);

    // our function call
    let node = SyntaxNode::NamedNode {
        identifier: "our_function".to_string(),
        starts_at: Position::Unknown,
        children: vec![SyntaxNode::NamedNode {
            identifier: "param".to_string(),
            starts_at: Position::Unknown,
            children: vec![],
        }],
    };

    // correct function call
    let result = engine.evaluate(&node, &mut context);
    assert_eq!(result.ok(), Some("param".to_string()));

    // incorrect function call
    let result = engine.evaluate(&node_of("our_function"), &mut context);
    assert_eq!(
        result.err(),
        Some(SyntaxError {
            relative_pos: Position::Unknown,
            invocation_pos: Position::RelativeToCodeStart(10),
            description: EvaluationError::InvalidArguments {
                description: None,
                arguments: vec![],
            },
        })
    )
}

#[test]
fn should_fail_evaluation() {
    let engine = SimpleEvaluationEngine::from(Bindings::new());
    let mut context = Context::empty();

    let result = engine.evaluate(&node_of("unknown"), &mut context);
    assert_eq!(
        result.err(),
        Some(SyntaxError {
            relative_pos: Position::RelativeToCodeStart(10),
            invocation_pos: Position::Unknown,
            description: EvaluationError::UnknownSymbol {
                symbol: "unknown".to_string()
            },
        })
    );
}

#[test]
fn variable_takes_precedence_over_function() {
    let mut variables = Bindings::new();
    variables.insert("name".to_string(), "from variable".to_string());
    let mut context = Context::with_variables(variables);

    let mut functions = Bindings::new();
    functions.insert(
        "name".to_string(),
        BoxedFunction::from_boxed(SimpleFunction::new(|_parameters: &[String]| {
            "from function".to_string()
        })),
    );
    let engine = SimpleEvaluationEngine::from(functions);

    let result = engine.evaluate(&node_of("name"), &mut context);
    assert_eq!(result.ok(), Some("from variable".to_string()));
}

#[test]
fn variable_reference_ignores_children() {
    let mut variables = Bindings::new();
    variables.insert("variable".to_string(), "value".to_string());
    let mut context = Context::with_variables(variables);
    let engine = SimpleEvaluationEngine::from(Bindings::new());

    let node = SyntaxNode::NamedNode {
        identifier: "variable".to_string(),
        starts_at: Position::RelativeToCodeStart(1),
        children: vec![SyntaxNode::NamedNode {
            identifier: "extra".to_string(),
            starts_at: Position::RelativeToCodeStart(10),
            children: vec![],
        }],
    };
    let result = engine.evaluate(&node, &mut context);
    assert_eq!(result.ok(), Some("value".to_string()));
}

#[test]
fn empty_anonymous_node_yields_empty_string() {
    let engine = SimpleEvaluationEngine::from(Bindings::new());
    let mut context = Context::empty();

    let node = SyntaxNode::AnonymousNode {
        starts_at: Position::RelativeToCodeStart(0),
        children: vec![],
    };
    let result = engine.evaluate(&node, &mut context);
    assert_eq!(result.ok(), Some("".to_string()));
}

#[test]
fn two_top_level_expressions_are_unexpected() {
    let engine = SimpleEvaluationEngine::from(Bindings::new());
    let mut context = Context::empty();

    let first = SyntaxNode::NamedNode {
        identifier: "a".to_string(),
        starts_at: Position::RelativeToCodeStart(1),
        children: vec![],
    };
    let second = SyntaxNode::NamedNode {
        identifier: "b".to_string(),
        starts_at: Position::RelativeToCodeStart(3),
        children: vec![],
    };
    let node = SyntaxNode::AnonymousNode {
        starts_at: Position::RelativeToCodeStart(0),
        children: vec![first.clone(), second.clone()],
    };

    let result = engine.evaluate(&node, &mut context);
    assert_eq!(
        result.err(),
        Some(SyntaxError {
            relative_pos: Position::RelativeToCodeStart(0),
            invocation_pos: Position::Unknown,
            description: EvaluationError::UnexpectedElements {
                last_expected: Some(first),
                unexpected_elements: vec![second],
            },
        })
    );
}

#[test]
fn function_error_carries_invocation_position() {
    let mut functions = Bindings::new();
    functions.insert(
        "failing".to_string(),
        BoxedFunction::from_boxed(FunctionWithContext::new(
            |_parameters: &[String], _context: &mut Context| {
                Err(SyntaxError::at_position(
                    Position::RelativeToInvocation(7),
                    EvaluationError::InvalidValues {
                        description: Some("bad value".to_string()),
                        values: vec!["x".to_string()],
                    },
                ))
            },
        )),
    );
    let engine = SimpleEvaluationEngine::from(functions);
    let mut context = Context::empty();

    let result = engine.evaluate(&node_of("failing"), &mut context);
    assert_eq!(
        result.err(),
        Some(SyntaxError {
            relative_pos: Position::RelativeToInvocation(7),
            invocation_pos: Position::RelativeToCodeStart(10),
            description: EvaluationError::InvalidValues {
                description: Some("bad value".to_string()),
                values: vec!["x".to_string()],
            },
        })
    );
}

#[test]
fn with_invocation_pos_keeps_cause_and_relative_position() {
    let error = SyntaxError::at_position(
        Position::RelativeToCodeStart(5),
        EvaluationError::UnknownSymbol {
            symbol: "x".to_string(),
        },
    );
    let rewritten = with_invocation_pos(error, Position::RelativeToCodeStart(2));
    assert_eq!(rewritten.relative_pos, Position::RelativeToCodeStart(5));
    assert_eq!(rewritten.invocation_pos, Position::RelativeToCodeStart(2));
    assert_eq!(
        rewritten.description,
        EvaluationError::UnknownSymbol {
            symbol: "x".to_string()
        }
    );
}

#[test]
fn numeric_literal_forms_evaluate_to_themselves() {
    let engine = SimpleEvaluationEngine::from(Bindings::new());
    let mut context = Context::empty();

    for numeral in ["42", "-12.2", "+0.5", ".5", "1.", "1e5", "2E-3", "inf", "NaN", "-infinity"] {
        let result = engine.evaluate(&node_of(numeral), &mut context);
        assert_eq!(result.ok(), Some(numeral.to_string()));
    }
}

#[test]
fn too_short_quoted_token_is_no_literal() {
    let engine = SimpleEvaluationEngine::from(Bindings::new());
    let mut context = Context::empty();

    let result = engine.evaluate(&node_of("\"\""), &mut context);
    assert_eq!(
        result.err(),
        Some(SyntaxError {
            relative_pos: Position::RelativeToCodeStart(10),
            invocation_pos: Position::Unknown,
            description: EvaluationError::UnknownSymbol {
                symbol: "\"\"".to_string()
            },
        })
    );
}

#[test]
fn context_state_round_trip() {
    let mut context = Context::empty();
    assert!(context.get_state::<i32>().is_none());

    context.save_state(41i32);
    assert_eq!(context.get_state::<i32>(), Some(&41));

    // a second value of the same type replaces the first
    context.save_state(42i32);
    assert_eq!(context.get_state::<i32>(), Some(&42));

    // other types are unaffected
    assert!(context.get_state::<bool>().is_none());
    context.save_state(true);
    assert_eq!(context.get_state::<bool>(), Some(&true));
    assert_eq!(context.get_state::<i32>(), Some(&42));
}

#[test]
fn set_variable_overwrites() {
    let mut context = Context::empty();
    assert!(context.get_variable("x").is_none());
    context.set_variable("x", "1");
    assert_eq!(context.get_variable("x"), Some(&"1".to_string()));
    context.set_variable("x", "2");
    assert_eq!(context.get_variable("x"), Some(&"2".to_string()));
}
