use rubble_templates::ast::SyntaxNode;
use rubble_templates::bindings::Bindings;
use rubble_templates::compiler::{CompilationError, Compiler, TemplateCompiler};
use rubble_templates::engine::SimpleEvaluationEngine;
use rubble_templates::evaluator::{
    BoxedFunction, Context, EvaluationError, Evaluator, SyntaxError,
};
use rubble_templates::functions::FunctionWithAst;
use rubble_templates::template::Template;
use rubble_templates::units::Position;

fn node_of(identifier: &str) -> SyntaxNode {
    SyntaxNode::AnonymousNode {
        starts_at: Position::RelativeToCodeStart(0),
        children: vec![SyntaxNode::NamedNode {
            identifier: identifier.to_string(),
            starts_at: Position::RelativeToCodeStart(0),
            children: vec![],
        }],
    }
}

#[test]
fn engine_should_evaluate_variable() {
    let mut variables = Bindings::new();
    variables.insert("variable".to_string(), "1234".to_string());
    let mut context = Context::with_variables(variables);
    let engine = SimpleEvaluationEngine::from(Bindings::new());

    // variable substitution
    let result = engine.evaluate(&node_of("variable"), &mut context);
    assert_eq!(result.ok(), Some("1234".to_string()));

    // number literal
    let result = engine.evaluate(&node_of("-12.2"), &mut context);
    assert_eq!(result.ok(), Some("-12.2".to_string()));

    // string literal
    let result = engine.evaluate(&node_of("\"test\""), &mut context);
    assert_eq!(result.ok(), Some("test".to_string()));
}

#[test]
fn engine_should_evaluate_function() {
    let mut context = Context::empty();
    let mut functions = Bindings::new();

    let function = |_evaluator: &SimpleEvaluationEngine,
                    parameters: &[SyntaxNode],
                    _context: &mut Context| {
        if let Some(SyntaxNode::NamedNode { identifier, .. }) = parameters.get(0) {
            Result::Ok(identifier.clone())
        } else {
            Result::Err(SyntaxError::new(EvaluationError::InvalidArguments {
                description: None,
                arguments: parameters.to_vec(),
            }))
        }
    };

    functions.insert(
        "our_function".to_string(),
        BoxedFunction::from_boxed(FunctionWithAst::new(function)),
    );
    let engine = SimpleEvaluationEngine::from(functions);

    // our function call
    let node = SyntaxNode::NamedNode {
        identifier: "our_function".to_string(),
        starts_at: Position::RelativeToCodeStart(0),
        children: vec![SyntaxNode::NamedNode {
            identifier: "param".to_string(),
            starts_at: Position::RelativeToCodeStart(0),
            children: vec![],
        }],
    };

    // correct function call
    let result = engine.evaluate(&node, &mut context);
    assert_eq!(result.ok(), Some("param".to_string()));

    // incorrect function call
    let result = engine.evaluate(&node_of("our_function"), &mut context);
    assert_eq!(
        result.err(),
        Some(SyntaxError {
            relative_pos: Position::Unknown,
            invocation_pos: Position::RelativeToCodeStart(0),
            description: EvaluationError::InvalidArguments {
                description: None,
                arguments: vec![],
            },
        })
    )
}

#[test]
fn engine_should_fail_evaluation() {
    let engine = SimpleEvaluationEngine::from(Bindings::new());
    let mut context = Context::empty();

    let result = engine.evaluate(&node_of("unknown"), &mut context);
    assert_eq!(
        result.err(),
        Some(SyntaxError {
            relative_pos: Position::RelativeToCodeStart(0),
            invocation_pos: Position::Unknown,
            description: EvaluationError::UnknownSymbol {
                symbol: "unknown".to_string()
            },
        })
    );
}

#[test]
fn compiler_should_compile_template() {
    let template = Template::from("Some simple-template. {{ variable }} - or something".to_string());
    let engine = SimpleEvaluationEngine::from(Bindings::new());
    let compiler = TemplateCompiler::new(engine);
    let mut variables = Bindings::new();
    variables.insert("variable".to_string(), "Hello world".to_string());

    let result = compiler.compile(&template, Context::with_variables(variables));

    assert_eq!(result, Ok("Some simple-template. Hello world - or something".to_string()));
}

#[test]
fn compiler_should_return_error_during_evaluation() {
    let template = Template::from("Should fail. {{ variable }}".to_string());
    let engine = SimpleEvaluationEngine::from(Bindings::new());
    let compiler = TemplateCompiler::new(engine);

    let result = compiler.compile(&template, Context::empty());

    assert_eq!(
        result,
        Err(CompilationError::EvaluationFailed {
            error: SyntaxError::at_position(
                Position::RelativeToCodeStart(1),
                EvaluationError::UnknownSymbol {
                    symbol: "variable".to_string()
                }
            ),
            position: Position::Absolute(13),
            source: "{{ variable }}".to_string()
        })
    );
}
