use rubble_templates::ast::SyntaxNode;
use rubble_templates::bindings::Bindings;
use rubble_templates::compile_template_from_string;
use rubble_templates::engine::SimpleEvaluationEngine;
use rubble_templates::evaluator::{
    BoxedFunction, Context, EvaluationError, Evaluator, SyntaxError,
};
use rubble_templates::functions::{FunctionWithAst, FunctionWithContext, SimpleFunction};

fn if_function(
    evaluator: &SimpleEvaluationEngine,
    parameters: &[SyntaxNode],
    context: &mut Context,
) -> Result<String, SyntaxError> {
    if parameters.len() != 3 {
        return Err(SyntaxError::new(EvaluationError::InvalidArguments {
            description: Some("an if needs a condition and two branches".to_string()),
            arguments: parameters.to_vec(),
        }));
    }
    let condition = evaluator.evaluate(&parameters[0], context)?;
    if condition == "1" {
        evaluator.evaluate(&parameters[1], context)
    } else {
        evaluator.evaluate(&parameters[2], context)
    }
}

fn if_registry() -> Bindings<BoxedFunction> {
    let mut functions = Bindings::new();
    functions.insert(
        "if".to_string(),
        BoxedFunction::from_boxed(FunctionWithAst::new(if_function)),
    );
    functions
}

#[test]
fn ast_function_evaluates_only_the_taken_branch() {
    // the else branch holds an unknown symbol; it must never be evaluated
    let result = compile_template_from_string(
        "{{ if 1 \"yes\" (boom) }}".to_string(),
        Bindings::new(),
        if_registry(),
    );
    assert_eq!(result.ok(), Some("yes".to_string()));
}

#[test]
fn ast_function_error_surfaces_from_the_taken_branch() {
    let result = compile_template_from_string(
        "{{ if 0 \"yes\" (boom) }}".to_string(),
        Bindings::new(),
        if_registry(),
    );
    assert!(result.is_err());
}

#[test]
fn context_changes_carry_over_between_code_blocks() {
    let mut functions = Bindings::new();
    functions.insert(
        "remember".to_string(),
        BoxedFunction::from_boxed(FunctionWithContext::new(
            |parameters: &[String], context: &mut Context| {
                if let Some(value) = parameters.get(0) {
                    context.set_variable("memory", value);
                    Ok("".to_string())
                } else {
                    Err(SyntaxError::new(EvaluationError::InvalidArguments {
                        description: Some("nothing to remember".to_string()),
                        arguments: vec![],
                    }))
                }
            },
        )),
    );

    let result = compile_template_from_string(
        "{{ remember \"it!\" }}I remembered: {{ memory }}".to_string(),
        Bindings::new(),
        functions,
    );
    assert_eq!(result.ok(), Some("I remembered: it!".to_string()));
}

#[test]
fn simple_function_parameters_are_resolved_in_order() {
    let mut functions = Bindings::new();
    functions.insert(
        "join".to_string(),
        BoxedFunction::from_boxed(SimpleFunction::new(|parameters: &[String]| {
            parameters.join("|")
        })),
    );
    let mut variables = Bindings::new();
    variables.insert("x".to_string(), "middle".to_string());

    let result = compile_template_from_string(
        "{{ join \"first\" x 3 }}".to_string(),
        variables,
        functions,
    );
    assert_eq!(result.ok(), Some("first|middle|3".to_string()));
}

#[test]
fn first_failing_parameter_aborts_the_call() {
    let mut functions = Bindings::new();
    functions.insert(
        "join".to_string(),
        BoxedFunction::from_boxed(SimpleFunction::new(|parameters: &[String]| {
            parameters.join("|")
        })),
    );

    let result = compile_template_from_string(
        "{{ join \"ok\" nope \"ok\" }}".to_string(),
        Bindings::new(),
        functions,
    );
    let error = result.err().expect("the unknown parameter must fail the call");
    match error {
        rubble_templates::compiler::CompilationError::EvaluationFailed { error, .. } => {
            assert_eq!(
                error.description,
                EvaluationError::UnknownSymbol {
                    symbol: "nope".to_string()
                }
            );
        },
    }
}
