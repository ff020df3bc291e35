use rubble_templates::bindings::Bindings;
use rubble_templates::compile_template_from_string;
use rubble_templates::compiler::{CompilationError, Compiler, TemplateCompiler};
use rubble_templates::engine::SimpleEvaluationEngine;
use rubble_templates::evaluator::{BoxedFunction, Context, EvaluationError, SyntaxError};
use rubble_templates::functions::SimpleFunction;
use rubble_templates::template::Template;
use rubble_templates::units::Position;

#[test]
fn should_compile_template() {
    let template = Template::from("Some simple-template. {{ variable }} - or something".to_string());
    let engine = SimpleEvaluationEngine::from(Bindings::new());
    let compiler = TemplateCompiler::new(engine);
    let mut variables = Bindings::new();
    variables.insert("variable".to_string(), "Hello world".to_string());

    let result = compiler.compile(&template, Context::with_variables(variables));

    assert_eq!(result, Ok("Some simple-template. Hello world - or something".to_string()));
}

#[test]
fn should_return_error_during_evaluation() {
    let template = Template::from("Should fail. {{ variable }}".to_string());
    let engine = SimpleEvaluationEngine::from(Bindings::new());
    let compiler = TemplateCompiler::new(engine);

    let result = compiler.compile(&template, Context::empty());

    assert_eq!(
        result,
        Err(CompilationError::EvaluationFailed {
            error: SyntaxError::at_position(
                Position::RelativeToCodeStart(1),
                EvaluationError::UnknownSymbol {
                    symbol: "variable".to_string()
                }
            ),
            position: Position::Absolute(13),
            source: "{{ variable }}".to_string()
        })
    );
}

#[test]
fn plus_function_compiles_end_to_end() {
    fn plus_function(parameters: &[String]) -> String {
        parameters
            .iter()
            .map(|param| param.parse::<f64>().unwrap())
            .sum::<f64>()
            .to_string()
    }

    let mut functions = Bindings::new();
    functions.insert(
        "plus".to_string(),
        BoxedFunction::from_boxed(SimpleFunction::new(plus_function)),
    );
    let variables: Bindings<String> = Bindings::new();

    let result =
        compile_template_from_string("2 + 2 = {{ plus 2 2 }}".to_string(), variables, functions);
    assert_eq!(result.ok(), Some("2 + 2 = 4".to_string()));
}

#[test]
fn template_without_markers_compiles_verbatim() {
    let input = "No markers here at all }} - not even one.";
    let result =
        compile_template_from_string(input.to_string(), Bindings::new(), Bindings::new());
    assert_eq!(result.ok(), Some(input.to_string()));
}

#[test]
fn empty_template_compiles_to_empty_output() {
    let result = compile_template_from_string(String::new(), Bindings::new(), Bindings::new());
    assert_eq!(result.ok(), Some(String::new()));
}

#[test]
fn failing_block_fails_the_whole_compile() {
    // the second block would evaluate, but the first one fails first
    let template = "a {{ missing }} b {{ \"ok!\" }}";
    let result =
        compile_template_from_string(template.to_string(), Bindings::new(), Bindings::new());
    assert_eq!(
        result,
        Err(CompilationError::EvaluationFailed {
            error: SyntaxError::at_position(
                Position::RelativeToCodeStart(1),
                EvaluationError::UnknownSymbol {
                    symbol: "missing".to_string()
                }
            ),
            position: Position::Absolute(2),
            source: "{{ missing }}".to_string()
        })
    );
}

#[test]
fn nested_expressions_compile() {
    fn join_function(parameters: &[String]) -> String {
        parameters.concat()
    }

    let mut functions = Bindings::new();
    functions.insert(
        "join".to_string(),
        BoxedFunction::from_boxed(SimpleFunction::new(join_function)),
    );

    let result = compile_template_from_string(
        "{{ join \"a \" (join \"b \" \"c\") }}".to_string(),
        Bindings::new(),
        functions,
    );
    assert_eq!(result.ok(), Some("a b c".to_string()));
}

#[test]
fn lib_should_compile_template() {
    fn plus_function(parameters: &[String]) -> String {
        parameters
            .iter()
            .map(|param| param.parse::<i32>().unwrap())
            .sum::<i32>()
            .to_string()
    }

    let mut functions = Bindings::new();
    functions.insert(
        "plus".to_string(),
        BoxedFunction::from_boxed(SimpleFunction::new(plus_function)),
    );

    let mut variables = Bindings::new();
    variables.insert("hello".to_string(), "Hello world!".to_string());

    let template = Template::from(
        "Some template. {{ hello }}.\n\nThis shows a function evaluation usage example:\n2 + 2 = {{ plus 2 2 }}"
            .to_string(),
    );
    let result = rubble_templates::compile_template_from(template, variables, functions);

    assert_eq!(
        result.ok(),
        Some(
            "Some template. Hello world!.\n\nThis shows a function evaluation usage example:\n2 + 2 = 4"
                .to_string()
        )
    );
}
