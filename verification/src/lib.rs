//! A small embedded expression language for text templates.
//!
//! Templates are plain text with code blocks between `{{` and `}}` markers.
//! Each code block holds a Lisp-like expression (`fn arg0 arg1 (nested args)`)
//! that is parsed into a syntax tree and evaluated against a mutable context
//! of named variables and a registry of caller-supplied functions.  The
//! resulting strings are spliced back into the surrounding text.

use vstd::prelude::*;

pub mod units;
pub mod ast;
pub mod bindings;
pub mod literal;
pub mod evaluator;
pub mod engine;
pub mod functions;
pub mod parser;
pub mod template;
pub mod compiler;
pub mod std_fun;

use crate::bindings::Bindings;
use crate::compiler::{
    compile_failed, compiled_slices, lemma_no_markers_compiles_verbatim, CompilationError,
    TemplateCompiler, Compiler,
};
use crate::engine::SimpleEvaluationEngine;
use crate::evaluator::{vars_view, BoxedFunction, Context};
use crate::template::{find_from, start_marker, template_slices, Template, EvaluableMixedContent};

verus! {

/// Compiles a template, given its variables and its registered functions.
///
/// A fresh context seeded with the variables is used for the whole
/// compilation and discarded afterwards.  Every code block between `{{` and
/// `}}` is parsed and evaluated by a [`SimpleEvaluationEngine`] over the
/// given functions; a template with no `{{` marker compiles to itself.
pub fn compile_template_from(
    template: Template,
    variables: Bindings<String>,
    functions: Bindings<BoxedFunction>,
) -> (r: Result<String, CompilationError>)
    requires
        template@.len() < usize::MAX,
    ensures
        exists|engine: SimpleEvaluationEngine, ctx: Context|
            #![trigger engine.function_names(), ctx.variables()]
            {
                &&& engine.function_names() == functions@.dom()
                &&& ctx.variables() == vars_view(variables@)
                &&& match r {
                    Ok(output) => compiled_slices(
                        engine,
                        template_slices(template@, 0),
                        ctx,
                        output@,
                    ),
                    Err(error) => compile_failed(
                        engine,
                        template_slices(template@, 0),
                        ctx,
                        error,
                    ),
                }
            },
        find_from(template@, 0, start_marker()) is None ==> (r matches Ok(output) && output@
            == template@),
{
    let engine = SimpleEvaluationEngine::from(functions);
    let ghost engine_v = engine;
    let compiler = TemplateCompiler::new(engine);
    let context = Context::with_variables(variables);
    let ghost ctx_v = context;
    let r = compiler.compile(&template, context);
    proof {
        if find_from(template@, 0, start_marker()) is None {
            lemma_no_markers_compiles_verbatim(engine_v, template@, ctx_v, r);
        }
    }
    r
}

/// Compiles a template given as a string; see [`compile_template_from`].
pub fn compile_template_from_string(
    template: String,
    variables: Bindings<String>,
    functions: Bindings<BoxedFunction>,
) -> (r: Result<String, CompilationError>)
    requires
        template@.len() < usize::MAX,
    ensures
        exists|engine: SimpleEvaluationEngine, ctx: Context|
            #![trigger engine.function_names(), ctx.variables()]
            {
                &&& engine.function_names() == functions@.dom()
                &&& ctx.variables() == vars_view(variables@)
                &&& match r {
                    Ok(output) => compiled_slices(
                        engine,
                        template_slices(template@, 0),
                        ctx,
                        output@,
                    ),
                    Err(error) => compile_failed(
                        engine,
                        template_slices(template@, 0),
                        ctx,
                        error,
                    ),
                }
            },
        find_from(template@, 0, start_marker()) is None ==> (r matches Ok(output) && output@
            == template@),
{
    compile_template_from(Template::from(template), variables, functions)
}

} // verus!
