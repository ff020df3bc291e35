//! Convenience adapters for writing pluggable functions.
//!
//! The [`Function`](crate::evaluator::Function) trait is the single contract;
//! the three adapters here layer convenience over it:
//! * [`SimpleFunction`] wraps a plain closure over pre-evaluated argument
//!   strings; it cannot fail on its own and cannot touch the context.
//! * [`FunctionWithContext`] wraps a closure over pre-evaluated argument
//!   strings and the mutable context; it may fail with a syntax error.
//! * [`FunctionWithAst`] wraps a closure that receives the evaluator, the
//!   unevaluated parameter nodes and the mutable context, and so fully
//!   controls whether and in what order parameters are evaluated.

use vstd::prelude::*;
use crate::ast::{SyntaxNode, SyntaxNodeV, nodes_view, node_view, lemma_nodes_view};
use crate::engine::SimpleEvaluationEngine;
use crate::evaluator::{Context, Evaluator, Function, SyntaxError};

verus! {

/// One finished run of parameter resolution: every parameter evaluated in
/// order, each against the context the previous one left behind.
pub open spec fn params_resolved<E: Evaluator>(
    evaluator: E,
    parameters: Seq<SyntaxNodeV>,
    ctx_before: Context,
    ctx_after: Context,
    values: Seq<String>,
) -> bool
    decreases parameters.len(),
{
    if parameters.len() == 0 {
        values.len() == 0 && ctx_after == ctx_before
    } else {
        &&& values.len() == parameters.len()
        &&& exists|mid: Context|
            {
                &&& #[trigger] evaluator.evaluate_post(
                    parameters[0],
                    ctx_before,
                    mid,
                    Ok(values[0]),
                )
                &&& params_resolved(
                    evaluator,
                    parameters.drop_first(),
                    mid,
                    ctx_after,
                    values.drop_first(),
                )
            }
    }
}

/// A failed run of parameter resolution: some prefix of the parameters
/// evaluated in order, then one failed with this error; nothing after it was
/// touched.
pub open spec fn params_failed<E: Evaluator>(
    evaluator: E,
    parameters: Seq<SyntaxNodeV>,
    ctx_before: Context,
    ctx_after: Context,
    error: SyntaxError,
) -> bool
    decreases parameters.len(),
{
    &&& parameters.len() > 0
    &&& {
        ||| evaluator.evaluate_post(parameters[0], ctx_before, ctx_after, Err(error))
        ||| exists|mid: Context, value: String|
            {
                &&& #[trigger] evaluator.evaluate_post(parameters[0], ctx_before, mid, Ok(value))
                &&& params_failed(
                    evaluator,
                    parameters.drop_first(),
                    mid,
                    ctx_after,
                    error,
                )
            }
    }
}

/// Extending a finished run by one more successful evaluation.
proof fn lemma_params_resolved_snoc<E: Evaluator>(
    evaluator: E,
    parameters: Seq<SyntaxNodeV>,
    c0: Context,
    c1: Context,
    values: Seq<String>,
    node: SyntaxNodeV,
    c2: Context,
    value: String,
)
    requires
        params_resolved(evaluator, parameters, c0, c1, values),
        evaluator.evaluate_post(node, c1, c2, Ok(value)),
    ensures
        params_resolved(evaluator, parameters.push(node), c0, c2, values.push(value)),
    decreases parameters.len(),
{
    let ps = parameters.push(node);
    let vs = values.push(value);
    if parameters.len() == 0 {
        assert(ps[0] == node);
        assert(vs[0] == value);
        assert(ps.drop_first() =~= Seq::<SyntaxNodeV>::empty());
        assert(vs.drop_first() =~= Seq::<String>::empty());
        assert(evaluator.evaluate_post(ps[0], c0, c2, Ok(vs[0])));
        assert(params_resolved(evaluator, ps.drop_first(), c2, c2, vs.drop_first()));
    } else {
        let mid = choose|mid: Context|
            {
                &&& #[trigger] evaluator.evaluate_post(parameters[0], c0, mid, Ok(values[0]))
                &&& params_resolved(
                    evaluator,
                    parameters.drop_first(),
                    mid,
                    c1,
                    values.drop_first(),
                )
            };
        lemma_params_resolved_snoc(
            evaluator,
            parameters.drop_first(),
            mid,
            c1,
            values.drop_first(),
            node,
            c2,
            value,
        );
        assert(ps.drop_first() =~= parameters.drop_first().push(node));
        assert(vs.drop_first() =~= values.drop_first().push(value));
        assert(ps[0] == parameters[0]);
        assert(vs[0] == values[0]);
        assert(evaluator.evaluate_post(ps[0], c0, mid, Ok(vs[0])));
    }
}

/// A finished prefix followed by one failing evaluation fails the whole run,
/// whatever parameters follow.
proof fn lemma_params_failed_embed<E: Evaluator>(
    evaluator: E,
    prefix: Seq<SyntaxNodeV>,
    c0: Context,
    c1: Context,
    values: Seq<String>,
    full: Seq<SyntaxNodeV>,
    c2: Context,
    error: SyntaxError,
)
    requires
        params_resolved(evaluator, prefix, c0, c1, values),
        prefix.len() < full.len(),
        full.take(prefix.len() as int) == prefix,
        evaluator.evaluate_post(full[prefix.len() as int], c1, c2, Err(error)),
    ensures
        params_failed(evaluator, full, c0, c2, error),
    decreases prefix.len(),
{
    if prefix.len() == 0 {
        assert(c1 == c0);
    } else {
        let mid = choose|mid: Context|
            {
                &&& #[trigger] evaluator.evaluate_post(prefix[0], c0, mid, Ok(values[0]))
                &&& params_resolved(evaluator, prefix.drop_first(), mid, c1, values.drop_first())
            };
        assert(full[0] == full.take(prefix.len() as int)[0]);
        assert(full[0] == prefix[0]);
        assert(full.drop_first().take(prefix.len() - 1) =~= prefix.drop_first()) by {
            assert(forall|j: int|
                0 <= j < prefix.len() - 1 ==> full.drop_first()[j] == full[j + 1]
                    && #[trigger] prefix.drop_first()[j] == prefix[j + 1]);
            assert(forall|j: int|
                0 <= j < prefix.len() ==> #[trigger] full[j] == full.take(prefix.len() as int)[j]);
        }
        assert(full.drop_first()[prefix.len() - 1] == full[prefix.len() as int]);
        lemma_params_failed_embed(
            evaluator,
            prefix.drop_first(),
            mid,
            c1,
            values.drop_first(),
            full.drop_first(),
            c2,
            error,
        );
    }
}

/// Resolves a slice of parameter nodes to their values.
///
/// Every parameter is evaluated in order against the given evaluator and
/// context; the first failure aborts the run and is returned as it is, with
/// no values and no aggregation of later errors.
pub fn resolve_params<E: Evaluator>(
    evaluator: &E,
    parameters: &[SyntaxNode],
    context: &mut Context,
) -> (r: Result<Vec<String>, SyntaxError>)
    ensures
        match r {
            Ok(values) => params_resolved(
                *evaluator,
                nodes_view(parameters@),
                *old(context),
                *final(context),
                values@,
            ),
            Err(error) => params_failed(
                *evaluator,
                nodes_view(parameters@),
                *old(context),
                *final(context),
                error,
            ),
        },
{
    let ghost all = nodes_view(parameters@);
    proof {
        lemma_nodes_view(parameters@);
    }
    let mut values: Vec<String> = Vec::new();
    let n = parameters.len();
    let mut i: usize = 0;
    proof {
        assert(all.take(0) =~= Seq::<SyntaxNodeV>::empty());
    }
    while i < n
        invariant
            n == parameters@.len(),
            i <= n,
            all == nodes_view(parameters@),
            all.len() == n,
            forall|j: int| 0 <= j < n ==> all[j] == node_view(parameters@[j]),
            values@.len() == i,
            params_resolved(*evaluator, all.take(i as int), *old(context), *context, values@),
        decreases n - i,
    {
        let ghost ctx_mid = *context;
        let ghost prefix = all.take(i as int);
        let ghost vals_prefix = values@;
        let node = &parameters[i];
        match evaluator.evaluate(node, context) {
            Ok(value) => {
                proof {
                    lemma_params_resolved_snoc(
                        *evaluator,
                        prefix,
                        *old(context),
                        ctx_mid,
                        vals_prefix,
                        all[i as int],
                        *context,
                        value,
                    );
                    assert(all.take(i as int + 1) =~= prefix.push(all[i as int]));
                }
                values.push(value);
            },
            Err(error) => {
                proof {
                    lemma_params_failed_embed(
                        *evaluator,
                        prefix,
                        *old(context),
                        ctx_mid,
                        vals_prefix,
                        all,
                        *context,
                        error,
                    );
                }
                return Err(error);
            },
        }
        i = i + 1;
    }
    proof {
        assert(all.take(n as int) =~= all);
    }
    Ok(values)
}

/// A wrapper that turns a plain closure over argument strings into a
/// [`Function`].
///
/// The adapter evaluates every parameter node in order and hands the values
/// to the closure; the first parameter that fails to evaluate aborts the call
/// with its error.
pub struct SimpleFunction<F> where F: Fn(&[String]) -> String {
    function: F,
}

impl<F: Fn(&[String]) -> String> SimpleFunction<F> {
    /// The closure this adapter wraps.
    pub closed spec fn wrapped(&self) -> F {
        self.function
    }

    /// The wrapped closure can take any argument strings.
    #[verifier::type_invariant]
    spec fn callable(self) -> bool {
        forall|p: &[String]| #[trigger] call_requires(self.function, (p,))
    }

    /// Wraps a closure, boxed and ready for a registry.
    pub fn new(function: F) -> (r: Box<SimpleFunction<F>>)
        requires
            forall|p: &[String]| #[trigger] call_requires(function, (p,)),
    {
        Box::new(SimpleFunction { function })
    }
}

impl<F: Fn(&[String]) -> String> Function for SimpleFunction<F> {
    /// The adapter resolves every parameter in order: on success the call
    /// returns what the wrapped closure made of the resolved values, and on
    /// failure the first failing parameter's error, untouched.  The closure
    /// itself cannot fail and never sees the context.
    open spec fn post(
        &self,
        evaluator: SimpleEvaluationEngine,
        parameters: Seq<SyntaxNodeV>,
        ctx_before: Context,
        ctx_after: Context,
        r: Result<String, SyntaxError>,
    ) -> bool {
        ||| exists|p: &[String], v: String|
            #![trigger call_ensures(self.wrapped(), (p,), v)]
            {
                &&& r == Ok::<String, SyntaxError>(v)
                &&& params_resolved(evaluator, parameters, ctx_before, ctx_after, p@)
                &&& call_ensures(self.wrapped(), (p,), v)
            }
        ||| (r matches Err(error) && params_failed(
            evaluator,
            parameters,
            ctx_before,
            ctx_after,
            error,
        ))
    }

    fn evaluate(
        &self,
        evaluator: &SimpleEvaluationEngine,
        parameters: &[SyntaxNode],
        context: &mut Context,
    ) -> (r: Result<String, SyntaxError>) {
        let resolved = resolve_params(evaluator, parameters, context);
        match resolved {
            Ok(values) => {
                proof {
                    use_type_invariant(self);
                }
                let arguments = values.as_slice();
                let output = (self.function)(arguments);
                proof {
                    assert(arguments@ == values@);
                    assert(call_ensures(self.wrapped(), (arguments,), output));
                }
                Ok(output)
            },
            Err(err) => Err(err),
        }
    }
}

/// A wrapper that turns a closure over argument strings and the context into
/// a [`Function`].
///
/// Parameters are pre-evaluated as for [`SimpleFunction`]; the closure may
/// read and change the context, and may fail with a syntax error of its own.
pub struct FunctionWithContext<F> where
    F: Fn(&[String], &mut Context) -> Result<String, SyntaxError>,
 {
    function: F,
}

impl<F: Fn(&[String], &mut Context) -> Result<String, SyntaxError>> FunctionWithContext<F> {
    /// The closure this adapter wraps.
    pub closed spec fn wrapped(&self) -> F {
        self.function
    }

    /// The wrapped closure can take any argument strings and any context.
    #[verifier::type_invariant]
    spec fn callable(self) -> bool {
        forall|p: &[String], c: &mut Context| #[trigger] call_requires(self.function, (p, c))
    }

    /// Wraps a closure, boxed and ready for a registry.
    pub fn new(function: F) -> (r: Box<FunctionWithContext<F>>)
        requires
            forall|p: &[String], c: &mut Context| #[trigger] call_requires(function, (p, c)),
    {
        Box::new(FunctionWithContext { function })
    }
}

impl<F: Fn(&[String], &mut Context) -> Result<String, SyntaxError>> Function for FunctionWithContext<
    F,
> {
    /// The adapter resolves every parameter in order: either that run failed
    /// and the call returns the first failing parameter's error untouched, or
    /// every parameter resolved and the result is one the wrapped closure
    /// admits for the resolved values and the context the resolution left.
    open spec fn post(
        &self,
        evaluator: SimpleEvaluationEngine,
        parameters: Seq<SyntaxNodeV>,
        ctx_before: Context,
        ctx_after: Context,
        r: Result<String, SyntaxError>,
    ) -> bool {
        ||| exists|p: &[String], c: &mut Context|
            #![trigger call_ensures(self.wrapped(), (p, c), r)]
            {
                &&& params_resolved(evaluator, parameters, ctx_before, mut_ref_current(c), p@)
                &&& call_ensures(self.wrapped(), (p, c), r)
            }
        ||| (r matches Err(error) && params_failed(
            evaluator,
            parameters,
            ctx_before,
            ctx_after,
            error,
        ))
    }

    fn evaluate(
        &self,
        evaluator: &SimpleEvaluationEngine,
        parameters: &[SyntaxNode],
        context: &mut Context,
    ) -> (r: Result<String, SyntaxError>) {
        let resolved = resolve_params(evaluator, parameters, context);
        match resolved {
            Ok(values) => {
                proof {
                    use_type_invariant(self);
                }
                let arguments = values.as_slice();
                let output = (self.function)(arguments, context);
                proof {
                    assert(self.wrapped() == self.function);
                    assert(arguments@ == values@);
                }
                output
            },
            Err(err) => Err(err),
        }
    }
}

/// A wrapper that turns a closure over the evaluator, the raw parameter
/// nodes and the context into a [`Function`].
///
/// Nothing is pre-evaluated: the closure decides whether, how and in what
/// order each parameter node is evaluated, which lazy or conditional
/// constructs need.
pub struct FunctionWithAst<F> where
    F: Fn(&SimpleEvaluationEngine, &[SyntaxNode], &mut Context) -> Result<String, SyntaxError>,
 {
    function: F,
}

impl<
    F: Fn(&SimpleEvaluationEngine, &[SyntaxNode], &mut Context) -> Result<String, SyntaxError>,
> FunctionWithAst<F> {
    /// The closure this adapter wraps.
    pub closed spec fn wrapped(&self) -> F {
        self.function
    }

    /// The wrapped closure can take any evaluator, nodes and context.
    #[verifier::type_invariant]
    spec fn callable(self) -> bool {
        forall|e: &SimpleEvaluationEngine, p: &[SyntaxNode], c: &mut Context| #[trigger]
            call_requires(self.function, (e, p, c))
    }

    /// Wraps a closure, boxed and ready for a registry.
    pub fn new(function: F) -> (r: Box<FunctionWithAst<F>>)
        requires
            forall|e: &SimpleEvaluationEngine, p: &[SyntaxNode], c: &mut Context| #[trigger]
                call_requires(function, (e, p, c)),
    {
        Box::new(FunctionWithAst { function })
    }
}

impl<
    F: Fn(&SimpleEvaluationEngine, &[SyntaxNode], &mut Context) -> Result<String, SyntaxError>,
> Function for FunctionWithAst<F> {
    /// The call's result is an outcome the wrapped closure admits for this
    /// evaluator, the unevaluated parameter nodes and the context as handed
    /// in.
    open spec fn post(
        &self,
        evaluator: SimpleEvaluationEngine,
        parameters: Seq<SyntaxNodeV>,
        ctx_before: Context,
        ctx_after: Context,
        r: Result<String, SyntaxError>,
    ) -> bool {
        exists|e: &SimpleEvaluationEngine, p: &[SyntaxNode], c: &mut Context|
            #![trigger call_ensures(self.wrapped(), (e, p, c), r)]
            {
                &&& *e == evaluator
                &&& nodes_view(p@) == parameters
                &&& mut_ref_current(c) == ctx_before
                &&& call_ensures(self.wrapped(), (e, p, c), r)
            }
    }

    fn evaluate(
        &self,
        evaluator: &SimpleEvaluationEngine,
        parameters: &[SyntaxNode],
        context: &mut Context,
    ) -> (r: Result<String, SyntaxError>) {
        proof {
            use_type_invariant(self);
        }
        let output = (self.function)(evaluator, parameters, context);
        proof {
            assert(self.wrapped() == self.function);
        }
        output
    }
}

} // verus!
