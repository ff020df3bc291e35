//! The evaluation context, the error model, and the contracts that evaluators
//! and pluggable functions follow.

use vstd::prelude::*;
use std::any::Any;
use std::any::TypeId;
use std::collections::HashMap;
use crate::ast::{SyntaxNode, SyntaxNodeV, nodes_view, lemma_nodes_view};
use crate::bindings::Bindings;
use crate::units::Position;
use crate::engine::SimpleEvaluationEngine;

verus! {

/// Typed singleton state, at most one live value per distinct state type.
///
/// The store is keyed by type identity and holds type-erased boxes, which
/// Verus cannot look into, so the whole struct is opaque and its methods are
/// trusted.  Nothing in the verified library reads it; it only carries state
/// between the caller's own function invocations.
#[verifier::external_body]
pub struct StateStore {
    states: HashMap<TypeId, Box<dyn Any>>,
}

impl StateStore {
    /// Relies on HashMap::new alone: an empty store.
    #[verifier::external_body]
    fn new() -> StateStore {
        StateStore { states: HashMap::new() }
    }

    /// Relies on HashMap::insert with the key TypeId::of::<T>: saving a value
    /// replaces any value of the same type saved before.
    #[verifier::external_body]
    fn save<T: 'static>(&mut self, state: T) {
        self.states.insert(TypeId::of::<T>(), Box::new(state));
    }

    /// Relies on HashMap::get with the key TypeId::of::<T> and on
    /// Any::downcast_ref: a present entry always holds a value of the type
    /// its key names, so the downcast cannot fail.
    #[verifier::external_body]
    fn get<T: 'static>(&self) -> Option<&T> {
        self.states.get(&TypeId::of::<T>()).map(|it| it.downcast_ref::<T>().unwrap())
    }
}

/// The variables of a name-to-string map, both sides as character sequences.
pub open spec fn vars_view(m: Map<Seq<char>, String>) -> Map<Seq<char>, Seq<char>> {
    Map::new(|k: Seq<char>| m.contains_key(k), |k: Seq<char>| m[k]@)
}

/// The mutable store passed through one whole compile invocation.
///
/// It holds named string variables (last write wins) and the typed state
/// slots of [`StateStore`].  Functions may read and change it freely while
/// they run.
pub struct Context {
    variables: Bindings<String>,
    states: StateStore,
}

impl Context {
    /// The variables as a map from names to values, both as character
    /// sequences.
    pub closed spec fn variables(&self) -> Map<Seq<char>, Seq<char>> {
        vars_view(self.variables@)
    }

    /// A context with no variables and no state.
    pub fn empty() -> (r: Context)
        ensures
            r.variables() == Map::<Seq<char>, Seq<char>>::empty(),
    {
        let r = Context { variables: Bindings::new(), states: StateStore::new() };
        proof {
            assert(r.variables() =~= Map::<Seq<char>, Seq<char>>::empty());
        }
        r
    }

    /// A context pre-seeded with the given variables and no state.
    pub fn with_variables(variables: Bindings<String>) -> (r: Context)
        ensures
            r.variables() == vars_view(variables@),
    {
        Context { variables, states: StateStore::new() }
    }

    /// Binds a variable; a later value for the same name replaces an earlier
    /// one.
    pub fn set_variable(&mut self, name: &str, value: &str)
        ensures
            final(self).variables() == old(self).variables().insert(name@, value@),
    {
        self.variables.insert(name.to_owned(), value.to_owned());
        proof {
            assert(self.variables() =~~= old(self).variables().insert(name@, value@));
        }
    }

    /// Looks a variable up by name.
    pub fn get_variable(&self, name: &str) -> (r: Option<&String>)
        ensures
            match r {
                Some(v) => self.variables().contains_key(name@) && v@ == self.variables()[name@],
                None => !self.variables().contains_key(name@),
            },
    {
        self.variables.get(name)
    }

    /// Saves one value of type `T`, replacing any value of that type saved
    /// before.  The variables are untouched.
    pub fn save_state<T: 'static>(&mut self, state: T)
        ensures
            final(self).variables() == old(self).variables(),
    {
        self.states.save(state)
    }

    /// Returns the value of type `T` saved before, if any.
    pub fn get_state<T: 'static>(&self) -> Option<&T> {
        self.states.get()
    }
}

/// Why an evaluation failed, without position information.
#[derive(Debug)]
pub enum EvaluationError {
    /// More than one top-level expression stood in a code block.
    UnexpectedElements { last_expected: Option<SyntaxNode>, unexpected_elements: Vec<SyntaxNode> },
    /// An identifier matched no variable, no function and no literal form.
    UnknownSymbol { symbol: String },
    /// A function received parameters of the wrong shape.
    InvalidArguments { description: Option<String>, arguments: Vec<SyntaxNode> },
    /// A function received values it could not convert.
    InvalidValues { description: Option<String>, values: Vec<String> },
}

/// The model of an [`EvaluationError`], over character sequences and node
/// views.
pub enum EvaluationErrorV {
    UnexpectedElements {
        last_expected: Option<SyntaxNodeV>,
        unexpected_elements: Seq<SyntaxNodeV>,
    },
    UnknownSymbol { symbol: Seq<char> },
    InvalidArguments { description: Option<Seq<char>>, arguments: Seq<SyntaxNodeV> },
    InvalidValues { description: Option<Seq<char>>, values: Seq<Seq<char>> },
}

impl View for EvaluationError {
    type V = EvaluationErrorV;

    open spec fn view(&self) -> EvaluationErrorV {
        match *self {
            EvaluationError::UnexpectedElements { last_expected, unexpected_elements } =>
                EvaluationErrorV::UnexpectedElements {
                last_expected: match last_expected {
                    Some(n) => Some(n@),
                    None => None,
                },
                unexpected_elements: nodes_view(unexpected_elements@),
            },
            EvaluationError::UnknownSymbol { symbol } => EvaluationErrorV::UnknownSymbol {
                symbol: symbol@,
            },
            EvaluationError::InvalidArguments { description, arguments } =>
                EvaluationErrorV::InvalidArguments {
                description: match description {
                    Some(d) => Some(d@),
                    None => None,
                },
                arguments: nodes_view(arguments@),
            },
            EvaluationError::InvalidValues { description, values } =>
                EvaluationErrorV::InvalidValues {
                description: match description {
                    Some(d) => Some(d@),
                    None => None,
                },
                values: values.deep_view(),
            },
        }
    }
}

impl PartialEq for EvaluationError {
    /// Two causes are equal when their views are.
    fn eq(&self, other: &EvaluationError) -> (r: bool) {
        match (self, other) {
            (
                EvaluationError::UnexpectedElements { last_expected: l1, unexpected_elements: u1 },
                EvaluationError::UnexpectedElements { last_expected: l2, unexpected_elements: u2 },
            ) => option_node_eq(l1, l2) && SyntaxNode::nodes_eq(u1, u2),
            (
                EvaluationError::UnknownSymbol { symbol: s1 },
                EvaluationError::UnknownSymbol { symbol: s2 },
            ) => *s1 == *s2,
            (
                EvaluationError::InvalidArguments { description: d1, arguments: a1 },
                EvaluationError::InvalidArguments { description: d2, arguments: a2 },
            ) => option_string_eq(d1, d2) && SyntaxNode::nodes_eq(a1, a2),
            (
                EvaluationError::InvalidValues { description: d1, values: v1 },
                EvaluationError::InvalidValues { description: d2, values: v2 },
            ) => option_string_eq(d1, d2) && strings_eq(v1, v2),
            _ => false,
        }
    }
}

impl vstd::std_specs::cmp::PartialEqSpecImpl for EvaluationError {
    open spec fn obeys_eq_spec() -> bool {
        true
    }

    open spec fn eq_spec(&self, other: &EvaluationError) -> bool {
        self@ == other@
    }
}

/// Compares two optional nodes by view.
fn option_node_eq(a: &Option<SyntaxNode>, b: &Option<SyntaxNode>) -> (r: bool)
    ensures
        r == match (a, b) {
            (Some(x), Some(y)) => x@ == y@,
            (None, None) => true,
            _ => false,
        },
{
    match (a, b) {
        (Some(x), Some(y)) => *x == *y,
        (None, None) => true,
        _ => false,
    }
}

/// Compares two optional strings by their characters.
fn option_string_eq(a: &Option<String>, b: &Option<String>) -> (r: bool)
    ensures
        r == match (a, b) {
            (Some(x), Some(y)) => x@ == y@,
            (None, None) => true,
            _ => false,
        },
{
    match (a, b) {
        (Some(x), Some(y)) => *x == *y,
        (None, None) => true,
        _ => false,
    }
}

/// Compares two vectors of strings by their characters.
fn strings_eq(a: &Vec<String>, b: &Vec<String>) -> (r: bool)
    ensures
        r == (a.deep_view() == b.deep_view()),
{
    if a.len() != b.len() {
        proof {
            assert(a.deep_view().len() == a@.len());
            assert(b.deep_view().len() == b@.len());
        }
        return false;
    }
    let n = a.len();
    let mut i: usize = 0;
    while i < n
        invariant
            n == a@.len() == b@.len(),
            i <= n,
            a.deep_view().len() == n,
            b.deep_view().len() == n,
            forall|j: int| 0 <= j < i ==> a.deep_view()[j] == b.deep_view()[j],
        decreases n - i,
    {
        if !(a[i] == b[i]) {
            proof {
                assert(a.deep_view()[i as int] == a@[i as int]@);
                assert(b.deep_view()[i as int] == b@[i as int]@);
            }
            return false;
        }
        proof {
            assert(a.deep_view()[i as int] == a@[i as int]@);
            assert(b.deep_view()[i as int] == b@[i as int]@);
        }
        i = i + 1;
    }
    proof {
        assert(a.deep_view() =~= b.deep_view());
    }
    true
}

/// An evaluation failure wrapped with the two positions that locate it.
///
/// `relative_pos` locates the erroring construct within its code block;
/// `invocation_pos` locates the nearest enclosing function call that
/// surfaced the error, and stays [`Position::Unknown`] if there is none.
#[derive(Debug)]
pub struct SyntaxError {
    pub relative_pos: Position,
    pub invocation_pos: Position,
    pub description: EvaluationError,
}

/// The model of a [`SyntaxError`].
pub struct SyntaxErrorV {
    pub relative_pos: Position,
    pub invocation_pos: Position,
    pub description: EvaluationErrorV,
}

impl View for SyntaxError {
    type V = SyntaxErrorV;

    open spec fn view(&self) -> SyntaxErrorV {
        SyntaxErrorV {
            relative_pos: self.relative_pos,
            invocation_pos: self.invocation_pos,
            description: self.description@,
        }
    }
}

impl PartialEq for SyntaxError {
    /// Two errors are equal when their positions and causes are.
    fn eq(&self, other: &SyntaxError) -> (r: bool) {
        self.relative_pos == other.relative_pos && self.invocation_pos == other.invocation_pos
            && self.description == other.description
    }
}

impl vstd::std_specs::cmp::PartialEqSpecImpl for SyntaxError {
    open spec fn obeys_eq_spec() -> bool {
        true
    }

    open spec fn eq_spec(&self, other: &SyntaxError) -> bool {
        self@ == other@
    }
}

impl SyntaxError {
    /// An error whose position is not known.
    pub fn new(error: EvaluationError) -> (r: SyntaxError)
        ensures
            r@ == (SyntaxErrorV {
                relative_pos: Position::Unknown,
                invocation_pos: Position::Unknown,
                description: error@,
            }),
    {
        SyntaxError {
            relative_pos: Position::Unknown,
            invocation_pos: Position::Unknown,
            description: error,
        }
    }

    /// An error at a known relative position.
    pub fn at_position(position: Position, error: EvaluationError) -> (r: SyntaxError)
        ensures
            r@ == (SyntaxErrorV {
                relative_pos: position,
                invocation_pos: Position::Unknown,
                description: error@,
            }),
    {
        SyntaxError { relative_pos: position, invocation_pos: Position::Unknown, description: error }
    }
}

/// The ability to evaluate a syntax tree against a context.
///
/// What an implementation promises of its results is carried by its own
/// `evaluate_post` predicate.
pub trait Evaluator {
    /// What holds of one finished evaluation: the node that was evaluated,
    /// the context before and after, and the result.
    spec fn evaluate_post(
        &self,
        node: SyntaxNodeV,
        ctx_before: Context,
        ctx_after: Context,
        r: Result<String, SyntaxError>,
    ) -> bool;

    fn evaluate(&self, syntax_node: &SyntaxNode, context: &mut Context) -> (r: Result<
        String,
        SyntaxError,
    >)
        ensures
            self.evaluate_post(syntax_node@, *old(context), *final(context), r),
    ;
}

/// A pluggable unit of evaluation, registered by name in an evaluation
/// engine.
///
/// The engine hands the implementation itself (for recursive evaluation of
/// parameters), the unevaluated parameter nodes, and the mutable context.
/// Implementations are free in what they return and how they change the
/// context; the engine promises nothing of a function's result beyond the
/// rewriting of its error positions.
pub trait Function {
    /// What one call of this function promises: the evaluator it ran
    /// against, the parameter nodes, the context before and after, and the
    /// result.  Each implementation says what its own calls guarantee.
    spec fn post(
        &self,
        evaluator: SimpleEvaluationEngine,
        parameters: Seq<SyntaxNodeV>,
        ctx_before: Context,
        ctx_after: Context,
        r: Result<String, SyntaxError>,
    ) -> bool;

    fn evaluate(
        &self,
        evaluator: &SimpleEvaluationEngine,
        parameters: &[SyntaxNode],
        context: &mut Context,
    ) -> (r: Result<String, SyntaxError>)
        ensures
            self.post(*evaluator, nodes_view(parameters@), *old(context), *final(context), r),
    ;
}

/// A function stored in a registry, with its concrete type erased.
///
/// Verus does not take trait objects, so the box is hidden behind an opaque
/// struct and called through a trusted wrapper.
#[verifier::external_body]
pub struct BoxedFunction {
    function: Box<dyn Function>,
}

impl BoxedFunction {
    /// Erases the concrete type of a [`Function`] implementation so that
    /// differently typed functions can share one registry.
    pub fn new<F: Function + 'static>(function: F) -> BoxedFunction {
        BoxedFunction::from_boxed(Box::new(function))
    }

    /// Relies on Rust's unsizing coercion alone: erases the concrete type of
    /// a boxed [`Function`] implementation.
    #[verifier::external_body]
    pub fn from_boxed<F: Function + 'static>(function: Box<F>) -> BoxedFunction {
        BoxedFunction { function }
    }

    /// Relies on Rust's trait-object dispatch: invokes the boxed
    /// implementation of [`Function::evaluate`].  Nothing is assumed of the
    /// result or of how the call changes the context.
    #[verifier::external_body]
    pub(crate) fn call(
        &self,
        evaluator: &SimpleEvaluationEngine,
        parameters: &[SyntaxNode],
        context: &mut Context,
    ) -> Result<String, SyntaxError> {
        self.function.evaluate(evaluator, parameters, context)
    }
}

} // verus!
