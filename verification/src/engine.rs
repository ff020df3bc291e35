//! The evaluation engine: resolves symbols against variables, registered
//! functions and literals.

use vstd::prelude::*;
use crate::ast::{SyntaxNode, SyntaxNodeV, nodes_view, node_view, lemma_nodes_view};
use crate::bindings::Bindings;
use crate::evaluator::{
    BoxedFunction, Context, EvaluationError, EvaluationErrorV, Evaluator, SyntaxError, SyntaxErrorV,
};
use crate::literal::{extract_literal, literal_value};
use crate::units::Position;

verus! {

/// A simple evaluation engine with a fixed function registry.
///
/// It resolves a named node first as a variable, then as a registered
/// function, then as a literal; an identifier that is none of the three is an
/// unknown symbol.  An anonymous node stands for a whole code block: it must
/// hold at most one expression.
pub struct SimpleEvaluationEngine {
    functions: Bindings<BoxedFunction>,
}

/// What the engine promises of one symbol resolution, given the identifier,
/// the position of its token, and the contexts before and after.
///
/// A variable is returned verbatim and leaves the context alone, whatever
/// children the node carries.  Otherwise a registered function decides the
/// result: nothing is promised of it beyond the invocation position of an
/// error.  Otherwise a literal evaluates to its value.  Anything else is an
/// unknown symbol, reported at the identifier's own position with no
/// invocation position.
pub open spec fn symbol_post(
    engine: SimpleEvaluationEngine,
    identifier: Seq<char>,
    offset: Position,
    ctx_before: Context,
    ctx_after: Context,
    r: Result<String, SyntaxError>,
) -> bool {
    if ctx_before.variables().contains_key(identifier) {
        &&& r matches Ok(s) && s@ == ctx_before.variables()[identifier]
        &&& ctx_after == ctx_before
    } else if engine.function_names().contains(identifier) {
        match r {
            Ok(_) => true,
            Err(e) => e@.invocation_pos == offset,
        }
    } else {
        match literal_value(identifier) {
            Some(v) => {
                &&& r matches Ok(s) && s@ == v
                &&& ctx_after == ctx_before
            },
            None => {
                &&& r matches Err(e) && e@ == (SyntaxErrorV {
                    relative_pos: offset,
                    invocation_pos: Position::Unknown,
                    description: EvaluationErrorV::UnknownSymbol { symbol: identifier },
                })
                &&& ctx_after == ctx_before
            },
        }
    }
}

/// What the engine promises of one whole evaluation.
///
/// A named node resolves as a symbol.  An anonymous node with no children
/// yields the empty string; with a single named child it behaves as that
/// child's symbol; with a single anonymous child it evaluates that child;
/// with more than one child it fails with the extra elements, at the
/// anonymous node's own position.
pub open spec fn evaluate_post(
    engine: SimpleEvaluationEngine,
    node: SyntaxNodeV,
    ctx_before: Context,
    ctx_after: Context,
    r: Result<String, SyntaxError>,
) -> bool
    decreases node,
{
    match node {
        SyntaxNodeV::Named { identifier, starts_at, children } => symbol_post(
            engine,
            identifier,
            starts_at,
            ctx_before,
            ctx_after,
            r,
        ),
        SyntaxNodeV::Anonymous { starts_at, children } => {
            if children.len() == 0 {
                &&& r matches Ok(s) && s@ == Seq::<char>::empty()
                &&& ctx_after == ctx_before
            } else if children.len() > 1 {
                &&& r matches Err(e) && e@ == (SyntaxErrorV {
                    relative_pos: starts_at,
                    invocation_pos: Position::Unknown,
                    description: EvaluationErrorV::UnexpectedElements {
                        last_expected: Some(children[0]),
                        unexpected_elements: children.skip(1),
                    },
                })
                &&& ctx_after == ctx_before
            } else {
                match children[0] {
                    SyntaxNodeV::Named { identifier, starts_at: child_start, children: params } =>
                        symbol_post(engine, identifier, child_start, ctx_before, ctx_after, r),
                    SyntaxNodeV::Anonymous { .. } => evaluate_post(
                        engine,
                        children[0],
                        ctx_before,
                        ctx_after,
                        r,
                    ),
                }
            }
        },
    }
}

impl SimpleEvaluationEngine {
    /// The names under which functions are registered.
    pub closed spec fn function_names(&self) -> Set<Seq<char>> {
        self.functions@.dom()
    }

    /// An engine over the given function registry.
    pub fn from(functions: Bindings<BoxedFunction>) -> (r: SimpleEvaluationEngine)
        ensures
            r.function_names() == functions@.dom(),
    {
        SimpleEvaluationEngine { functions }
    }

    /// Resolves one symbol: variable first, then function, then literal.
    fn evaluate_symbol(
        &self,
        context: &mut Context,
        identifier: &String,
        offset: Position,
        parameters: &[SyntaxNode],
    ) -> (r: Result<String, SyntaxError>)
        ensures
            symbol_post(*self, identifier@, offset, *old(context), *final(context), r),
    {
        let var = match context.get_variable(identifier.as_str()) {
            Some(value) => Some(value.clone()),
            None => None,
        };
        match var {
            Some(result) => Ok(result),
            None => self.evaluate_function_or_literal(identifier, offset, parameters, context),
        }
    }

    /// Resolves a symbol that is no variable: function first, then literal.
    fn evaluate_function_or_literal(
        &self,
        identifier: &String,
        offset: Position,
        parameters: &[SyntaxNode],
        context: &mut Context,
    ) -> (r: Result<String, SyntaxError>)
        requires
            !old(context).variables().contains_key(identifier@),
        ensures
            symbol_post(*self, identifier@, offset, *old(context), *final(context), r),
    {
        match self.evaluate_function(identifier, offset, parameters, context) {
            Some(result) => result,
            None => match extract_literal(identifier) {
                Some(value) => Ok(value),
                None => Err(
                    SyntaxError::at_position(
                        offset,
                        EvaluationError::UnknownSymbol { symbol: identifier.clone() },
                    ),
                ),
            },
        }
    }

    /// Invokes the registered function of this name, if there is one, and
    /// rewrites the invocation position of an error it reports.
    fn evaluate_function(
        &self,
        identifier: &String,
        offset: Position,
        parameters: &[SyntaxNode],
        context: &mut Context,
    ) -> (r: Option<Result<String, SyntaxError>>)
        ensures
            match r {
                None => !self.function_names().contains(identifier@) && *final(context) == *old(
                    context,
                ),
                Some(result) => self.function_names().contains(identifier@) && match result {
                    Ok(_) => true,
                    Err(e) => e@.invocation_pos == offset,
                },
            },
    {
        match self.functions.get(identifier.as_str()) {
            None => None,
            Some(function) => Some(
                match function.call(self, parameters, context) {
                    Ok(value) => Ok(value),
                    Err(err) => Err(with_invocation_pos(err, offset)),
                },
            ),
        }
    }
}

/// Rewrites the invocation position of an error, keeping its cause and its
/// relative position exactly as the function reported them.
///
/// This is how an error surfaces through a function call: only the position
/// of the call site is added; where inside the call the error arose stays
/// untouched.
pub fn with_invocation_pos(error: SyntaxError, offset: Position) -> (r: SyntaxError)
    ensures
        r@.relative_pos == error@.relative_pos,
        r@.invocation_pos == offset,
        r@.description == error@.description,
{
    SyntaxError {
        relative_pos: error.relative_pos,
        invocation_pos: offset,
        description: error.description,
    }
}

impl Evaluator for SimpleEvaluationEngine {
    open spec fn evaluate_post(
        &self,
        node: SyntaxNodeV,
        ctx_before: Context,
        ctx_after: Context,
        r: Result<String, SyntaxError>,
    ) -> bool {
        evaluate_post(*self, node, ctx_before, ctx_after, r)
    }

    fn evaluate(&self, syntax_node: &SyntaxNode, context: &mut Context) -> (r: Result<
        String,
        SyntaxError,
    >)
        decreases *syntax_node,
    {
        match syntax_node {
            SyntaxNode::NamedNode { identifier, starts_at, children } => {
                proof {
                    lemma_nodes_view(children@);
                }
                self.evaluate_symbol(context, identifier, *starts_at, children.as_slice())
            },
            SyntaxNode::AnonymousNode { starts_at, children } => self.evaluate_nested(
                *starts_at,
                children,
                context,
            ),
        }
    }
}

impl SimpleEvaluationEngine {
    /// Evaluates the children of an anonymous node: a code block must hold at
    /// most one expression.
    fn evaluate_nested(&self, offset: Position, children: &Vec<SyntaxNode>, context: &mut Context)
        -> (r: Result<String, SyntaxError>)
        ensures
            evaluate_post(
                *self,
                SyntaxNodeV::Anonymous { starts_at: offset, children: nodes_view(children@) },
                *old(context),
                *final(context),
                r,
            ),
        decreases *children,
    {
        proof {
            lemma_nodes_view(children@);
        }
        if children.len() == 0 {
            Ok(String::new())
        } else if children.len() > 1 {
            let last_expected = Some(children[0].clone());
            let unexpected = tail_nodes(children);
            Err(
                SyntaxError::at_position(
                    offset,
                    EvaluationError::UnexpectedElements {
                        last_expected,
                        unexpected_elements: unexpected,
                    },
                ),
            )
        } else {
            let child = &children[0];
            match child {
                SyntaxNode::NamedNode { identifier, starts_at: child_start, children: params } => {
                    proof {
                        lemma_nodes_view(params@);
                    }
                    self.evaluate_symbol(context, identifier, *child_start, params.as_slice())
                },
                SyntaxNode::AnonymousNode { starts_at: child_start, children: grandchildren } => self
                    .evaluate_nested(*child_start, grandchildren, context),
            }
        }
    }
}

/// Clones every node but the first.
fn tail_nodes(nodes: &Vec<SyntaxNode>) -> (r: Vec<SyntaxNode>)
    requires
        nodes@.len() >= 1,
    ensures
        nodes_view(r@) == nodes_view(nodes@).skip(1),
{
    let mut out: Vec<SyntaxNode> = Vec::new();
    let mut i: usize = 1;
    proof {
        lemma_nodes_view(nodes@);
    }
    while i < nodes.len()
        invariant
            1 <= i <= nodes@.len(),
            nodes_view(out@).len() == i - 1,
            forall|j: int| 0 <= j < i - 1 ==> nodes_view(out@)[j] == node_view(nodes@[j + 1]),
            forall|j: int| 0 <= j < nodes@.len() ==> nodes_view(nodes@)[j] == node_view(nodes@[j]),
            nodes_view(nodes@).len() == nodes@.len(),
        decreases nodes@.len() - i,
    {
        let ghost prev = out@;
        let c = nodes[i].clone();
        proof {
            crate::ast::lemma_nodes_view_push(prev, c);
            lemma_nodes_view(prev.push(c));
        }
        out.push(c);
        i = i + 1;
    }
    proof {
        assert(nodes_view(out@) =~= nodes_view(nodes@).skip(1));
    }
    out
}

} // verus!

verus! {

/// If a name is bound both as a variable and as a registered function, the
/// variable takes precedence: evaluating the symbol returns the variable's
/// value verbatim and leaves the context alone.
pub proof fn lemma_variable_takes_precedence(
    engine: SimpleEvaluationEngine,
    identifier: Seq<char>,
    offset: Position,
    ctx_before: Context,
    ctx_after: Context,
    r: Result<String, SyntaxError>,
)
    requires
        ctx_before.variables().contains_key(identifier),
        engine.function_names().contains(identifier),
        symbol_post(engine, identifier, offset, ctx_before, ctx_after, r),
    ensures
        r matches Ok(s) && s@ == ctx_before.variables()[identifier],
        ctx_after == ctx_before,
{
}

/// A symbol whose identifier is a numeric literal, and which matches no
/// variable and no registered function, evaluates to the numeral unchanged.
pub proof fn lemma_numeric_literal_evaluates_to_itself(
    engine: SimpleEvaluationEngine,
    identifier: Seq<char>,
    offset: Position,
    ctx_before: Context,
    ctx_after: Context,
    r: Result<String, SyntaxError>,
)
    requires
        !ctx_before.variables().contains_key(identifier),
        !engine.function_names().contains(identifier),
        crate::literal::is_numeric_literal(identifier),
        symbol_post(engine, identifier, offset, ctx_before, ctx_after, r),
    ensures
        r matches Ok(s) && s@ == identifier,
        ctx_after == ctx_before,
{
}

/// A symbol whose identifier is a quoted string longer than two characters,
/// and which matches no variable and no registered function, evaluates to the
/// text between the quotes.
pub proof fn lemma_string_literal_evaluates_unquoted(
    engine: SimpleEvaluationEngine,
    identifier: Seq<char>,
    offset: Position,
    ctx_before: Context,
    ctx_after: Context,
    r: Result<String, SyntaxError>,
)
    requires
        !ctx_before.variables().contains_key(identifier),
        !engine.function_names().contains(identifier),
        identifier.len() > 2,
        identifier[0] == '"',
        identifier[identifier.len() - 1] == '"',
        symbol_post(engine, identifier, offset, ctx_before, ctx_after, r),
    ensures
        r matches Ok(s) && s@ == identifier.subrange(1, identifier.len() - 1),
        ctx_after == ctx_before,
{
    crate::literal::lemma_quoted_is_not_numeric(identifier);
}

/// A symbol that matches no variable, no registered function and no literal
/// fails as an unknown symbol, reported at the identifier's own position and
/// with no invocation position.
pub proof fn lemma_unknown_symbol_fails(
    engine: SimpleEvaluationEngine,
    identifier: Seq<char>,
    offset: Position,
    ctx_before: Context,
    ctx_after: Context,
    r: Result<String, SyntaxError>,
)
    requires
        !ctx_before.variables().contains_key(identifier),
        !engine.function_names().contains(identifier),
        crate::literal::literal_value(identifier) is None,
        symbol_post(engine, identifier, offset, ctx_before, ctx_after, r),
    ensures
        r matches Err(e) && e@ == (SyntaxErrorV {
            relative_pos: offset,
            invocation_pos: Position::Unknown,
            description: EvaluationErrorV::UnknownSymbol { symbol: identifier },
        }),
        ctx_after == ctx_before,
{
}

} // verus!
