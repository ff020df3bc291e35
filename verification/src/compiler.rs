//! The compiler: evaluates every code slice of a template and joins the
//! pieces into the output text.

use vstd::prelude::*;
use vstd::string::StringExecFns;
use vstd::string::StrSliceExecFns;
use crate::ast::SyntaxNodeV;
use crate::evaluator::{Context, Evaluator, SyntaxError, SyntaxErrorV};
use crate::parser::{parse_ast, parse_result, strip_markers};
use crate::template::{
    end_marker, find_from, start_marker, template_slices, EvaluableMixedContent, TemplateSlice,
    TemplateSliceV,
};
use crate::units::Position;

verus! {

/// A whole compile invocation failed: the first failing code slice, with the
/// template-absolute position of the slice and its raw text.
#[derive(Debug)]
pub enum CompilationError {
    EvaluationFailed { error: SyntaxError, position: Position, source: String },
}

/// The model of a [`CompilationError`].
pub enum CompilationErrorV {
    EvaluationFailed { error: SyntaxErrorV, position: Position, source: Seq<char> },
}

impl View for CompilationError {
    type V = CompilationErrorV;

    open spec fn view(&self) -> CompilationErrorV {
        match *self {
            CompilationError::EvaluationFailed { error, position, source } =>
                CompilationErrorV::EvaluationFailed {
                error: error@,
                position,
                source: source@,
            },
        }
    }
}

impl PartialEq for CompilationError {
    /// Two compilation errors are equal when their views are.
    fn eq(&self, other: &CompilationError) -> (r: bool) {
        match (self, other) {
            (
                CompilationError::EvaluationFailed { error: e1, position: p1, source: s1 },
                CompilationError::EvaluationFailed { error: e2, position: p2, source: s2 },
            ) => *e1 == *e2 && *p1 == *p2 && *s1 == *s2,
        }
    }
}

impl vstd::std_specs::cmp::PartialEqSpecImpl for CompilationError {
    open spec fn obeys_eq_spec() -> bool {
        true
    }

    open spec fn eq_spec(&self, other: &CompilationError) -> bool {
        self@ == other@
    }
}

/// The tree a code slice parses to, once its markers are stripped.
pub open spec fn parsed_block(value: Seq<char>) -> SyntaxNodeV {
    parse_result(strip_markers(value, start_marker(), end_marker()))
}

/// What one slice contributes to the output: a text slice passes through
/// verbatim and leaves the context alone; a code slice parses, evaluates
/// against the context before it, and contributes what the evaluation
/// returned.
pub open spec fn compiled_piece<E: Evaluator>(
    engine: E,
    slice: TemplateSliceV,
    ctx_before: Context,
    ctx_after: Context,
    piece: Seq<char>,
) -> bool {
    match slice {
        TemplateSliceV::Text { value, .. } => piece == value && ctx_after == ctx_before,
        TemplateSliceV::Code { value, .. } => exists|s: String|
            s@ == piece && #[trigger] engine.evaluate_post(parsed_block(value), ctx_before, ctx_after, Ok(s)),
    }
}

/// One finished compile pass over a sequence of slices: slice by slice, each
/// against the context the slice before it left behind.  `ctxs` holds the
/// contexts between slices (one more than there are slices) and `pieces` the
/// output of each slice.
pub open spec fn compiled_pieces<E: Evaluator>(
    engine: E,
    slices: Seq<TemplateSliceV>,
    ctxs: Seq<Context>,
    pieces: Seq<Seq<char>>,
) -> bool {
    &&& ctxs.len() == slices.len() + 1
    &&& pieces.len() == slices.len()
    &&& forall|j: int|
        0 <= j < slices.len() ==> compiled_piece(
            engine,
            #[trigger] slices[j],
            ctxs[j],
            ctxs[j + 1],
            pieces[j],
        )
}

/// A successful compile: every slice compiled in order, starting from the
/// given context, and the output is the concatenation of the pieces.
pub open spec fn compiled_slices<E: Evaluator>(
    engine: E,
    slices: Seq<TemplateSliceV>,
    ctx_before: Context,
    output: Seq<char>,
) -> bool {
    exists|ctxs: Seq<Context>, pieces: Seq<Seq<char>>|
        {
            &&& #[trigger] compiled_pieces(engine, slices, ctxs, pieces)
            &&& ctxs[0] == ctx_before
            &&& output == pieces.flatten()
        }
}

/// The compile pass failed at the code slice with this index: everything
/// before it compiled, this one's evaluation failed, and its error, absolute
/// position and raw text make up the compilation error.
pub open spec fn fails_at<E: Evaluator>(
    engine: E,
    slices: Seq<TemplateSliceV>,
    i: int,
    ctx_before: Context,
    error: CompilationError,
) -> bool {
    &&& 0 <= i < slices.len()
    &&& slices[i] is Code
    &&& exists|ctxs: Seq<Context>, pieces: Seq<Seq<char>>, c2: Context, e: SyntaxError|
        #![trigger compiled_pieces(engine, slices.take(i), ctxs, pieces), engine.evaluate_post(parsed_block(slices[i]->Code_value), ctxs.last(), c2, Err(e))]
        {
            &&& compiled_pieces(engine, slices.take(i), ctxs, pieces)
            &&& ctxs[0] == ctx_before
            &&& engine.evaluate_post(parsed_block(slices[i]->Code_value), ctxs.last(), c2, Err(e))
            &&& error@ == (CompilationErrorV::EvaluationFailed {
                error: e@,
                position: Position::Absolute(slices[i]->Code_start_position),
                source: slices[i]->Code_value,
            })
        }
}

/// A failed compile pass: some code slice failed, everything before it
/// compiled, and nothing after it was touched.
pub open spec fn compile_failed<E: Evaluator>(
    engine: E,
    slices: Seq<TemplateSliceV>,
    ctx_before: Context,
    error: CompilationError,
) -> bool {
    exists|i: int| #[trigger] fails_at(engine, slices, i, ctx_before, error)
}

/// Compiles some evaluable content against a context.
pub trait Compiler<T: EvaluableMixedContent> {
    /// What holds of one finished compile: the content, the starting context
    /// and the result.
    spec fn compile_post(
        &self,
        content: Seq<char>,
        context: Context,
        r: Result<String, CompilationError>,
    ) -> bool;

    fn compile(&self, content: &T, context: Context) -> (r: Result<String, CompilationError>)
        requires
            content.content().len() < usize::MAX,
        ensures
            self.compile_post(content.content(), context, r),
    ;
}

/// A compiler that slices a template, evaluates every code slice with its
/// evaluation engine, and joins the results.
pub struct TemplateCompiler<E: Evaluator> {
    engine: E,
}

impl<E: Evaluator> TemplateCompiler<E> {
    /// The engine the compiler evaluates code slices with.
    pub closed spec fn engine(&self) -> E {
        self.engine
    }

    /// A compiler over the given engine.
    pub fn new(engine: E) -> (r: TemplateCompiler<E>)
        ensures
            r.engine() == engine,
    {
        TemplateCompiler { engine }
    }
}

impl<E: Evaluator, T: EvaluableMixedContent> Compiler<T> for TemplateCompiler<E> {
    /// Success yields the concatenation of the verbatim text slices and the
    /// evaluated code slices; failure carries the first failing code slice's
    /// error, absolute position and raw text.
    open spec fn compile_post(
        &self,
        content: Seq<char>,
        context: Context,
        r: Result<String, CompilationError>,
    ) -> bool {
        match r {
            Ok(output) => compiled_slices(
                self.engine(),
                template_slices(content, 0),
                context,
                output@,
            ),
            Err(error) => compile_failed(self.engine(), template_slices(content, 0), context, error),
        }
    }

    fn compile(&self, content: &T, context: Context) -> (r: Result<String, CompilationError>) {
        let ghost all = template_slices(content.content(), 0);
        let slices = content.slices();
        let mut result = String::new();
        let ghost ctx0 = context;
        let mut running_context = context;
        let ghost mut ctxs: Seq<Context> = seq![context];
        let ghost mut pieces: Seq<Seq<char>> = Seq::empty();
        let n = slices.len();
        let mut i: usize = 0;
        proof {
            assert(slices.deep_view().len() == slices@.len());
            assert(pieces.flatten() =~= Seq::<char>::empty());
            crate::template::lemma_template_slices_code_bounds(content.content(), 0);
        }
        while i < n
            invariant
                n == slices@.len(),
                i <= n,
                all == slices.deep_view(),
                all.len() == n,
                forall|j: int| 0 <= j < n ==> all[j] == slices@[j]@,
                forall|j: int|
                    0 <= j < n ==> (#[trigger] all[j] matches TemplateSliceV::Code { value, .. }
                        ==> value.len() < usize::MAX),
                all == template_slices(content.content(), 0),
                ctx0 == context,
                ctxs.len() == i + 1,
                ctxs[0] == ctx0,
                ctxs.last() == running_context,
                compiled_pieces(self.engine(), all.take(i as int), ctxs, pieces),
                result@ == pieces.flatten(),
            decreases n - i,
        {
            let ghost prev_ctxs = ctxs;
            let ghost prev_pieces = pieces;
            let ghost ctx_mid = running_context;
            let slice = &slices[i];
            proof {
                assert(all[i as int] == slices@[i as int]@);
            }
            match slice {
                TemplateSlice::Text { value, .. } => {
                    result.append(*value);
                    proof {
                        ctxs = ctxs.push(running_context);
                        pieces = pieces.push(value@);
                        prev_pieces.lemma_flatten_push(value@);
                        assert(compiled_piece(
                            self.engine(),
                            all[i as int],
                            ctx_mid,
                            running_context,
                            value@,
                        ));
                        assert forall|j: int|
                            0 <= j < i + 1 implies compiled_piece(
                            self.engine(),
                            #[trigger] all.take(i as int + 1)[j],
                            ctxs[j],
                            ctxs[j + 1],
                            pieces[j],
                        ) by {
                            if j < i {
                                assert(all.take(i as int + 1)[j] == all.take(i as int)[j]);
                                assert(compiled_piece(
                                    self.engine(),
                                    all.take(i as int)[j],
                                    prev_ctxs[j],
                                    prev_ctxs[j + 1],
                                    prev_pieces[j],
                                ));
                            } else {
                                assert(all.take(i as int + 1)[j] == all[i as int]);
                            }
                        }
                        assert(compiled_pieces(
                            self.engine(),
                            all.take(i as int + 1),
                            ctxs,
                            pieces,
                        ));
                    }
                },
                TemplateSlice::Code { value, start_position, .. } => {
                    let node = parse_ast(*value, "{{", "}}");
                    match self.engine.evaluate(&node, &mut running_context) {
                        Ok(piece) => {
                            proof {
                                ctxs = ctxs.push(running_context);
                                pieces = pieces.push(piece@);
                                prev_pieces.lemma_flatten_push(piece@);
                                assert(self.engine().evaluate_post(
                                    parsed_block(all[i as int]->Code_value),
                                    ctx_mid,
                                    running_context,
                                    Ok(piece),
                                ));
                                assert(compiled_piece(
                                    self.engine(),
                                    all[i as int],
                                    ctx_mid,
                                    running_context,
                                    piece@,
                                ));
                                assert forall|j: int|
                                    0 <= j < i + 1 implies compiled_piece(
                                    self.engine(),
                                    #[trigger] all.take(i as int + 1)[j],
                                    ctxs[j],
                                    ctxs[j + 1],
                                    pieces[j],
                                ) by {
                                    if j < i {
                                        assert(all.take(i as int + 1)[j] == all.take(
                                            i as int,
                                        )[j]);
                                        assert(compiled_piece(
                                            self.engine(),
                                            all.take(i as int)[j],
                                            prev_ctxs[j],
                                            prev_ctxs[j + 1],
                                            prev_pieces[j],
                                        ));
                                    } else {
                                        assert(all.take(i as int + 1)[j] == all[i as int]);
                                    }
                                }
                                assert(compiled_pieces(
                                    self.engine(),
                                    all.take(i as int + 1),
                                    ctxs,
                                    pieces,
                                ));
                            }
                            result.append(piece.as_str());
                        },
                        Err(error) => {
                            let ghost syntax_error = error;
                            let compilation_error = CompilationError::EvaluationFailed {
                                error,
                                position: Position::Absolute(*start_position),
                                source: (*value).to_owned(),
                            };
                            proof {
                                assert(compiled_pieces(
                                    self.engine(),
                                    all.take(i as int),
                                    prev_ctxs,
                                    prev_pieces,
                                ));
                                assert(self.engine().evaluate_post(
                                    parsed_block(all[i as int]->Code_value),
                                    prev_ctxs.last(),
                                    running_context,
                                    Err(syntax_error),
                                ));
                                assert(fails_at(
                                    self.engine(),
                                    all,
                                    i as int,
                                    ctx0,
                                    compilation_error,
                                ));
                                assert(compile_failed(
                                    self.engine(),
                                    all,
                                    ctx0,
                                    compilation_error,
                                ));
                            }
                            return Err(compilation_error);
                        },
                    }
                },
            }
            i = i + 1;
        }
        proof {
            assert(all.take(n as int) =~= all);
            assert(compiled_slices(self.engine(), all, ctx0, result@));
        }
        Ok(result)
    }
}

/// For any template that contains no start marker, compiling returns the
/// input text unchanged: the whole template is one text slice (or none, when
/// it is empty), nothing is evaluated and nothing can fail.
pub proof fn lemma_no_markers_compiles_verbatim<E: Evaluator>(
    engine: E,
    content: Seq<char>,
    context: Context,
    r: Result<String, CompilationError>,
)
    requires
        find_from(content, 0, start_marker()) is None,
        match r {
            Ok(output) => compiled_slices(engine, template_slices(content, 0), context, output@),
            Err(error) => compile_failed(engine, template_slices(content, 0), context, error),
        },
    ensures
        r matches Ok(output) && output@ == content,
{
    let slices = template_slices(content, 0);
    proof_marker_lengths();
    if content.len() == 0 {
        assert(next_slice_is_none(content));
        assert(slices =~= Seq::<TemplateSliceV>::empty());
        match r {
            Ok(output) => {
                let (ctxs, pieces) = choose|ctxs: Seq<Context>, pieces: Seq<Seq<char>>|
                    {
                        &&& #[trigger] compiled_pieces(engine, slices, ctxs, pieces)
                        &&& ctxs[0] == context
                        &&& output@ == pieces.flatten()
                    };
                assert(pieces =~= Seq::<Seq<char>>::empty());
                assert(output@ =~= content);
            },
            Err(error) => {
                let i = choose|i: int| #[trigger] fails_at(engine, slices, i, context, error);
                assert(false);
            },
        }
    } else {
        let whole = TemplateSliceV::Text {
            value: content.subrange(0, content.len() as int),
            start_position: 0,
            end_position: content.len() as usize,
        };
        assert(crate::template::next_slice(content, 0) == Some((whole, content.len() as int)));
        assert(next_slice_is_none(content));
        assert(template_slices(content, content.len() as int) =~= Seq::<TemplateSliceV>::empty());
        assert(slices =~= seq![whole]);
        match r {
            Ok(output) => {
                let (ctxs, pieces) = choose|ctxs: Seq<Context>, pieces: Seq<Seq<char>>|
                    {
                        &&& #[trigger] compiled_pieces(engine, slices, ctxs, pieces)
                        &&& ctxs[0] == context
                        &&& output@ == pieces.flatten()
                    };
                assert(pieces.len() == 1);
                assert(compiled_piece(engine, slices[0], ctxs[0], ctxs[1], pieces[0]));
                assert(pieces[0] == content.subrange(0, content.len() as int));
                pieces.lemma_flatten_one_element();
                assert(pieces.first() == pieces[0]);
                assert(output@ =~= content);
            },
            Err(error) => {
                let i = choose|i: int| #[trigger] fails_at(engine, slices, i, context, error);
                assert(slices[i] == whole);
                assert(false);
            },
        }
    }
}

/// With no start marker anywhere, the scan past the whole text finds nothing
/// more.
spec fn next_slice_is_none(content: Seq<char>) -> bool {
    crate::template::next_slice(content, content.len() as int) is None
}

/// The two markers are two characters long.
proof fn proof_marker_lengths()
    ensures
        start_marker().len() == 2,
        end_marker().len() == 2,
{
    reveal_strlit("{{");
    reveal_strlit("}}");
}

} // verus!
