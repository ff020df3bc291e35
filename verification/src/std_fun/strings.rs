//! Standard string manipulation and utility functions.

use vstd::prelude::*;
use vstd::seq_lib::*;
use vstd::string::StrSliceExecFns;
use vstd::string::StringExecFns;
use crate::bindings::Bindings;
use crate::engine::SimpleEvaluationEngine;
use crate::evaluator::{BoxedFunction, Context, Function, SyntaxError};
use crate::functions::{params_failed, params_resolved, resolve_params};
use crate::ast::{SyntaxNode, SyntaxNodeV};
use crate::literal::chars_of;

verus! {

/// A character with the Unicode white-space property: what `trim` strips.
pub open spec fn is_whitespace_char(c: char) -> bool {
    ||| c == ' '
    ||| c == '\t'
    ||| c == '\n'
    ||| c == '\u{B}'
    ||| c == '\u{C}'
    ||| c == '\r'
    ||| c == '\u{85}'
    ||| c == '\u{A0}'
    ||| c == '\u{1680}'
    ||| ('\u{2000}' <= c && c <= '\u{200A}')
    ||| c == '\u{2028}'
    ||| c == '\u{2029}'
    ||| c == '\u{202F}'
    ||| c == '\u{205F}'
    ||| c == '\u{3000}'
}

/// The text without its leading white space.
pub open spec fn trim_front(s: Seq<char>) -> Seq<char>
    decreases s.len(),
{
    if s.len() > 0 && is_whitespace_char(s[0]) {
        trim_front(s.drop_first())
    } else {
        s
    }
}

/// The text without its trailing white space.
pub open spec fn trim_back(s: Seq<char>) -> Seq<char>
    decreases s.len(),
{
    if s.len() > 0 && is_whitespace_char(s.last()) {
        trim_back(s.drop_last())
    } else {
        s
    }
}

/// The text without leading and trailing white space.
pub open spec fn trimmed(s: Seq<char>) -> Seq<char> {
    trim_back(trim_front(s))
}

/// Stripping the front stops exactly at the first character that is not
/// white space.
proof fn lemma_trim_front(s: Seq<char>, a: int)
    requires
        0 <= a <= s.len(),
        forall|j: int| 0 <= j < a ==> is_whitespace_char(#[trigger] s[j]),
        a < s.len() ==> !is_whitespace_char(s[a]),
    ensures
        trim_front(s) == s.skip(a),
    decreases a,
{
    if a == 0 {
        assert(s.skip(0) =~= s);
    } else {
        lemma_trim_front(s.drop_first(), a - 1);
        assert(s.drop_first().skip(a - 1) =~= s.skip(a));
    }
}

/// Stripping the back stops exactly at the last character that is not white
/// space.
proof fn lemma_trim_back(s: Seq<char>, b: int)
    requires
        0 <= b <= s.len(),
        forall|j: int| b <= j < s.len() ==> is_whitespace_char(#[trigger] s[j]),
        b > 0 ==> !is_whitespace_char(s[b - 1]),
    ensures
        trim_back(s) == s.take(b),
    decreases s.len() - b,
{
    if b == s.len() {
        assert(s.take(b) =~= s);
    } else {
        lemma_trim_back(s.drop_last(), b);
        assert(s.drop_last().take(b) =~= s.take(b));
    }
}

/// Whether the character has the Unicode white-space property.
fn is_whitespace(c: char) -> (r: bool)
    ensures
        r == is_whitespace_char(c),
{
    c == ' ' || c == '\t' || c == '\n' || c == '\u{B}' || c == '\u{C}' || c == '\r' || c == '\u{85}'
        || c == '\u{A0}' || c == '\u{1680}' || ('\u{2000}' <= c && c <= '\u{200A}') || c
        == '\u{2028}' || c == '\u{2029}' || c == '\u{202F}' || c == '\u{205F}' || c == '\u{3000}'
}

/// The string without leading and trailing white space.
fn trim_str(s: &str) -> (r: String)
    ensures
        r@ == trimmed(s@),
{
    let chars = chars_of(s);
    let n = chars.len();
    let mut a: usize = 0;
    while a < n && is_whitespace(chars[a])
        invariant
            n == s@.len(),
            chars@ == s@,
            a <= n,
            forall|j: int| 0 <= j < a ==> is_whitespace_char(#[trigger] s@[j]),
        decreases n - a,
    {
        a = a + 1;
    }
    let mut b: usize = n;
    while b > a && is_whitespace(chars[b - 1])
        invariant
            n == s@.len(),
            chars@ == s@,
            a <= b <= n,
            forall|j: int| b <= j < n ==> is_whitespace_char(#[trigger] s@[j]),
        decreases b,
    {
        b = b - 1;
    }
    proof {
        lemma_trim_front(s@, a as int);
        if b == a {
            // everything from a on is white space
            lemma_trim_back(s@.skip(a as int), 0);
        } else {
            lemma_trim_back(s@.skip(a as int), b - a);
        }
        assert(s@.skip(a as int).take(b - a) =~= s@.subrange(a as int, b as int));
    }
    let r = s.substring_char(a, b).to_owned();
    proof {
        assert(r@ =~= trimmed(s@));
    }
    r
}

/// The trimmed views of a list of values.
pub open spec fn trimmed_views(values: Seq<Seq<char>>) -> Seq<Seq<char>> {
    Seq::new(values.len(), |i: int| trimmed(values[i]))
}

/// The character sequences of a list of strings.
pub open spec fn views_of(values: Seq<String>) -> Seq<Seq<char>> {
    Seq::new(values.len(), |i: int| values[i]@)
}

/// Concatenates the parameters, in order, with nothing between them.
pub fn concat_function(parameters: &[String]) -> (r: String)
    ensures
        r@ == parameters.deep_view().flatten(),
{
    let mut result = String::new();
    let n = parameters.len();
    let mut i: usize = 0;
    proof {
        assert(parameters.deep_view().len() == parameters@.len());
        assert(parameters.deep_view().take(0) =~= Seq::<Seq<char>>::empty());
        assert(result@ =~= parameters.deep_view().take(0).flatten());
    }
    while i < n
        invariant
            n == parameters@.len(),
            i <= n,
            parameters.deep_view().len() == n,
            forall|j: int| 0 <= j < n ==> parameters.deep_view()[j] == parameters@[j]@,
            result@ == parameters.deep_view().take(i as int).flatten(),
        decreases n - i,
    {
        let ghost prefix = parameters.deep_view().take(i as int);
        result.append(parameters[i].as_str());
        proof {
            prefix.lemma_flatten_push(parameters@[i as int]@);
            assert(parameters.deep_view().take(i as int + 1) =~= prefix.push(
                parameters@[i as int]@,
            ));
        }
        i = i + 1;
    }
    proof {
        assert(parameters.deep_view().take(n as int) =~= parameters.deep_view());
    }
    result
}

/// Trims every parameter and concatenates the results.
pub fn trim_function(parameters: &[String]) -> (r: String)
    ensures
        r@ == trimmed_views(parameters.deep_view()).flatten(),
{
    let ghost all = trimmed_views(parameters.deep_view());
    let mut result = String::new();
    let n = parameters.len();
    let mut i: usize = 0;
    proof {
        assert(parameters.deep_view().len() == parameters@.len());
        assert(all.take(0) =~= Seq::<Seq<char>>::empty());
        assert(result@ =~= all.take(0).flatten());
    }
    while i < n
        invariant
            n == parameters@.len(),
            i <= n,
            all == trimmed_views(parameters.deep_view()),
            all.len() == n,
            forall|j: int| 0 <= j < n ==> all[j] == trimmed(parameters@[j]@),
            result@ == all.take(i as int).flatten(),
        decreases n - i,
    {
        let ghost prefix = all.take(i as int);
        let piece = trim_str(parameters[i].as_str());
        result.append(piece.as_str());
        proof {
            prefix.lemma_flatten_push(all[i as int]);
            assert(all.take(i as int + 1) =~= prefix.push(all[i as int]));
        }
        i = i + 1;
    }
    proof {
        assert(all.take(n as int) =~= all);
    }
    result
}

/// Yields `}}`, whatever the parameters are: the way to write a closing
/// marker inside a template.
pub fn right_brackets_function(parameters: &[String]) -> (r: String)
    ensures
        r@ == "}}"@,
{
    "}}".to_owned()
}

/// Yields a double quote, whatever the parameters are.
pub fn quotes_function(parameters: &[String]) -> (r: String)
    ensures
        r@ == "\""@,
{
    "\"".to_owned()
}

/// The standard string functions, as one registry value.
///
/// Each variant evaluates its parameters in order and applies the matching
/// string function; the first parameter that fails to evaluate aborts the
/// call with its error.
pub enum StdStringFunction {
    Concat,
    Trim,
    RightBrackets,
    Quotes,
}

impl Function for StdStringFunction {
    /// Every parameter is resolved in order; on success the result is the
    /// variant's own function of the resolved values, and on failure the
    /// first failing parameter's error, untouched.
    open spec fn post(
        &self,
        evaluator: SimpleEvaluationEngine,
        parameters: Seq<SyntaxNodeV>,
        ctx_before: Context,
        ctx_after: Context,
        r: Result<String, SyntaxError>,
    ) -> bool {
        match r {
            Ok(v) => exists|values: Seq<String>|
                #![trigger views_of(values)]
                {
                    &&& params_resolved(evaluator, parameters, ctx_before, ctx_after, values)
                    &&& v@ == match *self {
                        StdStringFunction::Concat => views_of(values).flatten(),
                        StdStringFunction::Trim => trimmed_views(views_of(values)).flatten(),
                        StdStringFunction::RightBrackets => "}}"@,
                        StdStringFunction::Quotes => "\""@,
                    }
                },
            Err(error) => params_failed(evaluator, parameters, ctx_before, ctx_after, error),
        }
    }

    fn evaluate(
        &self,
        evaluator: &SimpleEvaluationEngine,
        parameters: &[SyntaxNode],
        context: &mut Context,
    ) -> (r: Result<String, SyntaxError>) {
        let resolved = resolve_params(evaluator, parameters, context);
        match resolved {
            Ok(values) => {
                let arguments = values.as_slice();
                let output = match self {
                    StdStringFunction::Concat => concat_function(arguments),
                    StdStringFunction::Trim => trim_function(arguments),
                    StdStringFunction::RightBrackets => right_brackets_function(arguments),
                    StdStringFunction::Quotes => quotes_function(arguments),
                };
                proof {
                    assert(arguments.deep_view() =~= views_of(values@));
                }
                Ok(output)
            },
            Err(err) => Err(err),
        }
    }
}

/// The registry of string functions: `concat`, `trim`, `$}` and `$quote`.
pub fn string_functions() -> (r: Bindings<BoxedFunction>)
    ensures
        r@.dom() == set!["concat"@, "trim"@, "$}"@, "$quote"@],
{
    let mut functions: Bindings<BoxedFunction> = Bindings::new();
    functions.insert("concat".to_owned(), BoxedFunction::new(StdStringFunction::Concat));
    functions.insert("trim".to_owned(), BoxedFunction::new(StdStringFunction::Trim));
    functions.insert("$}".to_owned(), BoxedFunction::new(StdStringFunction::RightBrackets));
    functions.insert("$quote".to_owned(), BoxedFunction::new(StdStringFunction::Quotes));
    proof {
        assert(functions@.dom() =~= set!["concat"@, "trim"@, "$}"@, "$quote"@]);
    }
    functions
}

} // verus!
