//! The parser: builds a syntax tree from one code block.
//!
//! The grammar is Lisp-like: `function arg0 arg1 (nested arg)`.  A token is a
//! maximal run of characters that are not an unquoted space or parenthesis; a
//! double-quoted region keeps its quotes and may span delimiters.  The parser
//! never fails: unbalanced parentheses end the scan at the end of the input,
//! and a trailing token that no delimiter closes is dropped.
//!
//! The first token of a nesting level becomes that level's identifier,
//! turning the anonymous node into a named one; every further token becomes a
//! childless named child; a parenthesis opens a child level.  Every recorded
//! position is the exact offset of the token's first character, counted in
//! characters from the start of the marker-stripped code block.

use vstd::prelude::*;
use crate::ast::{SyntaxNode, SyntaxNodeV};
use crate::literal::chars_of;
use crate::units::Position;

verus! {

/// The running state of one nesting level's scan.
pub struct ScanState {
    /// The node built so far for this level.
    pub node: SyntaxNodeV,
    /// The token accumulated so far.
    pub token: Seq<char>,
    /// Whether the scan stands inside a double-quoted region.
    pub in_string: bool,
    /// Where the token being accumulated started.
    pub token_start: int,
    /// Positions before this one were already consumed by a nested scan.
    pub resume_at: int,
}

/// The state a nesting level starts with: an anonymous node recorded at
/// `node_at` (the opening parenthesis, or the start of the block), scanning
/// content from `content_start`.
pub open spec fn init_state(node_at: int, content_start: int) -> ScanState {
    ScanState {
        node: SyntaxNodeV::Anonymous {
            starts_at: Position::RelativeToCodeStart(node_at as usize),
            children: Seq::empty(),
        },
        token: Seq::empty(),
        in_string: false,
        token_start: content_start,
        resume_at: content_start,
    }
}

/// The flush rule: an empty token changes nothing; the first token of a
/// level becomes the node's identifier; a later token becomes a childless
/// named child.  `pos` is the offset of the token's first character.
pub open spec fn flush_token(node: SyntaxNodeV, token: Seq<char>, pos: int) -> SyntaxNodeV {
    if token.len() == 0 {
        node
    } else {
        match node {
            SyntaxNodeV::Anonymous { starts_at, children } => SyntaxNodeV::Named {
                identifier: token,
                starts_at: Position::RelativeToCodeStart(pos as usize),
                children,
            },
            SyntaxNodeV::Named { identifier, starts_at, children } => SyntaxNodeV::Named {
                identifier,
                starts_at,
                children: children.push(
                    SyntaxNodeV::Named {
                        identifier: token,
                        starts_at: Position::RelativeToCodeStart(pos as usize),
                        children: Seq::empty(),
                    },
                ),
            },
        }
    }
}

/// Appends a child to a node, whichever variant it is.
pub open spec fn with_child(node: SyntaxNodeV, child: SyntaxNodeV) -> SyntaxNodeV {
    match node {
        SyntaxNodeV::Anonymous { starts_at, children } => SyntaxNodeV::Anonymous {
            starts_at,
            children: children.push(child),
        },
        SyntaxNodeV::Named { identifier, starts_at, children } => SyntaxNodeV::Named {
            identifier,
            starts_at,
            children: children.push(child),
        },
    }
}

/// One nesting level's scan over `s`, standing at position `i` and carrying
/// the state `st`.
///
/// The scan ends at an unquoted closing parenthesis, returning the flushed
/// node and the parenthesis's position, or at the end of the input, returning
/// the node as it stands (a pending token is dropped) and the input's length.
/// An opening parenthesis flushes the pending token, scans a child level from
/// just past it, and resumes just past what the child consumed.
pub open spec fn scan(s: Seq<char>, i: int, st: ScanState) -> (SyntaxNodeV, int)
    decreases s.len() - i when 0 <= i
{
    if i >= s.len() {
        (st.node, s.len() as int)
    } else {
        let c = s[i];
        if i < st.resume_at {
            scan(s, i + 1, st)
        } else if st.in_string && c != '"' {
            scan(s, i + 1, ScanState { token: st.token.push(c), ..st })
        } else if st.in_string {
            scan(s, i + 1, ScanState { token: st.token.push(c), in_string: false, ..st })
        } else if c == '"' {
            scan(s, i + 1, ScanState { token: st.token.push(c), in_string: true, ..st })
        } else if c == '(' {
            let flushed = flush_token(st.node, st.token, st.token_start);
            let child = scan(s, i + 1, init_state(i, i + 1));
            scan(
                s,
                i + 1,
                ScanState {
                    node: with_child(flushed, child.0),
                    token: Seq::empty(),
                    token_start: child.1 + 1,
                    resume_at: child.1 + 1,
                    ..st
                },
            )
        } else if c == ' ' || c == ')' {
            let flushed = flush_token(st.node, st.token, st.token_start);
            if c == ')' {
                (flushed, i)
            } else {
                scan(
                    s,
                    i + 1,
                    ScanState { node: flushed, token: Seq::empty(), token_start: i + 1, ..st },
                )
            }
        } else {
            scan(s, i + 1, ScanState { token: st.token.push(c), ..st })
        }
    }
}

/// The code block text once a leading start marker and a trailing end marker
/// are stripped, where present.
pub open spec fn strip_markers(s: Seq<char>, code_start: Seq<char>, code_end: Seq<char>) -> Seq<
    char,
> {
    let s1 = if s.len() >= code_start.len() && s.take(code_start.len() as int) == code_start {
        s.skip(code_start.len() as int)
    } else {
        s
    };
    if s1.len() >= code_end.len() && s1.skip(s1.len() - code_end.len()) == code_end {
        s1.take(s1.len() - code_end.len())
    } else {
        s1
    }
}

/// The tree that parsing a marker-stripped code block yields.
pub open spec fn parse_result(code: Seq<char>) -> SyntaxNodeV {
    scan(code, 0, init_state(0, 0)).0
}

/// Relies on String's FromIterator over characters: collecting a vector of
/// characters yields the string holding exactly those characters in order.
#[verifier::external_body]
fn string_from_chars(v: &Vec<char>) -> (r: String)
    ensures
        r@ == v@,
{
    v.iter().collect()
}

/// The flush rule in executable form.
fn add_identifier_or_child(
    syntax_node: SyntaxNode,
    new_identifier: &Vec<char>,
    identifier_starts_at: usize,
) -> (r: SyntaxNode)
    ensures
        r@ == flush_token(syntax_node@, new_identifier@, identifier_starts_at as int),
{
    if new_identifier.len() == 0 {
        return syntax_node;
    }
    let ident = string_from_chars(new_identifier);
    if syntax_node.is_anonymous() {
        syntax_node.with_identifier(
            ident.as_str(),
            Position::RelativeToCodeStart(identifier_starts_at),
        )
    } else {
        syntax_node.add_child(
            SyntaxNode::NamedNode {
                identifier: ident,
                starts_at: Position::RelativeToCodeStart(identifier_starts_at),
                children: Vec::new(),
            },
        )
    }
}

/// One nesting level's scan, in executable form.
fn next_node_of(src: &Vec<char>, node_at: usize, start: usize) -> (r: (SyntaxNode, usize))
    requires
        node_at <= start <= src@.len(),
        src@.len() < usize::MAX,
    ensures
        (r.0@, r.1 as int) == scan(src@, start as int, init_state(node_at as int, start as int)),
        r.1 <= src@.len(),
    decreases src@.len() - start,
{
    let ghost s = src@;
    let n = src.len();
    let mut node = SyntaxNode::AnonymousNode {
        starts_at: Position::RelativeToCodeStart(node_at),
        children: Vec::new(),
    };
    let mut token: Vec<char> = Vec::new();
    let mut in_string = false;
    let mut token_start: usize = start;
    let mut resume_at: usize = start;
    let mut i: usize = start;
    proof {
        assert(node@ == init_state(node_at as int, start as int).node);
    }
    while i < n
        invariant
            start <= i,
            i <= n,
            n == s.len(),
            s == src@,
            n < usize::MAX,
            token_start <= n + 1,
            resume_at <= n + 1,
            scan(s, i as int, ScanState {
                node: node@,
                token: token@,
                in_string,
                token_start: token_start as int,
                resume_at: resume_at as int,
            }) == scan(s, start as int, init_state(node_at as int, start as int)),
        decreases n - i,
    {
        let ghost st = ScanState {
            node: node@,
            token: token@,
            in_string,
            token_start: token_start as int,
            resume_at: resume_at as int,
        };
        let c = src[i];
        if i < resume_at {
            // already consumed by a nested scan
        } else if in_string && c != '"' {
            token.push(c);
        } else if in_string {
            token.push(c);
            in_string = false;
        } else if c == '"' {
            token.push(c);
            in_string = true;
        } else if c == '(' {
            node = add_identifier_or_child(node, &token, token_start);
            let child = next_node_of(src, i, i + 1);
            node = node.add_child(child.0);
            token.clear();
            token_start = child.1 + 1;
            resume_at = child.1 + 1;
        } else if c == ' ' || c == ')' {
            node = add_identifier_or_child(node, &token, token_start);
            if c == ')' {
                proof {
                    assert(scan(s, i as int, st) == (node@, i as int));
                }
                return (node, i);
            }
            token.clear();
            token_start = i + 1;
        } else {
            token.push(c);
        }
        i = i + 1;
    }
    (node, n)
}

/// Whether `v` starts with the characters of `p`.
fn starts_with_chars(v: &Vec<char>, p: &Vec<char>) -> (r: bool)
    ensures
        r == (v@.len() >= p@.len() && v@.take(p@.len() as int) == p@),
{
    let m = p.len();
    if v.len() < m {
        return false;
    }
    let mut i: usize = 0;
    while i < m
        invariant
            m == p@.len() <= v@.len(),
            i <= m,
            forall|j: int| 0 <= j < i ==> v@[j] == p@[j],
        decreases m - i,
    {
        if v[i] != p[i] {
            proof {
                assert(v@.take(p@.len() as int)[i as int] == v@[i as int]);
            }
            return false;
        }
        i = i + 1;
    }
    proof {
        assert(v@.take(p@.len() as int) =~= p@);
    }
    true
}

/// Whether `v` ends with the characters of `p`.
fn ends_with_chars(v: &Vec<char>, p: &Vec<char>) -> (r: bool)
    ensures
        r == (v@.len() >= p@.len() && v@.skip(v@.len() - p@.len()) == p@),
{
    let m = p.len();
    let n = v.len();
    if n < m {
        return false;
    }
    let start = n - m;
    let mut i: usize = 0;
    while i < m
        invariant
            m == p@.len(),
            n == v@.len(),
            m <= n,
            start == n - m,
            i <= m,
            forall|j: int| 0 <= j < i ==> v@[start + j] == p@[j],
        decreases m - i,
    {
        if v[start + i] != p[i] {
            proof {
                assert(v@.skip(start as int)[i as int] == v@[start + i]);
            }
            return false;
        }
        i = i + 1;
    }
    proof {
        assert(v@.skip(start as int) =~= p@);
    }
    true
}

/// A copy of `v`'s characters in `[from, to)`.
fn subrange_chars(v: &Vec<char>, from: usize, to: usize) -> (r: Vec<char>)
    requires
        from <= to <= v@.len(),
    ensures
        r@ == v@.subrange(from as int, to as int),
{
    let mut out: Vec<char> = Vec::new();
    let mut i: usize = from;
    while i < to
        invariant
            from <= i <= to <= v@.len(),
            out@.len() == i - from,
            forall|j: int| 0 <= j < i - from ==> out@[j] == v@[from + j],
        decreases to - i,
    {
        out.push(v[i]);
        i = i + 1;
    }
    proof {
        assert(out@ =~= v@.subrange(from as int, to as int));
    }
    out
}

/// Parses one code block into a syntax tree.
///
/// A leading `code_start` marker and a trailing `code_end` marker are
/// stripped when present; every recorded position is the exact character
/// offset of the token's first character in the stripped text.  The parse is
/// total: malformed input yields a tree rather than an error, and an
/// unmatched opening parenthesis ends the scan at the end of the input.
pub fn parse_ast(source: &str, code_start: &str, code_end: &str) -> (r: SyntaxNode)
    requires
        source@.len() < usize::MAX,
    ensures
        r@ == parse_result(strip_markers(source@, code_start@, code_end@)),
{
    let chars = chars_of(source);
    let start_marker = chars_of(code_start);
    let end_marker = chars_of(code_end);
    let from: usize = if starts_with_chars(&chars, &start_marker) {
        start_marker.len()
    } else {
        0
    };
    let after_prefix = subrange_chars(&chars, from, chars.len());
    proof {
        if chars@.len() >= start_marker@.len() && chars@.take(start_marker@.len() as int)
            == start_marker@ {
            assert(after_prefix@ =~= chars@.skip(start_marker@.len() as int));
        } else {
            assert(after_prefix@ =~= chars@);
        }
    }
    let to: usize = if ends_with_chars(&after_prefix, &end_marker) {
        after_prefix.len() - end_marker.len()
    } else {
        after_prefix.len()
    };
    let code = subrange_chars(&after_prefix, 0, to);
    proof {
        if after_prefix@.len() >= end_marker@.len() && after_prefix@.skip(
            after_prefix@.len() - end_marker@.len(),
        ) == end_marker@ {
            assert(code@ =~= after_prefix@.take(after_prefix@.len() - end_marker@.len()));
        } else {
            assert(code@ =~= after_prefix@);
        }
        assert(code@ == strip_markers(source@, code_start@, code_end@));
    }
    let result = next_node_of(&code, 0, 0);
    result.0
}

} // verus!
