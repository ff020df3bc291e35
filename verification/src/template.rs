//! Templates and the slicing of a template into text and code.
//!
//! A template is raw text; every substring between a `{{` marker and the next
//! `}}` marker is a code slice, and what stands between code slices is text.
//! Text after a `{{` that is never closed by `}}` is dropped, as is nothing
//! else.  All positions count characters from the start of the template.

use vstd::prelude::*;
use vstd::string::StrSliceExecFns;
use crate::literal::chars_of;

verus! {

/// The marker that opens a code block.
pub open spec fn start_marker() -> Seq<char> {
    "{{"@
}

/// The marker that closes a code block.
pub open spec fn end_marker() -> Seq<char> {
    "}}"@
}

/// A simple template: some raw source text.
///
/// A template is reusable: it can be compiled many times, with different
/// variables or evaluators.
#[derive(Debug)]
pub struct Template {
    pub raw_content: String,
}

impl View for Template {
    type V = Seq<char>;

    open spec fn view(&self) -> Seq<char> {
        self.raw_content@
    }
}

impl Template {
    /// A template over the given source text.
    pub fn from(raw_content: String) -> (r: Template)
        ensures
            r@ == raw_content@,
    {
        Template { raw_content }
    }
}

impl PartialEq for Template {
    /// Two templates are equal when they hold the same text.
    fn eq(&self, other: &Template) -> (r: bool) {
        self.raw_content == other.raw_content
    }
}

impl vstd::std_specs::cmp::PartialEqSpecImpl for Template {
    open spec fn obeys_eq_spec() -> bool {
        true
    }

    open spec fn eq_spec(&self, other: &Template) -> bool {
        self@ == other@
    }
}

/// A slice of a template: either plain text or one marker-delimited code
/// block, with its character positions in the whole template.
#[derive(Debug)]
pub enum TemplateSlice<'a> {
    Text { value: &'a str, start_position: usize, end_position: usize },
    Code { value: &'a str, start_position: usize, end_position: usize },
}

/// The model of a [`TemplateSlice`].
pub enum TemplateSliceV {
    Text { value: Seq<char>, start_position: usize, end_position: usize },
    Code { value: Seq<char>, start_position: usize, end_position: usize },
}

impl<'a> View for TemplateSlice<'a> {
    type V = TemplateSliceV;

    open spec fn view(&self) -> TemplateSliceV {
        match *self {
            TemplateSlice::Text { value, start_position, end_position } => TemplateSliceV::Text {
                value: value@,
                start_position,
                end_position,
            },
            TemplateSlice::Code { value, start_position, end_position } => TemplateSliceV::Code {
                value: value@,
                start_position,
                end_position,
            },
        }
    }
}

impl<'a> PartialEq for TemplateSlice<'a> {
    /// Two slices are equal when they have the same kind, text and positions.
    fn eq(&self, other: &TemplateSlice<'a>) -> (r: bool) {
        match (self, other) {
            (
                TemplateSlice::Text { value: v1, start_position: s1, end_position: e1 },
                TemplateSlice::Text { value: v2, start_position: s2, end_position: e2 },
            ) => str_eq(v1, v2) && *s1 == *s2 && *e1 == *e2,
            (
                TemplateSlice::Code { value: v1, start_position: s1, end_position: e1 },
                TemplateSlice::Code { value: v2, start_position: s2, end_position: e2 },
            ) => str_eq(v1, v2) && *s1 == *s2 && *e1 == *e2,
            _ => false,
        }
    }
}

impl<'a> vstd::std_specs::cmp::PartialEqSpecImpl for TemplateSlice<'a> {
    open spec fn obeys_eq_spec() -> bool {
        true
    }

    open spec fn eq_spec(&self, other: &TemplateSlice<'a>) -> bool {
        self@ == other@
    }
}

/// Compares two string slices by their character sequences.
fn str_eq(a: &str, b: &str) -> (r: bool)
    ensures
        r == (a@ == b@),
{
    let ao = a.to_owned();
    let bo = b.to_owned();
    ao == bo
}

/// The first position `j` at or after `from` where `pat` occurs in `s`, if
/// any.
pub open spec fn find_from(s: Seq<char>, from: int, pat: Seq<char>) -> Option<int>
    decreases s.len() - from when 0 <= from
{
    if from + pat.len() > s.len() {
        None
    } else if pat.len() == 0 {
        Some(from)
    } else if s.subrange(from, from + pat.len()) == pat {
        Some(from)
    } else {
        find_from(s, from + 1, pat)
    }
}

/// A found occurrence lies at or after `from` and fits inside `s`.
pub proof fn lemma_find_from_bounds(s: Seq<char>, from: int, pat: Seq<char>)
    requires
        0 <= from,
    ensures
        match find_from(s, from, pat) {
            Some(j) => from <= j && j + pat.len() <= s.len() && s.subrange(j, j + pat.len()) == pat,
            None => true,
        },
    decreases s.len() - from,
{
    if from + pat.len() > s.len() {
    } else if pat.len() == 0 {
    } else if s.subrange(from, from + pat.len()) == pat {
    } else {
        lemma_find_from_bounds(s, from + 1, pat);
    }
}

/// The slice the scan yields when it stands at position `i`, with the
/// position the scan moves to: text up to the next start marker (or the end),
/// or one whole code block.  The scan ends at the end of the input, and at a
/// start marker that is never closed.
pub open spec fn next_slice(s: Seq<char>, i: int) -> Option<(TemplateSliceV, int)> {
    let found = find_from(s, i, start_marker());
    if found is None && i < s.len() {
        Some(
            (
                TemplateSliceV::Text {
                    value: s.subrange(i, s.len() as int),
                    start_position: i as usize,
                    end_position: s.len() as usize,
                },
                s.len() as int,
            ),
        )
    } else if found is None {
        None
    } else {
        let start = found->Some_0;
        if i < start {
            Some(
                (
                    TemplateSliceV::Text {
                        value: s.subrange(i, start),
                        start_position: i as usize,
                        end_position: start as usize,
                    },
                    start,
                ),
            )
        } else {
            match find_from(s, start, end_marker()) {
                None => None,
                Some(e) => {
                    let end = e + end_marker().len();
                    Some(
                        (
                            TemplateSliceV::Code {
                                value: s.subrange(start, end),
                                start_position: start as usize,
                                end_position: end as usize,
                            },
                            end,
                        ),
                    )
                },
            }
        }
    }
}

/// A step of the scan moves it strictly forward, and never past the end.
pub proof fn lemma_next_slice_advances(s: Seq<char>, i: int)
    requires
        0 <= i <= s.len(),
    ensures
        match next_slice(s, i) {
            Some(pair) => i < pair.1 <= s.len(),
            None => true,
        },
{
    lemma_find_from_bounds(s, i, start_marker());
    match find_from(s, i, start_marker()) {
        Some(start) => {
            lemma_find_from_bounds(s, start, end_marker());
            assert(start_marker().len() == 2) by {
                reveal_strlit("{{");
            }
            assert(end_marker().len() == 2) by {
                reveal_strlit("}}");
            }
        },
        None => {},
    }
}

#[via_fn]
proof fn template_slices_decreases(s: Seq<char>, i: int) {
    lemma_next_slice_advances(s, i);
}

/// Every slice of the template from position `i` on, in order.
pub open spec fn template_slices(s: Seq<char>, i: int) -> Seq<TemplateSliceV>
    decreases s.len() - i when 0 <= i <= s.len() via template_slices_decreases
{
    match next_slice(s, i) {
        None => Seq::empty(),
        Some(pair) => seq![pair.0] + template_slices(s, pair.1),
    }
}

/// Every code slice's text is a part of the template, so it is never longer
/// than the template itself.
pub proof fn lemma_template_slices_code_bounds(s: Seq<char>, i: int)
    requires
        0 <= i <= s.len(),
    ensures
        forall|j: int|
            0 <= j < template_slices(s, i).len() ==> (#[trigger] template_slices(s, i)[j] matches
                TemplateSliceV::Code { value, .. } ==> value.len() <= s.len()),
    decreases s.len() - i,
{
    lemma_next_slice_advances(s, i);
    lemma_find_from_bounds(s, i, start_marker());
    match next_slice(s, i) {
        None => {},
        Some(pair) => {
            match find_from(s, i, start_marker()) {
                Some(start) => {
                    lemma_find_from_bounds(s, start, end_marker());
                },
                None => {},
            }
            lemma_template_slices_code_bounds(s, pair.1);
            let whole = template_slices(s, i);
            let rest = template_slices(s, pair.1);
            assert(whole == seq![pair.0] + rest);
            assert forall|j: int|
                0 <= j < whole.len() implies (#[trigger] whole[j] matches TemplateSliceV::Code {
                value,
                ..
            } ==> value.len() <= s.len()) by {
                if j == 0 {
                    assert(whole[0] == pair.0);
                } else {
                    assert(whole[j] == rest[j - 1]);
                }
            }
        },
    }
}

/// Content that mixes plain parts with parts that need evaluation, and can
/// be cut into slices.
pub trait EvaluableMixedContent {
    /// The whole content as characters.
    spec fn content(&self) -> Seq<char>;

    /// Cuts the content into its slices, in order.
    fn slices<'a>(&'a self) -> (r: Vec<TemplateSlice<'a>>)
        ensures
            r.deep_view() == template_slices(self.content(), 0),
    ;
}

impl<'a> DeepView for TemplateSlice<'a> {
    type V = TemplateSliceV;

    open spec fn deep_view(&self) -> TemplateSliceV {
        self@
    }
}

/// Iterates over a template and hands out its slices one by one.
pub struct EvaluableMixedContentIterator<'a, T> {
    pub source: &'a T,
    pub current_position: usize,
}

/// Whether `pat` occurs in `v` at exactly position `j`.
fn match_at(v: &Vec<char>, j: usize, pat: &Vec<char>) -> (r: bool)
    requires
        j + pat@.len() <= v@.len(),
    ensures
        r == (v@.subrange(j as int, j + pat@.len()) == pat@),
{
    let n = v.len();
    let m = pat.len();
    let mut k: usize = 0;
    while k < m
        invariant
            n == v@.len(),
            m == pat@.len(),
            j + m <= n,
            k <= m,
            forall|x: int| 0 <= x < k ==> v@[j + x] == pat@[x],
        decreases m - k,
    {
        if v[j + k] != pat[k] {
            proof {
                assert(v@.subrange(j as int, j + m)[k as int] == v@[j + k]);
            }
            return false;
        }
        k = k + 1;
    }
    proof {
        assert(v@.subrange(j as int, j + m) =~= pat@);
    }
    true
}

/// Finds the first occurrence of `pat` in `v` at or after `from`.
fn find_chars(v: &Vec<char>, from: usize, pat: &Vec<char>) -> (r: Option<usize>)
    ensures
        match r {
            Some(j) => find_from(v@, from as int, pat@) == Some(j as int) && from <= j && j
                + pat@.len() <= v@.len(),
            None => find_from(v@, from as int, pat@) is None,
        },
{
    let n = v.len();
    let m = pat.len();
    if m == 0 {
        if from <= n {
            return Some(from);
        } else {
            return None;
        }
    }
    if m > n || from > n - m {
        return None;
    }
    let mut j = from;
    while j <= n - m
        invariant
            n == v@.len(),
            m == pat@.len(),
            0 < m <= n,
            from <= j <= n - m + 1,
            find_from(v@, from as int, pat@) == find_from(v@, j as int, pat@),
        decreases n - j,
    {
        if match_at(v, j, pat) {
            return Some(j);
        }
        j = j + 1;
    }
    None
}

impl<'a> EvaluableMixedContentIterator<'a, Template> {
    /// Hands out the next slice of the template, if one is left.
    pub fn next(&mut self) -> (r: Option<TemplateSlice<'a>>)
        requires
            old(self).current_position <= old(self).source@.len(),
        ensures
            final(self).source == old(self).source,
            match next_slice(old(self).source@, old(self).current_position as int) {
                None => r is None && final(self).current_position == old(self).current_position,
                Some(pair) => {
                    &&& r matches Some(slice) && slice@ == pair.0
                    &&& final(self).current_position == pair.1
                    &&& old(self).current_position < final(self).current_position <= old(
                        self,
                    ).source@.len()
                },
            },
    {
        let ghost s = self.source@;
        let i = self.current_position;
        let raw = self.source.raw_content.as_str();
        let chars = chars_of(raw);
        let n = chars.len();
        let start_pat = chars_of("{{");
        let end_pat = chars_of("}}");
        proof {
            reveal_strlit("{{");
            reveal_strlit("}}");
            lemma_next_slice_advances(s, i as int);
        }
        let found = find_chars(&chars, i, &start_pat);
        match found {
            None => {
                if i < n {
                    self.current_position = n;
                    let value = raw.substring_char(i, n);
                    proof {
                        assert(value@ =~= s.subrange(i as int, s.len() as int));
                    }
                    Some(
                        TemplateSlice::Text { value, start_position: i, end_position: n },
                    )
                } else {
                    None
                }
            },
            Some(start) => {
                if i < start {
                    self.current_position = start;
                    let value = raw.substring_char(i, start);
                    proof {
                        assert(value@ =~= s.subrange(i as int, start as int));
                    }
                    Some(
                        TemplateSlice::Text { value, start_position: i, end_position: start },
                    )
                } else {
                    match find_chars(&chars, start, &end_pat) {
                        None => None,
                        Some(e) => {
                            let end = e + end_pat.len();
                            self.current_position = end;
                            let value = raw.substring_char(start, end);
                            proof {
                                assert(value@ =~= s.subrange(start as int, end as int));
                            }
                            Some(
                                TemplateSlice::Code {
                                    value,
                                    start_position: start,
                                    end_position: end,
                                },
                            )
                        },
                    }
                }
            },
        }
    }
}

impl EvaluableMixedContent for Template {
    open spec fn content(&self) -> Seq<char> {
        self@
    }

    fn slices<'a>(&'a self) -> (r: Vec<TemplateSlice<'a>>) {
        let mut out: Vec<TemplateSlice<'a>> = Vec::new();
        let mut it = EvaluableMixedContentIterator { source: self, current_position: 0 };
        let ghost s = self@;
        loop
            invariant
                it.source == self,
                it.current_position <= s.len(),
                s == self@,
                out.deep_view() + template_slices(s, it.current_position as int)
                    =~= template_slices(s, 0),
            decreases s.len() + 1 - it.current_position,
        {
            let ghost pos = it.current_position as int;
            match it.next() {
                None => {
                    proof {
                        assert(template_slices(s, pos) =~= Seq::<TemplateSliceV>::empty());
                        assert(out.deep_view() =~= template_slices(s, 0));
                    }
                    return out;
                },
                Some(slice) => {
                    let ghost prev = out.deep_view();
                    out.push(slice);
                    proof {
                        assert(out.deep_view() =~= prev.push(slice@));
                        assert(template_slices(s, pos) =~= seq![slice@] + template_slices(
                            s,
                            it.current_position as int,
                        ));
                        assert(out.deep_view() + template_slices(s, it.current_position as int)
                            =~= template_slices(s, 0));
                    }
                },
            }
        }
    }
}

} // verus!
