//! The tree that the grammar produces: fragments of the source text, each
//! tagged with the rule that matched it.

use vstd::prelude::*;
use crate::text::text_between;

verus! {

/// The rules of the grammar. A fragment of the tree carries the rule that
/// matched it.
#[allow(non_camel_case_types)]
#[derive(Clone, Copy, Debug, PartialEq, Eq, Structural)]
pub enum Rule {
    moho,
    class,
    name,
    inheritance,
    properties,
    property,
    meta,
    value,
    bool,
    char,
    float,
    integer,
    string,
    nullptr,
    body,
    declaration,
    block_decl,
    field_decl,
    method_decl,
    static_spec,
    type_decl,
    dbpointer_type,
    pointer_type,
    reference_type,
    array_type,
    matrix_type,
    identifier,
    dont_care_type_decl,
    arguments,
    argument,
}

/// A stretch of the source text, by the positions of its first character and
/// of the character after its last, counted in characters from 0.
#[derive(Clone, Copy, Debug, PartialEq, Eq, Structural)]
pub struct Span {
    pub start: usize,
    pub end: usize,
}

/// A fragment of the source text that a rule matched, with the fragments
/// matched inside it.
#[derive(Debug, PartialEq)]
pub struct Pair {
    pub rule: Rule,
    pub span: Span,
    pub text: String,
    pub inner: Vec<Pair>,
}

/// Mathematical view of a [`Pair`].
pub struct PairView {
    pub rule: Rule,
    pub start: int,
    pub end: int,
    pub text: Seq<char>,
    pub inner: Seq<PairView>,
}

/// The view of a fragment, through all fragments inside it.
pub open spec fn pair_view(p: Pair) -> PairView
    decreases p,
{
    PairView {
        rule: p.rule,
        start: p.span.start as int,
        end: p.span.end as int,
        text: p.text@,
        inner: Seq::new(
            p.inner@.len(),
            |i: int|
                if 0 <= i < p.inner.len() {
                    pair_view(p.inner[i])
                } else {
                    arbitrary()
                },
        ),
    }
}

impl View for Pair {
    type V = PairView;

    open spec fn view(&self) -> PairView {
        pair_view(*self)
    }
}

/// Views of a list of fragments, in order.
pub open spec fn view_pairs(v: Seq<Pair>) -> Seq<PairView> {
    v.map_values(|p: Pair| p@)
}

/// View of an optional fragment.
pub open spec fn view_opt_pair(p: Option<Pair>) -> Option<PairView> {
    match p {
        Some(x) => Some(x@),
        None => None,
    }
}

/// The view of a fragment lists the views of the fragments inside it.
pub proof fn lemma_pair_view_inner(p: Pair)
    ensures
        p@.inner == view_pairs(p.inner@),
{
    assert(p@.inner =~= view_pairs(p.inner@));
}

/// The fragment of `s` from `start` up to `end` under `rule`, with `inner`
/// inside it.
pub open spec fn node(
    rule: Rule,
    s: Seq<char>,
    start: int,
    end: int,
    inner: Seq<PairView>,
) -> PairView {
    PairView { rule, start, end, text: s.subrange(start, end), inner }
}

/// Builds the fragment of `chars` from `start` up to `end`.
pub(crate) fn make_pair(rule: Rule, chars: &Vec<char>, start: usize, end: usize, inner: Vec<Pair>) -> (p:
    Pair)
    requires
        start <= end <= chars.len(),
    ensures
        p@ == node(rule, chars@, start as int, end as int, view_pairs(inner@)),
{
    let p = Pair { rule, span: Span { start, end }, text: text_between(chars, start, end), inner };
    proof {
        lemma_pair_view_inner(p);
    }
    p
}

/// Adds one fragment at the end of a list.
pub(crate) fn push_pair(list: &mut Vec<Pair>, p: Pair)
    ensures
        view_pairs(final(list)@) == view_pairs(old(list)@).push(p@),
{
    list.push(p);
    assert(view_pairs(list@) =~= view_pairs(old(list)@).push(p@));
}

/// Adds the fragments of `more` at the end of a list.
pub(crate) fn append_pairs(list: &mut Vec<Pair>, more: Vec<Pair>)
    ensures
        view_pairs(final(list)@) == view_pairs(old(list)@) + view_pairs(more@),
{
    let mut more = more;
    let ghost added = more@;
    list.append(&mut more);
    assert(view_pairs(list@) =~= view_pairs(old(list)@) + view_pairs(added));
}

} // verus!
