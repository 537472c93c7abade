//! What holds of parsing as a whole.

use vstd::prelude::*;
use crate::error::Failure;
use crate::meaning::{blank_class, class_from, class_of, class_with, classes_of, unit_of, value_of};
use crate::model::{ClassView, PropertyView};
use crate::syntax::{after_spaces, class_at, marker_at, moho_at, properties_at};
use crate::tree::{PairView, Rule};

verus! {

/// Every character of `s` is white space.
pub open spec fn is_blank(s: Seq<char>) -> bool {
    forall|i: int| 0 <= i < s.len() ==> crate::text::is_space(#[trigger] s[i])
}

/// A run of white space reaches the end of a text that holds nothing else.
pub proof fn lemma_blank_run(s: Seq<char>, i: int)
    requires
        is_blank(s),
        0 <= i <= s.len(),
    ensures
        after_spaces(s, i) == s.len(),
    decreases s.len() - i,
{
    if i < s.len() {
        assert(crate::text::is_space(s[i]));
        lemma_blank_run(s, i + 1);
    }
}

/// A text without classes is an empty unit: the empty text, and any text of
/// white space only, parses to no classes.
pub proof fn lemma_blank_text_is_empty_unit(s: Seq<char>)
    requires
        is_blank(s),
    ensures
        unit_of(s) == Ok::<Seq<ClassView>, Failure>(Seq::empty()),
{
    lemma_blank_run(s, 0);
    let end = s.len() as int;
    assert(properties_at(s, end) is None);
    assert(marker_at(Rule::class, s, end, "class"@) is None) by {
        reveal_strlit("class");
    }
    assert(class_at(s, end) is None);
    assert(unit_of(s) == classes_of(moho_at(s)->0.inner, 0, Seq::empty()));
}

/// Reading the parts of a class leaves the block of its declarations without
/// properties of its own.
pub proof fn lemma_class_block_is_bare(whole: PairView, i: int, c: ClassView)
    requires
        c.inner.properties.len() == 0,
    ensures
        class_from(whole, i, c) matches Ok(done) ==> done.inner.properties.len() == 0,
    decreases whole.inner.len() - i,
{
    if 0 <= i < whole.inner.len() {
        match class_with(c, whole.inner[i], whole) {
            Ok(next) => {
                lemma_class_block_is_bare(whole, i + 1, next);
            },
            Err(_) => {},
        }
    }
}

/// The properties in front of a class stay with the class: the block of a
/// parsed class has no properties of its own, so that normalizing it hands
/// none of them down to the fields and methods.
pub proof fn lemma_class_properties_stay(p: PairView)
    ensures
        class_of(p) matches Ok(c) ==> c.inner.properties == Seq::<PropertyView>::empty(),
{
    lemma_class_block_is_bare(p, 0, blank_class());
    if let Ok(c) = class_of(p) {
        assert(c.inner.properties =~= Seq::<PropertyView>::empty());
    }
}

/// A literal never reads as `Default`: that value stands only where no
/// literal is written.
pub proof fn lemma_literal_is_never_default(v: PairView)
    ensures
        value_of(v) matches Ok(x) ==> !(x is Default),
    decreases v,
{
    if v.rule == Rule::value && v.inner.len() > 0 {
        lemma_literal_is_never_default(v.inner[0]);
    }
}

} // verus!
