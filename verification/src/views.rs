//! Small bridges between vectors of values and sequences of their
//! mathematical values.

use vstd::prelude::*;

verus! {

/// The views of the values in a sequence.
pub open spec fn views_of_seq<T: DeepView>(s: Seq<T>) -> Seq<T::V> {
    Seq::new(s.len(), |i: int| s[i].deep_view())
}

/// Pushing a value pushes its view.
pub proof fn lemma_views_of_seq_push<T: DeepView>(s: Seq<T>, x: T)
    ensures
        views_of_seq(s.push(x)) =~= views_of_seq(s).push(x.deep_view()),
{
}

/// A vector's deep view is the views of its elements.
pub proof fn lemma_vec_deep_view<T: DeepView>(v: Vec<T>)
    ensures
        v.deep_view() =~= views_of_seq(v@),
{
}

} // verus!
