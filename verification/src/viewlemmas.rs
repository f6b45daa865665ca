//! Facts about views that the other modules use implicitly.
use vstd::prelude::*;

verus! {

/// The deep view of a vector of characters is its view.
pub broadcast proof fn lemma_chars_deep_view(v: Vec<char>)
    ensures
        #[trigger] v.deep_view() == v@,
{
    assert(v.deep_view() =~= v@);
}

} // verus!
