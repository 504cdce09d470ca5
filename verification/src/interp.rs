//! Capture interpolation: substituting the `&n` placeholder tokens of a
//! substitution template with the text the pattern's groups captured.

use vstd::prelude::*;
use crate::digits::{make_placeholder, placeholder_spec};
use crate::text::{
    lemma_deep_view_index, lemma_replace_all_absent, occurs, replace_all, replace_all_spec,
};

verus! {

/// The template after the substitution passes for capture indices `i` and
/// up: one pass per index, in ascending order, each pass replacing every
/// occurrence of that index's placeholder token with the captured text.
pub open spec fn interp_from(t: Seq<char>, caps: Seq<Seq<char>>, i: int) -> Seq<char>
    decreases caps.len() - i,
{
    if i < 0 || i >= caps.len() {
        t
    } else {
        interp_from(replace_all_spec(t, placeholder_spec(i as nat), caps[i]), caps, i + 1)
    }
}

/// The template after all substitution passes, one per capture, in
/// ascending index order. A pass is plain text substitution: text a pass
/// inserts is seen again by the later passes, and a placeholder whose index
/// is at least `caps.len()` is left as it stands.
pub open spec fn interpolate_spec(t: Seq<char>, caps: Seq<Seq<char>>) -> Seq<char> {
    interp_from(t, caps, 0)
}

proof fn lemma_interp_from_untouched(t: Seq<char>, caps: Seq<Seq<char>>, i: int)
    requires
        0 <= i <= caps.len(),
        forall|j: nat| i <= j < caps.len() ==> !occurs(t, #[trigger] placeholder_spec(j)),
    ensures
        interp_from(t, caps, i) == t,
    decreases caps.len() - i,
{
    if i < caps.len() {
        lemma_replace_all_absent(t, placeholder_spec(i as nat), caps[i]);
        lemma_interp_from_untouched(t, caps, i + 1);
    }
}

/// A template that holds no placeholder token with an index under
/// `caps.len()` comes out of interpolation unchanged; in particular a
/// placeholder that names a missing capture passes through verbatim.
pub proof fn lemma_interpolate_untouched(t: Seq<char>, caps: Seq<Seq<char>>)
    requires
        forall|j: nat| j < caps.len() ==> !occurs(t, #[trigger] placeholder_spec(j)),
    ensures
        interpolate_spec(t, caps) == t,
{
    lemma_interp_from_untouched(t, caps, 0);
}

/// The interpolated template, computed.
pub fn interpolate(template: &Vec<char>, caps: &Vec<Vec<char>>) -> (r: Vec<char>)
    ensures
        r@ == interpolate_spec(template@, caps.deep_view()),
{
    let mut t: Vec<char> = crate::text::sub_vec(template, 0, template.len());
    proof {
        assert(t@ =~= template@);
    }
    let k: usize = caps.len();
    let mut i: usize = 0;
    while i < k
        invariant
            k == caps@.len(),
            i <= k,
            interpolate_spec(template@, caps.deep_view()) == interp_from(
                t@,
                caps.deep_view(),
                i as int,
            ),
        decreases k - i,
    {
        let ph: Vec<char> = make_placeholder(i);
        let newt: Vec<char> = replace_all(&t, &ph, &caps[i]);
        proof {
            lemma_deep_view_index(*caps, i as int);
        }
        t = newt;
        i = i + 1;
    }
    t
}

} // verus!
