//! Lists of values that are spoken of by their views.

use vstd::prelude::*;

verus! {

/// Appends a value to a list.
pub(crate) fn agrega<T: DeepView>(v: &mut Vec<T>, x: T)
    ensures
        final(v).deep_view() == old(v).deep_view().push(x.deep_view()),
        final(v)@ == old(v)@.push(x),
{
    let ghost antes = v.deep_view();
    let ghost y = x.deep_view();
    v.push(x);
    assert(v.deep_view() =~= antes.push(y));
}

}
