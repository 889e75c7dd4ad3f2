use vstd::prelude::*;

verus! {

/// Fills an empty slot with a value that must be there.
pub fn set_valid_option_on_none<T>(dst: &mut Option<T>, val: Option<T>)
    requires
        old(dst).is_none(),
        val.is_some(),
    ensures
        *final(dst) == val,
{
    *dst = val;
}

} // verus!
