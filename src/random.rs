use vstd::prelude::*;

verus! {

/// Relies on `macroquad::rand::gen_range` (quad-rand's shared generator): for
/// integer bounds with `low < high` it scales a draw from `[0, 1)` onto the
/// range and truncates, so the result lies in `low .. high`.
#[verifier::external_body]
pub(crate) fn random_range(low: u32, high: u32) -> (r: u32)
    requires
        low < high <= 1_048_576,
    ensures
        low <= r < high,
{
    macroquad::rand::gen_range(low, high)
}

} // verus!
