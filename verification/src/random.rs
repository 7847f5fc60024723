use vstd::prelude::*;
use rand::Rng;
use crate::tape::{random_allowed, pick_by_coin};

verus! {

/// `rand::Rng::gen_range` on the generator that `rand::thread_rng` hands out,
/// with the closed range `low..=high` of bytes. Not proved: that the value
/// lies in the range. The call panics on an empty range, which `requires`
/// leaves out, and where the system gives the generator no seed. Nothing
/// more is said of the value: it is a matter of chance.
#[verifier::external_body]
fn draw_between(low: u8, high: u8) -> (r: u8)
    requires
        low <= high,
    ensures
        low <= r <= high,
{
    rand::thread_rng().gen_range(low..=high)
}

/// The value that `Random` stores between the neighbours `left` and `right`.
/// Where `right > left` it is one draw from `[left, right]`. Otherwise one
/// value is drawn from `[left, 255]`, one from `[0, right]`, and a coin picks
/// one of the two, whatever the sizes of the two ranges.
pub fn random_cell(left: u8, right: u8) -> (r: u8)
    ensures
        random_allowed(left, right, r),
{
    if right > left {
        draw_between(left, right)
    } else {
        let high = draw_between(left, 255);
        let low = draw_between(0, right);
        let coin = draw_between(0, 1);
        pick_by_coin(high, low, coin)
    }
}

} // verus!
