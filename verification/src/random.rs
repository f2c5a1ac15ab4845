//! The source of chance: the thread-local generator of the `rand` crate and
//! its reservoir sampling.

use vstd::prelude::*;

verus! {

/// `rand::ThreadRng`, the handle to a thread's generator. Nothing of what it
/// holds is known here; it is only passed on.
#[verifier::external_type_specification]
#[verifier::external_body]
pub struct ExThreadRng(rand::ThreadRng);

/// Whether `positions` can be the outcome of drawing up to `amount` of the
/// positions `0 .. length`: as many as asked for, or all of them where fewer
/// are there, each within range and none twice; and where no more than
/// `amount` are there, all of them in ascending order.
pub open spec fn is_drawing(positions: Seq<usize>, length: nat, amount: nat) -> bool {
    &&& positions.len() == if amount <= length { amount } else { length }
    &&& forall|i: int| 0 <= i < positions.len() ==> (#[trigger] positions[i]) < length
    &&& forall|i: int, j: int|
        0 <= i < j < positions.len() ==> #[trigger] positions[i] != #[trigger] positions[j]
    &&& length <= amount ==> forall|i: int|
        0 <= i < positions.len() ==> #[trigger] positions[i] == i
}

/// `rand::thread_rng`: the calling thread's generator, seeded by the system
/// on its first use in the thread. Nothing is claimed of it. It fails only
/// where the system has no entropy to seed it with.
#[verifier::external_body]
pub(crate) fn thread_rng() -> (rng: rand::ThreadRng) {
    rand::thread_rng()
}

/// `rand::sample` over the range `0 .. length`: a reservoir is filled with the
/// first `amount` positions, and each later position then takes the place of
/// a random one in it, or of none. Where the range has no more than `amount`
/// positions, the reservoir is returned as it was filled. Whatever the
/// generator yields, the outcome is a drawing in the sense of [`is_drawing`].
/// That every drawing is as likely as any other is the crate's word, and
/// stated nowhere here.
#[allow(deprecated)]
#[verifier::external_body]
pub(crate) fn sample_positions(rng: &mut rand::ThreadRng, length: usize, amount: u8) -> (positions:
    Vec<usize>)
    ensures
        is_drawing(positions@, length as nat, amount as nat),
{
    rand::sample(rng, 0..length, amount as usize)
}

} // verus!
