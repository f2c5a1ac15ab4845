//! Drawing winners: a sample of the snapshot without replacement.
//!
//! Where more winners are asked for than attendees are there, every attendee
//! wins, in the snapshot's order.

use vstd::prelude::*;
use crate::model::Profile;
use crate::model::ProfileView;
use crate::random::is_drawing;
use crate::random::sample_positions;
use crate::random::thread_rng;

verus! {

/// The profiles of `snapshot` at `positions`, in the order of `positions`.
pub open spec fn picked(snapshot: Seq<ProfileView>, positions: Seq<usize>) -> Seq<ProfileView> {
    Seq::new(positions.len(), |i: int| snapshot[positions[i] as int])
}

/// Whether `winners` is a sample of up to `amount` attendees of `snapshot`:
/// the profiles at as many distinct positions as asked for, or at all of
/// them, in order, where no more are there.
pub open spec fn is_sample(
    snapshot: Seq<ProfileView>,
    amount: nat,
    winners: Seq<ProfileView>,
) -> bool {
    exists|positions: Seq<usize>|
        is_drawing(positions, snapshot.len(), amount) && winners == #[trigger] picked(
            snapshot,
            positions,
        )
}

/// The profiles of `snapshot` at `positions`, in the order of `positions`.
pub fn pick(snapshot: &Vec<Profile>, positions: &Vec<usize>) -> (chosen: Vec<Profile>)
    requires
        forall|i: int| 0 <= i < positions.len() ==> (#[trigger] positions[i]) < snapshot.len(),
    ensures
        chosen.deep_view() == picked(snapshot.deep_view(), positions@),
{
    let mut chosen: Vec<Profile> = Vec::new();
    let mut i: usize = 0;
    while i < positions.len()
        invariant
            i <= positions.len(),
            forall|k: int| 0 <= k < positions.len() ==> (#[trigger] positions[k]) < snapshot.len(),
            chosen.len() == i,
            forall|k: int| 0 <= k < i ==> (#[trigger] chosen[k])@ == snapshot[positions[k] as int]@,
        decreases positions.len() - i,
    {
        chosen.push(snapshot[positions[i]].clone());
        i = i + 1;
    }
    assert(chosen.deep_view() =~= picked(snapshot.deep_view(), positions@));
    chosen
}

/// Draws up to `nb` winners from `snapshot` at random.
pub fn draw(snapshot: &Vec<Profile>, nb: u8) -> (winners: Vec<Profile>)
    ensures
        is_sample(snapshot.deep_view(), nb as nat, winners.deep_view()),
{
    let mut rng = thread_rng();
    let positions = sample_positions(&mut rng, snapshot.len(), nb);
    let winners = pick(snapshot, &positions);
    assert(winners.deep_view() == picked(snapshot.deep_view(), positions@));
    winners
}

/// Items taken from distinct places of a sequence occur among them no more
/// often than in the sequence.
proof fn lemma_taken_within<T>(source: Seq<T>, places: Seq<int>, taken: Seq<T>)
    requires
        taken.len() == places.len(),
        forall|i: int| 0 <= i < places.len() ==> 0 <= #[trigger] places[i] < source.len(),
        forall|i: int, j: int|
            0 <= i < j < places.len() ==> #[trigger] places[i] != #[trigger] places[j],
        forall|i: int| 0 <= i < places.len() ==> #[trigger] taken[i] == source[places[i]],
    ensures
        taken.to_multiset().subset_of(source.to_multiset()),
    decreases places.len(),
{
    broadcast use vstd::multiset::group_multiset_axioms;
    broadcast use vstd::seq_lib::group_to_multiset_ensures;

    if places.len() == 0 {
        assert(taken =~= Seq::<T>::empty());
        assert(taken.to_multiset().len() == 0);
        assert forall|v: T| taken.to_multiset().count(v) <= source.to_multiset().count(v) by {
            if taken.to_multiset().count(v) > 0 {
                assert(taken.contains(v));
            }
        }
    } else {
        let last = places.last();
        let item = taken.last();
        let source_left = source.remove(last);
        let places_left = Seq::new(
            (places.len() - 1) as nat,
            |i: int|
                if places[i] > last {
                    places[i] - 1
                } else {
                    places[i]
                },
        );
        let taken_left = taken.drop_last();
        assert forall|i: int| 0 <= i < places_left.len() implies 0 <= #[trigger] places_left[i]
            < source_left.len() by {
            assert(places[i] != places[places.len() - 1]);
        }
        assert forall|i: int, j: int| 0 <= i < j < places_left.len() implies #[trigger] places_left[i]
            != #[trigger] places_left[j] by {
            assert(places[i] != places[j]);
            assert(places[i] != places[places.len() - 1]);
            assert(places[j] != places[places.len() - 1]);
        }
        assert forall|i: int| 0 <= i < places_left.len() implies #[trigger] taken_left[i]
            == source_left[places_left[i]] by {
            assert(places[i] != places[places.len() - 1]);
            assert(taken[i] == source[places[i]]);
        }
        lemma_taken_within(source_left, places_left, taken_left);
        assert(taken =~= taken_left.push(item));
        assert(taken.to_multiset() =~= taken_left.to_multiset().insert(item));
        assert(source_left.to_multiset() =~= source.to_multiset().remove(source[last]));
        assert(item == source[last]);
        assert(source.contains(item));
        assert(source.to_multiset().count(item) > 0);
        assert forall|v: T| taken.to_multiset().count(v) <= source.to_multiset().count(v) by {
            assert(taken_left.to_multiset().count(v) <= source_left.to_multiset().count(v));
        }
    }
}

/// A sample where no more winners are asked for than attendees are there:
/// exactly as many winners as asked for, each an attendee of the snapshot,
/// and no attendee drawn twice: a profile occurs among the winners no more
/// often than in the snapshot, so where the snapshot holds no profile twice,
/// neither do the winners.
pub proof fn lemma_sample_is_distinct_attendees(
    snapshot: Seq<ProfileView>,
    amount: nat,
    winners: Seq<ProfileView>,
)
    requires
        is_sample(snapshot, amount, winners),
        amount <= snapshot.len(),
    ensures
        winners.len() == amount,
        forall|i: int| 0 <= i < winners.len() ==> snapshot.contains(#[trigger] winners[i]),
        winners.to_multiset().subset_of(snapshot.to_multiset()),
        snapshot.no_duplicates() ==> winners.no_duplicates(),
{
    let positions = choose|positions: Seq<usize>|
        is_drawing(positions, snapshot.len(), amount) && winners == #[trigger] picked(
            snapshot,
            positions,
        );
    let places = Seq::new(positions.len(), |i: int| positions[i] as int);
    assert forall|i: int| 0 <= i < winners.len() implies snapshot.contains(
        #[trigger] winners[i],
    ) by {
        assert(winners[i] == snapshot[positions[i] as int]);
    }
    lemma_taken_within(snapshot, places, winners);
    if snapshot.no_duplicates() {
        assert forall|i: int, j: int| 0 <= i < winners.len() && 0 <= j < winners.len() && i
            != j implies winners[i] != winners[j] by {
            if i < j {
                assert(positions[i] != positions[j]);
            } else {
                assert(positions[j] != positions[i]);
            }
        }
    }
}

/// A sample where at least as many winners are asked for as attendees are
/// there is the whole snapshot, in its order.
pub proof fn lemma_sample_of_all(
    snapshot: Seq<ProfileView>,
    amount: nat,
    winners: Seq<ProfileView>,
)
    requires
        is_sample(snapshot, amount, winners),
        snapshot.len() <= amount,
    ensures
        winners == snapshot,
{
    let positions = choose|positions: Seq<usize>|
        is_drawing(positions, snapshot.len(), amount) && winners == #[trigger] picked(
            snapshot,
            positions,
        );
    assert forall|i: int| 0 <= i < winners.len() implies winners[i] == snapshot[i] by {
        assert(positions[i] == i);
    }
    assert(winners =~= snapshot);
}

} // verus!
