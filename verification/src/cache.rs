//! The attendee cache: one cell that holds the latest published snapshot.
//!
//! A snapshot is the whole attendee list of one refresh cycle, or nothing.
//! The cell is replaced as a whole and read as a whole. Whoever shares it
//! between threads keeps it behind a lock and calls `publish` and `read`
//! with the lock held; both take time that does not depend on the network.

use vstd::prelude::*;
use crate::model::Profile;
use crate::model::ProfileView;

verus! {

/// What a snapshot stands for: the attendees in order, or nothing.
pub type SnapshotView = Option<Seq<ProfileView>>;

/// The cell holding the current snapshot.
#[derive(Debug)]
pub struct AttendeeCache {
    current: Option<Vec<Profile>>,
}

impl View for AttendeeCache {
    type V = SnapshotView;

    closed spec fn view(&self) -> SnapshotView {
        self.current.deep_view()
    }
}

impl AttendeeCache {
    /// A cache that holds nothing yet.
    pub fn new() -> (cache: AttendeeCache)
        ensures
            cache@ is None,
    {
        AttendeeCache { current: None }
    }

    /// Replaces the current snapshot by `snapshot`, whole.
    pub fn publish(&mut self, snapshot: Option<Vec<Profile>>)
        ensures
            final(self)@ == snapshot.deep_view(),
    {
        self.current = snapshot;
    }

    /// A copy of the current snapshot.
    pub fn read(&self) -> (snapshot: Option<Vec<Profile>>)
        ensures
            snapshot.deep_view() == self@,
    {
        match &self.current {
            None => None,
            Some(attendees) => {
                let copy = attendees.clone();
                assert(copy@ =~= attendees@);
                Some(copy)
            },
        }
    }
}

/// One access to the cache, as it takes effect.
pub enum Access {
    /// A publication of the snapshot given.
    Publish(SnapshotView),
    /// A read.
    Read,
}

/// What a cache that held `initial` holds after the accesses of `history`
/// have taken effect in order: what [`AttendeeCache::publish`] left at the
/// last publication, reads changing nothing.
pub open spec fn held_after(initial: SnapshotView, history: Seq<Access>) -> SnapshotView
    decreases history.len(),
{
    if history.len() == 0 {
        initial
    } else {
        match history.last() {
            Access::Publish(snapshot) => snapshot,
            Access::Read => held_after(initial, history.drop_last()),
        }
    }
}

/// What the access at place `at` of `history` returns, where it is a read:
/// what the cache holds when it takes effect, as [`AttendeeCache::read`] does.
pub open spec fn read_at(initial: SnapshotView, history: Seq<Access>, at: int) -> SnapshotView
    recommends
        0 <= at < history.len(),
        history[at] is Read,
{
    held_after(initial, history.take(at))
}

/// Reading is idempotent: two reads with no publication between them return
/// the same snapshot.
pub proof fn lemma_read_idempotent(
    initial: SnapshotView,
    history: Seq<Access>,
    first: int,
    second: int,
)
    requires
        0 <= first <= second < history.len(),
        forall|k: int| first <= k < second ==> #[trigger] history[k] is Read,
    ensures
        read_at(initial, history, first) == read_at(initial, history, second),
    decreases second - first,
{
    if first < second {
        lemma_read_idempotent(initial, history, first, second - 1);
        assert(history.take(second).drop_last() =~= history.take(second - 1));
        assert(history.take(second).last() == history[second - 1]);
    }
}

/// No read sees a mixture: in whatever order publications and reads take
/// effect, a read returns either what the cache held at first, and then
/// nothing was published before it, or exactly the snapshot of the latest
/// publication before it, whole.
pub proof fn lemma_read_returns_latest_publication(
    initial: SnapshotView,
    history: Seq<Access>,
    at: int,
)
    requires
        0 <= at < history.len(),
    ensures
        (forall|k: int| 0 <= k < at ==> #[trigger] history[k] is Read) ==> read_at(
            initial,
            history,
            at,
        ) == initial,
        forall|k: int|
            0 <= k < at && #[trigger] history[k] is Publish && (forall|l: int|
                k < l < at ==> #[trigger] history[l] is Read) ==> Access::Publish(
                read_at(initial, history, at),
            ) == history[k],
    decreases at,
{
    if at > 0 {
        let before = history.take(at);
        assert(before.last() == history[at - 1]);
        assert(before.drop_last() =~= history.take(at - 1));
        lemma_read_returns_latest_publication(initial, history, at - 1);
        match history[at - 1] {
            Access::Publish(snapshot) => {
                assert forall|k: int|
                    0 <= k < at && #[trigger] history[k] is Publish && (forall|l: int|
                        k < l < at ==> #[trigger] history[l] is Read) implies Access::Publish(
                    read_at(initial, history, at),
                ) == history[k] by {
                    if k < at - 1 {
                        assert(history[at - 1] is Read);
                    }
                }
            },
            Access::Read => {
                assert(read_at(initial, history, at) == read_at(initial, history, at - 1));
            },
        }
    }
}

} // verus!
