//! What a whole refresh cycle comes to: the machine of [`crate::refresh`]
//! followed over a run of reports.

use vstd::prelude::*;
use crate::model::Pagination;
use crate::model::ProfileView;
use crate::refresh::ActionView;
use crate::refresh::LoopView;
use crate::refresh::PhaseView;
use crate::refresh::ReportView;
use crate::upstream::attendees_url_text;

verus! {

/// The machine after the reports given, taken in order.
pub open spec fn state_after(start: LoopView, reports: Seq<ReportView>) -> LoopView
    decreases reports.len(),
{
    if reports.len() == 0 {
        start
    } else {
        state_after(start, reports.drop_last()).step(reports.last()).0
    }
}

/// The action that the machine asks for on the last of the reports given.
pub open spec fn action_after(start: LoopView, reports: Seq<ReportView>) -> ActionView
    recommends
        reports.len() > 0,
{
    state_after(start, reports.drop_last()).step(reports.last()).1
}

/// How many pages of attendees a cycle fetches, the first included, where
/// `first` is what the first page says of itself.
pub open spec fn pages_wanted(first: Pagination) -> nat {
    if first.page_number < first.page_count {
        (first.page_count - first.page_number + 1) as nat
    } else {
        1
    }
}

/// Whether every report of `pages` is a page of attendees.
pub open spec fn all_pages(pages: Seq<ReportView>) -> bool {
    forall|i: int| 0 <= i < pages.len() ==> #[trigger] pages[i] is Attendees
}

/// The attendees of all `pages`, in page order.
pub open spec fn joined(pages: Seq<ReportView>) -> Seq<ProfileView>
    decreases pages.len(),
{
    if pages.len() == 0 {
        Seq::empty()
    } else {
        joined(pages.drop_last()) + pages.last()->profiles
    }
}

/// The reports of a cycle that finds the events `ids` and then gets `rest`:
/// the report that starts the cycle, the events, and `rest`.
pub open spec fn cycle(wake: ReportView, ids: Seq<Seq<char>>, rest: Seq<ReportView>) -> Seq<
    ReportView,
> {
    seq![wake, ReportView::Events { ids }] + rest
}

proof fn lemma_event_found(start: LoopView, wake: ReportView, ids: Seq<Seq<char>>)
    requires
        start.phase is Resting,
        ids.len() > 0,
    ensures
        state_after(start, cycle(wake, ids, Seq::empty())) == start.in_phase(
            PhaseView::AwaitingFirstPage { event_id: ids[0] },
        ),
{
    let reports = cycle(wake, ids, Seq::empty());
    assert(reports =~= seq![wake, ReportView::Events { ids }]);
    assert(reports.drop_last() =~= seq![wake]);
    assert(reports.drop_last().drop_last() =~= Seq::<ReportView>::empty());
    assert(state_after(start, seq![wake].drop_last()) == start);
    assert(state_after(start, seq![wake]) == start.in_phase(PhaseView::AwaitingEvents));
}

proof fn lemma_cycle_extends(wake: ReportView, ids: Seq<Seq<char>>, rest: Seq<ReportView>)
    requires
        rest.len() > 0,
    ensures
        cycle(wake, ids, rest).drop_last() == cycle(wake, ids, rest.drop_last()),
        cycle(wake, ids, rest).last() == rest.last(),
{
    assert(cycle(wake, ids, rest).drop_last() =~= cycle(wake, ids, rest.drop_last()));
}

/// While pages are still wanted, the machine awaits the next one and holds
/// the attendees of the pages so far, joined in order.
proof fn lemma_collecting(
    start: LoopView,
    wake: ReportView,
    ids: Seq<Seq<char>>,
    pages: Seq<ReportView>,
)
    requires
        start.phase is Resting,
        ids.len() > 0,
        all_pages(pages),
        0 < pages.len() < pages_wanted(pages[0]->pagination),
    ensures
        state_after(start, cycle(wake, ids, pages)) == start.in_phase(
            PhaseView::AwaitingPage {
                event_id: ids[0],
                page: (pages[0]->pagination.page_number + pages.len()) as u8,
                page_count: pages[0]->pagination.page_count,
                collected: joined(pages),
            },
        ),
    decreases pages.len(),
{
    lemma_cycle_extends(wake, ids, pages);
    let before = pages.drop_last();
    assert(pages.last() is Attendees);
    if pages.len() == 1 {
        assert(before =~= Seq::<ReportView>::empty());
        lemma_event_found(start, wake, ids);
        assert(joined(before) =~= Seq::<ProfileView>::empty());
        assert(joined(pages) =~= pages[0]->profiles);
    } else {
        assert(before[0] == pages[0]);
        assert(all_pages(before));
        lemma_collecting(start, wake, ids, before);
    }
}

/// A cycle publishes the whole list: where an event is found and every page
/// wanted arrives, the attendees of all pages, joined in page order, are
/// published, and nothing less.
pub proof fn lemma_cycle_publishes_all_pages(
    start: LoopView,
    wake: ReportView,
    ids: Seq<Seq<char>>,
    pages: Seq<ReportView>,
)
    requires
        start.phase is Resting,
        ids.len() > 0,
        all_pages(pages),
        pages.len() > 0,
        pages.len() == pages_wanted(pages[0]->pagination),
    ensures
        action_after(start, cycle(wake, ids, pages)) == (ActionView::Publish {
            snapshot: Some(joined(pages)),
        }),
        state_after(start, cycle(wake, ids, pages)) == start.in_phase(PhaseView::Publishing),
{
    lemma_cycle_extends(wake, ids, pages);
    let before = pages.drop_last();
    assert(pages.last() is Attendees);
    if pages.len() == 1 {
        assert(before =~= Seq::<ReportView>::empty());
        lemma_event_found(start, wake, ids);
        assert(joined(before) =~= Seq::<ProfileView>::empty());
        assert(joined(pages) =~= pages[0]->profiles);
    } else {
        assert(before[0] == pages[0]);
        assert(all_pages(before));
        lemma_collecting(start, wake, ids, before);
    }
}

/// Pages are fetched in order: where an event is found, page 1 is asked for
/// first, and after each page that leaves more wanted, the page after it.
pub proof fn lemma_cycle_fetches_next_page(
    start: LoopView,
    wake: ReportView,
    ids: Seq<Seq<char>>,
    pages: Seq<ReportView>,
)
    requires
        start.phase is Resting,
        ids.len() > 0,
        all_pages(pages),
        pages.len() > 0 ==> pages.len() < pages_wanted(pages[0]->pagination),
    ensures
        action_after(start, cycle(wake, ids, pages)) == (ActionView::FetchAttendees {
            url: attendees_url_text(
                ids[0],
                start.token,
                if pages.len() == 0 {
                    1u8
                } else {
                    (pages[0]->pagination.page_number + pages.len()) as u8
                },
            ),
        }),
{
    if pages.len() == 0 {
        let reports = cycle(wake, ids, pages);
        assert(reports =~= seq![wake, ReportView::Events { ids }]);
        assert(reports.drop_last() =~= seq![wake]);
        assert(seq![wake].drop_last() =~= Seq::<ReportView>::empty());
        assert(state_after(start, seq![wake].drop_last()) == start);
        assert(state_after(start, seq![wake]) == start.in_phase(PhaseView::AwaitingEvents));
    } else {
        lemma_cycle_extends(wake, ids, pages);
        let before = pages.drop_last();
        assert(pages.last() is Attendees);
        if pages.len() == 1 {
            assert(before =~= Seq::<ReportView>::empty());
            lemma_event_found(start, wake, ids);
        } else {
            assert(before[0] == pages[0]);
            assert(all_pages(before));
            lemma_collecting(start, wake, ids, before);
        }
    }
}

/// No partial list is published: where a page is still wanted and what comes
/// in its place is not a page of attendees, nothing is published, whatever
/// the pages before it held.
pub proof fn lemma_failed_page_publishes_nothing(
    start: LoopView,
    wake: ReportView,
    ids: Seq<Seq<char>>,
    pages: Seq<ReportView>,
    failure: ReportView,
)
    requires
        start.phase is Resting,
        ids.len() > 0,
        all_pages(pages),
        pages.len() > 0 ==> pages.len() < pages_wanted(pages[0]->pagination),
        !(failure is Attendees),
    ensures
        action_after(start, cycle(wake, ids, pages.push(failure))) == (ActionView::Publish {
            snapshot: None,
        }),
        state_after(start, cycle(wake, ids, pages.push(failure))) == start.in_phase(
            PhaseView::Publishing,
        ),
{
    let rest = pages.push(failure);
    lemma_cycle_extends(wake, ids, rest);
    assert(rest.drop_last() =~= pages);
    if pages.len() == 0 {
        lemma_event_found(start, wake, ids);
    } else {
        lemma_collecting(start, wake, ids, pages);
    }
}

/// Where the search fails or finds no event, nothing is published.
pub proof fn lemma_no_event_publishes_nothing(
    start: LoopView,
    wake: ReportView,
    answer: ReportView,
)
    requires
        start.phase is Resting,
        answer matches ReportView::Events { ids } ==> ids.len() == 0,
    ensures
        action_after(start, seq![wake, answer]) == (ActionView::Publish { snapshot: None }),
        state_after(start, seq![wake, answer]) == start.in_phase(PhaseView::Publishing),
{
    let reports = seq![wake, answer];
    assert(reports.drop_last() =~= seq![wake]);
    assert(seq![wake].drop_last() =~= Seq::<ReportView>::empty());
    assert(state_after(start, seq![wake].drop_last()) == start);
    assert(state_after(start, seq![wake]) == start.in_phase(PhaseView::AwaitingEvents));
}

/// Whether the last `count` of `reports` are the pages of one whole fetch:
/// pages of attendees all of them, as many as the first of them wants, and
/// asked for on a search that found an event.
pub open spec fn ends_in_whole_fetch(reports: Seq<ReportView>, count: int) -> bool {
    let pages = reports.subrange(reports.len() - count, reports.len() as int);
    &&& 1 <= count < reports.len()
    &&& all_pages(pages)
    &&& count == pages_wanted(pages[0]->pagination)
    &&& reports[reports.len() - count - 1] matches ReportView::Events { ids } && ids.len() > 0
}

/// Whether the last `count` of `reports` are the first pages of a fetch that
/// wants more, and the phase given is the one that awaits the next of them.
spec fn ends_in_partial_fetch(reports: Seq<ReportView>, count: int, phase: PhaseView) -> bool {
    let pages = reports.subrange(reports.len() - count, reports.len() as int);
    &&& 1 <= count < reports.len()
    &&& all_pages(pages)
    &&& count < pages_wanted(pages[0]->pagination)
    &&& reports[reports.len() - count - 1] matches ReportView::Events { ids } && ids.len() > 0
    &&& phase matches PhaseView::AwaitingPage { page, page_count, collected, .. }
        && page == pages[0]->pagination.page_number + count
        && page_count == pages[0]->pagination.page_count
        && collected == joined(pages)
}

/// What the phase of the machine says of the reports that led to it.
spec fn phase_follows(reports: Seq<ReportView>, phase: PhaseView) -> bool {
    match phase {
        PhaseView::AwaitingFirstPage { .. } => reports.len() > 0 && (reports.last() matches ReportView::Events {
            ids,
        } && ids.len() > 0),
        PhaseView::AwaitingPage { .. } => exists|count: int|
            #[trigger] ends_in_partial_fetch(reports, count, phase),
        _ => true,
    }
}

proof fn lemma_one_page_more(reports: Seq<ReportView>, count: int)
    requires
        1 <= count < reports.len(),
        reports.last() is Attendees,
        count > 1 ==> all_pages(
            reports.drop_last().subrange(reports.len() - count, reports.len() - 1),
        ),
    ensures
        all_pages(reports.subrange(reports.len() - count, reports.len() as int)),
        reports.subrange(reports.len() - count, reports.len() as int).drop_last()
            == reports.drop_last().subrange(reports.len() - count, reports.len() - 1),
        reports.subrange(reports.len() - count, reports.len() as int).last() == reports.last(),
        count > 1 ==> reports.subrange(reports.len() - count, reports.len() as int)[0]
            == reports.drop_last().subrange(reports.len() - count, reports.len() - 1)[0],
        count == 1 ==> reports.subrange(reports.len() - count, reports.len() as int)[0]
            == reports.last(),
{
    let pages = reports.subrange(reports.len() - count, reports.len() as int);
    let before = reports.drop_last().subrange(reports.len() - count, reports.len() - 1);
    assert(pages.drop_last() =~= before);
    assert forall|i: int| 0 <= i < pages.len() implies #[trigger] pages[i] is Attendees by {
        if i < count - 1 {
            assert(before[i] is Attendees);
        }
    }
}

proof fn lemma_phase_follows(start: LoopView, reports: Seq<ReportView>)
    requires
        start.phase is Resting,
    ensures
        phase_follows(reports, state_after(start, reports).phase),
    decreases reports.len(),
{
    if reports.len() > 0 {
        let before = reports.drop_last();
        let report = reports.last();
        let machine = state_after(start, before);
        lemma_phase_follows(start, before);
        let phase = machine.step(report).0.phase;
        match machine.phase {
            PhaseView::AwaitingFirstPage { event_id } => {
                if phase is AwaitingPage {
                    lemma_one_page_more(reports, 1);
                    let pages = reports.subrange(reports.len() - 1, reports.len() as int);
                    assert(joined(pages.drop_last()) =~= Seq::<ProfileView>::empty());
                    assert(joined(pages) =~= report->profiles);
                    assert(reports[reports.len() - 2] == before.last());
                    assert(ends_in_partial_fetch(reports, 1, phase));
                }
            },
            PhaseView::AwaitingPage { event_id, page, page_count, collected } => {
                if phase is AwaitingPage {
                    let count = choose|count: int|
                        #[trigger] ends_in_partial_fetch(before, count, machine.phase);
                    lemma_one_page_more(reports, count + 1);
                    assert(reports[reports.len() - count - 2] == before[before.len() - count - 1]);
                    assert(ends_in_partial_fetch(reports, count + 1, phase));
                }
            },
            _ => {},
        }
    }
}

/// Only whole lists are published: whatever reports the machine gets, from
/// rest on, a list that it asks to publish is the join, in page order, of
/// the pages of one whole fetch, the one that the last reports make up.
pub proof fn lemma_published_list_is_whole(
    start: LoopView,
    reports: Seq<ReportView>,
    list: Seq<ProfileView>,
)
    requires
        start.phase is Resting,
        reports.len() > 0,
        action_after(start, reports) == (ActionView::Publish { snapshot: Some(list) }),
    ensures
        exists|count: int|
            #[trigger] ends_in_whole_fetch(reports, count) && list == joined(
                reports.subrange(reports.len() - count, reports.len() as int),
            ),
{
    let before = reports.drop_last();
    let report = reports.last();
    let machine = state_after(start, before);
    lemma_phase_follows(start, before);
    match machine.phase {
        PhaseView::AwaitingFirstPage { event_id } => {
            lemma_one_page_more(reports, 1);
            let pages = reports.subrange(reports.len() - 1, reports.len() as int);
            assert(joined(pages.drop_last()) =~= Seq::<ProfileView>::empty());
            assert(joined(pages) =~= report->profiles);
            assert(reports[reports.len() - 2] == before.last());
            assert(ends_in_whole_fetch(reports, 1));
        },
        PhaseView::AwaitingPage { event_id, page, page_count, collected } => {
            let count = choose|count: int|
                #[trigger] ends_in_partial_fetch(before, count, machine.phase);
            lemma_one_page_more(reports, count + 1);
            assert(reports[reports.len() - count - 2] == before[before.len() - count - 1]);
            assert(ends_in_whole_fetch(reports, count + 1));
        },
        _ => {},
    }
}

/// The machine keeps the organizer, the credential and the interval it was
/// made with, whatever reports it gets.
pub proof fn lemma_configuration_is_kept(start: LoopView, reports: Seq<ReportView>)
    ensures
        state_after(start, reports).organizer == start.organizer,
        state_after(start, reports).token == start.token,
        state_after(start, reports).interval == start.interval,
    decreases reports.len(),
{
    if reports.len() > 0 {
        lemma_configuration_is_kept(start, reports.drop_last());
    }
}

/// After a publication the machine sleeps for its interval and is at rest
/// again, with the organizer, credential and interval it had.
pub proof fn lemma_publication_is_followed_by_sleep(machine: LoopView, report: ReportView)
    requires
        machine.phase is Publishing,
    ensures
        machine.step(report).1 == (ActionView::Sleep { seconds: machine.interval }),
        machine.step(report).0 == machine.in_phase(PhaseView::Resting),
{
}

} // verus!
