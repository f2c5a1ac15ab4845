//! The refresh cycle: what to ask of the upstream next, and what to publish.
//!
//! The cycle is a machine that never fetches, publishes or sleeps itself. It
//! names the next [`Action`]; whoever drives it performs the action and hands
//! back a [`Report`] of how it went. One cycle searches the organizer's
//! events, fetches the attendees of the current one page by page, publishes
//! the whole list, or nothing where anything went wrong, and sleeps.

use vstd::prelude::*;
use crate::cache::SnapshotView;
use crate::error::ErrorView;
use crate::error::LotteryError;
use crate::model::Attende;
use crate::model::Attendees;
use crate::model::Event;
use crate::model::Events;
use crate::model::Pagination;
use crate::model::Profile;
use crate::model::ProfileView;
use crate::upstream::attendees_url;
use crate::upstream::attendees_url_text;
use crate::upstream::concat;
use crate::upstream::current_event;
use crate::upstream::events_url;
use crate::upstream::events_url_text;
use crate::upstream::profiles;
use crate::upstream::profiles_of;

verus! {

/// The seconds between two cycles, where nothing else is configured.
pub const DEFAULT_INTERVAL: u64 = 3600;

/// Where a cycle stands.
#[derive(Debug)]
pub enum Phase {
    /// Between two cycles.
    Resting,
    /// The search for the organizer's events is under way.
    AwaitingEvents,
    /// The first page of the event's attendees is under way.
    AwaitingFirstPage { event_id: String },
    /// Page `page` is under way; `collected` holds the pages before it.
    AwaitingPage { event_id: String, page: u8, page_count: u8, collected: Vec<Attende> },
    /// The cycle's outcome is being published.
    Publishing,
}

/// The refresh machine: its configuration and the phase it is in.
#[derive(Debug)]
pub struct RefreshLoop {
    organizer: String,
    token: String,
    interval: u64,
    phase: Phase,
}

/// What the driver is to do next.
#[derive(Debug)]
pub enum Action {
    /// Fetch the organizer's events from `url`.
    SearchEvents { url: String },
    /// Fetch one page of attendees from `url`.
    FetchAttendees { url: String },
    /// Publish `snapshot` to the cache.
    Publish { snapshot: Option<Vec<Profile>> },
    /// Sleep for `seconds`.
    Sleep { seconds: u64 },
}

/// How the last action went.
#[derive(Debug)]
pub enum Report {
    /// Nothing to report: the machine is started, or the snapshot is
    /// published, or the sleep is over.
    Ready,
    /// The events found.
    Events(Events),
    /// The page of attendees fetched.
    Attendees(Attendees),
    /// The fetch failed, or its answer could not be decoded.
    Failed(LotteryError),
}

/// What a [`Phase`] stands for.
pub enum PhaseView {
    Resting,
    AwaitingEvents,
    AwaitingFirstPage { event_id: Seq<char> },
    AwaitingPage { event_id: Seq<char>, page: u8, page_count: u8, collected: Seq<ProfileView> },
    Publishing,
}

/// What a [`RefreshLoop`] stands for.
pub struct LoopView {
    pub organizer: Seq<char>,
    pub token: Seq<char>,
    pub interval: u64,
    pub phase: PhaseView,
}

/// What an [`Action`] stands for.
pub enum ActionView {
    SearchEvents { url: Seq<char> },
    FetchAttendees { url: Seq<char> },
    Publish { snapshot: SnapshotView },
    Sleep { seconds: u64 },
}

/// What a [`Report`] stands for: of the events their identifiers, of a page
/// its attendees' profiles and its place among the pages.
pub enum ReportView {
    Ready,
    Events { ids: Seq<Seq<char>> },
    Attendees { profiles: Seq<ProfileView>, pagination: Pagination },
    Failed { error: ErrorView },
}

/// The identifiers of the events given, in order.
pub open spec fn ids_of(events: Seq<Event>) -> Seq<Seq<char>> {
    Seq::new(events.len(), |i: int| events[i].id@)
}

impl View for Phase {
    type V = PhaseView;

    open spec fn view(&self) -> PhaseView {
        match self {
            Phase::Resting => PhaseView::Resting,
            Phase::AwaitingEvents => PhaseView::AwaitingEvents,
            Phase::AwaitingFirstPage { event_id } => PhaseView::AwaitingFirstPage {
                event_id: event_id@,
            },
            Phase::AwaitingPage { event_id, page, page_count, collected } => {
                PhaseView::AwaitingPage {
                    event_id: event_id@,
                    page: *page,
                    page_count: *page_count,
                    collected: profiles_of(collected@),
                }
            },
            Phase::Publishing => PhaseView::Publishing,
        }
    }
}

impl View for RefreshLoop {
    type V = LoopView;

    closed spec fn view(&self) -> LoopView {
        LoopView {
            organizer: self.organizer@,
            token: self.token@,
            interval: self.interval,
            phase: self.phase@,
        }
    }
}

impl View for Action {
    type V = ActionView;

    open spec fn view(&self) -> ActionView {
        match self {
            Action::SearchEvents { url } => ActionView::SearchEvents { url: url@ },
            Action::FetchAttendees { url } => ActionView::FetchAttendees { url: url@ },
            Action::Publish { snapshot } => ActionView::Publish { snapshot: snapshot.deep_view() },
            Action::Sleep { seconds } => ActionView::Sleep { seconds: *seconds },
        }
    }
}

impl View for Report {
    type V = ReportView;

    open spec fn view(&self) -> ReportView {
        match self {
            Report::Ready => ReportView::Ready,
            Report::Events(found) => ReportView::Events { ids: ids_of(found.events@) },
            Report::Attendees(page) => ReportView::Attendees {
                profiles: profiles_of(page.attendees@),
                pagination: page.pagination,
            },
            Report::Failed(error) => ReportView::Failed { error: error@ },
        }
    }
}

impl LoopView {
    /// The same machine in another phase.
    pub open spec fn in_phase(self, phase: PhaseView) -> LoopView {
        LoopView { phase, ..self }
    }

    /// The cycle is given up: nothing is to be published.
    pub open spec fn abandon(self) -> (LoopView, ActionView) {
        (self.in_phase(PhaseView::Publishing), ActionView::Publish { snapshot: None })
    }

    /// The pages up to `page` are in, their attendees being `collected`: the
    /// next page is fetched, or, after the last, the whole list published.
    pub open spec fn proceed(
        self,
        event_id: Seq<char>,
        page: u8,
        page_count: u8,
        collected: Seq<ProfileView>,
    ) -> (LoopView, ActionView) {
        if page < page_count {
            (
                self.in_phase(
                    PhaseView::AwaitingPage {
                        event_id,
                        page: (page + 1) as u8,
                        page_count,
                        collected,
                    },
                ),
                ActionView::FetchAttendees {
                    url: attendees_url_text(event_id, self.token, (page + 1) as u8),
                },
            )
        } else {
            (
                self.in_phase(PhaseView::Publishing),
                ActionView::Publish { snapshot: Some(collected) },
            )
        }
    }

    /// The machine after `report`, and the action it asks for.
    ///
    /// At rest any report starts a cycle with the search for events. The
    /// first event found is the current one, and its attendees are fetched
    /// from page 1. The first page says which page it is and how many there
    /// are; the pages after it are fetched in order and joined to it. A
    /// report that is not the answer awaited, a failure among them, or a
    /// search that finds no event, ends the cycle with nothing to publish.
    /// After the publication the machine asks for a sleep and is at rest.
    pub open spec fn step(self, report: ReportView) -> (LoopView, ActionView) {
        match self.phase {
            PhaseView::Resting => (
                self.in_phase(PhaseView::AwaitingEvents),
                ActionView::SearchEvents { url: events_url_text(self.organizer, self.token) },
            ),
            PhaseView::AwaitingEvents => match report {
                ReportView::Events { ids } => if ids.len() > 0 {
                    (
                        self.in_phase(PhaseView::AwaitingFirstPage { event_id: ids[0] }),
                        ActionView::FetchAttendees {
                            url: attendees_url_text(ids[0], self.token, 1),
                        },
                    )
                } else {
                    self.abandon()
                },
                _ => self.abandon(),
            },
            PhaseView::AwaitingFirstPage { event_id } => match report {
                ReportView::Attendees { profiles, pagination } => self.proceed(
                    event_id,
                    pagination.page_number,
                    pagination.page_count,
                    profiles,
                ),
                _ => self.abandon(),
            },
            PhaseView::AwaitingPage { event_id, page, page_count, collected } => match report {
                ReportView::Attendees { profiles, pagination } => self.proceed(
                    event_id,
                    page,
                    page_count,
                    collected + profiles,
                ),
                _ => self.abandon(),
            },
            PhaseView::Publishing => (
                self.in_phase(PhaseView::Resting),
                ActionView::Sleep { seconds: self.interval },
            ),
        }
    }
}

impl RefreshLoop {
    /// A machine at rest, for the organizer and the credential given, that
    /// sleeps `interval` seconds between two cycles.
    pub fn new(organizer: String, token: String, interval: u64) -> (machine: RefreshLoop)
        ensures
            machine@ == (LoopView {
                organizer: organizer@,
                token: token@,
                interval,
                phase: PhaseView::Resting,
            }),
    {
        RefreshLoop { organizer, token, interval, phase: Phase::Resting }
    }

    fn abandon(organizer: String, token: String, interval: u64) -> (next: (RefreshLoop, Action))
        ensures
            (next.0@, next.1@) == (LoopView {
                organizer: organizer@,
                token: token@,
                interval,
                phase: PhaseView::Resting,
            }).abandon(),
    {
        (
            RefreshLoop { organizer, token, interval, phase: Phase::Publishing },
            Action::Publish { snapshot: None },
        )
    }

    fn proceed(
        organizer: String,
        token: String,
        interval: u64,
        event_id: String,
        page: u8,
        page_count: u8,
        collected: Vec<Attende>,
    ) -> (next: (RefreshLoop, Action))
        ensures
            (next.0@, next.1@) == (LoopView {
                organizer: organizer@,
                token: token@,
                interval,
                phase: PhaseView::Resting,
            }).proceed(event_id@, page, page_count, profiles_of(collected@)),
    {
        if page < page_count {
            let url = attendees_url(event_id.as_str(), token.as_str(), page + 1);
            (
                RefreshLoop {
                    organizer,
                    token,
                    interval,
                    phase: Phase::AwaitingPage { event_id, page: page + 1, page_count, collected },
                },
                Action::FetchAttendees { url },
            )
        } else {
            let snapshot = profiles(&collected);
            (
                RefreshLoop { organizer, token, interval, phase: Phase::Publishing },
                Action::Publish { snapshot: Some(snapshot) },
            )
        }
    }

    /// Takes the report of the last action and names the next.
    pub fn step(self, report: Report) -> (next: (RefreshLoop, Action))
        ensures
            (next.0@, next.1@) == self@.step(report@),
    {
        let RefreshLoop { organizer, token, interval, phase } = self;
        match phase {
            Phase::Resting => {
                let url = events_url(organizer.as_str(), token.as_str());
                (
                    RefreshLoop { organizer, token, interval, phase: Phase::AwaitingEvents },
                    Action::SearchEvents { url },
                )
            },
            Phase::AwaitingEvents => match report {
                Report::Events(found) => match current_event(&found) {
                    Ok(event) => {
                        let url = attendees_url(event.id.as_str(), token.as_str(), 1);
                        (
                            RefreshLoop {
                                organizer,
                                token,
                                interval,
                                phase: Phase::AwaitingFirstPage { event_id: event.id },
                            },
                            Action::FetchAttendees { url },
                        )
                    },
                    Err(_) => Self::abandon(organizer, token, interval),
                },
                _ => Self::abandon(organizer, token, interval),
            },
            Phase::AwaitingFirstPage { event_id } => match report {
                Report::Attendees(first) => Self::proceed(
                    organizer,
                    token,
                    interval,
                    event_id,
                    first.pagination.page_number,
                    first.pagination.page_count,
                    first.attendees,
                ),
                _ => Self::abandon(organizer, token, interval),
            },
            Phase::AwaitingPage { event_id, page, page_count, collected } => match report {
                Report::Attendees(fetched) => {
                    let joined = concat(&collected, &fetched.attendees);
                    assert forall|i: int| 0 <= i < joined.len() implies joined[i] == (collected@
                        + fetched.attendees@)[i] by {
                        if i >= collected.len() {
                            assert(cloned(
                                fetched.attendees[i - collected.len()],
                                joined[collected.len() + (i - collected.len())],
                            ));
                        } else {
                            assert(cloned(collected[i], joined[i]));
                        }
                    }
                    assert(joined@ =~= collected@ + fetched.attendees@);
                    assert(profiles_of(joined@) =~= profiles_of(collected@) + profiles_of(
                        fetched.attendees@,
                    ));
                    Self::proceed(organizer, token, interval, event_id, page, page_count, joined)
                },
                _ => Self::abandon(organizer, token, interval),
            },
            Phase::Publishing => (
                RefreshLoop { organizer, token, interval, phase: Phase::Resting },
                Action::Sleep { seconds: interval },
            ),
        }
    }
}

} // verus!
