//! What is asked of the upstream registration service, and what is made of
//! its answers: the addresses to fetch, the event to take, and the joining
//! of attendee pages.

use vstd::prelude::*;
use vstd::string::StringExecFns;
use crate::error::ErrorView;
use crate::error::LotteryError;
use crate::model::Attende;
use crate::model::Event;
use crate::model::Events;
use crate::model::Profile;
use crate::model::ProfileView;
use crate::text::decimal;
use crate::text::decimal_text;

verus! {

/// The address of the search for an organizer's events, most recent first.
pub open spec fn events_url_text(organizer: Seq<char>, token: Seq<char>) -> Seq<char> {
    "https://www.eventbriteapi.com/v3/events/search/?sort_by=date&organizer.id="@ + organizer
        + "&token="@ + token
}

/// The address of page `page` of an event's attendees.
pub open spec fn attendees_url_text(event_id: Seq<char>, token: Seq<char>, page: u8) -> Seq<char> {
    "https://www.eventbriteapi.com/v3/events/"@ + event_id + "/attendees/?token="@ + token
        + "&page="@ + decimal(page as nat)
}

/// The address of the search for an organizer's events, most recent first.
pub fn events_url(organizer: &str, token: &str) -> (url: String)
    ensures
        url@ == events_url_text(organizer@, token@),
{
    String::from_str(
        "https://www.eventbriteapi.com/v3/events/search/?sort_by=date&organizer.id=",
    ).concat(organizer).concat("&token=").concat(token)
}

/// The address of page `page` of an event's attendees.
pub fn attendees_url(event_id: &str, token: &str, page: u8) -> (url: String)
    ensures
        url@ == attendees_url_text(event_id@, token@, page),
{
    let number = decimal_text(page);
    String::from_str("https://www.eventbriteapi.com/v3/events/").concat(event_id).concat(
        "/attendees/?token=",
    ).concat(token).concat("&page=").concat(number.as_str())
}

/// The organizer's current event: the first of those found, which the search
/// lists most recent first.
pub fn current_event(found: &Events) -> (current: Result<Event, LotteryError>)
    ensures
        found.events.len() > 0 ==> current == Ok::<Event, LotteryError>(found.events[0]),
        found.events.len() == 0 ==> current is Err && current->Err_0@
            == ErrorView::NoEventAvailable,
{
    if found.events.len() > 0 {
        Ok(found.events[0].clone())
    } else {
        Err(LotteryError::NoEventAvailable)
    }
}

/// `first` followed by `second`, each item cloned.
pub fn concat<T: Clone>(first: &Vec<T>, second: &Vec<T>) -> (joined: Vec<T>)
    ensures
        joined.len() == first.len() + second.len(),
        forall|i: int| 0 <= i < first.len() ==> cloned(first[i], #[trigger] joined[i]),
        forall|i: int|
            0 <= i < second.len() ==> cloned(second[i], #[trigger] joined[first.len() + i]),
{
    let mut joined = first.clone();
    joined.extend_from_slice(second.as_slice());
    joined
}

/// The profiles of the attendees given, in order.
pub open spec fn profiles_of(attendees: Seq<Attende>) -> Seq<ProfileView> {
    Seq::new(attendees.len(), |i: int| attendees[i].profile@)
}

/// The profiles of `attendees`, in order.
pub fn profiles(attendees: &Vec<Attende>) -> (list: Vec<Profile>)
    ensures
        list.deep_view() == profiles_of(attendees@),
{
    let mut list: Vec<Profile> = Vec::new();
    let mut i: usize = 0;
    while i < attendees.len()
        invariant
            i <= attendees.len(),
            list.len() == i,
            forall|k: int| 0 <= k < i ==> (#[trigger] list[k])@ == attendees[k].profile@,
        decreases attendees.len() - i,
    {
        list.push(attendees[i].profile.clone());
        i = i + 1;
    }
    assert(list.deep_view() =~= profiles_of(attendees@));
    list
}

} // verus!
