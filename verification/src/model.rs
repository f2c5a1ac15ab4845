//! The shapes of the upstream registration data.

use vstd::prelude::*;

verus! {

/// One attendee's identity, as the upstream reports it.
#[derive(Debug)]
pub struct Profile {
    pub first_name: String,
    pub last_name: String,
}

/// What a [`Profile`] stands for: its two names as character sequences.
pub struct ProfileView {
    pub first_name: Seq<char>,
    pub last_name: Seq<char>,
}

impl View for Profile {
    type V = ProfileView;

    open spec fn view(&self) -> ProfileView {
        ProfileView { first_name: self.first_name@, last_name: self.last_name@ }
    }
}

impl DeepView for Profile {
    type V = ProfileView;

    open spec fn deep_view(&self) -> ProfileView {
        self@
    }
}

impl PartialEq for Profile {
    fn eq(&self, other: &Self) -> (same: bool) {
        self.first_name == other.first_name && self.last_name == other.last_name
    }
}

impl vstd::std_specs::cmp::PartialEqSpecImpl for Profile {
    open spec fn obeys_eq_spec() -> bool {
        true
    }

    open spec fn eq_spec(&self, other: &Self) -> bool {
        self@ == other@
    }
}

impl Clone for Profile {
    fn clone(&self) -> (copy: Self)
        ensures
            copy == *self,
    {
        Profile { first_name: self.first_name.clone(), last_name: self.last_name.clone() }
    }
}

/// An event of the organizer.
#[derive(Debug)]
pub struct Event {
    pub id: String,
}

impl Clone for Event {
    fn clone(&self) -> (copy: Self)
        ensures
            copy == *self,
    {
        Event { id: self.id.clone() }
    }
}

/// Where one response stands in a paginated result.
#[derive(Debug, Clone, Copy)]
pub struct Pagination {
    pub object_count: u8,
    pub page_count: u8,
    pub page_size: u8,
    pub page_number: u8,
}

/// One page of the organizer's events, most recent first.
#[derive(Debug)]
pub struct Events {
    pub events: Vec<Event>,
    pub pagination: Pagination,
}

/// One attendee of an event.
#[derive(Debug)]
pub struct Attende {
    pub profile: Profile,
}

impl Clone for Attende {
    fn clone(&self) -> (copy: Self)
        ensures
            copy == *self,
    {
        Attende { profile: self.profile.clone() }
    }
}

/// One page of an event's attendees.
#[derive(Debug)]
pub struct Attendees {
    pub attendees: Vec<Attende>,
    pub pagination: Pagination,
}

} // verus!
