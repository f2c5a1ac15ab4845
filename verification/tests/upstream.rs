use lottery::error::LotteryError;
use lottery::model::{Attende, Event, Events, Pagination, Profile};
use lottery::upstream::{attendees_url, current_event, events_url, profiles};

fn profile(first_name: &str, last_name: &str) -> Profile {
    Profile { first_name: String::from(first_name), last_name: String::from(last_name) }
}

fn pagination(page_number: u8, page_count: u8) -> Pagination {
    Pagination { object_count: 0, page_count, page_size: 50, page_number }
}

#[test]
fn events_url_names_organizer_and_token() {
    assert_eq!(
        events_url("1234", "SECRET"),
        "https://www.eventbriteapi.com/v3/events/search/?sort_by=date&organizer.id=1234&token=SECRET"
    );
}

#[test]
fn events_url_with_empty_parts() {
    assert_eq!(
        events_url("", ""),
        "https://www.eventbriteapi.com/v3/events/search/?sort_by=date&organizer.id=&token="
    );
}

#[test]
fn attendees_url_names_event_token_and_page() {
    assert_eq!(
        attendees_url("34166417675", "SECRET", 1),
        "https://www.eventbriteapi.com/v3/events/34166417675/attendees/?token=SECRET&page=1"
    );
    assert_eq!(
        attendees_url("e", "t", 12),
        "https://www.eventbriteapi.com/v3/events/e/attendees/?token=t&page=12"
    );
    assert_eq!(
        attendees_url("e", "t", 255),
        "https://www.eventbriteapi.com/v3/events/e/attendees/?token=t&page=255"
    );
    assert_eq!(
        attendees_url("e", "t", 0),
        "https://www.eventbriteapi.com/v3/events/e/attendees/?token=t&page=0"
    );
}

#[test]
fn current_event_is_the_first_found() {
    let found = Events {
        events: vec![
            Event { id: String::from("newest") },
            Event { id: String::from("older") },
            Event { id: String::from("oldest") },
        ],
        pagination: pagination(1, 1),
    };
    match current_event(&found) {
        Ok(event) => assert_eq!(event.id, "newest"),
        Err(error) => panic!("an event was found, not {:?}", error),
    }
}

#[test]
fn current_event_of_none_is_no_event_available() {
    let found = Events { events: Vec::new(), pagination: pagination(1, 0) };
    match current_event(&found) {
        Ok(event) => panic!("no event was found, not {:?}", event),
        Err(error) => assert_eq!(error, LotteryError::NoEventAvailable),
    }
}

#[test]
fn concat_keeps_both_in_order() {
    assert_eq!(lottery::upstream::concat(&vec![1, 2, 3], &vec![4, 5]), vec![1, 2, 3, 4, 5]);
    assert_eq!(lottery::upstream::concat(&Vec::<u8>::new(), &vec![4, 5]), vec![4, 5]);
    assert_eq!(lottery::upstream::concat(&vec![1], &Vec::new()), vec![1]);
    assert_eq!(lottery::upstream::concat(&Vec::<u8>::new(), &Vec::new()), Vec::<u8>::new());
}

#[test]
fn concat_leaves_its_arguments_alone() {
    let first = vec![profile("A", "A")];
    let second = vec![profile("B", "B"), profile("A", "A")];
    let joined = lottery::upstream::concat(&first, &second);
    assert_eq!(joined, vec![profile("A", "A"), profile("B", "B"), profile("A", "A")]);
    assert_eq!(first, vec![profile("A", "A")]);
    assert_eq!(second, vec![profile("B", "B"), profile("A", "A")]);
}

#[test]
fn profiles_of_attendees_in_order() {
    let attendees = vec![
        Attende { profile: profile("Ada", "Lovelace") },
        Attende { profile: profile("Alan", "Turing") },
    ];
    assert_eq!(profiles(&attendees), vec![profile("Ada", "Lovelace"), profile("Alan", "Turing")]);
    assert_eq!(profiles(&Vec::new()), Vec::<Profile>::new());
}

#[test]
fn profiles_compare_by_both_names() {
    assert_eq!(profile("A", "B"), profile("A", "B"));
    assert_ne!(profile("A", "B"), profile("B", "A"));
    assert_ne!(profile("A", "B"), profile("A", "C"));
    assert_eq!(profile("A", "B").clone(), profile("A", "B"));
}
