//! The winner selection: from the parameters of a request and the cache to
//! the winners, or to the error that answers the request.
//!
//! Policy where more winners are asked for than attendees are there: the
//! request succeeds and every attendee wins, in the snapshot's order.

use vstd::prelude::*;
use vstd::string::StringExecFns;
use crate::cache::AttendeeCache;
use crate::error::ErrorView;
use crate::error::LotteryError;
use crate::model::Profile;
use crate::model::ProfileView;
use crate::response::failure;
use crate::response::BodyView;
use crate::response::Response;
use crate::sampling::draw;
use crate::sampling::is_sample;
use crate::text::parse_u8;
use crate::text::parsed_u8;

verus! {

/// One parameter of a query, with the values given for it, in order.
#[derive(Debug)]
pub struct Parameter {
    pub name: String,
    pub values: Vec<String>,
}

/// What a [`Parameter`] stands for.
pub struct ParameterView {
    pub name: Seq<char>,
    pub values: Seq<Seq<char>>,
}

impl DeepView for Parameter {
    type V = ParameterView;

    open spec fn deep_view(&self) -> ParameterView {
        ParameterView { name: self.name@, values: self.values.deep_view() }
    }
}

/// The first value of the first parameter of `query` called `name`, if there
/// is such a parameter and it has a value.
pub open spec fn first_value(query: Seq<ParameterView>, name: Seq<char>) -> Option<Seq<char>>
    decreases query.len(),
{
    if query.len() == 0 {
        None
    } else if query[0].name == name {
        if query[0].values.len() > 0 {
            Some(query[0].values[0])
        } else {
            None
        }
    } else {
        first_value(query.drop_first(), name)
    }
}

/// The number of winners that `query` asks for in its parameter `nb`, or the
/// error that it ends in: the parameter is missing, or it is no numeral of
/// `0 ..= 255`.
pub open spec fn nb_winners(query: Seq<ParameterView>) -> Result<u8, ErrorView> {
    match first_value(query, "nb"@) {
        None => Err(ErrorView::MissingArgument("nb"@)),
        Some(text) => match parsed_u8(text) {
            Some(nb) => Ok(nb),
            None => Err(
                ErrorView::InvalidArgument("nb"@, "Parameter nb should be a positive integer"@),
            ),
        },
    }
}

/// Looks `name` up in `query`.
pub fn find_first_value<'a>(query: &'a Vec<Parameter>, name: &str) -> (value: Option<&'a String>)
    ensures
        value.deep_view() == first_value(query.deep_view(), name@),
{
    let wanted = String::from_str(name);
    let mut i: usize = 0;
    assert(query.deep_view().skip(0) =~= query.deep_view());
    while i < query.len()
        invariant
            i <= query.len(),
            wanted@ == name@,
            first_value(query.deep_view(), name@) == first_value(
                query.deep_view().skip(i as int),
                name@,
            ),
        decreases query.len() - i,
    {
        let ghost rest = query.deep_view().skip(i as int);
        assert(rest[0] == query[i as int].deep_view());
        assert(rest.drop_first() =~= query.deep_view().skip(i + 1));
        if query[i].name == wanted {
            if query[i].values.len() > 0 {
                return Some(&query[i].values[0]);
            } else {
                return None;
            }
        }
        i = i + 1;
    }
    None
}

/// The number of winners that the query asks for.
pub fn get_nb_winners(query: &Vec<Parameter>) -> (nb: Result<u8, LotteryError>)
    ensures
        match nb {
            Ok(n) => nb_winners(query.deep_view()) == Ok::<u8, ErrorView>(n),
            Err(error) => nb_winners(query.deep_view()) == Err::<u8, ErrorView>(error@),
        },
{
    match find_first_value(query, "nb") {
        None => Err(LotteryError::MissingArgument(String::from_str("nb"))),
        Some(text) => match parse_u8(text.as_str()) {
            Some(nb) => Ok(nb),
            None => Err(
                LotteryError::InvalidArgument(
                    String::from_str("nb"),
                    String::from_str("Parameter nb should be a positive integer"),
                ),
            ),
        },
    }
}

/// The winners for a request: validates the parameter `nb`, then reads the
/// cache, then draws.
pub fn select_winners(query: &Vec<Parameter>, cache: &AttendeeCache) -> (outcome: Result<
    Vec<Profile>,
    LotteryError,
>)
    ensures
        match nb_winners(query.deep_view()) {
            Err(error) => outcome is Err && outcome->Err_0@ == error,
            Ok(nb) => match cache@ {
                None => outcome is Err && outcome->Err_0@ == ErrorView::NoEventAvailable,
                Some(snapshot) => outcome is Ok && is_sample(
                    snapshot,
                    nb as nat,
                    outcome->Ok_0.deep_view(),
                ),
            },
        },
{
    match get_nb_winners(query) {
        Err(error) => Err(error),
        Ok(nb) => match cache.read() {
            None => Err(LotteryError::NoEventAvailable),
            Some(snapshot) => Ok(draw(&snapshot, nb)),
        },
    }
}

/// Answers a request for winners.
///
/// A request whose parameter `nb` is missing or malformed is answered with
/// that error, whatever the cache holds; one with a proper `nb` and nothing in
/// the cache, with the error that no event is available; any other with a
/// sample of the snapshot, under status 200.
pub fn winners(query: &Vec<Parameter>, cache: &AttendeeCache) -> (response: Response)
    ensures
        match nb_winners(query.deep_view()) {
            Err(error) => response@ == failure(error),
            Ok(nb) => match cache@ {
                None => response@ == failure(ErrorView::NoEventAvailable),
                Some(snapshot) => response@.status == 200 && match response@.body {
                    BodyView::Winners(winners) => is_sample(snapshot, nb as nat, winners),
                    BodyView::Message(_) => false,
                },
            },
        },
{
    match select_winners(query, cache) {
        Ok(winners) => Response::with_winners(winners),
        Err(error) => Response::from(error),
    }
}

} // verus!
