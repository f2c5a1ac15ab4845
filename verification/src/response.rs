//! The answer to a request: a status and a body, before any encoding.
//!
//! Every answer is sent as JSON, as `application/json; charset=utf-8`: a list
//! of winners as a list of objects with the two names, a message as a string.
//! Where no snapshot is there to draw from, the status is 410.

use vstd::prelude::*;
use crate::error::ErrorView;
use crate::error::LotteryError;
use crate::model::Profile;
use crate::model::ProfileView;

verus! {

/// The status of a request that was answered with winners.
pub const STATUS_OK: u16 = 200;

/// What an answer carries.
#[derive(Debug)]
pub enum Body {
    /// The winners drawn, in the order of the drawing.
    Winners(Vec<Profile>),
    /// A sentence that says what went wrong.
    Message(String),
}

/// The answer to a request.
#[derive(Debug)]
pub struct Response {
    pub status: u16,
    pub body: Body,
}

/// What a [`Body`] stands for.
pub enum BodyView {
    Winners(Seq<ProfileView>),
    Message(Seq<char>),
}

/// What a [`Response`] stands for.
pub struct ResponseView {
    pub status: u16,
    pub body: BodyView,
}

impl View for Body {
    type V = BodyView;

    open spec fn view(&self) -> BodyView {
        match self {
            Body::Winners(winners) => BodyView::Winners(winners.deep_view()),
            Body::Message(text) => BodyView::Message(text@),
        }
    }
}

impl View for Response {
    type V = ResponseView;

    open spec fn view(&self) -> ResponseView {
        ResponseView { status: self.status, body: self.body@ }
    }
}

/// The answer that carries the winners given: status 200.
pub open spec fn success(winners: Seq<ProfileView>) -> ResponseView {
    ResponseView { status: 200, body: BodyView::Winners(winners) }
}

/// The answer to a request that ended in `error`: the error's status, and
/// its message as the body.
pub open spec fn failure(error: ErrorView) -> ResponseView {
    ResponseView { status: error.status_code(), body: BodyView::Message(error.message()) }
}

impl Response {
    /// The answer that carries `winners`.
    pub fn with_winners(winners: Vec<Profile>) -> (response: Response)
        ensures
            response@ == success(winners.deep_view()),
    {
        Response { status: STATUS_OK, body: Body::Winners(winners) }
    }
}

impl From<LotteryError> for Response {
    /// The answer to a request that ended in `error`.
    fn from(error: LotteryError) -> (response: Response)
        ensures
            response@ == failure(error@),
    {
        Response { status: error.status_code(), body: Body::Message(error.message()) }
    }
}

/// The conversion is stated over views, in the `ensures` of `from`: the
/// message is a text made at run time, of which only the characters are
/// known, so no response can be named here as the one that comes out.
impl vstd::std_specs::convert::FromSpecImpl<LotteryError> for Response {
    open spec fn obeys_from_spec() -> bool {
        false
    }

    open spec fn from_spec(error: LotteryError) -> Response {
        arbitrary()
    }
}

} // verus!
