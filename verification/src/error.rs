//! What a request can fail with, and what a client is told of it. An internal cause stays on
//! the server: the public message is the same for every one.

use vstd::prelude::*;
use crate::json::{no_fields, Json, JsonView};

verus! {

/// Why a request is not answered.
#[derive(Debug)]
pub enum ApiError {
    Unauthorized,
    BadRequest(String),
    NotFound,
    TooManyRequests,
    Internal(String),
}

/// What an [`ApiError`] holds.
pub enum ApiErrorView {
    Unauthorized,
    BadRequest(Seq<char>),
    NotFound,
    TooManyRequests,
    Internal(Seq<char>),
}

impl View for ApiError {
    type V = ApiErrorView;

    open spec fn view(&self) -> ApiErrorView {
        match self {
            ApiError::Unauthorized => ApiErrorView::Unauthorized,
            ApiError::BadRequest(message) => ApiErrorView::BadRequest(message@),
            ApiError::NotFound => ApiErrorView::NotFound,
            ApiError::TooManyRequests => ApiErrorView::TooManyRequests,
            ApiError::Internal(detail) => ApiErrorView::Internal(detail@),
        }
    }
}

impl ApiErrorView {
    /// The HTTP status a client gets.
    pub open spec fn status(self) -> u16 {
        match self {
            ApiErrorView::Unauthorized => 401,
            ApiErrorView::BadRequest(_) => 400,
            ApiErrorView::NotFound => 404,
            ApiErrorView::TooManyRequests => 429,
            ApiErrorView::Internal(_) => 500,
        }
    }

    /// The message a client gets.
    pub open spec fn message(self) -> Seq<char> {
        match self {
            ApiErrorView::Unauthorized => "unauthorized"@,
            ApiErrorView::BadRequest(message) => message,
            ApiErrorView::NotFound => "not found"@,
            ApiErrorView::TooManyRequests => "rate limit exceeded"@,
            ApiErrorView::Internal(_) => "internal error"@,
        }
    }

    /// The body a client gets: the message in a field of its own.
    pub open spec fn body(self) -> JsonView {
        no_fields().with("error"@, JsonView::Text(self.message()))
    }
}

/// The status and the body that answer a request.
pub struct ErrorResponse {
    pub status: u16,
    pub body: Json,
}

impl ApiError {
    /// A request that cannot be carried out as it stands.
    pub fn bad_request(message: &str) -> (r: ApiError)
        ensures
            r@ == ApiErrorView::BadRequest(message@),
    {
        ApiError::BadRequest(message.to_owned())
    }

    /// The answer a client gets.
    pub fn into_response(self) -> (r: ErrorResponse)
        ensures
            r.status == self@.status(),
            r.body@ == self@.body(),
            self is Unauthorized ==> r.status == 401,
            self is BadRequest ==> r.status == 400,
            self is NotFound ==> r.status == 404,
            self is TooManyRequests ==> r.status == 429,
            self is Internal ==> r.status == 500,
            r.body@ is Object,
            r.body@.get_text("error"@) == Some(self@.message()),
            self matches ApiError::BadRequest(message) ==> r.body@.get_text("error"@) == Some(
                message@,
            ),
            self is Unauthorized ==> r.body@.get_text("error"@) == Some("unauthorized"@),
            self is NotFound ==> r.body@.get_text("error"@) == Some("not found"@),
            self is TooManyRequests ==> r.body@.get_text("error"@) == Some("rate limit exceeded"@),
            self is Internal ==> r.body@.get_text("error"@) == Some("internal error"@),
    {
        let (status, message): (u16, String) = match self {
            ApiError::Unauthorized => (401, "unauthorized".to_owned()),
            ApiError::BadRequest(message) => (400, message),
            ApiError::NotFound => (404, "not found".to_owned()),
            ApiError::TooManyRequests => (429, "rate limit exceeded".to_owned()),
            ApiError::Internal(_) => (500, "internal error".to_owned()),
        };
        proof {
            reveal_with_fuel(crate::json::field_from, 2);
        }
        ErrorResponse {
            status,
            body: Json::empty_object().with("error", Json::Text(message)),
        }
    }
}

/// Nothing of an internal cause reaches a client: two of them are answered alike.
pub proof fn internal_causes_are_answered_alike(a: Seq<char>, b: Seq<char>)
    ensures
        ApiErrorView::Internal(a).status() == ApiErrorView::Internal(b).status(),
        ApiErrorView::Internal(a).body() == ApiErrorView::Internal(b).body(),
{
}

/// Only a refused request is answered in its own words, and each kind has a status of its own.
pub proof fn statuses_tell_the_kinds_apart(a: ApiErrorView, b: ApiErrorView)
    requires
        a.status() == b.status(),
        !(a is BadRequest),
    ensures
        a.body() == b.body(),
{
}

} // verus!
