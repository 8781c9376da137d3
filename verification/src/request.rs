//! Requests the client sends, and what may come back.
//!
//! Nothing here performs a transfer. A request is a plain description that the
//! caller hands to its HTTP client; the answer comes back as a status code or a
//! `Failure`.

use vstd::prelude::*;

verus! {

/// The HTTP method of a request.
#[derive(Clone, Copy, Debug, PartialEq, Eq)]
pub enum Method {
    Get,
    Put,
}

/// A request to the REST interface.
#[derive(Clone, Debug, PartialEq, Eq)]
pub struct Request {
    pub method: Method,
    /// The route, relative to the base address of the interface.
    pub route: String,
    /// The `per_page` query parameter, where the request lists a collection.
    pub per_page: Option<u8>,
    /// Whether the `state` query parameter asks for items in every state.
    pub all_states: bool,
}

/// What a request says, over the characters of its route.
pub struct RequestView {
    pub method: Method,
    pub route: Seq<char>,
    pub per_page: Option<u8>,
    pub all_states: bool,
}

impl View for Request {
    type V = RequestView;

    open spec fn view(&self) -> RequestView {
        RequestView {
            method: self.method,
            route: self.route@,
            per_page: self.per_page,
            all_states: self.all_states,
        }
    }
}

/// A request for a single resource: no paging, no state filter.
pub open spec fn plain(method: Method, route: Seq<char>) -> RequestView {
    RequestView { method, route, per_page: None, all_states: false }
}

/// The status code that answers a successful request without a body.
pub const NO_CONTENT: u16 = 204;

/// The structured error body that the interface sends with a refusal.
#[derive(Clone, Debug, PartialEq, Eq)]
pub struct ApiError {
    pub message: String,
    pub documentation_url: String,
    /// Field-level errors, one entry each, where the interface sent any.
    pub errors: Option<Vec<String>>,
}

/// Why a request did not succeed. `E` is the caller's own error for whatever
/// went wrong below the interface: the network, a malformed body.
#[derive(Clone, Debug, PartialEq, Eq)]
pub enum Failure<E> {
    Api(ApiError),
    Transport(E),
}

impl<E> Failure<E> {
    /// A refusal that carries a message and no field-level errors. Such a
    /// refusal is an answer to the question asked, not a breakdown.
    pub open spec fn is_plain_refusal(self) -> bool {
        self matches Failure::Api(error) && error.errors is None
    }
}

} // verus!
