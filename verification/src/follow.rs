//! Asking whether one user follows another.

use vstd::prelude::*;
use vstd::string::*;
use crate::request::{plain, Failure, Method, Request, NO_CONTENT};

verus! {

/// The route that answers whether `source` follows `target`.
pub open spec fn follow_route(source: Seq<char>, target: Seq<char>) -> Seq<char> {
    "/users/"@ + source + "/following/"@ + target
}

/// The request that asks whether `source` follows `target`.
pub fn check_follow(source: &str, target: &str) -> (request: Request)
    ensures
        request@ == plain(Method::Get, follow_route(source@, target@)),
{
    let mut route = String::from_str("/users/");
    route.append(source);
    route.append("/following/");
    route.append(target);
    Request { method: Method::Get, route, per_page: None, all_states: false }
}

/// Reads the answer to a follow check. Only the status for "no content" means
/// that the one follows the other; a plain refusal means that they do not, and
/// is no error. Every other failure is handed back untouched.
pub fn follows<E>(result: Result<u16, Failure<E>>) -> (answer: Result<bool, Failure<E>>)
    ensures
        match result {
            Ok(code) => answer == Ok::<bool, Failure<E>>(code == NO_CONTENT),
            Err(failure) => if failure.is_plain_refusal() {
                answer == Ok::<bool, Failure<E>>(false)
            } else {
                answer == Err::<bool, Failure<E>>(failure)
            },
        },
{
    match result {
        Ok(code) => Ok(code == NO_CONTENT),
        Err(Failure::Api(error)) => {
            if error.errors.is_none() {
                Ok(false)
            } else {
                Err(Failure::Api(error))
            }
        },
        Err(other) => Err(other),
    }
}

} // verus!
