//! Who the client acts for.

use vstd::prelude::*;
use vstd::string::*;
use crate::request::{plain, Method, Request};

verus! {

/// The request for the account that the client is signed in as.
pub fn current_user() -> (request: Request)
    ensures
        request@ == plain(Method::Get, "user"@),
{
    Request { method: Method::Get, route: String::from_str("user"), per_page: None, all_states: false }
}

/// Reads the answer to the request for the current account. The client
/// counts as signed in where the request succeeded. Any failure, whatever
/// its kind, means that the client is anonymous; it is not an error.
pub fn is_authenticated<T, E>(identity: &Result<T, E>) -> (signed_in: bool)
    ensures
        signed_in == (identity is Ok),
{
    match identity {
        Ok(_) => true,
        Err(_) => false,
    }
}

} // verus!
