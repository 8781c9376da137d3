//! Blocking a user, and reading the answer to the attempt.

use vstd::prelude::*;
use vstd::string::*;
use crate::request::{plain, Failure, Method, Request, NO_CONTENT};
use crate::text::{contains_text, occurs_in, same_text};

verus! {

/// How an attempt to block a user ended.
#[derive(Clone, Debug, PartialEq, Eq)]
pub enum BlockStatus {
    NewlyBlocked,
    AlreadyBlocked,
    UserNotFound,
    OtherSuccess(u16),
    OtherNonSuccess(String),
}

/// `BlockStatus` over the characters of its message.
pub enum BlockOutcome {
    NewlyBlocked,
    AlreadyBlocked,
    UserNotFound,
    OtherSuccess(u16),
    OtherNonSuccess(Seq<char>),
}

impl View for BlockStatus {
    type V = BlockOutcome;

    open spec fn view(&self) -> BlockOutcome {
        match *self {
            BlockStatus::NewlyBlocked => BlockOutcome::NewlyBlocked,
            BlockStatus::AlreadyBlocked => BlockOutcome::AlreadyBlocked,
            BlockStatus::UserNotFound => BlockOutcome::UserNotFound,
            BlockStatus::OtherSuccess(code) => BlockOutcome::OtherSuccess(code),
            BlockStatus::OtherNonSuccess(message) => BlockOutcome::OtherNonSuccess(message@),
        }
    }
}

/// The message with which the interface refuses to block a user twice.
pub open spec fn already_blocked_message() -> Seq<char> {
    "Blocked user has already been blocked"@
}

/// The message with which the interface answers for an unknown user.
pub open spec fn not_found_message() -> Seq<char> {
    "Not Found"@
}

/// The outcome that a success with status `code` stands for.
pub open spec fn outcome_of_status(code: u16) -> BlockOutcome {
    if code == NO_CONTENT {
        BlockOutcome::NewlyBlocked
    } else {
        BlockOutcome::OtherSuccess(code)
    }
}

/// The outcome that a plain refusal with this message stands for.
pub open spec fn outcome_of_message(message: Seq<char>) -> BlockOutcome {
    if occurs_in(message, already_blocked_message()) {
        BlockOutcome::AlreadyBlocked
    } else if message == not_found_message() {
        BlockOutcome::UserNotFound
    } else {
        BlockOutcome::OtherNonSuccess(message)
    }
}

impl BlockStatus {
    /// Reads the answer to a block request. A status code and a plain refusal
    /// become a `BlockStatus`; every other failure is handed back untouched.
    pub fn from_status_code_result<E>(result: Result<u16, Failure<E>>) -> (outcome: Result<
        BlockStatus,
        Failure<E>,
    >)
        ensures
            match result {
                Ok(code) => outcome matches Ok(status) && status@ == outcome_of_status(code),
                Err(failure) => if failure.is_plain_refusal() {
                    outcome matches Ok(status) && status@ == outcome_of_message(
                        failure->Api_0.message@,
                    )
                } else {
                    outcome == Err::<BlockStatus, Failure<E>>(failure)
                },
            },
    {
        match result {
            Ok(code) => {
                if code == NO_CONTENT {
                    Ok(BlockStatus::NewlyBlocked)
                } else {
                    Ok(BlockStatus::OtherSuccess(code))
                }
            },
            Err(Failure::Api(error)) => {
                if error.errors.is_none() {
                    if contains_text(error.message.as_str(), "Blocked user has already been blocked") {
                        Ok(BlockStatus::AlreadyBlocked)
                    } else if same_text(error.message.as_str(), "Not Found") {
                        Ok(BlockStatus::UserNotFound)
                    } else {
                        Ok(BlockStatus::OtherNonSuccess(error.message))
                    }
                } else {
                    Err(Failure::Api(error))
                }
            },
            Err(other) => Err(other),
        }
    }
}

/// The route on which the authenticated user blocks `username`.
pub open spec fn user_block_route(username: Seq<char>) -> Seq<char> {
    "/user/blocks/"@ + username
}

/// The route on which `organization` blocks `username`.
pub open spec fn organization_block_route(organization: Seq<char>, username: Seq<char>) -> Seq<
    char,
> {
    "/orgs/"@ + organization + "/blocks/"@ + username
}

/// The request that blocks `username` for the authenticated user.
pub fn block_user_for_user(username: &str) -> (request: Request)
    ensures
        request@ == plain(Method::Put, user_block_route(username@)),
{
    let mut route = String::from_str("/user/blocks/");
    route.append(username);
    Request { method: Method::Put, route, per_page: None, all_states: false }
}

/// The request that blocks `username` for `organization`.
pub fn block_user_for_organization(organization: &str, username: &str) -> (request: Request)
    ensures
        request@ == plain(Method::Put, organization_block_route(organization@, username@)),
{
    let mut route = String::from_str("/orgs/");
    route.append(organization);
    route.append("/blocks/");
    route.append(username);
    Request { method: Method::Put, route, per_page: None, all_states: false }
}

/// The request that blocks `username`: for `organization` where one is given,
/// for the authenticated user otherwise.
pub fn block_user(organization: Option<&str>, username: &str) -> (request: Request)
    ensures
        request@ == match organization {
            Some(name) => plain(Method::Put, organization_block_route(name@, username@)),
            None => plain(Method::Put, user_block_route(username@)),
        },
{
    match organization {
        Some(name) => block_user_for_organization(name, username),
        None => block_user_for_user(username),
    }
}

} // verus!
