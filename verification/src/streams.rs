//! The paged listings: followers, following, blocked users, pull requests.
//!
//! Each listing is a `Pager` that opens with one request of a fixed page size.

use vstd::prelude::*;
use vstd::string::*;
use crate::models::{PullRequest, User};
use crate::pager::{unstarted, Pager};
use crate::request::{Method, Request, RequestView};

verus! {

/// The number of items asked for per page.
pub const PAGE_SIZE: u8 = 100;

/// The request that opens a listing at `route`.
pub open spec fn listing(route: Seq<char>) -> RequestView {
    RequestView { method: Method::Get, route, per_page: Some(PAGE_SIZE), all_states: false }
}

/// The request that opens a listing at `route` with items in every state.
pub open spec fn listing_all_states(route: Seq<char>) -> RequestView {
    RequestView { method: Method::Get, route, per_page: Some(PAGE_SIZE), all_states: true }
}

/// The route of the users that `organization` blocks.
pub open spec fn organization_blocks_route(organization: Seq<char>) -> Seq<char> {
    "orgs/"@ + organization + "/blocks"@
}

/// The route of the pull requests of a repository.
pub open spec fn pull_requests_route(owner: Seq<char>, repo: Seq<char>) -> Seq<char> {
    "repos/"@ + owner + "/"@ + repo + "/pulls"@
}

/// A listing at `route` that asks for `per_page` items at a time. The
/// listings below call this with `PAGE_SIZE`; a caller with other needs, such
/// as a server with smaller pages, passes its own.
pub fn open_listing<T>(route: String, per_page: u8, all_states: bool) -> (pager: Pager<T>)
    ensures
        pager@ == unstarted::<T>(
            RequestView { method: Method::Get, route: route@, per_page: Some(per_page), all_states },
        ),
{
    Pager::open(Request { method: Method::Get, route, per_page: Some(per_page), all_states })
}

/// The followers of the authenticated user.
pub fn get_followers() -> (pager: Pager<User>)
    ensures
        pager@ == unstarted::<User>(listing("user/followers"@)),
{
    open_listing(String::from_str("user/followers"), PAGE_SIZE, false)
}

/// The users that the authenticated user follows.
pub fn get_following() -> (pager: Pager<User>)
    ensures
        pager@ == unstarted::<User>(listing("user/following"@)),
{
    open_listing(String::from_str("user/following"), PAGE_SIZE, false)
}

/// The users that the authenticated user blocks.
pub fn get_blocks_for_user() -> (pager: Pager<User>)
    ensures
        pager@ == unstarted::<User>(listing("user/blocks"@)),
{
    open_listing(String::from_str("user/blocks"), PAGE_SIZE, false)
}

/// The users that `organization` blocks.
pub fn get_blocks_for_organization(organization: &str) -> (pager: Pager<User>)
    ensures
        pager@ == unstarted::<User>(listing(organization_blocks_route(organization@))),
{
    let mut route = String::from_str("orgs/");
    route.append(organization);
    route.append("/blocks");
    open_listing(route, PAGE_SIZE, false)
}

/// The blocked users: of `organization` where one is given, of the
/// authenticated user otherwise.
pub fn get_blocks(organization: Option<&str>) -> (pager: Pager<User>)
    ensures
        pager@ == unstarted::<User>(
            match organization {
                Some(name) => listing(organization_blocks_route(name@)),
                None => listing("user/blocks"@),
            },
        ),
{
    match organization {
        Some(name) => get_blocks_for_organization(name),
        None => get_blocks_for_user(),
    }
}

/// The pull requests of a repository, whatever their state.
pub fn pull_requests(owner: &str, repo: &str) -> (pager: Pager<PullRequest>)
    ensures
        pager@ == unstarted::<PullRequest>(
            listing_all_states(pull_requests_route(owner@, repo@)),
        ),
{
    let mut route = String::from_str("repos/");
    route.append(owner);
    route.append("/");
    route.append(repo);
    route.append("/pulls");
    open_listing(route, PAGE_SIZE, true)
}

} // verus!
