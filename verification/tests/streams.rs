use octocrabby::models::{PullRequest, User};
use octocrabby::pager::{Action, Event, Pager, Target};
use octocrabby::request::{Method, Request};
use octocrabby::session::{current_user, is_authenticated};
use octocrabby::streams::{
    get_blocks, get_blocks_for_organization, get_blocks_for_user, get_followers, get_following,
    pull_requests, PAGE_SIZE,
};

fn listing(route: &str, all_states: bool) -> Action<User, String> {
    Action::Fetch(Target::First(Request {
        method: Method::Get,
        route: route.to_string(),
        per_page: Some(100),
        all_states,
    }))
}

fn first_action(pager: Pager<User>) -> Action<User, String> {
    pager.step(Event::Demand).1
}

#[test]
fn page_size_is_100() {
    assert_eq!(PAGE_SIZE, 100);
}

#[test]
fn followers_open_with_one_request() {
    assert_eq!(first_action(get_followers()), listing("user/followers", false));
}

#[test]
fn following_opens_with_one_request() {
    assert_eq!(first_action(get_following()), listing("user/following", false));
}

#[test]
fn user_blocks_open_with_one_request() {
    assert_eq!(first_action(get_blocks_for_user()), listing("user/blocks", false));
}

#[test]
fn organization_blocks_open_with_one_request() {
    assert_eq!(
        first_action(get_blocks_for_organization("rust-lang")),
        listing("orgs/rust-lang/blocks", false)
    );
}

#[test]
fn blocks_branch_on_the_organization() {
    assert_eq!(first_action(get_blocks(None)), listing("user/blocks", false));
    assert_eq!(first_action(get_blocks(Some("acme"))), listing("orgs/acme/blocks", false));
}

#[test]
fn pull_requests_ask_for_all_states() {
    let (_, action) = pull_requests("travisbrown", "octocrabby").step::<String>(Event::Demand);
    let expected: Action<PullRequest, String> = Action::Fetch(Target::First(Request {
        method: Method::Get,
        route: "repos/travisbrown/octocrabby/pulls".to_string(),
        per_page: Some(100),
        all_states: true,
    }));
    assert_eq!(action, expected);
}

#[test]
fn current_user_route() {
    assert_eq!(
        current_user(),
        Request { method: Method::Get, route: "user".to_string(), per_page: None, all_states: false }
    );
}

#[test]
fn any_failure_means_anonymous() {
    let signed_in: Result<u8, String> = Ok(1);
    let refused: Result<u8, String> = Err("401".to_string());
    assert!(is_authenticated(&signed_in));
    assert!(!is_authenticated(&refused));
}

#[test]
fn a_listing_may_ask_for_smaller_pages() {
    let pager: Pager<User> = octocrabby::streams::open_listing("user/followers".to_string(), 10, false);
    let expected: Action<User, String> = Action::Fetch(Target::First(Request {
        method: Method::Get,
        route: "user/followers".to_string(),
        per_page: Some(10),
        all_states: false,
    }));
    assert_eq!(first_action(pager), expected);
}
