use octocrabby::follow::{check_follow, follows};
use octocrabby::request::{ApiError, Failure, Method, Request};

#[test]
fn follow_check_route() {
    assert_eq!(
        check_follow("alice", "bob"),
        Request {
            method: Method::Get,
            route: "/users/alice/following/bob".to_string(),
            per_page: None,
            all_states: false,
        }
    );
}

#[test]
fn follow_204_is_true() {
    assert_eq!(follows::<String>(Ok(204)), Ok(true));
}

#[test]
fn follow_other_success_is_false() {
    assert_eq!(follows::<String>(Ok(200)), Ok(false));
}

#[test]
fn follow_plain_refusal_is_false() {
    let failure: Failure<String> = Failure::Api(ApiError {
        message: "Not Found".to_string(),
        documentation_url: String::new(),
        errors: None,
    });
    assert_eq!(follows(Err(failure)), Ok(false));
}

#[test]
fn follow_field_errors_are_a_hard_failure() {
    let failure: Failure<String> = Failure::Api(ApiError {
        message: "Validation Failed".to_string(),
        documentation_url: String::new(),
        errors: Some(vec!["{\"code\":\"invalid\"}".to_string()]),
    });
    assert_eq!(follows(Err(failure.clone())), Err(failure));
}

#[test]
fn follow_transport_failure_is_handed_back() {
    let failure: Failure<String> = Failure::Transport("timed out".to_string());
    assert_eq!(follows(Err(failure.clone())), Err(failure));
}
