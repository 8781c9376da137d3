use octocrabby::models::{PullRequest, Timestamp, User, UserInfo};
use octocrabby::report::{
    account_age_days, contributors, skip_known, AdditionalUserInfo, Contributor, Details,
};
use octocrabby::text::is_among;

const DAY: i64 = 86_400;

fn at(seconds: i64) -> Timestamp {
    Timestamp { seconds, nanos: 0 }
}

fn pr(login: &str, id: i64, seconds: i64) -> PullRequest {
    PullRequest { user: User { login: login.to_string(), id }, created_at: at(seconds) }
}

fn entry(login: &str, id: i64, pr_count: usize, seconds: i64) -> Contributor {
    Contributor { login: login.to_string(), id, pr_count, first_pr: at(seconds) }
}

fn names(list: &[&str]) -> Vec<String> {
    list.iter().map(|name| name.to_string()).collect()
}

#[test]
fn contributors_are_grouped_counted_and_sorted() {
    let prs = vec![
        pr("bob", 2, 300),
        pr("alice", 1, 200),
        pr("bob", 2, 100),
        pr("alice", 1, 250),
        pr("carol", 3, 50),
    ];
    assert_eq!(
        contributors(&prs),
        vec![entry("alice", 1, 2, 200), entry("bob", 2, 2, 100), entry("carol", 3, 1, 50)]
    );
}

#[test]
fn contributors_of_nothing() {
    assert_eq!(contributors(&vec![]), vec![]);
}

#[test]
fn contributors_sort_as_strings_do() {
    let prs = vec![pr("b", 1, 1), pr("B", 2, 1), pr("ab", 3, 1), pr("a", 4, 1), pr("é", 5, 1)];
    let logins: Vec<String> = contributors(&prs).into_iter().map(|c| c.login).collect();
    let mut expected = names(&["b", "B", "ab", "a", "é"]);
    expected.sort();
    assert_eq!(logins, expected);
    assert_eq!(logins, names(&["B", "a", "ab", "b", "é"]));
}

#[test]
fn earliest_pull_request_looks_at_nanoseconds() {
    let prs = vec![
        PullRequest {
            user: User { login: "alice".to_string(), id: 1 },
            created_at: Timestamp { seconds: 10, nanos: 5 },
        },
        PullRequest {
            user: User { login: "alice".to_string(), id: 1 },
            created_at: Timestamp { seconds: 10, nanos: 4 },
        },
    ];
    let list = contributors(&prs);
    assert_eq!(list.len(), 1);
    assert_eq!(list[0].first_pr, Timestamp { seconds: 10, nanos: 4 });
    assert_eq!(list[0].pr_count, 2);
}

#[test]
fn the_first_pull_request_gives_the_id() {
    let list = contributors(&vec![pr("alice", 7, 5), pr("alice", 8, 1)]);
    assert_eq!(list, vec![entry("alice", 7, 2, 1)]);
}

#[test]
fn age_in_whole_days() {
    let created = at(1_577_836_800);
    assert_eq!(account_age_days(at(1_577_836_800 + 10 * DAY), created), Some(10));
    assert_eq!(account_age_days(at(1_577_836_800 + 10 * DAY + DAY / 2), created), Some(10));
    assert_eq!(account_age_days(at(1_577_836_800 + 11 * DAY - 1), created), Some(10));
    assert_eq!(account_age_days(created, created), Some(0));
}

#[test]
fn age_rounds_toward_zero_when_negative() {
    let created = at(1_577_836_800);
    assert_eq!(account_age_days(at(1_577_836_800 - 1), created), Some(0));
    assert_eq!(account_age_days(at(1_577_836_800 - DAY), created), Some(-1));
    assert_eq!(account_age_days(at(1_577_836_800 - 2 * DAY + 1), created), Some(-1));
}

#[test]
fn age_counts_nanoseconds() {
    let created = Timestamp { seconds: 1_577_836_800, nanos: 1 };
    assert_eq!(account_age_days(at(1_577_836_800 + DAY), created), Some(0));
    let later = Timestamp { seconds: 1_577_836_800 + DAY, nanos: 1 };
    assert_eq!(account_age_days(later, created), Some(1));
}

#[test]
fn age_outside_the_calendar_is_none() {
    assert_eq!(account_age_days(at(i64::MAX), at(0)), None);
}

#[test]
fn membership_is_exact() {
    let logins = names(&["alice", "bob"]);
    assert!(is_among(&logins, "alice"));
    assert!(!is_among(&logins, "Alice"));
    assert!(!is_among(&logins, "carol"));
    assert!(!is_among(&Vec::new(), "alice"));
}

#[test]
fn known_users_are_skipped() {
    let rest = skip_known(names(&["alice", "bob", "carol", "bob", "dave"]), &names(&["bob", "dave", "erin"]));
    assert_eq!(rest, names(&["alice", "carol"]));
}

#[test]
fn nothing_known_skips_nothing() {
    let all = names(&["alice", "bob"]);
    assert_eq!(skip_known(all.clone(), &Vec::new()), all);
}

fn info() -> AdditionalUserInfo {
    AdditionalUserInfo {
        follows_you: names(&["alice"]),
        you_follow: names(&["bob"]),
        user_info: vec![
            UserInfo {
                login: "alice".to_string(),
                created_at: at(1_577_836_800),
                name: Some("Alice A.".to_string()),
                twitter_username: None,
            },
            UserInfo {
                login: "bob".to_string(),
                created_at: at(1_577_836_800),
                name: None,
                twitter_username: Some("bobby".to_string()),
            },
            UserInfo {
                login: "alice".to_string(),
                created_at: at(1_577_836_800 + DAY),
                name: Some("Alice B.".to_string()),
                twitter_username: Some("alice_b".to_string()),
            },
        ],
    }
}

#[test]
fn the_last_profile_of_a_login_counts() {
    let info = info();
    assert_eq!(info.profile("alice"), Some(&info.user_info[2]));
    assert_eq!(info.profile("bob"), Some(&info.user_info[1]));
    assert_eq!(info.profile("carol"), None);
}

#[test]
fn details_of_a_known_account() {
    let added = info().details(&entry("alice", 1, 3, 1_577_836_800 + 31 * DAY));
    assert_eq!(
        added,
        Some(Details {
            age_days: 30,
            name: "Alice B.".to_string(),
            twitter_username: "alice_b".to_string(),
            you_follow: false,
            follows_you: true,
        })
    );
}

#[test]
fn details_with_missing_fields() {
    let added = info().details(&entry("bob", 2, 1, 1_577_836_800 + 5 * DAY));
    assert_eq!(
        added,
        Some(Details {
            age_days: 5,
            name: String::new(),
            twitter_username: "bobby".to_string(),
            you_follow: true,
            follows_you: false,
        })
    );
}

#[test]
fn details_of_an_account_without_profile() {
    let added = info().details(&entry("dependabot[bot]", 9, 4, 1_577_836_800));
    assert_eq!(
        added,
        Some(Details {
            age_days: -1,
            name: String::new(),
            twitter_username: String::new(),
            you_follow: false,
            follows_you: false,
        })
    );
}
