use octocrabby::pager::{pager_stream, Action, Event, Page, Pager, Target};
use octocrabby::request::{Method, Request};
use std::collections::VecDeque;

fn page(items: Vec<u32>, next: Option<&str>) -> Page<u32> {
    Page { items, next: next.map(|link| link.to_string()) }
}

fn opening() -> Request {
    Request {
        method: Method::Get,
        route: "user/followers".to_string(),
        per_page: Some(100),
        all_states: false,
    }
}

/// Pages of the given sizes, numbered through, each linked to the next.
fn chain(sizes: &[usize]) -> VecDeque<Page<u32>> {
    let mut pages = VecDeque::new();
    let mut value = 0u32;
    for (index, size) in sizes.iter().enumerate() {
        let mut items = Vec::new();
        for _ in 0..*size {
            items.push(value);
            value += 1;
        }
        let next = if index + 1 < sizes.len() {
            Some(format!("https://api.example/items?page={}", index + 2))
        } else {
            None
        };
        pages.push_back(Page { items, next });
    }
    pages
}

struct Seen {
    items: Vec<u32>,
    fetches: Vec<Target>,
    finished: bool,
}

/// Asks for up to `wanted` items and answers every fetch from `remote`.
fn walk(pager: Pager<u32>, mut remote: VecDeque<Page<u32>>, wanted: usize) -> Seen {
    let mut seen = Seen { items: Vec::new(), fetches: Vec::new(), finished: false };
    let mut pager = pager;
    let mut event: Event<u32, String> = Event::Demand;
    while seen.items.len() < wanted {
        let (next, action) = pager.step(event);
        pager = next;
        event = Event::Demand;
        match action {
            Action::Yield(item) => seen.items.push(item),
            Action::Fetch(target) => {
                seen.fetches.push(target);
                match remote.pop_front() {
                    Some(page) => event = Event::Fetched(page),
                    None => break,
                }
            }
            Action::Finish => {
                seen.finished = true;
                break;
            }
            Action::Abort(error) => panic!("unexpected failure: {}", error),
        }
    }
    seen
}

#[test]
fn four_pages_are_walked_completely_with_four_fetches() {
    let k = 7;
    let r = 3;
    let seen = walk(Pager::open(opening()), chain(&[k, k, k, r]), usize::MAX);
    let expected: Vec<u32> = (0..(3 * k + r) as u32).collect();
    assert_eq!(seen.items, expected);
    assert_eq!(seen.items.len(), 3 * k + r);
    assert!(seen.finished);
    assert_eq!(
        seen.fetches,
        vec![
            Target::First(opening()),
            Target::Link("https://api.example/items?page=2".to_string()),
            Target::Link("https://api.example/items?page=3".to_string()),
            Target::Link("https://api.example/items?page=4".to_string()),
        ]
    );
}

#[test]
fn full_size_pages_are_walked_completely() {
    let seen = walk(Pager::open(opening()), chain(&[100, 100, 100, 42]), usize::MAX);
    let expected: Vec<u32> = (0..342).collect();
    assert_eq!(seen.items, expected);
    assert_eq!(seen.fetches.len(), 4);
    assert!(seen.finished);
}

#[test]
fn first_item_of_two_pages_costs_one_fetch() {
    let seen = walk(Pager::open(opening()), chain(&[5, 5]), 1);
    assert_eq!(seen.items, vec![0]);
    assert_eq!(seen.fetches, vec![Target::First(opening())]);
    assert!(!seen.finished);
}

#[test]
fn whole_first_page_costs_one_fetch() {
    let seen = walk(Pager::open(opening()), chain(&[5, 5]), 5);
    assert_eq!(seen.items, vec![0, 1, 2, 3, 4]);
    assert_eq!(seen.fetches.len(), 1);
}

#[test]
fn sixth_item_costs_the_second_fetch() {
    let seen = walk(Pager::open(opening()), chain(&[5, 5]), 6);
    assert_eq!(seen.items, vec![0, 1, 2, 3, 4, 5]);
    assert_eq!(seen.fetches.len(), 2);
}

#[test]
fn pager_stream_starts_from_a_fetched_page() {
    let mut pages = chain(&[2, 2, 1]);
    let start = pages.pop_front().unwrap();
    let seen = walk(pager_stream(start), pages, usize::MAX);
    assert_eq!(seen.items, vec![0, 1, 2, 3, 4]);
    assert_eq!(
        seen.fetches,
        vec![
            Target::Link("https://api.example/items?page=2".to_string()),
            Target::Link("https://api.example/items?page=3".to_string()),
        ]
    );
    assert!(seen.finished);
}

#[test]
fn single_page_without_link_ends_without_a_fetch() {
    let seen = walk(pager_stream(page(vec![1, 2, 3], None)), VecDeque::new(), usize::MAX);
    assert_eq!(seen.items, vec![1, 2, 3]);
    assert!(seen.fetches.is_empty());
    assert!(seen.finished);
}

#[test]
fn empty_page_with_link_is_passed_over() {
    let mut remote = VecDeque::new();
    remote.push_back(page(vec![], Some("b")));
    remote.push_back(page(vec![9], None));
    let seen = walk(pager_stream(page(vec![8], Some("a"))), remote, usize::MAX);
    assert_eq!(seen.items, vec![8, 9]);
    assert_eq!(
        seen.fetches,
        vec![Target::Link("a".to_string()), Target::Link("b".to_string())]
    );
    assert!(seen.finished);
}

#[test]
fn empty_listing_ends_after_the_opening_request() {
    let mut remote = VecDeque::new();
    remote.push_back(page(vec![], None));
    let seen = walk(Pager::open(opening()), remote, usize::MAX);
    assert!(seen.items.is_empty());
    assert_eq!(seen.fetches, vec![Target::First(opening())]);
    assert!(seen.finished);
}

#[test]
fn items_come_before_the_fetch() {
    let pager = pager_stream(page(vec![1, 2], Some("next")));
    let (pager, action) = pager.step::<String>(Event::Demand);
    assert_eq!(action, Action::Yield(1));
    let (pager, action) = pager.step::<String>(Event::Demand);
    assert_eq!(action, Action::Yield(2));
    let (_, action) = pager.step::<String>(Event::Demand);
    assert_eq!(action, Action::Fetch(Target::Link("next".to_string())));
}

#[test]
fn failure_aborts_and_the_sequence_is_over() {
    let pager = pager_stream(page(vec![], Some("next")));
    let (pager, action) = pager.step::<String>(Event::Demand);
    assert_eq!(action, Action::Fetch(Target::Link("next".to_string())));
    let (pager, action) = pager.step(Event::Failed("boom".to_string()));
    assert_eq!(action, Action::Abort("boom".to_string()));
    let (pager, action) = pager.step::<String>(Event::Demand);
    assert_eq!(action, Action::Finish);
    let (_, action) = pager.step::<String>(Event::Demand);
    assert_eq!(action, Action::Finish);
}

#[test]
fn failure_drops_the_items_at_hand() {
    let pager = pager_stream(page(vec![1, 2, 3], Some("next")));
    let (pager, action) = pager.step(Event::Failed("boom".to_string()));
    assert_eq!(action, Action::Abort("boom".to_string()));
    let (_, action) = pager.step::<String>(Event::Demand);
    assert_eq!(action, Action::Finish);
}

#[test]
fn demand_while_waiting_asks_for_the_same_page_again() {
    let pager = pager_stream(page(Vec::<u32>::new(), Some("next")));
    let (pager, first) = pager.step::<String>(Event::Demand);
    let (pager, second) = pager.step::<String>(Event::Demand);
    assert_eq!(first, Action::Fetch(Target::Link("next".to_string())));
    assert_eq!(second, first);
    let (_, action) = pager.step::<String>(Event::Fetched(page(vec![4], None)));
    assert_eq!(action, Action::Yield(4));
}

#[test]
fn unsolicited_page_is_dropped() {
    let pager = pager_stream(page(vec![1], None));
    let (pager, action) = pager.step::<String>(Event::Fetched(page(vec![7, 8], Some("x"))));
    assert_eq!(action, Action::Yield(1));
    let (_, action) = pager.step::<String>(Event::Demand);
    assert_eq!(action, Action::Finish);
}

#[test]
fn arrive_and_demand_compose_to_step() {
    let pager: Pager<u32> = Pager::open(opening());
    let (pager, action) = pager.demand::<String>();
    assert_eq!(action, Action::Fetch(Target::First(opening())));
    let pager = pager.arrive(page(vec![3], None));
    let (_, action) = pager.demand::<String>();
    assert_eq!(action, Action::Yield(3));
}

#[test]
fn target_duplicate_is_equal() {
    let first = Target::First(opening());
    assert_eq!(first.duplicate(), first);
    let link = Target::Link("https://api.example/items?page=2".to_string());
    assert_eq!(link.duplicate(), link);
}
