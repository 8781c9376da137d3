//! Contributor reports: who opened pull requests, how many, and since when.

use vstd::prelude::*;
use vstd::string::*;
use crate::models::{PullRequest, Timestamp, UserInfo};
use crate::text::{
    is_among, lemma_precedes_irreflexive, lemma_precedes_total, lemma_precedes_transitive,
    precedes, text_precedes,
};

verus! {

/// What a report says of one author of pull requests.
#[derive(Clone, Debug, PartialEq, Eq)]
pub struct Contributor {
    pub login: String,
    pub id: i64,
    /// The number of pull requests that the author opened.
    pub pr_count: usize,
    /// When the author opened the first of them.
    pub first_pr: Timestamp,
}

/// The number of pull requests that `login` opened.
pub open spec fn pr_count(prs: Seq<PullRequest>, login: Seq<char>) -> nat
    decreases prs.len(),
{
    if prs.len() == 0 {
        0
    } else if prs.last().user.login@ == login {
        pr_count(prs.drop_last(), login) + 1
    } else {
        pr_count(prs.drop_last(), login)
    }
}

/// The account id that the first pull request of `login` in the list names.
pub open spec fn first_id(prs: Seq<PullRequest>, login: Seq<char>) -> i64
    decreases prs.len(),
{
    if prs.len() == 0 {
        0
    } else if prs.last().user.login@ == login && pr_count(prs.drop_last(), login) == 0 {
        prs.last().user.id
    } else {
        first_id(prs.drop_last(), login)
    }
}

/// The time of the earliest pull request that `login` opened.
pub open spec fn earliest(prs: Seq<PullRequest>, login: Seq<char>) -> Timestamp
    decreases prs.len(),
{
    if prs.len() == 0 {
        Timestamp { seconds: 0, nanos: 0 }
    } else if prs.last().user.login@ == login && (pr_count(prs.drop_last(), login) == 0
        || prs.last().created_at.is_before(earliest(prs.drop_last(), login))) {
        prs.last().created_at
    } else {
        earliest(prs.drop_last(), login)
    }
}

/// The entry says of its author what the pull requests show.
pub open spec fn describes(prs: Seq<PullRequest>, entry: Contributor) -> bool {
    &&& pr_count(prs, entry.login@) > 0
    &&& entry.pr_count == pr_count(prs, entry.login@)
    &&& entry.id == first_id(prs, entry.login@)
    &&& entry.first_pr == earliest(prs, entry.login@)
}

/// The entries stand in the order of their logins, none twice.
pub open spec fn sorted_by_login(list: Seq<Contributor>) -> bool {
    forall|i: int, j: int|
        0 <= i < j < list.len() ==> precedes((#[trigger] list[i]).login@, (#[trigger] list[j]).login@)
}

/// The list has an entry for `login`.
pub open spec fn names_author(list: Seq<Contributor>, login: Seq<char>) -> bool {
    exists|k: int| 0 <= k < list.len() && (#[trigger] list[k]).login@ == login
}

/// `list` is the report on `prs`: one entry for each author, in the order of
/// the logins, each with the author's count, id and earliest pull request.
pub open spec fn summarizes(prs: Seq<PullRequest>, list: Seq<Contributor>) -> bool {
    &&& sorted_by_login(list)
    &&& forall|k: int| 0 <= k < list.len() ==> describes(prs, #[trigger] list[k])
    &&& forall|i: int| 0 <= i < prs.len() ==> names_author(list, (#[trigger] prs[i]).user.login@)
}

/// An author is counted at most once per pull request.
proof fn lemma_count_bounded(prs: Seq<PullRequest>, login: Seq<char>)
    ensures
        pr_count(prs, login) <= prs.len(),
    decreases prs.len(),
{
    if prs.len() > 0 {
        lemma_count_bounded(prs.drop_last(), login);
    }
}

/// An author with a count opened one of the pull requests.
proof fn lemma_counted_author(prs: Seq<PullRequest>, login: Seq<char>) -> (i: int)
    requires
        pr_count(prs, login) > 0,
    ensures
        0 <= i < prs.len(),
        prs[i].user.login@ == login,
    decreases prs.len(),
{
    if prs.last().user.login@ == login {
        prs.len() - 1
    } else {
        lemma_counted_author(prs.drop_last(), login)
    }
}

/// Every login of `left` is a login of `right`.
pub open spec fn logins_within(left: Seq<Contributor>, right: Seq<Contributor>) -> bool {
    forall|i: int| 0 <= i < left.len() ==> names_author(right, (#[trigger] left[i]).login@)
}

/// The author of an entry of a report has an entry in every report on the
/// same pull requests.
proof fn lemma_reports_name_the_same_authors(
    prs: Seq<PullRequest>,
    left: Seq<Contributor>,
    right: Seq<Contributor>,
)
    requires
        summarizes(prs, left),
        summarizes(prs, right),
    ensures
        logins_within(left, right),
{
    assert forall|i: int| 0 <= i < left.len() implies names_author(
        right,
        (#[trigger] left[i]).login@,
    ) by {
        // an entry stands for at least one pull request, and `right` names its author
        lemma_counted_author(prs, left[i].login@);
    }
}

/// An entry of a sorted list that has the login of `list[at]` is `list[at]`.
proof fn lemma_sorted_logins_differ(list: Seq<Contributor>, at: int, other: int)
    requires
        sorted_by_login(list),
        0 <= at < list.len(),
        0 <= other < list.len(),
        list[at].login@ == list[other].login@,
    ensures
        at == other,
{
    lemma_precedes_irreflexive(list[at].login@);
}

/// Two sorted lists with the same logins name them at the same places.
proof fn lemma_sorted_lists_agree(left: Seq<Contributor>, right: Seq<Contributor>, upto: int)
    requires
        sorted_by_login(left),
        sorted_by_login(right),
        logins_within(left, right),
        logins_within(right, left),
        0 <= upto <= left.len(),
        upto <= right.len(),
    ensures
        forall|i: int| 0 <= i < upto ==> (#[trigger] left[i]).login@ == right[i].login@,
    decreases upto,
{
    if upto > 0 {
        let k = upto - 1;
        lemma_sorted_lists_agree(left, right, k);
        let j = choose|j: int| 0 <= j < right.len() && (#[trigger] right[j]).login@ == left[k].login@;
        let i = choose|i: int| 0 <= i < left.len() && (#[trigger] left[i]).login@ == right[k].login@;
        if j < k {
            lemma_sorted_logins_differ(left, j, k);
        }
        if i < k {
            lemma_sorted_logins_differ(right, i, k);
        }
        if j > k && i > k {
            lemma_precedes_total(left[k].login@, right[k].login@);
        }
    }
}

/// The report is unique: two lists that both report on the same pull
/// requests have the same entries at the same places.
pub proof fn lemma_report_is_unique(
    prs: Seq<PullRequest>,
    left: Seq<Contributor>,
    right: Seq<Contributor>,
)
    requires
        summarizes(prs, left),
        summarizes(prs, right),
    ensures
        left.len() == right.len(),
        forall|k: int|
            0 <= k < left.len() ==> {
                &&& (#[trigger] left[k]).login@ == right[k].login@
                &&& left[k].id == right[k].id
                &&& left[k].pr_count == right[k].pr_count
                &&& left[k].first_pr == right[k].first_pr
            },
{
    lemma_reports_name_the_same_authors(prs, left, right);
    lemma_reports_name_the_same_authors(prs, right, left);
    let shared = if left.len() <= right.len() {
        left.len() as int
    } else {
        right.len() as int
    };
    lemma_sorted_lists_agree(left, right, shared);
    if left.len() > shared {
        let j = choose|j: int|
            0 <= j < right.len() && (#[trigger] right[j]).login@ == left[shared].login@;
        lemma_sorted_logins_differ(left, j, shared);
    }
    if right.len() > shared {
        let i = choose|i: int|
            0 <= i < left.len() && (#[trigger] left[i]).login@ == right[shared].login@;
        lemma_sorted_logins_differ(right, i, shared);
    }
    assert forall|k: int| 0 <= k < left.len() implies {
        &&& (#[trigger] left[k]).login@ == right[k].login@
        &&& left[k].id == right[k].id
        &&& left[k].pr_count == right[k].pr_count
        &&& left[k].first_pr == right[k].first_pr
    } by {}
}

/// Every pull request is counted for its author, and an author's earliest
/// pull request is no later than any other of the same author.
pub proof fn lemma_earliest_is_earliest(prs: Seq<PullRequest>, at: int)
    requires
        0 <= at < prs.len(),
    ensures
        pr_count(prs, prs[at].user.login@) > 0,
        !prs[at].created_at.is_before(earliest(prs, prs[at].user.login@)),
    decreases prs.len(),
{
    let login = prs[at].user.login@;
    let before = prs.drop_last();
    if at < prs.len() - 1 {
        lemma_earliest_is_earliest(before, at);
    }
}

/// The place of `login` in a sorted list: the first entry that does not come
/// before it.
fn position_of(list: &Vec<Contributor>, login: &str) -> (place: usize)
    ensures
        place <= list.len(),
        forall|k: int| 0 <= k < place ==> precedes((#[trigger] list[k]).login@, login@),
        place < list.len() ==> !precedes(list[place as int].login@, login@),
{
    let mut place: usize = 0;
    while place < list.len()
        invariant
            place <= list.len(),
            forall|k: int| 0 <= k < place ==> precedes((#[trigger] list[k]).login@, login@),
        decreases list.len() - place,
    {
        if !text_precedes(list[place].login.as_str(), login) {
            return place;
        }
        place += 1;
    }
    place
}

/// The report on a list of pull requests: one entry per author, in the
/// order of the logins.
pub fn contributors(prs: &Vec<PullRequest>) -> (list: Vec<Contributor>)
    ensures
        summarizes(prs@, list@),
{
    let mut list: Vec<Contributor> = Vec::new();
    let mut i: usize = 0;
    while i < prs.len()
        invariant
            i <= prs.len(),
            summarizes(prs@.take(i as int), list@),
        decreases prs.len() - i,
    {
        let ghost taken = prs@.take(i as int);
        let ghost next = prs@.take(i + 1);
        let ghost before = list@;
        let login = prs[i].user.login.as_str();
        let opened = prs[i].created_at;
        let place = position_of(&list, login);
        proof {
            assert(next.drop_last() =~= taken);
        }
        if place < list.len() && list[place].login == prs[i].user.login {
            let mut entry = list.remove(place);
            proof {
                lemma_count_bounded(taken, login@);
            }
            entry.pr_count += 1;
            if opened.before(&entry.first_pr) {
                entry.first_pr = opened;
            }
            list.insert(place, entry);
            proof {
                assert forall|j: int| 0 <= j < next.len() implies names_author(
                    list@,
                    (#[trigger] next[j]).user.login@,
                ) by {
                    if j < i {
                        let k = choose|k: int|
                            0 <= k < before.len() && (#[trigger] before[k]).login@
                                == taken[j].user.login@;
                        assert(list@[k].login@ == before[k].login@);
                    } else {
                        assert(list@[place as int].login@ == next[j].user.login@);
                    }
                }
                assert forall|a: int, b: int| 0 <= a < b < list@.len() implies precedes(
                    (#[trigger] list@[a]).login@,
                    (#[trigger] list@[b]).login@,
                ) by {}
            }
        } else {
            let entry = Contributor {
                login: prs[i].user.login.clone(),
                id: prs[i].user.id,
                pr_count: 1,
                first_pr: opened,
            };
            list.insert(place, entry);
            proof {
                assert forall|k: int| place <= k < before.len() implies precedes(
                    login@,
                    (#[trigger] before[k]).login@,
                ) by {
                    lemma_precedes_total(login@, before[place as int].login@);
                    if k > place {
                        lemma_precedes_transitive(
                            login@,
                            before[place as int].login@,
                            before[k].login@,
                        );
                    }
                }
                // an author counted before would have an entry, and no entry has this login
                lemma_precedes_irreflexive(login@);
                if pr_count(taken, login@) > 0 {
                    lemma_counted_author(taken, login@);
                    let k = choose|k: int|
                        0 <= k < before.len() && (#[trigger] before[k]).login@ == login@;
                    if k < place {
                        assert(precedes(before[k].login@, login@));
                    } else {
                        assert(precedes(login@, before[k].login@));
                    }
                }
                assert forall|k: int| 0 <= k < list@.len() implies describes(
                    next,
                    #[trigger] list@[k],
                ) by {}
                assert forall|j: int| 0 <= j < next.len() implies names_author(
                    list@,
                    (#[trigger] next[j]).user.login@,
                ) by {
                    if j < i {
                        let k = choose|k: int|
                            0 <= k < before.len() && (#[trigger] before[k]).login@
                                == taken[j].user.login@;
                        if k < place {
                            assert(list@[k].login@ == before[k].login@);
                        } else {
                            assert(list@[k + 1].login@ == before[k].login@);
                        }
                    } else {
                        assert(list@[place as int].login@ == next[j].user.login@);
                    }
                }
                assert forall|a: int, b: int| 0 <= a < b < list@.len() implies precedes(
                    (#[trigger] list@[a]).login@,
                    (#[trigger] list@[b]).login@,
                ) by {}
            }
        }
        i += 1;
    }
    assert(prs@.take(i as int) =~= prs@);
    list
}

/// Division that rounds toward zero.
pub open spec fn toward_zero(value: int, by: int) -> int {
    if value >= 0 {
        value / by
    } else {
        -((-value) / by)
    }
}

/// The whole seconds from `earlier` to `later`, rounded toward zero.
pub open spec fn whole_seconds(later: Timestamp, earlier: Timestamp) -> int {
    toward_zero(
        (later.seconds - earlier.seconds) * 1_000_000_000 + (later.nanos - earlier.nanos),
        1_000_000_000,
    )
}

/// The whole days from `earlier` to `later`, rounded toward zero; negative
/// where `later` is the earlier of the two.
pub open spec fn whole_days(later: Timestamp, earlier: Timestamp) -> int {
    toward_zero(whole_seconds(later, earlier), 86_400)
}

/// Builds both instants with `chrono::DateTime::from_timestamp`, subtracts
/// them and calls `chrono::TimeDelta::num_days` on the difference. The
/// contract speaks of plain timestamps only: for those `from_timestamp`
/// succeeds, the difference is exact, and `num_days` rounds it toward zero,
/// first to seconds and then to days. Of other timestamps nothing is claimed.
#[verifier::external_body]
fn days_between(later: Timestamp, earlier: Timestamp) -> (days: Option<i64>)
    ensures
        later.is_plain() && earlier.is_plain() ==> days == Some(whole_days(later, earlier) as i64),
{
    let end = chrono::DateTime::from_timestamp(later.seconds, later.nanos)?;
    let start = chrono::DateTime::from_timestamp(earlier.seconds, earlier.nanos)?;
    Some((end - start).num_days())
}

/// The age of an account, in whole days, at the time of its first pull
/// request. It is there for every pair of plain timestamps; `None` means
/// that one of the two lies outside what the calendar can represent.
pub fn account_age_days(first_pr: Timestamp, created_at: Timestamp) -> (age: Option<i64>)
    ensures
        first_pr.is_plain() && created_at.is_plain() ==> age == Some(
            whole_days(first_pr, created_at) as i64,
        ),
{
    days_between(first_pr, created_at)
}

/// The usernames without those that are known already, in their order.
pub open spec fn unknown(usernames: Seq<Seq<char>>, known: Seq<Seq<char>>) -> Seq<Seq<char>>
    decreases usernames.len(),
{
    if usernames.len() == 0 {
        Seq::empty()
    } else if known.contains(usernames.last()) {
        unknown(usernames.drop_last(), known)
    } else {
        unknown(usernames.drop_last(), known).push(usernames.last())
    }
}

/// Drops the usernames that are among `known`, keeping the order of the
/// rest. What was dropped is the difference of the two lengths.
pub fn skip_known(usernames: Vec<String>, known: &Vec<String>) -> (rest: Vec<String>)
    ensures
        rest.deep_view() == unknown(usernames.deep_view(), known.deep_view()),
{
    let mut rest: Vec<String> = Vec::new();
    let ghost all = usernames.deep_view();
    for name in it: usernames
        invariant
            it.seq().len() == all.len(),
            forall|k: int| 0 <= k < all.len() ==> (#[trigger] it.seq()[k])@ == all[k],
            rest.deep_view() == unknown(all.take(it.index() as int), known.deep_view()),
    {
        proof {
            let upto = all.take(it.index() + 1);
            assert(upto.drop_last() =~= all.take(it.index() as int));
        }
        if !is_among(known, name.as_str()) {
            rest.push(name);
        }
    }
    assert(all.take(all.len() as int) =~= all);
    rest
}

/// What is known beyond the pull requests, for a user who is signed in: who
/// follows them, whom they follow, and the profiles of the contributors.
#[derive(Clone, Debug, Default, PartialEq, Eq)]
pub struct AdditionalUserInfo {
    pub follows_you: Vec<String>,
    pub you_follow: Vec<String>,
    pub user_info: Vec<UserInfo>,
}

/// The position of the profile that counts for `login`: the last one that
/// names it.
pub open spec fn profile_position(profiles: Seq<UserInfo>, login: Seq<char>) -> Option<int>
    decreases profiles.len(),
{
    if profiles.len() == 0 {
        None
    } else if profiles.last().login@ == login {
        Some(profiles.len() - 1)
    } else {
        profile_position(profiles.drop_last(), login)
    }
}

/// What a report adds to an entry for a user who is signed in.
#[derive(Clone, Debug, PartialEq, Eq)]
pub struct Details {
    /// The age of the account at its first pull request, in whole days;
    /// `-1` for an account without a profile, such as a bot.
    pub age_days: i64,
    /// The display name, empty where there is none.
    pub name: String,
    /// The Twitter handle, empty where there is none.
    pub twitter_username: String,
    pub you_follow: bool,
    pub follows_you: bool,
}

/// The text of an optional field: empty where the field is missing.
pub open spec fn text_or_empty(field: Option<String>) -> Seq<char> {
    match field {
        Some(text) => text@,
        None => Seq::empty(),
    }
}

fn or_empty(field: &Option<String>) -> (text: String)
    ensures
        text@ == text_or_empty(*field),
{
    match field {
        Some(text) => text.clone(),
        None => String::new(),
    }
}

impl AdditionalUserInfo {
    /// The profile that counts for `login`, where there is one.
    pub fn profile(&self, login: &str) -> (found: Option<&UserInfo>)
        ensures
            match profile_position(self.user_info@, login@) {
                Some(at) => found == Some(&self.user_info@[at]),
                None => found is None,
            },
    {
        let wanted = login.to_owned();
        let mut i: usize = self.user_info.len();
        assert(self.user_info@.take(i as int) =~= self.user_info@);
        while i > 0
            invariant
                i <= self.user_info.len(),
                wanted@ == login@,
                profile_position(self.user_info@, login@) == profile_position(
                    self.user_info@.take(i as int),
                    login@,
                ),
            decreases i,
        {
            assert(self.user_info@.take(i as int).drop_last() =~= self.user_info@.take(i - 1));
            if self.user_info[i - 1].login == wanted {
                return Some(&self.user_info[i - 1]);
            }
            i -= 1;
        }
        None
    }

    /// What the report adds to `entry`. The flags and the texts are owed for
    /// every entry. The age is owed where the account has no profile, and
    /// where both timestamps are plain; the result is `None` only where the
    /// age cannot be had.
    pub fn details(&self, entry: &Contributor) -> (details: Option<Details>)
        ensures
            details matches Some(added) ==> {
                &&& added.you_follow == self.you_follow.deep_view().contains(entry.login@)
                &&& added.follows_you == self.follows_you.deep_view().contains(entry.login@)
                &&& match profile_position(self.user_info@, entry.login@) {
                    Some(at) => {
                        &&& added.name@ == text_or_empty(self.user_info@[at].name)
                        &&& added.twitter_username@ == text_or_empty(
                            self.user_info@[at].twitter_username,
                        )
                    },
                    None => {
                        &&& added.age_days == -1
                        &&& added.name@ == Seq::<char>::empty()
                        &&& added.twitter_username@ == Seq::<char>::empty()
                    },
                }
            },
            match profile_position(self.user_info@, entry.login@) {
                Some(at) => entry.first_pr.is_plain() && self.user_info@[at].created_at.is_plain()
                    ==> (details matches Some(added) && added.age_days == whole_days(
                    entry.first_pr,
                    self.user_info@[at].created_at,
                )),
                None => details is Some,
            },
    {
        let you_follow = is_among(&self.you_follow, entry.login.as_str());
        let follows_you = is_among(&self.follows_you, entry.login.as_str());
        match self.profile(entry.login.as_str()) {
            Some(info) => match account_age_days(entry.first_pr, info.created_at) {
                Some(age_days) => Some(
                    Details {
                        age_days,
                        name: or_empty(&info.name),
                        twitter_username: or_empty(&info.twitter_username),
                        you_follow,
                        follows_you,
                    },
                ),
                None => None,
            },
            None => Some(
                Details {
                    age_days: -1,
                    name: String::new(),
                    twitter_username: String::new(),
                    you_follow,
                    follows_you,
                },
            ),
        }
    }
}

} // verus!
