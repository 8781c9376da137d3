//! The records that the listings and queries bring.

use vstd::prelude::*;

verus! {

/// A point in time: whole seconds since the start of 1970 (UTC), and the
/// nanoseconds into that second.
#[derive(Clone, Copy, Debug, PartialEq, Eq, Hash)]
pub struct Timestamp {
    pub seconds: i64,
    pub nanos: u32,
}

impl Timestamp {
    /// The timestamp names an ordinary instant between the years 0 and 9999:
    /// no leap second, and well inside what a calendar library represents.
    pub open spec fn is_plain(self) -> bool {
        &&& -62_167_219_200 <= self.seconds <= 253_402_300_799
        &&& self.nanos < 1_000_000_000
    }

    /// `self` lies strictly before `other`.
    pub open spec fn is_before(self, other: Timestamp) -> bool {
        self.seconds < other.seconds || (self.seconds == other.seconds && self.nanos < other.nanos)
    }

    /// Whether `self` lies strictly before `other`.
    pub fn before(&self, other: &Timestamp) -> (earlier: bool)
        ensures
            earlier == self.is_before(*other),
    {
        self.seconds < other.seconds || (self.seconds == other.seconds && self.nanos < other.nanos)
    }
}

/// An account. The login may change over time; the id does not.
#[derive(Clone, Debug, PartialEq, Eq, Hash)]
pub struct User {
    pub login: String,
    pub id: i64,
}

/// An account with the time of its creation.
#[derive(Clone, Debug, PartialEq, Eq)]
pub struct ExtendedUser {
    pub created_at: Timestamp,
    pub base: User,
}

/// The profile that the batched query brings for one login. The display name
/// and the Twitter handle may be missing, which is no error.
#[derive(Clone, Debug, PartialEq, Eq)]
pub struct UserInfo {
    pub login: String,
    pub created_at: Timestamp,
    pub name: Option<String>,
    pub twitter_username: Option<String>,
}

/// What a contributor report reads of a pull request.
#[derive(Clone, Debug, PartialEq, Eq)]
pub struct PullRequest {
    pub user: User,
    pub created_at: Timestamp,
}

} // verus!
