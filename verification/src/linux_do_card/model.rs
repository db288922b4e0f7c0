//! The profile data of the upstream forum, as the cache holds it.

use vstd::prelude::*;

verus! {

/// A user's profile and statistics as fetched together.
#[derive(Clone, Debug, Default, PartialEq, Eq)]
pub struct UserInfo {
    /// The clock reading at which the fetch ended. A value that was never
    /// fetched has none.
    pub created: Option<u64>,
    pub user: User,
    pub user_summary: UserSummary,
}

/// The statistics document.
#[derive(Clone, Debug, Default, PartialEq, Eq)]
pub struct UserSummaryAll {
    pub user_summary: UserSummary,
}

/// A user's engagement counters.
#[derive(Clone, Copy, Debug, Default, PartialEq, Eq, Structural)]
pub struct UserSummary {
    pub likes_given: u64,
    pub likes_received: u64,
    pub topics_entered: u64,
    pub posts_read_count: u64,
    pub days_visited: u64,
    pub post_count: u64,
    /// Reading time in seconds.
    pub time_read: u64,
    pub solved_count: u64,
}

/// The profile document.
#[derive(Clone, Debug, Default, PartialEq, Eq)]
pub struct UserAll {
    pub user: User,
}

/// A user's profile. The two dates are milliseconds since the Unix epoch.
#[derive(Clone, Debug, Default, PartialEq, Eq)]
pub struct User {
    pub id: u64,
    pub username: String,
    pub name: Option<String>,
    pub trust_level: u8,
    pub bio_raw: Option<String>,
    pub last_seen_at: i64,
    pub created_at: i64,
}

impl User {
    /// Takes over a cleaned biography. `None` says that cleaning changed
    /// nothing, and the biography stays as it is.
    pub fn set_filtered_bio(&mut self, filtered: Option<String>)
        ensures
            final(self).bio_raw == (match filtered {
                Some(text) => Some(text),
                None => old(self).bio_raw,
            }),
            final(self).id == old(self).id,
            final(self).username == old(self).username,
            final(self).name == old(self).name,
            final(self).trust_level == old(self).trust_level,
            final(self).last_seen_at == old(self).last_seen_at,
            final(self).created_at == old(self).created_at,
    {
        match filtered {
            Some(text) => {
                self.bio_raw = Some(text);
            },
            None => {},
        }
    }
}

/// What the upstream reports instead of data.
#[derive(Clone, Debug, PartialEq, Eq)]
pub struct ErrorDetails {
    pub errors: Vec<String>,
    pub error_type: String,
}

/// The envelope of every upstream document: the data, or an error report.
#[derive(Clone, Debug, PartialEq, Eq)]
pub struct GeneralResponse<T> {
    data: T,
    error: Option<Box<ErrorDetails>>,
}

impl<T> GeneralResponse<T> {
    pub closed spec fn data(self) -> T {
        self.data
    }

    pub closed spec fn error(self) -> Option<Box<ErrorDetails>> {
        self.error
    }

    pub fn new(data: T, error: Option<Box<ErrorDetails>>) -> (response: Self)
        ensures
            response.data() == data,
            response.error() == error,
    {
        GeneralResponse { data, error }
    }

    /// Opens the envelope: the error report if there is one, else the data.
    pub fn result(self) -> (opened: Result<T, Box<ErrorDetails>>)
        ensures
            opened == (match self.error() {
                None => Ok::<T, Box<ErrorDetails>>(self.data()),
                Some(details) => Err::<T, Box<ErrorDetails>>(details),
            }),
    {
        match self.error {
            None => Ok(self.data),
            Some(details) => Err(details),
        }
    }
}

} // verus!
