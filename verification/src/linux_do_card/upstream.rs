//! The upstream API: the rate limiter in front of it, and the course of one
//! fetch.
//!
//! Nothing here touches the network. A fetch is two calls, one after the
//! other: the profile document, then the statistics document. The address of
//! a call is handed out only once the limiter grants the call; until then the
//! caller is told how long to sleep before asking again. Each reply is handed
//! back, and the fetch says whether it goes on or how it has ended.

use crate::clock::{elapsed, elapsed_nanos, remaining, time_left, Span, NANOS_PER_SEC};
use crate::linux_do_card::model::{
    ErrorDetails, GeneralResponse, User, UserAll, UserInfo, UserSummaryAll,
};
use vstd::prelude::*;

verus! {

/// Seconds that pass at least between two calls to the upstream.
pub const MIN_CALL_INTERVAL: u64 = 1;

/// The limiter in front of the upstream: it remembers when the last call
/// went out.
pub struct RateLimiter {
    last_access: Option<u64>,
}

/// Whether a call may go out at `now`, `secs` seconds being the least
/// interval: it may once more than the interval has passed since the last
/// call, or if there was none.
pub open spec fn granted(last_access: Option<u64>, secs: u64, now: u64) -> bool {
    match last_access {
        Some(at) => remaining(secs, elapsed(now, at)) is None,
        None => true,
    }
}

/// The nanoseconds to wait at `now` before asking again; `None` where the
/// call is granted.
pub open spec fn pause(last_access: Option<u64>, secs: u64, now: u64) -> Option<nat> {
    match last_access {
        Some(at) => remaining(secs, elapsed(now, at)),
        None => None,
    }
}

impl RateLimiter {
    pub closed spec fn last_access(&self) -> Option<u64> {
        self.last_access
    }

    /// A limiter that counts its creation as a call: the first call goes out
    /// one interval after `now` at the earliest.
    pub fn new(now: u64) -> (limiter: RateLimiter)
        ensures
            limiter.last_access() == Some(now),
    {
        RateLimiter { last_access: Some(now) }
    }

    /// Asks for one call. `None` grants it, and the limiter takes `now` as
    /// the time of the call. Otherwise nothing is noted, and the caller has
    /// to sleep for the span returned and ask again.
    pub fn wait(&mut self, secs: u64, now: u64) -> (wait: Option<Span>)
        ensures
            wait is None <==> granted(old(self).last_access(), secs, now),
            final(self).last_access() == (if wait is None {
                Some(now)
            } else {
                old(self).last_access()
            }),
            wait matches Some(span) ==> span.wf() && Some(span.total_nanos()) == pause(
                old(self).last_access(),
                secs,
                now,
            ),
    {
        match self.last_access {
            Some(at) => {
                match time_left(secs, elapsed_nanos(now, at)) {
                    Some(span) => {
                        return Some(span);
                    },
                    None => {},
                }
            },
            None => {},
        }
        self.last_access = Some(now);
        None
    }
}

/// Two calls that the limiter grants one after the other, at clock readings
/// `first` and `second`, lie more than the least interval apart.
pub proof fn calls_keep_their_distance(
    last_access: Option<u64>,
    secs: u64,
    first: u64,
    second: u64,
)
    requires
        granted(last_access, secs, first),
        granted(Some(first), secs, second),
    ensures
        second > first,
        second - first > secs * NANOS_PER_SEC,
{
}

/// The two calls of one fetch lie more than the least interval apart, and so
/// do any two calls whose addresses were handed out one after the other:
/// an address is handed out only where the limiter grants the call.
pub proof fn permits_keep_their_distance(
    last_access: Option<u64>,
    first: u64,
    first_url: Seq<char>,
    second: u64,
    second_url: Seq<char>,
)
    requires
        permitted(last_access, first, first_url).2 is Some,
        permitted(permitted(last_access, first, first_url).0, second, second_url).2 is Some,
    ensures
        second - first > MIN_CALL_INTERVAL * NANOS_PER_SEC,
{
}

/// A call that comes too early is told to wait exactly until the interval
/// is over, counted from the last call.
pub proof fn early_call_waits_out_the_interval(last: u64, secs: u64, now: u64)
    requires
        last <= now,
        now - last <= secs * NANOS_PER_SEC,
    ensures
        !granted(Some(last), secs, now),
        pause(Some(last), secs, now) == Some((last + secs * NANOS_PER_SEC - now) as nat),
{
}

/// Why a call to the upstream brought no document.
#[derive(Clone, Copy, Debug, PartialEq, Eq, Structural)]
pub enum TransportError {
    /// The request failed or timed out.
    Request,
    /// The upstream answered with a status that is no success.
    Status,
    /// The body was not the expected document.
    Decode,
}

/// Why a fetch ended without a value.
#[derive(Clone, Debug, PartialEq, Eq)]
pub enum FetchError {
    /// No user name was given.
    EmptyUserName,
    /// A call brought no document.
    Transport(TransportError),
    /// The upstream sent an error report in place of the data.
    Upstream(Box<ErrorDetails>),
}

/// Where a user's profile document is found.
pub open spec fn profile_url(user_name: Seq<char>) -> Seq<char> {
    "https://linux.do/u/"@ + user_name + ".json"@
}

/// Where a user's statistics document is found.
pub open spec fn summary_url(user_name: Seq<char>) -> Seq<char> {
    "https://linux.do/u/"@ + user_name + "/summary.json"@
}

/// The answer to a request for the next call.
#[derive(Clone, Debug, PartialEq, Eq)]
pub enum Permit {
    /// Too early: sleep for this long, then ask again.
    Wait(Span),
    /// Granted: call this address now.
    Call(String),
}

/// What asking the limiter at `now` comes to, if the call is to go to `url`:
/// the permit, given by what it holds, and the time that the limiter notes.
pub open spec fn permitted(last_access: Option<u64>, now: u64, url: Seq<char>) -> (
    Option<u64>,
    Option<nat>,
    Option<Seq<char>>,
) {
    if granted(last_access, MIN_CALL_INTERVAL, now) {
        (Some(now), None, Some(url))
    } else {
        (last_access, pause(last_access, MIN_CALL_INTERVAL, now), None)
    }
}

/// How long a permit says to wait, and the address that it grants.
pub open spec fn permit_view(permit: Permit) -> (Option<nat>, Option<Seq<char>>) {
    match permit {
        Permit::Wait(span) => (Some(span.total_nanos()), None),
        Permit::Call(url) => (None, Some(url@)),
    }
}

/// Asks the limiter for one call to `url`.
fn request(limiter: &mut RateLimiter, now: u64, url: String) -> (permit: Permit)
    ensures
        final(limiter).last_access() == permitted(old(limiter).last_access(), now, url@).0,
        permit_view(permit) == (
            permitted(old(limiter).last_access(), now, url@).1,
            permitted(old(limiter).last_access(), now, url@).2,
        ),
        permit matches Permit::Wait(span) ==> span.wf(),
{
    match limiter.wait(MIN_CALL_INTERVAL, now) {
        Some(span) => Permit::Wait(span),
        None => Permit::Call(url),
    }
}

/// A fetch that waits for the profile document.
pub struct ProfileFetch {
    user_name: String,
}

/// A fetch that has the profile and waits for the statistics document.
pub struct SummaryFetch {
    user_name: String,
    user: User,
}

/// Starts the fetch of a user. An empty name is refused.
pub fn fetch(user_name: &str) -> (started: Result<ProfileFetch, FetchError>)
    ensures
        started is Err <==> user_name@.len() == 0,
        started matches Err(error) ==> error is EmptyUserName,
        started matches Ok(pending) ==> pending.user_name() == user_name@,
{
    if user_name.is_empty() {
        return Err(FetchError::EmptyUserName);
    }
    Ok(ProfileFetch { user_name: user_name.to_owned() })
}

impl ProfileFetch {
    pub closed spec fn user_name(self) -> Seq<char> {
        self.user_name@
    }

    /// Asks for the call that brings the profile document. The limiter
    /// decides: it either grants the call and notes it, and the document's
    /// address comes back, or it says how long to wait.
    pub fn request(&self, limiter: &mut RateLimiter, now: u64) -> (permit: Permit)
        ensures
            final(limiter).last_access() == permitted(
                old(limiter).last_access(),
                now,
                profile_url(self.user_name()),
            ).0,
            permit_view(permit) == (
                permitted(old(limiter).last_access(), now, profile_url(self.user_name())).1,
                permitted(old(limiter).last_access(), now, profile_url(self.user_name())).2,
            ),
            permit matches Permit::Wait(span) ==> span.wf(),
    {
        let mut url: String = "https://linux.do/u/".to_owned();
        url.append(self.user_name.as_str());
        url.append(".json");
        request(limiter, now, url)
    }

    /// Takes the reply to the profile call. A failed call or an error report
    /// ends the fetch. Otherwise the profile is kept, and the fetch waits for
    /// the statistics document.
    pub fn on_profile(self, reply: Result<GeneralResponse<UserAll>, TransportError>) -> (next:
        Result<SummaryFetch, FetchError>)
        ensures
            match reply {
                Err(failure) => next matches Err(FetchError::Transport(reason)) && reason
                    == failure,
                Ok(response) => match response.error() {
                    Some(details) => next matches Err(FetchError::Upstream(report)) && report
                        == details,
                    None => next matches Ok(pending) && pending.user_name() == self.user_name()
                        && pending.user() == response.data().user,
                },
            },
    {
        match reply {
            Err(failure) => Err(FetchError::Transport(failure)),
            Ok(response) => match response.result() {
                Err(details) => Err(FetchError::Upstream(details)),
                Ok(document) => Ok(
                    SummaryFetch { user_name: self.user_name, user: document.user },
                ),
            },
        }
    }
}

impl SummaryFetch {
    pub closed spec fn user_name(self) -> Seq<char> {
        self.user_name@
    }

    pub closed spec fn user(self) -> User {
        self.user
    }

    /// Asks for the call that brings the statistics document. The limiter
    /// decides, as for the profile.
    pub fn request(&self, limiter: &mut RateLimiter, now: u64) -> (permit: Permit)
        ensures
            final(limiter).last_access() == permitted(
                old(limiter).last_access(),
                now,
                summary_url(self.user_name()),
            ).0,
            permit_view(permit) == (
                permitted(old(limiter).last_access(), now, summary_url(self.user_name())).1,
                permitted(old(limiter).last_access(), now, summary_url(self.user_name())).2,
            ),
            permit matches Permit::Wait(span) ==> span.wf(),
    {
        let mut url: String = "https://linux.do/u/".to_owned();
        url.append(self.user_name.as_str());
        url.append("/summary.json");
        request(limiter, now, url)
    }

    /// The biography as the upstream sent it, for cleaning.
    pub fn bio_raw(&self) -> (bio: Option<String>)
        ensures
            bio == self.user().bio_raw,
    {
        match &self.user.bio_raw {
            Some(text) => Some(text.clone()),
            None => None,
        }
    }

    /// Takes over the cleaned biography; `None` leaves it as it is.
    pub fn set_filtered_bio(&mut self, filtered: Option<String>)
        ensures
            final(self).user_name() == old(self).user_name(),
            final(self).user().bio_raw == (match filtered {
                Some(text) => Some(text),
                None => old(self).user().bio_raw,
            }),
            final(self).user().id == old(self).user().id,
            final(self).user().username == old(self).user().username,
            final(self).user().name == old(self).user().name,
            final(self).user().trust_level == old(self).user().trust_level,
            final(self).user().last_seen_at == old(self).user().last_seen_at,
            final(self).user().created_at == old(self).user().created_at,
    {
        self.user.set_filtered_bio(filtered);
    }

    /// Takes the reply to the statistics call and ends the fetch: with the
    /// profile and the statistics together, stamped with `now`, or with the
    /// reason for the failure.
    pub fn on_summary(
        self,
        reply: Result<GeneralResponse<UserSummaryAll>, TransportError>,
        now: u64,
    ) -> (fetched: Result<UserInfo, FetchError>)
        ensures
            match reply {
                Err(failure) => fetched matches Err(FetchError::Transport(reason)) && reason
                    == failure,
                Ok(response) => match response.error() {
                    Some(details) => fetched matches Err(FetchError::Upstream(report)) && report
                        == details,
                    None => fetched matches Ok(info) && info.created == Some(now) && info.user
                        == self.user() && info.user_summary == response.data().user_summary,
                },
            },
    {
        match reply {
            Err(failure) => Err(FetchError::Transport(failure)),
            Ok(response) => match response.result() {
                Err(details) => Err(FetchError::Upstream(details)),
                Ok(document) => Ok(
                    UserInfo {
                        created: Some(now),
                        user: self.user,
                        user_summary: document.user_summary,
                    },
                ),
            },
        }
    }
}

} // verus!
