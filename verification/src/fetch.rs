//! Fetching a page with a browser's fingerprint: what to do after each
//! answer of the server. The requests themselves are made by the caller.

use crate::text::{chars_of, contains, has, opt_view};
use crate::urls::{resolve_url, resolved_url, split_url, url_parts};
use vstd::prelude::*;

verus! {

/// The most redirects that are followed in one fetch.
pub const MAX_REDIRECTS: u8 = 3;

/// Where a fetch stands: the URL that is asked for, the number of redirects
/// followed so far, and whether this URL was already asked for again as a
/// mobile browser.
#[derive(Debug)]
pub struct FetchState {
    pub url: String,
    pub redirects: u8,
    pub retried: bool,
}

pub struct FetchModel {
    pub url: Seq<char>,
    pub redirects: nat,
    pub retried: bool,
}

impl View for FetchState {
    type V = FetchModel;

    open spec fn view(&self) -> FetchModel {
        FetchModel { url: self.url@, redirects: self.redirects as nat, retried: self.retried }
    }
}

/// What the server answered: a status with the `Location` header where there
/// is one that can be read, or nothing at all.
#[derive(Debug)]
pub enum FetchEvent {
    Answer { status: u16, location: Option<String> },
    Failure,
}

pub enum EventModel {
    Answer { status: nat, location: Option<Seq<char>> },
    Failure,
}

impl View for FetchEvent {
    type V = EventModel;

    open spec fn view(&self) -> EventModel {
        match self {
            FetchEvent::Answer { status, location } => EventModel::Answer {
                status: *status as nat,
                location: opt_view(*location),
            },
            FetchEvent::Failure => EventModel::Failure,
        }
    }
}

/// What to do next.
#[derive(Debug, Clone, Copy, PartialEq, Eq)]
pub enum FetchAction {
    /// Ask for the URL of the state, as a mobile browser where `mobile` is set.
    Request { mobile: bool },
    /// Read the body of the answer: it is the page.
    TakeBody,
    /// Try the fallback program on the URL of the state; give up where it fails.
    Fallback,
    /// Give up: there is no page.
    GiveUp,
}

/// Whether a URL is one for which the fallback program is tried: its host
/// holds `therealreal.com`.
pub open spec fn wants_fallback(url: Seq<char>) -> bool {
    match url_parts(url) {
        Some(parts) => match parts.host {
            Some(host) => contains(host, "therealreal.com"@),
            None => false,
        },
        None => false,
    }
}

/// Where a redirect leads: the location read against the current URL, the
/// location as it is where that cannot be done.
pub open spec fn redirect_target(url: Seq<char>, location: Seq<char>) -> Seq<char> {
    match resolved_url(url, location) {
        Some(next) => next,
        None => location,
    }
}

pub open spec fn is_success(status: nat) -> bool {
    200 <= status < 300
}

pub open spec fn is_redirect(status: nat) -> bool {
    300 <= status < 400
}

/// A 403 that has not been answered yet by asking again as a mobile browser.
pub open spec fn asks_again(st: FetchModel, status: nat) -> bool {
    status == 403 && !st.retried
}

/// The state after an event. A first 403 marks the URL as retried; a
/// redirect that is followed moves to its target; anything else leaves the
/// state as it is.
pub open spec fn state_after(st: FetchModel, ev: EventModel) -> FetchModel {
    match ev {
        EventModel::Answer { status, location } => {
            if asks_again(st, status) {
                FetchModel { retried: true, ..st }
            } else if is_redirect(status) && location is Some && st.redirects < MAX_REDIRECTS {
                FetchModel {
                    url: redirect_target(st.url, location->0),
                    redirects: st.redirects + 1,
                    retried: false,
                }
            } else {
                st
            }
        },
        EventModel::Failure => st,
    }
}

/// The action after an event: on a first 403 the same URL is asked for again
/// as a mobile browser; on a success the body is taken; a redirect with a
/// location is followed unless three were followed already; on any other
/// status the fallback is tried for the hosts that want it; everything else
/// ends the fetch.
pub open spec fn action_after(st: FetchModel, ev: EventModel) -> FetchAction {
    match ev {
        EventModel::Answer { status, location } => {
            if asks_again(st, status) {
                FetchAction::Request { mobile: true }
            } else if is_success(status) {
                FetchAction::TakeBody
            } else if is_redirect(status) {
                if location is Some && st.redirects < MAX_REDIRECTS {
                    FetchAction::Request { mobile: false }
                } else {
                    FetchAction::GiveUp
                }
            } else if wants_fallback(st.url) {
                FetchAction::Fallback
            } else {
                FetchAction::GiveUp
            }
        },
        EventModel::Failure => FetchAction::GiveUp,
    }
}

/// The number of requests that a fetch in this state can still lead to,
/// beyond the one that is under way.
pub open spec fn requests_left(st: FetchModel) -> int {
    2 * (MAX_REDIRECTS - st.redirects) + if st.retried {
        0int
    } else {
        1int
    }
}

/// A fetch ends: every event that leads to a further request lowers the
/// number of requests that are left, which is never negative. So no fetch
/// makes more than eight requests.
pub proof fn lemma_fetch_ends(st: FetchModel, ev: EventModel)
    requires
        st.redirects <= MAX_REDIRECTS,
    ensures
        state_after(st, ev).redirects <= MAX_REDIRECTS,
        requests_left(state_after(st, ev)) >= 0,
        action_after(st, ev) is Request ==> requests_left(state_after(st, ev)) < requests_left(
            st,
        ),
        !(action_after(st, ev) is Request) ==> state_after(st, ev) == st,
{
}

/// Whether a status is a success, on which the body of an answer is the page.
pub fn is_success_status(status: u16) -> (r: bool)
    ensures
        r == is_success(status as nat),
{
    200 <= status && status < 300
}

fn host_wants_fallback(url: &str) -> (r: bool)
    ensures
        r == wants_fallback(url@),
{
    match split_url(url) {
        Some(parts) => match &parts.host {
            Some(host) => has(&chars_of(host.as_str()), &chars_of("therealreal.com")),
            None => false,
        },
        None => false,
    }
}

impl FetchState {
    /// The state in which `url` is asked for the first time.
    pub fn start(url: &str) -> (out: Self)
        ensures
            out@ == (FetchModel { url: url@, redirects: 0, retried: false }),
    {
        FetchState { url: url.to_string(), redirects: 0, retried: false }
    }

    /// Takes in an event and says what to do next.
    pub fn step(&mut self, event: &FetchEvent) -> (action: FetchAction)
        ensures
            final(self)@ == state_after(old(self)@, event@),
            action == action_after(old(self)@, event@),
            old(self).redirects <= MAX_REDIRECTS ==> final(self).redirects <= MAX_REDIRECTS,
    {
        match event {
            FetchEvent::Failure => FetchAction::GiveUp,
            FetchEvent::Answer { status, location } => {
                let status: u16 = *status;
                if status == 403 && !self.retried {
                    self.retried = true;
                    FetchAction::Request { mobile: true }
                } else if 200 <= status && status < 300 {
                    FetchAction::TakeBody
                } else if 300 <= status && status < 400 {
                    match location {
                        Some(loc) => {
                            if self.redirects < MAX_REDIRECTS {
                                let next = match resolve_url(self.url.as_str(), loc.as_str()) {
                                    Some(next) => next,
                                    None => loc.clone(),
                                };
                                self.url = next;
                                self.redirects = self.redirects + 1;
                                self.retried = false;
                                FetchAction::Request { mobile: false }
                            } else {
                                FetchAction::GiveUp
                            }
                        },
                        None => FetchAction::GiveUp,
                    }
                } else if host_wants_fallback(self.url.as_str()) {
                    FetchAction::Fallback
                } else {
                    FetchAction::GiveUp
                }
            },
        }
    }
}

} // verus!
