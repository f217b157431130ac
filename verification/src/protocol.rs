//! The retry/refresh protocol behind `fetch_price`.
//!
//! One fetch is a short, bounded conversation with the outside world: try
//! the source page with the current session; on a transport failure or a
//! non-success status, obtain a fresh session from the cookie side channel
//! and retry exactly once; never refresh twice. The decisions of that
//! conversation live here as a state machine from event to next step, with
//! the transport itself (HTTP, clocks, the lock around the live client)
//! driven by the caller: it performs each requested step and hands the
//! outcome back.

use vstd::prelude::*;

use crate::extract::{find_price, price_of};
use crate::grant::GrantError;
use crate::session::{CookieGrant, Session};

verus! {

/// A successful fetch: the extracted price and the unix-seconds moment the
/// quote was produced, stamped by the caller's clock at fetch completion.
#[derive(Clone, Copy, Debug, PartialEq, Eq)]
pub struct PriceQuote {
    pub usd: u64,
    pub last_updated_at: u64,
}

/// The error kinds a fetch surfaces, each fatal for that call.
#[derive(Clone, Copy, Debug, PartialEq, Eq)]
pub enum FetchError {
    /// The cookie side channel was unreachable, answered malformed JSON,
    /// or answered a non-string cookie value.
    Refresh,
    /// The page request failed (transport or non-success status) after a
    /// refresh was already performed.
    Request,
    /// The page was fetched but the price marker or digit run was not
    /// found: the page format drifted, not the session.
    PriceNotFound,
    /// A refreshed cookie or user-agent could not be encoded as an HTTP
    /// header value.
    Configuration,
}

/// Where a fetch stands between two events.
#[derive(Clone, Copy, Debug, PartialEq, Eq, Structural)]
pub enum Phase {
    /// The first page request is in flight.
    AwaitFirst,
    /// The side-channel call is in flight.
    AwaitRefresh,
    /// The retried page request, after the one refresh, is in flight.
    AwaitSecond,
    /// The fetch has produced its result.
    Finished,
}

/// The outcome of one page request, as the transport saw it.
pub enum PageEvent {
    /// Connection error, timeout, or decode error: no response at all.
    TransportFailure,
    /// A response, with its status code and full body bytes.
    Response { status: u16, body: Vec<u8> },
}

/// The outcome of the side-channel call. The caller decodes an answered
/// body with `parse_grant` and reports the result, so that what follows
/// here is a decision over plain values, exact in the contract.
pub enum RefreshEvent {
    /// The side channel was unreachable.
    TransportFailure,
    /// The side channel answered, and its body decoded to this.
    Grant(Result<CookieGrant, GrantError>),
}

/// What the machine asks the caller to do next.
pub enum Step {
    /// Perform an HTTP GET on the source page with the current session and
    /// report a `PageEvent`.
    RequestPage,
    /// Call the cookie side channel and report a `RefreshEvent`.
    RefreshSession,
    /// Atomically replace the stored session with this one, then perform
    /// the one retry of the page request and report a `PageEvent`.
    RetryWith(Session),
    /// The fetch is over; hand this to the caller.
    Done(Result<PriceQuote, FetchError>),
}

/// A response status in the HTTP success range.
pub open spec fn page_success(ev: PageEvent) -> bool {
    match ev {
        PageEvent::Response { status, .. } => 200 <= status < 300,
        PageEvent::TransportFailure => false,
    }
}

/// The body carried by a page response.
pub open spec fn page_body(ev: PageEvent) -> Seq<u8> {
    match ev {
        PageEvent::Response { body, .. } => body@,
        PageEvent::TransportFailure => Seq::empty(),
    }
}

/// What a successful response yields: the extracted price stamped with
/// `now`, or the distinct page-drift error when extraction fails.
pub open spec fn fetch_outcome(body: Seq<u8>, now: u64) -> Result<PriceQuote, FetchError> {
    match price_of(body) {
        Some(v) => Ok(PriceQuote { usd: v, last_updated_at: now }),
        None => Err(FetchError::PriceNotFound),
    }
}

/// The state of one `fetch_price` call, with the two effort counters the
/// protocol bounds: how many page requests and how many side-channel calls
/// the caller has been asked to make.
pub struct FetchMachine {
    pub phase: Phase,
    pub page_requests: u8,
    pub refresh_calls: u8,
}

impl FetchMachine {
    /// The reachable states: the counters follow the phase, so a fetch can
    /// never have asked for more than two page requests or more than one
    /// refresh.
    pub open spec fn wf(self) -> bool {
        match self.phase {
            Phase::AwaitFirst => self.page_requests == 1 && self.refresh_calls == 0,
            Phase::AwaitRefresh => self.page_requests == 1 && self.refresh_calls == 1,
            Phase::AwaitSecond => self.page_requests == 2 && self.refresh_calls == 1,
            Phase::Finished => self.page_requests <= 2 && self.refresh_calls <= 1,
        }
    }

    /// Begin a fetch: the caller is asked for the first page request.
    pub fn start() -> (r: (FetchMachine, Step))
        ensures
            r.0.wf(),
            r.0.phase == Phase::AwaitFirst,
            r.0.page_requests == 1,
            r.0.refresh_calls == 0,
            r.1 == Step::RequestPage,
    {
        (FetchMachine { phase: Phase::AwaitFirst, page_requests: 1, refresh_calls: 0 },
            Step::RequestPage)
    }

    /// Classify the outcome of a page request.
    ///
    /// A success-range response finishes the fetch with the extraction
    /// result, on either attempt. Anything else after the first attempt
    /// asks for the one refresh; anything else after the second surfaces
    /// `Request` — no further retry, whatever the outcome.
    pub fn on_page_event(&mut self, ev: PageEvent, now: u64) -> (step: Step)
        requires
            old(self).phase == Phase::AwaitFirst || old(self).phase == Phase::AwaitSecond,
            old(self).wf(),
        ensures
            final(self).wf(),
            final(self).page_requests == old(self).page_requests,
            page_success(ev) ==> final(self).phase == Phase::Finished && final(self).refresh_calls
                == old(self).refresh_calls && step == Step::Done(fetch_outcome(page_body(ev), now)),
            !page_success(ev) && old(self).phase == Phase::AwaitFirst ==> final(self).phase
                == Phase::AwaitRefresh && final(self).refresh_calls == 1 && step
                == Step::RefreshSession,
            !page_success(ev) && old(self).phase == Phase::AwaitSecond ==> final(self).phase
                == Phase::Finished && final(self).refresh_calls == old(self).refresh_calls && step
                == Step::Done(Err(FetchError::Request)),
    {
        match ev {
            PageEvent::Response { status, body } => {
                if 200 <= status && status < 300 {
                    self.phase = Phase::Finished;
                    let result = match find_price(&body) {
                        Some(v) => Ok(PriceQuote { usd: v, last_updated_at: now }),
                        None => Err(FetchError::PriceNotFound),
                    };
                    Step::Done(result)
                } else {
                    self.fall_back()
                }
            },
            PageEvent::TransportFailure => self.fall_back(),
        }
    }

    fn fall_back(&mut self) -> (step: Step)
        requires
            old(self).phase == Phase::AwaitFirst || old(self).phase == Phase::AwaitSecond,
            old(self).wf(),
        ensures
            final(self).wf(),
            final(self).page_requests == old(self).page_requests,
            old(self).phase == Phase::AwaitFirst ==> final(self).phase == Phase::AwaitRefresh
                && final(self).refresh_calls == 1 && step == Step::RefreshSession,
            old(self).phase == Phase::AwaitSecond ==> final(self).phase == Phase::Finished
                && final(self).refresh_calls == old(self).refresh_calls && step
                == Step::Done(Err(FetchError::Request)),
    {
        match self.phase {
            Phase::AwaitFirst => {
                self.phase = Phase::AwaitRefresh;
                self.refresh_calls = 1;
                Step::RefreshSession
            },
            _ => {
                self.phase = Phase::Finished;
                Step::Done(Err(FetchError::Request))
            },
        }
    }

    /// Act on the side channel's answer to the one refresh.
    ///
    /// An unreachable side channel or an undecodable body is `Refresh`; a
    /// grant that cannot be encoded as headers is `Configuration`; an
    /// encodable grant becomes the session, built wholesale from it, that
    /// the caller must install before the one retry — refresh succeeds on
    /// exactly those grants.
    pub fn on_refresh_event(&mut self, ev: RefreshEvent) -> (step: Step)
        requires
            old(self).phase == Phase::AwaitRefresh,
            old(self).wf(),
        ensures
            final(self).wf(),
            final(self).refresh_calls == old(self).refresh_calls,
            match ev {
                RefreshEvent::TransportFailure => final(self).phase == Phase::Finished
                    && final(self).page_requests == old(self).page_requests && step
                    == Step::Done(Err(FetchError::Refresh)),
                RefreshEvent::Grant(res) => match res {
                    Err(_) => final(self).phase == Phase::Finished && final(self).page_requests
                        == old(self).page_requests && step == Step::Done(Err(FetchError::Refresh)),
                    Ok(g) => if g.encodable() {
                        &&& final(self).phase == Phase::AwaitSecond
                        &&& final(self).page_requests == 2
                        &&& match step {
                            Step::RetryWith(s) => s.cookies@ == g.cookies@ && s.user_agent
                                == g.user_agent && s.wf(),
                            _ => false,
                        }
                    } else {
                        &&& final(self).phase == Phase::Finished
                        &&& final(self).page_requests == old(self).page_requests
                        &&& step == Step::Done(Err(FetchError::Configuration))
                    },
                },
            },
    {
        let res = match ev {
            RefreshEvent::TransportFailure => {
                self.phase = Phase::Finished;
                return Step::Done(Err(FetchError::Refresh));
            },
            RefreshEvent::Grant(res) => res,
        };
        let grant = match res {
            Ok(g) => g,
            Err(_) => {
                self.phase = Phase::Finished;
                return Step::Done(Err(FetchError::Refresh));
            },
        };
        match Session::from_grant(grant) {
            Some(s) => {
                self.phase = Phase::AwaitSecond;
                self.page_requests = 2;
                Step::RetryWith(s)
            },
            None => {
                self.phase = Phase::Finished;
                Step::Done(Err(FetchError::Configuration))
            },
        }
    }
}

/// Bounded-effort law: in any reachable state of a fetch, at most two page
/// requests and at most one side-channel call have been asked for — a
/// fetch can never retry without bound.
pub proof fn lemma_bounded_effort(m: FetchMachine)
    requires
        m.wf(),
    ensures
        m.page_requests <= 2,
        m.refresh_calls <= 1,
{
}

} // verus!
