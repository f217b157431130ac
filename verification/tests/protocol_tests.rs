use price_agent::grant::parse_grant;
use price_agent::protocol::{
    FetchError, FetchMachine, PageEvent, Phase, PriceQuote, RefreshEvent, Step,
};

const MARKER: &str = "{\"name\":\"Bitcoin\",\"price\":";

fn good_body() -> Vec<u8> {
    format!("<html>{}64123.50USD\"</html>", MARKER).into_bytes()
}

fn grant_body() -> Vec<u8> {
    "{\"cookies\":{\"cf\":\"abc\"},\"user_agent\":\"ua\"}".as_bytes().to_vec()
}

/// A fake page endpoint: a scripted list of outcomes, consumed one per
/// request, counting how often it was called.
struct FakePage {
    script: Vec<Option<(u16, Vec<u8>)>>,
    calls: usize,
}

impl FakePage {
    fn new(script: Vec<Option<(u16, Vec<u8>)>>) -> FakePage {
        FakePage { script: script, calls: 0 }
    }

    fn get(&mut self) -> PageEvent {
        let outcome = self.script.remove(0);
        self.calls += 1;
        match outcome {
            None => PageEvent::TransportFailure,
            Some((status, body)) => PageEvent::Response { status: status, body: body },
        }
    }
}

/// Drive one whole fetch against a fake page endpoint and a fake cookie
/// side channel (`None`: unreachable; `Some`: the response body), returning
/// the result and how often the side channel was called.
fn run_fetch(
    page: &mut FakePage,
    refresh_body: Option<Vec<u8>>,
    now: u64,
) -> (Result<PriceQuote, FetchError>, usize) {
    let mut side_channel_calls: usize = 0;
    let (mut machine, step) = FetchMachine::start();
    assert!(matches!(step, Step::RequestPage));
    let mut step = machine.on_page_event(page.get(), now);
    loop {
        match step {
            Step::Done(result) => {
                assert_eq!(machine.phase, Phase::Finished);
                assert!(machine.page_requests <= 2);
                assert!(machine.refresh_calls <= 1);
                return (result, side_channel_calls);
            }
            Step::RefreshSession => {
                side_channel_calls += 1;
                let ev = match &refresh_body {
                    None => RefreshEvent::TransportFailure,
                    Some(b) => RefreshEvent::Grant(parse_grant(b)),
                };
                step = machine.on_refresh_event(ev);
            }
            Step::RetryWith(session) => {
                // The caller would install `session` in the store here.
                assert!(session.cookie_header().is_some() || session.cookies.is_empty());
                step = machine.on_page_event(page.get(), now);
            }
            Step::RequestPage => unreachable!(),
        }
    }
}

#[test]
fn refresh_triggers_exactly_once() {
    // The page fails on the first call and succeeds on the second: the
    // side channel is called exactly once and the fetch succeeds.
    let mut page = FakePage::new(vec![Some((503, Vec::new())), Some((200, good_body()))]);
    let (result, side_calls) = run_fetch(&mut page, Some(grant_body()), 77);
    assert_eq!(result, Ok(PriceQuote { usd: 64123, last_updated_at: 77 }));
    assert_eq!(side_calls, 1);
    assert_eq!(page.calls, 2);
}

#[test]
fn no_infinite_retry() {
    // The page always fails: exactly two page requests, exactly one
    // side-channel call, then `Request` — never a further retry.
    let mut page = FakePage::new(vec![None, None]);
    let (result, side_calls) = run_fetch(&mut page, Some(grant_body()), 0);
    assert_eq!(result, Err(FetchError::Request));
    assert_eq!(side_calls, 1);
    assert_eq!(page.calls, 2);
}

#[test]
fn success_on_first_attempt_never_refreshes() {
    let mut page = FakePage::new(vec![Some((200, good_body()))]);
    let (result, side_calls) = run_fetch(&mut page, None, 5);
    assert_eq!(result, Ok(PriceQuote { usd: 64123, last_updated_at: 5 }));
    assert_eq!(side_calls, 0);
    assert_eq!(page.calls, 1);
}

#[test]
fn non_success_status_counts_as_failure() {
    // A response outside the success range on the second attempt is
    // surfaced as `Request`, not refreshed again.
    let mut page = FakePage::new(vec![Some((403, Vec::new())), Some((403, Vec::new()))]);
    let (result, side_calls) = run_fetch(&mut page, Some(grant_body()), 0);
    assert_eq!(result, Err(FetchError::Request));
    assert_eq!(side_calls, 1);
    assert_eq!(page.calls, 2);
}

#[test]
fn unreachable_side_channel_is_refresh_error() {
    let mut page = FakePage::new(vec![None]);
    let (result, side_calls) = run_fetch(&mut page, None, 0);
    assert_eq!(result, Err(FetchError::Refresh));
    assert_eq!(side_calls, 1);
    assert_eq!(page.calls, 1);
}

#[test]
fn malformed_side_channel_body_is_refresh_error() {
    let mut page = FakePage::new(vec![None]);
    let body = "no json here".as_bytes().to_vec();
    let (result, _) = run_fetch(&mut page, Some(body), 0);
    assert_eq!(result, Err(FetchError::Refresh));
}

#[test]
fn non_string_cookie_in_grant_is_refresh_error() {
    let mut page = FakePage::new(vec![None]);
    let body = "{\"cookies\":{\"cf\":1}}".as_bytes().to_vec();
    let (result, _) = run_fetch(&mut page, Some(body), 0);
    assert_eq!(result, Err(FetchError::Refresh));
}

#[test]
fn unencodable_grant_is_configuration_error() {
    let mut page = FakePage::new(vec![None]);
    let body = "{\"cookies\":{\"cf\":\"bad\\nvalue\"}}".as_bytes().to_vec();
    let (result, _) = run_fetch(&mut page, Some(body), 0);
    assert_eq!(result, Err(FetchError::Configuration));
}

#[test]
fn missing_price_is_its_own_error_kind() {
    // The page answers successfully but without the marker: page-format
    // drift, distinct from transport and session problems, no refresh.
    let body = "<html>no price marker</html>".as_bytes().to_vec();
    let mut page = FakePage::new(vec![Some((200, body))]);
    let (result, side_calls) = run_fetch(&mut page, None, 0);
    assert_eq!(result, Err(FetchError::PriceNotFound));
    assert_eq!(side_calls, 0);
}

#[test]
fn quote_is_stamped_with_the_given_clock() {
    let mut page = FakePage::new(vec![Some((200, good_body()))]);
    let (result, _) = run_fetch(&mut page, None, 1700000000);
    assert_eq!(result.unwrap().last_updated_at, 1700000000);
}

#[test]
fn retry_carries_the_refreshed_session() {
    let (mut machine, _) = FetchMachine::start();
    let step = machine.on_page_event(PageEvent::TransportFailure, 0);
    assert!(matches!(step, Step::RefreshSession));
    let step = machine.on_refresh_event(RefreshEvent::Grant(parse_grant(&grant_body())));
    match step {
        Step::RetryWith(session) => {
            assert_eq!(session.cookie_header(), Some("cf=abc".as_bytes().to_vec()));
            assert_eq!(session.user_agent, Some("ua".as_bytes().to_vec()));
        }
        _ => panic!("expected a retry with the refreshed session"),
    }
    assert_eq!(machine.phase, Phase::AwaitSecond);
    assert_eq!(machine.page_requests, 2);
    assert_eq!(machine.refresh_calls, 1);
}
