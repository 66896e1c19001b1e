use product_scraper::fetch::{is_success_status, FetchAction, FetchEvent, FetchState};

fn answer(status: u16, location: Option<&str>) -> FetchEvent {
    FetchEvent::Answer { status, location: location.map(String::from) }
}

#[test]
fn success_takes_the_body() {
    let mut st = FetchState::start("https://shop.example.com/p");
    assert!(matches!(st.step(&answer(200, None)), FetchAction::TakeBody));
    assert_eq!(st.url, "https://shop.example.com/p");
    assert!(is_success_status(200) && is_success_status(299));
    assert!(!is_success_status(199) && !is_success_status(300));
}

#[test]
fn forbidden_is_asked_again_once() {
    let mut st = FetchState::start("https://shop.example.com/p");
    assert!(matches!(st.step(&answer(403, None)), FetchAction::Request { mobile: true }));
    assert!(st.retried);
    assert!(matches!(st.step(&answer(403, None)), FetchAction::GiveUp));
    let mut st = FetchState::start("https://shop.example.com/p");
    assert!(matches!(st.step(&answer(403, None)), FetchAction::Request { mobile: true }));
    assert!(matches!(st.step(&answer(200, None)), FetchAction::TakeBody));
}

#[test]
fn redirects_are_followed_three_times() {
    let mut st = FetchState::start("https://shop.example.com/a/b");
    assert!(matches!(st.step(&answer(301, Some("/c"))), FetchAction::Request { mobile: false }));
    assert_eq!(st.url, "https://shop.example.com/c");
    assert!(matches!(st.step(&answer(302, Some("d?x=1"))), FetchAction::Request { mobile: false }));
    assert_eq!(st.url, "https://shop.example.com/d?x=1");
    assert!(matches!(
        st.step(&answer(307, Some("https://other.example.com/e"))),
        FetchAction::Request { mobile: false }
    ));
    assert_eq!(st.url, "https://other.example.com/e");
    assert_eq!(st.redirects, 3);
    assert!(matches!(st.step(&answer(301, Some("/f"))), FetchAction::GiveUp));
    assert_eq!(st.url, "https://other.example.com/e");
}

#[test]
fn redirect_without_location_gives_up() {
    let mut st = FetchState::start("https://shop.example.com/p");
    assert!(matches!(st.step(&answer(302, None)), FetchAction::GiveUp));
}

#[test]
fn retry_is_allowed_again_after_a_redirect() {
    let mut st = FetchState::start("https://shop.example.com/p");
    assert!(matches!(st.step(&answer(403, None)), FetchAction::Request { mobile: true }));
    assert!(matches!(st.step(&answer(302, Some("/q"))), FetchAction::Request { mobile: false }));
    assert!(!st.retried);
    assert!(matches!(st.step(&answer(403, None)), FetchAction::Request { mobile: true }));
}

#[test]
fn unreadable_base_keeps_the_location() {
    let mut st = FetchState::start("nonsense");
    assert!(matches!(
        st.step(&answer(301, Some("https://shop.example.com/x"))),
        FetchAction::Request { mobile: false }
    ));
    assert_eq!(st.url, "https://shop.example.com/x");
}

#[test]
fn fallback_is_tried_for_some_hosts() {
    let mut st = FetchState::start("https://www.therealreal.com/products/x");
    assert!(matches!(st.step(&answer(500, None)), FetchAction::Fallback));
    let mut st = FetchState::start("https://shop.example.com/therealreal.com");
    assert!(matches!(st.step(&answer(500, None)), FetchAction::GiveUp));
    let mut st = FetchState::start("https://shop.example.com/p");
    assert!(matches!(st.step(&FetchEvent::Failure), FetchAction::GiveUp));
}
