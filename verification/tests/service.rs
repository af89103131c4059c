use browser_pool::error::SessionError;
use browser_pool::index;
use browser_pool::page::{data_url, with_prefix};

#[test]
fn index_greets() {
    assert_eq!(index(), "Hello, world!");
}

#[test]
fn data_url_carries_the_markup_in_base64() {
    assert_eq!(
        data_url("<h1>hi</h1>"),
        Some(String::from("data:text/html;base64,PGgxPmhpPC9oMT4="))
    );
    assert_eq!(data_url("a"), Some(String::from("data:text/html;base64,YQ==")));
    assert_eq!(
        data_url("<p>caf\u{e9}</p>"),
        Some(String::from("data:text/html;base64,PHA+Y2Fmw6k8L3A+"))
    );
}

#[test]
fn data_url_of_empty_markup() {
    assert_eq!(data_url(""), Some(String::from("data:text/html;base64,")));
}

#[test]
fn prefix_is_put_before_the_text() {
    assert_eq!(with_prefix("YQ=="), "data:text/html;base64,YQ==");
    assert_eq!(with_prefix(""), "data:text/html;base64,");
}

#[test]
fn only_teardown_failures_stay_inside() {
    assert!(SessionError::SessionCreateFailed.propagates());
    assert!(SessionError::SessionUseFailed.propagates());
    assert!(!SessionError::SessionDestroyFailed.propagates());
}

#[test]
fn use_outcome_maps_to_use_failure() {
    assert_eq!(SessionError::of_use(Ok::<u8, ()>(3)), Ok(3));
    assert_eq!(SessionError::of_use(Err::<u8, &str>("gone")), Err(SessionError::SessionUseFailed));
}

#[test]
fn teardown_outcome_maps_to_warning() {
    assert_eq!(SessionError::of_teardown(Ok::<(), ()>(())), None);
    assert_eq!(
        SessionError::of_teardown(Err::<(), &str>("gone")),
        Some(SessionError::SessionDestroyFailed)
    );
}
