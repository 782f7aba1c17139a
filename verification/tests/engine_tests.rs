use weixin_reader::engine::EngineGuard;
use weixin_reader::engine::FetchStep;
use weixin_reader::engine::step_error;
use weixin_reader::error::AppError;

#[test]
fn launch_happens_once_on_success() {
    let mut guard = EngineGuard::new();
    assert!(guard.must_launch());
    guard.record_success();
    // Every later acquire observes the ready engine and never launches.
    assert!(!guard.must_launch());
    assert!(!guard.must_launch());
    assert!(guard.failure().is_none());
}

#[test]
fn failed_launch_is_final_and_shared() {
    let mut guard = EngineGuard::new();
    assert!(guard.must_launch());
    guard.record_failure(String::from("Launch error: no executable"));
    // No retry on later acquires; all observe the identical failure.
    assert!(!guard.must_launch());
    let first = guard.failure().expect("failure recorded");
    let second = guard.failure().expect("failure recorded");
    match (&first, &second) {
        (AppError::BrowserError(a), AppError::BrowserError(b)) => {
            assert_eq!(a, b);
            assert_eq!(a, "Launch error: no executable");
        }
        _ => panic!("launch failure must surface as a browser error"),
    }
}

#[test]
fn wait_step_fails_as_timeout() {
    let err = step_error(FetchStep::WaitContent, "deadline exceeded");
    match &err {
        AppError::Timeout(m) => {
            assert_eq!(
                m,
                "Waiting for #js_content failed: deadline exceeded. The page may not be a valid WeChat article."
            );
        }
        _ => panic!("the wait step must time out"),
    }
    assert!(err.message().contains("Timeout") || err.message().contains("timeout"));
}

#[test]
fn other_steps_fail_as_browser_errors() {
    let open = step_error(FetchStep::OpenPage, "boom");
    let markup = step_error(FetchStep::GetMarkup, "boom");
    let close = step_error(FetchStep::ClosePage, "boom");
    match &open {
        AppError::BrowserError(m) => assert_eq!(m, "New page error: boom"),
        _ => panic!("open must be a browser error"),
    }
    match &markup {
        AppError::BrowserError(m) => assert_eq!(m, "Get content error: boom"),
        _ => panic!("markup must be a browser error"),
    }
    match &close {
        AppError::BrowserError(m) => assert_eq!(m, "Close page error: boom"),
        _ => panic!("close must be a browser error"),
    }
}
