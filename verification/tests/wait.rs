use filecoin_scheduler::messages::{ResourceResult, ResourceToken};
use filecoin_scheduler::wait::{
    access_request, keep_alive_step, request_name, wait_step, ExitSignal, KeepAlive, WaitStep,
};

#[test]
fn request_names() {
    assert_eq!(request_name("P1", 1234), "P1-1234");
    assert_eq!(request_name("P1", 0), "P1-0");
    assert_eq!(request_name("", 1_700_000_000_123_456_789), "-1700000000123456789");
    assert_eq!(
        request_name("C2", u128::MAX),
        "C2-340282366920938463463374607431768211455"
    );
    let req = access_request("P2", 42);
    assert_eq!(req.request_resource, "P2");
    assert_eq!(req.name, "P2-42");
}

#[test]
fn waiting_stops_on_a_token() {
    match wait_step(ResourceResult { token: Some(ResourceToken { token: 5 }) }) {
        WaitStep::Acquired(t) => assert_eq!(t.token, 5),
        WaitStep::Retry => panic!("expected a token"),
    }
    assert!(matches!(wait_step(ResourceResult { token: None }), WaitStep::Retry));
}

#[test]
fn keep_alive_goes_on_while_nothing_arrives() {
    assert!(matches!(keep_alive_step(ExitSignal::Pending), KeepAlive::SleepThenPing));
    assert!(matches!(keep_alive_step(ExitSignal::Exit), KeepAlive::Stop));
    assert!(matches!(keep_alive_step(ExitSignal::Disconnected), KeepAlive::Stop));
}
