use filecoin_scheduler::client::{
    method_scheduler_ping, method_scheduler_remove_guard, method_scheduler_test,
    method_scheduler_try_access, CallOption, MethodType, SchedulerClient,
};
use filecoin_scheduler::cond::SchedulerState;
use filecoin_scheduler::config::Config;
use filecoin_scheduler::messages::{AccessResource, Empty, ResourceToken};
use filecoin_scheduler::service::{Scheduler, SchedulerService};

fn request(name: &str) -> AccessResource {
    AccessResource { request_resource: name.to_string(), name: name.to_string() }
}

#[test]
fn service_grants_and_releases() {
    let mut svc = SchedulerService::new(SchedulerState::new(&Config::default()));
    let r = svc.try_access(request("C1"));
    assert_eq!(r.token.as_ref().map(|t| t.token), Some(0));
    let r = svc.try_access(request("C1"));
    assert!(r.token.is_none());
    assert!(svc.ping(ResourceToken { token: 0 }).result);
    assert!(svc.remove_guard(ResourceToken { token: 0 }).result);
    assert!(!svc.remove_guard(ResourceToken { token: 0 }).result);
    assert!(!svc.ping(ResourceToken { token: 0 }).result);
    let r = svc.try_access(request("C1"));
    assert_eq!(r.token.map(|t| t.token), Some(1));
    let _ = svc.test(Empty {});
    assert_eq!(svc.state().debug_info_at(0).holders.len(), 1);
}

#[test]
fn service_grants_the_requested_resource() {
    let mut svc = SchedulerService::new(SchedulerState::new(&Config::default()));
    let req = AccessResource { request_resource: "P1".to_string(), name: "P1-17".to_string() };
    assert_eq!(svc.try_access(req).token.map(|t| t.token), Some(0));
    let req = AccessResource { request_resource: "P1".to_string(), name: "P1-18".to_string() };
    assert_eq!(svc.try_access(req).token.map(|t| t.token), Some(1));
    let req = AccessResource { request_resource: "P1".to_string(), name: "P1-19".to_string() };
    assert!(svc.try_access(req).token.is_none());
    let req = AccessResource { request_resource: "P9".to_string(), name: "P1".to_string() };
    assert!(svc.try_access(req).token.is_none());
}

#[test]
fn waiting_client_request_is_granted() {
    let mut svc = SchedulerService::new(SchedulerState::new(&Config::default()));
    let req = filecoin_scheduler::wait::access_request("P1", 1_700_000_000_000_000_000);
    assert_eq!(req.name, "P1-1700000000000000000");
    assert_eq!(svc.try_access(req).token.map(|t| t.token), Some(0));
}

#[test]
fn method_paths() {
    assert_eq!(method_scheduler_test().name, "/scheduler.Scheduler/Test");
    assert_eq!(method_scheduler_try_access().name, "/scheduler.Scheduler/TryAccess");
    assert_eq!(method_scheduler_remove_guard().name, "/scheduler.Scheduler/RemoveGuard");
    assert_eq!(method_scheduler_ping().name, "/scheduler.Scheduler/Ping");
    assert!(matches!(method_scheduler_try_access().ty, MethodType::Unary));
}

#[test]
fn client_calls() {
    let client = SchedulerClient::new("transport");
    let req = request("P1");
    let c = client.try_access(&req);
    assert_eq!(*c.client, "transport");
    assert_eq!(*client.client(), "transport");
    assert_eq!(c.method.name, "/scheduler.Scheduler/TryAccess");
    assert_eq!(c.request.name, "P1");
    assert_eq!(c.option.timeout_millis, None);
    assert!(!c.option.wait_for_ready);
    assert!(!c.option.idempotent && !c.option.cacheable);
    assert!(!c.option.buffer_hint && !c.option.force_no_compress);
    assert!(c.option.headers.is_empty());
    assert!(!c.asynchronous);
    let opt = CallOption { timeout_millis: Some(500), wait_for_ready: true, ..CallOption::default() };
    let c = client.try_access_async_opt(&req, opt);
    assert!(c.asynchronous);
    assert_eq!(c.option.timeout_millis, Some(500));
    assert!(c.option.wait_for_ready);
    let c = client.try_access_async(&req);
    assert!(c.asynchronous);
    assert_eq!(c.option.timeout_millis, None);
    let c = client.try_access_opt(&req, CallOption { timeout_millis: Some(7), wait_for_ready: false, ..CallOption::default() });
    assert!(!c.asynchronous);
    assert_eq!(c.option.timeout_millis, Some(7));
    let e = Empty {};
    let c = client.test(&e);
    assert_eq!(c.method.name, "/scheduler.Scheduler/Test");
    assert!(!c.asynchronous);
    let c = client.test_async(&e);
    assert!(c.asynchronous);
    let c = client.test_opt(&e, CallOption { timeout_millis: Some(1), wait_for_ready: true, ..CallOption::default() });
    assert_eq!(c.option.timeout_millis, Some(1));
    let c = client.test_async_opt(&e, CallOption { timeout_millis: None, wait_for_ready: true, ..CallOption::default() });
    assert!(c.asynchronous && c.option.wait_for_ready);
    let tok = ResourceToken { token: 9 };
    let opt = CallOption {
        idempotent: true,
        cacheable: true,
        buffer_hint: true,
        force_no_compress: true,
        headers: vec![("x-client".to_string(), "p1".to_string())],
        ..CallOption::default()
    };
    let c = client.ping_opt(&tok, opt);
    assert!(c.option.idempotent && c.option.cacheable);
    assert!(c.option.buffer_hint && c.option.force_no_compress);
    assert_eq!(c.option.headers, vec![("x-client".to_string(), "p1".to_string())]);
    let c = client.ping(&tok);
    assert_eq!(c.method.name, "/scheduler.Scheduler/Ping");
    assert_eq!(c.request.token, 9);
    let c = client.remove_guard(&tok);
    assert_eq!(c.method.name, "/scheduler.Scheduler/RemoveGuard");
    let c = client.remove_guard_opt(&tok, CallOption { timeout_millis: Some(3), wait_for_ready: false, ..CallOption::default() });
    assert_eq!(c.option.timeout_millis, Some(3));
    let c = client.ping_opt(&tok, CallOption { timeout_millis: Some(4), wait_for_ready: false, ..CallOption::default() });
    assert_eq!(c.option.timeout_millis, Some(4));
}
