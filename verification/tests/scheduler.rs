use filecoin_scheduler::config::{Config, PhaseConfig};
use filecoin_scheduler::cond::SchedulerState;

const SEC: u64 = 1_000_000_000;

fn phase(name: &str, limit: u64, check: u64, dead: u64) -> PhaseConfig {
    PhaseConfig {
        name: name.to_string(),
        concurrent_limit: limit,
        check_timeout: check,
        dead_timeout: dead,
    }
}

#[test]
fn default_config_has_four_phases() {
    let c = Config::default();
    let got: Vec<(String, u64, u64, u64)> = c
        .phases
        .iter()
        .map(|p| (p.name.clone(), p.concurrent_limit, p.check_timeout, p.dead_timeout))
        .collect();
    assert_eq!(
        got,
        vec![
            ("P1".to_string(), 2, 8, 20),
            ("P2".to_string(), 1, 1000, 1000),
            ("C1".to_string(), 1, 1000, 1000),
            ("C2".to_string(), 1, 1000, 1000),
        ]
    );
}

#[test]
fn grants_up_to_the_limit() {
    let mut s = SchedulerState::new(&Config::default());
    assert_eq!(s.try_access_at("P1", 0), Some(0));
    assert_eq!(s.try_access_at("P1", 0), Some(1));
    assert_eq!(s.try_access_at("P1", 0), None);
    assert_eq!(s.try_access_at("P2", 0), Some(2));
    assert_eq!(s.try_access_at("P2", 0), None);
    assert_eq!(s.try_access_at("C1", 0), Some(3));
}

#[test]
fn unknown_resource_is_refused() {
    let mut s = SchedulerState::new(&Config::default());
    assert_eq!(s.try_access_at("P3", 0), None);
    assert_eq!(s.try_access("P1-1234"), None);
    assert_eq!(s.try_access_at("P1", 0), Some(0));
}

#[test]
fn release_frees_a_place() {
    let mut s = SchedulerState::new(&Config::default());
    assert_eq!(s.try_access("P1"), Some(0));
    assert_eq!(s.try_access("P1"), Some(1));
    assert_eq!(s.try_access("P1"), None);
    assert_eq!(s.remove_guard(0), Some(true));
    assert_eq!(s.remove_guard(0), None);
    assert_eq!(s.try_access("P1"), Some(2));
    assert_eq!(s.try_access("P1"), None);
}

#[test]
fn ping_answers_whether_token_is_held() {
    let mut s = SchedulerState::new(&Config::default());
    assert_eq!(s.try_access("C2"), Some(0));
    assert!(s.ping(0));
    assert!(!s.ping(1));
    assert_eq!(s.remove_guard(0), Some(true));
    assert!(!s.ping(0));
}

#[test]
fn dead_holders_are_reclaimed_after_the_check_timeout() {
    let mut s = SchedulerState::new(&Config::default());
    assert_eq!(s.try_access_at("P1", 0), Some(0));
    assert_eq!(s.try_access_at("P1", 0), Some(1));
    // 8 whole seconds since the last check is not more than 8: no check.
    assert_eq!(s.try_access_at("P1", 8 * SEC + SEC / 2), None);
    assert!(s.ping_at(0, 0));
    // 25 s: the check runs; both holders are silent for more than 20 s.
    assert_eq!(s.try_access_at("P1", 25 * SEC), None);
    assert!(!s.ping_at(0, 25 * SEC));
    assert!(!s.ping_at(1, 25 * SEC));
    assert_eq!(s.try_access_at("P1", 26 * SEC), Some(2));
}

#[test]
fn pinged_holder_survives_the_check() {
    let mut s = SchedulerState::new(&Config::default());
    assert_eq!(s.try_access_at("P1", 0), Some(0));
    assert_eq!(s.try_access_at("P1", 0), Some(1));
    assert!(s.ping_at(0, 10 * SEC));
    assert_eq!(s.try_access_at("P1", 25 * SEC), None);
    assert!(s.ping_at(0, 25 * SEC));
    assert!(!s.ping_at(1, 25 * SEC));
    assert_eq!(s.try_access_at("P1", 25 * SEC), Some(2));
}

#[test]
fn check_reclaims_holders_of_other_resources_too() {
    let mut s = SchedulerState::new(&Config::default());
    assert_eq!(s.try_access_at("P2", 0), Some(0));
    assert_eq!(s.try_access_at("P1", 0), Some(1));
    assert_eq!(s.try_access_at("P1", 0), Some(2));
    assert!(s.ping_at(1, 24 * SEC));
    assert!(s.ping_at(2, 24 * SEC));
    // P1 is full; its check (timeout 8 s) removes every holder silent for
    // more than its dead timeout (20 s): the P2 holder too.
    assert_eq!(s.try_access_at("P1", 25 * SEC), None);
    assert!(!s.ping_at(0, 25 * SEC));
    assert_eq!(s.try_access_at("P2", 25 * SEC), Some(3));
}

#[test]
fn check_waits_for_its_timeout_again() {
    let mut s = SchedulerState::new(&Config::default());
    assert_eq!(s.try_access_at("P1", 0), Some(0));
    assert_eq!(s.try_access_at("P1", 0), Some(1));
    // A check at 9 s removes nothing (holders silent for 9 s only).
    assert_eq!(s.try_access_at("P1", 9 * SEC), None);
    // At 17 s, 8 s since the last check: no check, nothing removed.
    assert_eq!(s.try_access_at("P1", 17 * SEC), None);
    assert!(s.ping_at(0, 0));
    // At 21 s, 12 s since the last check, holders silent 21 s: removed.
    assert_eq!(s.try_access_at("P1", 21 * SEC), None);
    assert!(!s.ping_at(0, 21 * SEC));
}

#[test]
fn later_phase_replaces_earlier_of_same_name() {
    let config = Config { phases: vec![phase("A", 1, 1, 1), phase("B", 0, 1, 1), phase("A", 3, 1, 1)] };
    let mut s = SchedulerState::new(&config);
    assert_eq!(s.try_access_at("A", 0), Some(0));
    assert_eq!(s.try_access_at("A", 0), Some(1));
    assert_eq!(s.try_access_at("A", 0), Some(2));
    assert_eq!(s.try_access_at("A", 0), None);
    assert_eq!(s.try_access_at("B", 0), None);
    let info = s.debug_info_at(0);
    let names: Vec<String> = info.resources.iter().map(|r| r.name.clone()).collect();
    assert_eq!(names, vec!["A".to_string(), "B".to_string()]);
}

#[test]
fn debug_info_lists_resources_and_holders() {
    let mut s = SchedulerState::new(&Config::default());
    assert_eq!(s.try_access_at("P1", 2 * SEC), Some(0));
    assert_eq!(s.try_access_at("C1", 3 * SEC), Some(1));
    let info = s.debug_info_at(10 * SEC + 1);
    let res: Vec<(String, u64)> = info.resources.iter().map(|r| (r.name.clone(), r.secs_since_check)).collect();
    assert_eq!(
        res,
        vec![
            ("P1".to_string(), 10),
            ("P2".to_string(), 10),
            ("C1".to_string(), 10),
            ("C2".to_string(), 10),
        ]
    );
    let mut holders: Vec<(u64, String, u64)> = info
        .holders
        .iter()
        .map(|h| (h.token, h.name.clone(), h.secs_since_live))
        .collect();
    holders.sort();
    assert_eq!(holders, vec![(0, "P1".to_string(), 8), (1, "C1".to_string(), 7)]);
    let live = s.show_debug_info();
    assert_eq!(live.resources.len(), 4);
    assert_eq!(live.holders.len(), 2);
}

#[test]
fn elapsed_seconds_saturate_at_zero() {
    let mut s = SchedulerState::new(&Config::default());
    assert_eq!(s.try_access_at("P1", 5 * SEC), Some(0));
    let info = s.debug_info_at(SEC);
    assert_eq!(info.holders[0].secs_since_live, 0);
}

#[test]
fn clock_readings_never_go_back() {
    let mut s = SchedulerState::new(&Config::default());
    // A request stamped 100 s ahead of the clock's real reading.
    assert_eq!(s.try_access_at("P1", 100 * SEC), Some(0));
    assert!(s.ping_at(0, 50 * SEC));
    // The clock now reads about zero, but the scheduler never uses a time
    // before the latest it has used (100 s).
    assert!(s.ping(0));
    let info = s.debug_info_at(100 * SEC);
    assert_eq!(info.holders[0].secs_since_live, 0);
    assert_eq!(s.try_access("P1"), Some(1));
    let info = s.debug_info_at(100 * SEC);
    assert!(info.holders.iter().all(|h| h.secs_since_live == 0));
}
