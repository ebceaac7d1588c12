use zoomies::poll::begin_wait;
use zoomies::poll::poll;
use zoomies::poll::update_detected;
use zoomies::poll::WaitState;
use zoomies::precursor::TriggerPrecursor;
use zoomies::resolve::cycle_is_active;
use zoomies::resolve::resolve;
use zoomies::resolve::FetchError;
use zoomies::resolve::Resolution;
use zoomies::resolve::Trigger;
use zoomies::resolve::UpdateInfo;
use zoomies::schedule::schedule;

fn info(id: &str, lastupdate: i32) -> UpdateInfo {
    UpdateInfo { id: id.to_string(), lastupdate }
}

fn entry(region: &str) -> TriggerPrecursor {
    TriggerPrecursor {
        region: region.to_string(),
        target: Some("next".to_string()),
        updated_ping: true,
        waiting_ping: false,
        comment: Some("note".to_string()),
    }
}

fn trigger(region: &str, lastupdate: i32) -> Trigger {
    Trigger {
        region: region.to_string(),
        target: None,
        lastupdate,
        updated_ping: false,
        waiting_ping: false,
        comment: None,
    }
}

fn order(triggers: &[Trigger]) -> Vec<(String, i32)> {
    triggers.iter().map(|t| (t.region.clone(), t.lastupdate)).collect()
}

#[test]
fn sorting_is_stable_and_ascending() {
    let sorted = schedule(vec![
        trigger("a", 50),
        trigger("b", 10),
        trigger("c", 10),
        trigger("d", 30),
    ]);
    assert_eq!(
        order(&sorted),
        vec![
            ("b".to_string(), 10),
            ("c".to_string(), 10),
            ("d".to_string(), 30),
            ("a".to_string(), 50),
        ]
    );
}

#[test]
fn sorting_keeps_every_tie_in_input_order() {
    let sorted = schedule(vec![
        trigger("a", 5),
        trigger("b", 5),
        trigger("c", -1),
        trigger("d", 5),
        trigger("e", -1),
        trigger("f", i32::MAX),
        trigger("g", i32::MIN),
    ]);
    let names: Vec<&str> = sorted.iter().map(|t| t.region.as_str()).collect();
    assert_eq!(names, vec!["g", "c", "e", "a", "b", "d", "f"]);
}

#[test]
fn sorting_agrees_with_std_stable_sort() {
    let mut seed: u32 = 12345;
    for round in 0..50 {
        let mut input: Vec<Trigger> = Vec::new();
        let mut expected: Vec<(String, i32)> = Vec::new();
        for i in 0..(round % 13) {
            seed = seed.wrapping_mul(1103515245).wrapping_add(12345);
            let key = ((seed >> 16) % 5) as i32;
            input.push(trigger(&format!("r{}", i), key));
            expected.push((format!("r{}", i), key));
        }
        expected.sort_by(|a, b| a.1.cmp(&b.1));
        assert_eq!(order(&schedule(input)), expected);
    }
}

#[test]
fn sorting_nothing_and_one() {
    assert!(schedule(Vec::new()).is_empty());
    assert_eq!(order(&schedule(vec![trigger("only", 7)])), vec![("only".to_string(), 7)]);
}

#[test]
fn cycle_is_active_when_major_is_newer() {
    assert!(cycle_is_active(200, 100));
    assert!(!cycle_is_active(100, 100));
    assert!(!cycle_is_active(100, 200));
    assert!(cycle_is_active(i32::MAX, i32::MIN));
}

#[test]
fn resolve_builds_trigger_from_entry_and_report() {
    match resolve(entry("alpha"), &Ok(info("Alpha", 77)), false, 10) {
        Resolution::Resolved(t) => {
            assert_eq!(t.region, "alpha");
            assert_eq!(t.target, Some("next".to_string()));
            assert_eq!(t.lastupdate, 77);
            assert!(t.updated_ping);
            assert!(!t.waiting_ping);
            assert_eq!(t.comment, Some("note".to_string()));
        }
        other => panic!("unexpected {:?}", other),
    }
}

#[test]
fn resolve_drops_already_updated_region() {
    assert!(matches!(
        resolve(entry("alpha"), &Ok(info("alpha", 101)), true, 100),
        Resolution::AlreadyUpdated
    ));
}

#[test]
fn resolve_keeps_region_at_or_before_major_baseline() {
    assert!(matches!(
        resolve(entry("alpha"), &Ok(info("alpha", 100)), true, 100),
        Resolution::Resolved(_)
    ));
    assert!(matches!(
        resolve(entry("alpha"), &Ok(info("alpha", 99)), true, 100),
        Resolution::Resolved(_)
    ));
}

#[test]
fn resolve_keeps_newer_region_when_cycle_is_idle() {
    assert!(matches!(
        resolve(entry("alpha"), &Ok(info("alpha", 101)), false, 100),
        Resolution::Resolved(_)
    ));
}

#[test]
fn resolve_drops_entry_on_failed_lookup() {
    assert!(matches!(resolve(entry("alpha"), &Err(FetchError), true, 100), Resolution::Unavailable));
}

#[test]
fn fires_on_first_changed_poll() {
    let t = trigger("alpha", 100);
    let answers: Vec<Result<UpdateInfo, FetchError>> = vec![
        Ok(info("alpha", 100)),
        Err(FetchError),
        Ok(info("alpha", 100)),
        Err(FetchError),
        Ok(info("alpha", 101)),
        Ok(info("alpha", 100)),
    ];
    let mut state = begin_wait(WaitState::Resolved);
    assert_eq!(state, WaitState::Polling);
    let mut seen = Vec::new();
    for answer in &answers {
        state = poll(state, &t, answer);
        seen.push(state);
    }
    assert_eq!(
        seen,
        vec![
            WaitState::Polling,
            WaitState::Polling,
            WaitState::Polling,
            WaitState::Polling,
            WaitState::Fired,
            WaitState::Fired,
        ]
    );
}

#[test]
fn earlier_timestamp_also_counts_as_update() {
    let t = trigger("alpha", 100);
    assert!(update_detected(&t, &Ok(info("alpha", 99))));
    assert!(!update_detected(&t, &Ok(info("alpha", 100))));
    assert!(!update_detected(&t, &Err(FetchError)));
}

#[test]
fn poll_leaves_resolved_and_fired_alone() {
    let t = trigger("alpha", 100);
    assert_eq!(poll(WaitState::Resolved, &t, &Ok(info("alpha", 5))), WaitState::Resolved);
    assert_eq!(poll(WaitState::Fired, &t, &Ok(info("alpha", 100))), WaitState::Fired);
    assert_eq!(begin_wait(WaitState::Fired), WaitState::Fired);
    assert_eq!(begin_wait(WaitState::Polling), WaitState::Polling);
}
