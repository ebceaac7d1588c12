use zoomies::notify::Phase;
use zoomies::precursor::TriggerPrecursor;
use zoomies::resolve::FetchError;
use zoomies::resolve::UpdateInfo;
use zoomies::watcher::Effect;
use zoomies::watcher::Stage;
use zoomies::watcher::Watcher;

fn ok(lastupdate: i32) -> Result<UpdateInfo, FetchError> {
    Ok(UpdateInfo { id: "x".to_string(), lastupdate })
}

fn entry(region: &str, target: Option<&str>, updated: bool, waiting: bool) -> TriggerPrecursor {
    TriggerPrecursor {
        region: region.to_string(),
        target: target.map(|s| s.to_string()),
        updated_ping: updated,
        waiting_ping: waiting,
        comment: None,
    }
}

fn kinds(effects: &[Effect]) -> Vec<String> {
    effects
        .iter()
        .map(|e| match e {
            Effect::Resolving { seconds } => format!("resolving {}", seconds),
            Effect::AlreadyUpdated { region } => format!("already {}", region),
            Effect::LookupFailed { region } => format!("lookup-failed {}", region),
            Effect::Sorted => "sorted".to_string(),
            Effect::Waiting { region } => format!("waiting {}", region),
            Effect::Notify { phase, region, payload } => {
                let name = if *phase == Phase::Waiting { "wait" } else { "update" };
                format!("notify {} {} [{}]", name, region, payload.title)
            }
            Effect::PollFailed => "poll-failed".to_string(),
            Effect::Alert => "alert".to_string(),
            Effect::Fired { line } => format!("fired {}", line),
            Effect::ProbeFailed { region } => format!("probe-failed {}", region),
        })
        .collect()
}

fn feed(watcher: Watcher, answer: Result<UpdateInfo, FetchError>) -> (Watcher, Vec<String>) {
    let (next, effects) = watcher.step(&answer, "01:02:03 PM");
    (next, kinds(&effects))
}

#[test]
fn run_asks_for_references_first() {
    let w = Watcher::new(vec![entry("alpha", None, false, false)], false, 650);
    assert_eq!(w.stage, Stage::ProbeMajor);
    assert_eq!(w.next_lookup(), Some("banana".to_string()));
    let (w, effects) = feed(w, ok(500));
    assert!(effects.is_empty());
    assert_eq!(w.stage, Stage::ProbeMinor);
    assert_eq!(w.major_lastupdate, 500);
    assert_eq!(w.next_lookup(), Some("warzone trinidad".to_string()));
    let (w, effects) = feed(w, ok(400));
    assert_eq!(effects, vec!["resolving 0"]);
    assert!(w.cycle_active);
    assert_eq!(w.stage, Stage::Resolving);
    assert_eq!(w.next_lookup(), Some("alpha".to_string()));
}

#[test]
fn failed_reference_probe_ends_the_run() {
    let w = Watcher::new(vec![entry("alpha", None, false, false)], false, 650);
    let (w, effects) = feed(w, Err(FetchError));
    assert_eq!(effects, vec!["probe-failed banana"]);
    assert_eq!(w.stage, Stage::Failed);
    assert_eq!(w.next_lookup(), None);
    let (w, effects) = feed(w, ok(1));
    assert!(effects.is_empty());
    assert_eq!(w.stage, Stage::Failed);

    let w = Watcher::new(Vec::new(), false, 650);
    let (w, _) = feed(w, ok(1));
    let (w, effects) = feed(w, Err(FetchError));
    assert_eq!(effects, vec!["probe-failed warzone trinidad"]);
    assert_eq!(w.stage, Stage::Failed);
}

#[test]
fn run_without_entries_finishes_after_probing() {
    let w = Watcher::new(Vec::new(), true, 1000);
    let (w, _) = feed(w, ok(1));
    let (w, effects) = feed(w, ok(2));
    assert_eq!(effects, vec!["resolving 0", "sorted"]);
    assert!(!w.cycle_active);
    assert_eq!(w.stage, Stage::Finished);
    assert_eq!(w.next_lookup(), None);
}

#[test]
fn full_run_resolves_sorts_waits_and_fires() {
    let entries = vec![
        entry("late", None, true, false),
        entry("gone", None, false, false),
        entry("early", Some("prize"), false, true),
        entry("lost", None, false, false),
        entry("tie", None, false, false),
    ];
    let w = Watcher::new(entries, true, 2000);
    let (w, _) = feed(w, ok(1000));
    let (w, effects) = feed(w, ok(900));
    assert_eq!(effects, vec!["resolving 10"]);
    assert!(w.cycle_active);

    assert_eq!(w.next_lookup(), Some("late".to_string()));
    let (w, effects) = feed(w, ok(800));
    assert!(effects.is_empty());
    assert_eq!(w.next_lookup(), Some("gone".to_string()));
    let (w, effects) = feed(w, ok(1001));
    assert_eq!(effects, vec!["already gone"]);
    assert_eq!(w.next_lookup(), Some("early".to_string()));
    let (w, effects) = feed(w, ok(700));
    assert!(effects.is_empty());
    assert_eq!(w.next_lookup(), Some("lost".to_string()));
    let (w, effects) = feed(w, Err(FetchError));
    assert_eq!(effects, vec!["lookup-failed lost"]);
    assert_eq!(w.stage, Stage::Resolving);
    assert_eq!(w.next_lookup(), Some("tie".to_string()));
    let (w, effects) = feed(w, ok(800));
    assert_eq!(
        effects,
        vec!["sorted", "waiting early", "notify wait early [Wait for prize (Trigger early)]"]
    );
    assert_eq!(w.stage, Stage::Polling);
    let order: Vec<(&str, i32)> =
        w.triggers.iter().map(|t| (t.region.as_str(), t.lastupdate)).collect();
    assert_eq!(order, vec![("early", 700), ("late", 800), ("tie", 800)]);

    assert_eq!(w.next_lookup(), Some("early".to_string()));
    let (w, effects) = feed(w, ok(700));
    assert!(effects.is_empty());
    let (w, effects) = feed(w, Err(FetchError));
    assert_eq!(effects, vec!["poll-failed"]);
    assert_eq!(w.current, 0);
    let (w, effects) = feed(w, ok(1002));
    assert_eq!(
        effects,
        vec!["alert", "fired 01:02:03 PM UPDATE DETECTED IN EARLY", "waiting late"]
    );
    assert_eq!(w.current, 1);

    assert_eq!(w.next_lookup(), Some("late".to_string()));
    let (w, effects) = feed(w, ok(1003));
    assert_eq!(
        effects,
        vec![
            "alert",
            "notify update late [UPDATE DETECTED IN LATE]",
            "fired 01:02:03 PM UPDATE DETECTED IN LATE",
            "waiting tie",
        ]
    );
    assert_eq!(w.next_lookup(), Some("tie".to_string()));
    let (w, effects) = feed(w, ok(1004));
    assert_eq!(effects, vec!["alert", "fired 01:02:03 PM UPDATE DETECTED IN TIE"]);
    assert_eq!(w.stage, Stage::Finished);
    assert_eq!(w.next_lookup(), None);
    let (w, effects) = feed(w, ok(1));
    assert!(effects.is_empty());
    assert_eq!(w.stage, Stage::Finished);
}

#[test]
fn nothing_is_sent_without_destination() {
    let entries = vec![entry("alpha", Some("beta"), true, true)];
    let w = Watcher::new(entries, false, 650);
    let (w, _) = feed(w, ok(10));
    let (w, _) = feed(w, ok(20));
    let (w, effects) = feed(w, ok(5));
    assert_eq!(effects, vec!["sorted", "waiting alpha"]);
    let (w, effects) = feed(w, ok(6));
    assert_eq!(effects, vec!["alert", "fired 01:02:03 PM UPDATE DETECTED IN ALPHA"]);
    assert_eq!(w.stage, Stage::Finished);
}

#[test]
fn run_where_every_entry_is_dropped_finishes() {
    let entries = vec![entry("alpha", None, false, false), entry("beta", None, false, false)];
    let w = Watcher::new(entries, true, 650);
    let (w, _) = feed(w, ok(100));
    let (w, _) = feed(w, ok(50));
    let (w, effects) = feed(w, ok(101));
    assert_eq!(effects, vec!["already alpha"]);
    let (w, effects) = feed(w, Err(FetchError));
    assert_eq!(effects, vec!["lookup-failed beta", "sorted"]);
    assert_eq!(w.stage, Stage::Finished);
    assert!(w.triggers.is_empty());
}

#[test]
fn position_past_the_list_moves_on() {
    let mut w = Watcher::new(Vec::new(), false, 650);
    w.stage = Stage::Polling;
    w.current = 3;
    assert_eq!(w.next_lookup(), None);
    let (w, effects) = feed(w, ok(1));
    assert!(effects.is_empty());
    assert_eq!(w.stage, Stage::Finished);
    assert_eq!(w.current, 0);

    let mut w = Watcher::new(Vec::new(), false, 650);
    w.stage = Stage::Resolving;
    w.cursor = 9;
    assert_eq!(w.next_lookup(), None);
    let (w, effects) = feed(w, ok(1));
    assert_eq!(effects, vec!["sorted"]);
    assert_eq!(w.stage, Stage::Finished);
}
