use zoomies::input::detect_format;
use zoomies::input::Format;
use zoomies::precursor::is_usable_region;
use zoomies::precursor::raidfile_captures;
use zoomies::precursor::triggerlist_captures;
use zoomies::precursor::RaidfileCaptures;
use zoomies::precursor::TriggerListCaptures;
use zoomies::precursor::TriggerPrecursor;

fn text(s: &str) -> String {
    s.to_string()
}

fn lines(items: &[&str]) -> Vec<String> {
    items.iter().map(|s| s.to_string()).collect()
}

fn target_page(region: &str, timing: &str) -> TriggerPrecursor {
    TriggerPrecursor {
        region: text(region),
        target: None,
        updated_ping: false,
        waiting_ping: false,
        comment: Some(text(timing)),
    }
}

#[test]
fn triggerlist_plain_region() {
    let entry = TriggerPrecursor::from_triggerlist(&text("region_one")).unwrap();
    assert_eq!(entry.region, "region_one");
    assert_eq!(entry.target, None);
    assert!(!entry.updated_ping);
    assert!(!entry.waiting_ping);
    assert_eq!(entry.comment, None);
}

#[test]
fn triggerlist_region_is_canonicalized() {
    let entry = TriggerPrecursor::from_triggerlist(&text("The North Pacific")).unwrap();
    assert_eq!(entry.region, "the_north_pacific");
}

#[test]
fn triggerlist_updated_marker_anywhere() {
    let entry = TriggerPrecursor::from_triggerlist(&text("foo_region!")).unwrap();
    assert_eq!(entry.region, "foo_region");
    assert!(entry.updated_ping);
    assert!(!entry.waiting_ping);
}

#[test]
fn triggerlist_waiting_marker_and_comment() {
    let entry = TriggerPrecursor::from_triggerlist(&text("foo_region $ #note")).unwrap();
    assert_eq!(entry.region, "foo_region");
    assert!(entry.waiting_ping);
    assert!(!entry.updated_ping);
    assert_eq!(entry.target, None);
    assert_eq!(entry.comment, Some(text("note")));
}

#[test]
fn triggerlist_marker_before_region() {
    let entry = TriggerPrecursor::from_triggerlist(&text("!$foo")).unwrap();
    assert_eq!(entry.region, "foo");
    assert!(entry.updated_ping);
    assert!(entry.waiting_ping);
}

#[test]
fn triggerlist_target_overrides_comment() {
    let entry = TriggerPrecursor::from_triggerlist(&text("region one @target_two#hello")).unwrap();
    assert_eq!(entry.region, "region_one");
    assert_eq!(entry.target, Some(text("target_two")));
    assert_eq!(entry.comment, Some(text("Next Target, target_two! ")));
}

#[test]
fn triggerlist_target_without_comment_gets_note() {
    let entry = TriggerPrecursor::from_triggerlist(&text("alpha@beta")).unwrap();
    assert_eq!(entry.region, "alpha");
    assert_eq!(entry.target, Some(text("beta")));
    assert_eq!(entry.comment, Some(text("Next Target, beta! ")));
}

#[test]
fn triggerlist_captures_of_full_line() {
    let found = triggerlist_captures("region one @target two #hello there").unwrap();
    assert_eq!(found.trigger, "region one ");
    assert_eq!(found.target, Some(text("target two ")));
    assert_eq!(found.comment, Some(text("hello there")));
}

#[test]
fn triggerlist_target_after_marker() {
    let found = triggerlist_captures("foo! @bar").unwrap();
    assert_eq!(found.trigger, "foo");
    assert_eq!(found.target, Some(text("bar")));
    assert_eq!(found.comment, None);
    let entry = TriggerPrecursor::from_triggerlist(&text("foo! @bar")).unwrap();
    assert_eq!(entry.region, "foo");
    assert_eq!(entry.target, Some(text("bar")));
    assert!(entry.updated_ping);
    assert!(!entry.waiting_ping);
    assert_eq!(entry.comment, Some(text("Next Target, bar! ")));
}

#[test]
fn triggerlist_target_after_both_markers_and_before_comment() {
    let entry = TriggerPrecursor::from_triggerlist(&text("Foo Bar !$ @Baz#later")).unwrap();
    assert_eq!(entry.region, "foo_bar");
    assert_eq!(entry.target, Some(text("Baz")));
    assert!(entry.updated_ping);
    assert!(entry.waiting_ping);
    assert_eq!(entry.comment, Some(text("Next Target, Baz! ")));
}

#[test]
fn triggerlist_target_is_not_sought_behind_the_comment() {
    let found = triggerlist_captures("foo #note @bar").unwrap();
    assert_eq!(found.trigger, "foo ");
    assert_eq!(found.target, None);
    assert_eq!(found.comment, Some(text("note ")));
}

#[test]
fn triggerlist_at_sign_without_token_names_no_target() {
    let found = triggerlist_captures("foo @!bar #c").unwrap();
    assert_eq!(found.trigger, "foo ");
    assert_eq!(found.target, None);
    assert_eq!(found.comment, Some(text("c")));
}

#[test]
fn triggerlist_line_without_token_is_rejected() {
    assert!(TriggerPrecursor::from_triggerlist(&text("")).is_none());
    assert!(TriggerPrecursor::from_triggerlist(&text("!!!")).is_none());
    assert!(TriggerPrecursor::from_triggerlist(&text("@#$")).is_none());
    assert!(triggerlist_captures("!!!").is_none());
}

#[test]
fn triggerlist_blank_token_is_rejected() {
    assert!(triggerlist_captures("! !").is_some());
    assert!(TriggerPrecursor::from_triggerlist(&text("! !")).is_none());
}

#[test]
fn triggerlist_parse_twice_is_equal() {
    let line = text("Some Region @next #c!");
    let a = TriggerPrecursor::from_triggerlist(&line).unwrap();
    let b = TriggerPrecursor::from_triggerlist(&line).unwrap();
    assert_eq!(a.region, b.region);
    assert_eq!(a.target, b.target);
    assert_eq!(a.updated_ping, b.updated_ping);
    assert_eq!(a.waiting_ping, b.waiting_ping);
    assert_eq!(a.comment, b.comment);
}

#[test]
fn captures_outcome_uses_line_for_markers_only() {
    let captures = TriggerListCaptures { trigger: text("Foo Bar"), target: None, comment: None };
    let entry = TriggerPrecursor::from_triggerlist_captures(&text("$"), &captures).unwrap();
    assert_eq!(entry.region, "foo_bar");
    assert!(entry.waiting_ping);
    assert!(!entry.updated_ping);
}

#[test]
fn usable_region_rules() {
    assert!(is_usable_region("foo"));
    assert!(!is_usable_region(""));
    assert!(!is_usable_region("fo!o"));
    assert!(!is_usable_region("fo$o"));
    assert!(!is_usable_region("fo#o"));
}

#[test]
fn raidfile_captures_region_and_timing() {
    let found = raidfile_captures("1) https://www.nationstates.net/region=foo_bar (1:23:45)").unwrap();
    assert_eq!(found.region, "foo_bar ");
    assert_eq!(found.timing, "1:23:45");
}

#[test]
fn raidfile_line_without_shape_is_rejected() {
    assert!(raidfile_captures("no region here").is_none());
    assert!(raidfile_captures("region=foo without timing").is_none());
    assert!(TriggerPrecursor::from_raidfile(&text("region=foo without timing"), None).is_none());
}

#[test]
fn raidfile_empty_region_is_rejected() {
    assert!(raidfile_captures("region= (1m2s)").is_some());
    assert!(TriggerPrecursor::from_raidfile(&text("region= (1m2s)"), None).is_none());
}

#[test]
fn raidfile_target_page() {
    let entry = TriggerPrecursor::from_raidfile(
        &text("1) https://www.nationstates.net/region=Alpha_One (0:10:05)"),
        None,
    )
    .unwrap();
    assert_eq!(entry.region, "alpha_one");
    assert_eq!(entry.target, None);
    assert!(!entry.updated_ping);
    assert!(!entry.waiting_ping);
    assert_eq!(entry.comment, Some(text("0:10:05")));
}

#[test]
fn raidfile_trigger_page_takes_target() {
    let entry = TriggerPrecursor::from_raidfile(
        &text("a) https://www.nationstates.net/template-overall=none/region=trig (9m58s)"),
        Some(target_page("alpha", "10m5s")),
    )
    .unwrap();
    assert_eq!(entry.region, "trig");
    assert_eq!(entry.target, Some(text("alpha")));
    assert!(entry.waiting_ping);
    assert!(!entry.updated_ping);
    assert_eq!(entry.comment, Some(text("Next target, alpha! (10m5s)")));
}

#[test]
fn raidfile_target_without_comment_gives_nothing() {
    let mut pending = target_page("alpha", "x");
    pending.comment = None;
    assert!(TriggerPrecursor::from_raidfile(&text("region=trig (9m58s)"), Some(pending)).is_none());
}

#[test]
fn raidfile_captures_outcome() {
    let captures = RaidfileCaptures { region: text(" Foo Bar "), timing: text("1:00") };
    let entry = TriggerPrecursor::from_raidfile_captures(&captures, None).unwrap();
    assert_eq!(entry.region, "foo_bar");
    assert_eq!(entry.comment, Some(text("1:00")));
}

#[test]
fn format_is_read_from_first_nonblank_line() {
    assert!(matches!(detect_format(&lines(&["", "  ", "1) region=a (1s)"])), Format::RaidFile));
    assert!(matches!(detect_format(&lines(&["region_one", "1) region=a (1s)"])), Format::TriggerList));
    assert!(matches!(detect_format(&lines(&[])), Format::TriggerList));
    assert!(matches!(detect_format(&lines(&["", "\t"])), Format::TriggerList));
}

#[test]
fn file_without_lines_has_no_entries() {
    assert_eq!(TriggerPrecursor::from_file(&lines(&[])).map(|entries| entries.len()), Some(0));
    let parsed = TriggerPrecursor::read_lines(Format::TriggerList, &lines(&[]));
    assert!(parsed.entries.is_empty());
    assert!(parsed.rejected.is_empty());
}

#[test]
fn file_of_blank_lines_has_no_entries() {
    let blank = lines(&["", "   ", "\t"]);
    assert_eq!(TriggerPrecursor::from_file(&blank).map(|entries| entries.len()), Some(0));
    assert!(TriggerPrecursor::read_lines(Format::RaidFile, &blank).rejected.is_empty());
}

#[test]
fn triggerlist_file_skips_malformed_lines() {
    let entries = TriggerPrecursor::from_file(&lines(&[
        "region_one",
        "",
        "   ",
        "!!!",
        "  Region Two! ",
        "#",
        "region_three $",
    ]))
    .unwrap();
    let regions: Vec<&str> = entries.iter().map(|e| e.region.as_str()).collect();
    assert_eq!(regions, vec!["region_one", "region_two", "region_three"]);
    assert!(entries[1].updated_ping);
    assert!(entries[2].waiting_ping);
}

#[test]
fn raidfile_pending_target_carries_forward() {
    let entries = TriggerPrecursor::from_file(&lines(&[
        "1) https://www.nationstates.net/region=region_a (0:10:00)",
        "    a) https://www.nationstates.net/template-overall=none/region=trig_one (0:09:54)",
        "    b) https://www.nationstates.net/template-overall=none/region=trig_two (0:09:50)",
    ]))
    .unwrap();
    assert_eq!(entries.len(), 3);
    assert_eq!(entries[0].region, "region_a");
    assert_eq!(entries[0].target, None);
    assert!(!entries[0].waiting_ping);
    assert_eq!(entries[0].comment, Some(text("0:10:00")));
    for entry in &entries[1..] {
        assert_eq!(entry.target, Some(text("region_a")));
        assert!(entry.waiting_ping);
        assert_eq!(entry.comment, Some(text("Next target, region_a! (0:10:00)")));
    }
    assert_eq!(entries[1].region, "trig_one");
    assert_eq!(entries[2].region, "trig_two");
}

#[test]
fn raidfile_next_target_replaces_pending() {
    let entries = TriggerPrecursor::from_file(&lines(&[
        "1) region=first (1m0s)",
        "template-x region=t1 (58s)",
        "broken line",
        "2) region=second (2m0s)",
        "template-x region=t2 (1m58s)",
    ]))
    .unwrap();
    assert_eq!(entries.len(), 4);
    assert_eq!(entries[1].target, Some(text("first")));
    assert_eq!(entries[2].region, "second");
    assert_eq!(entries[2].target, None);
    assert!(!entries[2].waiting_ping);
    assert_eq!(entries[3].target, Some(text("second")));
    assert_eq!(entries[3].comment, Some(text("Next target, second! (2m0s)")));
}

#[test]
fn raidfile_trigger_page_before_any_target() {
    let entries = TriggerPrecursor::from_lines(
        Format::RaidFile,
        &lines(&["template-x region=t1 (58s)"]),
    );
    assert_eq!(entries.len(), 1);
    assert_eq!(entries[0].target, None);
    assert!(!entries[0].waiting_ping);
    assert_eq!(entries[0].comment, Some(text("58s")));
}

#[test]
fn rejected_lines_are_reported_by_position() {
    let parsed = TriggerPrecursor::read_lines(
        Format::TriggerList,
        &lines(&["region_one", "", "!!!", "  ", "two", "@", "! !"]),
    );
    assert_eq!(parsed.rejected, vec![2, 5, 6]);
    let regions: Vec<&str> = parsed.entries.iter().map(|e| e.region.as_str()).collect();
    assert_eq!(regions, vec!["region_one", "two"]);
}

#[test]
fn rejected_raidfile_lines_are_reported_by_position() {
    let parsed = TriggerPrecursor::read_lines(
        Format::RaidFile,
        &lines(&["1) region=first (1m0s)", "nonsense", "", "template-x region= (58s)", "template-x region=t (5s)"]),
    );
    assert_eq!(parsed.rejected, vec![1, 3]);
    assert_eq!(parsed.entries.len(), 2);
    assert_eq!(parsed.entries[1].target, Some(text("first")));
}
