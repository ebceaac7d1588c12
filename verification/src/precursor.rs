//! Entries of the input file, as they are read from its lines.
//!
//! A `TriggerPrecursor` is one parsed entry: a region to watch, the region
//! that follows it, the two notification switches and a comment. Two line
//! formats produce them. What a line means is stated over the groups that the
//! format's pattern captures in it (`pattern::named_groups`).

use crate::pattern::capture_named;
use crate::pattern::named_groups;
use crate::text::canonical;
use crate::text::canonicalize;
use crate::text::chars_of;
use crate::text::clone_text;
use crate::text::contains_char;
use vstd::prelude::*;
use vstd::string::StringExecFns;

verus! {

/// The pattern of a raid-file line: `region=<name>`, anything, and an opening
/// parenthesis followed by the timing text.
pub const RAIDFILE_PATTERN: &'static str = "region=(?<region>[\\w_ ]*).*\\((?<timing>[0-9:sm]*)";

/// The pattern of a trigger-list line: a region token; then, after anything
/// but `@` and `#`, optionally `@` and a target token; then, after anything
/// but `#`, optionally `#` and a comment token.
pub const TRIGLIST_PATTERN: &'static str =
    "(?<trigger>[\\w _]+)[^@#]*(?:@(?<target>[\\w _]+))?[^#]*(?:#(?<comment>[\\w _]+))?";

/// The groups that `RAIDFILE_PATTERN` names, in the order they are read.
pub open spec fn raidfile_names() -> Seq<Seq<char>> {
    seq!["region"@, "timing"@]
}

/// The groups that `TRIGLIST_PATTERN` names, in the order they are read.
pub open spec fn triglist_names() -> Seq<Seq<char>> {
    seq!["trigger"@, "target"@, "comment"@]
}

/// The mathematical value of a `TriggerPrecursor`.
pub struct TriggerSpec {
    pub region: Seq<char>,
    pub target: Option<Seq<char>>,
    pub updated_ping: bool,
    pub waiting_ping: bool,
    pub comment: Option<Seq<char>>,
}

/// Whether `region` can name a region to watch: it is not empty and holds
/// none of the control markers `!`, `$` and `#`.
pub open spec fn usable_region(region: Seq<char>) -> bool {
    &&& region.len() > 0
    &&& !region.contains('!')
    &&& !region.contains('$')
    &&& !region.contains('#')
}

impl TriggerSpec {
    /// The invariant of every parsed entry.
    pub open spec fn well_formed(self) -> bool {
        usable_region(self.region)
    }
}

/// One entry of the input file, before its region has been looked up.
#[derive(Debug)]
pub struct TriggerPrecursor {
    /// Canonical name of the region to watch.
    pub region: String,
    /// The region that follows this one, if the entry names it.
    pub target: Option<String>,
    /// Whether a notification is sent when the region's update is detected.
    pub updated_ping: bool,
    /// Whether a notification is sent when the wait on this region begins.
    pub waiting_ping: bool,
    /// Free text shown in notifications.
    pub comment: Option<String>,
}

impl View for TriggerPrecursor {
    type V = TriggerSpec;

    open spec fn view(&self) -> TriggerSpec {
        TriggerSpec {
            region: self.region@,
            target: self.target.deep_view(),
            updated_ping: self.updated_ping,
            waiting_ping: self.waiting_ping,
            comment: self.comment.deep_view(),
        }
    }
}

impl DeepView for TriggerPrecursor {
    type V = TriggerSpec;

    open spec fn deep_view(&self) -> TriggerSpec {
        self@
    }
}

impl Clone for TriggerPrecursor {
    fn clone(&self) -> (copy: Self)
        ensures
            copy@ == self@,
    {
        TriggerPrecursor {
            region: self.region.clone(),
            target: clone_text(&self.target),
            updated_ping: self.updated_ping,
            waiting_ping: self.waiting_ping,
            comment: clone_text(&self.comment),
        }
    }
}

/// What `TRIGLIST_PATTERN` captures in one line.
#[derive(Debug)]
pub struct TriggerListCaptures {
    /// The region token.
    pub trigger: String,
    /// The token after `@`, where the line has one.
    pub target: Option<String>,
    /// The token after `#`, where the line has one.
    pub comment: Option<String>,
}

/// The mathematical value of a `TriggerListCaptures`.
pub struct TriggerListGroups {
    pub trigger: Seq<char>,
    pub target: Option<Seq<char>>,
    pub comment: Option<Seq<char>>,
}

impl View for TriggerListCaptures {
    type V = TriggerListGroups;

    open spec fn view(&self) -> TriggerListGroups {
        TriggerListGroups {
            trigger: self.trigger@,
            target: self.target.deep_view(),
            comment: self.comment.deep_view(),
        }
    }
}

impl DeepView for TriggerListCaptures {
    type V = TriggerListGroups;

    open spec fn deep_view(&self) -> TriggerListGroups {
        self@
    }
}

/// What `RAIDFILE_PATTERN` captures in one line.
#[derive(Debug)]
pub struct RaidfileCaptures {
    /// The text after `region=`.
    pub region: String,
    /// The timing text after the opening parenthesis.
    pub timing: String,
}

/// The mathematical value of a `RaidfileCaptures`.
pub struct RaidfileGroups {
    pub region: Seq<char>,
    pub timing: Seq<char>,
}

impl View for RaidfileCaptures {
    type V = RaidfileGroups;

    open spec fn view(&self) -> RaidfileGroups {
        RaidfileGroups { region: self.region@, timing: self.timing@ }
    }
}

impl DeepView for RaidfileCaptures {
    type V = RaidfileGroups;

    open spec fn deep_view(&self) -> RaidfileGroups {
        self@
    }
}

/// The groups of a trigger-list line: present where the pattern matches the
/// line and its region group took part in the match.
pub open spec fn triglist_groups(line: Seq<char>) -> Option<TriggerListGroups> {
    match named_groups(TRIGLIST_PATTERN@, triglist_names(), line) {
        Some(groups) => if groups.len() == 3 && groups[0] is Some {
            Some(
                TriggerListGroups {
                    trigger: groups[0]->0,
                    target: groups[1],
                    comment: groups[2],
                },
            )
        } else {
            None
        },
        None => None,
    }
}

/// The groups of a raid-file line: present where the pattern matches the line
/// and both of its groups took part in the match.
pub open spec fn raidfile_groups(line: Seq<char>) -> Option<RaidfileGroups> {
    match named_groups(RAIDFILE_PATTERN@, raidfile_names(), line) {
        Some(groups) => if groups.len() == 2 && groups[0] is Some && groups[1] is Some {
            Some(RaidfileGroups { region: groups[0]->0, timing: groups[1]->0 })
        } else {
            None
        },
        None => None,
    }
}

/// The comment of a trigger-list entry that names a target.
pub open spec fn next_target_note(target: Seq<char>) -> Seq<char> {
    "Next Target, "@ + target + "! "@
}

/// The comment of a raid-file trigger entry: the pending target's region and,
/// in parentheses, its timing text.
pub open spec fn pending_target_note(region: Seq<char>, timing: Seq<char>) -> Seq<char> {
    "Next target, "@ + region + "! ("@ + timing + ")"@
}

/// The entry that a trigger-list line stands for, given what the pattern
/// captured in it.
///
/// The region is the canonical form of the region token; a line whose token
/// canonicalizes to nothing usable stands for no entry. The two switches are
/// read off the whole line, wherever the markers stand. A target replaces the
/// comment by a note that names it.
pub open spec fn triggerlist_outcome(line: Seq<char>, groups: TriggerListGroups) -> Option<
    TriggerSpec,
> {
    let region = canonical(groups.trigger);
    if usable_region(region) {
        Some(
            TriggerSpec {
                region,
                target: groups.target,
                updated_ping: line.contains('!'),
                waiting_ping: line.contains('$'),
                comment: match groups.target {
                    Some(target) => Some(next_target_note(target)),
                    None => groups.comment,
                },
            },
        )
    } else {
        None
    }
}

/// The entry that a raid-file line stands for, given what the pattern
/// captured in it and the target entry that it follows, if any.
///
/// Without a target the line is a target page: no switch is set and the
/// comment is the timing text. With one, the entry waits for that target: it
/// names the target's region, sets the waiting switch and carries a note
/// built from the target's region and comment. A target without a comment
/// gives no entry.
pub open spec fn raidfile_outcome(groups: RaidfileGroups, target: Option<TriggerSpec>) -> Option<
    TriggerSpec,
> {
    let region = canonical(groups.region);
    if !usable_region(region) {
        None
    } else {
        match target {
            None => Some(
                TriggerSpec {
                    region,
                    target: None,
                    updated_ping: false,
                    waiting_ping: false,
                    comment: Some(groups.timing),
                },
            ),
            Some(pending) => match pending.comment {
                Some(timing) => Some(
                    TriggerSpec {
                        region,
                        target: Some(pending.region),
                        updated_ping: false,
                        waiting_ping: true,
                        comment: Some(pending_target_note(pending.region, timing)),
                    },
                ),
                None => None,
            },
        }
    }
}

/// The entry that a trigger-list line stands for.
pub open spec fn triggerlist_entry(line: Seq<char>) -> Option<TriggerSpec> {
    match triglist_groups(line) {
        Some(groups) => triggerlist_outcome(line, groups),
        None => None,
    }
}

/// The entry that a raid-file line stands for after the target entry `target`.
pub open spec fn raidfile_entry(line: Seq<char>, target: Option<TriggerSpec>) -> Option<
    TriggerSpec,
> {
    match raidfile_groups(line) {
        Some(groups) => raidfile_outcome(groups, target),
        None => None,
    }
}

/// Whether `region` can name a region to watch.
pub fn is_usable_region(region: &str) -> (usable: bool)
    ensures
        usable == usable_region(region@),
{
    let chars = chars_of(region);
    chars.len() > 0 && !contains_char(&chars, '!') && !contains_char(&chars, '$') && !contains_char(
        &chars,
        '#',
    )
}

/// Matches `TRIGLIST_PATTERN` against `line` and returns what it captured.
pub fn triggerlist_captures(line: &str) -> (captures: Option<TriggerListCaptures>)
    ensures
        captures.deep_view() == triglist_groups(line@),
{
    let names: [&str; 3] = ["trigger", "target", "comment"];
    let wanted: &[&str] = names.as_slice();
    let found = capture_named(TRIGLIST_PATTERN, wanted, line);
    assert(wanted.deep_view() =~= triglist_names());
    match found {
        Some(mut groups) => {
            let ghost all = groups.deep_view();
            assert(all == named_groups(TRIGLIST_PATTERN@, triglist_names(), line@)->0);
            let comment = groups.pop().unwrap();
            let target = groups.pop().unwrap();
            let trigger = groups.pop().unwrap();
            assert(comment.deep_view() == all[2]);
            assert(target.deep_view() == all[1]);
            assert(trigger.deep_view() == all[0]);
            match trigger {
                Some(trigger) => Some(TriggerListCaptures { trigger, target, comment }),
                None => None,
            }
        },
        None => None,
    }
}

/// Matches `RAIDFILE_PATTERN` against `line` and returns what it captured.
pub fn raidfile_captures(line: &str) -> (captures: Option<RaidfileCaptures>)
    ensures
        captures.deep_view() == raidfile_groups(line@),
{
    let names: [&str; 2] = ["region", "timing"];
    let wanted: &[&str] = names.as_slice();
    let found = capture_named(RAIDFILE_PATTERN, wanted, line);
    assert(wanted.deep_view() =~= raidfile_names());
    match found {
        Some(mut groups) => {
            let ghost all = groups.deep_view();
            assert(all == named_groups(RAIDFILE_PATTERN@, raidfile_names(), line@)->0);
            let timing = groups.pop().unwrap();
            let region = groups.pop().unwrap();
            assert(timing.deep_view() == all[1]);
            assert(region.deep_view() == all[0]);
            match (region, timing) {
                (Some(region), Some(timing)) => Some(RaidfileCaptures { region, timing }),
                _ => None,
            }
        },
        None => None,
    }
}

impl TriggerPrecursor {
    /// Builds the entry of a trigger-list line from what the pattern captured
    /// in it.
    ///
    /// `line` is consulted for the control markers only: `!` anywhere in it
    /// sets `updated_ping`, `$` anywhere in it sets `waiting_ping`.
    pub fn from_triggerlist_captures(line: &String, captures: &TriggerListCaptures) -> (entry:
        Option<TriggerPrecursor>)
        ensures
            entry.deep_view() == triggerlist_outcome(line@, captures@),
            entry is Some <==> usable_region(canonical(captures.trigger@)),
            entry matches Some(e) ==> {
                &&& e@.well_formed()
                &&& e.updated_ping == line@.contains('!')
                &&& e.waiting_ping == line@.contains('$')
            },
    {
        let region = canonicalize(captures.trigger.as_str());
        if !is_usable_region(region.as_str()) {
            return None;
        }
        let chars = chars_of(line.as_str());
        let comment = match &captures.target {
            Some(target) => {
                let mut note = String::from_str("Next Target, ");
                note.append(target.as_str());
                note.append("! ");
                Some(note)
            },
            None => clone_text(&captures.comment),
        };
        Some(
            TriggerPrecursor {
                region,
                target: clone_text(&captures.target),
                updated_ping: contains_char(&chars, '!'),
                waiting_ping: contains_char(&chars, '$'),
                comment,
            },
        )
    }

    /// Builds the entry of a raid-file line from what the pattern captured in
    /// it and the target entry that the line follows, if any.
    pub fn from_raidfile_captures(
        captures: &RaidfileCaptures,
        target: Option<TriggerPrecursor>,
    ) -> (entry: Option<TriggerPrecursor>)
        ensures
            entry.deep_view() == raidfile_outcome(captures@, target.deep_view()),
            entry is Some <==> usable_region(canonical(captures.region@)) && (target matches Some(
                pending,
            ) ==> pending.comment is Some),
            entry matches Some(e) ==> {
                &&& e@.well_formed()
                &&& !e.updated_ping
                &&& e.waiting_ping == target.is_some()
                &&& e.comment is Some
            },
    {
        let region = canonicalize(captures.region.as_str());
        if !is_usable_region(region.as_str()) {
            return None;
        }
        match target {
            None => Some(
                TriggerPrecursor {
                    region,
                    target: None,
                    updated_ping: false,
                    waiting_ping: false,
                    comment: Some(captures.timing.clone()),
                },
            ),
            Some(pending) => match pending.comment {
                Some(timing) => {
                    let mut note = String::from_str("Next target, ");
                    note.append(pending.region.as_str());
                    note.append("! (");
                    note.append(timing.as_str());
                    note.append(")");
                    Some(
                        TriggerPrecursor {
                            region,
                            target: Some(pending.region),
                            updated_ping: false,
                            waiting_ping: true,
                            comment: Some(note),
                        },
                    )
                },
                None => None,
            },
        }
    }

    /// Parses one line of a raid file. `target` is the target entry that the
    /// line follows; pass `None` for a target page.
    ///
    /// Returns `None` where the line does not have the shape
    /// `region=<name> ... (<timing>`, where its region is not usable, or
    /// where `target` carries no comment.
    pub fn from_raidfile(raidfile_line: &String, target: Option<TriggerPrecursor>) -> (entry:
        Option<TriggerPrecursor>)
        ensures
            entry.deep_view() == raidfile_entry(raidfile_line@, target.deep_view()),
            entry matches Some(e) ==> {
                &&& e@.well_formed()
                &&& !e.updated_ping
                &&& e.waiting_ping == target.is_some()
                &&& e.comment is Some
            },
    {
        match raidfile_captures(raidfile_line.as_str()) {
            Some(captures) => TriggerPrecursor::from_raidfile_captures(&captures, target),
            None => None,
        }
    }

    /// Parses one line of a trigger list.
    ///
    /// Returns `None` where the line holds no region token or the token is
    /// not usable as a region name.
    pub fn from_triggerlist(triggerlist_line: &String) -> (entry: Option<TriggerPrecursor>)
        ensures
            entry.deep_view() == triggerlist_entry(triggerlist_line@),
            entry matches Some(e) ==> {
                &&& e@.well_formed()
                &&& e.updated_ping == triggerlist_line@.contains('!')
                &&& e.waiting_ping == triggerlist_line@.contains('$')
            },
    {
        match triggerlist_captures(triggerlist_line.as_str()) {
            Some(captures) => TriggerPrecursor::from_triggerlist_captures(
                triggerlist_line,
                &captures,
            ),
            None => None,
        }
    }
}

/// Parsing a trigger-list line is repeatable: two parses of the same line
/// give structurally equal entries, or both give none.
pub proof fn lemma_triggerlist_parse_is_repeatable(
    line: Seq<char>,
    first: Option<TriggerSpec>,
    second: Option<TriggerSpec>,
)
    requires
        first == triggerlist_entry(line),
        second == triggerlist_entry(line),
    ensures
        first == second,
{
}

} // verus!
