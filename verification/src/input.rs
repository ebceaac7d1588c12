//! Whole input files: format detection and the walk over the lines.
//!
//! A file is handed over as its lines. Blank lines are passed over. A raid
//! file pairs target pages with the trigger pages that follow them, so its
//! walk carries the most recent target entry along; a trigger list has no
//! such state.

use crate::precursor::raidfile_entry;
use crate::precursor::raidfile_groups;
use crate::precursor::triggerlist_entry;
use crate::precursor::triglist_groups;
use crate::precursor::usable_region;
use crate::precursor::TriggerPrecursor;
use crate::precursor::TriggerSpec;
use crate::text::canonical;
use crate::text::contains_text;
use crate::text::has_substring;
use crate::text::is_white_space;
use crate::text::lemma_blank_trims_to_nothing;
use crate::text::lemma_trimming_keeps_marks;
use crate::text::trim;
use crate::text::trimmed;
use vstd::prelude::*;

verus! {

/// The two input formats.
#[derive(Clone, Copy, Debug)]
pub enum Format {
    /// Target pages and trigger pages, two lines to an entry.
    RaidFile,
    /// One entry per line.
    TriggerList,
}

/// Whether a line carries the page-number marker `1)` of a raid file.
pub open spec fn has_page_marker(line: Seq<char>) -> bool {
    has_substring(line, "1)"@)
}

/// Whether a raid-file line is a trigger page. The other lines are target
/// pages.
pub open spec fn is_trigger_page(line: Seq<char>) -> bool {
    has_substring(line, "template-"@)
}

/// The first line of `lines` that is not blank, trimmed.
pub open spec fn first_entry_line(lines: Seq<Seq<char>>) -> Option<Seq<char>>
    decreases lines.len(),
{
    if lines.len() == 0 {
        None
    } else if trimmed(lines.first()).len() > 0 {
        Some(trimmed(lines.first()))
    } else {
        first_entry_line(lines.drop_first())
    }
}

/// The format of a file: a raid file where its first non-blank line carries
/// the page-number marker, a trigger list otherwise.
pub open spec fn detected_format(lines: Seq<Seq<char>>) -> Format {
    match first_entry_line(lines) {
        Some(line) => if has_page_marker(line) {
            Format::RaidFile
        } else {
            Format::TriggerList
        },
        None => Format::TriggerList,
    }
}

/// Where the walk over a file stands: the target entry that trigger pages
/// refer to, and the entries read so far.
pub struct ParseState {
    pub pending: Option<TriggerSpec>,
    pub entries: Seq<TriggerSpec>,
}

/// The state before the first line.
pub open spec fn initial_state() -> ParseState {
    ParseState { pending: None, entries: Seq::empty() }
}

/// The state after one more line.
///
/// A blank line and a line that stands for no entry leave the state as it
/// is. In a raid file a target page is read on its own and becomes the
/// pending target; a trigger page is read against the pending target, which
/// stays in place.
pub open spec fn parse_step(format: Format, state: ParseState, raw_line: Seq<char>) -> ParseState {
    let line = trimmed(raw_line);
    if line.len() == 0 {
        state
    } else {
        match format {
            Format::TriggerList => match triggerlist_entry(line) {
                Some(entry) => ParseState {
                    pending: state.pending,
                    entries: state.entries.push(entry),
                },
                None => state,
            },
            Format::RaidFile => if is_trigger_page(line) {
                match raidfile_entry(line, state.pending) {
                    Some(entry) => ParseState {
                        pending: state.pending,
                        entries: state.entries.push(entry),
                    },
                    None => state,
                }
            } else {
                match raidfile_entry(line, None) {
                    Some(entry) => ParseState {
                        pending: Some(entry),
                        entries: state.entries.push(entry),
                    },
                    None => state,
                }
            },
        }
    }
}

/// The state after all of `lines`, read from `start`.
pub open spec fn parse_from(format: Format, start: ParseState, lines: Seq<Seq<char>>) -> ParseState
    decreases lines.len(),
{
    if lines.len() == 0 {
        start
    } else {
        parse_step(format, parse_from(format, start, lines.drop_last()), lines.last())
    }
}

/// The entries of a file of the given format, in file order.
pub open spec fn parsed_lines(format: Format, lines: Seq<Seq<char>>) -> Seq<TriggerSpec> {
    parse_from(format, initial_state(), lines).entries
}

/// The entries of a file whose format is detected from its first non-blank
/// line.
pub open spec fn parsed_file(lines: Seq<Seq<char>>) -> Seq<TriggerSpec> {
    parsed_lines(detected_format(lines), lines)
}

/// Decides the format of a file from its first non-blank line.
pub fn detect_format(lines: &Vec<String>) -> (format: Format)
    ensures
        format == detected_format(lines.deep_view()),
{
    let ghost all = lines.deep_view();
    let mut i: usize = 0;
    assert(all.subrange(0, all.len() as int) =~= all);
    while i < lines.len()
        invariant
            i <= lines.len(),
            all == lines.deep_view(),
            first_entry_line(all) == first_entry_line(all.subrange(i as int, all.len() as int)),
        decreases lines.len() - i,
    {
        let line = trim(lines[i].as_str());
        let ghost rest = all.subrange(i as int, all.len() as int);
        assert(rest.first() == lines[i as int]@);
        if !line.as_str().is_empty() {
            return if contains_text(line.as_str(), "1)") {
                Format::RaidFile
            } else {
                Format::TriggerList
            };
        }
        assert(rest.drop_first() =~= all.subrange(i + 1, all.len() as int));
        i += 1;
    }
    Format::TriggerList
}

/// A copy of the pending target entry.
fn clone_pending(pending: &Option<TriggerPrecursor>) -> (copy: Option<TriggerPrecursor>)
    ensures
        copy.deep_view() == pending.deep_view(),
{
    match pending {
        Some(entry) => Some(entry.clone()),
        None => None,
    }
}

/// Whether every entry of `entries` meets the invariant of parsed entries.
pub open spec fn all_well_formed(entries: Seq<TriggerSpec>) -> bool {
    forall|i: int| 0 <= i < entries.len() ==> (#[trigger] entries[i]).well_formed()
}

/// What reading a file gave: its entries, in file order, and the positions
/// of the lines that were passed over with a warning.
#[derive(Debug)]
pub struct ParsedFile {
    pub entries: Vec<TriggerPrecursor>,
    /// Positions in the file, counted from zero, of the lines that are not
    /// blank and stand for no entry.
    pub rejected: Vec<usize>,
}

/// The positions of `lines` as mathematical integers.
pub open spec fn positions(lines: Seq<usize>) -> Seq<int> {
    lines.map_values(|position: usize| position as int)
}

impl TriggerPrecursor {
    /// Reads a file of the given format from its lines.
    ///
    /// Blank lines are passed over in silence. A line that stands for no
    /// entry is passed over and its position reported, so that the caller
    /// can warn of it; reading goes on with the next line.
    pub fn read_lines(format: Format, lines: &Vec<String>) -> (parsed: ParsedFile)
        ensures
            parsed.entries.deep_view() == parsed_lines(format, lines.deep_view()),
            positions(parsed.rejected@) == rejected_positions(format, lines.deep_view()),
            all_well_formed(parsed.entries.deep_view()),
            parsed.entries.len() + parsed.rejected.len() <= lines.len(),
    {
        let ghost all = lines.deep_view();
        let mut entries: Vec<TriggerPrecursor> = Vec::new();
        let mut rejected: Vec<usize> = Vec::new();
        let mut pending: Option<TriggerPrecursor> = None;
        let mut i: usize = 0;
        assert(entries.deep_view() =~= initial_state().entries);
        assert(positions(rejected@) =~= rejected_positions(format, all.take(0)));
        while i < lines.len()
            invariant
                i <= lines.len(),
                all == lines.deep_view(),
                entries.len() + rejected.len() <= i,
                all_well_formed(entries.deep_view()),
                pending matches Some(target) ==> target.comment is Some,
                parse_from(format, initial_state(), all.take(i as int)) == (ParseState {
                    pending: pending.deep_view(),
                    entries: entries.deep_view(),
                }),
                positions(rejected@) == rejected_positions(format, all.take(i as int)),
            decreases lines.len() - i,
        {
            let ghost before = entries.deep_view();
            let ghost passed = positions(rejected@);
            let ghost seen = all.take(i + 1);
            assert(seen.drop_last() =~= all.take(i as int));
            assert(seen.last() == lines[i as int]@);
            let line = trim(lines[i].as_str());
            let position = i;
            i += 1;
            if line.as_str().is_empty() {
                continue ;
            }
            let outcome = match format {
                Format::TriggerList => TriggerPrecursor::from_triggerlist(&line),
                Format::RaidFile => {
                    if contains_text(line.as_str(), "template-") {
                        TriggerPrecursor::from_raidfile(&line, clone_pending(&pending))
                    } else {
                        let target = TriggerPrecursor::from_raidfile(&line, None);
                        if let Some(entry) = &target {
                            pending = Some(entry.clone());
                        }
                        target
                    }
                },
            };
            match outcome {
                Some(entry) => {
                    entries.push(entry);
                    assert(entries.deep_view() =~= before.push(entry@));
                },
                None => {
                    rejected.push(position);
                    assert(positions(rejected@) =~= passed.push(position as int));
                },
            }
        }
        assert(all.take(lines.len() as int) =~= all);
        ParsedFile { entries, rejected }
    }

    /// Reads the entries of a file of the given format from its lines.
    ///
    /// Blank lines and lines that stand for no entry are passed over; the
    /// entries come out in file order.
    pub fn from_lines(format: Format, lines: &Vec<String>) -> (entries: Vec<TriggerPrecursor>)
        ensures
            entries.deep_view() == parsed_lines(format, lines.deep_view()),
            all_well_formed(entries.deep_view()),
            entries.len() <= lines.len(),
    {
        TriggerPrecursor::read_lines(format, lines).entries
    }

    /// Reads the entries of an input file from its lines, in the format that
    /// the first non-blank line announces.
    ///
    /// Always returns `Some`: a file without lines, or with blank lines
    /// only, has no entries.
    pub fn from_file(lines: &Vec<String>) -> (entries: Option<Vec<TriggerPrecursor>>)
        ensures
            entries is Some,
            entries->0.deep_view() == parsed_file(lines.deep_view()),
            all_well_formed(entries->0.deep_view()),
            entries->0.len() <= lines.len(),
    {
        let format = detect_format(lines);
        Some(TriggerPrecursor::from_lines(format, lines))
    }
}

/// Whether a line is malformed for `format`: blank, or without a region
/// token that the format's pattern recognises and that is usable as a region
/// name.
pub open spec fn is_malformed(format: Format, raw_line: Seq<char>) -> bool {
    let line = trimmed(raw_line);
    ||| line.len() == 0
    ||| match format {
        Format::TriggerList => match triglist_groups(line) {
            Some(groups) => !usable_region(canonical(groups.trigger)),
            None => true,
        },
        Format::RaidFile => match raidfile_groups(line) {
            Some(groups) => !usable_region(canonical(groups.region)),
            None => true,
        },
    }
}

/// Whether a line is passed over with a warning: it is not blank and it is
/// malformed.
pub open spec fn is_rejected(format: Format, raw_line: Seq<char>) -> bool {
    trimmed(raw_line).len() > 0 && is_malformed(format, raw_line)
}

/// The positions, counted from zero and ascending, of the lines of a file
/// that are passed over with a warning.
pub open spec fn rejected_positions(format: Format, lines: Seq<Seq<char>>) -> Seq<int>
    decreases lines.len(),
{
    if lines.len() == 0 {
        Seq::empty()
    } else {
        let earlier = rejected_positions(format, lines.drop_last());
        if is_rejected(format, lines.last()) {
            earlier.push(lines.len() - 1)
        } else {
            earlier
        }
    }
}

/// Reading one line after `lines` is one step from the state after `lines`.
pub proof fn lemma_parse_from_push(
    format: Format,
    start: ParseState,
    lines: Seq<Seq<char>>,
    line: Seq<char>,
)
    ensures
        parse_from(format, start, lines.push(line)) == parse_step(
            format,
            parse_from(format, start, lines),
            line,
        ),
{
    assert(lines.push(line).drop_last() =~= lines);
}

/// Reading `front` and then `back` is reading `back` from the state that
/// `front` leaves.
pub proof fn lemma_parse_from_concat(
    format: Format,
    start: ParseState,
    front: Seq<Seq<char>>,
    back: Seq<Seq<char>>,
)
    ensures
        parse_from(format, start, front + back) == parse_from(
            format,
            parse_from(format, start, front),
            back,
        ),
    decreases back.len(),
{
    if back.len() == 0 {
        assert(front + back =~= front);
    } else {
        lemma_parse_from_concat(format, start, front, back.drop_last());
        assert((front + back).drop_last() =~= front + back.drop_last());
        assert((front + back).last() == back.last());
    }
}

/// A malformed line is skipped and does not disturb the lines around it: the
/// walk over a file ends in the same state with the line and without it.
pub proof fn lemma_malformed_line_is_skipped(
    format: Format,
    start: ParseState,
    before: Seq<Seq<char>>,
    malformed: Seq<char>,
    after: Seq<Seq<char>>,
)
    requires
        is_malformed(format, malformed),
    ensures
        parse_from(format, start, before + seq![malformed] + after) == parse_from(
            format,
            start,
            before + after,
        ),
        parse_step(format, parse_from(format, start, before), malformed) == parse_from(
            format,
            start,
            before,
        ),
{
    let reached = parse_from(format, start, before);
    assert(parse_step(format, reached, malformed) == reached);
    lemma_parse_from_push(format, start, before, malformed);
    assert(before + seq![malformed] =~= before.push(malformed));
    lemma_parse_from_concat(format, start, before + seq![malformed], after);
    lemma_parse_from_concat(format, start, before, after);
}

/// In a raid file the pending target carries forward: after a target page
/// that gives the entry `target`, every entry read from the trigger pages
/// that follow names `target`'s region as its target and has its waiting
/// switch set, however many such pages follow; `target` stays pending.
pub proof fn lemma_pending_target_carries_forward(
    start: ParseState,
    target_line: Seq<char>,
    followers: Seq<Seq<char>>,
)
    requires
        trimmed(target_line).len() > 0,
        !is_trigger_page(trimmed(target_line)),
        raidfile_entry(trimmed(target_line), None) is Some,
        forall|i: int| 0 <= i < followers.len() ==> is_trigger_page(trimmed(#[trigger] followers[i])),
    ensures
        ({
            let target = raidfile_entry(trimmed(target_line), None)->0;
            let listed = start.entries.push(target);
            let end = parse_from(Format::RaidFile, start, seq![target_line] + followers);
            &&& end.pending == Some(target)
            &&& listed.len() <= end.entries.len() <= listed.len() + followers.len()
            &&& end.entries.subrange(0, listed.len() as int) == listed
            &&& forall|k: int|
                listed.len() <= k < end.entries.len() ==> {
                    &&& (#[trigger] end.entries[k]).target == Some(target.region)
                    &&& end.entries[k].waiting_ping
                }
            &&& (forall|i: int| 0 <= i < followers.len() ==> !is_malformed(Format::RaidFile, #[trigger] followers[i]))
                ==> end.entries.len() == listed.len() + followers.len()
        }),
    decreases followers.len(),
{
    let target = raidfile_entry(trimmed(target_line), None)->0;
    let listed = start.entries.push(target);
    let lines = seq![target_line] + followers;
    let end = parse_from(Format::RaidFile, start, lines);
    if followers.len() == 0 {
        assert(lines =~= Seq::<Seq<char>>::empty().push(target_line));
        lemma_parse_from_push(Format::RaidFile, start, Seq::empty(), target_line);
        assert(end.entries.subrange(0, listed.len() as int) =~= listed);
    } else {
        let earlier = followers.drop_last();
        let line = followers.last();
        lemma_pending_target_carries_forward(start, target_line, earlier);
        assert(lines.drop_last() =~= seq![target_line] + earlier);
        assert(lines.last() == line);
        let reached = parse_from(Format::RaidFile, start, seq![target_line] + earlier);
        assert(end == parse_step(Format::RaidFile, reached, line));
        assert(is_trigger_page(trimmed(followers[followers.len() - 1])));
        assert(end.entries.subrange(0, listed.len() as int) =~= listed);
        if forall|i: int| 0 <= i < followers.len() ==> !is_malformed(Format::RaidFile, #[trigger] followers[i]) {
            assert(!is_malformed(Format::RaidFile, followers[followers.len() - 1]));
            assert forall|i: int| 0 <= i < earlier.len() implies !is_malformed(
                Format::RaidFile,
                #[trigger] earlier[i],
            ) by {
                assert(earlier[i] == followers[i]);
            }
        }
    }
}

/// The number of lines of a file that are not blank.
pub open spec fn entry_line_count(lines: Seq<Seq<char>>) -> nat
    decreases lines.len(),
{
    if lines.len() == 0 {
        0
    } else {
        entry_line_count(lines.drop_last()) + if trimmed(lines.last()).len() > 0 {
            1nat
        } else {
            0nat
        }
    }
}

/// Entries come out in file order: what a file's first lines gave stays at
/// the front of what the whole file gives.
pub proof fn lemma_entries_keep_file_order(
    format: Format,
    start: ParseState,
    front: Seq<Seq<char>>,
    back: Seq<Seq<char>>,
)
    ensures
        parse_from(format, start, front).entries.is_prefix_of(
            parse_from(format, start, front + back).entries,
        ),
    decreases back.len(),
{
    if back.len() == 0 {
        assert(front + back =~= front);
    } else {
        lemma_entries_keep_file_order(format, start, front, back.drop_last());
        assert((front + back).drop_last() =~= front + back.drop_last());
    }
}

/// No line is lost: every line of a file that is not blank either gives
/// exactly one entry or is reported as rejected. The pending target of a
/// raid file always carries a comment.
pub proof fn lemma_every_line_is_accounted_for(format: Format, lines: Seq<Seq<char>>)
    ensures
        parsed_lines(format, lines).len() + rejected_positions(format, lines).len()
            == entry_line_count(lines),
        parse_from(format, initial_state(), lines).pending matches Some(target)
            ==> target.comment is Some,
    decreases lines.len(),
{
    if lines.len() > 0 {
        lemma_every_line_is_accounted_for(format, lines.drop_last());
    }
}

/// A line of white space only, the empty line among them, is malformed in
/// either format and is passed over without a warning.
pub proof fn lemma_blank_line_is_skipped(format: Format, state: ParseState, line: Seq<char>)
    requires
        forall|i: int| 0 <= i < line.len() ==> is_white_space(#[trigger] line[i]),
    ensures
        is_malformed(format, line),
        !is_rejected(format, line),
        parse_step(format, state, line) == state,
{
    lemma_blank_trims_to_nothing(line);
}

/// The control markers are looked for in the whole line as it stands in
/// the file, independent of what the pattern captures: an entry read from a
/// trigger-list line has `updated_ping` set exactly if the untrimmed line
/// holds a `!`, and `waiting_ping` exactly if it holds a `$`.
pub proof fn lemma_markers_are_read_from_the_whole_line(state: ParseState, raw_line: Seq<char>)
    requires
        !is_malformed(Format::TriggerList, raw_line),
    ensures
        ({
            let next = parse_step(Format::TriggerList, state, raw_line);
            &&& next.entries.len() == state.entries.len() + 1
            &&& next.entries.last().updated_ping == raw_line.contains('!')
            &&& next.entries.last().waiting_ping == raw_line.contains('$')
            &&& next.entries.last().well_formed()
        }),
{
    lemma_trimming_keeps_marks(raw_line, '!');
    lemma_trimming_keeps_marks(raw_line, '$');
}

} // verus!
