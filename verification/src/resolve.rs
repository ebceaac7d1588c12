//! From parsed entries to triggers: the reference probe and the resolver.
//!
//! The lookup service reports, for a region, when it last updated. Two
//! reference regions tell whether the global update pass is under way; each
//! entry's own region gives the baseline that the wait compares against.

use crate::precursor::TriggerPrecursor;
use crate::precursor::TriggerSpec;
use vstd::prelude::*;

verus! {

/// The reference region at the start of the update pass.
pub const MAJOR_REFERENCE: &'static str = "banana";

/// The reference region near the end of the update pass.
pub const MINOR_REFERENCE: &'static str = "warzone trinidad";

/// What the lookup service reports for one region.
#[derive(Debug)]
pub struct UpdateInfo {
    /// The region's identifier as the service spells it.
    pub id: String,
    /// When the region last updated.
    pub lastupdate: i32,
}

/// The mathematical value of an `UpdateInfo`.
pub struct UpdateReport {
    pub id: Seq<char>,
    pub lastupdate: i32,
}

impl View for UpdateInfo {
    type V = UpdateReport;

    open spec fn view(&self) -> UpdateReport {
        UpdateReport { id: self.id@, lastupdate: self.lastupdate }
    }
}

impl DeepView for UpdateInfo {
    type V = UpdateReport;

    open spec fn deep_view(&self) -> UpdateReport {
        self@
    }
}

/// A lookup that gave no answer.
#[derive(Clone, Copy, Debug)]
pub struct FetchError;

/// The timestamp that a lookup reported, if it reported one.
pub open spec fn reported(fetched: Result<UpdateInfo, FetchError>) -> Option<i32> {
    match fetched {
        Ok(info) => Some(info.lastupdate),
        Err(_) => None,
    }
}

/// A region that is waited on, with the timestamp it had when it was
/// resolved.
#[derive(Debug)]
pub struct Trigger {
    /// Canonical name of the region to watch.
    pub region: String,
    /// The region that follows this one, if the entry names it.
    pub target: Option<String>,
    /// The region's timestamp at resolution time: the baseline of the wait.
    pub lastupdate: i32,
    /// Whether a notification is sent when the region's update is detected.
    pub updated_ping: bool,
    /// Whether a notification is sent when the wait on this region begins.
    pub waiting_ping: bool,
    /// Free text shown in notifications.
    pub comment: Option<String>,
}

/// The mathematical value of a `Trigger`.
pub struct TriggerView {
    pub region: Seq<char>,
    pub target: Option<Seq<char>>,
    pub lastupdate: i32,
    pub updated_ping: bool,
    pub waiting_ping: bool,
    pub comment: Option<Seq<char>>,
}

impl View for Trigger {
    type V = TriggerView;

    open spec fn view(&self) -> TriggerView {
        TriggerView {
            region: self.region@,
            target: self.target.deep_view(),
            lastupdate: self.lastupdate,
            updated_ping: self.updated_ping,
            waiting_ping: self.waiting_ping,
            comment: self.comment.deep_view(),
        }
    }
}

impl DeepView for Trigger {
    type V = TriggerView;

    open spec fn deep_view(&self) -> TriggerView {
        self@
    }
}

/// The trigger that an entry becomes when its region reports `lastupdate`.
pub open spec fn trigger_of(entry: TriggerSpec, lastupdate: i32) -> TriggerView {
    TriggerView {
        region: entry.region,
        target: entry.target,
        lastupdate,
        updated_ping: entry.updated_ping,
        waiting_ping: entry.waiting_ping,
        comment: entry.comment,
    }
}

/// Whether the update pass is under way: the major reference region has
/// updated more recently than the minor one.
pub open spec fn pass_is_active(major_lastupdate: i32, minor_lastupdate: i32) -> bool {
    major_lastupdate > minor_lastupdate
}

/// Whether a region with timestamp `lastupdate` has already updated in the
/// pass that is under way.
pub open spec fn already_updated(cycle_active: bool, major_lastupdate: i32, lastupdate: i32) -> bool {
    cycle_active && lastupdate > major_lastupdate
}

/// What became of one entry at resolution.
#[derive(Debug)]
pub enum Resolution {
    /// The region answered and is still to update: it will be waited on.
    Resolved(Trigger),
    /// The region has already updated in this pass: the entry is dropped.
    AlreadyUpdated,
    /// The lookup failed: the entry is dropped.
    Unavailable,
}

/// The mathematical value of a `Resolution`.
pub enum ResolutionView {
    Resolved(TriggerView),
    AlreadyUpdated,
    Unavailable,
}

impl View for Resolution {
    type V = ResolutionView;

    open spec fn view(&self) -> ResolutionView {
        match self {
            Resolution::Resolved(trigger) => ResolutionView::Resolved(trigger@),
            Resolution::AlreadyUpdated => ResolutionView::AlreadyUpdated,
            Resolution::Unavailable => ResolutionView::Unavailable,
        }
    }
}

/// What becomes of `entry` when the lookup of its region reports `answer`.
pub open spec fn resolution(
    entry: TriggerSpec,
    answer: Option<i32>,
    cycle_active: bool,
    major_lastupdate: i32,
) -> ResolutionView {
    match answer {
        None => ResolutionView::Unavailable,
        Some(lastupdate) => if already_updated(cycle_active, major_lastupdate, lastupdate) {
            ResolutionView::AlreadyUpdated
        } else {
            ResolutionView::Resolved(trigger_of(entry, lastupdate))
        },
    }
}

/// Infers from the timestamps of the two reference regions whether the
/// update pass is under way.
pub fn cycle_is_active(major_lastupdate: i32, minor_lastupdate: i32) -> (active: bool)
    ensures
        active == pass_is_active(major_lastupdate, minor_lastupdate),
{
    major_lastupdate > minor_lastupdate
}

/// Resolves one entry against the answer of the lookup of its region.
///
/// A failed lookup and a region that has already updated in the pass under
/// way both drop the entry; otherwise the entry becomes a trigger whose
/// baseline is the reported timestamp.
pub fn resolve(
    entry: TriggerPrecursor,
    fetched: &Result<UpdateInfo, FetchError>,
    cycle_active: bool,
    major_lastupdate: i32,
) -> (outcome: Resolution)
    ensures
        outcome@ == resolution(entry@, reported(*fetched), cycle_active, major_lastupdate),
        outcome is Resolved <==> (fetched matches Ok(info) && !already_updated(
            cycle_active,
            major_lastupdate,
            info.lastupdate,
        )),
        outcome is AlreadyUpdated <==> (fetched matches Ok(info) && cycle_active && info.lastupdate
            > major_lastupdate),
        outcome is Unavailable <==> fetched is Err,
        outcome matches Resolution::Resolved(trigger) ==> trigger.lastupdate == reported(
            *fetched,
        )->0,
{
    match fetched {
        Err(_) => Resolution::Unavailable,
        Ok(info) => {
            if cycle_active && info.lastupdate > major_lastupdate {
                Resolution::AlreadyUpdated
            } else {
                Resolution::Resolved(
                    Trigger {
                        region: entry.region,
                        target: entry.target,
                        lastupdate: info.lastupdate,
                        updated_ping: entry.updated_ping,
                        waiting_ping: entry.waiting_ping,
                        comment: entry.comment,
                    },
                )
            }
        },
    }
}

} // verus!
