//! What is said when a wait begins and when an update is detected.
//!
//! The notifier decides whether a phase of a trigger calls for a
//! notification and builds its payload. It sends nothing and retries
//! nothing: the payload is handed to whoever owns the destination.

use crate::clock::decimal;
use crate::clock::decimal_text;
use crate::resolve::Trigger;
use crate::resolve::TriggerView;
use vstd::prelude::*;
use vstd::string::StringExecFns;

verus! {

/// `text` in upper case, by the case mapping of Unicode.
pub uninterp spec fn uppercased(text: Seq<char>) -> Seq<char>;

/// `str::to_uppercase` returns the upper-case equivalent of the string. The
/// mapping is a table of the Unicode database, so the result is named
/// rather than spelled out.
pub assume_specification[ str::to_uppercase ](s: &str) -> (upper: String)
    ensures
        upper@ == uppercased(s@),
;

/// The two moments at which a trigger can cause a notification.
#[derive(Clone, Copy, Debug, PartialEq, Eq)]
pub enum Phase {
    /// The wait on the trigger begins.
    Waiting,
    /// The trigger's update has been detected.
    Updated,
}

/// The colour of every notification.
pub const EMBED_COLOR: u32 = 16711680;

/// One named line of text below a notification's description.
#[derive(Debug)]
pub struct PayloadField {
    pub name: String,
    pub value: String,
}

/// The mathematical value of a `PayloadField`.
pub struct FieldView {
    pub name: Seq<char>,
    pub value: Seq<char>,
}

impl View for PayloadField {
    type V = FieldView;

    open spec fn view(&self) -> FieldView {
        FieldView { name: self.name@, value: self.value@ }
    }
}

impl DeepView for PayloadField {
    type V = FieldView;

    open spec fn deep_view(&self) -> FieldView {
        self@
    }
}

/// What a notification shows.
#[derive(Debug)]
pub struct Payload {
    pub title: String,
    pub url: String,
    pub description: Option<String>,
    pub color: u32,
    pub field: Option<PayloadField>,
    pub image_url: Option<String>,
    pub footer: String,
}

/// The mathematical value of a `Payload`.
pub struct PayloadView {
    pub title: Seq<char>,
    pub url: Seq<char>,
    pub description: Option<Seq<char>>,
    pub color: u32,
    pub field: Option<FieldView>,
    pub image_url: Option<Seq<char>>,
    pub footer: Seq<char>,
}

impl View for Payload {
    type V = PayloadView;

    open spec fn view(&self) -> PayloadView {
        PayloadView {
            title: self.title@,
            url: self.url@,
            description: self.description.deep_view(),
            color: self.color,
            field: self.field.deep_view(),
            image_url: self.image_url.deep_view(),
            footer: self.footer@,
        }
    }
}

impl DeepView for Payload {
    type V = PayloadView;

    open spec fn deep_view(&self) -> PayloadView {
        self@
    }
}

/// The page of a region.
pub open spec fn region_link(region: Seq<char>) -> Seq<char> {
    "https://nationstates.net/region="@ + region
}

/// The line that announces a wait.
pub open spec fn waiting_title(target: Seq<char>, region: Seq<char>) -> Seq<char> {
    "Wait for "@ + target + " (Trigger "@ + region + ")"@
}

/// The line that announces an update: the region and the trigger's comment
/// where it has one that is not empty; otherwise a generic line that names
/// the region in upper case, `shout`.
pub open spec fn update_message(region: Seq<char>, comment: Option<Seq<char>>, shout: Seq<char>) -> Seq<
    char,
> {
    match comment {
        Some(text) => if text.len() > 0 {
            region + " - "@ + text
        } else {
            "UPDATE DETECTED IN "@ + shout
        },
        None => "UPDATE DETECTED IN "@ + shout,
    }
}

/// The line shown locally when a trigger has fired: the time and the update
/// message.
pub open spec fn fired_line(timestring: Seq<char>, message: Seq<char>) -> Seq<char> {
    timestring + " "@ + message
}

/// Whether a phase of `trigger` calls for a notification. Nothing is sent
/// without a destination (`enabled`); a wait is announced only for a trigger
/// that asks for it and names a target; an update only for a trigger that
/// asks for it.
pub open spec fn calls_for_notice(phase: Phase, enabled: bool, trigger: TriggerView) -> bool {
    enabled && match phase {
        Phase::Waiting => trigger.waiting_ping && trigger.target is Some,
        Phase::Updated => trigger.updated_ping,
    }
}

/// The payload of the notification that a wait begins.
pub open spec fn waiting_payload(trigger: TriggerView, timestring: Seq<char>) -> PayloadView
    recommends
        trigger.target is Some,
{
    PayloadView {
        title: waiting_title(trigger.target->0, trigger.region),
        url: region_link(trigger.target->0),
        description: None,
        color: EMBED_COLOR,
        field: None,
        image_url: None,
        footer: timestring,
    }
}

/// The payload of the notification that an update was detected.
pub open spec fn updated_payload(trigger: TriggerView, timestring: Seq<char>) -> PayloadView {
    PayloadView {
        title: update_message(trigger.region, trigger.comment, uppercased(trigger.region)),
        url: region_link(trigger.region),
        description: None,
        color: EMBED_COLOR,
        field: None,
        image_url: None,
        footer: timestring,
    }
}

/// The notification of a phase of `trigger`, if the phase calls for one.
pub open spec fn notice(phase: Phase, enabled: bool, trigger: TriggerView, timestring: Seq<char>) -> Option<
    PayloadView,
> {
    if calls_for_notice(phase, enabled, trigger) {
        Some(
            match phase {
                Phase::Waiting => waiting_payload(trigger, timestring),
                Phase::Updated => updated_payload(trigger, timestring),
            },
        )
    } else {
        None
    }
}

/// The address of a region's page.
pub fn region_url(region: &str) -> (url: String)
    ensures
        url@ == region_link(region@),
{
    let mut url = String::from_str("https://nationstates.net/region=");
    url.append(region);
    url
}

/// Builds the update message from the trigger's region and comment and the
/// region's name in upper case.
pub fn update_message_with(region: &str, comment: &Option<String>, shout: &str) -> (message: String)
    ensures
        message@ == update_message(region@, comment.deep_view(), shout@),
{
    match comment {
        Some(text) if !text.as_str().is_empty() => {
            let mut message = String::from_str(region);
            message.append(" - ");
            message.append(text.as_str());
            message
        },
        _ => {
            let mut message = String::from_str("UPDATE DETECTED IN ");
            message.append(shout);
            message
        },
    }
}

/// The line that announces the update of `trigger`'s region.
pub fn update_message_of(trigger: &Trigger) -> (message: String)
    ensures
        message@ == update_message(trigger@.region, trigger@.comment, uppercased(trigger@.region)),
{
    let shout = trigger.region.as_str().to_uppercase();
    update_message_with(trigger.region.as_str(), &trigger.comment, shout.as_str())
}

/// The line shown locally when a trigger has fired.
pub fn fired_message(timestring: &str, message: &str) -> (line: String)
    ensures
        line@ == fired_line(timestring@, message@),
{
    let mut line = String::from_str(timestring);
    line.append(" ");
    line.append(message);
    line
}

/// Decides whether a phase of `trigger` calls for a notification and, if
/// so, builds its payload. `enabled` says whether a destination is
/// configured; `timestring` is the time shown in the payload.
pub fn notification(phase: Phase, enabled: bool, trigger: &Trigger, timestring: &str) -> (payload:
    Option<Payload>)
    ensures
        payload.deep_view() == notice(phase, enabled, trigger@, timestring@),
        payload is Some <==> calls_for_notice(phase, enabled, trigger@),
{
    if !enabled {
        return None;
    }
    match phase {
        Phase::Waiting => {
            if !trigger.waiting_ping {
                return None;
            }
            match &trigger.target {
                Some(target) => {
                    let mut title = String::from_str("Wait for ");
                    title.append(target.as_str());
                    title.append(" (Trigger ");
                    title.append(trigger.region.as_str());
                    title.append(")");
                    Some(
                        Payload {
                            title,
                            url: region_url(target.as_str()),
                            description: None,
                            color: EMBED_COLOR,
                            field: None,
                            image_url: None,
                            footer: String::from_str(timestring),
                        },
                    )
                },
                None => None,
            }
        },
        Phase::Updated => {
            if !trigger.updated_ping {
                return None;
            }
            Some(
                Payload {
                    title: update_message_of(trigger),
                    url: region_url(trigger.region.as_str()),
                    description: None,
                    color: EMBED_COLOR,
                    field: None,
                    image_url: None,
                    footer: String::from_str(timestring),
                },
            )
        },
    }
}

/// The payload that announces a run: the program's version, the operator's
/// nation and the poll interval.
pub open spec fn running_payload(version: Seq<char>, main_nation: Seq<char>, poll_ms: nat) -> PayloadView {
    PayloadView {
        title: "`zoomies` time, miaou miaou!"@,
        url: "https://www.youtube.com/watch?v=ImXqPF7iqDU"@,
        description: Some(
            "`zoomies` v"@ + version + "\n"@ + main_nation + " is going "@ + decimal_text(poll_ms)
                + "miaou/ms!"@,
        ),
        color: EMBED_COLOR,
        field: Some(
            FieldView {
                name: "First time on the `zoomies`?"@,
                value: "**[Check out your raid leader, and trust NyationStates links from meow and on!](https://nationstates.net/"@
                    + main_nation + ")**"@,
            },
        ),
        image_url: Some("https://github.com/Vleerian/Zoomies/blob/main/assets/Cat.png?raw=true"@),
        footer: "miaou miaou!"@,
    }
}

/// Builds the payload that announces a run.
pub fn running_notification(version: &str, main_nation: &str, poll_ms: u64) -> (payload: Payload)
    ensures
        payload@ == running_payload(version@, main_nation@, poll_ms as nat),
{
    let mut description = String::from_str("`zoomies` v");
    description.append(version);
    description.append("\n");
    description.append(main_nation);
    description.append(" is going ");
    description.append(decimal(poll_ms).as_str());
    description.append("miaou/ms!");
    let mut value = String::from_str(
        "**[Check out your raid leader, and trust NyationStates links from meow and on!](https://nationstates.net/",
    );
    value.append(main_nation);
    value.append(")**");
    Payload {
        title: String::from_str("`zoomies` time, miaou miaou!"),
        url: String::from_str("https://www.youtube.com/watch?v=ImXqPF7iqDU"),
        description: Some(description),
        color: EMBED_COLOR,
        field: Some(PayloadField { name: String::from_str("First time on the `zoomies`?"), value }),
        image_url: Some(
            String::from_str("https://github.com/Vleerian/Zoomies/blob/main/assets/Cat.png?raw=true"),
        ),
        footer: String::from_str("miaou miaou!"),
    }
}

} // verus!
