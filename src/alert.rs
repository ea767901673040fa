use vstd::prelude::*;

use crate::store::{Transition, TransitionView};
use crate::zone::{family_spec, is_threshold_spec, Family, Zone};

verus! {

/// Why an alert is raised.
#[derive(Clone, Copy, Debug, PartialEq, Eq, Structural)]
pub enum AlertKind {
    /// The source's family (charging, discharging, other) changed.
    ModeChange,
    /// The source entered a low, critical or high zone.
    Threshold,
}

/// How pressing an alert is.
#[derive(Clone, Copy, Debug, PartialEq, Eq, Structural)]
pub enum Urgency {
    Normal,
    Elevated,
    Urgent,
}

/// A notice for the user about one power source.
#[derive(Clone, Debug, PartialEq, Eq)]
pub struct Alert {
    pub source: String,
    pub kind: AlertKind,
    pub urgency: Urgency,
    pub body: String,
}

/// The mathematical value of an [`Alert`].
pub struct AlertView {
    pub source: Seq<char>,
    pub kind: AlertKind,
    pub urgency: Urgency,
    pub body: Seq<char>,
}

impl View for Alert {
    type V = AlertView;

    open spec fn view(&self) -> AlertView {
        AlertView { source: self.source@, kind: self.kind, urgency: self.urgency, body: self.body@ }
    }
}

/// The views of a sequence of alerts.
pub open spec fn alert_views(a: Seq<Alert>) -> Seq<AlertView> {
    a.map_values(|x: Alert| x@)
}

/// The kinds of alert that a change from `from` to `to` raises, in order: a
/// mode change where the family differs, then a threshold alert where `to`
/// is a low, critical or high zone. Both are raised where both hold.
pub open spec fn alert_kinds(from: Zone, to: Zone) -> Seq<AlertKind> {
    (if family_spec(from) != family_spec(to) {
        seq![AlertKind::ModeChange]
    } else {
        Seq::empty()
    }) + (if is_threshold_spec(to) {
        seq![AlertKind::Threshold]
    } else {
        Seq::empty()
    })
}

/// Mode changes are ordinary; a critical charge is urgent; low and high
/// charges are elevated.
pub open spec fn urgency_spec(kind: AlertKind, to: Zone) -> Urgency {
    match kind {
        AlertKind::ModeChange => Urgency::Normal,
        AlertKind::Threshold => if to == Zone::DischargingCritical {
            Urgency::Urgent
        } else {
            Urgency::Elevated
        },
    }
}

/// The end of an alert's text, after the source's name.
pub open spec fn phrase_spec(kind: AlertKind, to: Zone) -> Seq<char> {
    match kind {
        AlertKind::ModeChange => match family_spec(to) {
            Family::Discharging => " is discharging."@,
            Family::Charging => " is charging."@,
            Family::Other => " is neither charging nor discharging."@,
        },
        AlertKind::Threshold => match to {
            Zone::DischargingCritical => " is critically low."@,
            Zone::DischargingLow => " is too low."@,
            Zone::ChargingHigh => " is too full."@,
            _ => " changed state."@,
        },
    }
}

/// The text of an alert about `source`.
pub open spec fn body_spec(kind: AlertKind, to: Zone, source: Seq<char>) -> Seq<char> {
    "Battery "@ + source + phrase_spec(kind, to)
}

/// The alerts that a transition raises.
pub open spec fn alerts_spec(t: TransitionView) -> Seq<AlertView> {
    alert_kinds(t.from, t.to).map_values(|k: AlertKind| AlertView {
        source: t.source,
        kind: k,
        urgency: urgency_spec(k, t.to),
        body: body_spec(k, t.to, t.source),
    })
}

fn phrase(kind: AlertKind, to: Zone) -> (s: &'static str)
    ensures
        s@ == phrase_spec(kind, to),
{
    match kind {
        AlertKind::ModeChange => match to.family() {
            Family::Discharging => " is discharging.",
            Family::Charging => " is charging.",
            Family::Other => " is neither charging nor discharging.",
        },
        AlertKind::Threshold => match to {
            Zone::DischargingCritical => " is critically low.",
            Zone::DischargingLow => " is too low.",
            Zone::ChargingHigh => " is too full.",
            _ => " changed state.",
        },
    }
}

/// Builds one alert of the given kind about transition `t`.
pub fn make_alert(t: &Transition, kind: AlertKind) -> (a: Alert)
    ensures
        a@ == (AlertView {
            source: t.source@,
            kind: kind,
            urgency: urgency_spec(kind, t.to),
            body: body_spec(kind, t.to, t.source@),
        }),
{
    let urgency = match kind {
        AlertKind::ModeChange => Urgency::Normal,
        AlertKind::Threshold => if t.to == Zone::DischargingCritical {
            Urgency::Urgent
        } else {
            Urgency::Elevated
        },
    };
    let mut body = String::from_str("Battery ");
    body.append(t.source.as_str());
    body.append(phrase(kind, t.to));
    Alert { source: t.source.clone(), kind, urgency, body }
}

/// The alerts for a transition: a mode-change alert where the family
/// changes, then a threshold alert where the new zone is low, critical or
/// high.
pub fn alerts_for(t: &Transition) -> (r: Vec<Alert>)
    ensures
        alert_views(r@) == alerts_spec(t@),
{
    let mut r: Vec<Alert> = Vec::new();
    if t.from.family() != t.to.family() {
        r.push(make_alert(t, AlertKind::ModeChange));
    }
    if t.to.is_threshold() {
        r.push(make_alert(t, AlertKind::Threshold));
    }
    assert(alert_views(r@) =~= alerts_spec(t@));
    r
}

} // verus!
