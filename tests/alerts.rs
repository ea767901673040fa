use battery_watch::alert::{alerts_for, make_alert, Alert, AlertKind, Urgency};
use battery_watch::store::Transition;
use battery_watch::zone::Zone;

fn transition(from: Zone, to: Zone) -> Transition {
    Transition { source: String::from("BAT0"), from, to }
}

fn alert(kind: AlertKind, urgency: Urgency, body: &str) -> Alert {
    Alert { source: String::from("BAT0"), kind, urgency, body: String::from(body) }
}

#[test]
fn start_discharging_is_a_mode_change() {
    assert_eq!(
        alerts_for(&transition(Zone::Other, Zone::DischargingNormal)),
        vec![alert(AlertKind::ModeChange, Urgency::Normal, "Battery BAT0 is discharging.")]
    );
}

#[test]
fn start_charging_is_a_mode_change() {
    assert_eq!(
        alerts_for(&transition(Zone::DischargingCritical, Zone::ChargingNormal)),
        vec![alert(AlertKind::ModeChange, Urgency::Normal, "Battery BAT0 is charging.")]
    );
}

#[test]
fn low_within_discharging_is_a_threshold_alert() {
    assert_eq!(
        alerts_for(&transition(Zone::DischargingNormal, Zone::DischargingLow)),
        vec![alert(AlertKind::Threshold, Urgency::Elevated, "Battery BAT0 is too low.")]
    );
}

#[test]
fn critical_is_urgent() {
    assert_eq!(
        alerts_for(&transition(Zone::DischargingLow, Zone::DischargingCritical)),
        vec![alert(AlertKind::Threshold, Urgency::Urgent, "Battery BAT0 is critically low.")]
    );
}

#[test]
fn high_is_elevated() {
    assert_eq!(
        alerts_for(&transition(Zone::ChargingNormal, Zone::ChargingHigh)),
        vec![alert(AlertKind::Threshold, Urgency::Elevated, "Battery BAT0 is too full.")]
    );
}

#[test]
fn mode_change_and_threshold_in_one_step_raise_both() {
    assert_eq!(
        alerts_for(&transition(Zone::Other, Zone::DischargingCritical)),
        vec![
            alert(AlertKind::ModeChange, Urgency::Normal, "Battery BAT0 is discharging."),
            alert(AlertKind::Threshold, Urgency::Urgent, "Battery BAT0 is critically low."),
        ]
    );
    assert_eq!(
        alerts_for(&transition(Zone::DischargingNormal, Zone::ChargingHigh)),
        vec![
            alert(AlertKind::ModeChange, Urgency::Normal, "Battery BAT0 is charging."),
            alert(AlertKind::Threshold, Urgency::Elevated, "Battery BAT0 is too full."),
        ]
    );
}

#[test]
fn collapse_to_other_is_one_mode_change() {
    for from in [
        Zone::DischargingNormal,
        Zone::DischargingLow,
        Zone::DischargingCritical,
        Zone::ChargingNormal,
        Zone::ChargingHigh,
    ] {
        assert_eq!(
            alerts_for(&transition(from, Zone::Other)),
            vec![alert(
                AlertKind::ModeChange,
                Urgency::Normal,
                "Battery BAT0 is neither charging nor discharging."
            )]
        );
    }
}

#[test]
fn back_to_normal_in_same_family_is_silent() {
    assert!(alerts_for(&transition(Zone::DischargingLow, Zone::DischargingNormal)).is_empty());
    assert!(alerts_for(&transition(Zone::ChargingHigh, Zone::ChargingNormal)).is_empty());
}

#[test]
fn alert_text_names_the_source() {
    let t = Transition { source: String::from("CMB1"), from: Zone::Other, to: Zone::ChargingNormal };
    let a = make_alert(&t, AlertKind::ModeChange);
    assert_eq!(a.body, "Battery CMB1 is charging.");
    assert_eq!(a.source, "CMB1");
}
