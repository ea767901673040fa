use battery_watch::alert::{Alert, AlertKind, Urgency};
use battery_watch::event::{parse_mode, parse_percent, reading_of, DeviceEvent};
use battery_watch::monitor::Monitor;
use battery_watch::zone::{Mode, Reading, Zone};

fn reading(source: &str, mode: Mode, percent: u8) -> Reading {
    Reading { source: String::from(source), percent, mode }
}

fn battery_event(name: &str, status: &str, capacity: &str) -> DeviceEvent {
    DeviceEvent {
        device_type: Some(String::from("Battery")),
        name: Some(String::from(name)),
        status: Some(String::from(status)),
        capacity: Some(String::from(capacity)),
    }
}

fn kinds(alerts: &[Alert]) -> Vec<AlertKind> {
    alerts.iter().map(|a| a.kind).collect()
}

#[test]
fn percent_parsing() {
    assert_eq!(parse_percent("0"), Some(0));
    assert_eq!(parse_percent("42"), Some(42));
    assert_eq!(parse_percent("100"), Some(100));
    assert_eq!(parse_percent("007"), Some(7));
    assert_eq!(parse_percent("101"), None);
    assert_eq!(parse_percent("255"), None);
    assert_eq!(parse_percent("99999999999"), None);
    assert_eq!(parse_percent(""), None);
    assert_eq!(parse_percent("4a"), None);
    assert_eq!(parse_percent("-5"), None);
    assert_eq!(parse_percent(" 5"), None);
}

#[test]
fn mode_parsing() {
    assert_eq!(parse_mode(&String::from("Charging")), Mode::Charging);
    assert_eq!(parse_mode(&String::from("Discharging")), Mode::Discharging);
    assert_eq!(parse_mode(&String::from("Full")), Mode::Other);
    assert_eq!(parse_mode(&String::from("Not charging")), Mode::Other);
    assert_eq!(parse_mode(&String::from("charging")), Mode::Other);
}

#[test]
fn battery_event_gives_reading() {
    assert_eq!(
        reading_of(&battery_event("BAT0", "Discharging", "25")),
        Some(reading("BAT0", Mode::Discharging, 25))
    );
    assert_eq!(
        reading_of(&battery_event("BAT1", "Unknown", "60")),
        Some(reading("BAT1", Mode::Other, 60))
    );
}

#[test]
fn other_devices_and_malformed_events_give_nothing() {
    let mut mains = battery_event("AC", "Charging", "50");
    mains.device_type = Some(String::from("Mains"));
    assert_eq!(reading_of(&mains), None);
    let mut untyped = battery_event("BAT0", "Charging", "50");
    untyped.device_type = None;
    assert_eq!(reading_of(&untyped), None);
    let mut no_capacity = battery_event("BAT0", "Charging", "50");
    no_capacity.capacity = None;
    assert_eq!(reading_of(&no_capacity), None);
    let mut no_status = battery_event("BAT0", "Charging", "50");
    no_status.status = None;
    assert_eq!(reading_of(&no_status), None);
    let mut no_name = battery_event("BAT0", "Charging", "50");
    no_name.name = None;
    assert_eq!(reading_of(&no_name), None);
    assert_eq!(reading_of(&battery_event("BAT0", "Charging", "abc")), None);
    assert_eq!(reading_of(&battery_event("BAT0", "Charging", "150")), None);
}

#[test]
fn malformed_event_leaves_zone_unchanged() {
    let mut m = Monitor::new();
    assert_eq!(kinds(&m.handle_event(&battery_event("BAT0", "Discharging", "20"))), vec![
        AlertKind::ModeChange,
        AlertKind::Threshold
    ]);
    assert!(m.handle_event(&battery_event("BAT0", "Discharging", "oops")).is_empty());
    assert_eq!(m.store().zone_for(&String::from("BAT0")), Zone::DischargingLow);
}

#[test]
fn scenario_alerts() {
    let mut m = Monitor::new();
    let rs = vec![
        reading("BAT0", Mode::Discharging, 50),
        reading("BAT0", Mode::Discharging, 25),
        reading("BAT0", Mode::Discharging, 9),
        reading("BAT0", Mode::Charging, 50),
        reading("BAT0", Mode::Charging, 85),
        reading("BAT0", Mode::Charging, 85),
    ];
    let alerts = m.handle_readings(&rs);
    let got: Vec<(AlertKind, Urgency, String)> =
        alerts.iter().map(|a| (a.kind, a.urgency, a.body.clone())).collect();
    assert_eq!(
        got,
        vec![
            (AlertKind::ModeChange, Urgency::Normal, String::from("Battery BAT0 is discharging.")),
            (AlertKind::Threshold, Urgency::Elevated, String::from("Battery BAT0 is too low.")),
            (AlertKind::Threshold, Urgency::Urgent, String::from("Battery BAT0 is critically low.")),
            (AlertKind::ModeChange, Urgency::Normal, String::from("Battery BAT0 is charging.")),
            (AlertKind::Threshold, Urgency::Elevated, String::from("Battery BAT0 is too full.")),
        ]
    );
}

#[test]
fn repeated_reading_alerts_once() {
    let mut m = Monitor::new();
    let r = reading("BAT0", Mode::Charging, 90);
    assert_eq!(kinds(&m.handle_reading(&r)), vec![AlertKind::ModeChange, AlertKind::Threshold]);
    for _ in 0..4 {
        assert!(m.handle_reading(&r).is_empty());
    }
}

#[test]
fn alert_counts_match_zone_changes() {
    let rs = vec![
        reading("BAT0", Mode::Discharging, 50),
        reading("BAT1", Mode::Charging, 85),
        reading("BAT0", Mode::Discharging, 40),
        reading("BAT0", Mode::Discharging, 30),
        reading("BAT0", Mode::Other, 30),
        reading("BAT1", Mode::Other, 85),
        reading("BAT0", Mode::Discharging, 30),
        reading("BAT0", Mode::Charging, 30),
        reading("BAT0", Mode::Charging, 81),
    ];
    let mut m = Monitor::new();
    let alerts = m.handle_readings(&rs);
    let count = |source: &str, kind: AlertKind| {
        alerts.iter().filter(|a| a.source == source && a.kind == kind).count()
    };
    // BAT0 zones: Other, D.Normal, D.Normal, D.Low, Other, D.Low, C.Normal, C.High
    assert_eq!(count("BAT0", AlertKind::ModeChange), 4);
    assert_eq!(count("BAT0", AlertKind::Threshold), 3);
    // BAT1 zones: Other, C.High, Other
    assert_eq!(count("BAT1", AlertKind::ModeChange), 2);
    assert_eq!(count("BAT1", AlertKind::Threshold), 1);
}

#[test]
fn batch_of_events_skips_irrelevant_ones() {
    let mut m = Monitor::new();
    let mut mains = battery_event("AC", "Charging", "100");
    mains.device_type = Some(String::from("Mains"));
    let batch = vec![
        battery_event("BAT0", "Discharging", "50"),
        mains,
        battery_event("BAT1", "Charging", "20"),
        battery_event("BAT0", "Discharging", "bad"),
        battery_event("BAT0", "Discharging", "8"),
    ];
    let alerts = m.handle_events(&batch);
    let got: Vec<(String, AlertKind)> = alerts.iter().map(|a| (a.source.clone(), a.kind)).collect();
    assert_eq!(
        got,
        vec![
            (String::from("BAT0"), AlertKind::ModeChange),
            (String::from("BAT1"), AlertKind::ModeChange),
            (String::from("BAT0"), AlertKind::Threshold),
        ]
    );
    assert_eq!(m.store().zone_for(&String::from("BAT0")), Zone::DischargingCritical);
    assert!(!m.store().contains(&String::from("AC")));
    assert_eq!(m.store().len(), 2);
}
