use plugind::event::Event;
use plugind::power::{ac_report, battery_level_report, battery_status_report};
use plugind::state::SystemState;

fn shown(events: &Vec<Event>) -> Vec<(String, Option<String>)> {
    events.iter().map(|e| (e.name.clone(), e.data.clone())).collect()
}

fn plain(name: &str) -> (String, Option<String>) {
    (name.to_string(), None)
}

fn with(name: &str, data: &str) -> (String, Option<String>) {
    (name.to_string(), Some(data.to_string()))
}

#[test]
fn the_charge_is_followed() {
    let mut s = SystemState::default();
    assert_eq!(
        shown(&battery_level_report(&mut s, "16\n")),
        vec![with("OnBatteryLevelChange", "16")]
    );
    assert_eq!(s.battery_level, Some(16));
    assert!(battery_level_report(&mut s, "16\n").is_empty());
    assert_eq!(
        shown(&battery_level_report(&mut s, "15")),
        vec![with("OnBatteryLevelChange", "15"), with("OnBatteryLow", "15")]
    );
    assert_eq!(
        shown(&battery_level_report(&mut s, "14")),
        vec![with("OnBatteryLevelChange", "14")]
    );
    assert_eq!(
        shown(&battery_level_report(&mut s, "5")),
        vec![with("OnBatteryLevelChange", "5"), with("OnBatteryCritical", "5")]
    );
    assert_eq!(
        shown(&battery_level_report(&mut s, "3")),
        vec![with("OnBatteryLevelChange", "3")]
    );
    assert_eq!(
        shown(&battery_level_report(&mut s, "10")),
        vec![with("OnBatteryLevelChange", "10")]
    );
    assert_eq!(
        shown(&battery_level_report(&mut s, "100")),
        vec![with("OnBatteryLevelChange", "100"), plain("OnBatteryFull")]
    );
}

#[test]
fn a_first_charge_may_be_alarming() {
    let mut s = SystemState::default();
    assert_eq!(
        shown(&battery_level_report(&mut s, "4")),
        vec![with("OnBatteryLevelChange", "4"), with("OnBatteryCritical", "4")]
    );
    let mut s = SystemState::default();
    assert_eq!(
        shown(&battery_level_report(&mut s, "12")),
        vec![with("OnBatteryLevelChange", "12"), with("OnBatteryLow", "12")]
    );
}

#[test]
fn a_fall_past_both_bounds_is_critical_only() {
    let mut s = SystemState::default();
    battery_level_report(&mut s, "50");
    assert_eq!(
        shown(&battery_level_report(&mut s, "2")),
        vec![with("OnBatteryLevelChange", "2"), with("OnBatteryCritical", "2")]
    );
}

#[test]
fn a_report_that_is_no_charge_is_passed_over() {
    let mut s = SystemState::default();
    battery_level_report(&mut s, "50");
    assert!(battery_level_report(&mut s, "").is_empty());
    assert!(battery_level_report(&mut s, "256").is_empty());
    assert!(battery_level_report(&mut s, "-1").is_empty());
    assert_eq!(s.battery_level, Some(50));
}

#[test]
fn the_charging_status_is_followed() {
    let mut s = SystemState::default();
    assert_eq!(
        shown(&battery_status_report(&mut s, "Charging\n")),
        vec![plain("OnBatteryCharging")]
    );
    assert!(battery_status_report(&mut s, " Charging ").is_empty());
    assert_eq!(
        shown(&battery_status_report(&mut s, "Discharging\n")),
        vec![plain("OnBatteryDischarging")]
    );
    assert_eq!(shown(&battery_status_report(&mut s, "Full\n")), vec![plain("OnBatteryFull")]);
    assert!(battery_status_report(&mut s, "Unknown\n").is_empty());
    assert_eq!(s.battery_status, Some("Unknown".to_string()));
    assert_eq!(shown(&battery_status_report(&mut s, "Full\n")), vec![plain("OnBatteryFull")]);
}

#[test]
fn mains_power_is_followed() {
    let mut s = SystemState::default();
    assert_eq!(shown(&ac_report(&mut s, "0\n")), vec![plain("OnACDisconnected")]);
    assert!(ac_report(&mut s, "0\n").is_empty());
    assert_eq!(shown(&ac_report(&mut s, "1\n")), vec![plain("OnACConnected")]);
    assert_eq!(s.ac_power, Some(true));
    assert_eq!(shown(&ac_report(&mut s, "2\n")), vec![plain("OnACDisconnected")]);
}
