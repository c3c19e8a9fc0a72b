use plugind::display::{
    brightness_percent, brightness_report, displays_in, displays_report, get_connected_displays,
    parse_brightness, wants_status, OutputReading, OutputReport,
};
use plugind::event::Event;
use plugind::state::SystemState;

fn shown(events: &Vec<Event>) -> Vec<(String, Option<String>)> {
    events.iter().map(|e| (e.name.clone(), e.data.clone())).collect()
}

fn with(name: &str, data: &str) -> (String, Option<String>) {
    (name.to_string(), Some(data.to_string()))
}

#[test]
fn the_brightness_is_followed() {
    assert_eq!(parse_brightness(" 120\n"), Some(120));
    assert_eq!(parse_brightness("x"), None);
    assert_eq!(brightness_percent(0, 255), 0);
    assert_eq!(brightness_percent(120, 255), 47);
    assert_eq!(brightness_percent(255, 255), 100);
    assert_eq!(brightness_percent(3, 1), 44);
    let mut s = SystemState::default();
    assert_eq!(shown(&brightness_report(&mut s, 47)), vec![with("OnBrightnessChange", "47")]);
    assert!(brightness_report(&mut s, 47).is_empty());
    assert_eq!(s.display_brightness, Some(47));
}

#[test]
fn connected_displays_are_found() {
    let report = |name: &str, status: Option<&str>| OutputReport {
        name: name.to_string(),
        status: status.map(|t| t.to_string()),
    };
    let found = displays_in(vec![
        report("card0", Some("connected\n")),
        report("card0-DP-1", Some("connected\n")),
        report("card0-DP-2", Some("disconnected\n")),
        report("card0-DP-3", None),
        report("render-1", Some("connected\n")),
    ]);
    assert_eq!(found, vec!["card0-DP-1".to_string()]);
    assert!(wants_status(b"card1-HDMI-A-1"));
    assert!(!wants_status(b"card1"));
    let readings = vec![OutputReading {
        name: b"card0-eDP-1".to_vec(),
        status: Some("connected".to_string()),
    }];
    assert_eq!(get_connected_displays(readings), vec!["card0-eDP-1".to_string()]);
}

#[test]
fn displays_come_and_go() {
    let names = |list: &[&str]| list.iter().map(|n| n.to_string()).collect::<Vec<String>>();
    let mut s = SystemState::default();
    assert!(displays_report(&mut s, vec![]).is_empty());
    assert_eq!(
        shown(&displays_report(&mut s, names(&["a", "b"]))),
        vec![with("OnDisplayConnected", "a"), with("OnDisplayConnected", "b")]
    );
    assert!(displays_report(&mut s, names(&["b", "a"])).is_empty());
    assert_eq!(s.displays_connected, names(&["b", "a"]));
    assert_eq!(
        shown(&displays_report(&mut s, names(&["a", "c"]))),
        vec![with("OnDisplayConnected", "c"), with("OnDisplayDisconnected", "b")]
    );
}
