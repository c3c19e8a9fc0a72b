use plugind::event::Event;
use plugind::session::{
    lid_report, lock_output, lock_report, route_output, route_report, session_user,
    sessions_output, sessions_report, timezone_link, timezone_report,
};
use plugind::state::SystemState;

fn shown(events: &Vec<Event>) -> Vec<(String, Option<String>)> {
    events.iter().map(|e| (e.name.clone(), e.data.clone())).collect()
}

fn plain(name: &str) -> (String, Option<String>) {
    (name.to_string(), None)
}

fn with(name: &str, data: &str) -> (String, Option<String>) {
    (name.to_string(), Some(data.to_string()))
}

#[test]
fn the_session_lock_is_followed() {
    let mut s = SystemState::default();
    assert!(lock_report(&mut s, "LockedHint=no\n").is_empty());
    assert_eq!(s.session_locked, Some(false));
    assert_eq!(shown(&lock_report(&mut s, "LockedHint=yes\n")), vec![plain("OnSessionLock")]);
    assert!(lock_report(&mut s, "LockedHint=yes\n").is_empty());
    assert_eq!(shown(&lock_report(&mut s, "LockedHint=no\n")), vec![plain("OnSessionUnlock")]);
    let mut s = SystemState::default();
    assert_eq!(shown(&lock_output(&mut s, b"LockedHint=yes\n")), vec![plain("OnSessionLock")]);
}

#[test]
fn the_user_is_followed() {
    let mut s = SystemState::default();
    let first = "\n1 1000\n  2 1000 alice seat0 tty2\n3 1001 bob seat0\n";
    assert_eq!(session_user(first), Some("alice".to_string()));
    assert_eq!(session_user("1 2\n"), None);
    assert!(sessions_report(&mut s, first).is_empty());
    assert_eq!(s.active_user, Some("alice".to_string()));
    assert_eq!(
        shown(&sessions_output(&mut s, b"3 1001 bob seat0\n")),
        vec![with("OnUserSwitch", "bob")]
    );
    assert!(sessions_report(&mut s, "").is_empty());
    assert_eq!(s.active_user, Some("bob".to_string()));
}

#[test]
fn what_is_not_utf8_is_replaced() {
    let mut s = SystemState::default();
    assert!(sessions_output(&mut s, b"1 2 a\xffb\n").is_empty());
    assert_eq!(s.active_user, Some("a\u{fffd}b".to_string()));
}

#[test]
fn the_lid_is_followed() {
    let mut last: Option<String> = None;
    assert_eq!(shown(&lid_report(&mut last, "state:      open\n")), vec![plain("OnLidOpen")]);
    assert!(lid_report(&mut last, "state:      open\n").is_empty());
    assert!(lid_report(&mut last, "state:      ?\n").is_empty());
    assert_eq!(last, Some("open".to_string()));
    assert_eq!(shown(&lid_report(&mut last, "state:      closed\n")), vec![plain("OnLidClose")]);
    assert_eq!(last, Some("closed".to_string()));
    assert_eq!(shown(&lid_report(&mut last, "closed? open")), vec![plain("OnLidOpen")]);
}

#[test]
fn the_time_zone_is_followed() {
    let mut s = SystemState::default();
    assert!(timezone_report(&mut s, "/usr/share/zoneinfo/UTC").is_empty());
    assert_eq!(
        shown(&timezone_link(&mut s, b"/usr/share/zoneinfo/Europe/Rome")),
        vec![with("OnTimezoneChange", "/usr/share/zoneinfo/Europe/Rome")]
    );
    assert!(timezone_link(&mut s, b"/usr/share/zoneinfo/Europe/Rome").is_empty());
}

#[test]
fn the_default_route_is_followed() {
    let mut s = SystemState::default();
    assert!(route_report(&mut s, " \n").is_empty());
    let route = "default via 10.0.0.1 dev eth0";
    assert_eq!(
        shown(&route_output(&mut s, b"default via 10.0.0.1 dev eth0 \n")),
        vec![with("OnDefaultRouteChange", route)]
    );
    assert!(route_report(&mut s, route).is_empty());
    assert_eq!(shown(&route_report(&mut s, "")), vec![plain("OnDefaultRouteChange")]);
    assert_eq!(s.default_route, None);
}
