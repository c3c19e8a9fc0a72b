use plugind::event::Event;
use plugind::network::{
    addresses_in, get_interface_ips, get_network_interfaces, interface_in, interface_kind,
    interface_name, interfaces_in, is_loopback, may_have_ssid, network_report, wants_ssid, InterfaceReading,
    InterfaceReport,
};
use plugind::state::SystemState;

fn shown(events: &Vec<Event>) -> Vec<(String, Option<String>)> {
    events.iter().map(|e| (e.name.clone(), e.data.clone())).collect()
}

fn with(name: &str, data: &str) -> (String, Option<String>) {
    (name.to_string(), Some(data.to_string()))
}

fn report(name: &str, up: bool, wireless: bool, ssid: Option<&str>, ip: &str) -> InterfaceReport {
    InterfaceReport {
        name: name.to_string(),
        operstate: Some((if up { "up\n" } else { "down\n" }).to_string()),
        wireless,
        ssid: ssid.map(|s| s.to_string()),
        addresses: Some(format!("2: {} inet {}/24 brd 10.0.0.255\n", name, ip)),
    }
}

#[test]
fn interfaces_are_told_apart() {
    assert_eq!(interface_kind("eth0", false), "ethernet");
    assert_eq!(interface_kind("enp3s0", false), "ethernet");
    assert_eq!(interface_kind("wlan0", false), "wifi");
    assert_eq!(interface_kind("eth0", true), "wifi");
    assert_eq!(interface_kind("docker0", false), "bridge");
    assert_eq!(interface_kind("br-1", false), "bridge");
    assert_eq!(interface_kind("veth9", false), "virtual");
    assert_eq!(interface_kind("tun0", false), "unknown");
}

#[test]
fn addresses_are_listed() {
    let text = "2: eth0    inet 10.0.0.5/24 brd x\n2: eth0    inet 10.0.0.6 scope\nshort line\n";
    assert_eq!(addresses_in(text), vec!["10.0.0.5".to_string(), "10.0.0.6".to_string()]);
    assert!(get_interface_ips(None).is_empty());
    assert_eq!(get_interface_ips(Some(text.as_bytes().to_vec())).len(), 2);
}

#[test]
fn an_interface_is_described() {
    let i = interface_in(report("wlan0", true, false, Some(" home \n"), "1.2.3.4"));
    assert!(i.is_up);
    assert_eq!(i.interface_type, "wifi");
    assert_eq!(i.ssid, Some("home".to_string()));
    assert_eq!(i.ip_addresses, vec!["1.2.3.4".to_string()]);
    assert_eq!(interface_in(report("wlan0", false, false, Some("home"), "1.2.3.4")).ssid, None);
    assert_eq!(interface_in(report("wlan0", true, false, Some(" \n"), "1.2.3.4")).ssid, None);
    assert_eq!(interface_in(report("eth0", true, false, Some("home"), "1.2.3.4")).ssid, None);
    let up = Some("up\n".to_string());
    assert!(may_have_ssid("wl0", &up, false));
    assert!(wants_ssid(b"wl0", &up, false));
    assert!(!wants_ssid(b"eth0", &up, false));
    assert!(!wants_ssid(b"wl0", &None, false));
    assert_eq!(interface_name(b"wl\xff"), "wl\u{fffd}");
    assert!(is_loopback(b"lo"));
    assert!(!is_loopback(b"lo\xff"));
}

#[test]
fn the_loopback_interface_is_left_out() {
    let map = interfaces_in(vec![
        report("lo", true, false, None, "127.0.0.1"),
        report("eth0", true, false, None, "1.2.3.4"),
    ]);
    assert_eq!(map.len(), 1);
    assert!(map.contains_key("eth0"));
    assert!(!map.contains_key("lo"));
    let read = get_network_interfaces(vec![InterfaceReading {
        name: b"wl\xff".to_vec(),
        operstate: Some("up".to_string()),
        wireless: false,
        ssid_output: Some(b"net\n".to_vec()),
        address_output: None,
    }]);
    let i = read.get("wl\u{fffd}").unwrap();
    assert_eq!(i.ssid, Some("net".to_string()));
    assert!(i.ip_addresses.is_empty());
}

#[test]
fn interfaces_come_change_and_go() {
    let mut s = SystemState::default();
    let eth = |up: bool, ip: &str| report("eth0", up, false, None, ip);
    let wifi = |ssid: Option<&str>| report("wlan0", true, false, ssid, "9.9.9.9");
    assert_eq!(
        shown(&network_report(&mut s, interfaces_in(vec![eth(false, "1.1.1.1")]))),
        vec![with(
            "OnNetworkInterfaceAdded",
            "{\"interface\":\"eth0\",\"is_up\":false,\"type\":\"ethernet\"}"
        )]
    );
    assert!(network_report(&mut s, interfaces_in(vec![eth(false, "1.1.1.1")])).is_empty());
    assert_eq!(
        shown(&network_report(&mut s, interfaces_in(vec![eth(true, "2.2.2.2")]))),
        vec![
            with("OnNetworkUp", "{\"interface\":\"eth0\",\"is_up\":true,\"type\":\"ethernet\"}"),
            with(
                "OnIPAddressChange",
                "{\"interface\":\"eth0\",\"new_ips\":[\"2.2.2.2\"],\"old_ips\":[\"1.1.1.1\"]}"
            ),
        ]
    );
    assert_eq!(
        shown(&network_report(&mut s, interfaces_in(vec![eth(false, "2.2.2.2"), wifi(None)]))),
        vec![
            with("OnNetworkDown", "{\"interface\":\"eth0\",\"is_up\":false,\"type\":\"ethernet\"}"),
            with(
                "OnNetworkInterfaceAdded",
                "{\"interface\":\"wlan0\",\"is_up\":true,\"type\":\"wifi\"}"
            ),
        ]
    );
    assert_eq!(
        shown(&network_report(&mut s, interfaces_in(vec![wifi(Some("home"))]))),
        vec![
            with("OnWifiConnected", "{\"interface\":\"wlan0\",\"ssid\":\"home\"}"),
            with("OnNetworkInterfaceRemoved", "eth0"),
        ]
    );
    assert_eq!(
        shown(&network_report(&mut s, interfaces_in(vec![wifi(None)]))),
        vec![with("OnWifiDisconnected", "wlan0")]
    );
    assert_eq!(s.network_interfaces.len(), 1);
}
