use plugind::bluetooth::{
    bluetooth_devices_in, bluetooth_power_output, bluetooth_power_report, bluetooth_report,
    get_bluetooth_devices, is_powered,
};
use plugind::event::Event;
use plugind::state::{BluetoothDevice, SystemState};
use plugind::usb::{get_usb_devices, usb_devices_in, usb_report};

fn shown(events: &Vec<Event>) -> Vec<(String, Option<String>)> {
    events.iter().map(|e| (e.name.clone(), e.data.clone())).collect()
}

fn plain(name: &str) -> (String, Option<String>) {
    (name.to_string(), None)
}

fn with(name: &str, data: &str) -> (String, Option<String>) {
    (name.to_string(), Some(data.to_string()))
}

const ROOT: &str = "Bus 001 Device 001: ID 1d6b:0002 Linux Foundation 2.0 root hub";
const STICK: &str = "Bus 002 Device 003: ID 0781:5583 SanDisk Corp. \"Ultra\"";

#[test]
fn the_list_of_usb_devices_is_parsed() {
    let report = format!("{}\n{}\nBus 001\nBus 1 Device 2: ID 1d6b Name here\n", ROOT, STICK);
    let devices = usb_devices_in(&report);
    assert_eq!(devices.len(), 2);
    assert_eq!(devices[0].vendor_id, "1d6b");
    assert_eq!(devices[0].product_id, "0002");
    assert_eq!(devices[0].name, "Linux Foundation 2.0 root hub");
    assert_eq!(devices[0].path, "001:001");
    assert_eq!(devices[1].path, "002:003");
    assert!(get_usb_devices(None).is_empty());
    assert_eq!(get_usb_devices(Some(report.into_bytes())).len(), 2);
}

#[test]
fn usb_devices_come_and_go() {
    let mut s = SystemState::default();
    let events = usb_report(&mut s, usb_devices_in(ROOT));
    let root = "{\"name\":\"Linux Foundation 2.0 root hub\",\"path\":\"001:001\",\"product_id\":\"0002\",\"vendor_id\":\"1d6b\"}";
    assert_eq!(shown(&events), vec![with("OnUSBConnected", root)]);
    let both = format!("{}\n{}", STICK, ROOT);
    let stick = "{\"name\":\"SanDisk Corp. \\\"Ultra\\\"\",\"path\":\"002:003\",\"product_id\":\"5583\",\"vendor_id\":\"0781\"}";
    let events = usb_report(&mut s, usb_devices_in(&both));
    assert_eq!(shown(&events), vec![with("OnUSBConnected", stick)]);
    let swapped = format!("{}\n{}\n{}", ROOT, STICK, ROOT);
    assert!(usb_report(&mut s, usb_devices_in(&swapped)).is_empty());
    let events = usb_report(&mut s, usb_devices_in(STICK));
    assert_eq!(
        shown(&events),
        vec![with("OnUSBDisconnected", root), with("OnUSBDisconnected", root)]
    );
    assert_eq!(s.usb_devices.len(), 1);
}

fn device(address: &str, connected: bool) -> BluetoothDevice {
    BluetoothDevice { address: address.to_string(), name: "n".to_string(), connected }
}

#[test]
fn the_list_of_bluetooth_devices_is_parsed() {
    let devices = bluetooth_devices_in("Device 00:11 My Head Set\nDevice 22\nAgent x y\n");
    assert_eq!(devices.len(), 1);
    assert_eq!(devices[0].address, "00:11");
    assert_eq!(devices[0].name, "My Head Set");
    assert!(devices[0].connected);
    assert!(get_bluetooth_devices(None).is_empty());
    assert_eq!(get_bluetooth_devices(Some(b"Device 00:11 x\n".to_vec())).len(), 1);
}

#[test]
fn bluetooth_devices_connect_and_disconnect() {
    let mut s = SystemState::default();
    let data = "{\"address\":\"a\",\"name\":\"n\"}";
    assert!(bluetooth_report(&mut s, vec![device("a", false)]).is_empty());
    assert_eq!(
        shown(&bluetooth_report(&mut s, vec![device("a", true)])),
        vec![with("OnBluetoothDeviceConnected", data)]
    );
    assert!(bluetooth_report(&mut s, vec![device("a", true)]).is_empty());
    assert_eq!(
        shown(&bluetooth_report(&mut s, vec![device("a", false)])),
        vec![with("OnBluetoothDeviceDisconnected", data)]
    );
    assert!(bluetooth_report(&mut s, vec![]).is_empty());
    assert_eq!(
        shown(&bluetooth_report(&mut s, vec![device("a", true)])),
        vec![with("OnBluetoothDeviceConnected", data)]
    );
    assert!(bluetooth_report(&mut s, vec![]).is_empty());
}

#[test]
fn an_address_that_is_listed_twice_does_not_settle() {
    let mut s = SystemState::default();
    bluetooth_report(&mut s, vec![device("a", false), device("a", true)]);
    let events = bluetooth_report(&mut s, vec![device("a", false), device("a", true)]);
    assert_eq!(events.len(), 1);
}

#[test]
fn the_adapter_is_followed() {
    assert!(is_powered("Controller\n\tPowered: yes\n\tPowered: no\n"));
    assert!(!is_powered("Controller yes\n"));
    assert!(!is_powered("\tPowered: no\n\tPowered: yes\n"));
    let mut s = SystemState::default();
    assert!(bluetooth_power_report(&mut s, "").is_empty());
    assert_eq!(
        shown(&bluetooth_power_output(&mut s, b"Powered: yes\n")),
        vec![plain("OnBluetoothOn")]
    );
    assert!(bluetooth_power_report(&mut s, "Powered: yes\n").is_empty());
    assert_eq!(
        shown(&bluetooth_power_report(&mut s, "Powered: no\n")),
        vec![plain("OnBluetoothOff")]
    );
}
