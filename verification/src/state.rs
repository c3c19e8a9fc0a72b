//! What the daemon last saw of the system.

use crate::name_map::{keys_distinct, NameMap};
use crate::text::{opt_text, strings};
use vstd::prelude::*;

verus! {

/// A network interface.
pub struct NetworkInterfaceState {
    pub name: String,
    pub is_up: bool,
    pub ip_addresses: Vec<String>,
    pub interface_type: String,
    pub ssid: Option<String>,
}

/// A network interface as a plain value.
#[verifier::ext_equal]
pub struct NetworkInterfaceView {
    pub name: Seq<char>,
    pub is_up: bool,
    pub ip_addresses: Seq<Seq<char>>,
    pub interface_type: Seq<char>,
    pub ssid: Option<Seq<char>>,
}

impl View for NetworkInterfaceState {
    type V = NetworkInterfaceView;

    open spec fn view(&self) -> NetworkInterfaceView {
        NetworkInterfaceView {
            name: self.name@,
            is_up: self.is_up,
            ip_addresses: strings(self.ip_addresses@),
            interface_type: self.interface_type@,
            ssid: opt_text(self.ssid),
        }
    }
}

/// A device on the USB bus.
pub struct UsbDevice {
    pub vendor_id: String,
    pub product_id: String,
    pub name: String,
    pub path: String,
}

/// A device on the USB bus as a plain value.
#[verifier::ext_equal]
pub struct UsbDeviceView {
    pub vendor_id: Seq<char>,
    pub product_id: Seq<char>,
    pub name: Seq<char>,
    pub path: Seq<char>,
}

impl View for UsbDevice {
    type V = UsbDeviceView;

    open spec fn view(&self) -> UsbDeviceView {
        UsbDeviceView {
            vendor_id: self.vendor_id@,
            product_id: self.product_id@,
            name: self.name@,
            path: self.path@,
        }
    }
}

/// The devices of a list.
pub open spec fn usb_views(v: Seq<UsbDevice>) -> Seq<UsbDeviceView> {
    v.map_values(|d: UsbDevice| d@)
}

/// A Bluetooth device.
pub struct BluetoothDevice {
    pub address: String,
    pub name: String,
    pub connected: bool,
}

/// A Bluetooth device as a plain value.
#[verifier::ext_equal]
pub struct BluetoothDeviceView {
    pub address: Seq<char>,
    pub name: Seq<char>,
    pub connected: bool,
}

impl View for BluetoothDevice {
    type V = BluetoothDeviceView;

    open spec fn view(&self) -> BluetoothDeviceView {
        BluetoothDeviceView { address: self.address@, name: self.name@, connected: self.connected }
    }
}

/// The devices of a list.
pub open spec fn bluetooth_views(v: Seq<BluetoothDevice>) -> Seq<BluetoothDeviceView> {
    v.map_values(|d: BluetoothDevice| d@)
}

/// How full a file system is.
pub struct DiskUsage {
    pub mount_point: String,
    pub total_bytes: u64,
    pub used_bytes: u64,
    pub available_bytes: u64,
    pub usage_percent: u8,
}

/// How full a file system is, as a plain value.
#[verifier::ext_equal]
pub struct DiskUsageView {
    pub mount_point: Seq<char>,
    pub total_bytes: nat,
    pub used_bytes: nat,
    pub available_bytes: nat,
    pub usage_percent: nat,
}

impl View for DiskUsage {
    type V = DiskUsageView;

    open spec fn view(&self) -> DiskUsageView {
        DiskUsageView {
            mount_point: self.mount_point@,
            total_bytes: self.total_bytes as nat,
            used_bytes: self.used_bytes as nat,
            available_bytes: self.available_bytes as nat,
            usage_percent: self.usage_percent as nat,
        }
    }
}

/// What was last seen of each part of the system that the daemon watches.
pub struct SystemState {
    pub battery_level: Option<u8>,
    pub battery_status: Option<String>,
    pub ac_power: Option<bool>,
    pub network_interfaces: NameMap<NetworkInterfaceState>,
    pub default_route: Option<String>,
    pub display_brightness: Option<u8>,
    pub displays_connected: Vec<String>,
    pub audio_volume: Option<u8>,
    pub audio_muted: Option<bool>,
    pub default_sink: Option<String>,
    pub active_user: Option<String>,
    pub session_locked: Option<bool>,
    pub timezone: Option<String>,
    pub usb_devices: Vec<UsbDevice>,
    pub bluetooth_powered: Option<bool>,
    pub bluetooth_devices: Vec<BluetoothDevice>,
    pub disk_usage: NameMap<DiskUsage>,
}

/// What was last seen, as a plain value. The interfaces and the file systems
/// stand in the order in which they are walked.
#[verifier::ext_equal]
pub struct SystemStateView {
    pub battery_level: Option<u8>,
    pub battery_status: Option<Seq<char>>,
    pub ac_power: Option<bool>,
    pub network_interfaces: Seq<(Seq<char>, NetworkInterfaceView)>,
    pub default_route: Option<Seq<char>>,
    pub display_brightness: Option<u8>,
    pub displays_connected: Seq<Seq<char>>,
    pub audio_volume: Option<u8>,
    pub audio_muted: Option<bool>,
    pub default_sink: Option<Seq<char>>,
    pub active_user: Option<Seq<char>>,
    pub session_locked: Option<bool>,
    pub timezone: Option<Seq<char>>,
    pub usb_devices: Seq<UsbDeviceView>,
    pub bluetooth_powered: Option<bool>,
    pub bluetooth_devices: Seq<BluetoothDeviceView>,
    pub disk_usage: Seq<(Seq<char>, DiskUsageView)>,
}

impl View for SystemState {
    type V = SystemStateView;

    open spec fn view(&self) -> SystemStateView {
        SystemStateView {
            battery_level: self.battery_level,
            battery_status: opt_text(self.battery_status),
            ac_power: self.ac_power,
            network_interfaces: self.network_interfaces.entries(),
            default_route: opt_text(self.default_route),
            display_brightness: self.display_brightness,
            displays_connected: strings(self.displays_connected@),
            audio_volume: self.audio_volume,
            audio_muted: self.audio_muted,
            default_sink: opt_text(self.default_sink),
            active_user: opt_text(self.active_user),
            session_locked: self.session_locked,
            timezone: opt_text(self.timezone),
            usb_devices: usb_views(self.usb_devices@),
            bluetooth_powered: self.bluetooth_powered,
            bluetooth_devices: bluetooth_views(self.bluetooth_devices@),
            disk_usage: self.disk_usage.entries(),
        }
    }
}

impl SystemStateView {
    /// No interface and no file system is listed twice.
    pub open spec fn wf(self) -> bool {
        keys_distinct(self.network_interfaces) && keys_distinct(self.disk_usage)
    }
}

/// Nothing seen yet.
pub open spec fn nothing_seen() -> SystemStateView {
    SystemStateView {
        battery_level: None,
        battery_status: None,
        ac_power: None,
        network_interfaces: Seq::empty(),
        default_route: None,
        display_brightness: None,
        displays_connected: Seq::empty(),
        audio_volume: None,
        audio_muted: None,
        default_sink: None,
        active_user: None,
        session_locked: None,
        timezone: None,
        usb_devices: Seq::empty(),
        bluetooth_powered: None,
        bluetooth_devices: Seq::empty(),
        disk_usage: Seq::empty(),
    }
}

impl Default for SystemState {
    fn default() -> (r: Self)
        ensures
            r@ == nothing_seen(),
            r@.wf(),
    {
        let r = SystemState {
            battery_level: None,
            battery_status: None,
            ac_power: None,
            network_interfaces: NameMap::new(),
            default_route: None,
            display_brightness: None,
            displays_connected: Vec::new(),
            audio_volume: None,
            audio_muted: None,
            default_sink: None,
            active_user: None,
            session_locked: None,
            timezone: None,
            usb_devices: Vec::new(),
            bluetooth_powered: None,
            bluetooth_devices: Vec::new(),
            disk_usage: NameMap::new(),
        };
        assert(r@ =~= nothing_seen());
        r
    }
}

/// At first nothing was seen of any part of the system.
pub proof fn law_nothing_seen()
    ensures
        ({
            let s = nothing_seen();
            &&& s.battery_level is None && s.battery_status is None && s.ac_power is None
            &&& s.network_interfaces.len() == 0 && s.default_route is None
            &&& s.display_brightness is None && s.displays_connected.len() == 0
            &&& s.audio_volume is None && s.audio_muted is None && s.default_sink is None
            &&& s.active_user is None && s.session_locked is None && s.timezone is None
            &&& s.usb_devices.len() == 0 && s.bluetooth_powered is None
            &&& s.bluetooth_devices.len() == 0 && s.disk_usage.len() == 0
        }),
{
}

} // verus!
