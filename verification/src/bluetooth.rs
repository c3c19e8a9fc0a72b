//! Bluetooth: the adapter's power and the connected devices.

use crate::bytes::{faithful, lossy_text, utf8_lossy};
use crate::event::{
    add_event, carrying, data_event, events, no_events, plain, toggle, toggle_events, Event,
    EventView,
};
use crate::gather::{
    gathered, lemma_gathered_contains, lemma_gathered_filter, lemma_gathered_lines,
    lemma_gathered_nothing, lemma_gathered_step,
};
use crate::json::{new_object, no_members, object_text, object_to_text, put, Member, MemberView};
use crate::state::{
    bluetooth_views, BluetoothDevice, BluetoothDeviceView, SystemState, SystemStateView,
};
use crate::text::{
    begins_with, contains, first_pieces, first_pieces_of, has_part, joined,
    law_first_pieces_read_back, law_joined, law_parts_of_text, lines, lines_of, same_text,
    starts_with, strip_cr, texts,
};
use vstd::prelude::*;

verus! {

/// The first of these lines that speaks of power says yes.
pub open spec fn powered_in(report_lines: Seq<Seq<char>>) -> bool
    decreases report_lines.len(),
{
    if report_lines.len() == 0 {
        false
    } else if has_part(report_lines[0], "Powered:"@) {
        has_part(report_lines[0], "yes"@)
    } else {
        powered_in(report_lines.drop_first())
    }
}

/// The adapter is powered, by its description.
pub open spec fn reported_power(report: Seq<char>) -> bool {
    powered_in(lines_of(report))
}

/// The state after a description of the adapter.
pub open spec fn after_power(s: SystemStateView, report: Seq<char>) -> SystemStateView {
    SystemStateView { bluetooth_powered: Some(reported_power(report)), ..s }
}

/// The events of a description of the adapter.
pub open spec fn power_events(s: SystemStateView, report: Seq<char>) -> Seq<EventView> {
    toggle_events(
        s.bluetooth_powered,
        reported_power(report),
        "OnBluetoothOn"@,
        "OnBluetoothOff"@,
    )
}

/// Is the adapter powered, by its description?
pub fn is_powered(report: &str) -> (r: bool)
    ensures
        r == reported_power(report@),
{
    let list: Vec<&str> = lines(report);
    let ghost all = texts(list@);
    let mut i: usize = 0;
    assert(all.skip(0) =~= all);
    while i < list.len()
        invariant
            all == texts(list@),
            all == lines_of(report@),
            i <= list@.len(),
            powered_in(all) == powered_in(all.skip(i as int)),
        decreases list@.len() - i,
    {
        assert(all.skip(i as int)[0] == list@[i as int]@);
        if contains(list[i], "Powered:") {
            return contains(list[i], "yes");
        }
        assert(all.skip(i as int).drop_first() =~= all.skip(i + 1));
        i += 1;
    }
    assert(all.skip(i as int) =~= Seq::empty());
    false
}

/// Takes in a description of the adapter.
pub fn bluetooth_power_report(state: &mut SystemState, report: &str) -> (r: Vec<Event>)
    ensures
        final(state)@ == after_power(old(state)@, report@),
        events(r@) == power_events(old(state)@, report@),
{
    let powered = is_powered(report);
    let r: Vec<Event> = toggle(
        state.bluetooth_powered,
        powered,
        "OnBluetoothOn",
        "OnBluetoothOff",
    );
    state.bluetooth_powered = Some(powered);
    r
}

/// Takes in what the Bluetooth tool printed on the adapter.
pub fn bluetooth_power_output(state: &mut SystemState, stdout: &[u8]) -> (r: Vec<Event>)
    ensures
        final(state)@ == after_power(old(state)@, utf8_lossy(stdout@)),
        events(r@) == power_events(old(state)@, utf8_lossy(stdout@)),
        faithful(stdout@),
{
    let report: String = lossy_text(stdout);
    bluetooth_power_report(state, report.as_str())
}

/// The device that a line of the list of connected devices names, if it names
/// one. Such a line reads `Device 00:11:22:33:44:55 Some Name`.
pub open spec fn device_in_line(line: Seq<char>) -> Seq<BluetoothDeviceView> {
    let columns = first_pieces_of(line, 3, ' ');
    if begins_with(line, "Device "@) && columns.len() >= 3 {
        seq![BluetoothDeviceView { address: columns[1], name: columns[2], connected: true }]
    } else {
        Seq::empty()
    }
}

/// `device_in_line` as a function value.
pub open spec fn line_device() -> spec_fn(Seq<char>) -> Seq<BluetoothDeviceView> {
    |line: Seq<char>| device_in_line(line)
}

/// The devices in a list of connected devices.
pub open spec fn reported_devices(report: Seq<char>) -> Seq<BluetoothDeviceView> {
    gathered(lines_of(report), line_device())
}

fn line_to_device(line: &str) -> (r: Option<BluetoothDevice>)
    ensures
        r is None ==> device_in_line(line@) == Seq::<BluetoothDeviceView>::empty(),
        r is Some ==> device_in_line(line@) == seq![r->0@],
{
    if !starts_with(line, "Device ") {
        return None;
    }
    let columns: Vec<&str> = first_pieces(line, 3, ' ');
    assert(texts(columns@).len() == columns@.len());
    if columns.len() < 3 {
        return None;
    }
    assert(forall|i: int| 0 <= i < columns@.len() ==> texts(columns@)[i] == #[trigger] columns@[i]@);
    Some(
        BluetoothDevice {
            address: columns[1].to_string(),
            name: columns[2].to_string(),
            connected: true,
        },
    )
}

/// The devices in a list of connected devices.
pub fn bluetooth_devices_in(report: &str) -> (r: Vec<BluetoothDevice>)
    ensures
        bluetooth_views(r@) == reported_devices(report@),
{
    let list: Vec<&str> = lines(report);
    let ghost all = texts(list@);
    let mut r: Vec<BluetoothDevice> = Vec::new();
    let mut i: usize = 0;
    assert(bluetooth_views(r@) =~= gathered(all.take(0), line_device()));
    while i < list.len()
        invariant
            all == texts(list@),
            i <= list@.len(),
            bluetooth_views(r@) == gathered(all.take(i as int), line_device()),
        decreases list@.len() - i,
    {
        let ghost before = r@;
        proof {
            lemma_gathered_step(all, line_device(), i as int);
            assert(all[i as int] == list@[i as int]@);
        }
        if let Some(device) = line_to_device(list[i]) {
            r.push(device);
            assert(bluetooth_views(r@) =~= bluetooth_views(before).push(device@));
        }
        assert(bluetooth_views(r@) =~= gathered(all.take(i + 1), line_device()));
        i += 1;
    }
    assert(all.take(i as int) =~= all);
    r
}

/// The devices that the Bluetooth tool printed; none if it could not be run.
pub fn get_bluetooth_devices(stdout: Option<Vec<u8>>) -> (r: Vec<BluetoothDevice>)
    ensures
        stdout is None ==> bluetooth_views(r@) == Seq::<BluetoothDeviceView>::empty(),
        stdout is Some ==> bluetooth_views(r@) == reported_devices(utf8_lossy(stdout->0@)),
        stdout is Some ==> faithful(stdout->0@),
{
    match stdout {
        Some(bytes) => {
            let report: String = lossy_text(bytes.as_slice());
            bluetooth_devices_in(report.as_str())
        },
        None => {
            let r: Vec<BluetoothDevice> = Vec::new();
            assert(bluetooth_views(r@) =~= Seq::empty());
            r
        },
    }
}

/// The first device of `list` with this address.
pub open spec fn with_address(
    list: Seq<BluetoothDeviceView>,
    address: Seq<char>,
) -> Option<BluetoothDeviceView>
    decreases list.len(),
{
    if list.len() == 0 {
        None
    } else if list[0].address == address {
        Some(list[0])
    } else {
        with_address(list.drop_first(), address)
    }
}

/// The data of an event about a device.
pub open spec fn device_data(d: BluetoothDeviceView) -> Seq<char> {
    object_text(
        no_members().insert("address"@, MemberView::Text(d.address)).insert(
            "name"@,
            MemberView::Text(d.name),
        ),
    )
}

/// The event of a device that is listed now, where `old` were listed before.
pub open spec fn device_events(
    old: Seq<BluetoothDeviceView>,
) -> spec_fn(BluetoothDeviceView) -> Seq<EventView> {
    |d: BluetoothDeviceView|
        {
            let before = with_address(old, d.address);
            let was = before is Some && before->0.connected;
            if d.connected && !was {
                seq![carrying("OnBluetoothDeviceConnected"@, device_data(d))]
            } else if !d.connected && was {
                seq![carrying("OnBluetoothDeviceDisconnected"@, device_data(d))]
            } else {
                Seq::empty()
            }
        }
}

/// The events of finding the devices `new` where `old` were before.
pub open spec fn bluetooth_events(
    old: Seq<BluetoothDeviceView>,
    new: Seq<BluetoothDeviceView>,
) -> Seq<EventView> {
    gathered(new, device_events(old))
}

/// Was the device with this address connected?
fn was_connected(list: &Vec<BluetoothDevice>, address: &str) -> (r: bool)
    ensures
        r == ({
            let before = with_address(bluetooth_views(list@), address@);
            before is Some && before->0.connected
        }),
{
    let ghost all = bluetooth_views(list@);
    let mut i: usize = 0;
    assert(all.skip(0) =~= all);
    while i < list.len()
        invariant
            all == bluetooth_views(list@),
            i <= list@.len(),
            with_address(all, address@) == with_address(all.skip(i as int), address@),
        decreases list@.len() - i,
    {
        assert(all.skip(i as int)[0] == list@[i as int]@);
        if same_text(list[i].address.as_str(), address) {
            return list[i].connected;
        }
        assert(all.skip(i as int).drop_first() =~= all.skip(i + 1));
        i += 1;
    }
    assert(all.skip(i as int) =~= Seq::empty());
    false
}

fn device_text(d: &BluetoothDevice) -> (r: String)
    ensures
        r@ == device_data(d@),
{
    let mut object = new_object();
    put(&mut object, "address", Member::Text(d.address.clone()));
    put(&mut object, "name", Member::Text(d.name.clone()));
    object_to_text(object)
}

/// Takes in the devices that are listed now.
pub fn bluetooth_report(state: &mut SystemState, devices: Vec<BluetoothDevice>) -> (r: Vec<Event>)
    ensures
        final(state)@ == (SystemStateView {
            bluetooth_devices: bluetooth_views(devices@),
            ..old(state)@
        }),
        events(r@) == bluetooth_events(old(state)@.bluetooth_devices, bluetooth_views(devices@)),
{
    let mut r: Vec<Event> = no_events();
    let ghost all = bluetooth_views(devices@);
    let ghost f = device_events(state@.bluetooth_devices);
    let mut i: usize = 0;
    assert(events(r@) =~= gathered(all.take(0), f));
    while i < devices.len()
        invariant
            *state == *old(state),
            all == bluetooth_views(devices@),
            f == device_events(state@.bluetooth_devices),
            i <= devices@.len(),
            events(r@) == gathered(all.take(i as int), f),
        decreases devices@.len() - i,
    {
        proof {
            lemma_gathered_step(all, f, i as int);
            assert(all[i as int] == devices@[i as int]@);
        }
        let device: &BluetoothDevice = &devices[i];
        let was = was_connected(&state.bluetooth_devices, device.address.as_str());
        if device.connected && !was {
            add_event(&mut r, data_event("OnBluetoothDeviceConnected", device_text(device)));
        } else if !device.connected && was {
            add_event(&mut r, data_event("OnBluetoothDeviceDisconnected", device_text(device)));
        }
        assert(events(r@) =~= gathered(all.take(i + 1), f));
        i += 1;
    }
    assert(all.take(i as int) =~= all);
    state.bluetooth_devices = devices;
    r
}

/// The same description of the adapter a second time changes nothing and tells
/// plugins nothing, and neither does the same list of devices, if no address
/// occurs in it twice.
pub proof fn law_bluetooth_settles(
    s: SystemStateView,
    report: Seq<char>,
    devices: Seq<BluetoothDeviceView>,
)
    requires
        forall|i: int, j: int|
            0 <= i < j < devices.len() ==> #[trigger] devices[i].address
                != #[trigger] devices[j].address,
    ensures
        power_events(after_power(s, report), report) == Seq::<EventView>::empty(),
        after_power(after_power(s, report), report) == after_power(s, report),
        bluetooth_events(devices, devices) == Seq::<EventView>::empty(),
{
    let f = device_events(devices);
    assert forall|i: int| 0 <= i < devices.len() implies (#[trigger] f(devices[i])).len() == 0 by {
        lemma_found(devices, i);
    }
    lemma_gathered_nothing(devices, f);
}

/// A device that is connected now and was not before is announced as connected,
/// and one that is listed but no longer connected as disconnected.
pub proof fn law_bluetooth_announced(
    old: Seq<BluetoothDeviceView>,
    new: Seq<BluetoothDeviceView>,
    i: int,
)
    requires
        0 <= i < new.len(),
    ensures
        ({
            let before = with_address(old, new[i].address);
            let was = before is Some && before->0.connected;
            &&& new[i].connected && !was ==> bluetooth_events(old, new).contains(
                carrying("OnBluetoothDeviceConnected"@, device_data(new[i])),
            )
            &&& !new[i].connected && was ==> bluetooth_events(old, new).contains(
                carrying("OnBluetoothDeviceDisconnected"@, device_data(new[i])),
            )
        }),
{
    let f = device_events(old);
    if f(new[i]).len() > 0 {
        let e = f(new[i])[0];
        assert(f(new[i]).contains(e));
        lemma_gathered_contains(new, f, e);
    }
}

proof fn lemma_found(devices: Seq<BluetoothDeviceView>, i: int)
    requires
        0 <= i < devices.len(),
        forall|i: int, j: int|
            0 <= i < j < devices.len() ==> #[trigger] devices[i].address
                != #[trigger] devices[j].address,
    ensures
        with_address(devices, devices[i].address) == Some(devices[i]),
    decreases devices.len(),
{
    if i > 0 {
        assert(devices[0].address != devices[i].address);
        let rest = devices.drop_first();
        assert forall|a: int, b: int| 0 <= a < b < rest.len() implies #[trigger] rest[a].address
            != #[trigger] rest[b].address by {
            assert(devices[a + 1].address != devices[b + 1].address);
        }
        lemma_found(rest, i - 1);
    }
}

proof fn lemma_powered_in(list: Seq<Seq<char>>, i: int)
    requires
        0 <= i <= list.len(),
        forall|j: int| 0 <= j < i ==> !has_part(#[trigger] list[j], "Powered:"@),
        i < list.len() ==> has_part(list[i], "Powered:"@),
    ensures
        powered_in(list) == (i < list.len() && has_part(list[i], "yes"@)),
    decreases i,
{
    if i > 0 {
        let rest = list.drop_first();
        assert forall|j: int| 0 <= j < i - 1 implies !has_part(
            #[trigger] rest[j],
            "Powered:"@,
        ) by {
            assert(rest[j] == list[j + 1]);
        }
        assert(!has_part(list[0], "Powered:"@));
        lemma_powered_in(rest, i - 1);
    }
}

/// The adapter is powered where the first line that speaks of power says yes,
/// and not where no line does. Power that comes on, or is on when first seen, is
/// told; power that goes off is told after that.
pub proof fn law_power_is_told(s: SystemStateView, report: Seq<char>, i: int)
    requires
        0 <= i <= lines_of(report).len(),
        forall|j: int| 0 <= j < i ==> !has_part(#[trigger] lines_of(report)[j], "Powered:"@),
        i < lines_of(report).len() ==> has_part(lines_of(report)[i], "Powered:"@),
    ensures
        ({
            let powered = i < lines_of(report).len() && has_part(lines_of(report)[i], "yes"@);
            let told = power_events(s, report);
            &&& after_power(s, report) == (SystemStateView {
                bluetooth_powered: Some(powered),
                ..s
            })
            &&& powered && s.bluetooth_powered != Some(true) ==> told == seq![
                plain("OnBluetoothOn"@),
            ]
            &&& powered && s.bluetooth_powered == Some(true) ==> told == Seq::<EventView>::empty()
            &&& !powered && s.bluetooth_powered == Some(true) ==> told == seq![
                plain("OnBluetoothOff"@),
            ]
            &&& !powered && s.bluetooth_powered != Some(true) ==> told == Seq::<EventView>::empty()
        }),
{
    lemma_powered_in(lines_of(report), i);
}

/// A line names a connected device if it begins with the word `Device` and a
/// space: what follows up to the next space is the address, and all the rest is
/// the name. A line that begins otherwise, or ends with the address, names none.
pub proof fn law_device_is_read(address: Seq<char>, name: Seq<char>, line: Seq<char>)
    requires
        !address.contains(' '),
    ensures
        device_in_line("Device "@ + address.push(' ') + name) == seq![
            BluetoothDeviceView { address, name, connected: true },
        ],
        device_in_line("Device "@ + address) == Seq::<BluetoothDeviceView>::empty(),
        !begins_with(line, "Device "@) ==> device_in_line(line) == Seq::<
            BluetoothDeviceView,
        >::empty(),
{
    reveal_strlit("Device ");
    let word = seq!['D', 'e', 'v', 'i', 'c', 'e'];
    assert("Device "@ =~= word.push(' '));
    assert(!word.contains(' '));
    let columns = seq![word, address, name];
    let s = "Device "@ + address.push(' ') + name;
    law_joined(seq![word, address], seq![name], name, seq![' ']);
    law_joined(seq![word], seq![address], address, seq![' ']);
    law_joined(seq![], seq![], word, seq![' ']);
    assert(seq![word] + seq![address] =~= seq![word, address]);
    assert(seq![word, address] + seq![name] =~= columns);
    assert(joined(columns, seq![' ']) =~= s);
    law_first_pieces_read_back(columns, 3, ' ');
    law_parts_of_text(s, Seq::empty(), "Device "@, address.push(' ') + name);
    assert(s =~= "Device "@ + (address.push(' ') + name));
    let short = seq![word, address];
    assert(joined(short, seq![' ']) =~= "Device "@ + address);
    law_first_pieces_read_back(short, 3, ' ');
}

/// The devices are read line by line, in order.
pub proof fn law_devices_are_read(line: Seq<char>, rest: Seq<char>)
    requires
        !line.contains('\n'),
    ensures
        reported_devices(line.push('\n') + rest) == device_in_line(strip_cr(line))
            + reported_devices(rest),
        line.len() > 0 ==> reported_devices(line) == device_in_line(line),
        reported_devices(Seq::empty()) == Seq::<BluetoothDeviceView>::empty(),
{
    lemma_gathered_lines(line, rest, line_device());
}

/// The data of a device are its address and its name, and nothing else.
pub proof fn law_device_data(d: BluetoothDeviceView, members: Map<Seq<char>, MemberView>)
    requires
        members.dom() == set!["address"@, "name"@],
        members["address"@] == MemberView::Text(d.address),
        members["name"@] == MemberView::Text(d.name),
    ensures
        device_data(d) == object_text(members),
{
    assert(members =~= no_members().insert("address"@, MemberView::Text(d.address)).insert(
        "name"@,
        MemberView::Text(d.name),
    ));
}

/// A device with this address was connected at the last look, by the first that
/// was listed with it.
pub open spec fn was_on(old: Seq<BluetoothDeviceView>, address: Seq<char>) -> bool {
    exists|i: int|
        0 <= i < old.len() && (#[trigger] old[i]).address == address && old[i].connected && forall|
            j: int,
        |
            0 <= j < i ==> (#[trigger] old[j]).address != address
}

proof fn lemma_with_address(list: Seq<BluetoothDeviceView>, address: Seq<char>)
    ensures
        ({
            let found = with_address(list, address);
            (found is Some && found->0.connected) == was_on(list, address)
        }),
    decreases list.len(),
{
    let found = with_address(list, address);
    if list.len() > 0 {
        let rest = list.drop_first();
        lemma_with_address(rest, address);
        if list[0].address == address {
            if list[0].connected {
                assert(list[0].address == address);
                assert(was_on(list, address));
            }
        } else {
            if was_on(rest, address) {
                let i = choose|i: int|
                    0 <= i < rest.len() && (#[trigger] rest[i]).address == address
                        && rest[i].connected && forall|j: int|
                        0 <= j < i ==> (#[trigger] rest[j]).address != address;
                assert(list[i + 1] == rest[i]);
                assert forall|j: int| 0 <= j < i + 1 implies (#[trigger] list[j]).address
                    != address by {
                    if j > 0 {
                        assert(list[j] == rest[j - 1]);
                    }
                }
            }
            if was_on(list, address) {
                let i = choose|i: int|
                    0 <= i < list.len() && (#[trigger] list[i]).address == address
                        && list[i].connected && forall|j: int|
                        0 <= j < i ==> (#[trigger] list[j]).address != address;
                assert(rest[i - 1] == list[i]);
                assert forall|j: int| 0 <= j < i - 1 implies (#[trigger] rest[j]).address
                    != address by {
                    assert(rest[j] == list[j + 1]);
                }
            }
        }
    }
}

/// Exactly the listed devices whose connection differs from the last look are
/// told, in order: as connected where they are, and else as disconnected. A
/// device that was not listed was not connected.
pub proof fn law_devices_are_told(old: Seq<BluetoothDeviceView>, new: Seq<BluetoothDeviceView>)
    ensures
        bluetooth_events(old, new) == new.filter(
            |d: BluetoothDeviceView| d.connected != was_on(old, d.address),
        ).map_values(
            |d: BluetoothDeviceView|
                carrying(
                    if d.connected {
                        "OnBluetoothDeviceConnected"@
                    } else {
                        "OnBluetoothDeviceDisconnected"@
                    },
                    device_data(d),
                ),
        ),
{
    let f = device_events(old);
    let p = |d: BluetoothDeviceView| d.connected != was_on(old, d.address);
    let g = |d: BluetoothDeviceView|
        carrying(
            if d.connected {
                "OnBluetoothDeviceConnected"@
            } else {
                "OnBluetoothDeviceDisconnected"@
            },
            device_data(d),
        );
    assert forall|d: BluetoothDeviceView| #[trigger] f(d) == if p(d) {
        seq![g(d)]
    } else {
        Seq::empty()
    } by {
        lemma_with_address(old, d.address);
    }
    lemma_gathered_filter(new, f, p, g);
}

} // verus!
