//! Devices on the USB bus.

use crate::bytes::{faithful, lossy_text, utf8_lossy};
use crate::event::{add_event, carrying, data_event, events, no_events, Event, EventView};
use crate::gather::{
    gathered, lemma_gathered_contains, lemma_gathered_filter, lemma_gathered_lines,
    lemma_gathered_nothing, lemma_gathered_step,
};
use crate::json::{new_object, no_members, object_text, object_to_text, put, Member, MemberView};
use crate::state::{usb_views, SystemState, SystemStateView, UsbDevice, UsbDeviceView};
use crate::text::{
    drop_trailing, first_pieces, first_pieces_of, joined, law_drop_trailing,
    law_first_pieces_read_back, law_pieces_rejoin, lemma_pieces_join, lines, lines_of, only, pieces,
    pieces_of, same_text, strip_cr, texts, trim_end,
};
use vstd::prelude::*;

verus! {

/// The device that a line of the list of devices describes, if it describes
/// one. Such a line reads `Bus 001 Device 002: ID 1d6b:0002 Some Name`.
pub open spec fn device_in_line(line: Seq<char>) -> Seq<UsbDeviceView> {
    let columns = first_pieces_of(line, 7, ' ');
    let ids = pieces_of(columns[5], ':');
    if columns.len() >= 7 && ids.len() == 2 {
        seq![
            UsbDeviceView {
                vendor_id: ids[0],
                product_id: ids[1],
                name: columns[6],
                path: columns[1] + ":"@ + drop_trailing(columns[3], only(':')),
            },
        ]
    } else {
        Seq::empty()
    }
}

/// `device_in_line` as a function value.
pub open spec fn line_device() -> spec_fn(Seq<char>) -> Seq<UsbDeviceView> {
    |line: Seq<char>| device_in_line(line)
}

/// The devices in a list of devices.
pub open spec fn reported_devices(report: Seq<char>) -> Seq<UsbDeviceView> {
    gathered(lines_of(report), line_device())
}

/// The data of an event about a device.
pub open spec fn device_data(d: UsbDeviceView) -> Seq<char> {
    object_text(
        no_members().insert("vendor_id"@, MemberView::Text(d.vendor_id)).insert(
            "product_id"@,
            MemberView::Text(d.product_id),
        ).insert("name"@, MemberView::Text(d.name)).insert("path"@, MemberView::Text(d.path)),
    )
}

/// The event `name` for a device that is not among `others`.
pub open spec fn missing_from(
    others: Seq<UsbDeviceView>,
    name: Seq<char>,
) -> spec_fn(UsbDeviceView) -> Seq<EventView> {
    |d: UsbDeviceView|
        if others.contains(d) {
            Seq::empty()
        } else {
            seq![carrying(name, device_data(d))]
        }
}

/// The events of finding the devices `new` where `old` were before.
pub open spec fn usb_events(old: Seq<UsbDeviceView>, new: Seq<UsbDeviceView>) -> Seq<EventView> {
    gathered(new, missing_from(old, "OnUSBConnected"@)) + gathered(
        old,
        missing_from(new, "OnUSBDisconnected"@),
    )
}

fn line_to_device(line: &str) -> (r: Option<UsbDevice>)
    ensures
        r is None ==> device_in_line(line@) == Seq::<UsbDeviceView>::empty(),
        r is Some ==> device_in_line(line@) == seq![r->0@],
{
    let columns: Vec<&str> = first_pieces(line, 7, ' ');
    assert(texts(columns@).len() == columns@.len());
    if columns.len() < 7 {
        return None;
    }
    assert(forall|i: int| 0 <= i < columns@.len() ==> texts(columns@)[i] == #[trigger] columns@[i]@);
    let ids: Vec<&str> = pieces(columns[5], ':');
    assert(texts(ids@).len() == ids@.len());
    if ids.len() != 2 {
        return None;
    }
    assert(forall|i: int| 0 <= i < ids@.len() ==> texts(ids@)[i] == #[trigger] ids@[i]@);
    let mut path: String = columns[1].to_string();
    path.append(":");
    path.append(trim_end(columns[3], ':'));
    Some(
        UsbDevice {
            vendor_id: ids[0].to_string(),
            product_id: ids[1].to_string(),
            name: columns[6].to_string(),
            path,
        },
    )
}

/// The devices in a list of devices.
pub fn usb_devices_in(report: &str) -> (r: Vec<UsbDevice>)
    ensures
        usb_views(r@) == reported_devices(report@),
{
    let list: Vec<&str> = lines(report);
    let ghost all = texts(list@);
    let mut r: Vec<UsbDevice> = Vec::new();
    let mut i: usize = 0;
    assert(usb_views(r@) =~= gathered(all.take(0), line_device()));
    while i < list.len()
        invariant
            all == texts(list@),
            i <= list@.len(),
            usb_views(r@) == gathered(all.take(i as int), line_device()),
        decreases list@.len() - i,
    {
        let ghost before = r@;
        proof {
            lemma_gathered_step(all, line_device(), i as int);
            assert(all[i as int] == list@[i as int]@);
        }
        if let Some(device) = line_to_device(list[i]) {
            r.push(device);
            assert(usb_views(r@) =~= usb_views(before).push(device@));
        }
        assert(usb_views(r@) =~= gathered(all.take(i + 1), line_device()));
        i += 1;
    }
    assert(all.take(i as int) =~= all);
    r
}

/// The devices that the lister printed; none if it could not be run.
pub fn get_usb_devices(stdout: Option<Vec<u8>>) -> (r: Vec<UsbDevice>)
    ensures
        stdout is None ==> usb_views(r@) == Seq::<UsbDeviceView>::empty(),
        stdout is Some ==> usb_views(r@) == reported_devices(utf8_lossy(stdout->0@)),
        stdout is Some ==> faithful(stdout->0@),
{
    match stdout {
        Some(bytes) => {
            let report: String = lossy_text(bytes.as_slice());
            usb_devices_in(report.as_str())
        },
        None => {
            let r: Vec<UsbDevice> = Vec::new();
            assert(usb_views(r@) =~= Seq::empty());
            r
        },
    }
}

fn same_device(a: &UsbDevice, b: &UsbDevice) -> (r: bool)
    ensures
        r == (a@ == b@),
{
    let r = same_text(a.vendor_id.as_str(), b.vendor_id.as_str()) && same_text(
        a.product_id.as_str(),
        b.product_id.as_str(),
    ) && same_text(a.name.as_str(), b.name.as_str()) && same_text(a.path.as_str(), b.path.as_str());
    assert(r ==> a@ =~= b@);
    r
}

fn is_listed(list: &Vec<UsbDevice>, device: &UsbDevice) -> (r: bool)
    ensures
        r == usb_views(list@).contains(device@),
{
    let mut i: usize = 0;
    while i < list.len()
        invariant
            i <= list@.len(),
            forall|k: int| 0 <= k < i ==> #[trigger] usb_views(list@)[k] != device@,
        decreases list@.len() - i,
    {
        assert(usb_views(list@)[i as int] == list@[i as int]@);
        if same_device(&list[i], device) {
            return true;
        }
        i += 1;
    }
    false
}

fn device_text(d: &UsbDevice) -> (r: String)
    ensures
        r@ == device_data(d@),
{
    let mut object = new_object();
    put(&mut object, "vendor_id", Member::Text(d.vendor_id.clone()));
    put(&mut object, "product_id", Member::Text(d.product_id.clone()));
    put(&mut object, "name", Member::Text(d.name.clone()));
    put(&mut object, "path", Member::Text(d.path.clone()));
    object_to_text(object)
}

/// Adds the event `name` for each device of `list` that is not among `others`.
fn add_missing(r: &mut Vec<Event>, list: &Vec<UsbDevice>, others: &Vec<UsbDevice>, name: &str)
    ensures
        events(final(r)@) == events(old(r)@) + gathered(
            usb_views(list@),
            missing_from(usb_views(others@), name@),
        ),
{
    let ghost all = usb_views(list@);
    let ghost f = missing_from(usb_views(others@), name@);
    let ghost start = events(r@);
    let mut i: usize = 0;
    assert(start =~= start + gathered(all.take(0), f));
    while i < list.len()
        invariant
            all == usb_views(list@),
            f == missing_from(usb_views(others@), name@),
            i <= list@.len(),
            events(r@) == start + gathered(all.take(i as int), f),
        decreases list@.len() - i,
    {
        proof {
            lemma_gathered_step(all, f, i as int);
            assert(all[i as int] == list@[i as int]@);
        }
        if !is_listed(others, &list[i]) {
            add_event(r, data_event(name, device_text(&list[i])));
        }
        assert(events(r@) =~= start + gathered(all.take(i + 1), f));
        i += 1;
    }
    assert(all.take(i as int) =~= all);
}

/// Takes in the devices that are on the bus now.
pub fn usb_report(state: &mut SystemState, devices: Vec<UsbDevice>) -> (r: Vec<Event>)
    ensures
        final(state)@ == (SystemStateView { usb_devices: usb_views(devices@), ..old(state)@ }),
        events(r@) == usb_events(old(state)@.usb_devices, usb_views(devices@)),
{
    let mut r: Vec<Event> = no_events();
    add_missing(&mut r, &devices, &state.usb_devices, "OnUSBConnected");
    add_missing(&mut r, &state.usb_devices, &devices, "OnUSBDisconnected");
    assert(events(r@) =~= usb_events(state@.usb_devices, usb_views(devices@)));
    state.usb_devices = devices;
    r
}

/// Where the same devices are found again, in whatever order and number,
/// plugins are told nothing.
pub proof fn law_usb_settles(old: Seq<UsbDeviceView>, new: Seq<UsbDeviceView>)
    requires
        forall|d: UsbDeviceView| old.contains(d) <==> new.contains(d),
    ensures
        usb_events(old, new) == Seq::<EventView>::empty(),
{
    let f = missing_from(old, "OnUSBConnected"@);
    let g = missing_from(new, "OnUSBDisconnected"@);
    assert forall|i: int| 0 <= i < new.len() implies (#[trigger] f(new[i])).len() == 0 by {
        assert(new.contains(new[i]));
    }
    assert forall|i: int| 0 <= i < old.len() implies (#[trigger] g(old[i])).len() == 0 by {
        assert(old.contains(old[i]));
    }
    lemma_gathered_nothing(new, f);
    lemma_gathered_nothing(old, g);
    assert(usb_events(old, new) =~= Seq::<EventView>::empty());
}

/// A device that is new on the bus is announced as connected, and one that is
/// gone as disconnected.
pub proof fn law_usb_changes_announced(
    old: Seq<UsbDeviceView>,
    new: Seq<UsbDeviceView>,
    d: UsbDeviceView,
)
    ensures
        new.contains(d) && !old.contains(d) ==> usb_events(old, new).contains(
            carrying("OnUSBConnected"@, device_data(d)),
        ),
        old.contains(d) && !new.contains(d) ==> usb_events(old, new).contains(
            carrying("OnUSBDisconnected"@, device_data(d)),
        ),
{
    let f = missing_from(old, "OnUSBConnected"@);
    let g = missing_from(new, "OnUSBDisconnected"@);
    let all = usb_events(old, new);
    if new.contains(d) && !old.contains(d) {
        let e = carrying("OnUSBConnected"@, device_data(d));
        let i = choose|i: int| 0 <= i < new.len() && new[i] == d;
        assert(f(new[i])[0] == e);
        assert(f(new[i]).contains(e));
        lemma_gathered_contains(new, f, e);
        let k = choose|k: int| 0 <= k < gathered(new, f).len() && gathered(new, f)[k] == e;
        assert(all[k] == e);
    }
    if old.contains(d) && !new.contains(d) {
        let e = carrying("OnUSBDisconnected"@, device_data(d));
        let i = choose|i: int| 0 <= i < old.len() && old[i] == d;
        assert(g(old[i])[0] == e);
        assert(g(old[i]).contains(e));
        lemma_gathered_contains(old, g, e);
        let k = choose|k: int| 0 <= k < gathered(old, g).len() && gathered(old, g)[k] == e;
        assert(all[gathered(new, f).len() + k] == e);
    }
}

/// A device is read from a line of seven columns: the second and, without its
/// colons at the end, the fourth make up the path, the sixth the two numbers,
/// and all the rest of the line is the name. A line with fewer columns, or
/// without two numbers in the sixth, is no device.
pub proof fn law_device_is_read(
    columns: Seq<Seq<char>>,
    vendor: Seq<char>,
    product: Seq<char>,
    device: Seq<char>,
    colons: nat,
)
    requires
        0 < columns.len() <= 7,
        forall|i: int|
            0 <= i < columns.len() && (i < 6 || columns.len() < 7) ==> !(
            #[trigger] columns[i]).contains(' '),
        !vendor.contains(':'),
        !product.contains(':'),
        device.len() == 0 || device.last() != ':',
    ensures
        ({
            let found = device_in_line(joined(columns, seq![' ']));
            &&& columns.len() == 7 && columns[5] == vendor.push(':') + product && columns[3]
                == device + Seq::new(colons, |i: int| ':') ==> found == seq![
                UsbDeviceView {
                    vendor_id: vendor,
                    product_id: product,
                    name: columns[6],
                    path: columns[1].push(':') + device,
                },
            ]
            &&& columns.len() < 7 ==> found == Seq::<UsbDeviceView>::empty()
            &&& columns.len() == 7 && pieces_of(columns[5], ':').len() != 2 ==> found == Seq::<
                UsbDeviceView,
            >::empty()
        }),
{
    law_first_pieces_read_back(columns, 7, ' ');
    lemma_pieces_join(vendor, product, ':');
    law_pieces_rejoin(vendor, ':');
    law_pieces_rejoin(product, ':');
    law_drop_trailing(device, ':', colons);
    reveal_strlit(":");
    assert(seq![vendor] + seq![product] =~= seq![vendor, product]);
    assert(columns[1] + ":"@ + device =~= columns[1].push(':') + device);
}

/// The devices are read line by line, in order.
pub proof fn law_devices_are_read(line: Seq<char>, rest: Seq<char>)
    requires
        !line.contains('\n'),
    ensures
        reported_devices(line.push('\n') + rest) == device_in_line(strip_cr(line))
            + reported_devices(rest),
        line.len() > 0 ==> reported_devices(line) == device_in_line(line),
        reported_devices(Seq::empty()) == Seq::<UsbDeviceView>::empty(),
{
    lemma_gathered_lines(line, rest, line_device());
}

/// The data of a device are its two numbers, its name and its path, each under
/// its own key, and nothing else.
pub proof fn law_device_data(d: UsbDeviceView, members: Map<Seq<char>, MemberView>)
    requires
        members.dom() == set!["vendor_id"@, "product_id"@, "name"@, "path"@],
        members["vendor_id"@] == MemberView::Text(d.vendor_id),
        members["product_id"@] == MemberView::Text(d.product_id),
        members["name"@] == MemberView::Text(d.name),
        members["path"@] == MemberView::Text(d.path),
    ensures
        device_data(d) == object_text(members),
{
    assert(members =~= no_members().insert("vendor_id"@, MemberView::Text(d.vendor_id)).insert(
        "product_id"@,
        MemberView::Text(d.product_id),
    ).insert("name"@, MemberView::Text(d.name)).insert("path"@, MemberView::Text(d.path)));
}

/// Exactly the devices that were not there before are told as connected, in
/// order, and then exactly those that are no longer there as disconnected.
pub proof fn law_devices_are_told(old: Seq<UsbDeviceView>, new: Seq<UsbDeviceView>)
    ensures
        usb_events(old, new) == new.filter(|d: UsbDeviceView| !old.contains(d)).map_values(
            |d: UsbDeviceView| carrying("OnUSBConnected"@, device_data(d)),
        ) + old.filter(|d: UsbDeviceView| !new.contains(d)).map_values(
            |d: UsbDeviceView| carrying("OnUSBDisconnected"@, device_data(d)),
        ),
{
    lemma_gathered_filter(
        new,
        missing_from(old, "OnUSBConnected"@),
        |d: UsbDeviceView| !old.contains(d),
        |d: UsbDeviceView| carrying("OnUSBConnected"@, device_data(d)),
    );
    lemma_gathered_filter(
        old,
        missing_from(new, "OnUSBDisconnected"@),
        |d: UsbDeviceView| !new.contains(d),
        |d: UsbDeviceView| carrying("OnUSBDisconnected"@, device_data(d)),
    );
}

} // verus!
