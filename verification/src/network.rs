//! Network interfaces.

use crate::bytes::{faithful, lossy_text, utf8_lossy};
use crate::event::{add_event, carrying, data_event, events, no_events, Event, EventView};
use crate::gather::{
    gathered, lemma_gathered_contains, lemma_gathered_filter, lemma_gathered_nothing,
    lemma_gathered_same, lemma_gathered_step,
};
use crate::json::{new_object, no_members, object_text, object_to_text, put, Member, MemberView};
use crate::name_map::{
    as_map, key_index, keys_distinct, lemma_entry, lemma_key, lemma_placed, placed, NameMap,
};
use crate::state::{NetworkInterfaceState, NetworkInterfaceView, SystemState, SystemStateView};
use crate::text::{
    begins_with, copy_strings, law_pieces_rejoin, lemma_pieces_join, lines, lines_of, opt_text,
    pieces, pieces_of, same_option, same_strings, same_text, starts_with, strings, texts, trim,
    trimmed, words, words_of,
};
use vstd::prelude::*;

verus! {

/// Interfaces by name, in the order in which they are walked.
pub type InterfaceEntries = Seq<(Seq<char>, NetworkInterfaceView)>;

/// What was read of one interface: its name, the file of its operational state,
/// whether it has a directory for its wireless side, and what the tools for its
/// network and its addresses printed.
pub struct InterfaceReading {
    pub name: Vec<u8>,
    pub operstate: Option<String>,
    pub wireless: bool,
    pub ssid_output: Option<Vec<u8>>,
    pub address_output: Option<Vec<u8>>,
}

/// What was read of one interface, as text.
pub struct InterfaceReport {
    pub name: String,
    pub operstate: Option<String>,
    pub wireless: bool,
    pub ssid: Option<String>,
    pub addresses: Option<String>,
}

/// What was read of one interface, as a plain value.
#[verifier::ext_equal]
pub struct InterfaceReportView {
    pub name: Seq<char>,
    pub operstate: Option<Seq<char>>,
    pub wireless: bool,
    pub ssid: Option<Seq<char>>,
    pub addresses: Option<Seq<char>>,
}

impl View for InterfaceReport {
    type V = InterfaceReportView;

    open spec fn view(&self) -> InterfaceReportView {
        InterfaceReportView {
            name: self.name@,
            operstate: opt_text(self.operstate),
            wireless: self.wireless,
            ssid: opt_text(self.ssid),
            addresses: opt_text(self.addresses),
        }
    }
}

/// The reports of a list.
pub open spec fn report_views(v: Seq<InterfaceReport>) -> Seq<InterfaceReportView> {
    v.map_values(|r: InterfaceReport| r@)
}

/// The text of what a tool printed, if it ran.
pub open spec fn output_text(output: Option<Vec<u8>>) -> Option<Seq<char>> {
    match output {
        Some(bytes) => Some(utf8_lossy(bytes@)),
        None => None,
    }
}

/// What was read of one interface, decoded.
pub open spec fn decoded(r: InterfaceReading) -> InterfaceReportView {
    InterfaceReportView {
        name: utf8_lossy(r.name@),
        operstate: opt_text(r.operstate),
        wireless: r.wireless,
        ssid: output_text(r.ssid_output),
        addresses: output_text(r.address_output),
    }
}

/// What was read of one interface was decoded faithfully.
pub open spec fn reading_faithful(r: InterfaceReading) -> bool {
    &&& faithful(r.name@)
    &&& r.ssid_output is Some ==> faithful(r.ssid_output->0@)
    &&& r.address_output is Some ==> faithful(r.address_output->0@)
}

/// What was read of each interface, decoded.
pub open spec fn all_decoded(v: Seq<InterfaceReading>) -> Seq<InterfaceReportView> {
    v.map_values(|r: InterfaceReading| decoded(r))
}

/// The interface is up, by its operational state.
pub open spec fn reported_up(operstate: Option<Seq<char>>) -> bool {
    operstate is Some && trimmed(operstate->0) == "up"@
}

/// The kind of an interface, by its wireless side or else by its name.
pub open spec fn kind_of(name: Seq<char>, wireless: bool) -> Seq<char> {
    if wireless {
        "wifi"@
    } else if begins_with(name, "eth"@) || begins_with(name, "en"@) {
        "ethernet"@
    } else if begins_with(name, "wl"@) {
        "wifi"@
    } else if begins_with(name, "docker"@) || begins_with(name, "br-"@) {
        "bridge"@
    } else if begins_with(name, "veth"@) {
        "virtual"@
    } else {
        "unknown"@
    }
}

/// The interface is a wireless one that is up, and so may be in a network.
pub open spec fn is_live_wifi(name: Seq<char>, operstate: Option<Seq<char>>, wireless: bool) -> bool {
    kind_of(name, wireless) == "wifi"@ && reported_up(operstate)
}

/// The address in a line of the list of addresses: what stands before the slash
/// in its fourth column.
pub open spec fn address_in_line() -> spec_fn(Seq<char>) -> Seq<Seq<char>> {
    |line: Seq<char>|
        if words_of(line).len() > 3 {
            seq![pieces_of(words_of(line)[3], '/')[0]]
        } else {
            Seq::empty()
        }
}

/// The addresses in a list of addresses.
pub open spec fn reported_addresses(report: Seq<char>) -> Seq<Seq<char>> {
    gathered(lines_of(report), address_in_line())
}

/// The interface that a report describes.
pub open spec fn reported_interface(r: InterfaceReportView) -> NetworkInterfaceView {
    NetworkInterfaceView {
        name: r.name,
        is_up: reported_up(r.operstate),
        ip_addresses: match r.addresses {
            Some(report) => reported_addresses(report),
            None => Seq::empty(),
        },
        interface_type: kind_of(r.name, r.wireless),
        ssid: if is_live_wifi(r.name, r.operstate, r.wireless) && r.ssid is Some && trimmed(
            r.ssid->0,
        ).len() > 0 {
            Some(trimmed(r.ssid->0))
        } else {
            None
        },
    }
}

/// The interfaces that reports describe. The loopback interface is left out.
pub open spec fn reported_interfaces(reports: Seq<InterfaceReportView>) -> InterfaceEntries
    decreases reports.len(),
{
    if reports.len() == 0 {
        Seq::empty()
    } else {
        let before = reported_interfaces(reports.drop_last());
        let r = reports.last();
        if r.name == "lo"@ {
            before
        } else {
            placed(before, r.name, reported_interface(r))
        }
    }
}

fn is_reported_up(operstate: &Option<String>) -> (r: bool)
    ensures
        r == reported_up(opt_text(*operstate)),
{
    match operstate {
        Some(text) => same_text(trim(text.as_str()), "up"),
        None => false,
    }
}

/// The kind of an interface.
pub fn interface_kind(name: &str, wireless: bool) -> (r: &'static str)
    ensures
        r@ == kind_of(name@, wireless),
{
    if wireless {
        "wifi"
    } else if starts_with(name, "eth") || starts_with(name, "en") {
        "ethernet"
    } else if starts_with(name, "wl") {
        "wifi"
    } else if starts_with(name, "docker") || starts_with(name, "br-") {
        "bridge"
    } else if starts_with(name, "veth") {
        "virtual"
    } else {
        "unknown"
    }
}

/// Is this a wireless interface that is up?
pub fn may_have_ssid(name: &str, operstate: &Option<String>, wireless: bool) -> (r: bool)
    ensures
        r == is_live_wifi(name@, opt_text(*operstate), wireless),
{
    same_text(interface_kind(name, wireless), "wifi") && is_reported_up(operstate)
}

/// The name of an interface, as text.
pub fn interface_name(name: &[u8]) -> (r: String)
    ensures
        r@ == utf8_lossy(name@),
        faithful(name@),
{
    lossy_text(name)
}

/// Is there a network to ask for, of the interface with this name?
pub fn wants_ssid(name: &[u8], operstate: &Option<String>, wireless: bool) -> (r: bool)
    ensures
        r == is_live_wifi(utf8_lossy(name@), opt_text(*operstate), wireless),
        faithful(name@),
{
    let text: String = interface_name(name);
    may_have_ssid(text.as_str(), operstate, wireless)
}

/// Is this the name of the loopback interface?
pub fn is_loopback(name: &[u8]) -> (r: bool)
    ensures
        r == (utf8_lossy(name@) == "lo"@),
        faithful(name@),
{
    let text: String = interface_name(name);
    same_text(text.as_str(), "lo")
}

/// The addresses in a list of addresses.
pub fn addresses_in(report: &str) -> (r: Vec<String>)
    ensures
        strings(r@) == reported_addresses(report@),
{
    let list: Vec<&str> = lines(report);
    let ghost all = texts(list@);
    let mut r: Vec<String> = Vec::new();
    let mut i: usize = 0;
    assert(strings(r@) =~= gathered(all.take(0), address_in_line()));
    while i < list.len()
        invariant
            all == texts(list@),
            i <= list@.len(),
            strings(r@) == gathered(all.take(i as int), address_in_line()),
        decreases list@.len() - i,
    {
        let ghost before = r@;
        proof {
            lemma_gathered_step(all, address_in_line(), i as int);
            assert(all[i as int] == list@[i as int]@);
        }
        let columns: Vec<&str> = words(list[i]);
        assert(texts(columns@).len() == columns@.len());
        if columns.len() > 3 {
            assert(texts(columns@)[3] == columns@[3]@);
            let parts: Vec<&str> = pieces(columns[3], '/');
            assert(texts(parts@).len() == parts@.len());
            assert(texts(parts@)[0] == parts@[0]@);
            r.push(parts[0].to_string());
            assert(strings(r@) =~= strings(before).push(parts@[0]@));
        }
        assert(strings(r@) =~= gathered(all.take(i + 1), address_in_line()));
        i += 1;
    }
    assert(all.take(i as int) =~= all);
    r
}

/// The addresses that the tool printed; none if it could not be run.
pub fn get_interface_ips(stdout: Option<Vec<u8>>) -> (r: Vec<String>)
    ensures
        stdout is None ==> strings(r@) == Seq::<Seq<char>>::empty(),
        stdout is Some ==> strings(r@) == reported_addresses(utf8_lossy(stdout->0@)),
        stdout is Some ==> faithful(stdout->0@),
{
    match stdout {
        Some(bytes) => {
            let report: String = lossy_text(bytes.as_slice());
            addresses_in(report.as_str())
        },
        None => {
            let r: Vec<String> = Vec::new();
            assert(strings(r@) =~= Seq::empty());
            r
        },
    }
}

/// The interface that a report describes.
pub fn interface_in(report: InterfaceReport) -> (r: NetworkInterfaceState)
    ensures
        r@ == reported_interface(report@),
{
    let is_up = is_reported_up(&report.operstate);
    let interface_type: String = interface_kind(report.name.as_str(), report.wireless).to_string();
    let ssid: Option<String> = if same_text(interface_type.as_str(), "wifi") && is_up {
        match &report.ssid {
            Some(text) => {
                let ssid: &str = trim(text.as_str());
                if ssid.is_empty() {
                    None
                } else {
                    Some(ssid.to_string())
                }
            },
            None => None,
        }
    } else {
        None
    };
    let ip_addresses: Vec<String> = match &report.addresses {
        Some(text) => addresses_in(text.as_str()),
        None => Vec::new(),
    };
    assert(report.addresses is None ==> strings(ip_addresses@) =~= Seq::empty());
    NetworkInterfaceState { name: report.name, is_up, ip_addresses, interface_type, ssid }
}

/// What was read of one interface, decoded.
fn decode(reading: InterfaceReading) -> (r: InterfaceReport)
    ensures
        r@ == decoded(reading),
        reading_faithful(reading),
{
    InterfaceReport {
        name: interface_name(reading.name.as_slice()),
        operstate: reading.operstate,
        wireless: reading.wireless,
        ssid: match reading.ssid_output {
            Some(bytes) => Some(lossy_text(bytes.as_slice())),
            None => None,
        },
        addresses: match reading.address_output {
            Some(bytes) => Some(lossy_text(bytes.as_slice())),
            None => None,
        },
    }
}

/// The interfaces that reports describe.
pub fn interfaces_in(reports: Vec<InterfaceReport>) -> (r: NameMap<NetworkInterfaceState>)
    ensures
        r.wf(),
        r.entries() == reported_interfaces(report_views(reports@)),
{
    let ghost all = report_views(reports@);
    let mut r: NameMap<NetworkInterfaceState> = NameMap::new();
    assert(all.take(0) =~= Seq::empty());
    assert(r.entries() =~= Seq::empty());
    for report in it: reports
        invariant
            it.seq() == reports@,
            all == report_views(reports@),
            r.wf(),
            r.entries() == reported_interfaces(all.take(it.index() as int)),
    {
        proof {
            let next = all.take(it.index() as int + 1);
            assert(next.drop_last() =~= all.take(it.index() as int));
            assert(next.last() == report@);
        }
        if !same_text(report.name.as_str(), "lo") {
            r.insert(report.name.clone(), interface_in(report));
        }
    }
    assert(all.take(all.len() as int) =~= all);
    r
}

/// The interfaces that were read.
pub fn get_network_interfaces(readings: Vec<InterfaceReading>) -> (r: NameMap<
    NetworkInterfaceState,
>)
    ensures
        r.wf(),
        r.entries() == reported_interfaces(all_decoded(readings@)),
        forall|i: int| 0 <= i < readings@.len() ==> reading_faithful(#[trigger] readings@[i]),
{
    let ghost all = all_decoded(readings@);
    let mut reports: Vec<InterfaceReport> = Vec::new();
    assert(report_views(reports@) =~= all.take(0));
    for reading in it: readings
        invariant
            it.seq() == readings@,
            all == all_decoded(readings@),
            report_views(reports@) == all.take(it.index() as int),
            forall|i: int| 0 <= i < it.index() ==> reading_faithful(#[trigger] readings@[i]),
    {
        let ghost before = reports@;
        reports.push(decode(reading));
        assert(report_views(reports@) =~= report_views(before).push(decoded(reading)));
        assert(all.take(it.index() as int + 1) =~= all.take(it.index() as int).push(
            decoded(reading),
        ));
    }
    assert(all.take(all.len() as int) =~= all);
    interfaces_in(reports)
}

/// The data of an event about the state of an interface.
pub open spec fn interface_data(name: Seq<char>, i: NetworkInterfaceView) -> Seq<char> {
    object_text(
        no_members().insert("interface"@, MemberView::Text(name)).insert(
            "type"@,
            MemberView::Text(i.interface_type),
        ).insert("is_up"@, MemberView::Flag(i.is_up)),
    )
}

/// The data of an event about the network that an interface is in.
pub open spec fn ssid_data(name: Seq<char>, ssid: Seq<char>) -> Seq<char> {
    object_text(
        no_members().insert("interface"@, MemberView::Text(name)).insert(
            "ssid"@,
            MemberView::Text(ssid),
        ),
    )
}

/// The data of an event about the addresses of an interface.
pub open spec fn address_data(
    name: Seq<char>,
    old: Seq<Seq<char>>,
    new: Seq<Seq<char>>,
) -> Seq<char> {
    object_text(
        no_members().insert("interface"@, MemberView::Text(name)).insert(
            "old_ips"@,
            MemberView::List(old),
        ).insert("new_ips"@, MemberView::List(new)),
    )
}

/// The events of an interface that went up or down.
pub open spec fn link_events(
    name: Seq<char>,
    old: NetworkInterfaceView,
    new: NetworkInterfaceView,
) -> Seq<EventView> {
    if old.is_up == new.is_up {
        Seq::empty()
    } else {
        seq![
            carrying(
                if new.is_up {
                    "OnNetworkUp"@
                } else {
                    "OnNetworkDown"@
                },
                interface_data(name, new),
            ),
        ]
    }
}

/// The events of a wireless interface that joined or left a network.
pub open spec fn ssid_events(
    name: Seq<char>,
    old: NetworkInterfaceView,
    new: NetworkInterfaceView,
) -> Seq<EventView> {
    if new.interface_type != "wifi"@ || old.ssid == new.ssid {
        Seq::empty()
    } else {
        match new.ssid {
            Some(ssid) => seq![carrying("OnWifiConnected"@, ssid_data(name, ssid))],
            None => seq![carrying("OnWifiDisconnected"@, name)],
        }
    }
}

/// The events of an interface whose addresses changed.
pub open spec fn address_events(
    name: Seq<char>,
    old: NetworkInterfaceView,
    new: NetworkInterfaceView,
) -> Seq<EventView> {
    if old.ip_addresses == new.ip_addresses {
        Seq::empty()
    } else {
        seq![
            carrying(
                "OnIPAddressChange"@,
                address_data(name, old.ip_addresses, new.ip_addresses),
            ),
        ]
    }
}

/// The events of an interface that is there now, where `old` were before.
pub open spec fn interface_events(
    old: Map<Seq<char>, NetworkInterfaceView>,
) -> spec_fn((Seq<char>, NetworkInterfaceView)) -> Seq<EventView> {
    |e: (Seq<char>, NetworkInterfaceView)|
        if old.dom().contains(e.0) {
            link_events(e.0, old[e.0], e.1) + ssid_events(e.0, old[e.0], e.1) + address_events(
                e.0,
                old[e.0],
                e.1,
            )
        } else {
            seq![carrying("OnNetworkInterfaceAdded"@, interface_data(e.0, e.1))]
        }
}

/// The event of an interface that is not among `new`.
pub open spec fn removal_events(
    new: Map<Seq<char>, NetworkInterfaceView>,
) -> spec_fn((Seq<char>, NetworkInterfaceView)) -> Seq<EventView> {
    |e: (Seq<char>, NetworkInterfaceView)|
        if new.dom().contains(e.0) {
            Seq::empty()
        } else {
            seq![carrying("OnNetworkInterfaceRemoved"@, e.0)]
        }
}

/// The events of finding the interfaces `new` where `old` were before.
pub open spec fn network_events(old: InterfaceEntries, new: InterfaceEntries) -> Seq<EventView> {
    gathered(new, interface_events(as_map(old))) + gathered(old, removal_events(as_map(new)))
}

fn interface_text(name: &String, i: &NetworkInterfaceState) -> (r: String)
    ensures
        r@ == interface_data(name@, i@),
{
    let mut object = new_object();
    put(&mut object, "interface", Member::Text(name.clone()));
    put(&mut object, "type", Member::Text(i.interface_type.clone()));
    put(&mut object, "is_up", Member::Flag(i.is_up));
    object_to_text(object)
}

fn ssid_text(name: &String, ssid: &String) -> (r: String)
    ensures
        r@ == ssid_data(name@, ssid@),
{
    let mut object = new_object();
    put(&mut object, "interface", Member::Text(name.clone()));
    put(&mut object, "ssid", Member::Text(ssid.clone()));
    object_to_text(object)
}

fn address_text(name: &String, old_ips: &Vec<String>, new_ips: &Vec<String>) -> (r: String)
    ensures
        r@ == address_data(name@, strings(old_ips@), strings(new_ips@)),
{
    let mut object = new_object();
    put(&mut object, "interface", Member::Text(name.clone()));
    put(&mut object, "old_ips", Member::List(copy_strings(old_ips)));
    put(&mut object, "new_ips", Member::List(copy_strings(new_ips)));
    object_to_text(object)
}

/// Adds the events of an interface that was there before and is there now.
fn add_changes(
    r: &mut Vec<Event>,
    name: &String,
    before: &NetworkInterfaceState,
    now: &NetworkInterfaceState,
)
    ensures
        events(final(r)@) == events(old(r)@) + (link_events(name@, before@, now@) + ssid_events(
            name@,
            before@,
            now@,
        ) + address_events(name@, before@, now@)),
{
    let ghost start = events(r@);
    if before.is_up != now.is_up {
        let event_name: &str = if now.is_up { "OnNetworkUp" } else { "OnNetworkDown" };
        add_event(r, data_event(event_name, interface_text(name, now)));
    }
    assert(events(r@) =~= start + link_events(name@, before@, now@));
    let ghost middle = events(r@);
    if same_text(now.interface_type.as_str(), "wifi") && !same_option(&before.ssid, &now.ssid) {
        match &now.ssid {
            Some(ssid) => add_event(r, data_event("OnWifiConnected", ssid_text(name, ssid))),
            None => add_event(r, data_event("OnWifiDisconnected", name.clone())),
        }
    }
    assert(events(r@) =~= middle + ssid_events(name@, before@, now@));
    let ghost late = events(r@);
    if !same_strings(&before.ip_addresses, &now.ip_addresses) {
        let data: String = address_text(name, &before.ip_addresses, &now.ip_addresses);
        add_event(r, data_event("OnIPAddressChange", data));
    }
    assert(events(r@) =~= late + address_events(name@, before@, now@));
    assert(events(r@) =~= start + (link_events(name@, before@, now@) + ssid_events(
        name@,
        before@,
        now@,
    ) + address_events(name@, before@, now@)));
}

/// Takes in the interfaces that are there now.
pub fn network_report(
    state: &mut SystemState,
    interfaces: NameMap<NetworkInterfaceState>,
) -> (r: Vec<Event>)
    ensures
        final(state)@ == (SystemStateView {
            network_interfaces: interfaces.entries(),
            ..old(state)@
        }),
        events(r@) == network_events(old(state)@.network_interfaces, interfaces.entries()),
{
    let mut r: Vec<Event> = no_events();
    let ghost before = state@.network_interfaces;
    let ghost now = interfaces.entries();
    let ghost f = interface_events(as_map(before));
    let ghost g = removal_events(as_map(now));
    let mut i: usize = 0;
    assert(events(r@) =~= gathered(now.take(0), f));
    while i < interfaces.len()
        invariant
            *state == *old(state),
            before == state@.network_interfaces,
            now == interfaces.entries(),
            f == interface_events(as_map(before)),
            i <= now.len(),
            events(r@) == gathered(now.take(i as int), f),
        decreases now.len() - i,
    {
        proof {
            lemma_gathered_step(now, f, i as int);
        }
        let ghost start = events(r@);
        let name: &String = interfaces.name_at(i);
        let interface: &NetworkInterfaceState = interfaces.value_at(i);
        match state.network_interfaces.get(name.as_str()) {
            None => add_event(
                &mut r,
                data_event("OnNetworkInterfaceAdded", interface_text(name, interface)),
            ),
            Some(old_interface) => add_changes(&mut r, name, old_interface, interface),
        }
        assert(events(r@) =~= start + f(now[i as int]));
        i += 1;
    }
    assert(now.take(i as int) =~= now);
    let ghost middle = events(r@);
    let mut k: usize = 0;
    assert(events(r@) =~= middle + gathered(before.take(0), g));
    while k < state.network_interfaces.len()
        invariant
            *state == *old(state),
            before == state@.network_interfaces,
            now == interfaces.entries(),
            g == removal_events(as_map(now)),
            k <= before.len(),
            events(r@) == middle + gathered(before.take(k as int), g),
        decreases before.len() - k,
    {
        proof {
            lemma_gathered_step(before, g, k as int);
        }
        let name: &String = state.network_interfaces.name_at(k);
        if !interfaces.contains_key(name.as_str()) {
            add_event(&mut r, data_event("OnNetworkInterfaceRemoved", name.clone()));
        }
        assert(events(r@) =~= middle + gathered(before.take(k + 1), g));
        k += 1;
    }
    assert(before.take(k as int) =~= before);
    state.network_interfaces = interfaces;
    r
}

/// Where the same interfaces are found again, plugins are told nothing.
pub proof fn law_network_settles(entries: InterfaceEntries)
    requires
        keys_distinct(entries),
    ensures
        network_events(entries, entries) == Seq::<EventView>::empty(),
{
    let f = interface_events(as_map(entries));
    let g = removal_events(as_map(entries));
    assert forall|i: int| 0 <= i < entries.len() implies (#[trigger] f(entries[i])).len() == 0 by {
        lemma_entry(entries, i);
    }
    assert forall|i: int| 0 <= i < entries.len() implies (#[trigger] g(entries[i])).len() == 0 by {
        lemma_entry(entries, i);
    }
    lemma_gathered_nothing(entries, f);
    lemma_gathered_nothing(entries, g);
    assert(network_events(entries, entries) =~= Seq::<EventView>::empty());
}

/// An interface that appears is announced as added, and one that disappears as
/// removed.
pub proof fn law_interfaces_announced(old: InterfaceEntries, new: InterfaceEntries, name: Seq<char>)
    ensures
        as_map(new).dom().contains(name) && !as_map(old).dom().contains(name) ==> network_events(
            old,
            new,
        ).contains(carrying("OnNetworkInterfaceAdded"@, interface_data(name, as_map(new)[name]))),
        as_map(old).dom().contains(name) && !as_map(new).dom().contains(name) ==> network_events(
            old,
            new,
        ).contains(carrying("OnNetworkInterfaceRemoved"@, name)),
{
    let f = interface_events(as_map(old));
    let g = removal_events(as_map(new));
    let all = network_events(old, new);
    lemma_key(old, name);
    lemma_key(new, name);
    if as_map(new).dom().contains(name) && !as_map(old).dom().contains(name) {
        let e = carrying("OnNetworkInterfaceAdded"@, interface_data(name, as_map(new)[name]));
        let i = key_index(new, name);
        assert(f(new[i])[0] == e);
        assert(f(new[i]).contains(e));
        lemma_gathered_contains(new, f, e);
        let k = choose|k: int| 0 <= k < gathered(new, f).len() && gathered(new, f)[k] == e;
        assert(all[k] == e);
    }
    if as_map(old).dom().contains(name) && !as_map(new).dom().contains(name) {
        let e = carrying("OnNetworkInterfaceRemoved"@, name);
        let i = key_index(old, name);
        assert(g(old[i])[0] == e);
        assert(g(old[i]).contains(e));
        lemma_gathered_contains(old, g, e);
        let k = choose|k: int| 0 <= k < gathered(old, g).len() && gathered(old, g)[k] == e;
        assert(all[gathered(new, f).len() + k] == e);
    }
}

/// The kind of an interface: a wireless side makes it a WiFi one, whatever its
/// name; without one, the first letters of the name tell.
pub proof fn law_kinds(name: Seq<char>)
    ensures
        kind_of(name, true) == "wifi"@,
        begins_with(name, "eth"@) || begins_with(name, "en"@) ==> kind_of(name, false)
            == "ethernet"@,
        begins_with(name, "wl"@) ==> kind_of(name, false) == "wifi"@,
        begins_with(name, "docker"@) || begins_with(name, "br-"@) ==> kind_of(name, false)
            == "bridge"@,
        begins_with(name, "veth"@) ==> kind_of(name, false) == "virtual"@,
        !begins_with(name, "eth"@) && !begins_with(name, "en"@) && !begins_with(name, "wl"@)
            && !begins_with(name, "docker"@) && !begins_with(name, "br-"@) && !begins_with(
            name,
            "veth"@,
        ) ==> kind_of(name, false) == "unknown"@,
{
    reveal_strlit("eth");
    reveal_strlit("en");
    reveal_strlit("wl");
    reveal_strlit("docker");
    reveal_strlit("br-");
    reveal_strlit("veth");
    lemma_first_letter(name, "eth"@);
    lemma_first_letter(name, "en"@);
    lemma_first_letter(name, "wl"@);
    lemma_first_letter(name, "docker"@);
    lemma_first_letter(name, "br-"@);
    lemma_first_letter(name, "veth"@);
    assert("eth"@[0] == 'e' && "en"@[0] == 'e' && "wl"@[0] == 'w');
    assert("docker"@[0] == 'd' && "br-"@[0] == 'b' && "veth"@[0] == 'v');
}

proof fn lemma_first_letter(name: Seq<char>, prefix: Seq<char>)
    requires
        prefix.len() > 0,
    ensures
        begins_with(name, prefix) ==> name[0] == prefix[0],
{
    if begins_with(name, prefix) {
        assert(name.take(prefix.len() as int)[0] == name[0]);
    }
}

/// What is known of an interface: its name, whether its state is that it is up,
/// its kind, the addresses that were listed, and its network. It has a network
/// only where it is a WiFi one that is up, and the tool gave a name that is not
/// blank.
pub proof fn law_interface_is_read(r: InterfaceReportView)
    ensures
        ({
            let i = reported_interface(r);
            let up = r.operstate is Some && trimmed(r.operstate->0) == "up"@;
            let wifi = kind_of(r.name, r.wireless) == "wifi"@;
            let named = r.ssid is Some && trimmed(r.ssid->0).len() > 0;
            &&& i.name == r.name
            &&& i.is_up == up
            &&& i.interface_type == kind_of(r.name, r.wireless)
            &&& r.addresses is None ==> i.ip_addresses == Seq::<Seq<char>>::empty()
            &&& r.addresses is Some ==> i.ip_addresses == reported_addresses(r.addresses->0)
            &&& wifi && up && named ==> i.ssid == Some(trimmed(r.ssid->0))
            &&& !wifi || !up || !named ==> i.ssid is None
            &&& is_live_wifi(r.name, r.operstate, r.wireless) == (wifi && up)
        }),
{
}

/// The addresses are, line by line, what stands before the first slash in the
/// fourth word, of the lines that have four words.
pub proof fn law_addresses_are_read(report: Seq<char>, address: Seq<char>, after: Seq<char>)
    requires
        !address.contains('/'),
        after.len() == 0 || after[0] == '/',
    ensures
        reported_addresses(report) == lines_of(report).filter(
            |line: Seq<char>| words_of(line).len() >= 4,
        ).map_values(|line: Seq<char>| pieces_of(words_of(line)[3], '/')[0]),
        pieces_of(address + after, '/')[0] == address,
{
    lemma_gathered_filter(
        lines_of(report),
        address_in_line(),
        |line: Seq<char>| words_of(line).len() >= 4,
        |line: Seq<char>| pieces_of(words_of(line)[3], '/')[0],
    );
    law_pieces_rejoin(address, '/');
    if after.len() == 0 {
        assert(address + after =~= address);
    } else {
        assert(address + after =~= address.push('/') + after.drop_first());
        lemma_pieces_join(address, after.drop_first(), '/');
    }
}

proof fn lemma_interfaces_distinct(reports: Seq<InterfaceReportView>)
    ensures
        keys_distinct(reported_interfaces(reports)),
    decreases reports.len(),
{
    if reports.len() > 0 {
        lemma_interfaces_distinct(reports.drop_last());
        lemma_placed(
            reported_interfaces(reports.drop_last()),
            reports.last().name,
            reported_interface(reports.last()),
        );
    }
}

/// Each interface is as its last report says, and one without a report is not
/// there; neither is the loopback interface, whatever is reported of it.
pub proof fn law_interfaces_are_read(
    reports: Seq<InterfaceReportView>,
    name: Seq<char>,
    i: int,
)
    requires
        -1 <= i < reports.len(),
        i >= 0 ==> reports[i].name == name,
        forall|j: int| i < j < reports.len() ==> (#[trigger] reports[j]).name != name,
    ensures
        ({
            let all = reported_interfaces(reports);
            &&& keys_distinct(all)
            &&& as_map(all).dom().contains(name) == (i >= 0 && name != "lo"@)
            &&& i >= 0 && name != "lo"@ ==> as_map(all)[name] == reported_interface(reports[i])
        }),
    decreases reports.len(),
{
    lemma_interfaces_distinct(reports);
    if reports.len() == 0 {
        lemma_key(reported_interfaces(reports), name);
    } else {
        let rest = reports.drop_last();
        let last = reports.last();
        assert(last == reports[reports.len() - 1]);
        lemma_interfaces_distinct(rest);
        lemma_placed(reported_interfaces(rest), last.name, reported_interface(last));
        if i < reports.len() - 1 {
            if i >= 0 {
                assert(rest[i] == reports[i]);
            }
            assert forall|j: int| i < j < rest.len() implies (#[trigger] rest[j]).name != name by {
                assert(rest[j] == reports[j]);
            }
            law_interfaces_are_read(rest, name, i);
        } else if name == "lo"@ {
            lemma_no_loopback(rest);
        }
    }
}

proof fn lemma_no_loopback(reports: Seq<InterfaceReportView>)
    ensures
        !as_map(reported_interfaces(reports)).dom().contains("lo"@),
    decreases reports.len(),
{
    if reports.len() == 0 {
        lemma_key(reported_interfaces(reports), "lo"@);
    } else {
        let rest = reports.drop_last();
        lemma_no_loopback(rest);
        lemma_interfaces_distinct(rest);
        lemma_placed(
            reported_interfaces(rest),
            reports.last().name,
            reported_interface(reports.last()),
        );
    }
}

/// The data of the state of an interface are its name, its kind and whether it
/// is up; those of its network are its name and the network; those of its
/// addresses are its name, the old ones and the new ones.
pub proof fn law_interface_data(
    name: Seq<char>,
    i: NetworkInterfaceView,
    ssid: Seq<char>,
    old_ips: Seq<Seq<char>>,
    new_ips: Seq<Seq<char>>,
    members: Map<Seq<char>, MemberView>,
)
    requires
        members["interface"@] == MemberView::Text(name),
    ensures
        members.dom() == set!["interface"@, "type"@, "is_up"@] && members["type"@]
            == MemberView::Text(i.interface_type) && members["is_up"@] == MemberView::Flag(i.is_up)
            ==> interface_data(name, i) == object_text(members),
        members.dom() == set!["interface"@, "ssid"@] && members["ssid"@] == MemberView::Text(ssid)
            ==> ssid_data(name, ssid) == object_text(members),
        members.dom() == set!["interface"@, "old_ips"@, "new_ips"@] && members["old_ips"@]
            == MemberView::List(old_ips) && members["new_ips"@] == MemberView::List(new_ips)
            ==> address_data(name, old_ips, new_ips) == object_text(members),
{
    let start = no_members().insert("interface"@, MemberView::Text(name));
    if members.dom() == set!["interface"@, "type"@, "is_up"@] && members["type"@]
        == MemberView::Text(i.interface_type) && members["is_up"@] == MemberView::Flag(i.is_up) {
        assert(members =~= start.insert("type"@, MemberView::Text(i.interface_type)).insert(
            "is_up"@,
            MemberView::Flag(i.is_up),
        ));
    }
    if members.dom() == set!["interface"@, "ssid"@] && members["ssid"@] == MemberView::Text(ssid) {
        assert(members =~= start.insert("ssid"@, MemberView::Text(ssid)));
    }
    if members.dom() == set!["interface"@, "old_ips"@, "new_ips"@] && members["old_ips"@]
        == MemberView::List(old_ips) && members["new_ips"@] == MemberView::List(new_ips) {
        assert(members =~= start.insert("old_ips"@, MemberView::List(old_ips)).insert(
            "new_ips"@,
            MemberView::List(new_ips),
        ));
    }
}

/// What is told of an interface that is there, where `was` says what was known of
/// it before, if anything was: that it is new; or that it went up or down, then
/// that it joined another network or left its network, and then that its
/// addresses changed.
pub open spec fn told_of(
    was: Option<NetworkInterfaceView>,
    name: Seq<char>,
    now: NetworkInterfaceView,
) -> Seq<EventView> {
    match was {
        None => seq![carrying("OnNetworkInterfaceAdded"@, interface_data(name, now))],
        Some(was) => {
            let link = if was.is_up && !now.is_up {
                seq![carrying("OnNetworkDown"@, interface_data(name, now))]
            } else if !was.is_up && now.is_up {
                seq![carrying("OnNetworkUp"@, interface_data(name, now))]
            } else {
                Seq::empty()
            };
            let joined = if now.interface_type == "wifi"@ && now.ssid is Some && was.ssid
                != now.ssid {
                seq![carrying("OnWifiConnected"@, ssid_data(name, now.ssid->0))]
            } else {
                Seq::empty()
            };
            let left = if now.interface_type == "wifi"@ && now.ssid is None && was.ssid is Some {
                seq![carrying("OnWifiDisconnected"@, name)]
            } else {
                Seq::empty()
            };
            let moved = if was.ip_addresses == now.ip_addresses {
                Seq::empty()
            } else {
                seq![
                    carrying(
                        "OnIPAddressChange"@,
                        address_data(name, was.ip_addresses, now.ip_addresses),
                    ),
                ]
            };
            link + joined + left + moved
        },
    }
}

/// What is told of the network is what is told of each interface that is there,
/// in order, and then the removal of exactly those that are no longer there.
pub proof fn law_network_is_told(old: InterfaceEntries, new: InterfaceEntries)
    ensures
        network_events(old, new) == gathered(
            new,
            |e: (Seq<char>, NetworkInterfaceView)|
                told_of(
                    if as_map(old).dom().contains(e.0) {
                        Some(as_map(old)[e.0])
                    } else {
                        None
                    },
                    e.0,
                    e.1,
                ),
        ) + old.filter(
            |e: (Seq<char>, NetworkInterfaceView)| !as_map(new).dom().contains(e.0),
        ).map_values(
            |e: (Seq<char>, NetworkInterfaceView)| carrying("OnNetworkInterfaceRemoved"@, e.0),
        ),
{
    let f = interface_events(as_map(old));
    let g = |e: (Seq<char>, NetworkInterfaceView)|
        told_of(
            if as_map(old).dom().contains(e.0) {
                Some(as_map(old)[e.0])
            } else {
                None
            },
            e.0,
            e.1,
        );
    assert forall|e: (Seq<char>, NetworkInterfaceView)| #[trigger] f(e) == g(e) by {
        assert(f(e) =~= g(e));
    }
    lemma_gathered_same(new, f, g);
    lemma_gathered_filter(
        old,
        removal_events(as_map(new)),
        |e: (Seq<char>, NetworkInterfaceView)| !as_map(new).dom().contains(e.0),
        |e: (Seq<char>, NetworkInterfaceView)| carrying("OnNetworkInterfaceRemoved"@, e.0),
    );
}

/// Of an interface that stays, going up or down is told; so is, of a WiFi one,
/// every network other than the one before, from whichever network or none it
/// came, and the leaving of a network; and so is any change of its addresses.
pub proof fn law_interface_changes_announced(
    old: InterfaceEntries,
    new: InterfaceEntries,
    name: Seq<char>,
)
    requires
        as_map(old).dom().contains(name),
        as_map(new).dom().contains(name),
    ensures
        ({
            let was = as_map(old)[name];
            let now = as_map(new)[name];
            let told = network_events(old, new);
            &&& !was.is_up && now.is_up ==> told.contains(
                carrying("OnNetworkUp"@, interface_data(name, now)),
            )
            &&& was.is_up && !now.is_up ==> told.contains(
                carrying("OnNetworkDown"@, interface_data(name, now)),
            )
            &&& now.interface_type == "wifi"@ && now.ssid is Some && was.ssid != now.ssid
                ==> told.contains(carrying("OnWifiConnected"@, ssid_data(name, now.ssid->0)))
            &&& now.interface_type == "wifi"@ && now.ssid is None && was.ssid is Some
                ==> told.contains(carrying("OnWifiDisconnected"@, name))
            &&& was.ip_addresses != now.ip_addresses ==> told.contains(
                carrying(
                    "OnIPAddressChange"@,
                    address_data(name, was.ip_addresses, now.ip_addresses),
                ),
            )
        }),
{
    let was = as_map(old)[name];
    let now = as_map(new)[name];
    lemma_key(new, name);
    if !was.is_up && now.is_up {
        lemma_told(old, new, name, carrying("OnNetworkUp"@, interface_data(name, now)), 0);
    }
    if was.is_up && !now.is_up {
        lemma_told(old, new, name, carrying("OnNetworkDown"@, interface_data(name, now)), 0);
    }
    let a = link_events(name, was, now).len() as int;
    if now.interface_type == "wifi"@ && now.ssid is Some && was.ssid != now.ssid {
        lemma_told(
            old,
            new,
            name,
            carrying("OnWifiConnected"@, ssid_data(name, now.ssid->0)),
            a,
        );
    }
    if now.interface_type == "wifi"@ && now.ssid is None && was.ssid is Some {
        lemma_told(old, new, name, carrying("OnWifiDisconnected"@, name), a);
    }
    if was.ip_addresses != now.ip_addresses {
        let b = a + ssid_events(name, was, now).len();
        lemma_told(
            old,
            new,
            name,
            carrying("OnIPAddressChange"@, address_data(name, was.ip_addresses, now.ip_addresses)),
            b,
        );
    }
}

proof fn lemma_told(
    old: InterfaceEntries,
    new: InterfaceEntries,
    name: Seq<char>,
    e: EventView,
    at: int,
)
    requires
        as_map(new).dom().contains(name),
        ({
            let all = interface_events(as_map(old))((name, as_map(new)[name]));
            0 <= at < all.len() && all[at] == e
        }),
    ensures
        network_events(old, new).contains(e),
{
    let f = interface_events(as_map(old));
    lemma_key(new, name);
    let i = key_index(new, name);
    assert(f(new[i])[at] == e);
    assert(f(new[i]).contains(e));
    lemma_gathered_contains(new, f, e);
    let k = choose|k: int| 0 <= k < gathered(new, f).len() && gathered(new, f)[k] == e;
    assert(network_events(old, new)[k] == e);
}

/// What was read of an interface, decoded: its name and what the tools printed as
/// text, and the rest as it was read.
pub proof fn law_interface_is_decoded(r: InterfaceReading)
    ensures
        ({
            let d = decoded(r);
            &&& d.name == utf8_lossy(r.name@)
            &&& d.wireless == r.wireless
            &&& r.operstate is Some ==> d.operstate == Some(r.operstate->0@)
            &&& r.operstate is None ==> d.operstate is None
            &&& r.ssid_output is Some ==> d.ssid == Some(utf8_lossy(r.ssid_output->0@))
            &&& r.ssid_output is None ==> d.ssid is None
            &&& r.address_output is Some ==> d.addresses == Some(utf8_lossy(r.address_output->0@))
            &&& r.address_output is None ==> d.addresses is None
        }),
{
}

} // verus!
