//! Displays and their brightness.

use crate::bytes::{faithful, lossy_text, utf8_lossy};
use crate::event::{
    add_event, carrying, data_event, events, no_events, Event, EventView,
};
use crate::gather::{
    gathered, lemma_gathered_contains, lemma_gathered_filter, lemma_gathered_nothing,
    lemma_gathered_step,
};
use crate::number::{decimal, decimal_text, number_of, parse_u64};
use crate::state::{SystemState, SystemStateView};
use crate::text::{
    contains, has_part, lists, opt_text, same_strings, same_text, strings, trim, trimmed,
};
use vstd::prelude::*;

verus! {

/// The number that a file of the backlight holds, if it holds one.
pub open spec fn reported_brightness(report: Seq<char>) -> Option<nat> {
    number_of(trimmed(report), u64::MAX as nat)
}

/// Parses a file of the backlight.
pub fn parse_brightness(report: &str) -> (r: Option<u64>)
    ensures
        r is Some <==> reported_brightness(report@) is Some,
        r is Some ==> r->0 == reported_brightness(report@)->0,
{
    parse_u64(trim(report))
}

/// The brightness in percent of the greatest, as eight bits hold it.
pub open spec fn percent_of(current: int, max: int) -> int {
    ((current * 100) / max) % 256
}

/// The brightness in percent of the greatest, as eight bits hold it.
pub fn brightness_percent(current: u64, max: u64) -> (r: u8)
    requires
        max > 0,
        current * 100 <= u64::MAX,
    ensures
        r == percent_of(current as int, max as int),
{
    let percent: u64 = current * 100 / max;
    assert(percent as u8 == percent % 256) by (bit_vector);
    #[verifier::truncate]
    let r: u8 = percent as u8;
    r
}

/// The events of a brightness of `percent` after one of `old`.
pub open spec fn brightness_events(old: Option<u8>, percent: u8) -> Seq<EventView> {
    if old == Some(percent) {
        Seq::empty()
    } else {
        seq![carrying("OnBrightnessChange"@, decimal(percent as nat))]
    }
}

/// Takes in the brightness in percent.
pub fn brightness_report(state: &mut SystemState, percent: u8) -> (r: Vec<Event>)
    ensures
        final(state)@ == (SystemStateView { display_brightness: Some(percent), ..old(state)@ }),
        events(r@) == brightness_events(old(state)@.display_brightness, percent),
{
    let mut r: Vec<Event> = no_events();
    let unchanged = match state.display_brightness {
        Some(was) => was == percent,
        None => false,
    };
    if !unchanged {
        state.display_brightness = Some(percent);
        add_event(&mut r, data_event("OnBrightnessChange", decimal_text(percent as u64)));
    }
    assert(events(r@) =~= brightness_events(old(state)@.display_brightness, percent));
    r
}

/// What was read of one output of the graphics hardware: its name, and the file
/// of its status.
pub struct OutputReading {
    pub name: Vec<u8>,
    pub status: Option<String>,
}

/// What was read of one output, as text.
pub struct OutputReport {
    pub name: String,
    pub status: Option<String>,
}

/// What was read of one output, as a plain value.
#[verifier::ext_equal]
pub struct OutputReportView {
    pub name: Seq<char>,
    pub status: Option<Seq<char>>,
}

impl View for OutputReport {
    type V = OutputReportView;

    open spec fn view(&self) -> OutputReportView {
        OutputReportView { name: self.name@, status: opt_text(self.status) }
    }
}

/// The reports of a list.
pub open spec fn report_views(v: Seq<OutputReport>) -> Seq<OutputReportView> {
    v.map_values(|r: OutputReport| r@)
}

/// What was read of one output, decoded.
pub open spec fn decoded(r: OutputReading) -> OutputReportView {
    OutputReportView { name: utf8_lossy(r.name@), status: opt_text(r.status) }
}

/// What was read of each output, decoded.
pub open spec fn all_decoded(v: Seq<OutputReading>) -> Seq<OutputReportView> {
    v.map_values(|r: OutputReading| decoded(r))
}

/// The name of an output to which a display can be connected.
pub open spec fn is_connector(name: Seq<char>) -> bool {
    has_part(name, "card"@) && has_part(name, "-"@)
}

/// The display at an output, if one is connected.
pub open spec fn display_at() -> spec_fn(OutputReportView) -> Seq<Seq<char>> {
    |r: OutputReportView|
        if is_connector(r.name) && r.status is Some && trimmed(r.status->0) == "connected"@ {
            seq![r.name]
        } else {
            Seq::empty()
        }
}

/// The displays at the outputs.
pub open spec fn reported_displays(reports: Seq<OutputReportView>) -> Seq<Seq<char>> {
    gathered(reports, display_at())
}

fn names_connector(name: &str) -> (r: bool)
    ensures
        r == is_connector(name@),
{
    contains(name, "card") && contains(name, "-")
}

/// Is there a status to read, of the output with this name?
pub fn wants_status(name: &[u8]) -> (r: bool)
    ensures
        r == is_connector(utf8_lossy(name@)),
        faithful(name@),
{
    let text: String = lossy_text(name);
    names_connector(text.as_str())
}

/// The displays at the outputs.
pub fn displays_in(reports: Vec<OutputReport>) -> (r: Vec<String>)
    ensures
        strings(r@) == reported_displays(report_views(reports@)),
{
    let ghost all = report_views(reports@);
    let mut r: Vec<String> = Vec::new();
    assert(strings(r@) =~= gathered(all.take(0), display_at()));
    for report in it: reports
        invariant
            it.seq() == reports@,
            all == report_views(reports@),
            strings(r@) == gathered(all.take(it.index() as int), display_at()),
    {
        let ghost before = r@;
        proof {
            lemma_gathered_step(all, display_at(), it.index() as int);
            assert(all[it.index() as int] == report@);
        }
        let connected = match &report.status {
            Some(text) => same_text(trim(text.as_str()), "connected"),
            None => false,
        };
        if connected && names_connector(report.name.as_str()) {
            r.push(report.name);
            assert(strings(r@) =~= strings(before).push(report.name@));
        }
        assert(strings(r@) =~= gathered(all.take(it.index() as int + 1), display_at()));
    }
    assert(all.take(all.len() as int) =~= all);
    r
}

/// The displays at the outputs that were read.
pub fn get_connected_displays(readings: Vec<OutputReading>) -> (r: Vec<String>)
    ensures
        strings(r@) == reported_displays(all_decoded(readings@)),
        forall|i: int| 0 <= i < readings@.len() ==> faithful((#[trigger] readings@[i]).name@),
{
    let ghost all = all_decoded(readings@);
    let mut reports: Vec<OutputReport> = Vec::new();
    assert(report_views(reports@) =~= all.take(0));
    for reading in it: readings
        invariant
            it.seq() == readings@,
            all == all_decoded(readings@),
            report_views(reports@) == all.take(it.index() as int),
            forall|i: int| 0 <= i < it.index() ==> faithful((#[trigger] readings@[i]).name@),
    {
        let ghost before = reports@;
        reports.push(
            OutputReport { name: lossy_text(reading.name.as_slice()), status: reading.status },
        );
        assert(report_views(reports@) =~= report_views(before).push(decoded(reading)));
        assert(all.take(it.index() as int + 1) =~= all.take(it.index() as int).push(
            decoded(reading),
        ));
    }
    assert(all.take(all.len() as int) =~= all);
    displays_in(reports)
}

/// The event `name` for a display that is not among `others`.
pub open spec fn missing_from(
    others: Seq<Seq<char>>,
    name: Seq<char>,
) -> spec_fn(Seq<char>) -> Seq<EventView> {
    |d: Seq<char>|
        if others.contains(d) {
            Seq::empty()
        } else {
            seq![carrying(name, d)]
        }
}

/// The events of finding the displays `new` where `old` were before.
pub open spec fn display_events(old: Seq<Seq<char>>, new: Seq<Seq<char>>) -> Seq<EventView> {
    gathered(new, missing_from(old, "OnDisplayConnected"@)) + gathered(
        old,
        missing_from(new, "OnDisplayDisconnected"@),
    )
}

/// Adds the event `name` for each display of `list` that is not among `others`.
fn add_missing(r: &mut Vec<Event>, list: &Vec<String>, others: &Vec<String>, name: &str)
    ensures
        events(final(r)@) == events(old(r)@) + gathered(
            strings(list@),
            missing_from(strings(others@), name@),
        ),
{
    let ghost all = strings(list@);
    let ghost f = missing_from(strings(others@), name@);
    let ghost start = events(r@);
    let mut i: usize = 0;
    assert(start =~= start + gathered(all.take(0), f));
    while i < list.len()
        invariant
            all == strings(list@),
            f == missing_from(strings(others@), name@),
            i <= list@.len(),
            events(r@) == start + gathered(all.take(i as int), f),
        decreases list@.len() - i,
    {
        proof {
            lemma_gathered_step(all, f, i as int);
            assert(all[i as int] == list@[i as int]@);
        }
        if !lists(others, list[i].as_str()) {
            add_event(r, data_event(name, list[i].clone()));
        }
        assert(events(r@) =~= start + gathered(all.take(i + 1), f));
        i += 1;
    }
    assert(all.take(i as int) =~= all);
}

/// Takes in the displays that are connected now.
pub fn displays_report(state: &mut SystemState, displays: Vec<String>) -> (r: Vec<Event>)
    ensures
        final(state)@ == (SystemStateView { displays_connected: strings(displays@), ..old(state)@ }),
        events(r@) == display_events(old(state)@.displays_connected, strings(displays@)),
{
    let mut r: Vec<Event> = no_events();
    if !same_strings(&state.displays_connected, &displays) {
        add_missing(&mut r, &displays, &state.displays_connected, "OnDisplayConnected");
        add_missing(&mut r, &state.displays_connected, &displays, "OnDisplayDisconnected");
        assert(events(r@) =~= display_events(state@.displays_connected, strings(displays@)));
        state.displays_connected = displays;
    } else {
        proof {
            law_displays_settle(state@.displays_connected, strings(displays@));
        }
    }
    r
}

/// Where the same displays are found again, in whatever order, or the same
/// brightness, plugins are told nothing.
pub proof fn law_displays_settle(old: Seq<Seq<char>>, new: Seq<Seq<char>>)
    requires
        forall|d: Seq<char>| old.contains(d) <==> new.contains(d),
    ensures
        display_events(old, new) == Seq::<EventView>::empty(),
        forall|percent: u8|
            #[trigger] brightness_events(Some(percent), percent) == Seq::<EventView>::empty(),
{
    let f = missing_from(old, "OnDisplayConnected"@);
    let g = missing_from(new, "OnDisplayDisconnected"@);
    assert forall|i: int| 0 <= i < new.len() implies (#[trigger] f(new[i])).len() == 0 by {
        assert(new.contains(new[i]));
    }
    assert forall|i: int| 0 <= i < old.len() implies (#[trigger] g(old[i])).len() == 0 by {
        assert(old.contains(old[i]));
    }
    lemma_gathered_nothing(new, f);
    lemma_gathered_nothing(old, g);
    assert(display_events(old, new) =~= Seq::<EventView>::empty());
}

/// A display that is new is announced as connected, and one that is gone as
/// disconnected.
pub proof fn law_displays_announced(old: Seq<Seq<char>>, new: Seq<Seq<char>>, d: Seq<char>)
    ensures
        new.contains(d) && !old.contains(d) ==> display_events(old, new).contains(
            carrying("OnDisplayConnected"@, d),
        ),
        old.contains(d) && !new.contains(d) ==> display_events(old, new).contains(
            carrying("OnDisplayDisconnected"@, d),
        ),
{
    let f = missing_from(old, "OnDisplayConnected"@);
    let g = missing_from(new, "OnDisplayDisconnected"@);
    let all = display_events(old, new);
    if new.contains(d) && !old.contains(d) {
        let e = carrying("OnDisplayConnected"@, d);
        let i = choose|i: int| 0 <= i < new.len() && new[i] == d;
        assert(f(new[i])[0] == e);
        assert(f(new[i]).contains(e));
        lemma_gathered_contains(new, f, e);
        let k = choose|k: int| 0 <= k < gathered(new, f).len() && gathered(new, f)[k] == e;
        assert(all[k] == e);
    }
    if old.contains(d) && !new.contains(d) {
        let e = carrying("OnDisplayDisconnected"@, d);
        let i = choose|i: int| 0 <= i < old.len() && old[i] == d;
        assert(g(old[i])[0] == e);
        assert(g(old[i]).contains(e));
        lemma_gathered_contains(old, g, e);
        let k = choose|k: int| 0 <= k < gathered(old, g).len() && gathered(old, g)[k] == e;
        assert(all[gathered(new, f).len() + k] == e);
    }
}

/// The brightness is the number in the file, without the white space around it;
/// a brightness other than the one before, and the first one, is told.
pub proof fn law_brightness_is_told(report: Seq<char>, old: Option<u8>, percent: u8)
    ensures
        reported_brightness(report) == number_of(trimmed(report), 0xffff_ffff_ffff_ffff),
        old != Some(percent) ==> brightness_events(old, percent) == seq![
            carrying("OnBrightnessChange"@, decimal(percent as nat)),
        ],
        old == Some(percent) ==> brightness_events(old, percent) == Seq::<EventView>::empty(),
{
}

/// The displays are the outputs, in order, whose names speak of a card and hold a
/// hyphen and whose status is that they are connected.
pub proof fn law_displays_are_read(reports: Seq<OutputReportView>)
    ensures
        reported_displays(reports) == reports.filter(
            |r: OutputReportView|
                has_part(r.name, "card"@) && has_part(r.name, "-"@) && r.status is Some && trimmed(
                    r.status->0,
                ) == "connected"@,
        ).map_values(|r: OutputReportView| r.name),
{
    lemma_gathered_filter(
        reports,
        display_at(),
        |r: OutputReportView|
            has_part(r.name, "card"@) && has_part(r.name, "-"@) && r.status is Some && trimmed(
                r.status->0,
            ) == "connected"@,
        |r: OutputReportView| r.name,
    );
}

/// Exactly the displays that were not there before are told as connected, in
/// order, and then exactly those that are no longer there as disconnected.
pub proof fn law_displays_are_told(old: Seq<Seq<char>>, new: Seq<Seq<char>>)
    ensures
        display_events(old, new) == new.filter(|d: Seq<char>| !old.contains(d)).map_values(
            |d: Seq<char>| carrying("OnDisplayConnected"@, d),
        ) + old.filter(|d: Seq<char>| !new.contains(d)).map_values(
            |d: Seq<char>| carrying("OnDisplayDisconnected"@, d),
        ),
{
    lemma_gathered_filter(
        new,
        missing_from(old, "OnDisplayConnected"@),
        |d: Seq<char>| !old.contains(d),
        |d: Seq<char>| carrying("OnDisplayConnected"@, d),
    );
    lemma_gathered_filter(
        old,
        missing_from(new, "OnDisplayDisconnected"@),
        |d: Seq<char>| !new.contains(d),
        |d: Seq<char>| carrying("OnDisplayDisconnected"@, d),
    );
}

/// The percentage is the greatest whole number of hundredths of the greatest
/// brightness that the brightness reaches, less any multiple of 256; so a
/// brightness within its range has a percentage of at most a hundred.
pub proof fn law_percentage(current: int, max: int)
    requires
        0 <= current,
        max > 0,
    ensures
        exists|n: int|
            #![trigger n * max]
            n * max <= current * 100 < n * max + max && percent_of(current, max) == n % 256,
        current <= max ==> percent_of(current, max) * max <= current * 100 < percent_of(
            current,
            max,
        ) * max + max && percent_of(current, max) <= 100,
        percent_of(0, max) == 0,
        percent_of(max, max) == 100,
{
    let n = (current * 100) / max;
    vstd::arithmetic::div_mod::lemma_fundamental_div_mod(current * 100, max);
    assert(max * n == n * max) by (nonlinear_arith);
    assert(n * max <= current * 100 < n * max + max);
    if current <= max {
        assert(0 <= n <= 100) by (nonlinear_arith)
            requires
                n * max <= current * 100 < n * max + max,
                0 <= current <= max,
                max > 0,
        ;
    }
    assert(0int / max == 0) by (nonlinear_arith)
        requires
            max > 0,
    ;
    assert((max * 100) / max == 100) by (nonlinear_arith)
        requires
            max > 0,
    ;
}

/// An output that was read has its name as text and its status as it was read.
pub proof fn law_output_is_decoded(r: OutputReading)
    ensures
        decoded(r).name == utf8_lossy(r.name@),
        r.status is Some ==> decoded(r).status == Some(r.status->0@),
        r.status is None ==> decoded(r).status is None,
{
}

} // verus!
