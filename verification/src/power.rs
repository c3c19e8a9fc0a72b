//! Battery and mains.

use crate::event::{
    add_event, carrying, data_event, events, no_events, plain, plain_event, Event, EventView,
};
use crate::number::{decimal, decimal_text, number_of, parse_u8};
use crate::state::{SystemState, SystemStateView};
use crate::text::{same_option, same_text, trim, trimmed};
use vstd::prelude::*;

verus! {

/// At this charge, in percent, or below it the battery is critical.
pub const CRITICAL_LEVEL: u8 = 5;

/// At this charge, in percent, or below it the battery is low.
pub const LOW_LEVEL: u8 = 15;

/// At this charge, in percent, the battery is full.
pub const FULL_LEVEL: u8 = 100;

/// The charge came down to `bound` from above, or is seen for the first time.
pub open spec fn fell_to(old: Option<u8>, level: u8, bound: u8) -> bool {
    level <= bound && (old is None || old->0 > bound)
}

/// The charge came up to `bound` from below, or is seen for the first time.
pub open spec fn rose_to(old: Option<u8>, level: u8, bound: u8) -> bool {
    level >= bound && (old is None || old->0 < bound)
}

/// The event of the most pressing bound that the charge has crossed.
pub open spec fn threshold_events(old: Option<u8>, level: u8) -> Seq<EventView> {
    if fell_to(old, level, CRITICAL_LEVEL) {
        seq![carrying("OnBatteryCritical"@, decimal(level as nat))]
    } else if fell_to(old, level, LOW_LEVEL) {
        seq![carrying("OnBatteryLow"@, decimal(level as nat))]
    } else if rose_to(old, level, FULL_LEVEL) {
        seq![plain("OnBatteryFull"@)]
    } else {
        Seq::empty()
    }
}

/// The events of a charge of `level` percent after one of `old` percent.
pub open spec fn level_events(old: Option<u8>, level: u8) -> Seq<EventView> {
    if old == Some(level) {
        Seq::empty()
    } else {
        seq![carrying("OnBatteryLevelChange"@, decimal(level as nat))] + threshold_events(
            old,
            level,
        )
    }
}

/// The charge that the kernel reports, if the report is one.
pub open spec fn reported_level(report: Seq<char>) -> Option<nat> {
    number_of(trimmed(report), u8::MAX as nat)
}

/// The state after a report of the charge.
pub open spec fn after_level(s: SystemStateView, report: Seq<char>) -> SystemStateView {
    match reported_level(report) {
        Some(n) => SystemStateView { battery_level: Some(n as u8), ..s },
        None => s,
    }
}

/// The events of a report of the charge.
pub open spec fn level_report_events(s: SystemStateView, report: Seq<char>) -> Seq<EventView> {
    match reported_level(report) {
        Some(n) => level_events(s.battery_level, n as u8),
        None => Seq::empty(),
    }
}

/// The event of a charging status.
pub open spec fn status_events(status: Seq<char>) -> Seq<EventView> {
    if status == "Charging"@ {
        seq![plain("OnBatteryCharging"@)]
    } else if status == "Discharging"@ {
        seq![plain("OnBatteryDischarging"@)]
    } else if status == "Full"@ {
        seq![plain("OnBatteryFull"@)]
    } else {
        Seq::empty()
    }
}

/// The state after a report of the charging status.
pub open spec fn after_status(s: SystemStateView, report: Seq<char>) -> SystemStateView {
    SystemStateView { battery_status: Some(trimmed(report)), ..s }
}

/// The events of a report of the charging status.
pub open spec fn status_report_events(s: SystemStateView, report: Seq<char>) -> Seq<EventView> {
    if s.battery_status == Some(trimmed(report)) {
        Seq::empty()
    } else {
        status_events(trimmed(report))
    }
}

/// Mains power is on, by the kernel's report.
pub open spec fn reported_ac(report: Seq<char>) -> bool {
    trimmed(report) == "1"@
}

/// The state after a report on mains power.
pub open spec fn after_ac(s: SystemStateView, report: Seq<char>) -> SystemStateView {
    SystemStateView { ac_power: Some(reported_ac(report)), ..s }
}

/// The events of a report on mains power.
pub open spec fn ac_report_events(s: SystemStateView, report: Seq<char>) -> Seq<EventView> {
    if s.ac_power == Some(reported_ac(report)) {
        Seq::empty()
    } else if reported_ac(report) {
        seq![plain("OnACConnected"@)]
    } else {
        seq![plain("OnACDisconnected"@)]
    }
}

fn threshold_event(old: Option<u8>, level: u8) -> (r: Option<Event>)
    ensures
        r is None ==> threshold_events(old, level) == Seq::<EventView>::empty(),
        r is Some ==> threshold_events(old, level) == seq![r->0@],
{
    let (above_critical, above_low, below_full) = match old {
        Some(o) => (o > CRITICAL_LEVEL, o > LOW_LEVEL, o < FULL_LEVEL),
        None => (true, true, true),
    };
    if level <= CRITICAL_LEVEL && above_critical {
        Some(data_event("OnBatteryCritical", decimal_text(level as u64)))
    } else if level <= LOW_LEVEL && above_low {
        Some(data_event("OnBatteryLow", decimal_text(level as u64)))
    } else if level >= FULL_LEVEL && below_full {
        Some(plain_event("OnBatteryFull"))
    } else {
        None
    }
}

/// Takes in a report of the charge. A report that is no number from 0 to 255
/// is passed over.
pub fn battery_level_report(state: &mut SystemState, report: &str) -> (r: Vec<Event>)
    ensures
        final(state)@ == after_level(old(state)@, report@),
        events(r@) == level_report_events(old(state)@, report@),
{
    let mut r: Vec<Event> = no_events();
    if let Some(level) = parse_u8(trim(report)) {
        let old_level: Option<u8> = state.battery_level;
        state.battery_level = Some(level);
        let unchanged = match old_level {
            Some(o) => o == level,
            None => false,
        };
        if !unchanged {
            add_event(&mut r, data_event("OnBatteryLevelChange", decimal_text(level as u64)));
            if let Some(event) = threshold_event(old_level, level) {
                add_event(&mut r, event);
            }
        }
    }
    assert(events(r@) =~= level_report_events(old(state)@, report@));
    r
}

/// Takes in a report of the charging status.
pub fn battery_status_report(state: &mut SystemState, report: &str) -> (r: Vec<Event>)
    ensures
        final(state)@ == after_status(old(state)@, report@),
        events(r@) == status_report_events(old(state)@, report@),
{
    let mut r: Vec<Event> = no_events();
    let status: Option<String> = Some(trim(report).to_string());
    if !same_option(&state.battery_status, &status) {
        let text: &str = trim(report);
        if same_text(text, "Charging") {
            add_event(&mut r, plain_event("OnBatteryCharging"));
        } else if same_text(text, "Discharging") {
            add_event(&mut r, plain_event("OnBatteryDischarging"));
        } else if same_text(text, "Full") {
            add_event(&mut r, plain_event("OnBatteryFull"));
        }
        state.battery_status = status;
    }
    assert(events(r@) =~= status_report_events(old(state)@, report@));
    r
}

/// Takes in a report on mains power.
pub fn ac_report(state: &mut SystemState, report: &str) -> (r: Vec<Event>)
    ensures
        final(state)@ == after_ac(old(state)@, report@),
        events(r@) == ac_report_events(old(state)@, report@),
{
    let mut r: Vec<Event> = no_events();
    let connected = same_text(trim(report), "1");
    let unchanged = match state.ac_power {
        Some(was) => was == connected,
        None => false,
    };
    if !unchanged {
        state.ac_power = Some(connected);
        if connected {
            add_event(&mut r, plain_event("OnACConnected"));
        } else {
            add_event(&mut r, plain_event("OnACDisconnected"));
        }
    }
    assert(events(r@) =~= ac_report_events(old(state)@, report@));
    r
}

/// The same report a second time changes nothing and tells plugins nothing.
pub proof fn law_power_settles(s: SystemStateView, report: Seq<char>)
    ensures
        level_report_events(after_level(s, report), report) == Seq::<EventView>::empty(),
        after_level(after_level(s, report), report) == after_level(s, report),
        status_report_events(after_status(s, report), report) == Seq::<EventView>::empty(),
        after_status(after_status(s, report), report) == after_status(s, report),
        ac_report_events(after_ac(s, report), report) == Seq::<EventView>::empty(),
        after_ac(after_ac(s, report), report) == after_ac(s, report),
{
}

/// A warning of a critical or low battery comes only where the charge has come
/// down to its bound: below a bound, further falls do not repeat it, and a
/// rising charge gives none.
pub proof fn law_no_repeated_warning(old: u8, level: u8, e: EventView)
    requires
        threshold_events(Some(old), level).contains(e),
        e.data is Some,
    ensures
        level < old,
        level <= CRITICAL_LEVEL < old || level <= LOW_LEVEL < old,
{
    assert(plain("OnBatteryFull"@).data is None);
}

/// A change of the charge gives one event of the change and at most one more.
pub proof fn law_one_bound_at_most(old: Option<u8>, level: u8)
    ensures
        threshold_events(old, level).len() <= 1,
        old != Some(level) ==> level_events(old, level)[0] == carrying(
            "OnBatteryLevelChange"@,
            decimal(level as nat),
        ),
        old != Some(level) ==> 1 <= level_events(old, level).len() <= 2,
{
}

/// What is told of a charge, by the charge before: nothing of the same charge,
/// and of any other the change, followed by the warning of a critical charge
/// where it comes down to five percent, of a low one where it comes down to
/// fifteen, and by the event of a full battery where it comes up to a hundred. A
/// first charge counts as coming from beyond the bound. Nothing else of what was
/// seen changes, and a report that is no number changes nothing at all.
pub proof fn law_charge_is_told(s: SystemStateView, report: Seq<char>, level: u8)
    ensures
        ({
            let old = s.battery_level;
            let text = decimal(level as nat);
            let change = carrying("OnBatteryLevelChange"@, text);
            let told = level_report_events(s, report);
            number_of(trimmed(report), 255) == Some(level as nat) ==> {
                &&& after_level(s, report) == (SystemStateView { battery_level: Some(level), ..s })
                &&& old == Some(level) ==> told == Seq::<EventView>::empty()
                &&& level <= 5 && (old is None || old->0 > 5) ==> told == seq![
                    change,
                    carrying("OnBatteryCritical"@, text),
                ]
                &&& level <= 5 && old is Some && old->0 <= 5 && old->0 != level ==> told == seq![
                    change,
                ]
                &&& 5 < level <= 15 && (old is None || old->0 > 15) ==> told == seq![
                    change,
                    carrying("OnBatteryLow"@, text),
                ]
                &&& 5 < level <= 15 && old is Some && old->0 <= 15 && old->0 != level ==> told
                    == seq![change]
                &&& 15 < level < 100 && old != Some(level) ==> told == seq![change]
                &&& level >= 100 && (old is None || old->0 < 100) ==> told == seq![
                    change,
                    plain("OnBatteryFull"@),
                ]
                &&& level >= 100 && old is Some && old->0 >= 100 && old->0 != level ==> told
                    == seq![change]
            }
        }),
        number_of(trimmed(report), 255) is None ==> after_level(s, report) == s
            && level_report_events(s, report) == Seq::<EventView>::empty(),
{
    if number_of(trimmed(report), 255) == Some(level as nat) {
        let change = carrying("OnBatteryLevelChange"@, decimal(level as nat));
        let told = level_report_events(s, report);
        if s.battery_level != Some(level) {
            let more = threshold_events(s.battery_level, level);
            assert(told == seq![change] + more);
            assert(more.len() == 0 ==> told =~= seq![change]);
            assert(more.len() == 1 ==> told =~= seq![change, more[0]]);
        }
    }
}

/// What is told of a charging status depends on the status before only in that
/// the same status is not told again: charging, discharging and full each have
/// their event, whatever was before, and another status has none.
pub proof fn law_status_is_told(s: SystemStateView, report: Seq<char>)
    ensures
        after_status(s, report) == (SystemStateView {
            battery_status: Some(trimmed(report)),
            ..s
        }),
        ({
            let status = trimmed(report);
            let told = status_report_events(s, report);
            &&& s.battery_status == Some(status) ==> told == Seq::<EventView>::empty()
            &&& s.battery_status != Some(status) && status == "Charging"@ ==> told == seq![
                plain("OnBatteryCharging"@),
            ]
            &&& s.battery_status != Some(status) && status == "Discharging"@ ==> told == seq![
                plain("OnBatteryDischarging"@),
            ]
            &&& s.battery_status != Some(status) && status == "Full"@ ==> told == seq![
                plain("OnBatteryFull"@),
            ]
            &&& status != "Charging"@ && status != "Discharging"@ && status != "Full"@ ==> told
                == Seq::<EventView>::empty()
        }),
{
    reveal_strlit("Charging");
    reveal_strlit("Discharging");
    reveal_strlit("Full");
    assert("Charging"@.len() == 8 && "Discharging"@.len() == 11 && "Full"@.len() == 4);
}

/// Mains power is on where the report is the digit one, and off where it is
/// anything else; whichever is new, or seen for the first time, is told.
pub proof fn law_mains_is_told(s: SystemStateView, report: Seq<char>)
    ensures
        ({
            let on = trimmed(report) == "1"@;
            let told = ac_report_events(s, report);
            &&& after_ac(s, report) == (SystemStateView { ac_power: Some(on), ..s })
            &&& s.ac_power == Some(on) ==> told == Seq::<EventView>::empty()
            &&& s.ac_power != Some(on) && on ==> told == seq![plain("OnACConnected"@)]
            &&& s.ac_power != Some(on) && !on ==> told == seq![plain("OnACDisconnected"@)]
        }),
{
}

} // verus!
