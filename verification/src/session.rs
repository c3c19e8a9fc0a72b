//! The session, its user, the lid, the time zone and the default route.

use crate::audio::sink_events;
use crate::bytes::{faithful, lossy_text, utf8_lossy};
use crate::event::{
    add_event, carrying, events, no_events, plain, plain_event, switch, switch_events, toggle,
    toggle_events, Event, EventView,
};
use crate::state::{SystemState, SystemStateView};
use crate::text::{
    contains, copy_option, has_part, lines, lines_of, opt_text, same_option, texts, trim, trimmed,
    words, words_of,
};
use vstd::prelude::*;

verus! {

/// The session is locked, by the answer of the session manager.
pub open spec fn reported_lock(report: Seq<char>) -> bool {
    has_part(report, "yes"@)
}

/// The state after an answer on the session lock.
pub open spec fn after_lock(s: SystemStateView, report: Seq<char>) -> SystemStateView {
    SystemStateView { session_locked: Some(reported_lock(report)), ..s }
}

/// The events of an answer on the session lock.
pub open spec fn lock_events(s: SystemStateView, report: Seq<char>) -> Seq<EventView> {
    toggle_events(
        s.session_locked,
        reported_lock(report),
        "OnSessionLock"@,
        "OnSessionUnlock"@,
    )
}

/// Takes in an answer on the session lock.
pub fn lock_report(state: &mut SystemState, report: &str) -> (r: Vec<Event>)
    ensures
        final(state)@ == after_lock(old(state)@, report@),
        events(r@) == lock_events(old(state)@, report@),
{
    let locked = contains(report, "yes");
    let r: Vec<Event> = toggle(state.session_locked, locked, "OnSessionLock", "OnSessionUnlock");
    state.session_locked = Some(locked);
    r
}

/// Takes in what the session manager printed on the session lock.
pub fn lock_output(state: &mut SystemState, stdout: &[u8]) -> (r: Vec<Event>)
    ensures
        final(state)@ == after_lock(old(state)@, utf8_lossy(stdout@)),
        events(r@) == lock_events(old(state)@, utf8_lossy(stdout@)),
        faithful(stdout@),
{
    let report: String = lossy_text(stdout);
    lock_report(state, report.as_str())
}

/// The user of the first session that is listed with three columns or more.
pub open spec fn user_in(session_lines: Seq<Seq<char>>) -> Option<Seq<char>>
    decreases session_lines.len(),
{
    if session_lines.len() == 0 {
        None
    } else if words_of(session_lines[0]).len() >= 3 {
        Some(words_of(session_lines[0])[2])
    } else {
        user_in(session_lines.drop_first())
    }
}

/// The user of the first session in a list of sessions.
pub open spec fn reported_user(report: Seq<char>) -> Option<Seq<char>> {
    user_in(lines_of(report))
}

/// The state after a list of sessions.
pub open spec fn after_sessions(s: SystemStateView, report: Seq<char>) -> SystemStateView {
    match reported_user(report) {
        Some(user) => SystemStateView { active_user: Some(user), ..s },
        None => s,
    }
}

/// The events of a list of sessions.
pub open spec fn session_events(s: SystemStateView, report: Seq<char>) -> Seq<EventView> {
    match reported_user(report) {
        Some(user) => switch_events(s.active_user, user, "OnUserSwitch"@),
        None => Seq::empty(),
    }
}

/// The user of the first session in a list of sessions.
pub fn session_user(report: &str) -> (r: Option<String>)
    ensures
        opt_text(r) == reported_user(report@),
{
    let list: Vec<&str> = lines(report);
    let ghost all = texts(list@);
    let mut i: usize = 0;
    assert(all.skip(0) =~= all);
    while i < list.len()
        invariant
            all == texts(list@),
            all == lines_of(report@),
            i <= list@.len(),
            user_in(all) == user_in(all.skip(i as int)),
        decreases list@.len() - i,
    {
        assert(all.skip(i as int)[0] == list@[i as int]@);
        let columns: Vec<&str> = words(list[i]);
        assert(texts(columns@).len() == columns@.len());
        if columns.len() >= 3 {
            assert(texts(columns@)[2] == columns@[2]@);
            return Some(columns[2].to_string());
        }
        assert(all.skip(i as int).drop_first() =~= all.skip(i + 1));
        i += 1;
    }
    assert(all.skip(i as int) =~= Seq::empty());
    None
}

/// Takes in a list of sessions.
pub fn sessions_report(state: &mut SystemState, report: &str) -> (r: Vec<Event>)
    ensures
        final(state)@ == after_sessions(old(state)@, report@),
        events(r@) == session_events(old(state)@, report@),
{
    match session_user(report) {
        Some(user) => {
            let r: Vec<Event> = switch(&state.active_user, user.as_str(), "OnUserSwitch");
            state.active_user = Some(user);
            r
        },
        None => no_events(),
    }
}

/// Takes in what the session manager printed on the sessions.
pub fn sessions_output(state: &mut SystemState, stdout: &[u8]) -> (r: Vec<Event>)
    ensures
        final(state)@ == after_sessions(old(state)@, utf8_lossy(stdout@)),
        events(r@) == session_events(old(state)@, utf8_lossy(stdout@)),
        faithful(stdout@),
{
    let report: String = lossy_text(stdout);
    sessions_report(state, report.as_str())
}

/// The position of the lid that the kernel reports, if it reports one.
pub open spec fn reported_lid(report: Seq<char>) -> Option<Seq<char>> {
    if has_part(report, "open"@) {
        Some("open"@)
    } else if has_part(report, "closed"@) {
        Some("closed"@)
    } else {
        None
    }
}

/// The position of the lid after a report.
pub open spec fn after_lid(last: Option<Seq<char>>, report: Seq<char>) -> Option<Seq<char>> {
    match reported_lid(report) {
        Some(position) => Some(position),
        None => last,
    }
}

/// The events of a report on the lid.
pub open spec fn lid_events(last: Option<Seq<char>>, report: Seq<char>) -> Seq<EventView> {
    if reported_lid(report) is None || last == reported_lid(report) {
        Seq::empty()
    } else if has_part(report, "open"@) {
        seq![plain("OnLidOpen"@)]
    } else {
        seq![plain("OnLidClose"@)]
    }
}

/// Takes in a report on the lid. A report that speaks neither of open nor of
/// closed is passed over.
pub fn lid_report(last: &mut Option<String>, report: &str) -> (r: Vec<Event>)
    ensures
        opt_text(*final(last)) == after_lid(opt_text(*old(last)), report@),
        events(r@) == lid_events(opt_text(*old(last)), report@),
{
    let mut r: Vec<Event> = no_events();
    let is_open = contains(report, "open");
    if !is_open && !contains(report, "closed") {
        return r;
    }
    let position: Option<String> = Some((if is_open { "open" } else { "closed" }).to_string());
    if !same_option(last, &position) {
        if is_open {
            add_event(&mut r, plain_event("OnLidOpen"));
        } else {
            add_event(&mut r, plain_event("OnLidClose"));
        }
        *last = position;
    }
    assert(events(r@) =~= lid_events(opt_text(*old(last)), report@));
    r
}

/// The state after the time zone was read.
pub open spec fn after_timezone(s: SystemStateView, zone: Seq<char>) -> SystemStateView {
    SystemStateView { timezone: Some(zone), ..s }
}

/// The events of reading the time zone.
pub open spec fn timezone_events(s: SystemStateView, zone: Seq<char>) -> Seq<EventView> {
    switch_events(s.timezone, zone, "OnTimezoneChange"@)
}

/// Takes in the time zone.
pub fn timezone_report(state: &mut SystemState, zone: &str) -> (r: Vec<Event>)
    ensures
        final(state)@ == after_timezone(old(state)@, zone@),
        events(r@) == timezone_events(old(state)@, zone@),
{
    let r: Vec<Event> = switch(&state.timezone, zone, "OnTimezoneChange");
    state.timezone = Some(zone.to_string());
    r
}

/// Takes in the path that the link to the local time leads to.
pub fn timezone_link(state: &mut SystemState, target: &[u8]) -> (r: Vec<Event>)
    ensures
        final(state)@ == after_timezone(old(state)@, utf8_lossy(target@)),
        events(r@) == timezone_events(old(state)@, utf8_lossy(target@)),
        faithful(target@),
{
    let zone: String = lossy_text(target);
    timezone_report(state, zone.as_str())
}

/// The default route that is listed, if one is.
pub open spec fn reported_route(report: Seq<char>) -> Option<Seq<char>> {
    if trimmed(report).len() == 0 {
        None
    } else {
        Some(trimmed(report))
    }
}

/// The state after a list of default routes.
pub open spec fn after_route(s: SystemStateView, report: Seq<char>) -> SystemStateView {
    SystemStateView { default_route: reported_route(report), ..s }
}

/// The events of a list of default routes.
pub open spec fn route_events(s: SystemStateView, report: Seq<char>) -> Seq<EventView> {
    if s.default_route == reported_route(report) {
        Seq::empty()
    } else {
        seq![EventView { name: "OnDefaultRouteChange"@, data: reported_route(report) }]
    }
}

/// Takes in a list of default routes.
pub fn route_report(state: &mut SystemState, report: &str) -> (r: Vec<Event>)
    ensures
        final(state)@ == after_route(old(state)@, report@),
        events(r@) == route_events(old(state)@, report@),
{
    let mut r: Vec<Event> = no_events();
    let text: &str = trim(report);
    let route: Option<String> = if text.is_empty() { None } else { Some(text.to_string()) };
    if !same_option(&state.default_route, &route) {
        let event = Event {
            name: "OnDefaultRouteChange".to_string(),
            data: copy_option(&route),
        };
        add_event(&mut r, event);
        state.default_route = route;
    }
    assert(events(r@) =~= route_events(old(state)@, report@));
    r
}

/// Takes in what the routing tool printed on the default route.
pub fn route_output(state: &mut SystemState, stdout: &[u8]) -> (r: Vec<Event>)
    ensures
        final(state)@ == after_route(old(state)@, utf8_lossy(stdout@)),
        events(r@) == route_events(old(state)@, utf8_lossy(stdout@)),
        faithful(stdout@),
{
    let report: String = lossy_text(stdout);
    route_report(state, report.as_str())
}

/// The same report a second time changes nothing and tells plugins nothing.
pub proof fn law_session_settles(s: SystemStateView, last: Option<Seq<char>>, report: Seq<char>)
    ensures
        lock_events(after_lock(s, report), report) == Seq::<EventView>::empty(),
        after_lock(after_lock(s, report), report) == after_lock(s, report),
        session_events(after_sessions(s, report), report) == Seq::<EventView>::empty(),
        after_sessions(after_sessions(s, report), report) == after_sessions(s, report),
        timezone_events(after_timezone(s, report), report) == Seq::<EventView>::empty(),
        after_timezone(after_timezone(s, report), report) == after_timezone(s, report),
        route_events(after_route(s, report), report) == Seq::<EventView>::empty(),
        after_route(after_route(s, report), report) == after_route(s, report),
        lid_events(after_lid(last, report), report) == Seq::<EventView>::empty(),
        after_lid(after_lid(last, report), report) == after_lid(last, report),
{
}

/// The first user, time zone and audio output that are seen are no change: only
/// a later, different one is.
pub proof fn law_first_sight_is_no_switch(s: SystemStateView, report: Seq<char>)
    ensures
        s.active_user is None ==> session_events(s, report) == Seq::<EventView>::empty(),
        s.timezone is None ==> timezone_events(s, report) == Seq::<EventView>::empty(),
        s.default_sink is None ==> sink_events(s, report) == Seq::<EventView>::empty(),
{
}

/// A session is locked where the report says yes. Locking is told, also where it
/// is seen first; unlocking is told after a lock.
pub proof fn law_lock_is_told(s: SystemStateView, report: Seq<char>)
    ensures
        ({
            let locked = has_part(report, "yes"@);
            let told = lock_events(s, report);
            &&& after_lock(s, report) == (SystemStateView { session_locked: Some(locked), ..s })
            &&& locked && s.session_locked != Some(true) ==> told == seq![plain("OnSessionLock"@)]
            &&& locked && s.session_locked == Some(true) ==> told == Seq::<EventView>::empty()
            &&& !locked && s.session_locked == Some(true) ==> told == seq![
                plain("OnSessionUnlock"@),
            ]
            &&& !locked && s.session_locked != Some(true) ==> told == Seq::<EventView>::empty()
        }),
{
}

proof fn lemma_user_in(list: Seq<Seq<char>>, i: int)
    requires
        0 <= i <= list.len(),
        forall|j: int| 0 <= j < i ==> words_of(#[trigger] list[j]).len() < 3,
        i < list.len() ==> words_of(list[i]).len() >= 3,
    ensures
        user_in(list) == if i < list.len() {
            Some(words_of(list[i])[2])
        } else {
            None
        },
    decreases i,
{
    if i > 0 {
        let rest = list.drop_first();
        assert forall|j: int| 0 <= j < i - 1 implies words_of(#[trigger] rest[j]).len() < 3 by {
            assert(rest[j] == list[j + 1]);
        }
        assert(words_of(list[0]).len() < 3);
        lemma_user_in(rest, i - 1);
    }
}

/// The user is the third word of the first line that has three; a user other
/// than the one before is told, and the first user is not. Where no line has
/// three words, nothing changes and nothing is told.
pub proof fn law_user_is_told(s: SystemStateView, report: Seq<char>, i: int)
    requires
        0 <= i <= lines_of(report).len(),
        forall|j: int| 0 <= j < i ==> words_of(#[trigger] lines_of(report)[j]).len() < 3,
        i < lines_of(report).len() ==> words_of(lines_of(report)[i]).len() >= 3,
    ensures
        i < lines_of(report).len() ==> ({
            let user = words_of(lines_of(report)[i])[2];
            let told = session_events(s, report);
            &&& after_sessions(s, report) == (SystemStateView { active_user: Some(user), ..s })
            &&& s.active_user is Some && s.active_user != Some(user) ==> told == seq![
                carrying("OnUserSwitch"@, user),
            ]
            &&& s.active_user is None || s.active_user == Some(user) ==> told == Seq::<
                EventView,
            >::empty()
        }),
        i == lines_of(report).len() ==> after_sessions(s, report) == s && session_events(s, report)
            == Seq::<EventView>::empty(),
{
    lemma_user_in(lines_of(report), i);
}

/// The lid is open where the report speaks of open, and else closed where it
/// speaks of closed. A position other than the last one is told; any other
/// report is passed over.
pub proof fn law_lid_is_told(last: Option<Seq<char>>, report: Seq<char>)
    ensures
        ({
            let told = lid_events(last, report);
            let after = after_lid(last, report);
            let open = has_part(report, "open"@);
            let closed = !open && has_part(report, "closed"@);
            &&& open ==> after == Some("open"@)
            &&& closed ==> after == Some("closed"@)
            &&& !open && !closed ==> after == last && told == Seq::<EventView>::empty()
            &&& open && last != Some("open"@) ==> told == seq![plain("OnLidOpen"@)]
            &&& open && last == Some("open"@) ==> told == Seq::<EventView>::empty()
            &&& closed && last != Some("closed"@) ==> told == seq![plain("OnLidClose"@)]
            &&& closed && last == Some("closed"@) ==> told == Seq::<EventView>::empty()
        }),
{
}

/// A time zone other than the one before is told, and the first is not.
pub proof fn law_timezone_is_told(s: SystemStateView, zone: Seq<char>)
    ensures
        after_timezone(s, zone) == (SystemStateView { timezone: Some(zone), ..s }),
        s.timezone is Some && s.timezone != Some(zone) ==> timezone_events(s, zone) == seq![
            carrying("OnTimezoneChange"@, zone),
        ],
        s.timezone is None || s.timezone == Some(zone) ==> timezone_events(s, zone) == Seq::<
            EventView,
        >::empty(),
{
}

/// The default route is the report without the white space around it, and there
/// is none where nothing is left. A route that is new, other or gone is told; of
/// one that is gone there is no data.
pub proof fn law_route_is_told(s: SystemStateView, report: Seq<char>)
    ensures
        ({
            let text = trimmed(report);
            let told = route_events(s, report);
            &&& text.len() > 0 ==> after_route(s, report) == (SystemStateView {
                default_route: Some(text),
                ..s
            })
            &&& text.len() == 0 ==> after_route(s, report) == (SystemStateView {
                default_route: None,
                ..s
            })
            &&& text.len() > 0 && s.default_route != Some(text) ==> told == seq![
                carrying("OnDefaultRouteChange"@, text),
            ]
            &&& text.len() > 0 && s.default_route == Some(text) ==> told == Seq::<EventView>::empty()
            &&& text.len() == 0 && s.default_route is Some ==> told == seq![
                plain("OnDefaultRouteChange"@),
            ]
            &&& text.len() == 0 && s.default_route is None ==> told == Seq::<EventView>::empty()
        }),
{
}

} // verus!
