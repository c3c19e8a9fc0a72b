//! Events: what plugins subscribe to.

use crate::text::{opt_text, same_text};
use vstd::prelude::*;

verus! {

/// Something that happened, with the data that plugins are told of it.
pub struct Event {
    pub name: String,
    pub data: Option<String>,
}

/// An event as a plain value.
#[verifier::ext_equal]
pub struct EventView {
    pub name: Seq<char>,
    pub data: Option<Seq<char>>,
}

impl View for Event {
    type V = EventView;

    open spec fn view(&self) -> EventView {
        EventView { name: self.name@, data: opt_text(self.data) }
    }
}

/// The events of a list.
pub open spec fn events(v: Seq<Event>) -> Seq<EventView> {
    v.map_values(|e: Event| e@)
}

/// The event `name`, without data.
pub open spec fn plain(name: Seq<char>) -> EventView {
    EventView { name, data: None }
}

/// The event `name`, with data.
pub open spec fn carrying(name: Seq<char>, data: Seq<char>) -> EventView {
    EventView { name, data: Some(data) }
}

/// The event `name`, without data.
pub fn plain_event(name: &str) -> (r: Event)
    ensures
        r@ == plain(name@),
{
    Event { name: name.to_string(), data: None }
}

/// The event `name`, with data.
pub fn data_event(name: &str, data: String) -> (r: Event)
    ensures
        r@ == carrying(name@, data@),
{
    Event { name: name.to_string(), data: Some(data) }
}

/// Adds an event to the end of a list.
pub(crate) fn add_event(list: &mut Vec<Event>, event: Event)
    ensures
        events(final(list)@) == events(old(list)@).push(event@),
{
    let ghost before = list@;
    list.push(event);
    assert(events(list@) =~= events(before).push(event@));
}

/// A list without events.
pub(crate) fn no_events() -> (r: Vec<Event>)
    ensures
        events(r@) == Seq::<EventView>::empty(),
{
    let r: Vec<Event> = Vec::new();
    assert(events(r@) =~= Seq::empty());
    r
}

/// The events of something that is on or off: `on` when it comes on or is on
/// when first seen, `off` when it goes off.
pub open spec fn toggle_events(
    was: Option<bool>,
    is: bool,
    on: Seq<char>,
    off: Seq<char>,
) -> Seq<EventView> {
    if was == Some(is) {
        Seq::empty()
    } else if is {
        seq![plain(on)]
    } else if was == Some(true) {
        seq![plain(off)]
    } else {
        Seq::empty()
    }
}

/// The events of a text that may change: `name`, with the new text, when it is
/// no longer the text that was seen before.
pub open spec fn switch_events(
    old: Option<Seq<char>>,
    new: Seq<char>,
    name: Seq<char>,
) -> Seq<EventView> {
    if old is Some && old != Some(new) {
        seq![carrying(name, new)]
    } else {
        Seq::empty()
    }
}

/// The events of something that is on or off.
pub(crate) fn toggle(was: Option<bool>, is: bool, on: &str, off: &str) -> (r: Vec<Event>)
    ensures
        events(r@) == toggle_events(was, is, on@, off@),
{
    let mut r: Vec<Event> = no_events();
    let (unchanged, was_on) = match was {
        Some(w) => (w == is, w),
        None => (false, false),
    };
    if !unchanged {
        if is {
            add_event(&mut r, plain_event(on));
        } else if was_on {
            add_event(&mut r, plain_event(off));
        }
    }
    assert(events(r@) =~= toggle_events(was, is, on@, off@));
    r
}

/// The events of a text that may change.
pub(crate) fn switch(old: &Option<String>, new: &str, name: &str) -> (r: Vec<Event>)
    ensures
        events(r@) == switch_events(opt_text(*old), new@, name@),
{
    let mut r: Vec<Event> = no_events();
    if let Some(before) = old {
        if !same_text(before.as_str(), new) {
            add_event(&mut r, data_event(name, new.to_string()));
        }
    }
    assert(events(r@) =~= switch_events(opt_text(*old), new@, name@));
    r
}

/// An event has the name and the data that it was made with; one made without
/// data has none.
pub proof fn law_events_carry(name: Seq<char>, data: Seq<char>)
    ensures
        plain(name).name == name && plain(name).data is None,
        carrying(name, data).name == name && carrying(name, data).data == Some(data),
{
}

/// A switch that comes on, or is on when first seen, is told as on; one that goes
/// off is told as off; one that stays, or is off when first seen, is not told.
pub proof fn law_toggles(on: Seq<char>, off: Seq<char>)
    ensures
        toggle_events(None, true, on, off) == seq![plain(on)],
        toggle_events(Some(false), true, on, off) == seq![plain(on)],
        toggle_events(Some(true), true, on, off) == Seq::<EventView>::empty(),
        toggle_events(Some(true), false, on, off) == seq![plain(off)],
        toggle_events(Some(false), false, on, off) == Seq::<EventView>::empty(),
        toggle_events(None, false, on, off) == Seq::<EventView>::empty(),
{
}

/// A text that differs from the one before is told; the first one is not, and
/// neither is the same one again.
pub proof fn law_switches(old: Seq<char>, new: Seq<char>, name: Seq<char>)
    ensures
        switch_events(None, new, name) == Seq::<EventView>::empty(),
        switch_events(Some(new), new, name) == Seq::<EventView>::empty(),
        old != new ==> switch_events(Some(old), new, name) == seq![carrying(name, new)],
{
}

} // verus!
