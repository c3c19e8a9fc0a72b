//! The default audio output: its volume, whether it is muted, and which it is.

use crate::bytes::{faithful, lossy_text, utf8_lossy};
use crate::event::{
    add_event, carrying, data_event, events, no_events, plain, switch, switch_events, toggle,
    toggle_events, Event, EventView,
};
use crate::number::{decimal, decimal_text, number_of, parse_u8};
use crate::state::{SystemState, SystemStateView};
use crate::text::{
    contains, drop_trailing, has_part, law_drop_trailing, law_pieces_rejoin, lemma_pieces_join,
    only, pieces, pieces_of, texts, trim, trim_end, trimmed,
};
use vstd::prelude::*;

verus! {

/// The volume in percent that the sound server reports, if it reports one: the
/// number before the percent sign, behind the first slash.
pub open spec fn reported_volume(report: Seq<char>) -> Option<nat> {
    let parts = pieces_of(report, '/');
    if parts.len() >= 2 {
        number_of(drop_trailing(trimmed(parts[1]), only('%')), u8::MAX as nat)
    } else {
        None
    }
}

/// The state after a report of the volume.
pub open spec fn after_volume(s: SystemStateView, report: Seq<char>) -> SystemStateView {
    match reported_volume(report) {
        Some(n) => SystemStateView { audio_volume: Some(n as u8), ..s },
        None => s,
    }
}

/// The events of a report of the volume.
pub open spec fn volume_events(s: SystemStateView, report: Seq<char>) -> Seq<EventView> {
    match reported_volume(report) {
        Some(n) => if s.audio_volume == Some(n as u8) {
            Seq::empty()
        } else {
            seq![carrying("OnVolumeChange"@, decimal(n))]
        },
        None => Seq::empty(),
    }
}

/// The volume that the sound server reports.
pub fn volume_of(report: &str) -> (r: Option<u8>)
    ensures
        r is Some <==> reported_volume(report@) is Some,
        r is Some ==> r->0 == reported_volume(report@)->0,
{
    let parts: Vec<&str> = pieces(report, '/');
    assert(texts(parts@).len() == parts@.len());
    if parts.len() < 2 {
        return None;
    }
    assert(texts(parts@)[1] == parts@[1]@);
    parse_u8(trim_end(trim(parts[1]), '%'))
}

/// Takes in a report of the volume.
pub fn volume_report(state: &mut SystemState, report: &str) -> (r: Vec<Event>)
    ensures
        final(state)@ == after_volume(old(state)@, report@),
        events(r@) == volume_events(old(state)@, report@),
{
    let mut r: Vec<Event> = no_events();
    if let Some(volume) = volume_of(report) {
        let unchanged = match state.audio_volume {
            Some(was) => was == volume,
            None => false,
        };
        if !unchanged {
            state.audio_volume = Some(volume);
            add_event(&mut r, data_event("OnVolumeChange", decimal_text(volume as u64)));
        }
    }
    assert(events(r@) =~= volume_events(old(state)@, report@));
    r
}

/// Takes in what the sound server printed on the volume.
pub fn volume_output(state: &mut SystemState, stdout: &[u8]) -> (r: Vec<Event>)
    ensures
        final(state)@ == after_volume(old(state)@, utf8_lossy(stdout@)),
        events(r@) == volume_events(old(state)@, utf8_lossy(stdout@)),
        faithful(stdout@),
{
    let report: String = lossy_text(stdout);
    volume_report(state, report.as_str())
}

/// The output is muted, by the report of the sound server.
pub open spec fn reported_mute(report: Seq<char>) -> bool {
    has_part(report, "yes"@)
}

/// The state after a report on muting.
pub open spec fn after_mute(s: SystemStateView, report: Seq<char>) -> SystemStateView {
    SystemStateView { audio_muted: Some(reported_mute(report)), ..s }
}

/// The events of a report on muting.
pub open spec fn mute_events(s: SystemStateView, report: Seq<char>) -> Seq<EventView> {
    toggle_events(s.audio_muted, reported_mute(report), "OnMute"@, "OnUnmute"@)
}

/// Takes in a report on muting.
pub fn mute_report(state: &mut SystemState, report: &str) -> (r: Vec<Event>)
    ensures
        final(state)@ == after_mute(old(state)@, report@),
        events(r@) == mute_events(old(state)@, report@),
{
    let muted = contains(report, "yes");
    let r: Vec<Event> = toggle(state.audio_muted, muted, "OnMute", "OnUnmute");
    state.audio_muted = Some(muted);
    r
}

/// Takes in what the sound server printed on muting.
pub fn mute_output(state: &mut SystemState, stdout: &[u8]) -> (r: Vec<Event>)
    ensures
        final(state)@ == after_mute(old(state)@, utf8_lossy(stdout@)),
        events(r@) == mute_events(old(state)@, utf8_lossy(stdout@)),
        faithful(stdout@),
{
    let report: String = lossy_text(stdout);
    mute_report(state, report.as_str())
}

/// The state after the name of the default output was reported.
pub open spec fn after_sink(s: SystemStateView, report: Seq<char>) -> SystemStateView {
    if trimmed(report).len() == 0 {
        s
    } else {
        SystemStateView { default_sink: Some(trimmed(report)), ..s }
    }
}

/// The events of a report of the default output.
pub open spec fn sink_events(s: SystemStateView, report: Seq<char>) -> Seq<EventView> {
    if trimmed(report).len() == 0 {
        Seq::empty()
    } else {
        switch_events(s.default_sink, trimmed(report), "OnAudioOutputChange"@)
    }
}

/// Takes in the name of the default output. An empty report is passed over.
pub fn sink_report(state: &mut SystemState, report: &str) -> (r: Vec<Event>)
    ensures
        final(state)@ == after_sink(old(state)@, report@),
        events(r@) == sink_events(old(state)@, report@),
{
    let sink: &str = trim(report);
    if sink.is_empty() {
        return no_events();
    }
    let r: Vec<Event> = switch(&state.default_sink, sink, "OnAudioOutputChange");
    state.default_sink = Some(sink.to_string());
    r
}

/// Takes in what the sound server printed on the default output.
pub fn sink_output(state: &mut SystemState, stdout: &[u8]) -> (r: Vec<Event>)
    ensures
        final(state)@ == after_sink(old(state)@, utf8_lossy(stdout@)),
        events(r@) == sink_events(old(state)@, utf8_lossy(stdout@)),
        faithful(stdout@),
{
    let report: String = lossy_text(stdout);
    sink_report(state, report.as_str())
}

/// The same report a second time changes nothing and tells plugins nothing.
pub proof fn law_audio_settles(s: SystemStateView, report: Seq<char>)
    ensures
        volume_events(after_volume(s, report), report) == Seq::<EventView>::empty(),
        after_volume(after_volume(s, report), report) == after_volume(s, report),
        mute_events(after_mute(s, report), report) == Seq::<EventView>::empty(),
        after_mute(after_mute(s, report), report) == after_mute(s, report),
        sink_events(after_sink(s, report), report) == Seq::<EventView>::empty(),
        after_sink(after_sink(s, report), report) == after_sink(s, report),
{
}

/// The volume is the number that stands between the first two slashes of the
/// report, or behind its only slash, in front of percent signs.
pub proof fn law_volume_is_read(
    before: Seq<char>,
    figure: Seq<char>,
    after: Seq<char>,
    text: Seq<char>,
    signs: nat,
)
    requires
        !before.contains('/'),
        !figure.contains('/'),
        after.len() == 0 || after[0] == '/',
        trimmed(figure) == text + Seq::new(signs, |i: int| '%'),
        text.len() == 0 || text.last() != '%',
    ensures
        reported_volume(before.push('/') + (figure + after)) == number_of(text, 255),
        reported_volume(before) is None,
{
    law_pieces_rejoin(before, '/');
    law_pieces_rejoin(figure, '/');
    lemma_pieces_join(before, figure + after, '/');
    if after.len() == 0 {
        assert(figure + after =~= figure);
    } else {
        let rest = after.drop_first();
        assert(figure + after =~= figure.push('/') + rest);
        lemma_pieces_join(figure, rest, '/');
        law_pieces_rejoin(rest, '/');
    }
    law_drop_trailing(text, '%', signs);
}

/// A volume other than the one before, and the first one, is told with its
/// figure; a report without a volume changes nothing.
pub proof fn law_volume_is_told(s: SystemStateView, report: Seq<char>, volume: u8)
    ensures
        reported_volume(report) == Some(volume as nat) ==> {
            &&& after_volume(s, report) == (SystemStateView { audio_volume: Some(volume), ..s })
            &&& s.audio_volume != Some(volume) ==> volume_events(s, report) == seq![
                carrying("OnVolumeChange"@, decimal(volume as nat)),
            ]
            &&& s.audio_volume == Some(volume) ==> volume_events(s, report) == Seq::<
                EventView,
            >::empty()
        },
        reported_volume(report) is None ==> after_volume(s, report) == s && volume_events(s, report)
            == Seq::<EventView>::empty(),
{
}

/// The output is muted where the report says yes. Muting is told, also where it
/// is seen first; the end of it is told after that.
pub proof fn law_mute_is_told(s: SystemStateView, report: Seq<char>)
    ensures
        ({
            let muted = has_part(report, "yes"@);
            let told = mute_events(s, report);
            &&& after_mute(s, report) == (SystemStateView { audio_muted: Some(muted), ..s })
            &&& muted && s.audio_muted != Some(true) ==> told == seq![plain("OnMute"@)]
            &&& muted && s.audio_muted == Some(true) ==> told == Seq::<EventView>::empty()
            &&& !muted && s.audio_muted == Some(true) ==> told == seq![plain("OnUnmute"@)]
            &&& !muted && s.audio_muted != Some(true) ==> told == Seq::<EventView>::empty()
        }),
{
}

/// An output other than the one before is told by its name, and the first is
/// not; an empty report changes nothing.
pub proof fn law_sink_is_told(s: SystemStateView, report: Seq<char>)
    ensures
        ({
            let sink = trimmed(report);
            let told = sink_events(s, report);
            &&& sink.len() == 0 ==> after_sink(s, report) == s && told == Seq::<EventView>::empty()
            &&& sink.len() > 0 ==> after_sink(s, report) == (SystemStateView {
                default_sink: Some(sink),
                ..s
            })
            &&& sink.len() > 0 && s.default_sink is Some && s.default_sink != Some(sink) ==> told
                == seq![carrying("OnAudioOutputChange"@, sink)]
            &&& s.default_sink is None || s.default_sink == Some(sink) ==> told == Seq::<
                EventView,
            >::empty()
        }),
{
}

} // verus!
