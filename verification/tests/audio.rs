use plugind::audio::{
    mute_output, mute_report, sink_output, sink_report, volume_of, volume_output, volume_report,
};
use plugind::event::Event;
use plugind::state::SystemState;

fn shown(events: &Vec<Event>) -> Vec<(String, Option<String>)> {
    events.iter().map(|e| (e.name.clone(), e.data.clone())).collect()
}

fn plain(name: &str) -> (String, Option<String>) {
    (name.to_string(), None)
}

fn with(name: &str, data: &str) -> (String, Option<String>) {
    (name.to_string(), Some(data.to_string()))
}

const REPORT: &str = "Volume: front-left: 26214 /  40% / -23.88 dB,   front-right: 26214 /  40%";

#[test]
fn the_volume_is_followed() {
    assert_eq!(volume_of(REPORT), Some(40));
    assert_eq!(volume_of("no slash"), None);
    assert_eq!(volume_of("a / b"), None);
    assert_eq!(volume_of("a / 300% /"), None);
    assert_eq!(volume_of("/7%%"), Some(7));
    let mut s = SystemState::default();
    assert_eq!(shown(&volume_report(&mut s, REPORT)), vec![with("OnVolumeChange", "40")]);
    assert!(volume_output(&mut s, REPORT.as_bytes()).is_empty());
    assert_eq!(shown(&volume_output(&mut s, b"x / 0% /")), vec![with("OnVolumeChange", "0")]);
    assert!(volume_report(&mut s, "broken").is_empty());
    assert_eq!(s.audio_volume, Some(0));
}

#[test]
fn muting_is_followed() {
    let mut s = SystemState::default();
    assert!(mute_report(&mut s, "Mute: no\n").is_empty());
    assert_eq!(shown(&mute_output(&mut s, b"Mute: yes\n")), vec![plain("OnMute")]);
    assert!(mute_report(&mut s, "Mute: yes\n").is_empty());
    assert_eq!(shown(&mute_report(&mut s, "Mute: no\n")), vec![plain("OnUnmute")]);
}

#[test]
fn the_output_is_followed() {
    let mut s = SystemState::default();
    assert!(sink_report(&mut s, "\n").is_empty());
    assert_eq!(s.default_sink, None);
    assert!(sink_report(&mut s, "speakers\n").is_empty());
    assert_eq!(
        shown(&sink_output(&mut s, b"headset\n")),
        vec![with("OnAudioOutputChange", "headset")]
    );
    assert!(sink_report(&mut s, "").is_empty());
    assert_eq!(s.default_sink, Some("headset".to_string()));
}
