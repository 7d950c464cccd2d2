use splicefeed::domain::{
    redacted, AudioMime, EpisodeState, ErrorClass, ListenKey, ShowSlug,
};
use splicefeed::weburl::WebUrl;

#[test]
fn slug_rejects_junk() {
    assert!("melodik-revolution".parse::<ShowSlug>().is_ok());
    assert!("a/b".parse::<ShowSlug>().is_err());
    assert!("".parse::<ShowSlug>().is_err());
    assert!("with space".parse::<ShowSlug>().is_err());
}

#[test]
fn listen_key_debug_is_redacted() {
    let key = ListenKey::new("super-secret".into());
    assert_eq!(key.debug_text(), "ListenKey(<redacted>)");
}

#[test]
fn redaction_hides_listen_key() {
    let url = WebUrl::parse("https://prem2.di.fm/shows/x/ep.mp4?foo=1&listen_key=sekrit")
        .expect("valid url");
    let shown = redacted(&url).to_string();
    assert!(!shown.contains("sekrit"));
    assert!(shown.contains("listen_key=REDACTED"));
    assert!(shown.contains("foo=1"));
}

#[test]
fn redaction_hides_api_key_too() {
    let url = WebUrl::parse("https://api.audioaddict.com/v1/di/shows/x/episodes/1?api_key=sekrit")
        .expect("valid url");
    let shown = redacted(&url).to_string();
    assert!(!shown.contains("sekrit"));
    assert!(shown.contains("api_key=REDACTED"));
}

#[test]
fn redaction_leaves_clean_urls_alone() {
    let url = WebUrl::parse("https://api.audioaddict.com/v1/di/shows/x").expect("valid url");
    assert_eq!(redacted(&url).to_string(), url.to_string());
}

#[test]
fn audio_mime_roundtrip_and_extensions() {
    assert_eq!(AudioMime::from("audio/mpeg"), AudioMime::Mpeg);
    assert_eq!(AudioMime::from("audio/x-m4a"), AudioMime::Mp4);
    assert_eq!(AudioMime::Mp4.extension(), Some("m4a"));
    assert_eq!(AudioMime::Mp4.to_string(), "audio/mp4");
    let odd = AudioMime::from("audio/flac");
    assert_eq!(odd, AudioMime::Other("audio/flac".into()));
    assert_eq!(odd.extension(), None);
    assert_eq!(odd.to_string(), "audio/flac");
}

#[test]
fn lifecycle_transitions() {
    let discovered = EpisodeState::Discovered;
    let downloading = EpisodeState::Downloading;
    let cached = EpisodeState::Cached;
    let pruned = EpisodeState::Pruned;
    assert!(discovered.can_transition_to(downloading));
    assert!(downloading.can_transition_to(cached));
    assert!(downloading.can_transition_to(EpisodeState::Failed(ErrorClass::Network)));
    assert!(EpisodeState::Failed(ErrorClass::Disk).can_transition_to(downloading));
    assert!(cached.can_transition_to(pruned));
    assert!(cached.can_transition_to(downloading)); // verify --fix
    assert!(pruned.can_transition_to(downloading)); // retention revival
    assert!(!pruned.can_transition_to(cached));
    assert!(!discovered.can_transition_to(cached));
}
