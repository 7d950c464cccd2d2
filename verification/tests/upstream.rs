use splicefeed::config::{Config, RawConfig, RawShow, Retention};
use splicefeed::difm::{
    DifmFactory, DifmProvider, HINT_WITHOUT_API_KEY, HINT_WITH_API_KEY,
};
use splicefeed::domain::{
    redacted, ApiKey, AudioMime, EpisodeId, EpisodeMeta, ErrorClass, ListenKey, ShowSlug,
};
use splicefeed::providers::{ProviderError, ProviderRegistry};
use splicefeed::quarantine::Quarantine;
use splicefeed::timestamp::Timestamp;
use splicefeed::v1::{
    has_audio_extension, mime_for, normalize_image_url, normalize_url, Asset, Content, Episode,
    Images, Show, Track, WireError,
};
use splicefeed::weburl::WebUrl;

fn web(text: &str) -> WebUrl {
    WebUrl::parse(text).expect("valid url")
}

fn slug(text: &str) -> ShowSlug {
    text.parse().expect("valid slug")
}

fn id(text: &str) -> EpisodeId {
    text.parse().expect("valid id")
}

fn provider() -> DifmProvider {
    DifmProvider::builder(Some(ListenKey::new("test-key".into())))
        .base_url(web("http://127.0.0.1:9999"))
        .quarantine_dir("/tmp/q".into())
        .build()
        .ok()
        .expect("provider builds")
}

fn track(length: Option<i64>, title: Option<&str>) -> Track {
    Track {
        length,
        display_title: title.map(str::to_owned),
        content: None,
        asset_url: None,
    }
}

fn episode(name: &str) -> Episode {
    Episode {
        slug: Some(name.into()),
        name: None,
        start_at: None,
        description: None,
        tracks: vec![],
    }
}

fn with_asset(name: &str, asset: &str) -> Episode {
    Episode {
        tracks: vec![Track {
            content: Some(Content {
                assets: Some(vec![Asset { url: Some(asset.into()) }]),
                url: None,
            }),
            ..track(Some(7200), None)
        }],
        ..episode(name)
    }
}

#[test]
fn image_urls_are_normalized() {
    let url = normalize_image_url(
        "//cdn-images.audioaddict.com/4/5/8/8.png{?size,height,width,quality,pad}",
    )
    .expect("normalizes");
    assert_eq!(url.as_str(), "https://cdn-images.audioaddict.com/4/5/8/8.png");
}

#[test]
fn artwork_asset_url_is_not_mistaken_for_audio() {
    let episode = Episode {
        slug: Some("162".into()),
        name: None,
        start_at: None,
        description: None,
        tracks: vec![Track {
            length: Some(7200),
            display_title: None,
            content: Some(Content::default()),
            asset_url: Some("//cdn-images.audioaddict.com/f/a/a.png".into()),
        }],
    };
    assert!(episode.audio_url().is_none());
}

#[test]
fn asset_urls_are_found_and_normalized() {
    let episode = Episode {
        slug: Some("162".into()),
        name: None,
        start_at: None,
        description: None,
        tracks: vec![Track {
            length: None,
            display_title: None,
            content: Some(Content {
                assets: Some(vec![Asset {
                    url: Some("//prem2.di.fm/shows/x/ep162.mp4".into()),
                }]),
                url: None,
            }),
            asset_url: None,
        }],
    };
    let url = episode.audio_url().expect("finds asset");
    assert_eq!(url.as_str(), "https://prem2.di.fm/shows/x/ep162.mp4");
    assert_eq!(mime_for(&url), Some("audio/mp4"));
}

#[test]
fn show_metadata_parses_from_fixture() {
    let show = Show {
        slug: Some("melodik-revolution".into()),
        name: Some("Melodik Revolution".into()),
        description: Some("Trance and more".into()),
        images: Images {
            compact: None,
            default: Some("//cdn-images.audioaddict.com/a/b.png{?size,height}".into()),
        },
    };
    let meta = show.into_meta(&slug("melodik-revolution"));

    assert_eq!(meta.title, "Melodik Revolution");
    assert_eq!(meta.slug.as_str(), "melodik-revolution");
    assert!(meta.description.as_deref().is_some_and(|d| d.contains("Trance")));
    let artwork = meta.artwork.expect("has artwork");
    assert!(artwork.as_str().starts_with("https://cdn-images.audioaddict.com/"));
    assert!(!artwork.as_str().contains('{'), "template suffix must be stripped");
}

#[test]
fn a_nameless_show_goes_by_its_slug() {
    let show = Show { slug: None, name: None, description: None, images: Images::default() };
    let meta = show.into_meta(&slug("melodik-revolution"));
    assert_eq!(meta.title, "melodik-revolution");
    assert!(meta.artwork.is_none());
}

#[test]
fn episode_listing_parses_newest_first() {
    let older = Episode {
        start_at: Some("2026-06-07T14:00:00-04:00".into()),
        tracks: vec![track(Some(7200), Some("Melodik Revolution 161"))],
        ..episode("161")
    };
    let newer = Episode {
        start_at: Some("2026-07-05T14:00:00-04:00".into()),
        tracks: vec![track(Some(7200), Some("Melodik Revolution 162"))],
        ..episode("162")
    };
    let listing = DifmProvider::episodes(vec![Ok(older), Ok(newer)]);
    let episodes = &listing.episodes;
    assert_eq!(episodes.len(), 2);
    let first = &episodes[0];
    assert_eq!(first.id.as_str(), "162");
    assert_eq!(first.title, "Melodik Revolution 162");
    assert_eq!(first.duration_secs, Some(7200));
    let published = first.published_at.expect("has pubdate");
    assert_eq!(published.to_string(), "2026-07-05T18:00:00Z");
    assert_eq!(episodes[1].id.as_str(), "161", "must be newest first");
}

#[test]
fn one_drifted_entry_is_quarantined_not_fatal() {
    let good = Episode {
        start_at: Some("2026-07-05T14:00:00-04:00".into()),
        tracks: vec![track(Some(7200), Some("Melodik Revolution 162"))],
        ..episode("162")
    };
    let listing = DifmProvider::episodes(vec![
        Ok(good),
        Err("invalid type: string \"surprise, a string\", expected a sequence".into()),
        Ok(Episode { slug: None, ..episode("x") }),
    ]);
    assert_eq!(listing.episodes.len(), 1, "good entry survives");
    assert_eq!(listing.episodes[0].id.as_str(), "162");
    assert_eq!(listing.rejected.len(), 3);
    assert_eq!(listing.rejected[0], None);
    assert!(listing.rejected[1].is_some(), "bad entry rejected");
    assert_eq!(listing.rejected[2].as_deref(), Some("missing required field `slug`"));
}

#[test]
fn unknown_show_maps_to_show_not_found() {
    let shown = web("http://127.0.0.1:9999/shows/nope");
    let err = DifmProvider::check_status(404, &shown).expect_err("404");
    assert!(matches!(err, ProviderError::Status { status: 404, .. }));
    let err = DifmProvider::not_found_means_no_show(err, &slug("nope"));
    assert!(matches!(&err, ProviderError::ShowNotFound(show) if show.as_str() == "nope"));
    assert_eq!(err.to_string(), "show `nope` not found upstream");
    let other = DifmProvider::not_found_means_no_show(
        ProviderError::Http("connection refused".into()),
        &slug("nope"),
    );
    assert_eq!(other.to_string(), "upstream request failed: connection refused");
}

#[test]
fn statuses_read_as_success_unchanged_or_failure() {
    let shown = web("http://h/x?api_key=sekrit");
    assert!(DifmProvider::check_status(200, &shown).is_ok());
    assert!(DifmProvider::check_status(299, &shown).is_ok());
    assert!(DifmProvider::check_status(304, &shown).is_err());
    assert!(matches!(DifmProvider::check_listing_status(200, &shown), Ok(true)));
    assert!(matches!(DifmProvider::check_listing_status(304, &shown), Ok(false)));
    let err = DifmProvider::check_listing_status(503, &shown).expect_err("503");
    assert!(!err.to_string().contains("sekrit"));
    assert!(err.to_string().contains("503"));
}

#[test]
fn resolve_audio_without_asset_fails_with_hint_and_sends_key() {
    let provider = provider();
    let request = provider
        .episode_request(&slug("melodik-revolution"), &id("162"))
        .ok()
        .expect("request");
    assert_eq!(
        request.as_str(),
        "http://127.0.0.1:9999/shows/melodik-revolution/episodes/162?listen_key=test-key"
    );
    let unauthenticated = Episode {
        tracks: vec![Track {
            content: Some(Content::default()),
            asset_url: Some("//cdn-images.audioaddict.com/f/a/a.png".into()),
            ..track(Some(7200), None)
        }],
        ..episode("162")
    };
    let err = provider
        .resolve_audio(&id("162"), &unauthenticated)
        .expect_err("no asset in unauth response");
    assert!(matches!(
        &err,
        ProviderError::NoAudioAsset { hint, .. } if hint == HINT_WITHOUT_API_KEY
    ));
    assert!(err.to_string().starts_with("no audio asset for episode `162`: "));
}

#[test]
fn resolve_audio_appends_listen_key_to_asset() {
    let provider = provider();
    let audio = provider
        .resolve_audio(&id("162"), &with_asset("162", "//prem2.di.fm/shows/mr/ep162.mp4"))
        .ok()
        .expect("resolves");
    assert_eq!(
        audio.url.as_str(),
        "https://prem2.di.fm/shows/mr/ep162.mp4?listen_key=test-key"
    );
    assert!(matches!(audio.mime, Some(AudioMime::Mp4)));
    assert!(
        !redacted(&audio.url).as_str().contains("test-key"),
        "redaction must hide the key"
    );
}

#[test]
fn signed_urls_stay_untouched() {
    let provider = DifmProvider::builder(Some(ListenKey::new("test-key".into())))
        .api_key(ApiKey::new("member".into()))
        .build()
        .ok()
        .expect("builds");
    let signed = "https://content.audioaddict.com/a/b.mp4?audio_token=t&auth=h&exp=1";
    let audio = provider
        .resolve_audio(&id("162"), &with_asset("162", signed))
        .ok()
        .expect("resolves");
    assert_eq!(audio.url.as_str(), signed);

    let err = provider.resolve_audio(&id("162"), &episode("162")).expect_err("no asset");
    assert!(matches!(
        err,
        ProviderError::NoAudioAsset { hint, .. } if hint == HINT_WITH_API_KEY
    ));
}

#[test]
fn requests_name_their_resource() {
    let provider = DifmProvider::builder(Some(ListenKey::new("k".into())))
        .api_key(ApiKey::new("member".into()))
        .per_page(50)
        .build()
        .ok()
        .expect("builds");
    let show = slug("melodik-revolution");
    assert_eq!(
        provider.show_request(&show).ok().expect("request").as_str(),
        "https://api.audioaddict.com/v1/di/shows/melodik-revolution"
    );
    assert_eq!(
        provider.episodes_request(&show, None).ok().expect("request").as_str(),
        "https://api.audioaddict.com/v1/di/shows/melodik-revolution/episodes?page=1&per_page=50"
    );
    assert_eq!(
        provider.episodes_request(&show, Some(3)).ok().expect("request").as_str(),
        "https://api.audioaddict.com/v1/di/shows/melodik-revolution/episodes?page=1&per_page=3"
    );
    assert_eq!(
        provider.episode_request(&show, &id("162")).ok().expect("request").as_str(),
        "https://api.audioaddict.com/v1/di/shows/melodik-revolution/episodes/162?api_key=member"
    );
}

#[test]
fn a_base_that_holds_no_path_is_refused() {
    let provider = DifmProvider::builder(None)
        .base_url(web("mailto:someone@example.com"))
        .build()
        .ok()
        .expect("builds");
    let err = provider.show_request(&slug("x")).expect_err("no path");
    assert_eq!(err.to_string(), "upstream request failed: base URL cannot hold a path");
}

#[test]
fn ids_are_escaped_in_requests() {
    let request = provider().episode_request(&slug("x"), &id("a/b c")).ok().expect("request");
    assert_eq!(
        request.as_str(),
        "http://127.0.0.1:9999/shows/x/episodes/a%2Fb%20c?listen_key=test-key"
    );
}

fn converted(wire: Episode) -> Result<EpisodeMeta, WireError> {
    EpisodeMeta::try_from(wire)
}

#[test]
fn episodes_convert_or_say_why_not() {
    let meta = converted(Episode {
        name: Some("Episode name".into()),
        start_at: Some("2026-07-05T18:00:00Z".into()),
        description: Some("notes".into()),
        tracks: vec![track(Some(60), None)],
        ..episode("162")
    })
    .ok()
    .expect("converts");
    assert_eq!(meta.title, "Episode name");
    assert_eq!(meta.description.as_deref(), Some("notes"));
    assert_eq!(meta.published_at, Timestamp::parse("2026-07-05T18:00:00Z").ok());
    assert_eq!(meta.duration_secs, Some(60));

    let missing = converted(Episode { slug: None, ..episode("x") }).expect_err("no slug");
    assert!(matches!(missing, WireError::Missing("slug")));
    let empty = converted(episode("")).expect_err("empty slug");
    assert!(matches!(empty, WireError::Missing("slug")));
    let late = converted(Episode { start_at: Some("soon".into()), ..episode("1") })
        .expect_err("bad date");
    assert!(matches!(late, WireError::Invalid { field: "start_at", .. }));
}

#[test]
fn audio_extensions_have_types() {
    for (path, mime) in [
        ("a.mp3", Some("audio/mpeg")),
        ("a.mp4", Some("audio/mp4")),
        ("a.m4a", Some("audio/mp4")),
        ("a.aac", Some("audio/aac")),
        ("a.png", None),
    ] {
        let text = format!("https://h/{path}?q=1");
        assert_eq!(mime_for(&web(&text)), mime, "{path}");
        assert_eq!(has_audio_extension(&text), mime.is_some(), "{path}");
    }
    assert_eq!(normalize_url("//h/x").expect("normalizes").as_str(), "https://h/x");
    assert!(normalize_url("not a url").is_none());
}

fn config(shows: &[(&str, Option<&str>)], key: bool) -> Config {
    Config::load(
        RawConfig {
            bind: None,
            external_base_url: None,
            data_dir: Some("/data".into()),
            poll_interval: None,
            download_concurrency: None,
            fetch_last: None,
            retention: Retention::unlimited(),
            listen_key: if key { Some(ListenKey::new("k".into())) } else { None },
            api_key: None,
            base_url: None,
            control_socket: None,
            otlp: None,
            shows: shows
                .iter()
                .map(|(slug, provider)| RawShow {
                    provider: provider.map(str::to_owned),
                    slug: slug.to_string(),
                    title: None,
                    poll_interval: None,
                    fetch_last: None,
                    artwork: None,
                    retention: None,
                })
                .collect(),
        },
        None,
        None,
        Err("unused".into()),
    )
    .ok()
    .expect("loads")
}

#[test]
fn the_registry_holds_what_shows_call_for() {
    let registry = ProviderRegistry::from_config(&config(&[("x", None), ("y", None)], true))
        .ok()
        .expect("builds");
    let provider = registry.get("difm").ok().expect("registered");
    assert_eq!(provider.quarantine.dir(), "/data/quarantine/difm");
    assert_eq!(provider.base_url.as_str(), "https://api.audioaddict.com/v1/di/");
    let err = registry.get("elsewhere").err().expect("unknown");
    assert_eq!(err.to_string(), "no provider registered as `elsewhere`");

    let empty = ProviderRegistry::from_config(&config(&[], true)).ok().expect("builds");
    assert!(empty.get("difm").is_err());
    let unknown = ProviderRegistry::from_config(&config(&[("x", Some("elsewhere"))], true));
    assert!(matches!(unknown, Err(ProviderError::UnknownProvider(name)) if name == "elsewhere"));
}

#[test]
fn providers_need_their_credentials() {
    assert_eq!(DifmFactory.name(), "difm");
    let err = DifmFactory.create(&config(&[], false)).err().expect("no key");
    assert_eq!(
        err.to_string(),
        "provider `difm` requires credentials that are not configured"
    );
    assert!(ProviderRegistry::create(&config(&[], true), "difm").is_ok());
    assert!(matches!(
        ProviderRegistry::create(&config(&[], true), "nope"),
        Err(ProviderError::UnknownProvider(_))
    ));
}

#[test]
fn writes_payload_with_label() {
    let quarantine = Quarantine::new("/tmp/q".into());
    let now = Timestamp::parse("2026-07-11T22:14:29.125Z").expect("valid");
    let path = quarantine.payload_path("episodes-test", now);
    assert_eq!(path, "/tmp/q/20260711T221429.125Z-episodes-test.json");
    assert_eq!(quarantine.write_or_note(Ok(path.clone())), Some(path));
    assert_eq!(quarantine.write_or_note(Err("disk full".into())), None);
}

#[test]
fn garbage_payload_is_quarantined_and_errors() {
    let payload = "<html>maintenance</html>";
    let reason = serde_json::from_str::<serde_json::Value>(payload)
        .map(|_| ())
        .map_err(|e| e.to_string())
        .expect_err("no JSON");
    let now = Timestamp::parse("2026-07-11T22:14:29.125Z").expect("valid");
    let aside = provider()
        .show(&slug("melodik-revolution"), Err(reason.clone()), now)
        .err()
        .expect("must fail");
    assert_eq!(aside.path, "/tmp/q/20260711T221429.125Z-show-melodik-revolution.json");
    let written = aside.path.clone();
    let err = aside.failed(provider().quarantine.write_or_note(Ok(written.clone())));
    let ProviderError::Parse { quarantine_path, .. } = &err else {
        panic!("expected Parse error, got: {}", err.to_string());
    };
    assert_eq!(quarantine_path.as_deref(), Some(written.as_str()));
    assert_eq!(
        err.to_string(),
        format!("unparseable upstream response (quarantined at {written}): {reason}")
    );
}

#[test]
fn payloads_are_set_aside_by_what_they_are() {
    let show = slug("x");
    assert_eq!(DifmProvider::show_label(&show), "show-x");
    assert_eq!(DifmProvider::episodes_label(&show), "episodes-x");
    assert_eq!(DifmProvider::entry_label(&show), "episode-entry-x");
    assert_eq!(DifmProvider::episode_label(&show, &id("162")), "episode-x-162");

    let now = Timestamp::parse("2026-07-11T22:14:29.125Z").expect("valid");
    assert_eq!(provider().parse(Ok(7_u8), "n", now).ok(), Some(7));
    let aside = provider().parse::<u8>(Err("why".into()), "n", now).err().expect("set aside");
    assert_eq!(aside.reason, "why");
    assert_eq!(aside.path, "/tmp/q/20260711T221429.125Z-n.json");
    let err = aside.failed(None);
    assert_eq!(err.to_string(), "unparseable upstream response (not quarantined): why");

    let listed = provider().entries(&show, r#" [ {"slug" : "162"}, 7 ] "#, now);
    assert_eq!(listed.ok().expect("an array"), [r#"{"slug":"162"}"#, "7"]);
    let aside = provider().entries(&show, "{}", now).err().expect("no array");
    assert_eq!(aside.path, "/tmp/q/20260711T221429.125Z-episodes-x.json");
    assert!(aside.reason.starts_with("invalid type: map, expected a sequence"), "{}", aside.reason);

    let wire = Show {
        slug: Some("x".into()),
        name: Some("The X".into()),
        description: None,
        images: Images { compact: None, default: None },
    };
    let meta = provider().show(&show, Ok(wire), now).ok().expect("understood");
    assert_eq!((meta.slug.as_str(), meta.title.as_str()), ("x", "The X"));
}

#[test]
fn provider_errors_have_a_class() {
    assert_eq!(ProviderError::Http("refused".into()).class(), ErrorClass::Network);
    assert_eq!(ProviderError::ShowNotFound(slug("x")).class(), ErrorClass::HttpStatus);
    let status = DifmProvider::check_status(500, &web("http://h/")).expect_err("500");
    assert_eq!(status.class(), ErrorClass::HttpStatus);
    let missing = ProviderError::NoAudioAsset { episode: id("1"), hint: "why".into() };
    assert_eq!(missing.class(), ErrorClass::Parse);
}
