use splicefeed::config::{
    config_path, ArtworkOverride, BindAddr, BindIp, Config, ConfigError, Interval, RawConfig,
    RawOtlp, RawShow, Retention,
};
use splicefeed::domain::{ApiKey, ListenKey};

fn raw() -> RawConfig {
    RawConfig {
        bind: None,
        external_base_url: None,
        data_dir: Some("/data".into()),
        poll_interval: None,
        download_concurrency: None,
        fetch_last: None,
        retention: Retention::unlimited(),
        listen_key: None,
        api_key: None,
        base_url: None,
        control_socket: None,
        otlp: None,
        shows: vec![],
    }
}

fn show(slug: &str) -> RawShow {
    RawShow {
        provider: None,
        slug: slug.into(),
        title: None,
        poll_interval: None,
        fetch_last: None,
        artwork: None,
        retention: None,
    }
}

fn key(text: &str) -> Option<ListenKey> {
    Some(ListenKey::new(text.into()))
}

fn load(raw: RawConfig) -> Result<Config, ConfigError> {
    Config::load(raw, None, None, Err("no home directory".into()))
}

fn failure(raw: RawConfig) -> ConfigError {
    match load(raw) {
        Ok(_) => panic!("must be rejected"),
        Err(error) => error,
    }
}

fn loaded(raw: RawConfig) -> Config {
    match load(raw) {
        Ok(config) => config,
        Err(error) => panic!("{}", error.to_string()),
    }
}

#[test]
fn minimal_config_gets_defaults() {
    let config = loaded(RawConfig {
        listen_key: key("abc123"),
        shows: vec![show("melodik-revolution")],
        ..raw()
    });

    assert_eq!(config.bind().port, 8380);
    assert!(config.bind().is_loopback());
    assert_eq!(config.poll_interval(), Interval::from_secs(1800));
    assert_eq!(config.shows().len(), 1);
    assert_eq!(config.shows()[0].provider(), "difm");
    assert!(config.difm_listen_key().is_some());
    assert!(config.validate().is_ok());
    assert_eq!(config.download_concurrency(), 2);
    assert_eq!(config.retention().keep_last(), None);
    assert_eq!(config.retention().max_bytes(), None);
    assert_eq!(config.data_dir(), "/data");
    assert!(config.difm_api_key().is_none());
    assert!(config.difm_base_url().is_none());
}

#[test]
fn difm_show_without_key_is_rejected() {
    let error = failure(RawConfig { shows: vec![show("anything-melodic")], ..raw() });
    assert!(matches!(error, ConfigError::MissingListenKey { .. }));
    assert_eq!(
        error.to_string(),
        "show `anything-melodic` uses provider `difm`, which requires an API key or a listen key; \
         set [auth.difm] api_key or listen_key in the config, \
         or the DIFM_API_KEY or DIFM_LISTEN_KEY env var"
    );
}

#[test]
fn duplicate_slugs_are_rejected() {
    let error = failure(RawConfig {
        listen_key: key("abc"),
        shows: vec![show("x"), show("x")],
        ..raw()
    });
    assert!(matches!(error, ConfigError::DuplicateShow(_)));
    assert_eq!(error.to_string(), "duplicate show slug `x`");
}

fn base(config: &Config) -> Option<String> {
    config.external_base_url().map(|url| url.as_str().to_owned())
}

#[test]
fn overrides_and_layering() {
    let config = loaded(RawConfig {
        bind: Some(BindAddr { ip: BindIp::V4 { a: 0, b: 0, c: 0, d: 0 }, port: 9000 }),
        external_base_url: Some("http://nas.lan:9000".into()),
        poll_interval: Some(Interval::from_secs(3600)),
        retention: Retention { keep_last: Some(50), max_bytes: Some(20_000_000_000) },
        listen_key: key("abc"),
        shows: vec![RawShow {
            poll_interval: Some(Interval::from_secs(900)),
            artwork: Some("https://example.com/art.jpg".into()),
            retention: Some(Retention { keep_last: Some(5), max_bytes: None }),
            ..show("melodik-revolution")
        }],
        ..raw()
    });

    assert_eq!(base(&config).as_deref(), Some("http://nas.lan:9000/"));
    let show = &config.shows()[0];
    assert_eq!(show.poll_interval(config.poll_interval()), Interval::from_secs(900));
    assert!(matches!(show.artwork(), Some(ArtworkOverride::Url(_))));
    let effective = show.retention(config.retention());
    assert_eq!(effective.keep_last(), Some(5));
    assert_eq!(effective.max_bytes(), Some(20_000_000_000));
    assert!(!config.bind().is_loopback());
    assert_eq!(config.bind().to_string(), "0.0.0.0:9000");
}

#[test]
fn default_external_base_url_derives_from_bind() {
    let config = loaded(RawConfig { listen_key: key("abc"), ..raw() });
    assert_eq!(base(&config).as_deref(), Some("http://127.0.0.1:8380/"));
}

#[test]
fn an_ipv6_bind_forms_a_base_url_too() {
    let bind = BindAddr { ip: BindIp::V6 { text: "::1".into(), loopback: true }, port: 8380 };
    assert!(bind.is_loopback());
    assert_eq!(bind.to_string(), "[::1]:8380");
    let config = loaded(RawConfig { bind: Some(bind), ..raw() });
    assert_eq!(base(&config).as_deref(), Some("http://[::1]:8380/"));
}

#[test]
fn a_scoped_bind_loads_without_a_base_url_of_its_own() {
    let ip = || BindIp::V6 { text: "fe80::1%5".into(), loopback: false };
    let scoped = loaded(RawConfig { bind: Some(BindAddr { ip: ip(), port: 80 }), ..raw() });
    assert_eq!(scoped.bind().to_string(), "[fe80::1%5]:80");
    assert_eq!(scoped.default_base_url(), "http://[fe80::1%5]:80");
    assert_eq!(base(&scoped), None);
    let named = loaded(RawConfig {
        bind: Some(BindAddr { ip: ip(), port: 80 }),
        external_base_url: Some("http://nas.lan".into()),
        ..raw()
    });
    assert_eq!(base(&named).as_deref(), Some("http://nas.lan/"));
}

#[test]
fn environment_keys_beat_the_file() {
    let config = Config::load(
        RawConfig {
            listen_key: key("from-file"),
            api_key: Some(ApiKey::new("member-file".into())),
            shows: vec![show("x")],
            ..raw()
        },
        Some("from-env".into()),
        Some("member-env".into()),
        Err("unused".into()),
    )
    .ok()
    .expect("loads");
    assert_eq!(config.difm_listen_key().expect("set").expose(), "from-env");
    assert_eq!(config.difm_api_key().expect("set").expose(), "member-env");
}

#[test]
fn an_api_key_alone_is_enough() {
    let config = loaded(RawConfig {
        api_key: Some(ApiKey::new("member-key".into())),
        shows: vec![show("x")],
        ..raw()
    });
    assert!(config.difm_listen_key().is_none());
    assert!(config.validate().is_ok());
}

#[test]
fn other_providers_need_no_difm_key() {
    let config = loaded(RawConfig {
        shows: vec![RawShow { provider: Some("elsewhere".into()), ..show("x") }],
        ..raw()
    });
    assert_eq!(config.shows()[0].provider(), "elsewhere");
}

#[test]
fn the_first_objection_decides() {
    // The first show lacks a key before the second can be a duplicate.
    let error = failure(RawConfig { shows: vec![show("x"), show("x")], ..raw() });
    assert!(matches!(error, ConfigError::MissingListenKey { .. }));
}

#[test]
fn faults_in_the_file_are_load_errors() {
    let bad_slug = failure(RawConfig { shows: vec![show("a b")], ..raw() });
    assert_eq!(
        bad_slug.to_string(),
        "failed to load config: invalid show slug: only ASCII letters, digits, `-`, `_`, and \
         `.` are allowed"
    );
    let empty_slug = failure(RawConfig { shows: vec![show("")], ..raw() });
    assert_eq!(
        empty_slug.to_string(),
        "failed to load config: invalid show slug: must not be empty"
    );
    let bad_url = failure(RawConfig { external_base_url: Some("nowhere".into()), ..raw() });
    assert_eq!(
        bad_url.to_string(),
        "failed to load config: relative URL without a base"
    );
    let no_slots = failure(RawConfig { download_concurrency: Some(0), ..raw() });
    assert!(matches!(no_slots, ConfigError::Load(_)));
    let bad_artwork = failure(RawConfig {
        listen_key: key("abc"),
        shows: vec![RawShow { artwork: Some("https://".into()), ..show("x") }],
        ..raw()
    });
    assert!(matches!(bad_artwork, ConfigError::Load(_)));
    let bad_base = failure(RawConfig { base_url: Some("::".into()), ..raw() });
    assert!(matches!(bad_base, ConfigError::Load(_)));
}

#[test]
fn the_platform_supplies_the_data_dir() {
    let without = RawConfig { data_dir: None, ..raw() };
    let config = Config::load(without, None, None, Ok("/home/me/.local/share/splicefeed".into()))
        .ok()
        .expect("loads");
    assert_eq!(config.data_dir(), "/home/me/.local/share/splicefeed");

    let error = failure(RawConfig { data_dir: None, ..raw() });
    assert!(matches!(error, ConfigError::Dirs(_)));
    assert_eq!(
        error.to_string(),
        "could not determine platform directories: no home directory"
    );
}

#[test]
fn artwork_overrides_are_urls_or_paths() {
    assert!(matches!(
        ArtworkOverride::parse("http://example.com/a.png"),
        Ok(ArtworkOverride::Url(url)) if url.as_str() == "http://example.com/a.png"
    ));
    assert!(matches!(
        ArtworkOverride::parse("art/cover.jpg"),
        Ok(ArtworkOverride::Path(path)) if path == "art/cover.jpg"
    ));
    assert!(ArtworkOverride::parse("http://").is_err());
}

#[test]
fn config_paths_resolve_in_order() {
    let explicit = config_path(Some("/a".into()), Some("/b".into()), Ok("/c".into()));
    assert!(matches!(explicit, Ok(path) if path == "/a"));
    let from_env = config_path(None, Some("/b".into()), Ok("/c".into()));
    assert!(matches!(from_env, Ok(path) if path == "/b"));
    let platform = config_path(None, None, Ok("/c".into()));
    assert!(matches!(platform, Ok(path) if path == "/c"));
    let nowhere = config_path(None, None, Err("no home".into()));
    assert!(matches!(nowhere, Err(ConfigError::Dirs(reason)) if reason == "no home"));
    assert_eq!(
        ConfigError::NotFound("/c".into()).to_string(),
        "config file not found at /c (create it or pass --config / set SPLICEFEED_CONFIG)"
    );
}

#[test]
fn control_sockets_resolve_in_order() {
    let config = loaded(raw());
    assert_eq!(
        config.control_socket_path(Some("/run/user/1".into())),
        "/run/user/1/splicefeed.sock"
    );
    assert_eq!(config.control_socket_path(None), "/data/splicefeed.sock");
    let config = loaded(RawConfig { control_socket: Some("/tmp/s.sock".into()), ..raw() });
    assert_eq!(config.control_socket_path(Some("/run".into())), "/tmp/s.sock");
}

#[test]
fn listing_bounds_layer() {
    let config = loaded(RawConfig {
        listen_key: key("abc"),
        fetch_last: Some(10),
        shows: vec![show("x"), RawShow { fetch_last: Some(3), ..show("y") }],
        ..raw()
    });
    assert_eq!(config.shows()[0].fetch_last(config.fetch_last), Some(10));
    assert_eq!(config.shows()[1].fetch_last(config.fetch_last), Some(3));
}

#[test]
fn metrics_export_defaults_to_once_a_minute() {
    let config = loaded(RawConfig {
        otlp: Some(RawOtlp {
            endpoint: "http://collector:4318/v1/metrics".into(),
            headers: vec![("x-team".into(), "audio".into())],
            interval: None,
        }),
        ..raw()
    });
    let otlp = config.otlp.expect("configured");
    assert_eq!(otlp.endpoint.as_str(), "http://collector:4318/v1/metrics");
    assert_eq!(otlp.interval, Interval::from_secs(60));
    assert_eq!(otlp.headers, vec![("x-team".to_string(), "audio".to_string())]);
}

#[test]
fn layering_is_associative_and_idempotent() {
    let own = Retention { keep_last: Some(5), max_bytes: None };
    let middle = Retention { keep_last: None, max_bytes: Some(7) };
    let global = Retention { keep_last: Some(50), max_bytes: Some(9) };
    let left = own.layered_over(&middle).layered_over(&global);
    let right = own.layered_over(&middle.layered_over(&global));
    assert_eq!(left, right);
    assert_eq!(left, Retention { keep_last: Some(5), max_bytes: Some(7) });
    assert_eq!(global.layered_over(&global), global);
    assert_eq!(Retention::unlimited().layered_over(&global), global);
}
