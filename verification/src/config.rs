//! Configuration: what the file says, layered under the environment,
//! filled with defaults, and validated.
//!
//! The file and the environment are read elsewhere; [`RawConfig`] is what
//! the file holds, in plain values, and [`Config::load`] does the rest.

use vstd::prelude::*;

use crate::domain::{
    invalid_id_text, is_slug, ApiKey, ListenKey, ShowSlug,
};
use crate::text::{begins_with, copy_opt, decimal, decimal_text, opt_text, same_text};
use crate::weburl::{url_parsed, WebUrl, MAX_URL_BYTES, URL_TOO_LONG};

verus! {

/// Name of the env var holding the premium listen key.
pub const DIFM_LISTEN_KEY_ENV: &'static str = "DIFM_LISTEN_KEY";

/// Name of the env var holding the member API key.
pub const DIFM_API_KEY_ENV: &'static str = "DIFM_API_KEY";

/// Name of the env var overriding the config file path.
pub const CONFIG_PATH_ENV: &'static str = "SPLICEFEED_CONFIG";

/// Errors produced while locating, reading, or validating configuration.
#[derive(Debug)]
pub enum ConfigError {
    /// No config file exists at the resolved path.
    NotFound(String),
    /// The file could not be read or does not match the schema.
    Load(String),
    /// A show uses a provider whose required credentials are absent.
    MissingListenKey {
        /// The show whose provider needs credentials.
        show: ShowSlug,
        /// The provider name.
        provider: String,
    },
    /// Two shows share a slug.
    DuplicateShow(ShowSlug),
    /// The platform's standard directories could not be determined.
    Dirs(String),
}

/// The message of a [`ConfigError`].
pub open spec fn config_error_text(error: ConfigError) -> Seq<char> {
    match error {
        ConfigError::NotFound(path) => "config file not found at "@ + path@
            + " (create it or pass --config / set SPLICEFEED_CONFIG)"@,
        ConfigError::Load(reason) => "failed to load config: "@ + reason@,
        ConfigError::MissingListenKey { show, provider } => "show `"@ + show@
            + "` uses provider `"@ + provider@
            + "`, which requires an API key or a listen key; set [auth."@ + provider@
            + "] api_key or listen_key in the config, or the DIFM_API_KEY or DIFM_LISTEN_KEY env var"@,
        ConfigError::DuplicateShow(slug) => "duplicate show slug `"@ + slug@ + "`"@,
        ConfigError::Dirs(reason) => "could not determine platform directories: "@ + reason@,
    }
}

impl ConfigError {
    /// The message shown to people.
    pub fn to_string(&self) -> (text: String)
        ensures
            text@ == config_error_text(*self),
    {
        match self {
            ConfigError::NotFound(path) => {
                let mut text = "config file not found at ".to_owned();
                text.append(path.as_str());
                text.append(" (create it or pass --config / set SPLICEFEED_CONFIG)");
                text
            },
            ConfigError::Load(reason) => {
                let mut text = "failed to load config: ".to_owned();
                text.append(reason.as_str());
                text
            },
            ConfigError::MissingListenKey { show, provider } => {
                let mut text = "show `".to_owned();
                text.append(show.as_str());
                text.append("` uses provider `");
                text.append(provider.as_str());
                text.append("`, which requires an API key or a listen key; set [auth.");
                text.append(provider.as_str());
                text.append(
                    "] api_key or listen_key in the config, or the DIFM_API_KEY or DIFM_LISTEN_KEY env var",
                );
                text
            },
            ConfigError::DuplicateShow(slug) => {
                let mut text = "duplicate show slug `".to_owned();
                text.append(slug.as_str());
                text.append("`");
                text
            },
            ConfigError::Dirs(reason) => {
                let mut text = "could not determine platform directories: ".to_owned();
                text.append(reason.as_str());
                text
            },
        }
    }
}

/// A length of time in seconds and nanoseconds.
#[derive(Debug, Clone, Copy, PartialEq, Eq, Structural)]
pub struct Interval {
    /// Whole seconds.
    pub secs: u64,
    /// Nanoseconds beyond them.
    pub nanos: u32,
}

impl Interval {
    /// The length in nanoseconds.
    pub open spec fn total(self) -> nat {
        (self.secs * 1_000_000_000 + self.nanos) as nat
    }

    /// A whole number of seconds.
    pub fn from_secs(secs: u64) -> (interval: Interval)
        ensures
            interval == (Interval { secs, nanos: 0 }),
    {
        Interval { secs, nanos: 0 }
    }
}

/// The host part of a bind address.
#[derive(Debug, PartialEq, Eq)]
pub enum BindIp {
    /// An IPv4 address.
    V4 {
        /// First octet.
        a: u8,
        /// Second octet.
        b: u8,
        /// Third octet.
        c: u8,
        /// Fourth octet.
        d: u8,
    },
    /// An IPv6 address.
    V6 {
        /// Its text, without brackets.
        text: String,
        /// Whether it is the loopback address.
        loopback: bool,
    },
}

/// The address the HTTP server binds to.
#[derive(Debug, PartialEq, Eq)]
pub struct BindAddr {
    /// The host.
    pub ip: BindIp,
    /// The port.
    pub port: u16,
}

/// The text of a bind address, `host:port`.
pub open spec fn bind_text(bind: BindAddr) -> Seq<char> {
    match bind.ip {
        BindIp::V4 { a, b, c, d } => decimal(a as nat) + "."@ + decimal(b as nat) + "."@ + decimal(
            c as nat,
        ) + "."@ + decimal(d as nat) + ":"@ + decimal(bind.port as nat),
        BindIp::V6 { text, loopback } => "["@ + text@ + "]:"@ + decimal(bind.port as nat),
    }
}

/// Whether an address is a loopback one.
pub open spec fn bind_loopback(bind: BindAddr) -> bool {
    match bind.ip {
        BindIp::V4 { a, .. } => a == 127,
        BindIp::V6 { loopback, .. } => loopback,
    }
}

/// Whether two addresses are the same: they read the same, and are loopback
/// addresses or not alike.
pub open spec fn same_bind(a: BindAddr, b: BindAddr) -> bool {
    bind_text(a) == bind_text(b) && bind_loopback(a) == bind_loopback(b)
}

impl Clone for BindAddr {
    fn clone(&self) -> (copy: Self)
        ensures
            copy == *self,
    {
        let ip = match &self.ip {
            BindIp::V4 { a, b, c, d } => BindIp::V4 { a: *a, b: *b, c: *c, d: *d },
            BindIp::V6 { text, loopback } => BindIp::V6 {
                text: text.clone(),
                loopback: *loopback,
            },
        };
        BindAddr { ip, port: self.port }
    }
}

impl BindAddr {
    /// Whether only this machine can reach the address.
    pub fn is_loopback(&self) -> (loopback: bool)
        ensures
            loopback == bind_loopback(*self),
    {
        match &self.ip {
            BindIp::V4 { a, b, c, d } => *a == 127,
            BindIp::V6 { text, loopback } => *loopback,
        }
    }

    /// The address as text.
    pub fn to_string(&self) -> (text: String)
        ensures
            text@ == bind_text(*self),
    {
        match &self.ip {
            BindIp::V4 { a, b, c, d } => {
                let mut text = decimal_text(*a as u64);
                text.append(".");
                text.append(decimal_text(*b as u64).as_str());
                text.append(".");
                text.append(decimal_text(*c as u64).as_str());
                text.append(".");
                text.append(decimal_text(*d as u64).as_str());
                text.append(":");
                text.append(decimal_text(self.port as u64).as_str());
                text
            },
            BindIp::V6 { text: host, loopback } => {
                let mut text = "[".to_owned();
                text.append(host.as_str());
                text.append("]:");
                text.append(decimal_text(self.port as u64).as_str());
                text
            },
        }
    }

    /// Whether two addresses are the same.
    pub fn same(&self, other: &BindAddr) -> (same: bool)
        ensures
            same == same_bind(*self, *other),
    {
        same_text(self.to_string().as_str(), other.to_string().as_str()) && self.is_loopback()
            == other.is_loopback()
    }
}

/// Retention policy: both limits may apply, and the stricter wins. An
/// absent limit means no limit at this level.
#[derive(Debug, Clone, Copy, PartialEq, Eq, Structural)]
pub struct Retention {
    /// Keep at most this many episodes per show.
    pub keep_last: Option<u32>,
    /// Keep at most this many bytes per show.
    pub max_bytes: Option<u64>,
}

/// `own`, or `fallback` where it is absent.
pub open spec fn or_else_of<T>(own: Option<T>, fallback: Option<T>) -> Option<T> {
    match own {
        Some(_) => own,
        None => fallback,
    }
}

/// `own` with each unset limit taken from `fallback`.
pub open spec fn layered(own: Retention, fallback: Retention) -> Retention {
    Retention {
        keep_last: or_else_of(own.keep_last, fallback.keep_last),
        max_bytes: or_else_of(own.max_bytes, fallback.max_bytes),
    }
}

impl Retention {
    /// The policy without limits.
    pub fn unlimited() -> (policy: Retention)
        ensures
            policy == (Retention { keep_last: None, max_bytes: None }),
    {
        Retention { keep_last: None, max_bytes: None }
    }

    /// Keep at most this many episodes per show.
    pub fn keep_last(&self) -> (limit: Option<u32>)
        ensures
            limit == self.keep_last,
    {
        self.keep_last
    }

    /// Keep at most this many bytes per show.
    pub fn max_bytes(&self) -> (limit: Option<u64>)
        ensures
            limit == self.max_bytes,
    {
        self.max_bytes
    }

    /// This policy with any unset limit filled from `fallback`.
    pub fn layered_over(&self, fallback: &Retention) -> (policy: Retention)
        ensures
            policy == layered(*self, *fallback),
    {
        let keep_last = match self.keep_last {
            Some(n) => Some(n),
            None => fallback.keep_last,
        };
        let max_bytes = match self.max_bytes {
            Some(n) => Some(n),
            None => fallback.max_bytes,
        };
        Retention { keep_last, max_bytes }
    }
}

/// Layering is associative, a policy layered over itself is itself, and
/// the unlimited policy adds and hides nothing.
pub proof fn law_layering(a: Retention, b: Retention, c: Retention)
    ensures
        layered(layered(a, b), c) == layered(a, layered(b, c)),
        layered(a, a) == a,
        layered(a, Retention { keep_last: None, max_bytes: None }) == a,
        layered(Retention { keep_last: None, max_bytes: None }, a) == a,
{
}

/// Why a text is not a URL the library can hold; `None` when it is one.
pub open spec fn url_fault(text: Seq<char>) -> Option<Seq<char>> {
    match url_parsed(text) {
        Ok(url) => if url.len() > MAX_URL_BYTES {
            Some(URL_TOO_LONG@)
        } else {
            None
        },
        Err(reason) => Some(reason),
    }
}

/// A show artwork override: a URL for `http(s)://` values, a local file
/// path otherwise.
#[derive(Debug)]
pub enum ArtworkOverride {
    /// Fetch (and cache) from this URL.
    Url(WebUrl),
    /// Serve this local file.
    Path(String),
}

/// Whether an artwork override names a URL.
pub open spec fn is_web_artwork(text: Seq<char>) -> bool {
    "http://"@.is_prefix_of(text) || "https://"@.is_prefix_of(text)
}

/// Why a text is not an artwork override; `None` when it is one.
pub open spec fn artwork_fault(text: Seq<char>) -> Option<Seq<char>> {
    if is_web_artwork(text) {
        url_fault(text)
    } else {
        None
    }
}

/// Whether `artwork` is what the override `text` says.
pub open spec fn artwork_reads(artwork: ArtworkOverride, text: Seq<char>) -> bool {
    match artwork {
        ArtworkOverride::Url(url) => is_web_artwork(text) && url_parsed(text) == Ok::<
            Seq<char>,
            Seq<char>,
        >(url@),
        ArtworkOverride::Path(path) => !is_web_artwork(text) && path@ == text,
    }
}

impl ArtworkOverride {
    /// Read an override.
    pub fn parse(text: &str) -> (artwork: Result<ArtworkOverride, String>)
        ensures
            match artwork {
                Ok(artwork) => artwork_fault(text@) is None && artwork_reads(artwork, text@),
                Err(reason) => artwork_fault(text@) == Some(reason@),
            },
    {
        if begins_with(text, "http://") || begins_with(text, "https://") {
            match WebUrl::parse(text) {
                Ok(url) => Ok(ArtworkOverride::Url(url)),
                Err(reason) => Err(reason),
            }
        } else {
            Ok(ArtworkOverride::Path(text.to_owned()))
        }
    }
}

/// One show as the file describes it.
#[derive(Debug)]
pub struct RawShow {
    /// Provider name, if given.
    pub provider: Option<String>,
    /// The slug's text.
    pub slug: String,
    /// Feed title override, if given.
    pub title: Option<String>,
    /// Poll interval override, if given.
    pub poll_interval: Option<Interval>,
    /// Listing bound override, if given.
    pub fetch_last: Option<u32>,
    /// Artwork override's text, if given.
    pub artwork: Option<String>,
    /// Retention override, if given.
    pub retention: Option<Retention>,
}

/// Where and how often metrics are pushed.
#[derive(Debug)]
pub struct Otlp {
    /// The collector's endpoint.
    pub endpoint: WebUrl,
    /// Headers sent along.
    pub headers: Vec<(String, String)>,
    /// How often.
    pub interval: Interval,
}

/// The OTLP section as the file describes it.
#[derive(Debug)]
pub struct RawOtlp {
    /// The endpoint's text.
    pub endpoint: String,
    /// Headers sent along.
    pub headers: Vec<(String, String)>,
    /// How often, if given.
    pub interval: Option<Interval>,
}

/// What the config file says, in plain values.
pub struct RawConfig {
    /// Bind address, if given.
    pub bind: Option<BindAddr>,
    /// External base URL's text, if given.
    pub external_base_url: Option<String>,
    /// Data directory, if given.
    pub data_dir: Option<String>,
    /// Poll interval, if given.
    pub poll_interval: Option<Interval>,
    /// Download concurrency, if given.
    pub download_concurrency: Option<usize>,
    /// Listing bound, if given.
    pub fetch_last: Option<u32>,
    /// Retention limits.
    pub retention: Retention,
    /// Listen key, if given.
    pub listen_key: Option<ListenKey>,
    /// Member API key, if given.
    pub api_key: Option<ApiKey>,
    /// API base URL's text, if given.
    pub base_url: Option<String>,
    /// Control socket path, if given.
    pub control_socket: Option<String>,
    /// OTLP section, if given.
    pub otlp: Option<RawOtlp>,
    /// The shows.
    pub shows: Vec<RawShow>,
}

/// One configured show.
#[derive(Debug)]
pub struct ShowConfig {
    /// Registry name of the provider serving this show.
    pub provider: String,
    /// The show's slug.
    pub slug: ShowSlug,
    /// Feed title override, if any.
    pub title: Option<String>,
    /// Poll interval override, if any.
    pub poll_interval: Option<Interval>,
    /// Listing bound override, if any.
    pub fetch_last: Option<u32>,
    /// Artwork override, if any.
    pub artwork: Option<ArtworkOverride>,
    /// Retention override, if any.
    pub retention: Option<Retention>,
}

impl ShowConfig {
    /// Registry name of the provider serving this show.
    pub fn provider(&self) -> (provider: &str)
        ensures
            provider@ == self.provider@,
    {
        self.provider.as_str()
    }

    /// The show's slug.
    pub fn slug(&self) -> (slug: &ShowSlug)
        ensures
            *slug == self.slug,
    {
        &self.slug
    }

    /// Feed title override, if any.
    pub fn title(&self) -> (title: Option<&str>)
        ensures
            match title {
                Some(title) => opt_text(self.title) == Some(title@),
                None => self.title is None,
            },
    {
        match &self.title {
            Some(title) => Some(title.as_str()),
            None => None,
        }
    }

    /// Effective poll interval given the global default.
    pub fn poll_interval(&self, global_default: Interval) -> (interval: Interval)
        ensures
            interval == match self.poll_interval {
                Some(own) => own,
                None => global_default,
            },
    {
        match self.poll_interval {
            Some(own) => own,
            None => global_default,
        }
    }

    /// Effective listing bound given the global one.
    pub fn fetch_last(&self, global: Option<u32>) -> (bound: Option<u32>)
        ensures
            bound == or_else_of(self.fetch_last, global),
    {
        match self.fetch_last {
            Some(own) => Some(own),
            None => global,
        }
    }

    /// Artwork override, if any.
    pub fn artwork(&self) -> (artwork: Option<&ArtworkOverride>)
        ensures
            match artwork {
                Some(artwork) => self.artwork == Some(*artwork),
                None => self.artwork is None,
            },
    {
        match &self.artwork {
            Some(artwork) => Some(artwork),
            None => None,
        }
    }

    /// Effective retention given the global policy.
    pub fn retention(&self, global: &Retention) -> (policy: Retention)
        ensures
            policy == match self.retention {
                Some(own) => layered(own, *global),
                None => *global,
            },
    {
        match &self.retention {
            Some(own) => own.layered_over(global),
            None => *global,
        }
    }
}

/// The daemon's configuration. Build it with [`Config::load`].
pub struct Config {
    /// Address the HTTP server binds to.
    pub bind: BindAddr,
    /// Base URL used in generated URLs.
    pub external_base_url: Option<WebUrl>,
    /// Directory holding state, audio, artwork, and quarantine.
    pub data_dir: String,
    /// Default poll interval.
    pub poll_interval: Interval,
    /// How many downloads may run at once.
    pub download_concurrency: usize,
    /// Default listing bound.
    pub fetch_last: Option<u32>,
    /// Global retention policy.
    pub retention: Retention,
    /// Premium listen key, if configured.
    pub listen_key: Option<ListenKey>,
    /// Member API key, if configured.
    pub api_key: Option<ApiKey>,
    /// API base URL override, if any.
    pub base_url: Option<WebUrl>,
    /// Control socket path override, if any.
    pub control_socket: Option<String>,
    /// OTLP export, if configured.
    pub otlp: Option<Otlp>,
    /// The configured shows.
    pub shows: Vec<ShowConfig>,
}

/// What is wrong with a slug's text, when anything is.
pub open spec fn slug_fault(text: Seq<char>) -> Option<Seq<char>> {
    if is_slug(text) {
        None
    } else {
        Some(
            invalid_id_text(
                "show slug"@,
                if text.len() == 0 {
                    "must not be empty"@
                } else {
                    "only ASCII letters, digits, `-`, `_`, and `.` are allowed"@
                },
            ),
        )
    }
}

/// The first fault of one show entry: its slug, then its artwork.
pub open spec fn raw_show_fault(raw: RawShow) -> Option<Seq<char>> {
    match slug_fault(raw.slug@) {
        Some(fault) => Some(fault),
        None => match raw.artwork {
            Some(artwork) => artwork_fault(artwork@),
            None => None,
        },
    }
}

/// The first fault among the show entries.
pub open spec fn raw_shows_fault(raw: Seq<RawShow>) -> Option<Seq<char>>
    decreases raw.len(),
{
    if raw.len() == 0 {
        None
    } else {
        match raw_shows_fault(raw.drop_last()) {
            Some(fault) => Some(fault),
            None => raw_show_fault(raw.last()),
        }
    }
}

/// The bind address used when none is given.
pub open spec fn is_default_bind(bind: BindAddr) -> bool {
    bind.port == 8380 && bind.ip == (BindIp::V4 { a: 127, b: 0, c: 0, d: 1 })
}

/// The text of the base URL that goes with a bind address.
pub open spec fn default_base(bind: BindAddr) -> Seq<char> {
    "http://"@ + bind_text(bind)
}

/// The external base URL: the configured one, or `http://` and the bind
/// address. `None` where none is configured and that is no URL.
pub open spec fn base_text(config: Config) -> Option<Seq<char>> {
    match config.external_base_url {
        Some(url) => Some(url@),
        None => crate::v1::url_at(default_base(config.bind)),
    }
}

/// The first fault of what the file says, in the order of its settings.
pub open spec fn raw_fault(raw: RawConfig) -> Option<Seq<char>> {
    match raw.external_base_url {
        Some(external) if url_fault(external@) is Some => url_fault(external@),
        _ => if raw.download_concurrency == Some(0usize) {
            Some("download_concurrency must not be zero"@)
        } else {
            match raw.base_url {
                Some(base) if url_fault(base@) is Some => url_fault(base@),
                _ => match raw.otlp {
                    Some(otlp) if url_fault(otlp.endpoint@) is Some => url_fault(otlp.endpoint@),
                    _ => raw_shows_fault(raw.shows@),
                },
            }
        },
    }
}

/// Whether `show` is what the entry `raw` says, defaults filled in.
pub open spec fn show_reads(show: ShowConfig, raw: RawShow) -> bool {
    &&& show.provider@ == match raw.provider {
        Some(name) => name@,
        None => "difm"@,
    }
    &&& show.slug@ == raw.slug@
    &&& opt_text(show.title) == opt_text(raw.title)
    &&& show.poll_interval == raw.poll_interval
    &&& show.fetch_last == raw.fetch_last
    &&& match (show.artwork, raw.artwork) {
        (Some(artwork), Some(text)) => artwork_reads(artwork, text@),
        (None, None) => true,
        _ => false,
    }
    &&& show.retention == raw.retention
}

/// The text of an optional listen key.
pub open spec fn opt_listen_key(key: Option<ListenKey>) -> Option<Seq<char>> {
    match key {
        Some(key) => Some(key@),
        None => None,
    }
}

/// The text of an optional API key.
pub open spec fn opt_api_key(key: Option<ApiKey>) -> Option<Seq<char>> {
    match key {
        Some(key) => Some(key@),
        None => None,
    }
}

/// Whether an optional URL is what an optional text parses to.
pub open spec fn opt_url_reads(url: Option<WebUrl>, text: Option<String>) -> bool {
    match (url, text) {
        (Some(url), Some(text)) => url_parsed(text@) == Ok::<Seq<char>, Seq<char>>(url@),
        (None, None) => true,
        _ => false,
    }
}

/// Whether an OTLP section is what the file says, defaults filled in.
pub open spec fn otlp_reads(otlp: Option<Otlp>, raw: Option<RawOtlp>) -> bool {
    match (otlp, raw) {
        (Some(otlp), Some(raw)) => {
            &&& url_parsed(raw.endpoint@) == Ok::<Seq<char>, Seq<char>>(otlp.endpoint@)
            &&& otlp.headers == raw.headers
            &&& otlp.interval == match raw.interval {
                Some(interval) => interval,
                None => Interval { secs: 60, nanos: 0 },
            }
        },
        (None, None) => true,
        _ => false,
    }
}

/// Whether `config` is the file's settings under the environment's keys,
/// with every default filled in.
pub open spec fn config_reads(
    config: Config,
    raw: RawConfig,
    env_listen_key: Option<Seq<char>>,
    env_api_key: Option<Seq<char>>,
    default_data_dir: Seq<char>,
) -> bool {
    &&& match raw.bind {
        Some(bind) => config.bind == bind,
        None => is_default_bind(config.bind),
    }
    &&& opt_url_reads(config.external_base_url, raw.external_base_url)
    &&& config.data_dir@ == match raw.data_dir {
        Some(dir) => dir@,
        None => default_data_dir,
    }
    &&& config.poll_interval == match raw.poll_interval {
        Some(interval) => interval,
        None => Interval { secs: 1800, nanos: 0 },
    }
    &&& config.download_concurrency == match raw.download_concurrency {
        Some(n) => n,
        None => 2usize,
    }
    &&& config.fetch_last == raw.fetch_last
    &&& config.retention == raw.retention
    &&& opt_listen_key(config.listen_key) == or_else_of(
        env_listen_key,
        opt_listen_key(raw.listen_key),
    )
    &&& opt_api_key(config.api_key) == or_else_of(env_api_key, opt_api_key(raw.api_key))
    &&& opt_url_reads(config.base_url, raw.base_url)
    &&& opt_text(config.control_socket) == opt_text(raw.control_socket)
    &&& otlp_reads(config.otlp, raw.otlp)
    &&& config.shows@.len() == raw.shows@.len()
    &&& forall|i: int|
        0 <= i < raw.shows@.len() ==> show_reads(#[trigger] config.shows@[i], raw.shows@[i])
}

/// Whether the file or the environment supplies a DI.FM credential.
pub open spec fn has_key(
    raw: RawConfig,
    env_listen_key: Option<String>,
    env_api_key: Option<String>,
) -> bool {
    ||| raw.listen_key is Some
    ||| raw.api_key is Some
    ||| env_listen_key is Some
    ||| env_api_key is Some
}

/// Whether an earlier show has the slug of show `i`.
pub open spec fn duplicate_at(shows: Seq<ShowConfig>, i: int) -> bool {
    exists|j: int| 0 <= j < i && #[trigger] shows[j].slug@ == shows[i].slug@
}

/// Whether show `i` needs a credential that is absent.
pub open spec fn keyless_at(shows: Seq<ShowConfig>, keyed: bool, i: int) -> bool {
    shows[i].provider@ == "difm"@ && !keyed
}

/// Whether show `i` is the first that validation objects to.
pub open spec fn first_objection(shows: Seq<ShowConfig>, keyed: bool, i: int) -> bool {
    &&& 0 <= i < shows.len()
    &&& duplicate_at(shows, i) || keyless_at(shows, keyed, i)
    &&& forall|j: int|
        0 <= j < i ==> !(#[trigger] duplicate_at(shows, j)) && !keyless_at(shows, keyed, j)
}

/// Whether validation objects to no show.
pub open spec fn shows_valid(shows: Seq<ShowConfig>, keyed: bool) -> bool {
    forall|i: int|
        0 <= i < shows.len() ==> !(#[trigger] duplicate_at(shows, i)) && !keyless_at(
            shows,
            keyed,
            i,
        )
}

/// In a valid configuration each slug names one show.
pub proof fn law_valid_slugs_are_unique(shows: Seq<ShowConfig>, keyed: bool, i: int, j: int)
    requires
        shows_valid(shows, keyed),
        0 <= i < shows.len(),
        0 <= j < shows.len(),
        shows[i].slug@ == shows[j].slug@,
    ensures
        i == j,
{
    if i < j {
        assert(duplicate_at(shows, j));
    } else if j < i {
        assert(duplicate_at(shows, i));
    }
}

/// The settings read from one show entry.
fn read_show(raw: &RawShow) -> (show: Result<ShowConfig, String>)
    ensures
        match show {
            Ok(show) => raw_show_fault(*raw) is None && show_reads(show, *raw),
            Err(reason) => raw_show_fault(*raw) == Some(reason@),
        },
{
    let slug = match ShowSlug::parse(raw.slug.as_str()) {
        Ok(slug) => slug,
        Err(error) => {
            return Err(error.to_string());
        },
    };
    let artwork = match &raw.artwork {
        Some(text) => match ArtworkOverride::parse(text.as_str()) {
            Ok(artwork) => Some(artwork),
            Err(reason) => {
                return Err(reason);
            },
        },
        None => None,
    };
    let provider = match &raw.provider {
        Some(name) => name.clone(),
        None => "difm".to_owned(),
    };
    Ok(
        ShowConfig {
            provider,
            slug,
            title: copy_opt(&raw.title),
            poll_interval: raw.poll_interval,
            fetch_last: raw.fetch_last,
            artwork,
            retention: raw.retention,
        },
    )
}

/// A fault of an entry is not masked by later ones.
proof fn lemma_shows_fault_take(raw: Seq<RawShow>, n: int)
    requires
        0 <= n <= raw.len(),
        raw_shows_fault(raw.take(n)) is Some,
    ensures
        raw_shows_fault(raw) == raw_shows_fault(raw.take(n)),
    decreases raw.len(),
{
    if n < raw.len() {
        assert(raw.drop_last().take(n) =~= raw.take(n));
        lemma_shows_fault_take(raw.drop_last(), n);
    } else {
        assert(raw.take(n) =~= raw);
    }
}

/// The settings read from all show entries.
fn read_shows(raw: &Vec<RawShow>) -> (shows: Result<Vec<ShowConfig>, String>)
    ensures
        match shows {
            Ok(shows) => {
                &&& raw_shows_fault(raw@) is None
                &&& shows@.len() == raw@.len()
                &&& forall|i: int|
                    0 <= i < raw@.len() ==> show_reads(#[trigger] shows@[i], raw@[i])
            },
            Err(reason) => raw_shows_fault(raw@) == Some(reason@),
        },
{
    let mut shows: Vec<ShowConfig> = Vec::new();
    let mut i: usize = 0;
    assert(raw@.take(0) =~= Seq::empty());
    while i < raw.len()
        invariant
            i <= raw@.len(),
            shows@.len() == i,
            raw_shows_fault(raw@.take(i as int)) is None,
            forall|k: int| 0 <= k < i ==> show_reads(#[trigger] shows@[k], raw@[k]),
        decreases raw@.len() - i,
    {
        proof {
            assert(raw@.take(i + 1).drop_last() =~= raw@.take(i as int));
            assert(raw@.take(i + 1).last() == raw@[i as int]);
        }
        match read_show(&raw[i]) {
            Ok(show) => {
                shows.push(show);
            },
            Err(reason) => {
                proof {
                    lemma_shows_fault_take(raw@, i + 1);
                }
                return Err(reason);
            },
        }
        i += 1;
    }
    assert(raw@.take(raw@.len() as int) =~= raw@);
    Ok(shows)
}

/// The URL an optional text stands for.
fn read_opt_url(text: Option<String>) -> (url: Result<Option<WebUrl>, String>)
    ensures
        match url {
            Ok(url) => opt_url_reads(url, text) && (text matches Some(t) ==> url_fault(t@) is None),
            Err(reason) => text matches Some(t) && url_fault(t@) == Some(reason@),
        },
{
    match text {
        Some(text) => match WebUrl::parse(text.as_str()) {
            Ok(url) => Ok(Some(url)),
            Err(reason) => Err(reason),
        },
        None => Ok(None),
    }
}

/// The config file to read: the explicit path, else the one the
/// environment names, else the platform's default.
pub fn config_path(
    explicit: Option<String>,
    from_env: Option<String>,
    platform: Result<String, String>,
) -> (path: Result<String, ConfigError>)
    ensures
        match (explicit, from_env, platform) {
            (Some(p), _, _) => path == Ok::<String, ConfigError>(p),
            (None, Some(p), _) => path == Ok::<String, ConfigError>(p),
            (None, None, Ok(p)) => path == Ok::<String, ConfigError>(p),
            (None, None, Err(reason)) => path == Err::<String, ConfigError>(
                ConfigError::Dirs(reason),
            ),
        },
{
    match explicit {
        Some(path) => Ok(path),
        None => match from_env {
            Some(path) => Ok(path),
            None => match platform {
                Ok(path) => Ok(path),
                Err(reason) => Err(ConfigError::Dirs(reason)),
            },
        },
    }
}

impl Config {
    /// Layer, fill, and validate a configuration.
    ///
    /// `env_listen_key` and `env_api_key` come from the environment and
    /// override the file's; `platform_data_dir` is used when the file names
    /// no data directory.
    pub fn load(
        raw: RawConfig,
        env_listen_key: Option<String>,
        env_api_key: Option<String>,
        platform_data_dir: Result<String, String>,
    ) -> (config: Result<Config, ConfigError>)
        ensures
            match config {
                Ok(config) => {
                    &&& raw_fault(raw) is None
                    &&& raw.data_dir is None ==> platform_data_dir is Ok
                    &&& config_reads(
                        config,
                        raw,
                        opt_text(env_listen_key),
                        opt_text(env_api_key),
                        match platform_data_dir {
                            Ok(dir) => dir@,
                            Err(_) => Seq::empty(),
                        },
                    )
                    &&& shows_valid(config.shows@, config.has_difm_key())
                },
                Err(ConfigError::Load(reason)) => raw_fault(raw) == Some(reason@),
                Err(ConfigError::Dirs(reason)) => raw_fault(raw) is None && raw.data_dir is None
                    && platform_data_dir == Err::<String, String>(reason),
                Err(ConfigError::DuplicateShow(slug)) => {
                    &&& raw_fault(raw) is None
                    &&& raw.data_dir is Some || platform_data_dir is Ok
                    &&& exists|i: int|
                        #[trigger] raw_first_objection(
                            raw.shows@,
                            has_key(raw, env_listen_key, env_api_key),
                            i,
                        ) && raw_duplicate_at(raw.shows@, i) && slug@ == raw.shows@[i].slug@
                },
                Err(ConfigError::MissingListenKey { show, provider }) => {
                    &&& raw_fault(raw) is None
                    &&& raw.data_dir is Some || platform_data_dir is Ok
                    &&& exists|i: int|
                        #[trigger] raw_first_objection(
                            raw.shows@,
                            has_key(raw, env_listen_key, env_api_key),
                            i,
                        ) && !raw_duplicate_at(raw.shows@, i) && show@ == raw.shows@[i].slug@
                            && provider@ == raw_provider(raw.shows@[i])
                },
                Err(ConfigError::NotFound(_)) => false,
            },
    {
        let bind = match raw.bind {
            Some(bind) => bind,
            None => BindAddr { ip: BindIp::V4 { a: 127, b: 0, c: 0, d: 1 }, port: 8380 },
        };
        let external_base_url = match read_opt_url(raw.external_base_url) {
            Ok(url) => url,
            Err(reason) => {
                return Err(ConfigError::Load(reason));
            },
        };
        let download_concurrency: usize = match raw.download_concurrency {
            Some(n) => n,
            None => 2,
        };
        if download_concurrency == 0 {
            return Err(ConfigError::Load("download_concurrency must not be zero".to_owned()));
        }
        let base_url = match read_opt_url(raw.base_url) {
            Ok(url) => url,
            Err(reason) => {
                return Err(ConfigError::Load(reason));
            },
        };
        let otlp = match raw.otlp {
            Some(section) => {
                let endpoint = match WebUrl::parse(section.endpoint.as_str()) {
                    Ok(url) => url,
                    Err(reason) => {
                        return Err(ConfigError::Load(reason));
                    },
                };
                let interval = match section.interval {
                    Some(interval) => interval,
                    None => Interval::from_secs(60),
                };
                Some(Otlp { endpoint, headers: section.headers, interval })
            },
            None => None,
        };
        let shows = match read_shows(&raw.shows) {
            Ok(shows) => shows,
            Err(reason) => {
                return Err(ConfigError::Load(reason));
            },
        };
        let listen_key = match env_listen_key {
            Some(key) => Some(ListenKey::new(key)),
            None => raw.listen_key,
        };
        let api_key = match env_api_key {
            Some(key) => Some(ApiKey::new(key)),
            None => raw.api_key,
        };
        let data_dir = match raw.data_dir {
            Some(dir) => dir,
            None => match platform_data_dir {
                Ok(dir) => dir,
                Err(reason) => {
                    return Err(ConfigError::Dirs(reason));
                },
            },
        };
        let poll_interval = match raw.poll_interval {
            Some(interval) => interval,
            None => Interval::from_secs(1800),
        };
        let config = Config {
            bind,
            external_base_url,
            data_dir,
            poll_interval,
            download_concurrency,
            fetch_last: raw.fetch_last,
            retention: raw.retention,
            listen_key,
            api_key,
            base_url,
            control_socket: raw.control_socket,
            otlp,
            shows,
        };
        match config.validate() {
            Ok(()) => Ok(config),
            Err(error) => {
                proof {
                    let keyed = config.has_difm_key();
                    assert(keyed == has_key(raw, env_listen_key, env_api_key));
                    match &error {
                        ConfigError::DuplicateShow(slug) => {
                            let i = choose|i: int|
                                #[trigger] first_objection(config.shows@, keyed, i)
                                    && duplicate_at(config.shows@, i) && *slug
                                    == config.shows@[i].slug;
                            lemma_objections_agree(config.shows@, raw.shows@, keyed, i);
                            assert(show_reads(config.shows@[i], raw.shows@[i]));
                        },
                        ConfigError::MissingListenKey { show, provider } => {
                            let i = choose|i: int|
                                #[trigger] first_objection(config.shows@, keyed, i)
                                    && !duplicate_at(config.shows@, i) && *show
                                    == config.shows@[i].slug && *provider
                                    == config.shows@[i].provider;
                            lemma_objections_agree(config.shows@, raw.shows@, keyed, i);
                            assert(show_reads(config.shows@[i], raw.shows@[i]));
                        },
                        _ => {},
                    }
                }
                Err(error)
            },
        }
    }

    /// Whether some DI.FM credential is configured.
    pub open spec fn has_difm_key(&self) -> bool {
        self.listen_key is Some || self.api_key is Some
    }

    /// Check that slugs are unique and that shows whose provider needs
    /// credentials have some. The first show that fails decides.
    pub fn validate(&self) -> (result: Result<(), ConfigError>)
        ensures
            match result {
                Ok(()) => shows_valid(self.shows@, self.has_difm_key()),
                Err(ConfigError::DuplicateShow(slug)) => exists|i: int|
                    #[trigger] first_objection(self.shows@, self.has_difm_key(), i) && duplicate_at(
                        self.shows@,
                        i,
                    ) && slug == self.shows@[i].slug,
                Err(ConfigError::MissingListenKey { show, provider }) => exists|i: int|
                    #[trigger] first_objection(self.shows@, self.has_difm_key(), i) && !duplicate_at(
                        self.shows@,
                        i,
                    ) && show == self.shows@[i].slug && provider == self.shows@[i].provider,
                Err(_) => false,
            },
    {
        let keyed = self.listen_key.is_some() || self.api_key.is_some();
        let mut i: usize = 0;
        while i < self.shows.len()
            invariant
                i <= self.shows@.len(),
                keyed == self.has_difm_key(),
                forall|j: int|
                    0 <= j < i ==> !(#[trigger] duplicate_at(self.shows@, j)) && !keyless_at(
                        self.shows@,
                        keyed,
                        j,
                    ),
            decreases self.shows@.len() - i,
        {
            let show = &self.shows[i];
            let mut k: usize = 0;
            while k < i
                invariant
                    k <= i < self.shows@.len(),
                    *show == self.shows@[i as int],
                    keyed == self.has_difm_key(),
                    forall|j: int|
                        0 <= j < i ==> !(#[trigger] duplicate_at(self.shows@, j)) && !keyless_at(
                            self.shows@,
                            keyed,
                            j,
                        ),
                    forall|j: int|
                        0 <= j < k ==> #[trigger] self.shows@[j].slug@ != self.shows@[i as int].slug@,
                decreases i - k,
            {
                if self.shows[k].slug.same(&show.slug) {
                    assert(duplicate_at(self.shows@, i as int));
                    assert(first_objection(self.shows@, self.has_difm_key(), i as int));
                    return Err(ConfigError::DuplicateShow(show.slug.clone()));
                }
                k += 1;
            }
            assert(!duplicate_at(self.shows@, i as int));
            if same_text(show.provider.as_str(), "difm") && !keyed {
                assert(first_objection(self.shows@, self.has_difm_key(), i as int));
                return Err(
                    ConfigError::MissingListenKey {
                        show: show.slug.clone(),
                        provider: show.provider.clone(),
                    },
                );
            }
            assert forall|j: int| 0 <= j < i + 1 implies !(#[trigger] duplicate_at(
                self.shows@,
                j,
            )) && !keyless_at(self.shows@, keyed, j) by {
                if j == i {
                    assert(!duplicate_at(self.shows@, i as int));
                }
            }
            i += 1;
        }
        Ok(())
    }

    /// Address the HTTP server binds to.
    pub fn bind(&self) -> (bind: &BindAddr)
        ensures
            *bind == self.bind,
    {
        &self.bind
    }

    /// Base URL used in generated enclosure and artwork URLs. Falls back to
    /// `http://<bind>` when unset; `None` where that is no URL, as with a
    /// scoped address.
    pub fn external_base_url(&self) -> (url: Option<WebUrl>)
        ensures
            crate::weburl::opt_url(url) == base_text(*self),
    {
        match &self.external_base_url {
            Some(url) => Some(url.clone()),
            None => match WebUrl::parse(self.default_base_url().as_str()) {
                Ok(url) => Some(url),
                Err(_) => None,
            },
        }
    }

    /// The text of the base URL that goes with the bind address.
    pub fn default_base_url(&self) -> (text: String)
        ensures
            text@ == default_base(self.bind),
    {
        let mut text = "http://".to_owned();
        text.append(self.bind.to_string().as_str());
        text
    }

    /// Directory holding state, audio, artwork, and quarantine.
    pub fn data_dir(&self) -> (dir: &str)
        ensures
            dir@ == self.data_dir@,
    {
        self.data_dir.as_str()
    }

    /// Default poll interval for shows without an override.
    pub fn poll_interval(&self) -> (interval: Interval)
        ensures
            interval == self.poll_interval,
    {
        self.poll_interval
    }

    /// How many episode downloads may run at once, across all shows.
    pub fn download_concurrency(&self) -> (n: usize)
        ensures
            n == self.download_concurrency,
    {
        self.download_concurrency
    }

    /// Global retention policy.
    pub fn retention(&self) -> (policy: &Retention)
        ensures
            *policy == self.retention,
    {
        &self.retention
    }

    /// The configured shows.
    pub fn shows(&self) -> (shows: &Vec<ShowConfig>)
        ensures
            *shows == self.shows,
    {
        &self.shows
    }

    /// The premium listen key, if configured.
    pub fn difm_listen_key(&self) -> (key: Option<&ListenKey>)
        ensures
            match key {
                Some(key) => self.listen_key == Some(*key),
                None => self.listen_key is None,
            },
    {
        match &self.listen_key {
            Some(key) => Some(key),
            None => None,
        }
    }

    /// The member API key, if configured.
    pub fn difm_api_key(&self) -> (key: Option<&ApiKey>)
        ensures
            match key {
                Some(key) => self.api_key == Some(*key),
                None => self.api_key is None,
            },
    {
        match &self.api_key {
            Some(key) => Some(key),
            None => None,
        }
    }

    /// Override for the API base URL, for sibling networks or tests.
    pub fn difm_base_url(&self) -> (url: Option<&WebUrl>)
        ensures
            match url {
                Some(url) => self.base_url == Some(*url),
                None => self.base_url is None,
            },
    {
        match &self.base_url {
            Some(url) => Some(url),
            None => None,
        }
    }

    /// The control socket: the configured path, else `splicefeed.sock` in
    /// the runtime directory, else in the data directory.
    pub fn control_socket_path(&self, runtime_dir: Option<String>) -> (path: String)
        ensures
            path@ == match self.control_socket {
                Some(path) => path@,
                None => crate::paths::joined_path(
                    match runtime_dir {
                        Some(dir) => dir@,
                        None => self.data_dir@,
                    },
                    "splicefeed.sock"@,
                ),
            },
    {
        match &self.control_socket {
            Some(path) => path.clone(),
            None => match runtime_dir {
                Some(dir) => crate::paths::join_path(dir.as_str(), "splicefeed.sock"),
                None => crate::paths::join_path(self.data_dir.as_str(), "splicefeed.sock"),
            },
        }
    }
}

/// The provider an entry names, or the default one.
pub open spec fn raw_provider(raw: RawShow) -> Seq<char> {
    match raw.provider {
        Some(name) => name@,
        None => "difm"@,
    }
}

/// Whether an earlier entry has the slug of entry `i`.
pub open spec fn raw_duplicate_at(raw: Seq<RawShow>, i: int) -> bool {
    exists|j: int| 0 <= j < i && #[trigger] raw[j].slug@ == raw[i].slug@
}

/// Whether entry `i` is the first that is a duplicate or lacks a
/// credential.
pub open spec fn raw_first_objection(raw: Seq<RawShow>, keyed: bool, i: int) -> bool {
    &&& 0 <= i < raw.len()
    &&& raw_duplicate_at(raw, i) || (raw_provider(raw[i]) == "difm"@ && !keyed)
    &&& forall|j: int|
        0 <= j < i ==> !(#[trigger] raw_duplicate_at(raw, j)) && !(raw_provider(raw[j])
            == "difm"@ && !keyed)
}

/// Validation objects to the same entry whether one looks at the entries
/// or at the shows read from them.
proof fn lemma_objections_agree(
    shows: Seq<ShowConfig>,
    raw: Seq<RawShow>,
    keyed: bool,
    i: int,
)
    requires
        shows.len() == raw.len(),
        forall|k: int| 0 <= k < raw.len() ==> show_reads(#[trigger] shows[k], raw[k]),
        first_objection(shows, keyed, i),
    ensures
        raw_first_objection(raw, keyed, i),
        duplicate_at(shows, i) == raw_duplicate_at(raw, i),
{
    assert forall|k: int| 0 <= k < raw.len() implies #[trigger] duplicate_at(shows, k)
        == raw_duplicate_at(raw, k) by {
        assert(show_reads(shows[k], raw[k]));
        if duplicate_at(shows, k) {
            let j = choose|j: int| 0 <= j < k && #[trigger] shows[j].slug@ == shows[k].slug@;
            assert(show_reads(shows[j], raw[j]));
            assert(raw[j].slug@ == raw[k].slug@);
        }
        if raw_duplicate_at(raw, k) {
            let j = choose|j: int| 0 <= j < k && #[trigger] raw[j].slug@ == raw[k].slug@;
            assert(show_reads(shows[j], raw[j]));
            assert(shows[j].slug@ == shows[k].slug@);
        }
    }
    assert forall|j: int| 0 <= j < i implies !(#[trigger] raw_duplicate_at(raw, j)) && !(
    raw_provider(raw[j]) == "difm"@ && !keyed) by {
        assert(show_reads(shows[j], raw[j]));
        assert(!duplicate_at(shows, j));
    }
    assert(show_reads(shows[i], raw[i]));
}

/// Each limit of a show is its own where it has one, and the global one
/// otherwise, one limit apart from the other.
pub proof fn law_own_limits_come_first(own: Retention, fallback: Retention)
    ensures
        own.keep_last is Some ==> layered(own, fallback).keep_last == own.keep_last,
        own.keep_last is None ==> layered(own, fallback).keep_last == fallback.keep_last,
        own.max_bytes is Some ==> layered(own, fallback).max_bytes == own.max_bytes,
        own.max_bytes is None ==> layered(own, fallback).max_bytes == fallback.max_bytes,
{
}

/// The first of two values counts, and the second only without it.
pub proof fn law_the_first_value_counts<T>(value: T, other: Option<T>)
    ensures
        or_else_of(Some(value), other) == Some(value),
        or_else_of(None, other) == other,
{
}

/// A configuration says what the file says; what the file leaves out has its
/// default: the loopback address, the platform's data directory, half an
/// hour between polls, two downloads at once. Keys in the environment come
/// before keys in the file.
pub proof fn law_settings_and_their_defaults(
    config: Config,
    raw: RawConfig,
    env_listen_key: Option<Seq<char>>,
    env_api_key: Option<Seq<char>>,
    default_data_dir: Seq<char>,
)
    requires
        config_reads(config, raw, env_listen_key, env_api_key, default_data_dir),
    ensures
        raw.bind matches Some(bind) ==> config.bind == bind,
        raw.bind is None ==> config.bind.port == 8380 && config.bind.ip == (BindIp::V4 {
            a: 127,
            b: 0,
            c: 0,
            d: 1,
        }),
        raw.data_dir matches Some(dir) ==> config.data_dir@ == dir@,
        raw.data_dir is None ==> config.data_dir@ == default_data_dir,
        raw.poll_interval matches Some(interval) ==> config.poll_interval == interval,
        raw.poll_interval is None ==> config.poll_interval == (Interval { secs: 1800, nanos: 0 }),
        raw.download_concurrency matches Some(n) ==> config.download_concurrency == n,
        raw.download_concurrency is None ==> config.download_concurrency == 2,
        config.fetch_last == raw.fetch_last,
        config.retention == raw.retention,
        env_listen_key matches Some(key) ==> (config.listen_key matches Some(own) && own@ == key),
        env_listen_key is None ==> match raw.listen_key {
            Some(key) => config.listen_key matches Some(own) && own@ == key@,
            None => config.listen_key is None,
        },
        env_api_key matches Some(key) ==> (config.api_key matches Some(own) && own@ == key),
        env_api_key is None ==> match raw.api_key {
            Some(key) => config.api_key matches Some(own) && own@ == key@,
            None => config.api_key is None,
        },
        match raw.external_base_url {
            Some(text) => config.external_base_url matches Some(url) && url_parsed(text@) == Ok::<
                Seq<char>,
                Seq<char>,
            >(url@),
            None => config.external_base_url is None,
        },
        match raw.base_url {
            Some(text) => config.base_url matches Some(url) && url_parsed(text@) == Ok::<
                Seq<char>,
                Seq<char>,
            >(url@),
            None => config.base_url is None,
        },
        match raw.control_socket {
            Some(path) => config.control_socket matches Some(own) && own@ == path@,
            None => config.control_socket is None,
        },
        match raw.otlp {
            Some(given) => config.otlp matches Some(otlp) && url_parsed(given.endpoint@) == Ok::<
                Seq<char>,
                Seq<char>,
            >(otlp.endpoint@) && otlp.headers == given.headers && (given.interval matches Some(i)
                ==> otlp.interval == i) && (given.interval is None ==> otlp.interval == (Interval {
                secs: 60,
                nanos: 0,
            })),
            None => config.otlp is None,
        },
        config.shows@.len() == raw.shows@.len(),
{
}

/// A configured show says what the file says of it; its provider is DI.FM
/// unless another is named.
pub proof fn law_show_settings(show: ShowConfig, raw: RawShow)
    requires
        show_reads(show, raw),
    ensures
        raw.provider matches Some(name) ==> show.provider@ == name@,
        raw.provider is None ==> show.provider@ == "difm"@,
        show.slug@ == raw.slug@,
        opt_text(show.title) == opt_text(raw.title),
        show.poll_interval == raw.poll_interval,
        show.fetch_last == raw.fetch_last,
        show.retention == raw.retention,
        raw.artwork is None <==> show.artwork is None,
{
}

/// Artwork that begins with a web scheme is fetched from there, and any
/// other text is a file's path.
pub proof fn law_artwork_is_a_url_or_a_path(rest: Seq<char>, text: Seq<char>)
    ensures
        is_web_artwork("http://"@ + rest),
        is_web_artwork("https://"@ + rest),
        text.len() < 4 || text[0] != 'h' || text[1] != 't' || text[2] != 't' || text[3] != 'p'
            ==> !is_web_artwork(text),
        forall|artwork: ArtworkOverride| #[trigger]
            artwork_reads(artwork, text) && !is_web_artwork(text) ==> (
            artwork matches ArtworkOverride::Path(path) && path@ == text),
        forall|artwork: ArtworkOverride| #[trigger]
            artwork_reads(artwork, text) && is_web_artwork(text) ==> (
            artwork matches ArtworkOverride::Url(url) && url_parsed(text) == Ok::<
                Seq<char>,
                Seq<char>,
            >(url@)),
        !is_web_artwork(text) ==> artwork_fault(text) is None,
        is_web_artwork(text) ==> artwork_fault(text) == url_fault(text),
{
    reveal_strlit("http://");
    reveal_strlit("https://");
    let a = "http://"@ + rest;
    let b = "https://"@ + rest;
    assert("http://"@ =~= a.subrange(0, "http://"@.len() as int));
    assert("https://"@ =~= b.subrange(0, "https://"@.len() as int));
    if "http://"@.is_prefix_of(text) {
        let head = text.subrange(0, "http://"@.len() as int);
        assert(head[0] == text[0] && head[1] == text[1] && head[2] == text[2] && head[3]
            == text[3]);
    }
    if "https://"@.is_prefix_of(text) {
        let head = text.subrange(0, "https://"@.len() as int);
        assert(head[0] == text[0] && head[1] == text[1] && head[2] == text[2] && head[3]
            == text[3]);
    }
}

/// A file is without fault exactly if its URLs parse, it asks for at least
/// one download at a time, and each of its shows has a valid slug and
/// artwork that is no broken URL.
pub proof fn law_what_makes_a_file_faulty(raw: RawConfig)
    ensures
        raw_fault(raw) is None <==> {
            &&& raw.external_base_url matches Some(url) ==> url_fault(url@) is None
            &&& raw.download_concurrency != Some(0usize)
            &&& raw.base_url matches Some(url) ==> url_fault(url@) is None
            &&& raw.otlp matches Some(otlp) ==> url_fault(otlp.endpoint@) is None
            &&& forall|i: int|
                0 <= i < raw.shows@.len() ==> is_slug((#[trigger] raw.shows@[i]).slug@) && (
                raw.shows@[i].artwork matches Some(artwork) ==> artwork_fault(artwork@) is None)
        },
{
    lemma_shows_without_fault(raw.shows@);
}

proof fn lemma_shows_without_fault(raw: Seq<RawShow>)
    ensures
        raw_shows_fault(raw) is None <==> forall|i: int|
            0 <= i < raw.len() ==> is_slug((#[trigger] raw[i]).slug@) && (
            raw[i].artwork matches Some(artwork) ==> artwork_fault(artwork@) is None),
    decreases raw.len(),
{
    if raw.len() > 0 {
        let before = raw.drop_last();
        lemma_shows_without_fault(before);
        assert(raw[raw.len() - 1] == raw.last());
        if raw_shows_fault(raw) is None {
            assert forall|i: int| 0 <= i < raw.len() implies is_slug((#[trigger] raw[i]).slug@) && (
            raw[i].artwork matches Some(artwork) ==> artwork_fault(artwork@) is None) by {
                if i < before.len() {
                    assert(before[i] == raw[i]);
                }
            }
        }
        if forall|i: int|
            0 <= i < raw.len() ==> is_slug((#[trigger] raw[i]).slug@) && (
            raw[i].artwork matches Some(artwork) ==> artwork_fault(artwork@) is None) {
            assert forall|i: int| 0 <= i < before.len() implies is_slug(
                (#[trigger] before[i]).slug@,
            ) && (before[i].artwork matches Some(artwork) ==> artwork_fault(
                artwork@,
            ) is None) by {
                assert(before[i] == raw[i]);
            }
        }
    }
}

/// A text is a usable URL exactly if it parses to one that is not too long.
pub proof fn law_usable_urls(text: Seq<char>)
    ensures
        url_fault(text) is None <==> (url_parsed(text) matches Ok(url) && url.len() <= 0xffff_ffff),
        url_parsed(text) matches Err(reason) ==> url_fault(text) == Some(reason),
{
}

/// Feeds are served below the configured base URL, or below the address the
/// server binds to where none is configured.
pub proof fn law_the_base_url(config: Config)
    ensures
        config.external_base_url matches Some(url) ==> base_text(config) == Some(url@),
        config.external_base_url is None ==> match url_parsed("http://"@ + bind_text(config.bind)) {
            Ok(url) => url.len() <= 0xffff_ffff ==> base_text(config) == Some(url),
            Err(_) => base_text(config) is None,
        },
{
}

/// An IPv4 address is written with dots and a colon before the port, an IPv6
/// address in brackets; the addresses that begin with 127 are loopback.
pub proof fn law_bind_addresses(a: u8, b: u8, c: u8, d: u8, text: String, loopback: bool, port: u16)
    ensures
        bind_text(BindAddr { ip: BindIp::V4 { a, b, c, d }, port }) == decimal(a as nat) + seq!['.']
            + decimal(b as nat) + seq!['.'] + decimal(c as nat) + seq!['.'] + decimal(d as nat)
            + seq![':'] + decimal(port as nat),
        bind_loopback(BindAddr { ip: BindIp::V4 { a, b, c, d }, port }) <==> a == 127,
        bind_text(BindAddr { ip: BindIp::V6 { text, loopback }, port }) == seq!['['] + text@ + seq![
            ']',
            ':',
        ] + decimal(port as nat),
        bind_loopback(BindAddr { ip: BindIp::V6 { text, loopback }, port }) == loopback,
{
    reveal_strlit(".");
    reveal_strlit(":");
    reveal_strlit("[");
    reveal_strlit("]:");
    assert("."@ =~= seq!['.']);
    assert(":"@ =~= seq![':']);
    assert("["@ =~= seq!['[']);
    assert("]:"@ =~= seq![']', ':']);
}

/// Shows are valid together exactly if no two have the same slug and, without
/// any key, none is of DI.FM.
pub proof fn law_which_shows_are_valid(shows: Seq<ShowConfig>, keyed: bool)
    ensures
        shows_valid(shows, keyed) <==> {
            &&& forall|i: int, j: int|
                #![trigger shows[i], shows[j]]
                0 <= i < j < shows.len() ==> shows[i].slug@ != shows[j].slug@
            &&& keyed || forall|i: int|
                0 <= i < shows.len() ==> (#[trigger] shows[i]).provider@ != "difm"@
        },
{
    if shows_valid(shows, keyed) {
        assert forall|i: int, j: int|
            #![trigger shows[i], shows[j]]
            0 <= i < j < shows.len() implies shows[i].slug@ != shows[j].slug@ by {
            assert(!duplicate_at(shows, j));
        }
        if !keyed {
            assert forall|i: int| 0 <= i < shows.len() implies (#[trigger] shows[i]).provider@
                != "difm"@ by {
                let repeated = duplicate_at(shows, i);
                assert(!keyless_at(shows, keyed, i));
            }
        }
    }
    if (forall|i: int, j: int|
        #![trigger shows[i], shows[j]]
        0 <= i < j < shows.len() ==> shows[i].slug@ != shows[j].slug@) && (keyed || forall|i: int|
        0 <= i < shows.len() ==> (#[trigger] shows[i]).provider@ != "difm"@) {
        assert forall|i: int| 0 <= i < shows.len() implies !(#[trigger] duplicate_at(shows, i))
            && !keyless_at(shows, keyed, i) by {
            assert(shows[i].slug@ == shows[i].slug@);
        }
    }
}

/// A file's shows are refused for the first that repeats an earlier slug, or
/// is of DI.FM while there is no key; a show without a provider is of DI.FM.
pub proof fn law_the_first_objection_counts(raw: Seq<RawShow>, keyed: bool, i: int)
    requires
        raw_first_objection(raw, keyed, i),
    ensures
        0 <= i < raw.len(),
        (exists|j: int| 0 <= j < i && (#[trigger] raw[j]).slug@ == raw[i].slug@) || (!keyed && (
        raw[i].provider matches Some(name) ==> name@ == "difm"@)),
        forall|j: int, k: int|
            #![trigger raw[j], raw[k]]
            0 <= j < k < i ==> raw[j].slug@ != raw[k].slug@,
        !keyed ==> forall|j: int|
            0 <= j < i ==> ((#[trigger] raw[j]).provider matches Some(name) && name@ != "difm"@),
{
    assert forall|j: int, k: int|
        #![trigger raw[j], raw[k]]
        0 <= j < k < i implies raw[j].slug@ != raw[k].slug@ by {
        assert(!raw_duplicate_at(raw, k));
    }
    if !keyed {
        assert forall|j: int| 0 <= j < i implies ((#[trigger] raw[j]).provider matches Some(name)
            && name@ != "difm"@) by {
            assert(!raw_duplicate_at(raw, j));
        }
    }
    if raw_duplicate_at(raw, i) {
        let j = choose|j: int| 0 <= j < i && #[trigger] raw[j].slug@ == raw[i].slug@;
        assert(raw[j].slug@ == raw[i].slug@);
    }
}

/// What is said where a configuration cannot be used.
pub proof fn law_config_errors_say_why(error: ConfigError)
    ensures
        error matches ConfigError::NotFound(path) ==> config_error_text(error)
            == "config file not found at "@ + path@
            + " (create it or pass --config / set SPLICEFEED_CONFIG)"@,
        error matches ConfigError::Load(reason) ==> config_error_text(error)
            == "failed to load config: "@ + reason@,
        error matches ConfigError::MissingListenKey { show, provider } ==> config_error_text(error)
            == "show `"@ + show@ + "` uses provider `"@ + provider@
            + "`, which requires an API key or a listen key; set [auth."@ + provider@
            + "] api_key or listen_key in the config, or the DIFM_API_KEY or DIFM_LISTEN_KEY env var"@,
        error matches ConfigError::DuplicateShow(slug) ==> config_error_text(error)
            == "duplicate show slug `"@ + slug@ + "`"@,
        error matches ConfigError::Dirs(reason) ==> config_error_text(error)
            == "could not determine platform directories: "@ + reason@,
{
}

/// Text is a show's slug exactly where nothing is said against it, and empty
/// text is told from text with other characters in it.
pub proof fn law_bad_slugs_say_why(text: Seq<char>)
    ensures
        slug_fault(text) is None <==> is_slug(text),
        text.len() == 0 ==> slug_fault(text) == Some(
            "invalid "@ + "show slug"@ + ": "@ + "must not be empty"@,
        ),
        text.len() > 0 && !is_slug(text) ==> slug_fault(text) == Some(
            "invalid "@ + "show slug"@ + ": "@
                + "only ASCII letters, digits, `-`, `_`, and `.` are allowed"@,
        ),
{
}

/// Of several faults of a file the first counts: the public URL, the number
/// of downloads, the provider's URL, the collector's URL, then the shows.
pub proof fn law_the_first_fault_counts(raw: RawConfig)
    ensures
        ({
            let outside = match raw.external_base_url {
                Some(url) => url_fault(url@),
                None => None,
            };
            let provider = match raw.base_url {
                Some(url) => url_fault(url@),
                None => None,
            };
            let collector = match raw.otlp {
                Some(otlp) => url_fault(otlp.endpoint@),
                None => None,
            };
            let idle = raw.download_concurrency == Some(0usize);
            &&& outside is Some ==> raw_fault(raw) == outside
            &&& outside is None && idle ==> raw_fault(raw) == Some(
                "download_concurrency must not be zero"@,
            )
            &&& outside is None && !idle && provider is Some ==> raw_fault(raw) == provider
            &&& outside is None && !idle && provider is None && collector is Some ==> raw_fault(raw)
                == collector
            &&& outside is None && !idle && provider is None && collector is None ==> raw_fault(raw)
                == raw_shows_fault(raw.shows@)
        }),
{
}

/// Of several faulty shows the first counts, and a show's slug before its
/// artwork.
pub proof fn law_the_first_faulty_show_counts(raw: Seq<RawShow>, show: RawShow)
    ensures
        raw_shows_fault(Seq::empty()) is None,
        raw_shows_fault(raw) is Some ==> raw_shows_fault(raw.push(show)) == raw_shows_fault(raw),
        raw_shows_fault(raw) is None && !is_slug(show.slug@) ==> raw_shows_fault(raw.push(show))
            == slug_fault(show.slug@),
        raw_shows_fault(raw) is None && is_slug(show.slug@) ==> raw_shows_fault(raw.push(show))
            == match show.artwork {
            Some(artwork) => artwork_fault(artwork@),
            None => None,
        },
{
    assert(raw.push(show).drop_last() =~= raw);
}

/// Every show of the file is a show of the configuration, at its place,
/// under its slug, with its title, its limits and its own interval.
pub proof fn law_every_show_is_taken_over(
    config: Config,
    raw: RawConfig,
    env_listen_key: Option<Seq<char>>,
    env_api_key: Option<Seq<char>>,
    default_data_dir: Seq<char>,
    i: int,
)
    requires
        config_reads(config, raw, env_listen_key, env_api_key, default_data_dir),
        0 <= i < raw.shows@.len(),
    ensures
        config.shows@.len() == raw.shows@.len(),
        config.shows@[i].slug@ == raw.shows@[i].slug@,
        config.shows@[i].provider@ == match raw.shows@[i].provider {
            Some(name) => name@,
            None => "difm"@,
        },
        opt_text(config.shows@[i].title) == opt_text(raw.shows@[i].title),
        config.shows@[i].poll_interval == raw.shows@[i].poll_interval,
        config.shows@[i].fetch_last == raw.shows@[i].fetch_last,
        config.shows@[i].retention == raw.shows@[i].retention,
        config.shows@[i].artwork is Some <==> raw.shows@[i].artwork is Some,
{
    assert(show_reads(config.shows@[i], raw.shows@[i]));
}

} // verus!
