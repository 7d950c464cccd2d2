//! Providers: what they can fail with, and which ones a configuration
//! calls for.

use vstd::prelude::*;

use crate::config::Config;
use crate::difm::{DifmFactory, DifmProvider};
use crate::domain::{EpisodeId, EpisodeMeta, ErrorClass, RedactedUrl, ShowSlug};
use crate::text::{decimal_text, same_text};

verus! {

/// Errors surfaced by providers.
#[derive(Debug)]
pub enum ProviderError {
    /// No provider is registered under this name.
    UnknownProvider(String),
    /// The provider's required credentials are missing from config.
    MissingCredentials(&'static str),
    /// The provider does not know this show.
    ShowNotFound(ShowSlug),
    /// Transport-level failure talking to the upstream API.
    Http(String),
    /// Upstream answered with a non-success status.
    Status {
        /// The HTTP status code.
        status: u16,
        /// The URL, credentials redacted.
        url: RedactedUrl,
    },
    /// The response arrived but could not be parsed.
    Parse {
        /// What did not parse.
        reason: String,
        /// Where the raw payload was set aside, when that succeeded.
        quarantine_path: Option<String>,
    },
    /// The episode's response held no audio asset.
    NoAudioAsset {
        /// The episode.
        episode: EpisodeId,
        /// What to do about it.
        hint: String,
    },
}

/// The message of a [`ProviderError`].
pub open spec fn provider_error_text(error: ProviderError) -> Seq<char> {
    match error {
        ProviderError::UnknownProvider(name) => "no provider registered as `"@ + name@ + "`"@,
        ProviderError::MissingCredentials(name) => "provider `"@ + name@
            + "` requires credentials that are not configured"@,
        ProviderError::ShowNotFound(slug) => "show `"@ + slug@ + "` not found upstream"@,
        ProviderError::Http(reason) => "upstream request failed: "@ + reason@,
        ProviderError::Status { status, url } => "upstream returned HTTP "@
            + crate::text::decimal(status as nat) + " for "@ + url@,
        ProviderError::Parse { reason, quarantine_path } => match quarantine_path {
            Some(path) => "unparseable upstream response (quarantined at "@ + path@ + "): "@
                + reason@,
            None => "unparseable upstream response (not quarantined): "@ + reason@,
        },
        ProviderError::NoAudioAsset { episode, hint } => "no audio asset for episode `"@
            + episode@ + "`: "@ + hint@,
    }
}

impl ProviderError {
    /// The message shown to people.
    pub fn to_string(&self) -> (text: String)
        ensures
            text@ == provider_error_text(*self),
    {
        match self {
            ProviderError::UnknownProvider(name) => {
                let mut text = "no provider registered as `".to_owned();
                text.append(name.as_str());
                text.append("`");
                text
            },
            ProviderError::MissingCredentials(name) => {
                let mut text = "provider `".to_owned();
                text.append(name);
                text.append("` requires credentials that are not configured");
                text
            },
            ProviderError::ShowNotFound(slug) => {
                let mut text = "show `".to_owned();
                text.append(slug.as_str());
                text.append("` not found upstream");
                text
            },
            ProviderError::Http(reason) => {
                let mut text = "upstream request failed: ".to_owned();
                text.append(reason.as_str());
                text
            },
            ProviderError::Status { status, url } => {
                let mut text = "upstream returned HTTP ".to_owned();
                text.append(decimal_text(*status as u64).as_str());
                text.append(" for ");
                text.append(url.as_str());
                text
            },
            ProviderError::Parse { reason, quarantine_path } => match quarantine_path {
                Some(path) => {
                    let mut text = "unparseable upstream response (quarantined at ".to_owned();
                    text.append(path.as_str());
                    text.append("): ");
                    text.append(reason.as_str());
                    text
                },
                None => {
                    let mut text = "unparseable upstream response (not quarantined): ".to_owned();
                    text.append(reason.as_str());
                    text
                },
            },
            ProviderError::NoAudioAsset { episode, hint } => {
                let mut text = "no audio asset for episode `".to_owned();
                text.append(episode.as_str());
                text.append("`: ");
                text.append(hint.as_str());
                text
            },
        }
    }
}

/// The class a provider error counts as when it keeps an episode from being
/// downloaded.
pub open spec fn provider_error_class(error: ProviderError) -> ErrorClass {
    match error {
        ProviderError::UnknownProvider(_) => ErrorClass::Network,
        ProviderError::MissingCredentials(_) => ErrorClass::Network,
        ProviderError::Http(_) => ErrorClass::Network,
        ProviderError::ShowNotFound(_) => ErrorClass::HttpStatus,
        ProviderError::Status { status, url } => ErrorClass::HttpStatus,
        ProviderError::Parse { reason, quarantine_path } => ErrorClass::Parse,
        ProviderError::NoAudioAsset { episode, hint } => ErrorClass::Parse,
    }
}

impl ProviderError {
    /// The class this error counts as when it keeps an episode from being
    /// downloaded.
    pub fn class(&self) -> (class: ErrorClass)
        ensures
            class == provider_error_class(*self),
    {
        match self {
            ProviderError::UnknownProvider(_) => ErrorClass::Network,
            ProviderError::MissingCredentials(_) => ErrorClass::Network,
            ProviderError::Http(_) => ErrorClass::Network,
            ProviderError::ShowNotFound(_) => ErrorClass::HttpStatus,
            ProviderError::Status { status: _, url: _ } => ErrorClass::HttpStatus,
            ProviderError::Parse { reason: _, quarantine_path: _ } => ErrorClass::Parse,
            ProviderError::NoAudioAsset { episode: _, hint: _ } => ErrorClass::Parse,
        }
    }
}

/// What a provider answers a request for a show's episodes with.
#[derive(Debug)]
pub enum EpisodeListing {
    /// Nothing changed since the listing whose validator was sent along.
    NotModified,
    /// A listing.
    Modified {
        /// The episodes, newest first.
        episodes: Vec<EpisodeMeta>,
        /// The validator to send along next time, where there is one.
        etag: Option<String>,
    },
}

/// Instantiated providers, by registry name.
pub struct ProviderRegistry {
    /// The DI.FM provider, when some show is served by it.
    pub difm: Option<DifmProvider>,
}

/// Whether show `i` is the first that is served by no known provider, or
/// by one that could not be built.
pub open spec fn first_unserved(config: Config, i: int) -> bool {
    &&& 0 <= i < config.shows@.len()
    &&& config.shows@[i].provider@ == "difm"@ ==> crate::difm::create_fault(config) is Some
    &&& forall|j: int|
        0 <= j < i ==> (#[trigger] config.shows@[j]).provider@ == "difm"@
            && crate::difm::create_fault(config) is None
}

impl ProviderRegistry {
    /// Instantiate every provider that the configured shows refer to. The
    /// first show that cannot be served decides the error.
    pub fn from_config(config: &Config) -> (registry: Result<ProviderRegistry, ProviderError>)
        ensures
            match registry {
                Ok(registry) => {
                    &&& forall|i: int|
                        0 <= i < config.shows@.len() ==> (#[trigger] config.shows@[i]).provider@
                            == "difm"@
                    &&& registry.difm is Some <==> config.shows@.len() > 0
                    &&& registry.difm matches Some(difm) ==> crate::difm::created(difm, *config)
                },
                Err(error) => exists|i: int|
                    #[trigger] first_unserved(*config, i) && (if config.shows@[i].provider@
                        == "difm"@ {
                        crate::difm::create_fault(*config) == Some(provider_error_text(error))
                    } else {
                        error matches ProviderError::UnknownProvider(name) && name@
                            == config.shows@[i].provider@
                    }),
            },
    {
        let mut registry = ProviderRegistry { difm: None };
        let factory = DifmFactory;
        let mut i: usize = 0;
        while i < config.shows.len()
            invariant
                i <= config.shows@.len(),
                forall|j: int|
                    0 <= j < i ==> (#[trigger] config.shows@[j]).provider@ == "difm"@
                        && crate::difm::create_fault(*config) is None,
                registry.difm is Some <==> i > 0,
                registry.difm matches Some(difm) ==> crate::difm::created(difm, *config),
            decreases config.shows@.len() - i,
        {
            let name = config.shows[i].provider();
            if same_text(name, factory.name()) {
                if registry.difm.is_none() {
                    match factory.create(config) {
                        Ok(provider) => {
                            registry.difm = Some(provider);
                        },
                        Err(error) => {
                            assert(first_unserved(*config, i as int));
                            return Err(error);
                        },
                    }
                }
                assert(crate::difm::create_fault(*config) is None) by {
                    if i > 0 {
                        assert(config.shows@[0].provider@ == "difm"@);
                    }
                }
            } else {
                assert(first_unserved(*config, i as int));
                return Err(ProviderError::UnknownProvider(name.to_owned()));
            }
            i += 1;
        }
        Ok(registry)
    }

    /// Build one provider by registry name.
    pub fn create(config: &Config, name: &str) -> (provider: Result<DifmProvider, ProviderError>)
        ensures
            if name@ == "difm"@ {
                match provider {
                    Ok(provider) => crate::difm::create_fault(*config) is None
                        && crate::difm::created(provider, *config),
                    Err(error) => crate::difm::create_fault(*config) == Some(
                        provider_error_text(error),
                    ),
                }
            } else {
                provider matches Err(ProviderError::UnknownProvider(unknown)) && unknown@ == name@
            },
    {
        let factory = DifmFactory;
        if same_text(name, factory.name()) {
            factory.create(config)
        } else {
            Err(ProviderError::UnknownProvider(name.to_owned()))
        }
    }

    /// Look up a provider by registry name.
    pub fn get(&self, name: &str) -> (provider: Result<&DifmProvider, ProviderError>)
        ensures
            match provider {
                Ok(provider) => name@ == "difm"@ && self.difm == Some(*provider),
                Err(error) => (name@ != "difm"@ || self.difm is None) && (
                error matches ProviderError::UnknownProvider(unknown) && unknown@ == name@),
            },
    {
        if same_text(name, "difm") {
            match &self.difm {
                Some(provider) => Ok(provider),
                None => Err(ProviderError::UnknownProvider(name.to_owned())),
            }
        } else {
            Err(ProviderError::UnknownProvider(name.to_owned()))
        }
    }
}

/// A failure is of the kind it came from: a status that upstream answered
/// with, a response that could not be understood, or else the network.
pub proof fn law_provider_failures_have_a_kind(error: ProviderError)
    ensures
        provider_error_class(error) == ErrorClass::HttpStatus <==> error is Status
            || error is ShowNotFound,
        provider_error_class(error) == ErrorClass::Parse <==> error is Parse
            || error is NoAudioAsset,
        provider_error_class(error) == ErrorClass::Network <==> error is Http
            || error is UnknownProvider || error is MissingCredentials,
{
}

/// The first show that cannot be served is the one complained of: every show
/// before it is of a provider there is, which can be made.
pub proof fn law_the_first_unserved_show_counts(config: Config, i: int, j: int)
    requires
        first_unserved(config, i),
        0 <= j < i,
    ensures
        i < config.shows@.len(),
        config.shows@[j].provider@ == "difm"@,
        crate::difm::create_fault(config) is None,
        config.shows@[i].provider@ != "difm"@,
{
}

/// What is said where a provider fails: what was asked for, and why it
/// could not be had.
pub proof fn law_provider_errors_say_why(error: ProviderError)
    ensures
        error matches ProviderError::UnknownProvider(name) ==> provider_error_text(error)
            == "no provider registered as `"@ + name@ + "`"@,
        error matches ProviderError::MissingCredentials(name) ==> provider_error_text(error)
            == "provider `"@ + name@ + "` requires credentials that are not configured"@,
        error matches ProviderError::ShowNotFound(slug) ==> provider_error_text(error)
            == "show `"@ + slug@ + "` not found upstream"@,
        error matches ProviderError::Http(reason) ==> provider_error_text(error)
            == "upstream request failed: "@ + reason@,
        error matches ProviderError::Status { status, url } ==> provider_error_text(error)
            == "upstream returned HTTP "@ + crate::text::decimal(status as nat) + " for "@ + url@,
        error matches ProviderError::Parse { reason, quarantine_path: Some(path) }
            ==> provider_error_text(error) == "unparseable upstream response (quarantined at "@
            + path@ + "): "@ + reason@,
        error matches ProviderError::Parse { reason, quarantine_path: None }
            ==> provider_error_text(error) == "unparseable upstream response (not quarantined): "@
            + reason@,
        error matches ProviderError::NoAudioAsset { episode, hint } ==> provider_error_text(error)
            == "no audio asset for episode `"@ + episode@ + "`: "@ + hint@,
{
}

} // verus!
