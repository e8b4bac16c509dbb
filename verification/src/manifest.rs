//! The manifest of a guest: its owner and provider, its routes and topics,
//! the capabilities it asks for and the environment variables it reads.

use vstd::prelude::*;
use vstd::string::StringExecFns;
use crate::host::same_text;
use crate::vecs::reversed;

verus! {

/// A capability that a guest can ask for.
#[derive(Debug, Clone, Copy, PartialEq, Eq, Structural)]
pub enum Capability {
    HttpRequest,
    Identity,
    Publisher,
    StateStore,
}

/// The capability of a name: `HttpRequest`, `Identity`, `Publisher` and
/// `StateStore` are capabilities, and no other name is.
pub open spec fn capability_of(name: Seq<char>) -> Option<Capability> {
    if name == "HttpRequest"@ {
        Some(Capability::HttpRequest)
    } else if name == "Identity"@ {
        Some(Capability::Identity)
    } else if name == "Publisher"@ {
        Some(Capability::Publisher)
    } else if name == "StateStore"@ {
        Some(Capability::StateStore)
    } else {
        None
    }
}

impl Capability {
    /// The capability called `name`, if there is one.
    pub fn from_name(name: &str) -> (r: Option<Capability>)
        ensures
            r == capability_of(name@),
    {
        if same_text(name, "HttpRequest") {
            Some(Capability::HttpRequest)
        } else if same_text(name, "Identity") {
            Some(Capability::Identity)
        } else if same_text(name, "Publisher") {
            Some(Capability::Publisher)
        } else if same_text(name, "StateStore") {
            Some(Capability::StateStore)
        } else {
            None
        }
    }
}

/// A route of a guest: a path, a method, and the types of its request and
/// its reply.
#[derive(Debug, Clone, PartialEq, Eq)]
pub struct Route {
    pub path: String,
    pub method: String,
    pub request_type: String,
    pub reply_type: String,
}

/// A topic of a guest: its pattern and the type of its messages.
#[derive(Debug, Clone, PartialEq, Eq)]
pub struct Topic {
    pub pattern: String,
    pub message_type: String,
}

/// An environment variable of a guest: its name, its type and its default,
/// if it has one.
#[derive(Debug, Clone, PartialEq, Eq)]
pub struct EnvVar {
    pub name: String,
    pub ty: String,
    pub default: Option<String>,
}

/// One setting of a manifest.
#[derive(Debug, Clone, PartialEq, Eq)]
pub enum Opt {
    Owner(String),
    Provider(String),
    Http(Vec<Route>),
    Messaging(Vec<Topic>),
    Capabilities(Vec<Capability>),
    Environment(Vec<EnvVar>),
}

/// The manifest of a guest. The owner and the provider are always there;
/// the lists are there where the manifest names them.
#[derive(Debug, Clone, PartialEq, Eq)]
pub struct Config {
    pub owner: String,
    pub provider: String,
    pub http: Option<Vec<Route>>,
    pub messaging: Option<Vec<Topic>>,
    pub capabilities: Option<Vec<Capability>>,
    pub environment: Option<Vec<EnvVar>>,
}

/// Why the settings make no manifest.
#[derive(Debug, Clone, Copy, PartialEq, Eq, Structural)]
pub enum ManifestError {
    /// The owner is named a second time.
    SecondOwner,
    /// The provider is named a second time.
    SecondProvider,
    /// The owner is not named.
    MissingOwner,
    /// The provider is not named.
    MissingProvider,
}

impl ManifestError {
    /// The error in words.
    pub fn to_string(&self) -> (r: String)
        ensures
            r@ == match *self {
                ManifestError::SecondOwner => "cannot specify second owner"@,
                ManifestError::SecondProvider => "cannot specify second provider"@,
                ManifestError::MissingOwner => "missing `owner`"@,
                ManifestError::MissingProvider => "missing `provider`"@,
            },
    {
        match self {
            ManifestError::SecondOwner => String::from_str("cannot specify second owner"),
            ManifestError::SecondProvider => String::from_str("cannot specify second provider"),
            ManifestError::MissingOwner => String::from_str("missing `owner`"),
            ManifestError::MissingProvider => String::from_str("missing `provider`"),
        }
    }
}

/// The settings read so far.
pub struct Draft {
    pub owner: Option<String>,
    pub provider: Option<String>,
    pub http: Option<Vec<Route>>,
    pub messaging: Option<Vec<Topic>>,
    pub capabilities: Option<Vec<Capability>>,
    pub environment: Option<Vec<EnvVar>>,
}

/// A draft without any setting.
pub open spec fn empty_draft() -> Draft {
    Draft {
        owner: None,
        provider: None,
        http: None,
        messaging: None,
        capabilities: None,
        environment: None,
    }
}

/// The draft with one more setting: an owner or a provider may be named
/// once only; of the lists the last one counts.
pub open spec fn with_setting(draft: Draft, setting: Opt) -> Result<Draft, ManifestError> {
    match setting {
        Opt::Owner(o) => if draft.owner is Some {
            Err(ManifestError::SecondOwner)
        } else {
            Ok(Draft { owner: Some(o), ..draft })
        },
        Opt::Provider(p) => if draft.provider is Some {
            Err(ManifestError::SecondProvider)
        } else {
            Ok(Draft { provider: Some(p), ..draft })
        },
        Opt::Http(h) => Ok(Draft { http: Some(h), ..draft }),
        Opt::Messaging(m) => Ok(Draft { messaging: Some(m), ..draft }),
        Opt::Capabilities(c) => Ok(Draft { capabilities: Some(c), ..draft }),
        Opt::Environment(e) => Ok(Draft { environment: Some(e), ..draft }),
    }
}

/// The draft of the first `n` settings, read in their order. The first
/// setting that cannot be added decides the error.
pub open spec fn draft_of(settings: Seq<Opt>, n: nat) -> Result<Draft, ManifestError>
    decreases n,
{
    if n == 0 || n > settings.len() {
        Ok(empty_draft())
    } else {
        match draft_of(settings, (n - 1) as nat) {
            Ok(draft) => with_setting(draft, settings[n - 1]),
            Err(e) => Err(e),
        }
    }
}

/// The manifest of a draft: it needs an owner, and then a provider.
pub open spec fn finished(draft: Draft) -> Result<Config, ManifestError> {
    match (draft.owner, draft.provider) {
        (None, _) => Err(ManifestError::MissingOwner),
        (Some(_), None) => Err(ManifestError::MissingProvider),
        (Some(owner), Some(provider)) => Ok(
            Config {
                owner,
                provider,
                http: draft.http,
                messaging: draft.messaging,
                capabilities: draft.capabilities,
                environment: draft.environment,
            },
        ),
    }
}

/// The manifest that a list of settings makes.
pub open spec fn manifest_of(settings: Seq<Opt>) -> Result<Config, ManifestError> {
    match draft_of(settings, settings.len()) {
        Ok(draft) => finished(draft),
        Err(e) => Err(e),
    }
}

impl Config {
    /// Makes a manifest of its settings, read in their order.
    pub fn from_options(settings: Vec<Opt>) -> (r: Result<Config, ManifestError>)
        ensures
            r == manifest_of(settings@),
    {
        let ghost all = settings@;
        let mut rest = reversed(settings);
        let mut draft = Draft {
            owner: None,
            provider: None,
            http: None,
            messaging: None,
            capabilities: None,
            environment: None,
        };
        let ghost mut done: nat = 0;
        while rest.len() > 0
            invariant
                all == settings@,
                rest@.len() + done == all.len(),
                forall|i: int| 0 <= i < rest@.len() ==> rest@[i] == all[all.len() - 1 - i],
                draft_of(all, done) == Ok::<Draft, ManifestError>(draft),
            decreases rest@.len(),
        {
            let setting = rest.pop().unwrap();
            proof {
                assert(setting == all[done as int]);
                done = done + 1;
            }
            match setting {
                Opt::Owner(o) => {
                    if draft.owner.is_some() {
                        proof {
                            assert(draft_of(all, done) == Err::<Draft, ManifestError>(
                                ManifestError::SecondOwner,
                            ));
                            lemma_error_stays(all, done, all.len());
                        }
                        return Err(ManifestError::SecondOwner);
                    }
                    draft.owner = Some(o);
                },
                Opt::Provider(p) => {
                    if draft.provider.is_some() {
                        proof {
                            assert(draft_of(all, done) == Err::<Draft, ManifestError>(
                                ManifestError::SecondProvider,
                            ));
                            lemma_error_stays(all, done, all.len());
                        }
                        return Err(ManifestError::SecondProvider);
                    }
                    draft.provider = Some(p);
                },
                Opt::Http(h) => {
                    draft.http = Some(h);
                },
                Opt::Messaging(m) => {
                    draft.messaging = Some(m);
                },
                Opt::Capabilities(c) => {
                    draft.capabilities = Some(c);
                },
                Opt::Environment(e) => {
                    draft.environment = Some(e);
                },
            }
        }
        match (draft.owner, draft.provider) {
            (None, _) => Err(ManifestError::MissingOwner),
            (Some(_), None) => Err(ManifestError::MissingProvider),
            (Some(owner), Some(provider)) => Ok(
                Config {
                    owner,
                    provider,
                    http: draft.http,
                    messaging: draft.messaging,
                    capabilities: draft.capabilities,
                    environment: draft.environment,
                },
            ),
        }
    }
}

/// Once a setting could not be added, no later setting mends it.
pub proof fn lemma_error_stays(settings: Seq<Opt>, n: nat, m: nat)
    requires
        n <= m <= settings.len(),
        draft_of(settings, n) is Err,
    ensures
        draft_of(settings, m) == draft_of(settings, n),
    decreases m,
{
    if m > n {
        lemma_error_stays(settings, n, (m - 1) as nat);
    }
}

} // verus!
