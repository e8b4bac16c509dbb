//! What every capability backend shares: the settings it reads from the
//! environment and the way it is connected.

use vstd::prelude::*;
use vstd::string::StringExecFns;

verus! {

/// The variables of the process environment, as they were read at start-up:
/// names and values, the first entry of a name being the one that counts.
#[derive(Debug, Clone, PartialEq, Eq)]
pub struct Environment {
    pub vars: Vec<(String, String)>,
}

/// What an [`Environment`] holds.
pub type EnvView = Seq<(Seq<char>, Seq<char>)>;

impl View for Environment {
    type V = EnvView;

    open spec fn view(&self) -> EnvView {
        Seq::new(self.vars@.len(), |i: int| (self.vars@[i].0@, self.vars@[i].1@))
    }
}

/// The value of the first variable called `name` among entries `from..`.
pub open spec fn lookup_from(env: EnvView, name: Seq<char>, from: int) -> Option<Seq<char>>
    decreases env.len() - from,
{
    if from < 0 || from >= env.len() {
        None
    } else if env[from].0 == name {
        Some(env[from].1)
    } else {
        lookup_from(env, name, from + 1)
    }
}

/// The value of the variable called `name`, if it is set.
pub open spec fn lookup(env: EnvView, name: Seq<char>) -> Option<Seq<char>> {
    lookup_from(env, name, 0)
}

/// The value of the variable called `name`, or `default` where it is not set.
pub open spec fn setting_or(env: EnvView, name: Seq<char>, default: Seq<char>) -> Seq<char> {
    match lookup(env, name) {
        Some(value) => value,
        None => default,
    }
}

/// Why a setting could not be read.
#[derive(Debug, Clone, PartialEq, Eq)]
pub enum ConfigError {
    /// The variable is not set and has no default.
    MissingConfig(String),
}

impl ConfigError {
    /// The name of the variable that is missing.
    pub open spec fn key(self) -> Seq<char> {
        match self {
            ConfigError::MissingConfig(key) => key@,
        }
    }

    /// The error in words.
    pub fn to_string(&self) -> (r: String)
        ensures
            r@ == "configuration not found: "@ + self.key(),
    {
        match self {
            ConfigError::MissingConfig(key) => {
                let mut text = String::from_str("configuration not found: ");
                text.append(key.as_str());
                text
            },
        }
    }
}

/// The default of a variable of the configuration surface: `ENV` is `dev`,
/// `HTTP_ADDR` is `http://localhost:8080`, `WEBSOCKET_ADDR` is `0.0.0.0:80`
/// and `COMPONENT` is `unknown`. No other variable has one.
pub open spec fn default_of(name: Seq<char>) -> Option<Seq<char>> {
    if name == "ENV"@ {
        Some("dev"@)
    } else if name == "HTTP_ADDR"@ {
        Some("http://localhost:8080"@)
    } else if name == "WEBSOCKET_ADDR"@ {
        Some("0.0.0.0:80"@)
    } else if name == "COMPONENT"@ {
        Some("unknown"@)
    } else {
        None
    }
}

/// The value that a guest gets for a configuration key: the variable where
/// it is set, else its default, else nothing.
pub open spec fn config_value(env: EnvView, name: Seq<char>) -> Option<Seq<char>> {
    match lookup(env, name) {
        Some(value) => Some(value),
        None => default_of(name),
    }
}

/// Whether two texts are the same.
pub fn same_text(a: &str, b: &str) -> (r: bool)
    ensures
        r == (a@ == b@),
{
    String::from_str(a) == String::from_str(b)
}

impl Environment {
    /// The value of the variable called `name`, if it is set.
    pub fn get(&self, name: &str) -> (r: Option<String>)
        ensures
            crate::wire::text_view(r) == lookup(self@, name@),
    {
        let wanted = String::from_str(name);
        let mut i: usize = 0;
        while i < self.vars.len()
            invariant
                i <= self.vars.len(),
                wanted@ == name@,
                lookup(self@, name@) == lookup_from(self@, name@, i as int),
            decreases self.vars.len() - i,
        {
            proof {
                assert(self@[i as int] == (self.vars@[i as int].0@, self.vars@[i as int].1@));
            }
            if self.vars[i].0 == wanted {
                return Some(self.vars[i].1.clone());
            }
            i = i + 1;
        }
        None
    }

    /// The value of the variable called `name`, or `default` where it is
    /// not set.
    pub fn get_or(&self, name: &str, default: &str) -> (r: String)
        ensures
            r@ == setting_or(self@, name@, default@),
    {
        match self.get(name) {
            Some(value) => value,
            None => String::from_str(default),
        }
    }

    /// The value that a guest gets for the configuration key `name`.
    ///
    /// Fails with `MissingConfig(name)` exactly when the variable is not
    /// set and has no default.
    pub fn config_get(&self, name: &str) -> (r: Result<String, ConfigError>)
        ensures
            match config_value(self@, name@) {
                Some(value) => r is Ok && r->Ok_0@ == value,
                None => r is Err && r->Err_0.key() == name@,
            },
    {
        match self.get(name) {
            Some(value) => Ok(value),
            None => {
                if same_text(name, "ENV") {
                    Ok(String::from_str("dev"))
                } else if same_text(name, "HTTP_ADDR") {
                    Ok(String::from_str("http://localhost:8080"))
                } else if same_text(name, "WEBSOCKET_ADDR") {
                    Ok(String::from_str("0.0.0.0:80"))
                } else if same_text(name, "COMPONENT") {
                    Ok(String::from_str("unknown"))
                } else {
                    Err(ConfigError::MissingConfig(String::from_str(name)))
                }
            },
        }
    }
}

/// The kinds of error of the host.
#[derive(Debug, Clone, Copy, PartialEq, Eq, Structural)]
pub enum ErrorKind {
    MissingColumn,
    TypeMismatch,
    UnsupportedTimestamp,
    MissingConfig,
    UnsupportedValue,
    ConnectionTimeout,
    ConnectionRefused,
    HttpRequestUriInvalid,
    InternalError,
    BroadcastLag,
    ChannelFull,
    MaxConnections,
    ResourceTableMisuse,
}

/// What happens with an error.
#[derive(Debug, Clone, Copy, PartialEq, Eq, Structural)]
pub enum Propagation {
    /// The guest gets it as a typed result.
    Surfaced,
    /// The host logs it and goes on; the guest does not see it.
    Logged,
    /// The peer is turned away; the server goes on.
    Rejected,
    /// The guest is trapped and its store released; other guests go on.
    Trapped,
}

/// What happens with an error of each kind: a lagging subscriber and a
/// full channel are logged, a peer beyond the cap is rejected, misuse of
/// the resource table traps the guest, and every other error is surfaced
/// to the guest.
pub open spec fn propagation_of(kind: ErrorKind) -> Propagation {
    match kind {
        ErrorKind::BroadcastLag => Propagation::Logged,
        ErrorKind::ChannelFull => Propagation::Logged,
        ErrorKind::MaxConnections => Propagation::Rejected,
        ErrorKind::ResourceTableMisuse => Propagation::Trapped,
        _ => Propagation::Surfaced,
    }
}

impl ErrorKind {
    /// What happens with an error of this kind.
    pub fn propagation(self) -> (r: Propagation)
        ensures
            r == propagation_of(self),
    {
        match self {
            ErrorKind::BroadcastLag => Propagation::Logged,
            ErrorKind::ChannelFull => Propagation::Logged,
            ErrorKind::MaxConnections => Propagation::Rejected,
            ErrorKind::ResourceTableMisuse => Propagation::Trapped,
            _ => Propagation::Surfaced,
        }
    }

    /// Whether an error of this kind ends the guest's call.
    pub fn traps_guest(self) -> (r: bool)
        ensures
            r == (propagation_of(self) == Propagation::Trapped),
    {
        match self {
            ErrorKind::ResourceTableMisuse => true,
            _ => false,
        }
    }
}

/// Options that are made of the environment.
pub trait FromEnv: Sized {
    /// Whether `r` is a right answer for the environment `env`. Any answer
    /// is, unless an implementation says otherwise.
    open spec fn loaded(env: EnvView, r: Result<Self, ConfigError>) -> bool {
        true
    }

    /// Makes the options of the environment.
    fn from_env(env: &Environment) -> (r: Result<Self, ConfigError>)
        ensures
            Self::loaded(env@, r),
    ;
}

/// A backend of a capability: something that is connected with options.
pub trait Backend: Sized {
    type ConnectOptions: FromEnv;

    /// Whether `r` is a right answer to connecting with `options`. Any
    /// answer is, unless an implementation says otherwise.
    open spec fn connected(options: Self::ConnectOptions, r: Result<Self, ConfigError>) -> bool {
        true
    }

    /// Connects with the given options.
    fn connect_with(options: Self::ConnectOptions) -> (r: Result<Self, ConfigError>)
        ensures
            Self::connected(options, r),
    ;

    /// Connects with the options that the environment gives.
    fn connect(env: &Environment) -> (r: Result<Self, ConfigError>)
        ensures
            match r {
                Ok(backend) => exists|options: Self::ConnectOptions|
                    Self::ConnectOptions::loaded(env@, Ok(options)) && #[trigger] Self::connected(
                        options,
                        Ok(backend),
                    ),
                Err(e) => Self::ConnectOptions::loaded(env@, Err(e)) || exists|
                    options: Self::ConnectOptions,
                |
                    Self::ConnectOptions::loaded(env@, Ok(options)) && #[trigger] Self::connected(
                        options,
                        Err(e),
                    ),
            },
    {
        let loaded = Self::ConnectOptions::from_env(env);
        match loaded {
            Ok(options) => {
                let ghost given = options;
                assert(loaded == Ok::<Self::ConnectOptions, ConfigError>(given));
                assert(Self::ConnectOptions::loaded(env@, Ok(given)));
                let r = Self::connect_with(options);
                assert(Self::connected(given, r));
                match r {
                    Ok(backend) => {
                        assert(Self::connected(given, Ok(backend)));
                        Ok(backend)
                    },
                    Err(e) => {
                        assert(Self::connected(given, Err(e)));
                        Err(e)
                    },
                }
            },
            Err(e) => Err(e),
        }
    }
}

} // verus!
