//! The service's settings, as read at start-up.
use crate::constants::{DEFAULT_CAPACITY, DEFAULT_FILL_RATE};
use crate::error::{build_configuration_error, HashServiceError};
use vstd::prelude::*;

verus! {

/// Which storage backend the service runs on.
#[derive(Clone, Copy, Debug, PartialEq, Eq, Structural)]
pub enum Mode {
    InMemory,
    Mongo,
    Coordinator,
    Redis,
    Firestore,
}

impl Default for Mode {
    fn default() -> (r: Mode)
        ensures
            r == Mode::InMemory,
    {
        Mode::InMemory
    }
}

impl Mode {
    /// The name of the mode, as written in the settings.
    pub fn name(&self) -> (r: &'static str)
        ensures
            r@ == mode_name(*self),
    {
        match self {
            Mode::InMemory => "InMemory",
            Mode::Mongo => "Mongo",
            Mode::Coordinator => "Coordinator",
            Mode::Redis => "Redis",
            Mode::Firestore => "Firestore",
        }
    }
}

pub open spec fn mode_name(m: Mode) -> Seq<char> {
    match m {
        Mode::InMemory => "InMemory"@,
        Mode::Mongo => "Mongo"@,
        Mode::Coordinator => "Coordinator"@,
        Mode::Redis => "Redis"@,
        Mode::Firestore => "Firestore"@,
    }
}

#[derive(Clone, Debug)]
pub struct ApiServer {
    pub application_url: String,
    pub hostname: String,
    pub allow_origin: String,
    pub api_key: Option<String>,
    pub google_application_credentials: Option<String>,
}

#[derive(Clone, Debug)]
pub struct MongoConfig {
    pub connection_string: String,
    pub database_name: String,
    pub collection_name: String,
}

#[derive(Clone, Debug)]
pub struct RedisConfig {
    pub connection_string: String,
}

#[derive(Clone, Debug)]
pub struct FirestoreConfig {
    pub project_id: String,
}

/// Admission gate settings: bucket size and tokens regained per second.
#[derive(Clone, Copy, Debug, PartialEq, Eq, Structural)]
pub struct RateLimit {
    pub capacity: usize,
    pub fill_rate: usize,
}

/// The storage nodes a coordinator spreads keys over, each as `host:port`.
#[derive(Clone, Debug)]
pub struct Coordinator {
    pub hostnames: Vec<String>,
}

impl Coordinator {
    /// A copy with the same host names.
    pub fn duplicate(&self) -> (r: Coordinator)
        ensures
            r.hostnames@ == self.hostnames@,
    {
        let mut hostnames: Vec<String> = Vec::new();
        let mut i: usize = 0;
        while i < self.hostnames.len()
            invariant
                i <= self.hostnames@.len(),
                hostnames@ == self.hostnames@.subrange(0, i as int),
            decreases self.hostnames@.len() - i,
        {
            hostnames.push(self.hostnames[i].clone());
            assert(self.hostnames@.subrange(0, i + 1) =~= self.hostnames@.subrange(0, i as int).push(
                self.hostnames@[i as int],
            ));
            i = i + 1;
        }
        assert(self.hostnames@.subrange(0, self.hostnames@.len() as int) =~= self.hostnames@);
        Coordinator { hostnames }
    }
}

/// The rate limit used when none is configured.
pub fn default_rate_limit() -> (r: RateLimit)
    ensures
        r == (RateLimit { capacity: DEFAULT_CAPACITY, fill_rate: DEFAULT_FILL_RATE }),
{
    RateLimit { capacity: DEFAULT_CAPACITY, fill_rate: DEFAULT_FILL_RATE }
}

#[derive(Clone, Debug)]
pub struct Settings {
    pub debug: bool,
    pub mode: Mode,
    pub apiserver: ApiServer,
    pub mongo_config: Option<MongoConfig>,
    pub redis_config: Option<RedisConfig>,
    pub firestore_config: Option<FirestoreConfig>,
    pub ratelimit: Option<RateLimit>,
    pub coordinator: Option<Coordinator>,
}

/// The name of the settings section that `mode` needs, if any.
pub open spec fn required_section(mode: Mode) -> Option<Seq<char>> {
    match mode {
        Mode::InMemory => None,
        Mode::Mongo => Some("mongo_config"@),
        Mode::Coordinator => Some("coordinator"@),
        Mode::Redis => Some("redis_config"@),
        Mode::Firestore => Some("firestore_config"@),
    }
}

/// Whether the section that `mode` needs is present in `s`.
pub open spec fn has_required_section(s: Settings) -> bool {
    match s.mode {
        Mode::InMemory => true,
        Mode::Mongo => s.mongo_config is Some,
        Mode::Coordinator => s.coordinator is Some,
        Mode::Redis => s.redis_config is Some,
        Mode::Firestore => s.firestore_config is Some,
    }
}

/// Checks that the settings hold the section that the selected mode needs,
/// and gives the mode to build the backend for.
pub fn check_mode_configuration(settings: &Settings) -> (r: Result<Mode, HashServiceError>)
    ensures
        r is Ok <==> has_required_section(*settings),
        r matches Ok(m) ==> m == settings.mode,
        r matches Err(e) ==> e matches HashServiceError::MissingConfiguration { mode, configuration }
            && mode@ == mode_name(settings.mode) && required_section(settings.mode) == Some(
            configuration@,
        ),
{
    let missing = match settings.mode {
        Mode::InMemory => None,
        Mode::Mongo => if settings.mongo_config.is_none() {
            Some("mongo_config")
        } else {
            None
        },
        Mode::Coordinator => if settings.coordinator.is_none() {
            Some("coordinator")
        } else {
            None
        },
        Mode::Redis => if settings.redis_config.is_none() {
            Some("redis_config")
        } else {
            None
        },
        Mode::Firestore => if settings.firestore_config.is_none() {
            Some("firestore_config")
        } else {
            None
        },
    };
    match missing {
        None => Ok(settings.mode),
        Some(section) => Err(build_configuration_error(settings.mode.name(), section)),
    }
}

} // verus!
