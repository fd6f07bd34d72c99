//! The settings of the service, from its environment.

use vstd::prelude::*;

use crate::cache::{TimeSpan, NANOS_PER_SEC};
use crate::model::{parsed_mode, SearchMode};
use crate::number::{bounded_value, parse_u64};
use crate::text::{fold, folded, opt_text};

verus! {

/// Who may cache search answers downstream. With `Public` a CDN, or any shared cache, serves hits
/// without asking the service: the cheapest and fastest way. `Private` leaves caching to the client
/// alone. `Off` forbids it; the cache inside the service is used all the same.
#[derive(Clone, Copy, Debug, PartialEq, Eq, Structural)]
pub enum CdnCacheMode {
    Public,
    Private,
    Off,
}

/// The mode that `value` names, whatever its case and the white space around it.
pub open spec fn parsed_cdn_mode(value: Seq<char>) -> Result<CdnCacheMode, Seq<char>> {
    let name = folded(value);
    if name == "public"@ {
        Ok(CdnCacheMode::Public)
    } else if name == "private"@ {
        Ok(CdnCacheMode::Private)
    } else if name == "off"@ || name == "no-store"@ {
        Ok(CdnCacheMode::Off)
    } else {
        Err("invalid CDN_CACHE '"@ + name + "'; expected public, private, or off"@)
    }
}

impl CdnCacheMode {
    /// The mode that `value` names, whatever its case and the white space around it.
    pub fn parse(value: &str) -> (r: Result<Self, String>)
        ensures
            crate::model::result_view(r) == parsed_cdn_mode(value@),
    {
        let name = fold(value);
        if name == "public".to_string() {
            Ok(CdnCacheMode::Public)
        } else if name == "private".to_string() {
            Ok(CdnCacheMode::Private)
        } else if name == "off".to_string() || name == "no-store".to_string() {
            Ok(CdnCacheMode::Off)
        } else {
            let mut message = "invalid CDN_CACHE '".to_string();
            message.append(name.as_str());
            message.append("'; expected public, private, or off");
            Err(message)
        }
    }
}

/// The environment variables that are read, each where it is set to text.
pub struct EnvVars {
    pub host: Option<String>,
    pub port: Option<String>,
    pub parallel_api_key: Option<String>,
    pub parallel_base_url: Option<String>,
    pub default_mode: Option<String>,
    pub cache_ttl_secs: Option<String>,
    pub cache_ttl_volatile_secs: Option<String>,
    pub cache_max_bytes: Option<String>,
    pub request_timeout_secs: Option<String>,
    pub search_api_key: Option<String>,
    pub cdn_cache: Option<String>,
}

/// The settings of the service.
#[derive(Clone, Debug)]
pub struct Config {
    pub bind: String,
    pub parallel_api_key: String,
    pub parallel_base_url: String,
    pub default_mode: SearchMode,
    pub cache_ttl: TimeSpan,
    pub cache_ttl_volatile: TimeSpan,
    pub cache_max_bytes: u64,
    pub search_api_key: Option<String>,
    pub request_timeout: TimeSpan,
    pub cdn_cache: CdnCacheMode,
}

/// What the environment variables hold.
#[verifier::ext_equal]
pub struct EnvView {
    pub host: Option<Seq<char>>,
    pub port: Option<Seq<char>>,
    pub parallel_api_key: Option<Seq<char>>,
    pub parallel_base_url: Option<Seq<char>>,
    pub default_mode: Option<Seq<char>>,
    pub cache_ttl_secs: Option<Seq<char>>,
    pub cache_ttl_volatile_secs: Option<Seq<char>>,
    pub cache_max_bytes: Option<Seq<char>>,
    pub request_timeout_secs: Option<Seq<char>>,
    pub search_api_key: Option<Seq<char>>,
    pub cdn_cache: Option<Seq<char>>,
}

/// What the settings hold, spans in nanoseconds.
#[verifier::ext_equal]
pub struct ConfigView {
    pub bind: Seq<char>,
    pub parallel_api_key: Seq<char>,
    pub parallel_base_url: Seq<char>,
    pub default_mode: SearchMode,
    pub cache_ttl: nat,
    pub cache_ttl_volatile: nat,
    pub cache_max_bytes: nat,
    pub search_api_key: Option<Seq<char>>,
    pub request_timeout: nat,
    pub cdn_cache: CdnCacheMode,
}

impl View for EnvVars {
    type V = EnvView;

    open spec fn view(&self) -> EnvView {
        EnvView {
            host: opt_text(self.host),
            port: opt_text(self.port),
            parallel_api_key: opt_text(self.parallel_api_key),
            parallel_base_url: opt_text(self.parallel_base_url),
            default_mode: opt_text(self.default_mode),
            cache_ttl_secs: opt_text(self.cache_ttl_secs),
            cache_ttl_volatile_secs: opt_text(self.cache_ttl_volatile_secs),
            cache_max_bytes: opt_text(self.cache_max_bytes),
            request_timeout_secs: opt_text(self.request_timeout_secs),
            search_api_key: opt_text(self.search_api_key),
            cdn_cache: opt_text(self.cdn_cache),
        }
    }
}

impl View for Config {
    type V = ConfigView;

    open spec fn view(&self) -> ConfigView {
        ConfigView {
            bind: self.bind@,
            parallel_api_key: self.parallel_api_key@,
            parallel_base_url: self.parallel_base_url@,
            default_mode: self.default_mode,
            cache_ttl: self.cache_ttl@,
            cache_ttl_volatile: self.cache_ttl_volatile@,
            cache_max_bytes: self.cache_max_bytes as nat,
            search_api_key: opt_text(self.search_api_key),
            request_timeout: self.request_timeout@,
            cdn_cache: self.cdn_cache,
        }
    }
}

/// The text that is set, or the default.
pub open spec fn text_or(value: Option<Seq<char>>, default: Seq<char>) -> Seq<char> {
    match value {
        Some(v) => v,
        None => default,
    }
}

/// The number that the variable `name` is set to, or the default where it is not set.
pub open spec fn number_or(name: Seq<char>, value: Option<Seq<char>>, default: nat) -> Result<
    nat,
    Seq<char>,
> {
    match value {
        None => Ok(default),
        Some(v) => match bounded_value(v, u64::MAX as nat) {
            Some(n) => Ok(n),
            None => Err(name + " must be a positive integer"@),
        },
    }
}

impl EnvView {
    /// The mode for requests that name none.
    pub open spec fn mode(self) -> Result<SearchMode, Seq<char>> {
        match self.default_mode {
            Some(v) => parsed_mode(v),
            None => Ok(SearchMode::Turbo),
        }
    }

    /// How long answers are kept, in seconds.
    pub open spec fn ttl(self) -> Result<nat, Seq<char>> {
        number_or("CACHE_TTL_SECS"@, self.cache_ttl_secs, 300)
    }

    /// How long answers that soon grow old are kept, in seconds, before it is held to `ttl`.
    pub open spec fn ttl_volatile(self) -> Result<nat, Seq<char>> {
        number_or("CACHE_TTL_VOLATILE_SECS"@, self.cache_ttl_volatile_secs, 120)
    }

    /// How many bytes the cache holds.
    pub open spec fn max_bytes(self) -> Result<nat, Seq<char>> {
        number_or("CACHE_MAX_BYTES"@, self.cache_max_bytes, 268435456)
    }

    /// How long an upstream request may take, in seconds.
    pub open spec fn timeout(self) -> Result<nat, Seq<char>> {
        number_or("REQUEST_TIMEOUT_SECS"@, self.request_timeout_secs, 30)
    }

    /// The key that clients have to send, where one is set and not empty.
    pub open spec fn client_key(self) -> Option<Seq<char>> {
        match self.search_api_key {
            Some(k) => if k.len() == 0 {
                None
            } else {
                Some(k)
            },
            None => None,
        }
    }

    /// Who may cache. Unless it is set: anyone where no key is asked for, since answers are then
    /// the same for all; the client alone where one is.
    pub open spec fn cdn(self) -> Result<CdnCacheMode, Seq<char>> {
        match self.cdn_cache {
            Some(v) => parsed_cdn_mode(v),
            None => Ok(
                if self.client_key() is Some {
                    CdnCacheMode::Private
                } else {
                    CdnCacheMode::Public
                },
            ),
        }
    }

    /// The settings, or what is wrong with the first variable that is, in the order in which they
    /// are read.
    pub open spec fn config(self) -> Result<ConfigView, Seq<char>> {
        if self.parallel_api_key is None || self.parallel_api_key->0.len() == 0 {
            Err("PARALLEL_API_KEY is required"@)
        } else if self.mode() is Err {
            Err(self.mode()->Err_0)
        } else if self.ttl() is Err {
            Err(self.ttl()->Err_0)
        } else if self.ttl_volatile() is Err {
            Err(self.ttl_volatile()->Err_0)
        } else if self.max_bytes() is Err {
            Err(self.max_bytes()->Err_0)
        } else if self.timeout() is Err {
            Err(self.timeout()->Err_0)
        } else if self.cdn() is Err {
            Err(self.cdn()->Err_0)
        } else {
            let ttl = self.ttl()->Ok_0;
            let volatile = self.ttl_volatile()->Ok_0;
            Ok(
                ConfigView {
                    bind: text_or(self.host, "0.0.0.0"@) + ":"@ + text_or(self.port, "8080"@),
                    parallel_api_key: self.parallel_api_key->0,
                    parallel_base_url: text_or(self.parallel_base_url, "https://api.parallel.ai"@),
                    default_mode: self.mode()->Ok_0,
                    cache_ttl: ttl * NANOS_PER_SEC as nat,
                    cache_ttl_volatile: if volatile <= ttl {
                        volatile * NANOS_PER_SEC as nat
                    } else {
                        ttl * NANOS_PER_SEC as nat
                    },
                    cache_max_bytes: self.max_bytes()->Ok_0,
                    search_api_key: self.client_key(),
                    request_timeout: self.timeout()->Ok_0 * NANOS_PER_SEC as nat,
                    cdn_cache: self.cdn()->Ok_0,
                },
            )
        }
    }
}

/// The number that the variable `name` is set to, or the default where it is not set.
fn parse_u64_env(name: &str, value: &Option<String>, default: u64) -> (r: Result<u64, String>)
    ensures
        match r {
            Ok(n) => number_or(name@, opt_text(*value), default as nat) == Ok::<nat, Seq<char>>(
                n as nat,
            ),
            Err(e) => number_or(name@, opt_text(*value), default as nat) == Err::<nat, Seq<char>>(
                e@,
            ),
        },
{
    match value {
        None => Ok(default),
        Some(v) => match parse_u64(v.as_str()) {
            Some(n) => Ok(n),
            None => {
                let mut message = name.to_string();
                message.append(" must be a positive integer");
                Err(message)
            },
        },
    }
}

fn text_or_default(value: Option<String>, default: &str) -> (r: String)
    ensures
        r@ == text_or(opt_text(value), default@),
{
    match value {
        Some(v) => v,
        None => default.to_string(),
    }
}

impl Config {
    /// The settings, or what is wrong with the first variable that is, in the order in which they
    /// are read.
    pub fn from_env(vars: EnvVars) -> (r: Result<Config, String>)
        ensures
            match r {
                Ok(c) => vars@.config() == Ok::<ConfigView, Seq<char>>(c@),
                Err(e) => vars@.config() == Err::<ConfigView, Seq<char>>(e@),
            },
    {
        let ghost env = vars@;
        let parallel_api_key = match vars.parallel_api_key {
            Some(k) => k,
            None => {
                return Err("PARALLEL_API_KEY is required".to_string());
            },
        };
        if parallel_api_key.as_str().is_empty() {
            return Err("PARALLEL_API_KEY is required".to_string());
        }
        let default_mode = match &vars.default_mode {
            Some(v) => match SearchMode::parse(v.as_str()) {
                Ok(m) => m,
                Err(e) => {
                    return Err(e);
                },
            },
            None => SearchMode::Turbo,
        };
        let ttl: u64 = match parse_u64_env("CACHE_TTL_SECS", &vars.cache_ttl_secs, 300) {
            Ok(n) => n,
            Err(e) => {
                return Err(e);
            },
        };
        let ttl_volatile: u64 = match parse_u64_env(
            "CACHE_TTL_VOLATILE_SECS",
            &vars.cache_ttl_volatile_secs,
            120,
        ) {
            Ok(n) => n,
            Err(e) => {
                return Err(e);
            },
        };
        let cache_max_bytes: u64 = match parse_u64_env(
            "CACHE_MAX_BYTES",
            &vars.cache_max_bytes,
            268435456,
        ) {
            Ok(n) => n,
            Err(e) => {
                return Err(e);
            },
        };
        let timeout: u64 = match parse_u64_env(
            "REQUEST_TIMEOUT_SECS",
            &vars.request_timeout_secs,
            30,
        ) {
            Ok(n) => n,
            Err(e) => {
                return Err(e);
            },
        };
        let search_api_key: Option<String> = match vars.search_api_key {
            Some(k) => if k.as_str().is_empty() {
                None
            } else {
                Some(k)
            },
            None => None,
        };
        let cdn_cache = match &vars.cdn_cache {
            Some(v) => match CdnCacheMode::parse(v.as_str()) {
                Ok(m) => m,
                Err(e) => {
                    return Err(e);
                },
            },
            None => if search_api_key.is_some() {
                CdnCacheMode::Private
            } else {
                CdnCacheMode::Public
            },
        };
        let mut bind = text_or_default(vars.host, "0.0.0.0");
        bind.append(":");
        bind.append(text_or_default(vars.port, "8080").as_str());
        let cache_ttl = TimeSpan::from_secs(ttl);
        let config = Config {
            bind,
            parallel_api_key,
            parallel_base_url: text_or_default(vars.parallel_base_url, "https://api.parallel.ai"),
            default_mode,
            cache_ttl,
            // Answers that soon grow old must not live longer than the others, however far the
            // lifetime of those is turned down.
            cache_ttl_volatile: TimeSpan::from_secs(ttl_volatile).min(cache_ttl),
            cache_max_bytes,
            search_api_key,
            request_timeout: TimeSpan::from_secs(timeout),
            cdn_cache,
        };
        assert(env.config() == Ok::<ConfigView, Seq<char>>(config@));
        Ok(config)
    }
}

/// Answers that soon grow old are never kept longer than the others.
pub proof fn law_volatile_is_no_longer(env: EnvView)
    ensures
        env.config() matches Ok(c) ==> c.cache_ttl_volatile <= c.cache_ttl,
{
    if env.config() is Ok {
        let ttl = env.ttl()->Ok_0;
        let volatile = env.ttl_volatile()->Ok_0;
        if volatile <= ttl {
            assert(volatile * NANOS_PER_SEC as nat <= ttl * NANOS_PER_SEC as nat) by (nonlinear_arith)
                requires
                    volatile <= ttl,
            ;
        }
    }
}

/// Where a key is asked for and nothing is said of caching, no shared cache may hold answers.
pub proof fn law_keyed_answers_stay_private(env: EnvView)
    requires
        env.cdn_cache is None,
    ensures
        env.config() matches Ok(c) ==> (c.search_api_key is Some ==> c.cdn_cache
            == CdnCacheMode::Private) && (c.search_api_key is None ==> c.cdn_cache
            == CdnCacheMode::Public),
{
}

/// How many threads to work with: the number that is set, or 4 where none is.
pub fn worker_threads(var: Option<String>) -> (r: usize)
    ensures
        r == match opt_text(var) {
            Some(v) => match bounded_value(v, usize::MAX as nat) {
                Some(n) => n,
                None => 4,
            },
            None => 4,
        },
{
    match var {
        Some(v) => match parse_u64(v.as_str()) {
            Some(n) => if n <= usize::MAX as u64 {
                n as usize
            } else {
                4
            },
            None => 4,
        },
        None => 4,
    }
}

} // verus!
