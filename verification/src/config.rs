//! Configuration: what the environment says, read into values with defaults.
//! The caller reads the variables; what their texts mean is decided here.

use crate::text::{
    chars_of, eq_ignore_ascii_case, folds_to, opt_str_text, opt_text, parse_decimal,
    parse_unsigned,
};
use crate::retry::{DEFAULT_RETRY_ATTEMPTS, DEFAULT_RETRY_DELAY_MS, DEFAULT_RETRY_MAX_DELAY_MS};
use crate::utils::{join_path, joined};
use vstd::prelude::*;
use vstd::string::StrSliceExecFns;
use vstd::string::StringExecFns;

verus! {

/// Name of the cache directory below the user's cache directory.
pub const DEFAULT_CACHE_DIR_NAME: &'static str = "gaggle";

/// Seconds after which a request times out, where nothing is configured.
pub const DEFAULT_HTTP_TIMEOUT_SECS: u64 = 30;

/// Milliseconds to wait for a download by somebody else, where nothing is configured.
pub const DEFAULT_DOWNLOAD_WAIT_TIMEOUT_MS: u64 = 30000;

/// Milliseconds between two looks at a download by somebody else, where nothing is
/// configured.
pub const DEFAULT_DOWNLOAD_WAIT_POLL_MS: u64 = 100;

/// Cache budget in megabytes, where nothing is configured: 100 GB.
pub const DEFAULT_CACHE_SIZE_LIMIT_MB: u64 = 102400;

/// Base address of the remote service, where nothing is configured.
pub const DEFAULT_API_BASE: &'static str = "https://www.kaggle.com/api/v1";

/// Seconds for which metadata is served from memory, where nothing is configured.
pub const DEFAULT_METADATA_TTL_SECS: u64 = 600;

/// What the caller found in the environment. A variable that is not set is `None`.
#[derive(Debug, Clone, PartialEq, Eq)]
pub struct Environment {
    /// `GAGGLE_CACHE_DIR`.
    pub cache_dir: Option<String>,
    /// The user's cache directory, where the platform names one.
    pub platform_cache_dir: Option<String>,
    /// `GAGGLE_VERBOSE`.
    pub verbose: Option<String>,
    /// `GAGGLE_HTTP_TIMEOUT`.
    pub http_timeout: Option<String>,
    /// `GAGGLE_DOWNLOAD_WAIT_TIMEOUT`, a number of seconds, in milliseconds; `None`
    /// where the variable holds no number.
    pub download_wait_timeout_ms: Option<u64>,
    /// `GAGGLE_DOWNLOAD_WAIT_POLL`, a number of seconds, in milliseconds; `None` where
    /// the variable holds no number.
    pub download_wait_poll_ms: Option<u64>,
}

impl Environment {
    /// An environment in which nothing is set.
    pub fn empty() -> (r: Environment)
        ensures
            r.cache_dir is None,
            r.platform_cache_dir is None,
            r.verbose is None,
            r.http_timeout is None,
            r.download_wait_timeout_ms is None,
            r.download_wait_poll_ms is None,
    {
        Environment {
            cache_dir: None,
            platform_cache_dir: None,
            verbose: None,
            http_timeout: None,
            download_wait_timeout_ms: None,
            download_wait_poll_ms: None,
        }
    }
}

/// Configuration of the engine.
#[derive(Debug, Clone, PartialEq, Eq)]
pub struct GaggleConfig {
    /// Directory in which datasets are cached.
    pub cache_dir: String,
    /// Whether logging is verbose.
    pub verbose_logging: bool,
    /// Seconds after which a request times out.
    pub http_timeout_secs: u64,
    /// Milliseconds to wait for a download by somebody else.
    pub download_wait_timeout_ms: u64,
    /// Milliseconds between two looks at a download by somebody else.
    pub download_wait_poll_ms: u64,
}

/// Whether a text says yes: `1`, `true`, `yes` or `on`, in any ASCII case.
pub open spec fn says_yes(value: Seq<char>) -> bool {
    folds_to(value, "1"@) || folds_to(value, "true"@) || folds_to(value, "yes"@) || folds_to(
        value,
        "on"@,
    )
}

/// The cache directory that a configuration names: the one that is set, unless it is
/// empty; otherwise `gaggle` below the user's cache directory, or below `.` where the
/// platform names none.
pub open spec fn cache_dir_of(env: Environment) -> Seq<char> {
    match env.cache_dir {
        Some(dir) if dir@.len() > 0 => dir@,
        _ => match env.platform_cache_dir {
            Some(base) => joined(base@, DEFAULT_CACHE_DIR_NAME@),
            None => joined("."@, DEFAULT_CACHE_DIR_NAME@),
        },
    }
}

/// The number that a text denotes, or `default` where it denotes none that fits.
pub open spec fn number_or(value: Option<Seq<char>>, max: u64, default: u64) -> u64 {
    match value {
        Some(text) => match parse_unsigned(text, max as nat) {
            Some(n) => n as u64,
            None => default,
        },
        None => default,
    }
}

/// Whether a text says yes.
pub fn parse_flag(value: &str) -> (r: bool)
    ensures
        r == says_yes(value@),
{
    eq_ignore_ascii_case(value, "1") || eq_ignore_ascii_case(value, "true")
        || eq_ignore_ascii_case(value, "yes") || eq_ignore_ascii_case(value, "on")
}

/// The number that `value` denotes, or `default`.
pub fn parse_number_or(value: Option<&str>, max: u64, default: u64) -> (r: u64)
    ensures
        r == number_or(opt_str_text(value), max, default),
{
    match value {
        Some(text) => match parse_decimal(text, max) {
            Some(n) => n,
            None => default,
        },
        None => default,
    }
}

impl GaggleConfig {
    /// The configuration that an environment gives.
    pub open spec fn matches_env(self, env: Environment) -> bool {
        &&& self.cache_dir@ == cache_dir_of(env)
        &&& self.verbose_logging == (env.verbose matches Some(v) && says_yes(v@))
        &&& self.http_timeout_secs == number_or(
            opt_text(env.http_timeout),
            u64::MAX,
            DEFAULT_HTTP_TIMEOUT_SECS,
        )
        &&& self.download_wait_timeout_ms == match env.download_wait_timeout_ms {
            Some(ms) => ms,
            None => DEFAULT_DOWNLOAD_WAIT_TIMEOUT_MS,
        }
        &&& self.download_wait_poll_ms == match env.download_wait_poll_ms {
            Some(ms) => ms,
            None => DEFAULT_DOWNLOAD_WAIT_POLL_MS,
        }
    }

    /// Reads the configuration from what the caller found in the environment.
    pub fn from_env(env: &Environment) -> (r: GaggleConfig)
        ensures
            r.matches_env(*env),
    {
        let cache_dir = Self::get_cache_dir(env);
        let verbose_logging = match &env.verbose {
            Some(v) => parse_flag(v.as_str()),
            None => false,
        };
        let http_timeout_secs = match &env.http_timeout {
            Some(v) => parse_number_or(Some(v.as_str()), u64::MAX, DEFAULT_HTTP_TIMEOUT_SECS),
            None => DEFAULT_HTTP_TIMEOUT_SECS,
        };
        let download_wait_timeout_ms = match env.download_wait_timeout_ms {
            Some(ms) => ms,
            None => DEFAULT_DOWNLOAD_WAIT_TIMEOUT_MS,
        };
        let download_wait_poll_ms = match env.download_wait_poll_ms {
            Some(ms) => ms,
            None => DEFAULT_DOWNLOAD_WAIT_POLL_MS,
        };
        GaggleConfig {
            cache_dir,
            verbose_logging,
            http_timeout_secs,
            download_wait_timeout_ms,
            download_wait_poll_ms,
        }
    }

    /// The cache directory that an environment names.
    pub fn get_cache_dir(env: &Environment) -> (r: String)
        ensures
            r@ == cache_dir_of(*env),
    {
        if let Some(dir) = &env.cache_dir {
            if !dir.as_str().is_empty() {
                return dir.clone();
            }
        }
        match &env.platform_cache_dir {
            Some(base) => join_path(base.as_str(), DEFAULT_CACHE_DIR_NAME),
            None => join_path(".", DEFAULT_CACHE_DIR_NAME),
        }
    }
}

impl Default for GaggleConfig {
    /// The configuration of an environment in which nothing is set.
    fn default() -> (r: GaggleConfig)
        ensures
            r.matches_env(
                Environment {
                    cache_dir: None,
                    platform_cache_dir: None,
                    verbose: None,
                    http_timeout: None,
                    download_wait_timeout_ms: None,
                    download_wait_poll_ms: None,
                },
            ),
    {
        let env = Environment::empty();
        GaggleConfig::from_env(&env)
    }
}

/// The cache directory in force: the one that the variable names now, unless it is
/// unset or empty, and the configured one otherwise.
pub fn cache_dir_runtime(value: Option<&str>, config: &GaggleConfig) -> (r: String)
    ensures
        r@ == match value {
            Some(dir) if dir@.len() > 0 => dir@,
            _ => config.cache_dir@,
        },
{
    if let Some(dir) = value {
        if !dir.is_empty() {
            return String::from_str(dir);
        }
    }
    config.cache_dir.clone()
}

/// Seconds after which a request times out: what `GAGGLE_HTTP_TIMEOUT` holds now, or
/// the configured value.
pub fn http_timeout_runtime_secs(value: Option<&str>, config: &GaggleConfig) -> (r: u64)
    ensures
        r == number_or(opt_str_text(value), u64::MAX, config.http_timeout_secs),
{
    parse_number_or(value, u64::MAX, config.http_timeout_secs)
}

/// Retries after the first try: what `GAGGLE_HTTP_RETRY_ATTEMPTS` holds, or 3.
pub fn http_retry_attempts(value: Option<&str>) -> (r: u32)
    ensures
        r == number_or(opt_str_text(value), u32::MAX as u64, DEFAULT_RETRY_ATTEMPTS as u64),
{
    let n = parse_number_or(value, u32::MAX as u64, DEFAULT_RETRY_ATTEMPTS as u64);
    n as u32
}

/// Milliseconds of the first sleep between retries: the configured number of
/// seconds, converted by the caller, or 1000.
pub fn http_retry_delay_ms(configured_ms: Option<u64>) -> (r: u64)
    ensures
        r == match configured_ms {
            Some(ms) => ms,
            None => DEFAULT_RETRY_DELAY_MS,
        },
{
    match configured_ms {
        Some(ms) => ms,
        None => DEFAULT_RETRY_DELAY_MS,
    }
}

/// Cap on the sleep between retries, in milliseconds: the configured number of
/// seconds, converted by the caller, or 30000.
pub fn http_retry_max_delay_ms(configured_ms: Option<u64>) -> (r: u64)
    ensures
        r == match configured_ms {
            Some(ms) => ms,
            None => DEFAULT_RETRY_MAX_DELAY_MS,
        },
{
    match configured_ms {
        Some(ms) => ms,
        None => DEFAULT_RETRY_MAX_DELAY_MS,
    }
}

/// The cache budget that a text denotes: none for `unlimited` in any ASCII case and
/// for a text that is no number, the number otherwise.
pub open spec fn size_limit_of(value: Option<Seq<char>>) -> Option<u64> {
    match value {
        None => Some(DEFAULT_CACHE_SIZE_LIMIT_MB),
        Some(text) => if folds_to(text, "unlimited"@) {
            None
        } else {
            match parse_unsigned(text, u64::MAX as nat) {
                Some(n) => Some(n as u64),
                None => None,
            }
        },
    }
}

/// The cache budget in megabytes, `None` for no budget: what
/// `GAGGLE_CACHE_SIZE_LIMIT` holds, or 102400.
pub fn cache_size_limit_mb(value: Option<&str>) -> (r: Option<u64>)
    ensures
        r == size_limit_of(opt_str_text(value)),
{
    match value {
        None => Some(DEFAULT_CACHE_SIZE_LIMIT_MB),
        Some(text) => {
            if eq_ignore_ascii_case(text, "unlimited") {
                None
            } else {
                parse_decimal(text, u64::MAX)
            }
        },
    }
}

/// Whether the cache budget is soft: enforced after a download instead of standing in
/// its way. It is, unless `GAGGLE_CACHE_HARD_LIMIT` holds `true`, `yes` or `1`, in any
/// ASCII case.
pub fn cache_limit_is_soft(value: Option<&str>) -> (r: bool)
    ensures
        r == match value {
            Some(v) => !(folds_to(v@, "true"@) || folds_to(v@, "yes"@) || folds_to(v@, "1"@)),
            None => true,
        },
{
    match value {
        Some(v) => !(eq_ignore_ascii_case(v, "true") || eq_ignore_ascii_case(v, "yes")
            || eq_ignore_ascii_case(v, "1")),
        None => true,
    }
}

/// Milliseconds to wait for a download by somebody else: the number of seconds that
/// `GAGGLE_DOWNLOAD_WAIT_TIMEOUT` holds now, converted by the caller, or the
/// configured value.
pub fn download_wait_timeout_ms(configured_ms: Option<u64>, config: &GaggleConfig) -> (r: u64)
    ensures
        r == match configured_ms {
            Some(ms) => ms,
            None => config.download_wait_timeout_ms,
        },
{
    match configured_ms {
        Some(ms) => ms,
        None => config.download_wait_timeout_ms,
    }
}

/// Milliseconds between two looks at a download by somebody else: the number of
/// seconds that `GAGGLE_DOWNLOAD_WAIT_POLL` holds now, converted by the caller, or the
/// configured value.
pub fn download_wait_poll_interval_ms(configured_ms: Option<u64>, config: &GaggleConfig) -> (r:
    u64)
    ensures
        r == match configured_ms {
            Some(ms) => ms,
            None => config.download_wait_poll_ms,
        },
{
    match configured_ms {
        Some(ms) => ms,
        None => config.download_wait_poll_ms,
    }
}

/// Whether the network is off limits: `GAGGLE_OFFLINE` says yes.
pub fn offline_mode(value: Option<&str>) -> (r: bool)
    ensures
        r == (value matches Some(v) && says_yes(v@)),
{
    match value {
        Some(v) => parse_flag(v),
        None => false,
    }
}

/// Whether a failed fetch of one file is final: `GAGGLE_STRICT_ONDEMAND` says yes.
pub fn strict_on_demand(value: Option<&str>) -> (r: bool)
    ensures
        r == (value matches Some(v) && says_yes(v@)),
{
    match value {
        Some(v) => parse_flag(v),
        None => false,
    }
}

/// A text without the `/` at its end, however many there are.
pub open spec fn without_trailing_slashes(s: Seq<char>) -> Seq<char>
    decreases s.len(),
{
    if s.len() > 0 && s.last() == '/' {
        without_trailing_slashes(s.drop_last())
    } else {
        s
    }
}

/// Base address of the remote service: what `GAGGLE_API_BASE` holds, or the default,
/// without `/` at the end.
pub fn get_api_base(value: Option<&str>) -> (r: String)
    ensures
        r@ == without_trailing_slashes(
            match value {
                Some(v) => v@,
                None => DEFAULT_API_BASE@,
            },
        ),
{
    let raw: &str = match value {
        Some(v) => v,
        None => DEFAULT_API_BASE,
    };
    let v = chars_of(raw);
    let mut end: usize = v.len();
    proof {
        assert(v@.take(end as int) =~= v@);
    }
    while end > 0 && v[end - 1] == '/'
        invariant
            end <= v@.len(),
            v@ == raw@,
            without_trailing_slashes(v@) == without_trailing_slashes(v@.take(end as int)),
        decreases end,
    {
        proof {
            assert(v@.take(end as int).drop_last() =~= v@.take(end - 1));
        }
        end -= 1;
    }
    proof {
        assert(v@.take(end as int) =~= raw@.subrange(0, end as int));
    }
    String::from_str(raw.substring_char(0, end))
}

/// Milliseconds that must lie between two calls to the remote service: what
/// `GAGGLE_API_MIN_INTERVAL_MS` holds, or 0.
pub fn min_interval_ms(value: Option<&str>) -> (r: u64)
    ensures
        r == number_or(opt_str_text(value), u64::MAX, 0),
{
    parse_number_or(value, u64::MAX, 0)
}

/// Seconds for which metadata is served from memory: what `GAGGLE_METADATA_TTL`
/// holds, or 600.
pub fn metadata_ttl_secs(value: Option<&str>) -> (r: u64)
    ensures
        r == number_or(opt_str_text(value), u64::MAX, DEFAULT_METADATA_TTL_SECS),
{
    parse_number_or(value, u64::MAX, DEFAULT_METADATA_TTL_SECS)
}

} // verus!
