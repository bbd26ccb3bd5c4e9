//! Application configuration: its shape, its defaults, and the mihomo
//! controller endpoint derived from a mihomo configuration.
use vstd::prelude::*;
use crate::text::{starts_with, starts_with_str, chars_of, string_of};
use crate::converter::types::strs;

verus! {

/// Listening address and run mode of the HTTP server.
#[derive(Debug, Clone)]
pub struct ServerConfig {
    pub port: String,
    pub host: String,
    pub mode: String,
}

/// How one kind of traffic is steered to the proxy core.
#[derive(Debug, Clone, Copy, PartialEq, Eq, Structural)]
pub enum RoutingMode {
    Tun,
    TProxy,
    Redirect,
    Disable,
}

/// Traffic steering for TCP and UDP, and the TUN device name.
#[derive(Debug, Clone)]
pub struct RoutingConfig {
    pub tcp: RoutingMode,
    pub udp: RoutingMode,
    pub tun_device: String,
}

/// Where the mihomo core and its files live, and how it is run.
#[derive(Debug, Clone)]
pub struct MihomoConfig {
    pub core_path: String,
    pub config_path: String,
    pub working_dir: String,
    pub auto_restart: bool,
    pub auto_start: bool,
    pub log_file: String,
    pub api_url: String,
    pub api_secret: String,
    pub routing: RoutingConfig,
}

/// Application log settings.
#[derive(Debug, Clone)]
pub struct LoggingConfig {
    pub level: String,
    pub file: String,
    pub max_size: i32,
    pub max_backups: i32,
    pub max_age: i32,
}

/// Cross-origin settings of the HTTP API.
#[derive(Debug, Clone)]
pub struct CorsConfig {
    pub enabled: bool,
    pub allowed_origins: Vec<String>,
    pub allowed_methods: Vec<String>,
    pub allowed_headers: Vec<String>,
    pub expose_headers: Vec<String>,
    pub allow_credentials: bool,
    pub max_age: i32,
}

/// HTTP API settings.
#[derive(Debug, Clone)]
pub struct ApiConfig {
    pub rate_limit: i32,
    pub timeout: i32,
    pub enable_swagger: bool,
    pub cors: CorsConfig,
}

/// The whole application configuration.
#[derive(Debug, Clone)]
pub struct Config {
    pub server: ServerConfig,
    pub mihomo: MihomoConfig,
    pub logging: LoggingConfig,
    pub api: ApiConfig,
}

/// Lower-case name of a routing mode.
pub open spec fn routing_mode_name(m: RoutingMode) -> Seq<char> {
    match m {
        RoutingMode::Tun => "tun"@,
        RoutingMode::TProxy => "tproxy"@,
        RoutingMode::Redirect => "redirect"@,
        RoutingMode::Disable => "disable"@,
    }
}

impl RoutingMode {
    /// Lower-case name of the mode, as written in configuration files.
    pub fn as_str(&self) -> (r: &'static str)
        ensures
            r@ == routing_mode_name(*self),
    {
        match self {
            RoutingMode::Tun => "tun",
            RoutingMode::TProxy => "tproxy",
            RoutingMode::Redirect => "redirect",
            RoutingMode::Disable => "disable",
        }
    }
}

impl Default for RoutingMode {
    /// Routing is off unless configured.
    fn default() -> (r: Self)
        ensures
            r == RoutingMode::Disable,
    {
        RoutingMode::Disable
    }
}

/// An environment value, or the fallback when it is unset.
pub open spec fn env_or(v: Option<Seq<char>>, fallback: Seq<char>) -> Seq<char> {
    match v {
        Some(s) => s,
        None => fallback,
    }
}

/// View of an optional string.
pub open spec fn opt_seq(o: Option<String>) -> Option<Seq<char>> {
    match o {
        Some(s) => Some(s@),
        None => None,
    }
}

fn or_text(v: Option<String>, fallback: &str) -> (r: String)
    ensures
        r@ == env_or(opt_seq(v), fallback@),
{
    match v {
        Some(s) => s,
        None => String::from_str(fallback),
    }
}

/// Server port: the `PORT` environment value, or `8080`.
pub fn default_port(env_port: Option<String>) -> (r: String)
    ensures
        r@ == env_or(opt_seq(env_port), "8080"@),
{
    or_text(env_port, "8080")
}

/// Server host: the `HOST` environment value, or `0.0.0.0`.
pub fn default_host(env_host: Option<String>) -> (r: String)
    ensures
        r@ == env_or(opt_seq(env_host), "0.0.0.0"@),
{
    or_text(env_host, "0.0.0.0")
}

/// Server mode: the `GIN_MODE` environment value, or `release`.
pub fn default_mode(env_mode: Option<String>) -> (r: String)
    ensures
        r@ == env_or(opt_seq(env_mode), "release"@),
{
    or_text(env_mode, "release")
}

/// Log level: the `LOG_LEVEL` environment value, or `info`.
pub fn default_log_level(env_level: Option<String>) -> (r: String)
    ensures
        r@ == env_or(opt_seq(env_level), "info"@),
{
    or_text(env_level, "info")
}

/// Values of the environment variables the defaults read
/// (`PORT`, `HOST`, `GIN_MODE`, `LOG_LEVEL`), `None` when unset.
pub struct EnvDefaults {
    pub port: Option<String>,
    pub host: Option<String>,
    pub mode: Option<String>,
    pub log_level: Option<String>,
}

impl ServerConfig {
    /// The default server settings under the given environment.
    pub fn with_env(env: &EnvDefaults) -> (r: Self)
        ensures
            r.port@ == env_or(opt_seq(env.port), "8080"@),
            r.host@ == env_or(opt_seq(env.host), "0.0.0.0"@),
            r.mode@ == env_or(opt_seq(env.mode), "release"@),
    {
        ServerConfig {
            port: default_port(env.port.clone()),
            host: default_host(env.host.clone()),
            mode: default_mode(env.mode.clone()),
        }
    }
}

/// Default TUN device name.
pub fn default_tun_device() -> (r: String)
    ensures
        r@ == "Meta"@,
{
    String::from_str("Meta")
}

impl Default for RoutingConfig {
    /// TCP redirected, UDP through TUN, device `Meta`.
    fn default() -> (r: Self)
        ensures
            r.tcp == RoutingMode::Redirect,
            r.udp == RoutingMode::Tun,
            r.tun_device@ == "Meta"@,
    {
        RoutingConfig { tcp: RoutingMode::Redirect, udp: RoutingMode::Tun, tun_device: default_tun_device() }
    }
}

/// Default path of the mihomo binary.
pub fn default_core_path() -> (r: String)
    ensures
        r@ == "/usr/bin/mihomo"@,
{
    String::from_str("/usr/bin/mihomo")
}

/// Default path of the active mihomo configuration.
pub fn default_config_path() -> (r: String)
    ensures
        r@ == "/etc/fusiontunx/configs/config.yaml"@,
{
    String::from_str("/etc/fusiontunx/configs/config.yaml")
}

/// Default working directory of mihomo.
pub fn default_working_dir() -> (r: String)
    ensures
        r@ == "/etc/fusiontunx"@,
{
    String::from_str("/etc/fusiontunx")
}

/// Default of the flags that are on unless configured.
pub fn default_true() -> (r: bool)
    ensures
        r,
{
    true
}

/// Default mihomo log file.
pub fn default_log_file() -> (r: String)
    ensures
        r@ == "/var/log/mihomo.log"@,
{
    String::from_str("/var/log/mihomo.log")
}

impl Default for MihomoConfig {
    /// The default core settings.
    fn default() -> (r: Self)
        ensures
            r.core_path@ == "/usr/bin/mihomo"@,
            r.config_path@ == "/etc/fusiontunx/configs/config.yaml"@,
            r.working_dir@ == "/etc/fusiontunx"@,
            r.auto_restart,
            !r.auto_start,
            r.log_file@ == "/var/log/mihomo.log"@,
            r.api_url@ == Seq::<char>::empty(),
            r.api_secret@ == Seq::<char>::empty(),
            r.routing.tcp == RoutingMode::Redirect,
            r.routing.udp == RoutingMode::Tun,
            r.routing.tun_device@ == "Meta"@,
    {
        MihomoConfig {
            core_path: default_core_path(),
            config_path: default_config_path(),
            working_dir: default_working_dir(),
            auto_restart: true,
            auto_start: false,
            log_file: default_log_file(),
            api_url: String::new(),
            api_secret: String::new(),
            routing: RoutingConfig::default(),
        }
    }
}

/// Default application log file.
pub fn default_app_log_file() -> (r: String)
    ensures
        r@ == "/var/log/fusiontunx.log"@,
{
    String::from_str("/var/log/fusiontunx.log")
}

/// Default maximum log size, in megabytes.
pub fn default_max_size() -> (r: i32)
    ensures
        r == 100,
{
    100
}

/// Default number of kept log backups.
pub fn default_max_backups() -> (r: i32)
    ensures
        r == 3,
{
    3
}

/// Default maximum log age, in days.
pub fn default_max_age() -> (r: i32)
    ensures
        r == 28,
{
    28
}

impl LoggingConfig {
    /// The default log settings under the given environment.
    pub fn with_env(env: &EnvDefaults) -> (r: Self)
        ensures
            r.level@ == env_or(opt_seq(env.log_level), "info"@),
            r.file@ == "/var/log/fusiontunx.log"@,
            r.max_size == 100,
            r.max_backups == 3,
            r.max_age == 28,
    {
        LoggingConfig {
            level: default_log_level(env.log_level.clone()),
            file: default_app_log_file(),
            max_size: default_max_size(),
            max_backups: default_max_backups(),
            max_age: default_max_age(),
        }
    }
}

/// Default request rate limit.
pub fn default_rate_limit() -> (r: i32)
    ensures
        r == 100,
{
    100
}

/// Default request timeout, in seconds.
pub fn default_timeout() -> (r: i32)
    ensures
        r == 30,
{
    30
}

fn texts2(a: &str, b: &str, c: &str) -> (r: Vec<String>)
    ensures
        strs(r@) == seq![a@, b@, c@],
{
    let r = vec![String::from_str(a), String::from_str(b), String::from_str(c)];
    assert(strs(r@) =~= seq![a@, b@, c@]);
    r
}

/// Default allowed origins.
pub fn default_origins() -> (r: Vec<String>)
    ensures
        strs(r@) == seq!["http://localhost:3000"@, "http://192.168.2.1:3000"@, "http://127.0.0.1:3000"@],
{
    texts2("http://localhost:3000", "http://192.168.2.1:3000", "http://127.0.0.1:3000")
}

/// Default allowed methods.
pub fn default_methods() -> (r: Vec<String>)
    ensures
        strs(r@) == seq!["GET"@, "POST"@, "PUT"@, "DELETE"@, "OPTIONS"@],
{
    let r = vec![
        String::from_str("GET"),
        String::from_str("POST"),
        String::from_str("PUT"),
        String::from_str("DELETE"),
        String::from_str("OPTIONS"),
    ];
    assert(strs(r@) =~= seq!["GET"@, "POST"@, "PUT"@, "DELETE"@, "OPTIONS"@]);
    r
}

/// Default allowed request headers.
pub fn default_headers() -> (r: Vec<String>)
    ensures
        strs(r@) == seq!["Content-Type"@, "Authorization"@, "X-Requested-With"@],
{
    texts2("Content-Type", "Authorization", "X-Requested-With")
}

/// Default exposed response headers.
pub fn default_expose_headers() -> (r: Vec<String>)
    ensures
        strs(r@) == seq!["Content-Length"@],
{
    let r = vec![String::from_str("Content-Length")];
    assert(strs(r@) =~= seq!["Content-Length"@]);
    r
}

/// Default preflight cache time, in seconds.
pub fn default_cors_max_age() -> (r: i32)
    ensures
        r == 3600,
{
    3600
}

impl Default for CorsConfig {
    /// CORS on, for the local dashboard origins, with credentials.
    fn default() -> (r: Self)
        ensures
            r.enabled,
            strs(r.allowed_origins@) == seq![
                "http://localhost:3000"@,
                "http://192.168.2.1:3000"@,
                "http://127.0.0.1:3000"@,
            ],
            strs(r.allowed_methods@) == seq!["GET"@, "POST"@, "PUT"@, "DELETE"@, "OPTIONS"@],
            strs(r.allowed_headers@) == seq!["Content-Type"@, "Authorization"@, "X-Requested-With"@],
            strs(r.expose_headers@) == seq!["Content-Length"@],
            r.allow_credentials,
            r.max_age == 3600,
    {
        CorsConfig {
            enabled: true,
            allowed_origins: default_origins(),
            allowed_methods: default_methods(),
            allowed_headers: default_headers(),
            expose_headers: default_expose_headers(),
            allow_credentials: true,
            max_age: default_cors_max_age(),
        }
    }
}

impl Default for ApiConfig {
    /// Rate limit 100, timeout 30 s, API docs on, default CORS.
    fn default() -> (r: Self)
        ensures
            r.rate_limit == 100,
            r.timeout == 30,
            r.enable_swagger,
            r.cors.enabled,
            r.cors.allow_credentials,
            r.cors.max_age == 3600,
            strs(r.cors.allowed_origins@) == seq![
                "http://localhost:3000"@,
                "http://192.168.2.1:3000"@,
                "http://127.0.0.1:3000"@,
            ],
            strs(r.cors.allowed_methods@) == seq!["GET"@, "POST"@, "PUT"@, "DELETE"@, "OPTIONS"@],
            strs(r.cors.allowed_headers@) == seq!["Content-Type"@, "Authorization"@, "X-Requested-With"@],
            strs(r.cors.expose_headers@) == seq!["Content-Length"@],
    {
        ApiConfig {
            rate_limit: default_rate_limit(),
            timeout: default_timeout(),
            enable_swagger: true,
            cors: CorsConfig::default(),
        }
    }
}

impl Config {
    /// The default configuration under the given environment.
    pub fn with_env(env: &EnvDefaults) -> (r: Self)
        ensures
            r.server.port@ == env_or(opt_seq(env.port), "8080"@),
            r.server.host@ == env_or(opt_seq(env.host), "0.0.0.0"@),
            r.server.mode@ == env_or(opt_seq(env.mode), "release"@),
            r.logging.level@ == env_or(opt_seq(env.log_level), "info"@),
            r.logging.file@ == "/var/log/fusiontunx.log"@,
            r.mihomo.working_dir@ == "/etc/fusiontunx"@,
            r.mihomo.config_path@ == "/etc/fusiontunx/configs/config.yaml"@,
            r.mihomo.core_path@ == "/usr/bin/mihomo"@,
            r.mihomo.log_file@ == "/var/log/mihomo.log"@,
            r.mihomo.api_url@ == Seq::<char>::empty(),
            r.mihomo.api_secret@ == Seq::<char>::empty(),
            r.mihomo.routing.tcp == RoutingMode::Redirect,
            r.mihomo.routing.udp == RoutingMode::Tun,
            r.mihomo.routing.tun_device@ == "Meta"@,
            !r.mihomo.auto_start,
            r.mihomo.auto_restart,
            r.logging.max_size == 100,
            r.logging.max_backups == 3,
            r.logging.max_age == 28,
            r.api.rate_limit == 100,
            r.api.timeout == 30,
            r.api.enable_swagger,
            r.api.cors.enabled,
            r.api.cors.allow_credentials,
            r.api.cors.max_age == 3600,
            strs(r.api.cors.allowed_origins@) == seq![
                "http://localhost:3000"@,
                "http://192.168.2.1:3000"@,
                "http://127.0.0.1:3000"@,
            ],
            strs(r.api.cors.allowed_methods@) == seq!["GET"@, "POST"@, "PUT"@, "DELETE"@, "OPTIONS"@],
            strs(r.api.cors.allowed_headers@) == seq!["Content-Type"@, "Authorization"@, "X-Requested-With"@],
            strs(r.api.cors.expose_headers@) == seq!["Content-Length"@],
    {
        Config {
            server: ServerConfig::with_env(env),
            mihomo: MihomoConfig::default(),
            logging: LoggingConfig::with_env(env),
            api: ApiConfig::default(),
        }
    }

    /// Whether the mihomo configuration should be read for the
    /// controller endpoint: a configuration path is set.
    pub fn wants_controller(&self) -> (r: bool)
        ensures
            r == (self.mihomo.config_path@.len() > 0),
    {
        !self.mihomo.config_path.as_str().is_empty()
    }

    /// Takes the controller URL and secret read from the mihomo
    /// configuration, when they could be read.
    pub fn apply_controller(&mut self, endpoint: Option<(String, String)>)
        ensures
            match endpoint {
                Some((url, secret)) => final(self).mihomo.api_url@ == url@
                    && final(self).mihomo.api_secret@ == secret@,
                None => final(self).mihomo.api_url@ == old(self).mihomo.api_url@
                    && final(self).mihomo.api_secret@ == old(self).mihomo.api_secret@,
            },
            final(self).mihomo.config_path@ == old(self).mihomo.config_path@,
            final(self).mihomo.working_dir@ == old(self).mihomo.working_dir@,
            final(self).mihomo.routing.tcp == old(self).mihomo.routing.tcp,
            final(self).mihomo.routing.udp == old(self).mihomo.routing.udp,
    {
        if let Some((url, secret)) = endpoint {
            self.mihomo.api_url = url;
            self.mihomo.api_secret = secret;
        }
    }
}

/// Controller address of a mihomo configuration: `external-controller`,
/// or `127.0.0.1:9090` when missing or empty.
pub open spec fn controller_of(external_controller: Option<Seq<char>>) -> Seq<char> {
    match external_controller {
        Some(c) => if c.len() == 0 {
            "127.0.0.1:9090"@
        } else {
            c
        },
        None => "127.0.0.1:9090"@,
    }
}

/// API URL of a controller address: prefixed with `http://` unless it
/// already names `http://` or `https://`.
pub open spec fn api_url_of(controller: Seq<char>) -> Seq<char> {
    if !starts_with(controller, "http://"@) && !starts_with(controller, "https://"@) {
        "http://"@ + controller
    } else {
        controller
    }
}

/// The API URL and secret of a mihomo configuration, from its
/// `external-controller` and `secret` entries.
pub fn mihomo_endpoint(external_controller: Option<String>, secret: Option<String>) -> (r: (
    String,
    String,
))
    ensures
        r.0@ == api_url_of(controller_of(opt_seq(external_controller))),
        r.1@ == env_or(opt_seq(secret), Seq::<char>::empty()),
{
    let mut controller = match external_controller {
        Some(c) => c,
        None => String::from_str("127.0.0.1:9090"),
    };
    if controller.as_str().is_empty() {
        controller = String::from_str("127.0.0.1:9090");
    }
    let cc = chars_of(controller.as_str());
    let api_url = if !starts_with_str(&cc, "http://") && !starts_with_str(&cc, "https://") {
        let mut v = chars_of("http://");
        crate::text::push_chars(&mut v, &cc);
        string_of(&v)
    } else {
        controller
    };
    let s = match secret {
        Some(s) => s,
        None => String::new(),
    };
    (api_url, s)
}

} // verus!
