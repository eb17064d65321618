//! Configuration: what the file and the environment say, laid over the defaults.

use vstd::prelude::*;
use vstd::string::*;
use crate::headers;
use crate::outside;
use crate::routes;
use crate::routes::RouteTable;
use crate::text;

pub use crate::routes::ProxyRoute;

verus! {

// ---------------------------------------------------------------------------
// The configuration file
// ---------------------------------------------------------------------------

/// Server-wide configuration, as `config.toml` writes it.
#[derive(Debug, Clone)]
pub struct Config {
    pub server: ServerConfig,
    pub tls: Option<TlsConfig>,
    pub proxy: Option<Vec<ProxyRoute>>,
}

#[derive(Debug, Clone)]
pub struct ServerConfig {
    pub domain: String,
    pub email: String,
    pub host: Option<String>,
    pub port: Option<u16>,
}

#[derive(Debug, Clone)]
pub struct TlsConfig {
    pub cert_dir: Option<String>,
    pub use_staging: Option<bool>,
    /// HSTS max-age in seconds; 0 disables HSTS.
    pub hsts_max_age: Option<u32>,
    pub hsts_include_subdomains: Option<bool>,
}

// ---------------------------------------------------------------------------
// The environment
// ---------------------------------------------------------------------------

/// The environment variables that override the file, each `None` where it is not set (or is no
/// Unicode text).
#[derive(Debug, Clone)]
pub struct Environment {
    pub domain: Option<String>,
    pub email: Option<String>,
    pub host: Option<String>,
    pub port: Option<String>,
    pub cert_dir: Option<String>,
    pub use_staging: Option<String>,
    pub hsts_max_age: Option<String>,
    pub hsts_include_subdomains: Option<String>,
    pub proxy_routes: Option<String>,
}

/// Why no configuration comes out.
#[derive(Debug, Clone, Copy, PartialEq, Eq, Structural)]
pub enum ConfigError {
    InvalidPort,
    InvalidHstsMaxAge,
    MissingDomain,
    MissingEmail,
}

impl ConfigError {
    /// The text of the error.
    pub fn message(&self) -> (text: &'static str)
        ensures
            text@ == match *self {
                ConfigError::InvalidPort => "Invalid PORT"@,
                ConfigError::InvalidHstsMaxAge => "Invalid HSTS_MAX_AGE"@,
                ConfigError::MissingDomain =>
                    "DOMAIN is required (config.toml [server].domain or env var)"@,
                ConfigError::MissingEmail =>
                    "EMAIL is required (config.toml [server].email or env var)"@,
            },
    {
        match self {
            ConfigError::InvalidPort => "Invalid PORT",
            ConfigError::InvalidHstsMaxAge => "Invalid HSTS_MAX_AGE",
            ConfigError::MissingDomain =>
                "DOMAIN is required (config.toml [server].domain or env var)",
            ConfigError::MissingEmail => "EMAIL is required (config.toml [server].email or env var)",
        }
    }
}

/// The path of the configuration file: what `CONFIG_PATH` says, or `config.toml`.
pub fn config_path(variable: Option<String>) -> (path: String)
    ensures
        path@ == match variable {
            Some(text) => text@,
            None => "config.toml"@,
        },
{
    match variable {
        Some(text) => text,
        None => "config.toml".to_owned(),
    }
}

// ---------------------------------------------------------------------------
// Settings, in layers
// ---------------------------------------------------------------------------

/// The text that an optional string holds.
pub open spec fn text_of(value: Option<String>) -> Option<Seq<char>> {
    match value {
        Some(text) => Some(text@),
        None => None,
    }
}

/// What one source says of each setting.
#[verifier::ext_equal]
pub struct SettingsView {
    pub domain: Option<Seq<char>>,
    pub email: Option<Seq<char>>,
    pub host: Option<Seq<char>>,
    pub port: Option<u16>,
    pub cert_dir: Option<Seq<char>>,
    pub use_staging: Option<bool>,
    pub hsts_max_age: Option<u32>,
    pub hsts_include_subdomains: Option<bool>,
    pub routes: Map<Seq<char>, Seq<char>>,
}

/// Of two answers to one question, the later one, where there is one.
pub open spec fn later<T>(earlier: Option<T>, later: Option<T>) -> Option<T> {
    match later {
        Some(_) => later,
        None => earlier,
    }
}

impl SettingsView {
    /// A source that says nothing.
    pub open spec fn nothing() -> SettingsView {
        SettingsView {
            domain: None,
            email: None,
            host: None,
            port: None,
            cert_dir: None,
            use_staging: None,
            hsts_max_age: None,
            hsts_include_subdomains: None,
            routes: Map::empty(),
        }
    }

    /// These settings with those of a later source laid over them: each value that the later
    /// source gives replaces the one here, and its routes are added to the routes here.
    pub open spec fn under(self, other: SettingsView) -> SettingsView {
        SettingsView {
            domain: later(self.domain, other.domain),
            email: later(self.email, other.email),
            host: later(self.host, other.host),
            port: later(self.port, other.port),
            cert_dir: later(self.cert_dir, other.cert_dir),
            use_staging: later(self.use_staging, other.use_staging),
            hsts_max_age: later(self.hsts_max_age, other.hsts_max_age),
            hsts_include_subdomains: later(
                self.hsts_include_subdomains,
                other.hsts_include_subdomains,
            ),
            routes: self.routes.union_prefer_right(other.routes),
        }
    }
}

/// What the file says of each setting; a missing file says nothing.
pub open spec fn file_settings(file: Option<Config>) -> SettingsView {
    match file {
        None => SettingsView::nothing(),
        Some(config) => SettingsView {
            domain: Some(config.server.domain@),
            email: Some(config.server.email@),
            host: text_of(config.server.host),
            port: config.server.port,
            cert_dir: match config.tls {
                Some(tls) => text_of(tls.cert_dir),
                None => None,
            },
            use_staging: match config.tls {
                Some(tls) => tls.use_staging,
                None => None,
            },
            hsts_max_age: match config.tls {
                Some(tls) => tls.hsts_max_age,
                None => None,
            },
            hsts_include_subdomains: match config.tls {
                Some(tls) => tls.hsts_include_subdomains,
                None => None,
            },
            routes: match config.proxy {
                Some(list) => routes::listed_routes(list@),
                None => Map::empty(),
            },
        },
    }
}

/// The number that a variable writes, where it is a number of at most `max`.
pub open spec fn number_in(text: Seq<char>, max: nat) -> Option<nat> {
    match text::unsigned_value(text) {
        Some(n) => if n <= max {
            Some(n)
        } else {
            None
        },
        None => None,
    }
}

/// The variable is not set, or writes a number of at most `max`.
pub open spec fn is_unset_or_number(variable: Option<String>, max: nat) -> bool {
    variable matches Some(text) ==> number_in(text@, max) is Some
}

/// A text of ASCII characters with its letters in lower case.
pub open spec fn ascii_lower_case(text: Seq<char>) -> Seq<char> {
    text.map_values(|c: char| outside::ascii_lower(c))
}

/// A switch that a variable sets in ASCII characters is on where the variable says `true`, in
/// upper or lower case.
pub open spec fn is_plain_switch(variable: Option<String>, on: bool) -> bool {
    variable matches Some(text) ==> vstd::utf8::is_ascii_chars(text@) ==> on == (ascii_lower_case(
        text@,
    ) == "true"@)
}

/// The switch that a variable writes: on where it is `true` in lower case, else off.
pub open spec fn switch_of(lower: Seq<char>) -> bool {
    lower == "true"@
}

/// What the outside readers made of the variables that they read.
#[verifier::ext_equal]
pub struct ReadingsView {
    /// `USE_STAGING` in lower case.
    pub use_staging: Option<Seq<char>>,
    /// `HSTS_INCLUDE_SUBDOMAINS` in lower case.
    pub hsts_include_subdomains: Option<Seq<char>>,
    /// The routes of `PROXY_ROUTES`, where it is a JSON object of strings.
    pub routes: Option<Map<Seq<char>, Seq<char>>>,
}

/// The readings of an environment.
pub open spec fn readings_of(env: Environment) -> ReadingsView {
    ReadingsView {
        use_staging: match env.use_staging {
            Some(text) => Some(outside::lower_case(text@)),
            None => None,
        },
        hsts_include_subdomains: match env.hsts_include_subdomains {
            Some(text) => Some(outside::lower_case(text@)),
            None => None,
        },
        routes: match env.proxy_routes {
            Some(text) => outside::json_string_object(text@),
            None => None,
        },
    }
}

/// What the environment says of each setting, given the readings of its variables. A
/// `PROXY_ROUTES` that cannot be read says nothing.
pub open spec fn env_settings(env: Environment, readings: ReadingsView) -> SettingsView {
    SettingsView {
        domain: text_of(env.domain),
        email: text_of(env.email),
        host: text_of(env.host),
        port: match env.port {
            Some(text) => Some(number_in(text@, u16::MAX as nat)->0 as u16),
            None => None,
        },
        cert_dir: text_of(env.cert_dir),
        use_staging: match readings.use_staging {
            Some(lower) => Some(switch_of(lower)),
            None => None,
        },
        hsts_max_age: match env.hsts_max_age {
            Some(text) => Some(number_in(text@, u32::MAX as nat)->0 as u32),
            None => None,
        },
        hsts_include_subdomains: match readings.hsts_include_subdomains {
            Some(lower) => Some(switch_of(lower)),
            None => None,
        },
        routes: match readings.routes {
            Some(map) => map,
            None => Map::empty(),
        },
    }
}

// ---------------------------------------------------------------------------
// The resolved configuration
// ---------------------------------------------------------------------------

/// The value of the `Strict-Transport-Security` header; empty where HSTS is disabled.
pub open spec fn hsts_text(max_age: u32, include_subdomains: bool) -> Seq<char> {
    if max_age == 0 {
        Seq::empty()
    } else if include_subdomains {
        "max-age="@ + text::decimal(max_age as nat) + "; includeSubDomains"@
    } else {
        "max-age="@ + text::decimal(max_age as nat)
    }
}

/// Fully-resolved configuration with all defaults applied.
#[derive(Debug, Clone)]
pub struct ResolvedConfig {
    pub domain: String,
    pub email: String,
    pub host: String,
    pub port: u16,
    pub cert_dir: String,
    pub use_staging: bool,
    pub hsts_max_age: u32,
    pub hsts_value: String,
    pub proxy_routes: RouteTable,
}

impl ResolvedConfig {
    /// The value of the `Strict-Transport-Security` header that every answer carries; none where
    /// HSTS is disabled.
    pub fn hsts_header(&self) -> (value: Option<&str>)
        ensures
            match value {
                Some(text) => text@ == self.hsts_value@ && text@.len() > 0,
                None => self.hsts_value@.len() == 0,
            },
    {
        if self.hsts_value.as_str().is_empty() {
            None
        } else {
            Some(self.hsts_value.as_str())
        }
    }

    /// The address that the server listens on.
    pub fn bind_address(&self) -> (address: String)
        ensures
            address@ == self.host@ + ":"@ + text::decimal(self.port as nat),
    {
        let mut address = self.host.clone();
        address.append(":");
        address.append(text::decimal_text(self.port as u32).as_str());
        address
    }
}

/// What a resolved configuration holds.
#[verifier::ext_equal]
pub struct ResolvedView {
    pub domain: Seq<char>,
    pub email: Seq<char>,
    pub host: Seq<char>,
    pub port: u16,
    pub cert_dir: Seq<char>,
    pub use_staging: bool,
    pub hsts_max_age: u32,
    pub hsts_value: Seq<char>,
    pub proxy_routes: Map<Seq<char>, Seq<char>>,
}

impl View for ResolvedConfig {
    type V = ResolvedView;

    open spec fn view(&self) -> ResolvedView {
        ResolvedView {
            domain: self.domain@,
            email: self.email@,
            host: self.host@,
            port: self.port,
            cert_dir: self.cert_dir@,
            use_staging: self.use_staging,
            hsts_max_age: self.hsts_max_age,
            hsts_value: self.hsts_value@,
            proxy_routes: self.proxy_routes@,
        }
    }
}

/// The value that a source gives, or the default.
pub open spec fn or_default<T>(value: Option<T>, default: T) -> T {
    match value {
        Some(given) => given,
        None => default,
    }
}

/// The configuration that settings resolve to: a domain and an email are required, everything
/// else has a default.
pub open spec fn resolved(settings: SettingsView) -> Result<ResolvedView, ConfigError> {
    if settings.domain is None {
        Err(ConfigError::MissingDomain)
    } else if settings.email is None {
        Err(ConfigError::MissingEmail)
    } else {
        let hsts_max_age = or_default(settings.hsts_max_age, 31536000);
        Ok(
            ResolvedView {
                domain: settings.domain->0,
                email: settings.email->0,
                host: or_default(settings.host, "0.0.0.0"@),
                port: or_default(settings.port, 443),
                cert_dir: or_default(settings.cert_dir, "certs/"@),
                use_staging: or_default(settings.use_staging, true),
                hsts_max_age,
                hsts_value: hsts_text(
                    hsts_max_age,
                    or_default(settings.hsts_include_subdomains, true),
                ),
                proxy_routes: settings.routes,
            },
        )
    }
}

/// The configuration that a file and an environment resolve to: defaults, then the file, then
/// the environment, the later one winning. A number that cannot be read is reported before a
/// setting that is missing.
pub open spec fn loaded(file: Option<Config>, env: Environment, readings: ReadingsView) -> Result<
    ResolvedView,
    ConfigError,
> {
    if !is_unset_or_number(env.port, u16::MAX as nat) {
        Err(ConfigError::InvalidPort)
    } else if !is_unset_or_number(env.hsts_max_age, u32::MAX as nat) {
        Err(ConfigError::InvalidHstsMaxAge)
    } else {
        resolved(file_settings(file).under(env_settings(env, readings)))
    }
}

/// What came out holds what is expected, or fails as is expected.
pub open spec fn agrees(result: Result<ResolvedConfig, ConfigError>, expected: Result<ResolvedView, ConfigError>) -> bool {
    match result {
        Ok(config) => expected == Ok::<ResolvedView, ConfigError>(config@),
        Err(error) => expected == Err::<ResolvedView, ConfigError>(error),
    }
}

// ---------------------------------------------------------------------------
// Loading
// ---------------------------------------------------------------------------

/// What the outside readers made of the variables that they read.
#[derive(Debug)]
pub struct Readings {
    /// `USE_STAGING` in lower case.
    pub use_staging: Option<String>,
    /// `HSTS_INCLUDE_SUBDOMAINS` in lower case.
    pub hsts_include_subdomains: Option<String>,
    /// The routes of `PROXY_ROUTES`, where it is a JSON object of strings.
    pub routes: Option<Vec<(String, String)>>,
}

impl View for Readings {
    type V = ReadingsView;

    open spec fn view(&self) -> ReadingsView {
        ReadingsView {
            use_staging: text_of(self.use_staging),
            hsts_include_subdomains: text_of(self.hsts_include_subdomains),
            routes: match self.routes {
                Some(pairs) => Some(outside::pairs_as_map(pairs@)),
                None => None,
            },
        }
    }
}

fn lower_case(variable: &Option<String>) -> (lower: Option<String>)
    ensures
        text_of(lower) == match *variable {
            Some(text) => Some(outside::lower_case(text@)),
            None => None,
        },
        variable matches Some(text) ==> vstd::utf8::is_ascii_chars(text@) ==> lower->0@
            == ascii_lower_case(text@),
{
    match variable {
        Some(text) => Some(text.as_str().to_lowercase()),
        None => None,
    }
}

/// Reads the variables that hold a switch or the routes.
pub fn read_environment(env: &Environment) -> (readings: Readings)
    ensures
        readings@ == readings_of(*env),
        is_plain_switch(env.use_staging, switch_of(readings.use_staging->0@)),
        is_plain_switch(
            env.hsts_include_subdomains,
            switch_of(readings.hsts_include_subdomains->0@),
        ),
{
    Readings {
        use_staging: lower_case(&env.use_staging),
        hsts_include_subdomains: lower_case(&env.hsts_include_subdomains),
        routes: match &env.proxy_routes {
            Some(text) => match outside::read_json_string_object(text.as_str()) {
                Ok(pairs) => Some(pairs),
                Err(_) => None,
            },
            None => None,
        },
    }
}

/// Reads a variable that holds a number of at most `max`; `Err` where it is set to anything else.
fn number_variable(variable: &Option<String>, max: u32) -> (number: Result<Option<u32>, ()>)
    ensures
        match number {
            Ok(Some(n)) => variable matches Some(text) && number_in(text@, max as nat) == Some(n as nat),
            Ok(None) => variable is None,
            Err(()) => !is_unset_or_number(*variable, max as nat),
        },
{
    match variable {
        Some(text) => match text::parse_unsigned(text.as_str(), max) {
            Some(n) => Ok(Some(n)),
            None => Err(()),
        },
        None => Ok(None),
    }
}

fn switch(lower: &Option<String>) -> (on: Option<bool>)
    ensures
        on == match *lower {
            Some(text) => Some(switch_of(text@)),
            None => None,
        },
{
    match lower {
        Some(text) => Some(text::same_text(text.as_str(), "true")),
        None => None,
    }
}

/// The value of the `Strict-Transport-Security` header.
pub fn hsts_value(max_age: u32, include_subdomains: bool) -> (value: String)
    ensures
        value@ == hsts_text(max_age, include_subdomains),
{
    if max_age == 0 {
        return String::new();
    }
    let mut value = "max-age=".to_owned();
    value.append(text::decimal_text(max_age).as_str());
    if include_subdomains {
        value.append("; includeSubDomains");
    }
    value
}

/// Resolves the configuration from the file, where there is one, the environment, and the
/// readings of its variables.
pub fn load_with(file: Option<Config>, env: Environment, readings: Readings) -> (result: Result<
    ResolvedConfig,
    ConfigError,
>)
    ensures
        agrees(result, loaded(file, env, readings@)),
{
    // What the file says.
    let mut domain: Option<String> = None;
    let mut email: Option<String> = None;
    let mut host: Option<String> = None;
    let mut port: Option<u16> = None;
    let mut cert_dir: Option<String> = None;
    let mut use_staging: Option<bool> = None;
    let mut hsts_max_age: Option<u32> = None;
    let mut hsts_include_subdomains: Option<bool> = None;
    let mut proxy_routes = RouteTable::new();
    let ghost from_file = file_settings(file);
    if let Some(config) = file {
        domain = Some(config.server.domain);
        email = Some(config.server.email);
        host = config.server.host;
        port = config.server.port;
        if let Some(tls) = config.tls {
            cert_dir = tls.cert_dir;
            use_staging = tls.use_staging;
            hsts_max_age = tls.hsts_max_age;
            hsts_include_subdomains = tls.hsts_include_subdomains;
        }
        if let Some(list) = config.proxy {
            proxy_routes.insert_list(&list);
        }
    }
    assert(proxy_routes@ =~= from_file.routes);

    // What the environment says.
    let ghost from_env = env_settings(env, readings@);
    let env_port = match number_variable(&env.port, 65535) {
        Ok(number) => number,
        Err(()) => {
            return Err(ConfigError::InvalidPort);
        },
    };
    let env_hsts_max_age = match number_variable(&env.hsts_max_age, 4294967295) {
        Ok(number) => number,
        Err(()) => {
            return Err(ConfigError::InvalidHstsMaxAge);
        },
    };
    if env.domain.is_some() {
        domain = env.domain;
    }
    if env.email.is_some() {
        email = env.email;
    }
    if env.host.is_some() {
        host = env.host;
    }
    if let Some(number) = env_port {
        port = Some(number as u16);
    }
    if env.cert_dir.is_some() {
        cert_dir = env.cert_dir;
    }
    if let Some(on) = switch(&readings.use_staging) {
        use_staging = Some(on);
    }
    if let Some(number) = env_hsts_max_age {
        hsts_max_age = Some(number);
    }
    if let Some(on) = switch(&readings.hsts_include_subdomains) {
        hsts_include_subdomains = Some(on);
    }
    if let Some(pairs) = readings.routes {
        proxy_routes.insert_pairs(pairs);
    }
    assert(proxy_routes@ =~= from_file.under(from_env).routes);

    // The required fields, and the defaults of the others.
    let domain = match domain {
        Some(text) => text,
        None => {
            return Err(ConfigError::MissingDomain);
        },
    };
    let email = match email {
        Some(text) => text,
        None => {
            return Err(ConfigError::MissingEmail);
        },
    };
    let host = match host {
        Some(text) => text,
        None => "0.0.0.0".to_owned(),
    };
    let port: u16 = port.unwrap_or(443);
    let cert_dir = match cert_dir {
        Some(text) => text,
        None => "certs/".to_owned(),
    };
    let use_staging = use_staging.unwrap_or(true);
    let hsts_max_age: u32 = hsts_max_age.unwrap_or(31536000);
    let hsts_include_subdomains = hsts_include_subdomains.unwrap_or(true);
    let hsts_value = hsts_value(hsts_max_age, hsts_include_subdomains);
    Ok(
        ResolvedConfig {
            domain,
            email,
            host,
            port,
            cert_dir,
            use_staging,
            hsts_max_age,
            hsts_value,
            proxy_routes,
        },
    )
}

/// Loads the configuration from the file, where there is one, and the environment.
///
/// Resolution order (later wins): the defaults, the file, the environment.
pub fn load(file: Option<Config>, env: Environment) -> (result: Result<ResolvedConfig, ConfigError>)
    ensures
        agrees(result, loaded(file, env, readings_of(env))),
        result matches Ok(config) ==> is_plain_switch(env.use_staging, config.use_staging),
        result matches Ok(config) ==> exists|include_subdomains: bool|
            config.hsts_value@ == #[trigger] hsts_text(config.hsts_max_age, include_subdomains)
                && is_plain_switch(env.hsts_include_subdomains, include_subdomains),
{
    let readings = read_environment(&env);
    let ghost settings = file_settings(file).under(env_settings(env, readings@));
    let ghost include_subdomains = or_default(settings.hsts_include_subdomains, true);
    let result = load_with(file, env, readings);
    proof {
        assert(result matches Ok(config) ==> config.hsts_value@ == hsts_text(
            config.hsts_max_age,
            include_subdomains,
        ));
    }
    result
}

// ---------------------------------------------------------------------------
// Laws
// ---------------------------------------------------------------------------

/// A configuration comes out exactly where the environment's numbers can be read and the file or
/// the environment gives a domain and an email.
pub proof fn law_required_settings(file: Option<Config>, env: Environment, readings: ReadingsView)
    ensures
        loaded(file, env, readings) is Ok <==> {
            &&& is_unset_or_number(env.port, u16::MAX as nat)
            &&& is_unset_or_number(env.hsts_max_age, u32::MAX as nat)
            &&& file is Some || env.domain is Some
            &&& file is Some || env.email is Some
        },
{
}

/// What the environment sets wins over the file and the defaults.
pub proof fn law_environment_wins(file: Option<Config>, env: Environment, readings: ReadingsView)
    requires
        loaded(file, env, readings) is Ok,
    ensures
        ({
            let config = loaded(file, env, readings)->Ok_0;
            &&& env.domain matches Some(text) ==> config.domain == text@
            &&& env.email matches Some(text) ==> config.email == text@
            &&& env.host matches Some(text) ==> config.host == text@
            &&& env.port matches Some(text) ==> number_in(text@, u16::MAX as nat) == Some(config.port as nat)
            &&& env.cert_dir matches Some(text) ==> config.cert_dir == text@
            &&& readings.use_staging matches Some(lower) ==> config.use_staging == switch_of(lower)
            &&& env.hsts_max_age matches Some(text) ==> number_in(text@, u32::MAX as nat)
                == Some(config.hsts_max_age as nat)
            &&& readings.hsts_include_subdomains matches Some(lower) ==> config.hsts_value
                == hsts_text(config.hsts_max_age, switch_of(lower))
        }),
{
}

/// What the file sets wins over the defaults, where the environment is silent.
pub proof fn law_file_wins_over_defaults(file: Config, env: Environment, readings: ReadingsView)
    requires
        loaded(Some(file), env, readings) is Ok,
    ensures
        ({
            let config = loaded(Some(file), env, readings)->Ok_0;
            &&& env.domain is None ==> config.domain == file.server.domain@
            &&& env.email is None ==> config.email == file.server.email@
            &&& env.host is None && file.server.host is Some ==> config.host == file.server.host->0@
            &&& env.port is None && file.server.port is Some ==> config.port == file.server.port->0
            &&& file.tls matches Some(tls) ==> {
                &&& env.cert_dir is None && tls.cert_dir is Some ==> config.cert_dir == tls.cert_dir->0@
                &&& readings.use_staging is None && tls.use_staging is Some ==> config.use_staging
                    == tls.use_staging->0
                &&& env.hsts_max_age is None && tls.hsts_max_age is Some ==> config.hsts_max_age
                    == tls.hsts_max_age->0
                &&& readings.hsts_include_subdomains is None && tls.hsts_include_subdomains is Some
                    ==> config.hsts_value == hsts_text(
                    config.hsts_max_age,
                    tls.hsts_include_subdomains->0,
                )
            }
        }),
{
}

/// Where neither the file nor the environment sets a value, the default stands.
pub proof fn law_defaults(file: Option<Config>, env: Environment, readings: ReadingsView)
    requires
        loaded(file, env, readings) is Ok,
    ensures
        ({
            let config = loaded(file, env, readings)->Ok_0;
            let said = file_settings(file);
            &&& env.host is None && said.host is None ==> config.host == "0.0.0.0"@
            &&& env.port is None && said.port is None ==> config.port == 443
            &&& env.cert_dir is None && said.cert_dir is None ==> config.cert_dir == "certs/"@
            &&& readings.use_staging is None && said.use_staging is None ==> config.use_staging
            &&& env.hsts_max_age is None && said.hsts_max_age is None ==> config.hsts_max_age == 31536000
            &&& readings.hsts_include_subdomains is None && said.hsts_include_subdomains is None
                ==> config.hsts_value == hsts_text(config.hsts_max_age, true)
        }),
{
}

/// A route of `PROXY_ROUTES` wins over one of the file with the same prefix; the other routes of
/// the file stay.
pub proof fn law_environment_routes_win(
    file: Option<Config>,
    env: Environment,
    readings: ReadingsView,
    prefix: Seq<char>,
)
    requires
        loaded(file, env, readings) is Ok,
    ensures
        ({
            let table = loaded(file, env, readings)->Ok_0.proxy_routes;
            let from_file = file_settings(file).routes;
            match readings.routes {
                Some(from_env) => {
                    &&& table.contains_key(prefix) <==> from_env.contains_key(prefix)
                        || from_file.contains_key(prefix)
                    &&& from_env.contains_key(prefix) ==> table[prefix] == from_env[prefix]
                    &&& !from_env.contains_key(prefix) && from_file.contains_key(prefix)
                        ==> table[prefix] == from_file[prefix]
                },
                None => table == from_file,
            }
        }),
{
    let table = loaded(file, env, readings)->Ok_0.proxy_routes;
    if readings.routes is None {
        assert(table =~= file_settings(file).routes);
    }
}

/// Of two routes in the file with one prefix, the later one counts.
pub proof fn law_later_file_route_wins(list: Seq<ProxyRoute>, i: int)
    requires
        0 <= i < list.len(),
        forall|j: int| i < j < list.len() ==> (#[trigger] list[j]).prefix@ != list[i].prefix@,
    ensures
        routes::listed_routes(list).contains_key(list[i].prefix@),
        routes::listed_routes(list)[list[i].prefix@] == list[i].upstream@,
    decreases list.len(),
{
    if i < list.len() - 1 {
        let front = list.drop_last();
        assert forall|j: int| i < j < front.len() implies (#[trigger] front[j]).prefix@ != front[i].prefix@ by {
            assert(front[j] == list[j]);
        }
        law_later_file_route_wins(front, i);
        assert(list[list.len() - 1].prefix@ != list[i].prefix@);
    }
}

/// HSTS is off, its header value being empty, exactly where its max-age is 0.
pub proof fn law_hsts_off(file: Option<Config>, env: Environment, readings: ReadingsView)
    requires
        loaded(file, env, readings) is Ok,
    ensures
        ({
            let config = loaded(file, env, readings)->Ok_0;
            config.hsts_value.len() == 0 <==> config.hsts_max_age == 0
        }),
{
    reveal_strlit("max-age=");
}

/// The HSTS value can always stand in a header.
pub proof fn law_hsts_value_is_header_value(max_age: u32, include_subdomains: bool)
    ensures
        forall|i: int|
            0 <= i < hsts_text(max_age, include_subdomains).len() ==> ' ' <= #[trigger] hsts_text(
                max_age,
                include_subdomains,
            )[i] <= '~',
        headers::is_header_value(vstd::utf8::encode_utf8(hsts_text(max_age, include_subdomains))),
{
    let value = hsts_text(max_age, include_subdomains);
    let number = text::decimal(max_age as nat);
    reveal_strlit("max-age=");
    reveal_strlit("; includeSubDomains");
    text::law_decimal_reads_back(max_age as nat);
    assert(text::without_plus(number) == number || text::without_plus(number) == number.drop_first());
    assert forall|i: int| 0 <= i < number.len() implies ' ' <= #[trigger] number[i] <= '~' by {
        let digits = text::without_plus(number);
        if digits == number {
            assert(text::is_digit(digits[i]));
        } else if i > 0 {
            assert(text::is_digit(digits[i - 1]));
        }
    }
    assert forall|i: int| 0 <= i < value.len() implies ' ' <= #[trigger] value[i] <= '~' by {
    }
    assert(vstd::utf8::is_ascii_chars(value));
    vstd::utf8::is_ascii_chars_encode_utf8(value);
}

/// Each text of a configuration that comes out is what the environment says; where it is silent, what
/// the file says; and where both are, the default. The domain and the email have none.
pub proof fn law_texts_by_source(
    file: Option<Config>,
    env: Environment,
    readings: ReadingsView,
    result: Result<ResolvedConfig, ConfigError>,
)
    requires
        agrees(result, loaded(file, env, readings)),
    ensures
        result matches Ok(config) ==> {
            &&& config.domain@ == (if env.domain is Some {
                env.domain->0@
            } else {
                file->0.server.domain@
            })
            &&& config.email@ == (if env.email is Some {
                env.email->0@
            } else {
                file->0.server.email@
            })
            &&& config.host@ == (if env.host is Some {
                env.host->0@
            } else if file is Some && file->0.server.host is Some {
                file->0.server.host->0@
            } else {
                "0.0.0.0"@
            })
            &&& config.cert_dir@ == (if env.cert_dir is Some {
                env.cert_dir->0@
            } else if file is Some && file->0.tls is Some && file->0.tls->0.cert_dir is Some {
                file->0.tls->0.cert_dir->0@
            } else {
                "certs/"@
            })
        },
{
}

/// Each number of a configuration that comes out is the one that the environment writes; where it is
/// silent, that of the file; and where both are, the default: port 443, and a year of HSTS.
pub proof fn law_numbers_by_source(
    file: Option<Config>,
    env: Environment,
    readings: ReadingsView,
    result: Result<ResolvedConfig, ConfigError>,
)
    requires
        agrees(result, loaded(file, env, readings)),
    ensures
        result matches Ok(config) ==> {
            &&& env.port matches Some(text) ==> text::unsigned_value(text@) == Some(config.port as nat)
            &&& env.port is None ==> config.port == (if file is Some && file->0.server.port is Some {
                file->0.server.port->0
            } else {
                443u16
            })
            &&& env.hsts_max_age matches Some(text) ==> text::unsigned_value(text@) == Some(
                config.hsts_max_age as nat,
            )
            &&& env.hsts_max_age is None ==> config.hsts_max_age == (if file is Some && file->0.tls is Some
                && file->0.tls->0.hsts_max_age is Some {
                file->0.tls->0.hsts_max_age->0
            } else {
                31_536_000u32
            })
        },
{
}

/// Staging is on where the environment reads `true`; where it is silent, as the file says; and where
/// both are, on.
pub proof fn law_staging_by_source(
    file: Option<Config>,
    env: Environment,
    readings: ReadingsView,
    result: Result<ResolvedConfig, ConfigError>,
)
    requires
        agrees(result, loaded(file, env, readings)),
    ensures
        result matches Ok(config) ==> config.use_staging == (if readings.use_staging is Some {
            readings.use_staging->0 == "true"@
        } else if file is Some && file->0.tls is Some && file->0.tls->0.use_staging is Some {
            file->0.tls->0.use_staging->0
        } else {
            true
        }),
{
}

/// The HSTS value is empty where the max-age is 0. Else it gives the max-age in decimal, and names the
/// subdomains behind it where the environment reads `true`; where it is silent, as the file says; and
/// where both are, always.
pub proof fn law_hsts_by_source(
    file: Option<Config>,
    env: Environment,
    readings: ReadingsView,
    result: Result<ResolvedConfig, ConfigError>,
)
    requires
        agrees(result, loaded(file, env, readings)),
    ensures
        result matches Ok(config) ==> {
            let subdomains = if readings.hsts_include_subdomains is Some {
                readings.hsts_include_subdomains->0 == "true"@
            } else if file is Some && file->0.tls is Some && file->0.tls->0.hsts_include_subdomains is Some {
                file->0.tls->0.hsts_include_subdomains->0
            } else {
                true
            };
            &&& config.hsts_max_age == 0 ==> config.hsts_value@.len() == 0
            &&& config.hsts_max_age > 0 && subdomains ==> config.hsts_value@ == "max-age="@ + text::decimal(
                config.hsts_max_age as nat,
            ) + "; includeSubDomains"@
            &&& config.hsts_max_age > 0 && !subdomains ==> config.hsts_value@ == "max-age="@
                + text::decimal(config.hsts_max_age as nat)
        },
{
}

/// The HSTS value that is made of a max-age and the choice on subdomains.
pub proof fn law_hsts_text(max_age: u32, include_subdomains: bool)
    ensures
        max_age == 0 ==> hsts_text(max_age, include_subdomains).len() == 0,
        max_age > 0 ==> hsts_text(max_age, false) == "max-age="@ + text::decimal(max_age as nat),
        max_age > 0 ==> hsts_text(max_age, true) == hsts_text(max_age, false) + "; includeSubDomains"@,
{
}

/// A configuration fails to come out in four ways, and the first that applies is reported: a port
/// that is no number or over 65535, a max-age that is no number or over 4294967295, no domain, and
/// no email.
pub proof fn law_why_no_configuration(
    file: Option<Config>,
    env: Environment,
    readings: ReadingsView,
    result: Result<ResolvedConfig, ConfigError>,
)
    requires
        agrees(result, loaded(file, env, readings)),
    ensures
        ({
            let port = env.port matches Some(text) ==> (text::unsigned_value(text@) matches Some(n) && n
                <= 65535);
            let max_age = env.hsts_max_age matches Some(text) ==> (text::unsigned_value(text@) matches Some(
                n,
            ) && n <= 4294967295);
            let domain = file is Some || env.domain is Some;
            let email = file is Some || env.email is Some;
            &&& result is Ok <==> port && max_age && domain && email
            &&& result == Err::<ResolvedConfig, ConfigError>(ConfigError::InvalidPort) <==> !port
            &&& result == Err::<ResolvedConfig, ConfigError>(ConfigError::InvalidHstsMaxAge) <==> port
                && !max_age
            &&& result == Err::<ResolvedConfig, ConfigError>(ConfigError::MissingDomain) <==> port && max_age
                && !domain
            &&& result == Err::<ResolvedConfig, ConfigError>(ConfigError::MissingEmail) <==> port && max_age
                && domain && !email
        }),
{
}

/// The routes of a configuration that comes out are those that the environment gives and those that
/// the file lists, whatever else the file says, and no others. For one prefix the environment wins,
/// and then the last entry of the file.
pub proof fn law_routes_by_source(
    file: Option<Config>,
    env: Environment,
    readings: ReadingsView,
    result: Result<ResolvedConfig, ConfigError>,
    prefix: Seq<char>,
)
    requires
        agrees(result, loaded(file, env, readings)),
    ensures
        result matches Ok(config) ==> {
            let given = readings.routes is Some && readings.routes->0.contains_key(prefix);
            let listed = file is Some && file->0.proxy is Some && exists|i: int|
                0 <= i < file->0.proxy->0@.len() && (#[trigger] file->0.proxy->0@[i]).prefix@ == prefix;
            &&& config.proxy_routes@.contains_key(prefix) <==> given || listed
            &&& given ==> config.proxy_routes@[prefix] == readings.routes->0[prefix]
        },
{
    if file is Some && file->0.proxy is Some {
        routes::law_listed_prefixes(file->0.proxy->0@, prefix);
    }
}

/// A route that the file lists stands in the configuration, whatever else the file says, unless a later
/// entry or the environment has one of the same prefix.
pub proof fn law_file_route_stands(
    file: Config,
    env: Environment,
    readings: ReadingsView,
    result: Result<ResolvedConfig, ConfigError>,
    i: int,
)
    requires
        agrees(result, loaded(Some(file), env, readings)),
        file.proxy is Some,
        0 <= i < file.proxy->0@.len(),
        forall|j: int|
            i < j < file.proxy->0@.len() ==> (#[trigger] file.proxy->0@[j]).prefix@
                != file.proxy->0@[i].prefix@,
        readings.routes is Some ==> !readings.routes->0.contains_key(file.proxy->0@[i].prefix@),
    ensures
        result matches Ok(config) ==> {
            &&& config.proxy_routes@.contains_key(file.proxy->0@[i].prefix@)
            &&& config.proxy_routes@[file.proxy->0@[i].prefix@] == file.proxy->0@[i].upstream@
        },
{
    law_later_file_route_wins(file.proxy->0@, i);
}

/// The switches are read in lower case, and the routes as a JSON object of strings; a variable that is
/// not set has no reading.
pub proof fn law_how_variables_are_read(env: Environment)
    ensures
        env.use_staging matches Some(text) ==> readings_of(env).use_staging == Some(
            outside::lower_case(text@),
        ),
        env.use_staging is None ==> readings_of(env).use_staging is None,
        env.hsts_include_subdomains matches Some(text) ==> readings_of(env).hsts_include_subdomains == Some(
            outside::lower_case(text@),
        ),
        env.hsts_include_subdomains is None ==> readings_of(env).hsts_include_subdomains is None,
        env.proxy_routes matches Some(text) ==> readings_of(env).routes == outside::json_string_object(
            text@,
        ),
        env.proxy_routes is None ==> readings_of(env).routes is None,
{
}

/// A switch that is written in ASCII is on exactly where it spells `true`, each letter in upper or
/// lower case.
pub proof fn law_plain_switch(variable: String, on: bool)
    requires
        is_plain_switch(Some(variable), on),
        vstd::utf8::is_ascii_chars(variable@),
    ensures
        on <==> {
            &&& variable@.len() == 4
            &&& variable@[0] == 't' || variable@[0] == 'T'
            &&& variable@[1] == 'r' || variable@[1] == 'R'
            &&& variable@[2] == 'u' || variable@[2] == 'U'
            &&& variable@[3] == 'e' || variable@[3] == 'E'
        },
{
    reveal_strlit("true");
    let lower = ascii_lower_case(variable@);
    assert(lower.len() == variable@.len());
    assert forall|i: int| 0 <= i < lower.len() implies #[trigger] lower[i] == outside::ascii_lower(
        variable@[i],
    ) by {}
    if variable@.len() == 4 {
        assert(lower[0] == outside::ascii_lower(variable@[0]));
        assert(lower[1] == outside::ascii_lower(variable@[1]));
        assert(lower[2] == outside::ascii_lower(variable@[2]));
        assert(lower[3] == outside::ascii_lower(variable@[3]));
        if lower[0] == 't' && lower[1] == 'r' && lower[2] == 'u' && lower[3] == 'e' {
            assert(lower =~= "true"@);
        }
    }
}

/// The readings that are handed in count as they are: the switches as texts, and the routes as the map
/// that their pairs write.
pub proof fn law_readings_count_as_they_are(readings: Readings)
    ensures
        readings.use_staging matches Some(text) ==> readings@.use_staging == Some(text@),
        readings.use_staging is None ==> readings@.use_staging is None,
        readings.hsts_include_subdomains matches Some(text) ==> readings@.hsts_include_subdomains == Some(
            text@,
        ),
        readings.hsts_include_subdomains is None ==> readings@.hsts_include_subdomains is None,
        readings.routes matches Some(pairs) ==> readings@.routes == Some(outside::pairs_as_map(pairs@)),
        readings.routes is None ==> readings@.routes is None,
{
}

} // verus!
