use http_server::config::{
    config_path, hsts_value, load, load_with, read_environment, Config, ConfigError, Environment,
    ProxyRoute, Readings, ResolvedConfig, ServerConfig, TlsConfig,
};

fn silent() -> Environment {
    Environment {
        domain: None,
        email: None,
        host: None,
        port: None,
        cert_dir: None,
        use_staging: None,
        hsts_max_age: None,
        hsts_include_subdomains: None,
        proxy_routes: None,
    }
}

fn required() -> Environment {
    let mut env = silent();
    env.domain = some("example.com");
    env.email = some("admin@example.com");
    env
}

fn some(text: &str) -> Option<String> {
    Some(text.to_string())
}

fn file() -> Config {
    Config {
        server: ServerConfig {
            domain: "file.example".to_string(),
            email: "file@example".to_string(),
            host: some("127.0.0.1"),
            port: Some(8443),
        },
        tls: Some(TlsConfig {
            cert_dir: some("/srv/certs"),
            use_staging: Some(false),
            hsts_max_age: Some(60),
            hsts_include_subdomains: Some(false),
        }),
        proxy: Some(vec![
            route("/api", "http://api-service:3000"),
            route("/app", "http://web-service:8080"),
        ]),
    }
}

fn route(prefix: &str, upstream: &str) -> ProxyRoute {
    ProxyRoute { prefix: prefix.to_string(), upstream: upstream.to_string() }
}

fn loaded(file: Option<Config>, env: Environment) -> ResolvedConfig {
    load(file, env).unwrap()
}

#[test]
fn defaults_apply_without_a_file() {
    let config = loaded(None, required());
    assert_eq!(config.domain, "example.com");
    assert_eq!(config.email, "admin@example.com");
    assert_eq!(config.host, "0.0.0.0");
    assert_eq!(config.port, 443);
    assert_eq!(config.cert_dir, "certs/");
    assert!(config.use_staging);
    assert_eq!(config.hsts_max_age, 31536000);
    assert_eq!(config.hsts_value, "max-age=31536000; includeSubDomains");
    assert_eq!(config.proxy_routes.len(), 0);
    assert_eq!(config.bind_address(), "0.0.0.0:443");
    assert_eq!(config.hsts_header(), Some("max-age=31536000; includeSubDomains"));
}

#[test]
fn file_wins_over_defaults() {
    let config = loaded(Some(file()), silent());
    assert_eq!(config.domain, "file.example");
    assert_eq!(config.email, "file@example");
    assert_eq!(config.host, "127.0.0.1");
    assert_eq!(config.port, 8443);
    assert_eq!(config.cert_dir, "/srv/certs");
    assert!(!config.use_staging);
    assert_eq!(config.hsts_max_age, 60);
    assert_eq!(config.hsts_value, "max-age=60");
    assert_eq!(config.proxy_routes.len(), 2);
    assert_eq!(config.proxy_routes.get("/api"), Some("http://api-service:3000"));
    assert_eq!(config.bind_address(), "127.0.0.1:8443");
}

#[test]
fn file_without_tls_or_proxy_leaves_the_defaults() {
    let mut config = file();
    config.tls = None;
    config.proxy = None;
    config.server.host = None;
    config.server.port = None;
    let config = loaded(Some(config), silent());
    assert_eq!(config.host, "0.0.0.0");
    assert_eq!(config.port, 443);
    assert_eq!(config.cert_dir, "certs/");
    assert_eq!(config.hsts_value, "max-age=31536000; includeSubDomains");
    assert_eq!(config.proxy_routes.len(), 0);
}

#[test]
fn environment_wins_over_the_file() {
    let env = Environment {
        domain: some("env.example"),
        email: some("env@example"),
        host: some("::1"),
        port: some("9443"),
        cert_dir: some("/env/certs"),
        use_staging: some("TRUE"),
        hsts_max_age: some("120"),
        hsts_include_subdomains: some("True"),
        proxy_routes: some("{\"/api\": \"http://env:1\", \"/new\": \"http://env:2\"}"),
    };
    let config = loaded(Some(file()), env);
    assert_eq!(config.domain, "env.example");
    assert_eq!(config.email, "env@example");
    assert_eq!(config.host, "::1");
    assert_eq!(config.port, 9443);
    assert_eq!(config.cert_dir, "/env/certs");
    assert!(config.use_staging);
    assert_eq!(config.hsts_max_age, 120);
    assert_eq!(config.hsts_value, "max-age=120; includeSubDomains");
    assert_eq!(config.proxy_routes.len(), 3);
    assert_eq!(config.proxy_routes.get("/api"), Some("http://env:1"));
    assert_eq!(config.proxy_routes.get("/app"), Some("http://web-service:8080"));
    assert_eq!(config.proxy_routes.get("/new"), Some("http://env:2"));
}

#[test]
fn later_route_of_the_file_wins() {
    let mut config = file();
    config.proxy = Some(vec![route("/api", "http://first"), route("/api", "http://second")]);
    let config = loaded(Some(config), silent());
    assert_eq!(config.proxy_routes.len(), 1);
    assert_eq!(config.proxy_routes.get("/api"), Some("http://second"));
}

#[test]
fn routes_that_cannot_be_read_are_ignored() {
    for text in ["", "not json", "[]", "{\"/api\": 3000}", "{\"/api\": \"http://x\""] {
        let mut env = required();
        env.proxy_routes = some(text);
        let config = loaded(Some(file()), env);
        assert_eq!(config.proxy_routes.len(), 2);
        assert_eq!(config.proxy_routes.get("/api"), Some("http://api-service:3000"));
    }
}

#[test]
fn switches_are_on_only_for_true() {
    for (text, on) in [
        ("true", true),
        ("True", true),
        ("tRuE", true),
        ("false", false),
        ("1", false),
        ("yes", false),
        ("", false),
        (" true", false),
        ("\u{ff34}rue", false),
    ] {
        let mut env = required();
        env.use_staging = some(text);
        env.hsts_include_subdomains = some(text);
        let config = loaded(None, env);
        assert_eq!(config.use_staging, on);
        assert_eq!(config.hsts_value.ends_with("; includeSubDomains"), on);
    }
}

#[test]
fn readings_put_the_switches_in_lower_case() {
    let mut env = silent();
    env.use_staging = some("\u{c4}BC");
    env.hsts_include_subdomains = some("MiXeD");
    env.proxy_routes = some("{\"/a\": \"b\"}");
    let readings = read_environment(&env);
    assert_eq!(readings.use_staging, some("\u{e4}bc"));
    assert_eq!(readings.hsts_include_subdomains, some("mixed"));
    assert_eq!(readings.routes, Some(vec![("/a".to_string(), "b".to_string())]));
}

#[test]
fn readings_decide_the_switches_and_routes() {
    let readings = Readings {
        use_staging: some("true"),
        hsts_include_subdomains: some("false"),
        routes: Some(vec![("/api".to_string(), "http://r".to_string())]),
    };
    let config = load_with(Some(file()), silent(), readings).unwrap();
    assert!(config.use_staging);
    assert_eq!(config.hsts_value, "max-age=60");
    assert_eq!(config.proxy_routes.get("/api"), Some("http://r"));
    assert_eq!(config.proxy_routes.len(), 2);
}

#[test]
fn hsts_is_off_at_zero() {
    let mut env = required();
    env.hsts_max_age = some("0");
    let config = loaded(None, env);
    assert_eq!(config.hsts_max_age, 0);
    assert_eq!(config.hsts_value, "");
    assert_eq!(config.hsts_header(), None);
    assert_eq!(hsts_value(0, true), "");
    assert_eq!(hsts_value(1, false), "max-age=1");
    assert_eq!(hsts_value(4294967295, true), "max-age=4294967295; includeSubDomains");
}

#[test]
fn numbers_of_the_environment() {
    for (text, port) in [("0", 0), ("+8443", 8443), ("00443", 443), ("65535", 65535)] {
        let mut env = required();
        env.port = some(text);
        assert_eq!(loaded(None, env).port, port);
    }
    for text in ["65536", "-1", "", "+", "++1", "4 43", "443 ", "0x1bb", "99999999999999999999999"] {
        let mut env = required();
        env.port = some(text);
        assert_eq!(load(None, env).unwrap_err(), ConfigError::InvalidPort);
    }
    let mut env = required();
    env.hsts_max_age = some("4294967296");
    assert_eq!(load(None, env).unwrap_err(), ConfigError::InvalidHstsMaxAge);
}

#[test]
fn errors_come_in_order() {
    let mut env = silent();
    env.port = some("x");
    env.hsts_max_age = some("x");
    assert_eq!(load(None, env.clone()).unwrap_err(), ConfigError::InvalidPort);
    env.port = None;
    assert_eq!(load(None, env.clone()).unwrap_err(), ConfigError::InvalidHstsMaxAge);
    env.hsts_max_age = None;
    assert_eq!(load(None, env.clone()).unwrap_err(), ConfigError::MissingDomain);
    env.domain = some("example.com");
    assert_eq!(load(None, env.clone()).unwrap_err(), ConfigError::MissingEmail);
    env.email = some("admin@example.com");
    assert!(load(None, env).is_ok());
}

#[test]
fn error_messages() {
    assert_eq!(ConfigError::InvalidPort.message(), "Invalid PORT");
    assert_eq!(ConfigError::InvalidHstsMaxAge.message(), "Invalid HSTS_MAX_AGE");
    assert_eq!(
        ConfigError::MissingDomain.message(),
        "DOMAIN is required (config.toml [server].domain or env var)"
    );
    assert_eq!(
        ConfigError::MissingEmail.message(),
        "EMAIL is required (config.toml [server].email or env var)"
    );
}

#[test]
fn path_of_the_file() {
    assert_eq!(config_path(None), "config.toml");
    assert_eq!(config_path(some("/etc/http-server/config.toml")), "/etc/http-server/config.toml");
}
