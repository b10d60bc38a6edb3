use genesisdb_io_client::{check_status, Client, ClientConfig, Error};

fn config(url: &str, version: &str, token: &str) -> ClientConfig {
    ClientConfig {
        api_url: url.to_string(),
        api_version: version.to_string(),
        auth_token: token.to_string(),
    }
}

#[test]
fn test_client_config_validation() {
    // Valid config
    let c = config("http://localhost:8080", "v1", "token");
    assert!(Client::new(c).is_ok());

    // Empty api_url
    let c = config("", "v1", "token");
    assert!(matches!(Client::new(c), Err(Error::MissingConfig(_))));

    // Empty api_version
    let c = config("http://localhost:8080", "", "token");
    assert!(matches!(Client::new(c), Err(Error::MissingConfig(_))));

    // Empty auth_token
    let c = config("http://localhost:8080", "v1", "");
    assert!(matches!(Client::new(c), Err(Error::MissingConfig(_))));
}

#[test]
fn test_build_url() {
    let client = Client::new(config("http://localhost:8080", "v1", "token")).unwrap();
    assert_eq!(
        client.build_url("status/ping"),
        "http://localhost:8080/api/v1/status/ping"
    );
    assert_eq!(client.build_url("stream"), "http://localhost:8080/api/v1/stream");
}

#[test]
fn test_auth_header() {
    let client = Client::new(config("http://localhost:8080", "v1", "my-secret-token")).unwrap();
    assert_eq!(client.auth_header(), "Bearer my-secret-token");
}

#[test]
fn missing_config_names_the_first_empty_setting() {
    match Client::new(config("", "", "")) {
        Err(Error::MissingConfig(f)) => assert_eq!(f, "api_url"),
        _ => panic!("expected a missing setting"),
    }
    match Client::new(config("u", "", "")) {
        Err(Error::MissingConfig(f)) => assert_eq!(f, "api_version"),
        _ => panic!("expected a missing setting"),
    }
    match Client::new(config("u", "v", "")) {
        Err(Error::MissingConfig(f)) => assert_eq!(f, "auth_token"),
        _ => panic!("expected a missing setting"),
    }
}

#[test]
fn client_keeps_its_config() {
    let client = Client::new(config("http://h", "v2", "t")).unwrap();
    assert_eq!(client.config().api_url, "http://h");
    assert_eq!(client.config().api_version, "v2");
    assert_eq!(client.config().auth_token, "t");
}

#[test]
fn config_from_env_values() {
    let s = |v: &str| Some(v.to_string());
    match ClientConfig::from_env(None, s("v1"), s("t")) {
        Err(Error::EnvError(m)) => assert_eq!(m, "GENESISDB_API_URL not set"),
        _ => panic!("expected an environment error"),
    }
    match ClientConfig::from_env(s("u"), None, s("t")) {
        Err(Error::EnvError(m)) => assert_eq!(m, "GENESISDB_API_VERSION not set"),
        _ => panic!("expected an environment error"),
    }
    match ClientConfig::from_env(s("u"), s("v1"), None) {
        Err(Error::EnvError(m)) => assert_eq!(m, "GENESISDB_AUTH_TOKEN not set"),
        _ => panic!("expected an environment error"),
    }
    let c = ClientConfig::from_env(s("u"), s("v1"), s("t")).unwrap();
    assert_eq!(c.api_url, "u");
    assert_eq!(c.api_version, "v1");
    assert_eq!(c.auth_token, "t");
}

#[test]
fn client_from_env_values_checks_emptiness() {
    let s = |v: &str| Some(v.to_string());
    assert!(Client::from_env(s("u"), s("v1"), s("t")).is_ok());
    assert!(matches!(Client::from_env(s(""), s("v1"), s("t")), Err(Error::MissingConfig(_))));
    assert!(matches!(Client::from_env(s("u"), None, s("t")), Err(Error::EnvError(_))));
}

#[test]
fn success_statuses_pass() {
    assert!(check_status(200).is_ok());
    assert!(check_status(204).is_ok());
    assert!(check_status(299).is_ok());
}

#[test]
fn error_status_carries_exact_code_and_reason() {
    match check_status(503) {
        Err(Error::ApiError { status, status_text }) => {
            assert_eq!(status, 503);
            assert_eq!(status_text, "Service Unavailable");
        }
        _ => panic!("expected an API error"),
    }
    match check_status(404) {
        Err(Error::ApiError { status, status_text }) => {
            assert_eq!(status, 404);
            assert_eq!(status_text, "Not Found");
        }
        _ => panic!("expected an API error"),
    }
    match check_status(300) {
        Err(Error::ApiError { status, .. }) => assert_eq!(status, 300),
        _ => panic!("expected an API error"),
    }
    match check_status(199) {
        Err(Error::ApiError { status, .. }) => assert_eq!(status, 199),
        _ => panic!("expected an API error"),
    }
}

#[test]
fn unregistered_status_reads_unknown() {
    match check_status(599) {
        Err(Error::ApiError { status, status_text }) => {
            assert_eq!(status, 599);
            assert_eq!(status_text, "Unknown");
        }
        _ => panic!("expected an API error"),
    }
    match check_status(42) {
        Err(Error::ApiError { status, status_text }) => {
            assert_eq!(status, 42);
            assert_eq!(status_text, "Unknown");
        }
        _ => panic!("expected an API error"),
    }
}
