use vstd::prelude::*;
use crate::error::Error;
use reqwest::Client as HttpClient;

verus! {

/// `reqwest::Client`, held by the client and handed to the caller that sends.
#[verifier::external_type_specification]
#[verifier::external_body]
pub struct ExHttpClient(HttpClient);

/// Relies on the derived `Clone` of `HttpClient`; nothing is claimed of the copy.
pub assume_specification[ <HttpClient as std::clone::Clone>::clone ](c: &HttpClient) -> HttpClient;

/// Relies on `HttpClient::new`: an HTTP client with default settings.
#[verifier::external_body]
fn new_http_client() -> HttpClient {
    HttpClient::new()
}

/// The registered reason phrase of an HTTP status code, if it has one.
pub uninterp spec fn reason_phrase(code: u16) -> Option<Seq<char>>;

/// Relies on `StatusCode::canonical_reason` of the `http` crate, which
/// reqwest re-exports; a number that is no status code has no phrase.
#[verifier::external_body]
fn canonical_reason(code: u16) -> (r: Option<String>)
    ensures
        match r {
            Some(s) => reason_phrase(code) == Some(s@),
            None => reason_phrase(code) is None,
        },
{
    match reqwest::StatusCode::from_u16(code) {
        Ok(c) => c.canonical_reason().map(|s| s.to_string()),
        Err(_) => None,
    }
}

/// Where and as whom the client talks to the store.
#[derive(Debug, Clone)]
pub struct ClientConfig {
    /// Base address, such as `http://localhost:8080`.
    pub api_url: String,
    /// Version segment of the path, such as `v1`.
    pub api_version: String,
    /// Bearer token sent with every request.
    pub auth_token: String,
}

impl ClientConfig {
    /// Builds a configuration from the values of `GENESISDB_API_URL`,
    /// `GENESISDB_API_VERSION` and `GENESISDB_AUTH_TOKEN`, `None` where a
    /// variable is absent; the first absent one is named in the error.
    pub fn from_env(api_url: Option<String>, api_version: Option<String>, auth_token: Option<
        String,
    >) -> (r: Result<ClientConfig, Error>)
        ensures
            api_url is None ==> (r matches Err(Error::EnvError(m)) && m@
                == "GENESISDB_API_URL not set"@),
            api_url is Some && api_version is None ==> (r matches Err(Error::EnvError(m)) && m@
                == "GENESISDB_API_VERSION not set"@),
            api_url is Some && api_version is Some && auth_token is None ==> (r matches Err(
                Error::EnvError(m),
            ) && m@ == "GENESISDB_AUTH_TOKEN not set"@),
            api_url is Some && api_version is Some && auth_token is Some ==> (r matches Ok(c)
                && c.api_url == api_url->0 && c.api_version == api_version->0 && c.auth_token
                == auth_token->0),
    {
        let api_url = match api_url {
            Some(v) => v,
            None => return Err(Error::EnvError(String::from_str("GENESISDB_API_URL not set"))),
        };
        let api_version = match api_version {
            Some(v) => v,
            None => return Err(Error::EnvError(String::from_str("GENESISDB_API_VERSION not set"))),
        };
        let auth_token = match auth_token {
            Some(v) => v,
            None => return Err(Error::EnvError(String::from_str("GENESISDB_AUTH_TOKEN not set"))),
        };
        Ok(ClientConfig { api_url, api_version, auth_token })
    }
}

/// The status text of an error answer: the reason phrase, or "Unknown".
pub open spec fn status_text_of(code: u16) -> Seq<char> {
    match reason_phrase(code) {
        Some(p) => p,
        None => "Unknown"@,
    }
}

/// Whether a status code is one of success, 200 to 299.
pub open spec fn is_success(code: u16) -> bool {
    200 <= code <= 299
}

/// Passes a successful status and turns any other into an API error that
/// carries the exact code.
pub fn check_status(status: u16) -> (r: Result<(), Error>)
    ensures
        is_success(status) <==> r is Ok,
        !is_success(status) ==> (r matches Err(Error::ApiError { status: s, status_text: t })
            && s == status && t@ == status_text_of(status)),
{
    if 200 <= status && status <= 299 {
        Ok(())
    } else {
        let status_text = match canonical_reason(status) {
            Some(p) => p,
            None => String::from_str("Unknown"),
        };
        Err(Error::ApiError { status, status_text })
    }
}

/// A client of the store: a checked configuration and an HTTP client.
#[derive(Debug, Clone)]
pub struct Client {
    config: ClientConfig,
    http_client: HttpClient,
}

impl Client {
    /// The configuration that the client was made with.
    pub closed spec fn settings(&self) -> ClientConfig {
        self.config
    }

    /// Makes a client; each setting must be non-empty, and the first empty
    /// one is named in the error.
    pub fn new(config: ClientConfig) -> (r: Result<Client, Error>)
        ensures
            config.api_url@.len() == 0 ==> (r matches Err(Error::MissingConfig(f)) && f@
                == "api_url"@),
            config.api_url@.len() > 0 && config.api_version@.len() == 0 ==> (r matches Err(
                Error::MissingConfig(f),
            ) && f@ == "api_version"@),
            config.api_url@.len() > 0 && config.api_version@.len() > 0 && config.auth_token@.len()
                == 0 ==> (r matches Err(Error::MissingConfig(f)) && f@ == "auth_token"@),
            config.api_url@.len() > 0 && config.api_version@.len() > 0 && config.auth_token@.len()
                > 0 ==> (r matches Ok(c) && c.settings() == config),
    {
        if config.api_url.as_str().is_empty() {
            return Err(Error::MissingConfig(String::from_str("api_url")));
        }
        if config.api_version.as_str().is_empty() {
            return Err(Error::MissingConfig(String::from_str("api_version")));
        }
        if config.auth_token.as_str().is_empty() {
            return Err(Error::MissingConfig(String::from_str("auth_token")));
        }
        let http_client = new_http_client();
        Ok(Client { config, http_client })
    }

    /// Makes a client from the values of the three environment variables,
    /// as `ClientConfig::from_env` reads them.
    pub fn from_env(api_url: Option<String>, api_version: Option<String>, auth_token: Option<
        String,
    >) -> (r: Result<Client, Error>)
        ensures
            api_url is None ==> (r matches Err(Error::EnvError(_))),
            api_url is Some && api_version is None ==> (r matches Err(Error::EnvError(_))),
            api_url is Some && api_version is Some && auth_token is None ==> (r matches Err(
                Error::EnvError(_),
            )),
            api_url is Some && api_version is Some && auth_token is Some ==> (r is Ok <==> (
            api_url->0@.len() > 0 && api_version->0@.len() > 0 && auth_token->0@.len() > 0)),
    {
        let config = ClientConfig::from_env(api_url, api_version, auth_token)?;
        Client::new(config)
    }

    pub fn config(&self) -> (r: &ClientConfig)
        ensures
            *r == self.settings(),
    {
        &self.config
    }

    pub fn http_client(&self) -> &HttpClient {
        &self.http_client
    }

    /// The address of an endpoint: `{api_url}/api/{api_version}/{path}`.
    pub fn build_url(&self, path: &str) -> (r: String)
        ensures
            r@ == self.settings().api_url@ + "/api/"@ + self.settings().api_version@ + "/"@
                + path@,
    {
        let mut url = self.config.api_url.clone();
        url.append("/api/");
        url.append(self.config.api_version.as_str());
        url.append("/");
        url.append(path);
        url
    }

    /// The value of the authorization header: `Bearer {auth_token}`.
    pub fn auth_header(&self) -> (r: String)
        ensures
            r@ == "Bearer "@ + self.settings().auth_token@,
    {
        let mut h = String::from_str("Bearer ");
        h.append(self.config.auth_token.as_str());
        h
    }
}

} // verus!
