//! What the agent is started with: who it is and where the server is.

use vstd::prelude::*;

verus! {

/// The control topic that every agent joins.
pub const CONTROL_TOPIC: &'static str = "drone:cnc";

/// The query parameter that carries the shared secret.
pub const SECRET_PARAM: &'static str = "shared_secret";

/// The most bytes that the server's address, the parameter's name and the
/// secret may have together.
pub const MAX_ENDPOINT_BYTES: usize = 0x0400_0000;

#[derive(Clone, Debug, PartialEq, Eq)]
pub enum ConfigError {
    /// No identity was given and the system's hostname could not be had,
    /// for the reason that the system gave.
    NoIdentity { reason: String },
    /// The server's address is no absolute URL.
    BadServerUrl,
    /// The server's address and the secret are longer than an endpoint may be.
    EndpointTooLong,
}

/// Whether an address, a parameter's name and its value are short enough,
/// counted in bytes, to be made into an endpoint.
pub open spec fn fits(input: &str, key: &str, value: &str) -> bool {
    input.len() + key.len() + value.len() <= MAX_ENDPOINT_BYTES
}

/// `url::ParseError`, the reason why a text is no URL: carried through
/// unopened, nothing is read from it.
#[verifier::external_type_specification]
#[verifier::external_body]
pub struct ExParseError(url::ParseError);

/// The text of the URL that `url::Url::parse_with_params` makes of `input`
/// with the one query pair `key`, `value` added, or `None` where `input` is
/// no absolute URL.
pub uninterp spec fn url_with_param(input: Seq<char>, key: Seq<char>, value: Seq<char>) -> Option<Seq<char>>;

/// Calls `url::Url::parse_with_params` with one pair. Believed, not proved:
/// the result is the parsed URL's text with the pair in its query, and an
/// error comes exactly where the input does not parse. The texts must be
/// short: the URL's serialization is indexed by 32-bit numbers, and the
/// call panics on one that outgrows them.
#[verifier::external_body]
fn parse_with_param(input: &str, key: &str, value: &str) -> (r: Result<String, url::ParseError>)
    requires
        fits(input, key, value),
    ensures
        match r {
            Ok(text) => url_with_param(input@, key@, value@) == Some(text@),
            Err(_) => url_with_param(input@, key@, value@) is None,
        },
{
    match url::Url::parse_with_params(input, &[(key, value)]) {
        Ok(parsed) => Ok(String::from(parsed)),
        Err(e) => Err(e),
    }
}

/// Calls `hostname::get`. The name depends on the machine, so nothing is
/// claimed of it; an error comes back as its text.
#[verifier::external_body]
fn system_hostname() -> (r: Result<String, String>) {
    match hostname::get() {
        Ok(name) => Ok(name.to_string_lossy().into_owned()),
        Err(e) => Err(e.to_string()),
    }
}

/// The endpoint from the outcome of parsing: the URL's text, or `BadServerUrl`.
pub fn endpoint_from(parsed: Result<String, url::ParseError>) -> (r: Result<String, ConfigError>)
    ensures
        r == match parsed {
            Ok(text) => Ok::<String, ConfigError>(text),
            Err(_) => Err::<String, ConfigError>(ConfigError::BadServerUrl),
        },
{
    match parsed {
        Ok(text) => Ok(text),
        Err(_) => Err(ConfigError::BadServerUrl),
    }
}

/// The address to connect to: the server's URL with the shared secret added
/// as a query parameter. Fails with `EndpointTooLong` exactly where the texts
/// are too long together, and else with `BadServerUrl` exactly where
/// `server` is no absolute URL.
pub fn endpoint(server: &str, secret: &str) -> (r: Result<String, ConfigError>)
    ensures
        !fits(server, SECRET_PARAM, secret) ==> r == Err::<String, ConfigError>(ConfigError::EndpointTooLong),
        fits(server, SECRET_PARAM, secret) ==> match url_with_param(server@, SECRET_PARAM@, secret@) {
            Some(text) => r is Ok && r->Ok_0@ == text,
            None => r == Err::<String, ConfigError>(ConfigError::BadServerUrl),
        },
{
    let name: usize = SECRET_PARAM.len();
    let address: usize = server.len();
    let value: usize = secret.len();
    if name > MAX_ENDPOINT_BYTES || address > MAX_ENDPOINT_BYTES - name || value > MAX_ENDPOINT_BYTES - name
        - address {
        return Err(ConfigError::EndpointTooLong);
    }
    endpoint_from(parse_with_param(server, SECRET_PARAM, secret))
}

/// The device's identity: the one given, else the system's hostname, else
/// the error `NoIdentity` with the system's reason.
pub fn identity_from(given: Option<String>, system: Result<String, String>) -> (r: Result<String, ConfigError>)
    ensures
        r == match (given, system) {
            (Some(name), _) => Ok::<String, ConfigError>(name),
            (None, Ok(name)) => Ok::<String, ConfigError>(name),
            (None, Err(reason)) => Err::<String, ConfigError>(ConfigError::NoIdentity { reason }),
        },
{
    match given {
        Some(name) => Ok(name),
        None => match system {
            Ok(name) => Ok(name),
            Err(reason) => Err(ConfigError::NoIdentity { reason }),
        },
    }
}

/// The device's identity, asking the system only where none is given.
pub fn identity(given: Option<String>) -> (r: Result<String, ConfigError>)
    ensures
        given is Some ==> r == Ok::<String, ConfigError>(given->Some_0),
        r is Err ==> r->Err_0 is NoIdentity,
{
    match given {
        Some(name) => Ok(name),
        None => identity_from(None, system_hostname()),
    }
}

} // verus!
