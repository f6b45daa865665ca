//! Blocking HTTP requests through `reqwest`: what the plugins that talk to
//! the network send, and the plain values they get back.
use vstd::prelude::*;

verus! {

#[verifier::external_type_specification]
#[verifier::external_body]
pub struct ExBlockingClient(reqwest::blocking::Client);

/// How a request failed, with the error's message.
pub enum ProbeFailure {
    Timeout(String),
    Connect(String),
    Other(String),
}

impl ProbeFailure {
    pub open spec fn message(self) -> Seq<char> {
        match self {
            ProbeFailure::Timeout(m) => m@,
            ProbeFailure::Connect(m) => m@,
            ProbeFailure::Other(m) => m@,
        }
    }

    /// The error's message.
    pub fn into_message(self) -> (m: String)
        ensures
            m@ == self.message(),
    {
        match self {
            ProbeFailure::Timeout(m) => m,
            ProbeFailure::Connect(m) => m,
            ProbeFailure::Other(m) => m,
        }
    }
}

/// The answer to a request: its status code, the status as text (code and
/// reason), and the `content-location` header where it is readable text.
pub struct Reply {
    pub status: u16,
    pub status_text: String,
    pub content_location: Option<String>,
}

/// What a probe sends: the URL, the user agent of the HEAD request, the
/// request timeout in seconds and how many redirects are followed.
pub struct ProbeRequest {
    pub url: String,
    pub agent: String,
    pub timeout_secs: u64,
    pub max_redirects: usize,
}

/// Builds a blocking HTTP client (`reqwest::blocking::ClientBuilder::build`)
/// with a request timeout and a limit on redirects; the error's message
/// where `build` fails.  Nothing is promised of the outcome.
#[verifier::external_body]
pub(crate) fn build_client(timeout_secs: u64, max_redirects: usize) -> (r: Result<reqwest::blocking::Client, String>) {
    reqwest::blocking::Client::builder()
        .timeout(std::time::Duration::from_secs(timeout_secs))
        .redirect(reqwest::redirect::Policy::limited(max_redirects))
        .build()
        .map_err(|e| e.to_string())
}

/// Sends a HEAD request with a `User-Agent` header
/// (`reqwest::blocking::RequestBuilder::send`) and returns the status code,
/// or how it failed (`reqwest::Error::is_timeout`, `is_connect`, else
/// another error) with the error's message.  The answer depends on the
/// network: nothing is promised of it.
#[verifier::external_body]
pub(crate) fn send_head(client: &reqwest::blocking::Client, url: &str, agent: &str) -> (r: Result<u16, ProbeFailure>) {
    match client.head(url).header("User-Agent", agent).send() {
        Ok(resp) => Ok(resp.status().as_u16()),
        Err(e) if e.is_timeout() => Err(ProbeFailure::Timeout(e.to_string())),
        Err(e) if e.is_connect() => Err(ProbeFailure::Connect(e.to_string())),
        Err(e) => Err(ProbeFailure::Other(e.to_string())),
    }
}

/// Sends a GET request (`reqwest::blocking::RequestBuilder::send`), with a
/// `User-Agent` header where one is given, and returns the reply or how it
/// failed, as `send_head` does.  Nothing is promised of the answer.
#[verifier::external_body]
pub(crate) fn send_get(client: &reqwest::blocking::Client, url: &str, agent: Option<&str>) -> (r: Result<Reply, ProbeFailure>) {
    let request = match agent {
        Some(a) => client.get(url).header("User-Agent", a),
        None => client.get(url),
    };
    match request.send() {
        Ok(resp) => Ok(Reply {
            status: resp.status().as_u16(),
            status_text: resp.status().to_string(),
            content_location: resp.headers().get("content-location").and_then(|v| v.to_str().ok()).map(|s| s.to_string()),
        }),
        Err(e) if e.is_timeout() => Err(ProbeFailure::Timeout(e.to_string())),
        Err(e) if e.is_connect() => Err(ProbeFailure::Connect(e.to_string())),
        Err(e) => Err(ProbeFailure::Other(e.to_string())),
    }
}

} // verus!
