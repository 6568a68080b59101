//! The metrics endpoint: which port it listens on, which requests it answers,
//! and with what.

use vstd::prelude::*;
use crate::text::{
    chars_of, decimal, parse_number, parse_unsigned, push_decimal, push_str, str_eq, string_of,
};

verus! {

/// The port of the metrics endpoint where nothing else is said.
pub const DEFAULT_METRICS_PORT: u16 = 6770;

/// The name of the environment variable that overrides the port.
pub open spec fn port_variable_text() -> Seq<char> {
    "TOKIO_CHANNELS_CONSOLE_METRICS_PORT"@
}

/// The name of the environment variable that overrides the port.
pub fn port_variable() -> (s: &'static str)
    ensures
        s@ == port_variable_text(),
{
    "TOKIO_CHANNELS_CONSOLE_METRICS_PORT"
}

/// The port to listen on: the one configured; else the one that the environment
/// variable holds, where it holds a port number; else the default.
pub open spec fn port_of(configured: Option<u16>, variable: Option<Seq<char>>) -> u16 {
    match configured {
        Some(port) => port,
        None => match variable {
            Some(value) => match parse_unsigned(value, u16::MAX as nat) {
                Some(n) => n as u16,
                None => DEFAULT_METRICS_PORT,
            },
            None => DEFAULT_METRICS_PORT,
        },
    }
}

/// The port to listen on, given what was configured and what the environment
/// variable holds.
pub fn metrics_port(configured: Option<u16>, variable: Option<&str>) -> (port: u16)
    ensures
        port == port_of(
            configured,
            match variable {
                Some(value) => Some(value@),
                None => None,
            },
        ),
{
    if let Some(port) = configured {
        return port;
    }
    match variable {
        Some(value) => match parse_number(&chars_of(value), 65535) {
            Some(n) => n as u16,
            None => DEFAULT_METRICS_PORT,
        },
        None => DEFAULT_METRICS_PORT,
    }
}

/// The loopback address with the given port.
pub open spec fn addr_text(port: u16) -> Seq<char> {
    "127.0.0.1:"@ + decimal(port as nat)
}

/// The address at which the metrics are served.
pub open spec fn url_text(port: u16) -> Seq<char> {
    "http://"@ + addr_text(port) + "/metrics"@
}

/// The address to bind: the loopback address with the given port.
pub fn metrics_addr(port: u16) -> (s: String)
    ensures
        s@ == addr_text(port),
{
    let mut out: Vec<char> = Vec::new();
    push_str(&mut out, "127.0.0.1:");
    push_decimal(&mut out, port as u128);
    string_of(&out)
}

/// The address at which a client finds the metrics.
pub fn metrics_url(port: u16) -> (s: String)
    ensures
        s@ == url_text(port),
{
    let mut out: Vec<char> = Vec::new();
    push_str(&mut out, "http://");
    push_str(&mut out, metrics_addr(port).as_str());
    push_str(&mut out, "/metrics");
    assert(out@ =~= url_text(port));
    string_of(&out)
}

/// What is said once the endpoint listens.
pub fn listening_message(addr: &str) -> (s: String)
    ensures
        s@ == "Channel metrics server listening on http://"@ + addr@,
{
    let mut out: Vec<char> = Vec::new();
    push_str(&mut out, "Channel metrics server listening on http://");
    push_str(&mut out, addr);
    string_of(&out)
}

/// What is said when the address cannot be bound; it names the variable that
/// overrides the port.
pub fn bind_failure_message(addr: &str, error: &str) -> (s: String)
    ensures
        s@ == "Failed to bind metrics server to "@ + addr@ + ": "@ + error@
            + ". Customize the port using the "@ + port_variable_text()
            + " environment variable."@,
{
    let mut out: Vec<char> = Vec::new();
    push_str(&mut out, "Failed to bind metrics server to ");
    push_str(&mut out, addr);
    push_str(&mut out, ": ");
    push_str(&mut out, error);
    push_str(&mut out, ". Customize the port using the ");
    push_str(&mut out, port_variable());
    push_str(&mut out, " environment variable.");
    string_of(&out)
}

/// What a request asks for.
#[derive(Debug, Clone, Copy, PartialEq, Eq, Structural)]
pub enum Route {
    /// The metrics.
    Metrics,
    /// Anything else.
    NotFound,
}

/// A `GET` of `/metrics` asks for the metrics; nothing else is served.
pub open spec fn route_of(method: Seq<char>, url: Seq<char>) -> Route {
    if method == "GET"@ && url == "/metrics"@ {
        Route::Metrics
    } else {
        Route::NotFound
    }
}

/// What the request with this method and this path asks for.
pub fn route(method: &str, url: &str) -> (r: Route)
    ensures
        r == route_of(method@, url@),
{
    if str_eq(method, "GET") && str_eq(url, "/metrics") {
        Route::Metrics
    } else {
        Route::NotFound
    }
}

/// The answer to a request.
#[derive(Debug)]
pub struct Reply {
    /// The status code.
    pub status: u16,
    /// Whether the body is JSON; it is plain text otherwise.
    pub json: bool,
    /// The body.
    pub body: String,
    /// What to write to the error log, if anything.
    pub diagnostic: Option<String>,
}

impl Reply {
    /// Whether this answers a request for the metrics, given how writing them as
    /// JSON went: the JSON with status 200, or status 500 with the error, which
    /// is logged as well.
    pub open spec fn answers_metrics(self, written: Result<Seq<char>, Seq<char>>) -> bool {
        match written {
            Ok(json) => {
                &&& self.status == 200
                &&& self.json
                &&& self.body@ == json
                &&& self.diagnostic is None
            },
            Err(error) => {
                &&& self.status == 500
                &&& !self.json
                &&& self.body@ == "Internal server error: "@ + error
                &&& self.diagnostic is Some
                &&& self.diagnostic->0@ == "Failed to serialize metrics: "@ + error
            },
        }
    }

    /// Whether this is the answer to a request for anything but the metrics.
    pub open spec fn is_not_found(self) -> bool {
        &&& self.status == 404
        &&& !self.json
        &&& self.body@ == "Not found"@
        &&& self.diagnostic is None
    }
}

/// The answer to a request for the metrics, given how writing them as JSON went.
pub fn metrics_reply(written: Result<String, String>) -> (r: Reply)
    ensures
        r.answers_metrics(
            match written {
                Ok(json) => Ok(json@),
                Err(error) => Err(error@),
            },
        ),
{
    match written {
        Ok(json) => Reply { status: 200, json: true, body: json, diagnostic: None },
        Err(error) => {
            let mut body: Vec<char> = Vec::new();
            push_str(&mut body, "Internal server error: ");
            push_str(&mut body, error.as_str());
            let mut line: Vec<char> = Vec::new();
            push_str(&mut line, "Failed to serialize metrics: ");
            push_str(&mut line, error.as_str());
            Reply {
                status: 500,
                json: false,
                body: string_of(&body),
                diagnostic: Some(string_of(&line)),
            }
        },
    }
}

/// The answer to a request for anything but the metrics.
pub fn not_found_reply() -> (r: Reply)
    ensures
        r.is_not_found(),
{
    Reply { status: 404, json: false, body: string_of(&chars_of("Not found")), diagnostic: None }
}

} // verus!
