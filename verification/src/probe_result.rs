//! The record of one probe of one proxy.

use vstd::prelude::*;
use vstd::string::StringExecFns;

verus! {

/// What a connectable handler tells about itself: its display name and its
/// protocol tag, and the endpoint of its descriptor where that is known.
#[derive(Debug, Clone, PartialEq, Eq)]
pub struct HandlerInfo {
    pub name: String,
    pub protocol: String,
    pub endpoint: Option<(String, u16)>,
}

/// Outcome of testing one proxy in one probe cycle.
#[derive(Debug, Clone, PartialEq, Eq)]
pub struct ProbeResult {
    pub name: String,
    pub server: String,
    pub port: u16,
    pub protocol: String,
    pub alive: bool,
    pub delay_ms: Option<u64>,
    pub error: Option<String>,
}

/// The mathematical model of a [`ProbeResult`].
pub struct ResultModel {
    pub name: Seq<char>,
    pub server: Seq<char>,
    pub port: u16,
    pub protocol: Seq<char>,
    pub alive: bool,
    pub delay_ms: Option<u64>,
    pub error: Option<Seq<char>>,
}

impl ResultModel {
    /// A live result has a delay and no error; a dead one an error and no
    /// delay.
    pub open spec fn wf(self) -> bool {
        &&& self.alive <==> self.delay_ms is Some
        &&& !self.alive <==> self.error is Some
    }
}

/// The characters of an optional text.
pub open spec fn text_model(t: Option<String>) -> Option<Seq<char>> {
    match t {
        Some(s) => Some(s@),
        None => None,
    }
}

impl View for ProbeResult {
    type V = ResultModel;

    open spec fn view(&self) -> ResultModel {
        ResultModel {
            name: self.name@,
            server: self.server@,
            port: self.port,
            protocol: self.protocol@,
            alive: self.alive,
            delay_ms: self.delay_ms,
            error: text_model(self.error),
        }
    }
}

/// The server that a result names where the handler's endpoint is unknown.
pub open spec fn placeholder_server() -> Seq<char> {
    "N/A"@
}

/// The endpoint that results for `handler` report.
pub open spec fn endpoint_of(handler: HandlerInfo) -> (Seq<char>, u16) {
    match handler.endpoint {
        Some((server, port)) => (server@, port),
        None => (placeholder_server(), 0u16),
    }
}

/// The endpoint of a handler, or the placeholder where it is unknown.
pub fn extract_server_and_port(handler: &HandlerInfo) -> (r: (String, u16))
    ensures
        (r.0@, r.1) == endpoint_of(*handler),
{
    match &handler.endpoint {
        Some((server, port)) => (server.clone(), *port),
        None => (String::from_str("N/A"), 0),
    }
}

impl ProbeResult {
    /// A live result has a delay and no error; a dead one an error and no delay.
    pub open spec fn wf(&self) -> bool {
        self@.wf()
    }

    /// The result of a check that succeeded after `delay_ms` milliseconds.
    pub fn from_success(handler: &HandlerInfo, delay_ms: u64) -> (r: ProbeResult)
        ensures
            r@ == (ResultModel {
                name: handler.name@,
                server: endpoint_of(*handler).0,
                port: endpoint_of(*handler).1,
                protocol: handler.protocol@,
                alive: true,
                delay_ms: Some(delay_ms),
                error: None,
            }),
            r.wf(),
    {
        let (server, port) = extract_server_and_port(handler);
        ProbeResult {
            name: handler.name.clone(),
            server,
            port,
            protocol: handler.protocol.clone(),
            alive: true,
            delay_ms: Some(delay_ms),
            error: None,
        }
    }

    /// The result of a check that failed for the reason `error`.
    pub fn from_error(handler: &HandlerInfo, error: &str) -> (r: ProbeResult)
        ensures
            r@ == (ResultModel {
                name: handler.name@,
                server: endpoint_of(*handler).0,
                port: endpoint_of(*handler).1,
                protocol: handler.protocol@,
                alive: false,
                delay_ms: None,
                error: Some(error@),
            }),
            r.wf(),
    {
        let (server, port) = extract_server_and_port(handler);
        ProbeResult {
            name: handler.name.clone(),
            server,
            port,
            protocol: handler.protocol.clone(),
            alive: false,
            delay_ms: None,
            error: Some(String::from_str(error)),
        }
    }

    /// A copy of this result.
    pub fn duplicate(&self) -> (r: ProbeResult)
        ensures
            r@ == self@,
    {
        ProbeResult {
            name: self.name.clone(),
            server: self.server.clone(),
            port: self.port,
            protocol: self.protocol.clone(),
            alive: self.alive,
            delay_ms: self.delay_ms,
            error: match &self.error {
                Some(e) => Some(e.clone()),
                None => None,
            },
        }
    }
}

} // verus!
