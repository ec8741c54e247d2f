//! Where the server listens.

use vstd::prelude::*;
use vstd::string::*;

use crate::error::{ErrorView, SymphonyError};

verus! {

/// The host and the port of the server.
#[derive(Debug)]
pub struct HttpServer {
    pub host: String,
    pub port: u16,
}

impl HttpServer {
    /// A server on a host and a port.
    pub fn new(host: String, port: u16) -> (r: Self)
        ensures
            r.host == host,
            r.port == port,
    {
        HttpServer { host, port }
    }
}

/// The error for a host that is no address, with the reason.
pub fn invalid_host(host: &str, reason: &str) -> (r: SymphonyError)
    ensures
        r@ == ErrorView::Http("invalid server host '"@ + host@ + "': "@ + reason@),
{
    let mut message: String = "invalid server host '".to_owned();
    message.append(host);
    message.append("': ");
    message.append(reason);
    SymphonyError::Http(message)
}

} // verus!
