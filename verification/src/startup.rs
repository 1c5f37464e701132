//! What the application needs to start.

use vstd::prelude::*;
use vstd::string::*;
use crate::text::{decimal, decimal_string};

verus! {

/// The address under which the application is reached from outside; links in
/// emails start with it.
#[derive(Debug)]
pub struct ApplicationBaseUrl(pub String);

/// The address that the server listens on: the host, a colon, the port.
pub fn bind_address(host: &str, port: u16) -> (address: String)
    ensures
        address@ == host@ + ":"@ + decimal(port as nat),
{
    let mut address = String::from_str(host);
    address.append(":");
    let port = decimal_string(port as u64);
    address.append(port.as_str());
    address
}

} // verus!
