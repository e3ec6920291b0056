//! The server's settings: where it listens.

use vstd::prelude::*;

use crate::text::{decimal, push_decimal};

verus! {

/// The port used when none is given.
pub const DEFAULT_PORT: u16 = 8080;

/// The address and port to listen on; each may be left to its default.
#[derive(Clone, Debug, PartialEq, Eq)]
pub struct HTTPArgs {
    /// IP address, as `1.2.3.4`; `127.0.0.1` when absent.
    pub ip_addr: Option<String>,
    /// Port number; 8080 when absent.
    pub port: Option<u16>,
}

/// The address to bind, `ADDRESS:PORT`.
pub open spec fn bind_address_of(ip_addr: Option<Seq<char>>, port: Option<u16>) -> Seq<char> {
    let ip = match ip_addr {
        Some(a) => a,
        None => "127.0.0.1"@,
    };
    let p = match port {
        Some(p) => p,
        None => DEFAULT_PORT,
    };
    ip + ":"@ + decimal(p as nat)
}

impl HTTPArgs {
    /// The address to bind, with the defaults filled in.
    pub fn bind_address(&self) -> (r: String)
        ensures
            r@ == bind_address_of(
                match self.ip_addr {
                    Some(a) => Some(a@),
                    None => None,
                },
                self.port,
            ),
    {
        let mut r = match &self.ip_addr {
            Some(a) => a.clone(),
            None => String::from_str("127.0.0.1"),
        };
        r.append(":");
        let port: u16 = match self.port {
            Some(p) => p,
            None => DEFAULT_PORT,
        };
        push_decimal(&mut r, port as u64);
        r
    }
}

} // verus!
