//! The daemon's client end: where it connects.
use vstd::prelude::*;
use crate::text::{append_chars, decimal, decimal_chars};

verus! {

/// The port the daemon listens on unless told otherwise.
pub const DEFAULT_DAEMON_PORT: u16 = 8888;

/// A client of the daemon at a local port.
#[derive(Debug)]
pub struct DaemonClient {
    address: String,
}

impl DaemonClient {
    pub closed spec fn address_view(&self) -> Seq<char> {
        self.address@
    }

    /// A client of the daemon at `127.0.0.1` on `port`, or on the default
    /// port.
    pub fn new(port: Option<u16>) -> (c: Self)
        ensures
            c.address_view() == "127.0.0.1:"@ + decimal(match port { Some(p) => p as nat, None => DEFAULT_DAEMON_PORT as nat }),
    {
        let p = match port {
            Some(p) => p,
            None => DEFAULT_DAEMON_PORT,
        };
        let mut address = "127.0.0.1:".to_owned();
        let d = decimal_chars(p as u128);
        append_chars(&mut address, d.as_slice());
        DaemonClient { address }
    }

    /// The address the client connects to.
    pub fn address(&self) -> (a: &String)
        ensures
            a@ == self.address_view(),
    {
        &self.address
    }
}

impl Default for DaemonClient {
    fn default() -> (c: Self)
        ensures
            c.address_view() == "127.0.0.1:"@ + decimal(DEFAULT_DAEMON_PORT as nat),
    {
        Self::new(None)
    }
}

} // verus!
