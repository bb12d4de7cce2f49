//! The embedded HTTP endpoint: the ports it tries, the addresses it
//! announces, and how it answers a request.
use vstd::prelude::*;

use crate::text::{decimal, decimal_text, lemma_parse_decimal_text, parse_decimal};

verus! {

/// The first port the endpoint tries to listen on.
pub const BASE_PORT: u16 = 53789;

/// How many consecutive ports, from `BASE_PORT` on, the endpoint tries.
pub const MAX_TRIES: u16 = 100;

/// Where the endpoint listens once it has started.
#[derive(Clone, Debug)]
pub struct ServerInfo {
    pub port: u16,
    pub lan_ip: String,
}

/// The port to try after listening on `port` failed, or `None` once
/// `MAX_TRIES` ports have been tried.
pub open spec fn next_port(port: int) -> Option<int> {
    if port - BASE_PORT + 1 >= MAX_TRIES {
        None
    } else {
        Some(port + 1)
    }
}

/// The port of attempt number `k` (from 0), or `None` where the endpoint has
/// given up before it, every earlier attempt having failed.
pub open spec fn port_attempt(k: nat) -> Option<int>
    decreases k,
{
    if k == 0 {
        Some(BASE_PORT as int)
    } else {
        match port_attempt((k - 1) as nat) {
            Some(p) => next_port(p),
            None => None,
        }
    }
}

/// The port to try after listening on `port` failed; see `next_port`.
pub fn port_after_failure(port: u16) -> (r: Option<u16>)
    requires
        BASE_PORT <= port,
    ensures
        r matches Some(p) ==> next_port(port as int) == Some(p as int),
        r is None ==> next_port(port as int) is None,
{
    if port - BASE_PORT + 1 >= MAX_TRIES {
        None
    } else {
        Some(port + 1)
    }
}

/// While every attempt fails, the endpoint tries exactly the ports
/// `BASE_PORT`, `BASE_PORT + 1`, ..., `BASE_PORT + MAX_TRIES - 1`, in this
/// order, and then gives up.
pub proof fn lemma_ports_tried(k: nat)
    ensures
        k < MAX_TRIES ==> port_attempt(k) == Some(BASE_PORT + k),
        k >= MAX_TRIES ==> port_attempt(k) is None,
    decreases k,
{
    if k > 0 {
        lemma_ports_tried((k - 1) as nat);
    }
}

/// The address that the endpoint announces for the local network: the one
/// detected, or the loopback address where none was.
pub open spec fn announced_ip(detected: Option<Seq<char>>) -> Seq<char> {
    match detected {
        Some(ip) => ip,
        None => "127.0.0.1"@,
    }
}

impl ServerInfo {
    /// The description of an endpoint listening on `port`, announcing the
    /// detected address `detected`, or the loopback address where none was.
    pub fn new(port: u16, detected: Option<String>) -> (info: ServerInfo)
        ensures
            info.port == port,
            info.lan_ip@ == announced_ip(
                match detected {
                    Some(ip) => Some(ip@),
                    None => None,
                },
            ),
    {
        let lan_ip = match detected {
            Some(ip) => ip,
            None => String::from_str("127.0.0.1"),
        };
        ServerInfo { port, lan_ip }
    }

    /// `http://<lan_ip>:<port>`.
    pub open spec fn lan_url_text(self) -> Seq<char> {
        "http://"@ + self.lan_ip@ + ":"@ + decimal_text(self.port as nat)
    }

    /// `http://127.0.0.1:<port>`.
    pub open spec fn local_url_text(self) -> Seq<char> {
        "http://127.0.0.1:"@ + decimal_text(self.port as nat)
    }

    /// The address of the endpoint on the local network.
    pub fn lan_url(&self) -> (s: String)
        ensures
            s@ == self.lan_url_text(),
    {
        let mut s = String::from_str("http://");
        s.append(self.lan_ip.as_str());
        s.append(":");
        let port = decimal(self.port as u64);
        s.append(port.as_str());
        s
    }

    /// The address of the endpoint on this machine.
    pub fn local_url(&self) -> (s: String)
        ensures
            s@ == self.local_url_text(),
    {
        let mut s = String::from_str("http://127.0.0.1:");
        let port = decimal(self.port as u64);
        s.append(port.as_str());
        s
    }

    /// The tray menu caption that shows the local network address.
    pub fn lan_label(&self) -> (s: String)
        ensures
            s@ == "局域网  "@ + self.lan_url_text(),
    {
        let mut s = String::from_str("局域网  ");
        let url = self.lan_url();
        s.append(url.as_str());
        s
    }

    /// The tray menu caption that shows the address on this machine.
    pub fn local_label(&self) -> (s: String)
        ensures
            s@ == "本地 "@ + self.local_url_text(),
    {
        let mut s = String::from_str("本地 ");
        let url = self.local_url();
        s.append(url.as_str());
        s
    }
}

/// With no address detected, the address announced for the local network
/// is the one on this machine; and the address on this machine ends in the
/// port, written in decimal.
pub proof fn lemma_announced_addresses(info: ServerInfo)
    ensures
        info.lan_ip@ == announced_ip(None) ==> info.lan_url_text() == info.local_url_text(),
        parse_decimal(info.local_url_text().skip("http://127.0.0.1:"@.len() as int)) == Some(
            info.port as nat,
        ),
{
    reveal_strlit("http://");
    reveal_strlit("127.0.0.1");
    reveal_strlit(":");
    reveal_strlit("http://127.0.0.1:");
    assert("http://"@ + "127.0.0.1"@ + ":"@ =~= "http://127.0.0.1:"@);
    assert(info.local_url_text().skip("http://127.0.0.1:"@.len() as int) =~= decimal_text(
        info.port as nat,
    ));
    lemma_parse_decimal_text(info.port as nat);
}

} // verus!
