//! Socket addresses as the program reads and shows them.

use crate::text::{decimal, same_text, u32_to_text};
use vstd::prelude::*;
use vstd::string::*;

verus! {

/// An address and a port. The host is held as the text in which it is shown,
/// without brackets.
#[derive(Debug, PartialEq, Eq)]
pub enum SocketAddr {
    V4 { ip: String, port: u16 },
    V6 { ip: String, port: u16, flowinfo: u32, scope_id: u32 },
}

/// What a `SocketAddr` stands for.
pub enum AddrView {
    V4 { ip: Seq<char>, port: u16 },
    V6 { ip: Seq<char>, port: u16, flowinfo: u32, scope_id: u32 },
}

impl View for SocketAddr {
    type V = AddrView;

    open spec fn view(&self) -> AddrView {
        match *self {
            SocketAddr::V4 { ip, port } => AddrView::V4 { ip: ip@, port },
            SocketAddr::V6 { ip, port, flowinfo, scope_id } => AddrView::V6 {
                ip: ip@,
                port,
                flowinfo,
                scope_id,
            },
        }
    }
}

impl AddrView {
    /// The port.
    pub open spec fn port(self) -> u16 {
        match self {
            AddrView::V4 { ip, port } => port,
            AddrView::V6 { ip, port, flowinfo, scope_id } => port,
        }
    }

    /// The same host with another port. A flow label and a scope do not carry
    /// over.
    pub open spec fn with_port(self, port: u16) -> AddrView {
        match self {
            AddrView::V4 { ip, port: _ } => AddrView::V4 { ip, port },
            AddrView::V6 { ip, port: _, flowinfo: _, scope_id: _ } => AddrView::V6 {
                ip,
                port,
                flowinfo: 0,
                scope_id: 0,
            },
        }
    }

    /// The text in which the address is shown: `ip:port`, `[ip]:port`, or
    /// `[ip%scope]:port`.
    pub open spec fn text(self) -> Seq<char> {
        match self {
            AddrView::V4 { ip, port } => ip + seq![':'] + decimal(port as nat),
            AddrView::V6 { ip, port, flowinfo, scope_id } => {
                let scope = if scope_id == 0 {
                    Seq::empty()
                } else {
                    seq!['%'] + decimal(scope_id as nat)
                };
                seq!['['] + ip + scope + seq![']', ':'] + decimal(port as nat)
            },
        }
    }
}

impl Clone for SocketAddr {
    fn clone(&self) -> (copy: Self)
        ensures
            copy == *self,
    {
        match self {
            SocketAddr::V4 { ip, port } => SocketAddr::V4 { ip: ip.clone(), port: *port },
            SocketAddr::V6 { ip, port, flowinfo, scope_id } => SocketAddr::V6 {
                ip: ip.clone(),
                port: *port,
                flowinfo: *flowinfo,
                scope_id: *scope_id,
            },
        }
    }
}

impl SocketAddr {
    /// The port.
    pub fn port(&self) -> (port: u16)
        ensures
            port == self@.port(),
    {
        match self {
            SocketAddr::V4 { ip: _, port } => *port,
            SocketAddr::V6 { ip: _, port, flowinfo: _, scope_id: _ } => *port,
        }
    }

    /// The same host with another port.
    pub fn with_port(&self, port: u16) -> (addr: SocketAddr)
        ensures
            addr@ == self@.with_port(port),
    {
        match self {
            SocketAddr::V4 { ip, port: _ } => SocketAddr::V4 { ip: ip.clone(), port },
            SocketAddr::V6 { ip, port: _, flowinfo: _, scope_id: _ } => SocketAddr::V6 {
                ip: ip.clone(),
                port,
                flowinfo: 0,
                scope_id: 0,
            },
        }
    }

    /// The text in which the address is shown.
    pub fn text(&self) -> (t: String)
        ensures
            t@ == self@.text(),
    {
        proof {
            reveal_strlit(":");
            reveal_strlit("[");
            reveal_strlit("%");
            reveal_strlit("]:");
            assert(":"@ == seq![':']);
            assert("["@ == seq!['[']);
            assert("%"@ == seq!['%']);
            assert("]:"@ == seq![']', ':']);
        }
        match self {
            SocketAddr::V4 { ip, port } => ip.clone().concat(":").concat(
                u32_to_text(*port as u32).as_str(),
            ),
            SocketAddr::V6 { ip, port, flowinfo: _, scope_id } => {
                let mut t = "[".to_owned().concat(ip.as_str());
                if *scope_id != 0 {
                    t.append("%");
                    t.append(u32_to_text(*scope_id).as_str());
                }
                let t = t.concat("]:").concat(u32_to_text(*port as u32).as_str());
                proof {
                    assert(t@ == self@.text());
                }
                t
            },
        }
    }

    /// Whether both are the same address.
    pub fn same(&self, other: &SocketAddr) -> (same: bool)
        ensures
            same == (self@ == other@),
    {
        match self {
            SocketAddr::V4 { ip: ip1, port: port1 } => match other {
                SocketAddr::V4 { ip: ip2, port: port2 } => {
                    same_text(ip1.as_str(), ip2.as_str()) && *port1 == *port2
                },
                _ => false,
            },
            SocketAddr::V6 { ip: ip1, port: port1, flowinfo: flow1, scope_id: scope1 } => {
                match other {
                    SocketAddr::V6 { ip: ip2, port: port2, flowinfo: flow2, scope_id: scope2 } => {
                        same_text(ip1.as_str(), ip2.as_str()) && *port1 == *port2 && *flow1
                            == *flow2 && *scope1 == *scope2
                    },
                    _ => false,
                }
            },
        }
    }
}

} // verus!
