//! The transport protocol of a connection and the port that goes with it.

use vstd::prelude::*;
use crate::text::{chars_of, eq_ignore_case, same_ignoring_case};

verus! {

/// The transport protocol of a VPN connection.
#[derive(Debug, PartialEq, Eq, Structural, Copy, Clone, Hash)]
pub enum ConnectionProtocol {
    /// User Datagram Protocol, the default.
    UDP,
    /// Transmission Control Protocol.
    TCP,
}

impl Default for ConnectionProtocol {
    fn default() -> (p: Self)
        ensures
            p == ConnectionProtocol::UDP,
    {
        ConnectionProtocol::UDP
    }
}

impl ConnectionProtocol {
    /// The port that the native client connects to: 1194 for UDP, 443 for TCP.
    pub open spec fn port_number(self) -> nat {
        match self {
            ConnectionProtocol::UDP => 1194,
            ConnectionProtocol::TCP => 443,
        }
    }

    /// The word that names the protocol in the native client's configuration.
    pub open spec fn keyword_text(self) -> Seq<char> {
        match self {
            ConnectionProtocol::UDP => "udp"@,
            ConnectionProtocol::TCP => "tcp"@,
        }
    }

    /// The name under which the protocol is shown.
    pub open spec fn label(self) -> Seq<char> {
        match self {
            ConnectionProtocol::UDP => "UDP"@,
            ConnectionProtocol::TCP => "TCP"@,
        }
    }

    /// Both protocols, the default first.
    pub open spec fn all() -> Seq<ConnectionProtocol> {
        seq![ConnectionProtocol::UDP, ConnectionProtocol::TCP]
    }

    /// What `text` names: `udp` or `tcp` in any mix of cases, or nothing.
    pub open spec fn named_by(text: Seq<char>) -> Option<ConnectionProtocol> {
        if eq_ignore_case(text, "udp"@) {
            Some(ConnectionProtocol::UDP)
        } else if eq_ignore_case(text, "tcp"@) {
            Some(ConnectionProtocol::TCP)
        } else {
            None
        }
    }

    /// The port that the native client connects to.
    pub fn port(self) -> (p: usize)
        ensures
            p == self.port_number(),
    {
        match self {
            ConnectionProtocol::UDP => 1194,
            ConnectionProtocol::TCP => 443,
        }
    }

    /// The word that names the protocol in the native client's configuration.
    pub fn keyword(self) -> (s: &'static str)
        ensures
            s@ == self.keyword_text(),
    {
        match self {
            ConnectionProtocol::UDP => "udp",
            ConnectionProtocol::TCP => "tcp",
        }
    }

    /// The name under which the protocol is shown.
    pub fn name(self) -> (s: &'static str)
        ensures
            s@ == self.label(),
    {
        match self {
            ConnectionProtocol::UDP => "UDP",
            ConnectionProtocol::TCP => "TCP",
        }
    }

    /// Both protocols, the default first.
    pub fn variants() -> (v: Vec<ConnectionProtocol>)
        ensures
            v@ == ConnectionProtocol::all(),
    {
        let mut v: Vec<ConnectionProtocol> = Vec::new();
        v.push(ConnectionProtocol::UDP);
        v.push(ConnectionProtocol::TCP);
        assert(v@ =~= ConnectionProtocol::all());
        v
    }

    /// Reads a protocol name. `udp` and `tcp` are accepted in any mix of
    /// cases; every other text is refused with a message.
    pub fn from_str(s: &str) -> (r: Result<ConnectionProtocol, String>)
        ensures
            match r {
                Ok(p) => ConnectionProtocol::named_by(s@) == Some(p),
                Err(msg) => ConnectionProtocol::named_by(s@) is None && msg@
                    == "String must be udp or tcp"@,
            },
    {
        let text = chars_of(s);
        let udp = chars_of("udp");
        let tcp = chars_of("tcp");
        if same_ignoring_case(&text, &udp) {
            Ok(ConnectionProtocol::UDP)
        } else if same_ignoring_case(&text, &tcp) {
            Ok(ConnectionProtocol::TCP)
        } else {
            Err("String must be udp or tcp".to_owned())
        }
    }
}

/// Each protocol has its own port, and the two ports differ.
pub proof fn lemma_ports_fixed(p: ConnectionProtocol)
    ensures
        p == ConnectionProtocol::UDP <==> p.port_number() == 1194,
        p == ConnectionProtocol::TCP <==> p.port_number() == 443,
{
}

} // verus!
