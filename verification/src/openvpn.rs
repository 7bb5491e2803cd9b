//! The configuration text of the native VPN client.

use vstd::prelude::*;
use vstd::string::*;
use crate::ip::Ipv4Addr;
use crate::protocol::ConnectionProtocol;
use crate::servers::{entry_ips_of, LogicalServer};
use crate::split_tunnel::{parse_split_tunnel, split_tunnel_of, IpNm};
use crate::text::{decimal, push_decimal};

verus! {

/// Start of every configuration; the protocol's keyword follows it.
pub const CLIENT_HEAD: &'static str = "client\ndev tun\nproto ";

/// The directives that follow the remote lines.
pub const CLIENT_BODY: &'static str =
    "\nremote-random\nresolv-retry infinite\nnobind\ncipher AES-256-CBC\nauth SHA512\ncomp-lzo no\nverb 3\n\ntun-mtu 1500\ntun-mtu-extra 32\nmssfix 1450\npersist-key\npersist-tun\n\nreneg-sec 0\n\nremote-cert-tls server\nauth-user-pass\npull\nfast-io\n";

/// The directives that keep IPv6 settings of the server from being applied.
pub const IPV6_FILTER: &'static str =
    "\npull-filter ignore \"ifconfig-ipv6\"\npull-filter ignore \"route-ipv6\"\n";

/// Why no configuration text was produced.
#[derive(Debug, PartialEq, Eq, Structural, Copy, Clone)]
pub enum ConfigError {
    /// The configuration would name no server or no port.
    TemplateError,
    /// A line of the split-tunnel text spells no route.
    SplitTunnelParseError {
        /// Position of the line in the text, counted from 0.
        line: usize,
    },
}

/// What the configuration text is made from.
#[derive(Debug, Clone, PartialEq, Eq)]
pub struct OpenVpnConfig {
    pub openvpn_protocol: ConnectionProtocol,
    /// Entry addresses of the endpoint's machines.
    pub server_list: Vec<Ipv4Addr>,
    pub openvpn_ports: Vec<usize>,
    /// Whether to route some subnets around the tunnel.
    pub split: bool,
    /// The subnets routed around the tunnel; read only when `split` is set.
    pub ip_nm_pairs: Vec<IpNm>,
    /// Whether the server's IPv6 settings are ignored.
    pub ipv6_disabled: bool,
}

/// One line that names a server and a port to connect to.
pub open spec fn remote_line(ip: Ipv4Addr, port: nat) -> Seq<char> {
    "remote "@ + ip.text() + seq![' '] + decimal(port) + seq!['\n']
}

/// The remote lines of one server: one for each port, in order.
pub open spec fn server_lines(ip: Ipv4Addr, ports: Seq<usize>) -> Seq<char>
    decreases ports.len(),
{
    if ports.len() == 0 {
        Seq::<char>::empty()
    } else {
        server_lines(ip, ports.drop_last()) + remote_line(ip, ports.last() as nat)
    }
}

/// The remote lines of all servers, in order.
pub open spec fn remote_lines(servers: Seq<Ipv4Addr>, ports: Seq<usize>) -> Seq<char>
    decreases servers.len(),
{
    if servers.len() == 0 {
        Seq::<char>::empty()
    } else {
        remote_lines(servers.drop_last(), ports) + server_lines(servers.last(), ports)
    }
}

/// One line that routes a subnet around the tunnel.
pub open spec fn route_line(pair: IpNm) -> Seq<char> {
    "route "@ + pair.ip.text() + seq![' '] + pair.nm.text() + " net_gateway\n"@
}

/// The route lines of all subnets, in order.
pub open spec fn route_lines(pairs: Seq<IpNm>) -> Seq<char>
    decreases pairs.len(),
{
    if pairs.len() == 0 {
        Seq::<char>::empty()
    } else {
        route_lines(pairs.drop_last()) + route_line(pairs.last())
    }
}

/// The whole configuration text.
pub open spec fn rendered_text(
    protocol: ConnectionProtocol,
    servers: Seq<Ipv4Addr>,
    ports: Seq<usize>,
    split: bool,
    pairs: Seq<IpNm>,
    ipv6_disabled: bool,
) -> Seq<char> {
    CLIENT_HEAD@ + protocol.keyword_text() + seq!['\n', '\n'] + remote_lines(servers, ports)
        + CLIENT_BODY@ + (if ipv6_disabled {
        IPV6_FILTER@
    } else {
        Seq::<char>::empty()
    }) + (if split {
        seq!['\n'] + route_lines(pairs)
    } else {
        Seq::<char>::empty()
    })
}

/// What `create_openvpn_config` yields. The split-tunnel text is read
/// first, so its error comes before that of an empty list of servers or
/// ports. IPv6 settings are always ignored.
pub open spec fn config_text(
    servers: Seq<Ipv4Addr>,
    protocol: ConnectionProtocol,
    ports: Seq<usize>,
    split_tunnel: Option<Seq<char>>,
) -> Result<Seq<char>, ConfigError> {
    let routes = match split_tunnel {
        Some(text) => split_tunnel_of(text),
        None => Ok(Seq::<IpNm>::empty()),
    };
    match routes {
        Err(at) => Err(ConfigError::SplitTunnelParseError { line: at as usize }),
        Ok(pairs) => if servers.len() == 0 || ports.len() == 0 {
            Err(ConfigError::TemplateError)
        } else {
            Ok(rendered_text(protocol, servers, ports, split_tunnel is Some, pairs, true))
        },
    }
}

/// Appends the remote line of `ip` and `port` to `out`.
fn push_remote_line(out: &mut String, ip: &Ipv4Addr, port: usize)
    ensures
        final(out)@ == old(out)@ + remote_line(*ip, port as nat),
{
    out.append("remote ");
    ip.push_text(out);
    out.push(' ');
    push_decimal(out, port as u64);
    out.push('\n');
    assert(final(out)@ =~= old(out)@ + remote_line(*ip, port as nat));
}

/// Appends the remote lines of all servers to `out`.
fn push_remote_lines(out: &mut String, servers: &Vec<Ipv4Addr>, ports: &Vec<usize>)
    ensures
        final(out)@ == old(out)@ + remote_lines(servers@, ports@),
{
    let mut i: usize = 0;
    assert(servers@.take(0) =~= Seq::<Ipv4Addr>::empty());
    assert(out@ =~= old(out)@ + remote_lines(servers@.take(0), ports@));
    while i < servers.len()
        invariant
            i <= servers.len(),
            out@ == old(out)@ + remote_lines(servers@.take(i as int), ports@),
        decreases servers.len() - i,
    {
        let ghost before = out@;
        let mut j: usize = 0;
        assert(ports@.take(0) =~= Seq::<usize>::empty());
        assert(out@ =~= before + server_lines(servers@[i as int], ports@.take(0)));
        while j < ports.len()
            invariant
                i < servers.len(),
                j <= ports.len(),
                out@ == before + server_lines(servers@[i as int], ports@.take(j as int)),
            decreases ports.len() - j,
        {
            push_remote_line(out, &servers[i], ports[j]);
            proof {
                assert(ports@.take(j + 1).drop_last() =~= ports@.take(j as int));
                assert(ports@.take(j + 1).last() == ports@[j as int]);
                assert(out@ =~= before + server_lines(servers@[i as int], ports@.take(j + 1)));
            }
            j += 1;
        }
        proof {
            assert(ports@.take(ports.len() as int) =~= ports@);
            assert(servers@.take(i + 1).drop_last() =~= servers@.take(i as int));
            assert(servers@.take(i + 1).last() == servers@[i as int]);
            assert(out@ =~= old(out)@ + remote_lines(servers@.take(i + 1), ports@));
        }
        i += 1;
    }
    assert(servers@.take(servers.len() as int) =~= servers@);
}

/// Appends the route lines of all subnets to `out`.
fn push_route_lines(out: &mut String, pairs: &Vec<IpNm>)
    ensures
        final(out)@ == old(out)@ + route_lines(pairs@),
{
    let mut i: usize = 0;
    assert(pairs@.take(0) =~= Seq::<IpNm>::empty());
    assert(out@ =~= old(out)@ + route_lines(pairs@.take(0)));
    while i < pairs.len()
        invariant
            i <= pairs.len(),
            out@ == old(out)@ + route_lines(pairs@.take(i as int)),
        decreases pairs.len() - i,
    {
        let ghost before = out@;
        out.append("route ");
        pairs[i].ip.push_text(out);
        out.push(' ');
        pairs[i].nm.push_text(out);
        out.append(" net_gateway\n");
        proof {
            assert(out@ =~= before + route_line(pairs@[i as int]));
            assert(pairs@.take(i + 1).drop_last() =~= pairs@.take(i as int));
            assert(pairs@.take(i + 1).last() == pairs@[i as int]);
            assert(out@ =~= old(out)@ + route_lines(pairs@.take(i + 1)));
        }
        i += 1;
    }
    assert(pairs@.take(pairs.len() as int) =~= pairs@);
}

/// Appends the whole configuration text to `out`.
fn push_rendered(
    out: &mut String,
    protocol: ConnectionProtocol,
    servers: &Vec<Ipv4Addr>,
    ports: &Vec<usize>,
    split: bool,
    pairs: &Vec<IpNm>,
    ipv6_disabled: bool,
)
    ensures
        final(out)@ == old(out)@ + rendered_text(
            protocol,
            servers@,
            ports@,
            split,
            pairs@,
            ipv6_disabled,
        ),
{
    out.append(CLIENT_HEAD);
    out.append(protocol.keyword());
    out.push('\n');
    out.push('\n');
    push_remote_lines(out, servers, ports);
    out.append(CLIENT_BODY);
    if ipv6_disabled {
        out.append(IPV6_FILTER);
    }
    if split {
        out.push('\n');
        push_route_lines(out, pairs);
    }
    assert(final(out)@ =~= old(out)@ + rendered_text(
        protocol,
        servers@,
        ports@,
        split,
        pairs@,
        ipv6_disabled,
    ));
}

impl OpenVpnConfig {
    /// The text that the configuration renders to.
    pub open spec fn rendered(&self) -> Seq<char> {
        rendered_text(
            self.openvpn_protocol,
            self.server_list@,
            self.openvpn_ports@,
            self.split,
            self.ip_nm_pairs@,
            self.ipv6_disabled,
        )
    }

    /// Renders the configuration text. A configuration without a server or
    /// without a port is refused.
    pub fn render(&self) -> (r: Result<String, ConfigError>)
        ensures
            match r {
                Ok(text) => self.server_list@.len() > 0 && self.openvpn_ports@.len() > 0 && text@
                    == self.rendered(),
                Err(e) => (self.server_list@.len() == 0 || self.openvpn_ports@.len() == 0) && e
                    == ConfigError::TemplateError,
            },
    {
        if self.server_list.len() == 0 || self.openvpn_ports.len() == 0 {
            return Err(ConfigError::TemplateError);
        }
        let mut text = String::new();
        push_rendered(
            &mut text,
            self.openvpn_protocol,
            &self.server_list,
            &self.openvpn_ports,
            self.split,
            &self.ip_nm_pairs,
            self.ipv6_disabled,
        );
        assert(text@ =~= self.rendered());
        Ok(text)
    }
}

/// Writes the configuration text for the given servers, protocol and ports
/// to the end of `output_file`. With a split-tunnel text, its routes are
/// added; its first malformed line fails the whole call. On failure
/// `output_file` is left as it was.
pub fn create_openvpn_config(
    servers: &Vec<Ipv4Addr>,
    protocol: &ConnectionProtocol,
    ports: &Vec<usize>,
    split_tunnel_file: Option<&str>,
    output_file: &mut String,
) -> (r: Result<(), ConfigError>)
    ensures
        match (
            r,
            config_text(
                servers@,
                *protocol,
                ports@,
                match split_tunnel_file {
                    Some(text) => Some(text@),
                    None => None,
                },
            ),
        ) {
            (Ok(()), Ok(text)) => final(output_file)@ == old(output_file)@ + text,
            (Err(e), Err(expected)) => e == expected && final(output_file)@ == old(output_file)@,
            _ => false,
        },
{
    let pairs: Vec<IpNm> = match split_tunnel_file {
        Some(text) => match parse_split_tunnel(text) {
            Ok(pairs) => pairs,
            Err(at) => {
                return Err(ConfigError::SplitTunnelParseError { line: at });
            },
        },
        None => Vec::new(),
    };
    if servers.len() == 0 || ports.len() == 0 {
        return Err(ConfigError::TemplateError);
    }
    push_rendered(output_file, *protocol, servers, ports, split_tunnel_file.is_some(), &pairs, true);
    Ok(())
}

/// The configuration text for a connection to `server` over `protocol`:
/// all entry addresses of the server's machines, the one port of the
/// protocol, and no split tunnel.
pub fn connection_config(server: &LogicalServer, protocol: &ConnectionProtocol) -> (r: Result<
    String,
    ConfigError,
>)
    ensures
        match r {
            Ok(text) => server.servers@.len() > 0 && text@ == rendered_text(
                *protocol,
                entry_ips_of(server.servers@),
                seq![protocol.port_number() as usize],
                false,
                Seq::<IpNm>::empty(),
                true,
            ),
            Err(e) => server.servers@.len() == 0 && e == ConfigError::TemplateError,
        },
{
    let ips = server.entry_ips();
    let mut ports: Vec<usize> = Vec::new();
    ports.push(protocol.port());
    assert(ports@ =~= seq![protocol.port_number() as usize]);
    let mut text = String::new();
    match create_openvpn_config(&ips, protocol, &ports, None, &mut text) {
        Ok(()) => {
            assert(text@ =~= rendered_text(
                *protocol,
                entry_ips_of(server.servers@),
                seq![protocol.port_number() as usize],
                false,
                Seq::<IpNm>::empty(),
                true,
            ));
            Ok(text)
        },
        Err(e) => Err(e),
    }
}

/// With the one port of its protocol, every remote line of a configuration
/// ends in that port: `1194` for UDP and `443` for TCP, and never the other.
pub proof fn lemma_remote_lines_carry_port(servers: Seq<Ipv4Addr>, protocol: ConnectionProtocol)
    ensures
        decimal(ConnectionProtocol::UDP.port_number()) == seq!['1', '1', '9', '4'],
        decimal(ConnectionProtocol::TCP.port_number()) == seq!['4', '4', '3'],
        forall|ip: Ipv4Addr| #[trigger]
            server_lines(ip, seq![protocol.port_number() as usize]) == "remote "@ + ip.text()
                + seq![' '] + decimal(protocol.port_number()) + seq!['\n'],
        servers.len() > 0 ==> remote_lines(servers, seq![protocol.port_number() as usize])
            == remote_lines(servers.drop_last(), seq![protocol.port_number() as usize])
            + remote_line(servers.last(), protocol.port_number()),
{
    reveal_with_fuel(decimal, 5);
    assert(decimal(1194) =~= seq!['1', '1', '9', '4']);
    assert(decimal(443) =~= seq!['4', '4', '3']);
    let ports = seq![protocol.port_number() as usize];
    assert(ports.drop_last() =~= Seq::<usize>::empty());
    assert forall|ip: Ipv4Addr| #[trigger]
        server_lines(ip, ports) == "remote "@ + ip.text() + seq![' '] + decimal(
            protocol.port_number(),
        ) + seq!['\n'] by {
        reveal_with_fuel(server_lines, 3);
        assert(server_lines(ip, ports.drop_last()) =~= Seq::<char>::empty());
        assert(server_lines(ip, ports) =~= remote_line(ip, protocol.port_number()));
    }
    if servers.len() > 0 {
        assert(server_lines(servers.last(), ports) == remote_line(
            servers.last(),
            protocol.port_number(),
        ));
    }
}

/// A remote line tells the protocol: no line with the port of UDP is a line
/// with the port of TCP, whatever the servers are.
pub proof fn lemma_remote_line_tells_protocol(udp_server: Ipv4Addr, tcp_server: Ipv4Addr)
    ensures
        remote_line(udp_server, ConnectionProtocol::UDP.port_number()) != remote_line(
            tcp_server,
            ConnectionProtocol::TCP.port_number(),
        ),
{
    reveal_with_fuel(decimal, 5);
    assert(decimal(1194) =~= seq!['1', '1', '9', '4']);
    assert(decimal(443) =~= seq!['4', '4', '3']);
    let u = remote_line(udp_server, 1194);
    let t = remote_line(tcp_server, 443);
    assert(u[u.len() - 5] == '1');
    assert(t[t.len() - 5] == ' ');
}

} // verus!
