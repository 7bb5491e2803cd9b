//! Routes that bypass the tunnel, and the text file that lists them.

use vstd::prelude::*;
use crate::ip::{ipv4_of, lemma_text_reads_back, netmask_of, parse_ipv4, Ipv4Addr};
use crate::text::{
    all_digits, chars_of, decimal, is_digit, lemma_decimal_is_numeral, lemma_decimal_value,
    lemma_split_one, lemma_split_push, number_value, parse_number, split, split_fields, trim,
    trimmed, views,
};

verus! {

/// An IPv4 address and a network mask: a subnet that bypasses the tunnel.
#[derive(Debug, PartialEq, Eq, Structural, Copy, Clone, Hash)]
pub struct IpNm {
    pub ip: Ipv4Addr,
    pub nm: Ipv4Addr,
}

/// The mask of a single host, `255.255.255.255`.
pub open spec fn host_mask() -> Ipv4Addr {
    Ipv4Addr { a: 255, b: 255, c: 255, d: 255 }
}

/// The mask that a text field spells: a dotted-decimal mask, or the number
/// of its leading one-bits, from 0 to 32.
pub open spec fn mask_of(f: Seq<char>) -> Option<Ipv4Addr> {
    if ipv4_of(f) is Some {
        ipv4_of(f)
    } else if f.len() >= 1 && all_digits(f) && number_value(f) <= 32 {
        Some(netmask_of(number_value(f) as int))
    } else {
        None
    }
}

/// The route that a line spells: `ip`, which stands for that one host, or
/// `ip/mask`. A line with more than one `/` spells nothing.
pub open spec fn route_of(line: Seq<char>) -> Option<IpNm> {
    let f = split(line, '/');
    if f.len() == 1 {
        match ipv4_of(f[0]) {
            Some(ip) => Some(IpNm { ip, nm: host_mask() }),
            None => None,
        }
    } else if f.len() == 2 {
        match (ipv4_of(f[0]), mask_of(f[1])) {
            (Some(ip), Some(nm)) => Some(IpNm { ip, nm }),
            _ => None,
        }
    } else {
        None
    }
}

/// The routes that a list of lines spells, or the position of the first
/// line that spells none. Blanks around a line do not count, and a line of
/// blanks only is passed over.
pub open spec fn routes_of(lines: Seq<Seq<char>>) -> Result<Seq<IpNm>, int>
    decreases lines.len(),
{
    if lines.len() == 0 {
        Ok(Seq::<IpNm>::empty())
    } else {
        match routes_of(lines.drop_last()) {
            Err(at) => Err(at),
            Ok(routes) => {
                let line = trim(lines.last());
                if line.len() == 0 {
                    Ok(routes)
                } else {
                    match route_of(line) {
                        Some(route) => Ok(routes.push(route)),
                        None => Err(lines.len() - 1),
                    }
                }
            },
        }
    }
}

/// The routes that a split-tunnel text spells, one line each, or the
/// position of its first malformed line, counted from 0.
pub open spec fn split_tunnel_of(text: Seq<char>) -> Result<Seq<IpNm>, int> {
    routes_of(split(text, '\n'))
}

impl IpNm {
    /// The mask that a route without a mask gets: that of a single host.
    pub fn default_netmask() -> (m: Ipv4Addr)
        ensures
            m == host_mask(),
    {
        Ipv4Addr::new(255, 255, 255, 255)
    }
}

/// Reads a mask: dotted decimal, or a prefix length.
pub fn parse_mask(f: &Vec<char>) -> (r: Option<Ipv4Addr>)
    ensures
        r == mask_of(f@),
{
    match parse_ipv4(f) {
        Some(m) => Some(m),
        None => match parse_number(f, 32) {
            Some(prefix) => Some(Ipv4Addr::netmask(prefix as u8)),
            None => None,
        },
    }
}

/// Reads one route, `ip` or `ip/mask`.
pub fn parse_route(line: &Vec<char>) -> (r: Option<IpNm>)
    ensures
        r == route_of(line@),
{
    let fields = split_fields(line, '/');
    if fields.len() == 1 {
        assert(views(fields@)[0] == fields@[0]@);
        match parse_ipv4(&fields[0]) {
            Some(ip) => Some(IpNm { ip, nm: IpNm::default_netmask() }),
            None => None,
        }
    } else if fields.len() == 2 {
        assert(views(fields@)[0] == fields@[0]@);
        assert(views(fields@)[1] == fields@[1]@);
        match parse_ipv4(&fields[0]) {
            Some(ip) => match parse_mask(&fields[1]) {
                Some(nm) => Some(IpNm { ip, nm }),
                None => None,
            },
            None => None,
        }
    } else {
        None
    }
}

/// Reads a split-tunnel text: one route on each line, blank lines passed
/// over. The first malformed line fails the whole text; the error is that
/// line's position, counted from 0.
pub fn parse_split_tunnel(text: &str) -> (r: Result<Vec<IpNm>, usize>)
    ensures
        match r {
            Ok(routes) => split_tunnel_of(text@) == Ok::<Seq<IpNm>, int>(routes@),
            Err(at) => split_tunnel_of(text@) == Err::<Seq<IpNm>, int>(at as int),
        },
{
    let chars = chars_of(text);
    let lines = split_fields(&chars, '\n');
    let mut routes: Vec<IpNm> = Vec::new();
    let mut i: usize = 0;
    assert(views(lines@).take(0) =~= Seq::<Seq<char>>::empty());
    while i < lines.len()
        invariant
            i <= lines.len(),
            views(lines@) == split(text@, '\n'),
            routes_of(views(lines@).take(i as int)) == Ok::<Seq<IpNm>, int>(routes@),
        decreases lines.len() - i,
    {
        proof {
            assert(views(lines@).take(i + 1).drop_last() =~= views(lines@).take(i as int));
            assert(views(lines@).take(i + 1).last() == lines@[i as int]@);
        }
        let line = trimmed(&lines[i]);
        if line.len() > 0 {
            match parse_route(&line) {
                Some(route) => {
                    routes.push(route);
                },
                None => {
                    proof {
                        lemma_failure_stays(views(lines@), i + 1);
                    }
                    return Err(i);
                },
            }
        }
        i += 1;
    }
    assert(views(lines@).take(lines.len() as int) =~= views(lines@));
    Ok(routes)
}

/// Once the first `n` lines fail, the whole list fails at the same line.
pub proof fn lemma_failure_stays(lines: Seq<Seq<char>>, n: int)
    requires
        0 <= n <= lines.len(),
        routes_of(lines.take(n)) is Err,
    ensures
        routes_of(lines) == routes_of(lines.take(n)),
    decreases lines.len() - n,
{
    if n < lines.len() {
        assert(lines.drop_last().take(n) =~= lines.take(n));
        lemma_failure_stays(lines.drop_last(), n);
    } else {
        assert(lines.take(n) =~= lines);
    }
}

/// The text of an address holds digits and dots only.
proof fn lemma_address_text_chars(ip: Ipv4Addr)
    ensures
        forall|i: int|
            0 <= i < ip.text().len() ==> is_digit(#[trigger] ip.text()[i]) || ip.text()[i] == '.',
{
    lemma_decimal_is_numeral(ip.a as nat);
    lemma_decimal_is_numeral(ip.b as nat);
    lemma_decimal_is_numeral(ip.c as nat);
    lemma_decimal_is_numeral(ip.d as nat);
    let a = decimal(ip.a as nat);
    let b = decimal(ip.b as nat);
    let c = decimal(ip.c as nat);
    let d = decimal(ip.d as nat);
    let t = ip.text();
    assert forall|i: int| 0 <= i < t.len() implies is_digit(#[trigger] t[i]) || t[i] == '.' by {
        if i < a.len() {
            assert(t[i] == a[i]);
        } else if i == a.len() {
        } else if i < a.len() + 1 + b.len() {
            assert(t[i] == b[i - a.len() - 1]);
        } else if i == a.len() + 1 + b.len() {
        } else if i < a.len() + 1 + b.len() + 1 + c.len() {
            assert(t[i] == c[i - a.len() - 1 - b.len() - 1]);
        } else if i == a.len() + 1 + b.len() + 1 + c.len() {
        } else {
            assert(t[i] == d[i - a.len() - 1 - b.len() - 1 - c.len() - 1]);
        }
    }
}

/// A line that holds an address and nothing else spells the route to that
/// one host.
pub proof fn lemma_host_route(ip: Ipv4Addr)
    ensures
        route_of(ip.text()) == Some(IpNm { ip, nm: host_mask() }),
{
    lemma_address_text_chars(ip);
    lemma_text_reads_back(ip);
    let t = ip.text();
    assert forall|i: int| 0 <= i < t.len() implies #[trigger] t[i] != '/' by {
        assert(is_digit(t[i]) || t[i] == '.');
    }
    lemma_split_one(t, '/');
}

/// A line that holds an address, a slash and a prefix length of at most 32
/// spells the route to the subnet with that many leading mask bits.
pub proof fn lemma_prefix_route(ip: Ipv4Addr, prefix: nat)
    requires
        prefix <= 32,
    ensures
        route_of(ip.text() + seq!['/'] + decimal(prefix)) == Some(
            IpNm { ip, nm: netmask_of(prefix as int) },
        ),
{
    lemma_address_text_chars(ip);
    lemma_text_reads_back(ip);
    lemma_decimal_is_numeral(prefix);
    lemma_decimal_value(prefix);
    let t = ip.text();
    let p = decimal(prefix);
    assert forall|i: int| 0 <= i < t.len() implies #[trigger] t[i] != '/' by {
        assert(is_digit(t[i]) || t[i] == '.');
    }
    assert forall|i: int| 0 <= i < p.len() implies #[trigger] p[i] != '/' by {
        assert(is_digit(p[i]));
    }
    assert forall|i: int| 0 <= i < p.len() implies #[trigger] p[i] != '.' by {
        assert(is_digit(p[i]));
    }
    lemma_split_one(t, '/');
    lemma_split_push(t, p, '/');
    lemma_split_one(p, '.');
    let f = split(t + seq!['/'] + p, '/');
    assert(f =~= seq![t, p]);
    assert(ipv4_of(p) is None);
}

} // verus!
