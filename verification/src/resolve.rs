//! From a connection request to one endpoint of the catalog.

use vstd::prelude::*;
use crate::servers::LogicalServer;
use crate::text::{chars_of, ends_with, eq_ignore_case, has_suffix, same_ignoring_case};
use crate::tier::PlanTier;

verus! {

/// How the endpoint to connect to is chosen.
#[derive(Debug, Clone, PartialEq, Eq)]
pub enum ConnectOptions {
    /// The fittest endpoint.
    Fastest,
    /// The fittest endpoint that enters or leaves in the given country.
    CountryCode {
        /// Two-letter country code, such as `US` or `IN`, in any case.
        cc: String,
    },
    /// The fittest Secure-Core endpoint.
    SecureCore,
    /// The fittest endpoint for file sharing.
    P2P,
    /// The fittest Tor endpoint.
    Tor,
    /// Any endpoint, chosen by the caller's random ticket.
    Random,
    /// The endpoint of the given name.
    Server {
        /// The endpoint's name, such as `US-FREE#1` or `IS-DE-01`.
        server: String,
    },
}

/// Why no endpoint was chosen.
#[derive(Debug, PartialEq, Eq, Structural, Copy, Clone)]
pub enum ResolveError {
    /// No endpoint that the account may use meets the request.
    NoMatchingServer,
    /// No endpoint that the account may use has the requested name.
    NamedServerNotFound,
}

/// Whether `c` is an ASCII capital letter.
pub open spec fn is_capital(c: char) -> bool {
    'A' <= c <= 'Z'
}

/// A Secure-Core name starts with two country codes, the entry and the exit
/// of the double hop, as in `IS-DE-01` or `CH-US#2`.
pub open spec fn is_secure_core_name(name: Seq<char>) -> bool {
    &&& name.len() >= 6
    &&& is_capital(name[0])
    &&& is_capital(name[1])
    &&& name[2] == '-'
    &&& is_capital(name[3])
    &&& is_capital(name[4])
    &&& (name[5] == '-' || name[5] == '#')
}

/// A Tor name ends in `TOR`, as in `CH#5-TOR`.
pub open spec fn is_tor_name(name: Seq<char>) -> bool {
    ends_with(name, seq!['T', 'O', 'R'])
}

/// A file-sharing name ends in `P2P`, as in `NL#7-P2P`.
pub open spec fn is_p2p_name(name: Seq<char>) -> bool {
    ends_with(name, seq!['P', '2', 'P'])
}

/// The server may be used by an account of tier `tier` and meets the request.
pub open spec fn wanted(opt: ConnectOptions, s: LogicalServer, tier: PlanTier) -> bool {
    s.eligible(tier) && match opt {
        ConnectOptions::Fastest => true,
        ConnectOptions::Random => true,
        ConnectOptions::CountryCode { cc } => eq_ignore_case(s.entry_country@, cc@)
            || eq_ignore_case(s.exit_country@, cc@),
        ConnectOptions::SecureCore => is_secure_core_name(s.name@),
        ConnectOptions::P2P => is_p2p_name(s.name@),
        ConnectOptions::Tor => is_tor_name(s.name@),
        ConnectOptions::Server { server } => s.name@ == server@,
    }
}

/// The positions of the wanted servers, in catalog order.
pub open spec fn candidates(servers: Seq<LogicalServer>, opt: ConnectOptions, tier: PlanTier) -> Seq<
    int,
>
    decreases servers.len(),
{
    if servers.len() == 0 {
        Seq::<int>::empty()
    } else {
        let head = candidates(servers.drop_last(), opt, tier);
        if wanted(opt, servers.last(), tier) {
            head.push(servers.len() - 1)
        } else {
            head
        }
    }
}

/// No server of the catalog is wanted.
pub open spec fn none_wanted(servers: Seq<LogicalServer>, opt: ConnectOptions, tier: PlanTier) -> bool {
    forall|j: int| 0 <= j < servers.len() ==> !wanted(opt, #[trigger] servers[j], tier)
}

/// Position `i` holds the fittest wanted server: none is fitter, and those
/// before it are less fit, so that of equals the first wins.
pub open spec fn is_fastest(
    servers: Seq<LogicalServer>,
    opt: ConnectOptions,
    tier: PlanTier,
    i: int,
) -> bool {
    &&& 0 <= i < servers.len()
    &&& wanted(opt, servers[i], tier)
    &&& forall|j: int|
        0 <= j < servers.len() && wanted(opt, #[trigger] servers[j], tier) ==> servers[j].score
            <= servers[i].score
    &&& forall|j: int|
        0 <= j < i && wanted(opt, #[trigger] servers[j], tier) ==> servers[j].score
            < servers[i].score
}

/// The position of the fittest wanted server among the first `n`, found by
/// going through them in order: a later server replaces an earlier one only
/// where its score is greater.
pub open spec fn fastest_among(
    servers: Seq<LogicalServer>,
    opt: ConnectOptions,
    tier: PlanTier,
    n: int,
) -> Option<int>
    decreases n,
{
    if n <= 0 {
        None
    } else {
        let before = fastest_among(servers, opt, tier, n - 1);
        if wanted(opt, servers[n - 1], tier) {
            match before {
                Some(b) => if servers[n - 1].score > servers[b].score {
                    Some(n - 1)
                } else {
                    Some(b)
                },
                None => Some(n - 1),
            }
        } else {
            before
        }
    }
}

/// Position `i` holds the first wanted server of the catalog.
pub open spec fn is_first(
    servers: Seq<LogicalServer>,
    opt: ConnectOptions,
    tier: PlanTier,
    i: int,
) -> bool {
    &&& 0 <= i < servers.len()
    &&& wanted(opt, servers[i], tier)
    &&& forall|j: int| 0 <= j < i ==> !wanted(opt, #[trigger] servers[j], tier)
}

/// Position `i` is what the request resolves to. A named request takes the
/// first server of that name; a random request takes the wanted server that
/// the ticket counts off; every other request takes the fittest.
pub open spec fn resolves_to(
    servers: Seq<LogicalServer>,
    opt: ConnectOptions,
    tier: PlanTier,
    ticket: nat,
    i: int,
) -> bool {
    match opt {
        ConnectOptions::Random => {
            let c = candidates(servers, opt, tier);
            c.len() > 0 && i == c[(ticket % c.len()) as int]
        },
        ConnectOptions::Server { server } => is_first(servers, opt, tier, i),
        _ => is_fastest(servers, opt, tier, i),
    }
}

/// The error that a request without a wanted server ends in.
pub open spec fn failure_of(opt: ConnectOptions) -> ResolveError {
    if opt is Server {
        ResolveError::NamedServerNotFound
    } else {
        ResolveError::NoMatchingServer
    }
}

/// Every candidate is the position of a wanted server, the candidates
/// ascend, and every wanted server's position is a candidate.
pub proof fn lemma_candidates(servers: Seq<LogicalServer>, opt: ConnectOptions, tier: PlanTier)
    ensures
        forall|k: int|
            0 <= k < candidates(servers, opt, tier).len() ==> 0 <= (#[trigger] candidates(
                servers,
                opt,
                tier,
            )[k]) < servers.len() && wanted(opt, servers[candidates(servers, opt, tier)[k]], tier),
        forall|k: int, l: int|
            0 <= k < l < candidates(servers, opt, tier).len() ==> (#[trigger] candidates(
                servers,
                opt,
                tier,
            )[k]) < (#[trigger] candidates(servers, opt, tier)[l]),
        forall|j: int|
            0 <= j < servers.len() && wanted(opt, #[trigger] servers[j], tier) ==> candidates(
                servers,
                opt,
                tier,
            ).contains(j),
        candidates(servers, opt, tier).len() <= servers.len(),
    decreases servers.len(),
{
    if servers.len() > 0 {
        let front = servers.drop_last();
        lemma_candidates(front, opt, tier);
        let head = candidates(front, opt, tier);
        let all = candidates(servers, opt, tier);
        assert forall|j: int|
            0 <= j < servers.len() && wanted(opt, #[trigger] servers[j], tier) implies all.contains(
            j,
        ) by {
            if j < servers.len() - 1 {
                assert(front[j] == servers[j]);
                assert(head.contains(j));
                let k = choose|k: int| 0 <= k < head.len() && head[k] == j;
                assert(all[k] == j);
            } else {
                assert(all[all.len() - 1] == j);
            }
        }
        assert forall|k: int| 0 <= k < all.len() implies 0 <= (#[trigger] all[k]) < servers.len()
            && wanted(opt, servers[all[k]], tier) by {
            if k < head.len() {
                assert(front[head[k]] == servers[head[k]]);
            }
        }
    }
}

/// Tests whether a name is a Secure-Core name.
fn secure_core_name(name: &Vec<char>) -> (b: bool)
    ensures
        b == is_secure_core_name(name@),
{
    name.len() >= 6 && capital(name[0]) && capital(name[1]) && name[2] == '-' && capital(name[3])
        && capital(name[4]) && (name[5] == '-' || name[5] == '#')
}

/// Tests whether a character is an ASCII capital letter.
fn capital(c: char) -> (b: bool)
    ensures
        b == is_capital(c),
{
    'A' <= c && c <= 'Z'
}

/// Tests whether a name ends in the three given characters.
fn ends_in(name: &Vec<char>, x: char, y: char, z: char) -> (b: bool)
    ensures
        b == ends_with(name@, seq![x, y, z]),
{
    let mut tail: Vec<char> = Vec::new();
    tail.push(x);
    tail.push(y);
    tail.push(z);
    assert(tail@ =~= seq![x, y, z]);
    has_suffix(name, &tail)
}

/// Whether the server may be used by an account of tier `tier` and meets
/// the request.
pub fn is_wanted(opt: &ConnectOptions, s: &LogicalServer, tier: PlanTier) -> (b: bool)
    ensures
        b == wanted(*opt, *s, tier),
{
    if !s.is_eligible(tier) {
        return false;
    }
    match opt {
        ConnectOptions::Fastest => true,
        ConnectOptions::Random => true,
        ConnectOptions::CountryCode { cc } => {
            let code = chars_of(cc.as_str());
            let entry = chars_of(s.entry_country.as_str());
            let exit = chars_of(s.exit_country.as_str());
            same_ignoring_case(&entry, &code) || same_ignoring_case(&exit, &code)
        },
        ConnectOptions::SecureCore => {
            let name = chars_of(s.name.as_str());
            secure_core_name(&name)
        },
        ConnectOptions::P2P => {
            let name = chars_of(s.name.as_str());
            ends_in(&name, 'P', '2', 'P')
        },
        ConnectOptions::Tor => {
            let name = chars_of(s.name.as_str());
            ends_in(&name, 'T', 'O', 'R')
        },
        ConnectOptions::Server { server } => s.name == *server,
    }
}

/// The positions of the wanted servers, in catalog order.
pub fn collect_candidates(opt: &ConnectOptions, servers: &Vec<LogicalServer>, tier: PlanTier) -> (c:
    Vec<usize>)
    ensures
        c@.map_values(|i: usize| i as int) == candidates(servers@, *opt, tier),
{
    let mut c: Vec<usize> = Vec::new();
    let mut i: usize = 0;
    assert(servers@.take(0) =~= Seq::<LogicalServer>::empty());
    assert(c@.map_values(|i: usize| i as int) =~= candidates(servers@.take(0), *opt, tier));
    while i < servers.len()
        invariant
            i <= servers.len(),
            c@.map_values(|i: usize| i as int) == candidates(servers@.take(i as int), *opt, tier),
        decreases servers.len() - i,
    {
        let ghost before = c@.map_values(|i: usize| i as int);
        proof {
            assert(servers@.take(i + 1).drop_last() =~= servers@.take(i as int));
            assert(servers@.take(i + 1).last() == servers@[i as int]);
        }
        if is_wanted(opt, &servers[i], tier) {
            c.push(i);
            assert(c@.map_values(|i: usize| i as int) =~= before.push(i as int));
        }
        i += 1;
    }
    assert(servers@.take(servers.len() as int) =~= servers@);
    c
}

/// Chooses the endpoint that the request asks for among those that an
/// account of tier `tier` may use. The result is a position in `servers`.
/// `ticket` is the caller's random number; only a random request reads it.
pub fn resolve(opt: &ConnectOptions, servers: &Vec<LogicalServer>, tier: PlanTier, ticket: u64) -> (r:
    Result<usize, ResolveError>)
    ensures
        match r {
            Ok(i) => i < servers.len() && wanted(*opt, servers@[i as int], tier) && resolves_to(
                servers@,
                *opt,
                tier,
                ticket as nat,
                i as int,
            ),
            Err(e) => none_wanted(servers@, *opt, tier) && e == failure_of(*opt),
        },
{
    match opt {
        ConnectOptions::Random => {
            let c = collect_candidates(opt, servers, tier);
            proof {
                lemma_candidates(servers@, *opt, tier);
            }
            let ghost cs = candidates(servers@, *opt, tier);
            if c.len() == 0 {
                assert forall|j: int| 0 <= j < servers@.len() implies !wanted(
                    *opt,
                    #[trigger] servers@[j],
                    tier,
                ) by {
                    if wanted(*opt, servers@[j], tier) {
                        assert(cs.contains(j));
                    }
                }
                Err(ResolveError::NoMatchingServer)
            } else {
                let n = c.len() as u64;
                let k = (ticket % n) as usize;
                assert(c@.map_values(|i: usize| i as int)[k as int] == c@[k as int] as int);
                Ok(c[k])
            }
        },
        ConnectOptions::Server { server } => {
            let mut i: usize = 0;
            while i < servers.len()
                invariant
                    i <= servers.len(),
                    opt is Server,
                    forall|j: int| 0 <= j < i ==> !wanted(*opt, #[trigger] servers@[j], tier),
                decreases servers.len() - i,
            {
                if is_wanted(opt, &servers[i], tier) {
                    return Ok(i);
                }
                i += 1;
            }
            Err(ResolveError::NamedServerNotFound)
        },
        _ => {
            let mut best: Option<usize> = None;
            let mut i: usize = 0;
            while i < servers.len()
                invariant
                    i <= servers.len(),
                    match best {
                        Some(b) => fastest_among(servers@, *opt, tier, i as int) == Some(b as int),
                        None => fastest_among(servers@, *opt, tier, i as int) is None,
                    },
                decreases servers.len() - i,
            {
                proof {
                    lemma_fastest_among(servers@, *opt, tier, i as int);
                }
                if is_wanted(opt, &servers[i], tier) {
                    best = match best {
                        Some(b) => if servers[i].score > servers[b].score {
                            Some(i)
                        } else {
                            Some(b)
                        },
                        None => Some(i),
                    };
                }
                i += 1;
            }
            proof {
                lemma_fastest_among(servers@, *opt, tier, servers@.len() as int);
                assert(servers@.take(servers@.len() as int) =~= servers@);
            }
            match best {
                Some(b) => Ok(b),
                None => Err(ResolveError::NoMatchingServer),
            }
        },
    }
}

/// A request resolves to at most one position.
pub proof fn lemma_resolution_unique(
    servers: Seq<LogicalServer>,
    opt: ConnectOptions,
    tier: PlanTier,
    ticket: nat,
    i: int,
    k: int,
)
    requires
        resolves_to(servers, opt, tier, ticket, i),
        resolves_to(servers, opt, tier, ticket, k),
    ensures
        i == k,
{
}

/// Whatever the request, the server it resolves to is up and not above the
/// account's tier.
pub proof fn lemma_resolved_is_eligible(
    servers: Seq<LogicalServer>,
    opt: ConnectOptions,
    tier: PlanTier,
    ticket: nat,
    i: int,
)
    requires
        resolves_to(servers, opt, tier, ticket, i),
    ensures
        0 <= i < servers.len(),
        servers[i].status == 1,
        servers[i].tier <= tier.level(),
        wanted(opt, servers[i], tier),
{
    lemma_candidates(servers, opt, tier);
}

/// A request fails exactly when the catalog holds no wanted server: when
/// one is wanted, some position is what the request resolves to.
pub proof fn lemma_resolution_exists(
    servers: Seq<LogicalServer>,
    opt: ConnectOptions,
    tier: PlanTier,
    ticket: nat,
)
    requires
        !none_wanted(servers, opt, tier),
    ensures
        exists|i: int| resolves_to(servers, opt, tier, ticket, i),
    decreases servers.len(),
{
    lemma_candidates(servers, opt, tier);
    let j = choose|j: int| 0 <= j < servers.len() && wanted(opt, #[trigger] servers[j], tier);
    match opt {
        ConnectOptions::Random => {
            let c = candidates(servers, opt, tier);
            assert(c.contains(j));
            let i = c[(ticket % c.len()) as int];
            assert(resolves_to(servers, opt, tier, ticket, i));
        },
        ConnectOptions::Server { server } => {
            let i = first_wanted(servers, opt, tier, j);
            assert(resolves_to(servers, opt, tier, ticket, i));
        },
        _ => {
            lemma_fastest_among(servers, opt, tier, servers.len() as int);
            assert(servers.take(servers.len() as int) =~= servers);
            let i = fastest_among(servers, opt, tier, servers.len() as int)->0;
            assert(resolves_to(servers, opt, tier, ticket, i));
        },
    }
}

/// Below a wanted position lies a first wanted position.
proof fn first_wanted(servers: Seq<LogicalServer>, opt: ConnectOptions, tier: PlanTier, j: int) -> (i:
    int)
    requires
        0 <= j < servers.len(),
        wanted(opt, servers[j], tier),
    ensures
        is_first(servers, opt, tier, i),
    decreases j,
{
    if exists|k: int| 0 <= k < j && wanted(opt, #[trigger] servers[k], tier) {
        let k = choose|k: int| 0 <= k < j && wanted(opt, #[trigger] servers[k], tier);
        first_wanted(servers, opt, tier, k)
    } else {
        j
    }
}

/// What `fastest_among` yields for the first `n` servers is the position
/// of the fittest wanted server among them, the first of equals; it yields
/// nothing exactly where none of them is wanted.
pub proof fn lemma_fastest_among(
    servers: Seq<LogicalServer>,
    opt: ConnectOptions,
    tier: PlanTier,
    n: int,
)
    requires
        0 <= n <= servers.len(),
    ensures
        match fastest_among(servers, opt, tier, n) {
            Some(b) => is_fastest(servers.take(n), opt, tier, b),
            None => none_wanted(servers.take(n), opt, tier),
        },
    decreases n,
{
    if n > 0 {
        lemma_fastest_among(servers, opt, tier, n - 1);
        let prev = servers.take(n - 1);
        let cur = servers.take(n);
        assert forall|m: int| 0 <= m < n - 1 implies prev[m] == cur[m] by {}
        match fastest_among(servers, opt, tier, n) {
            Some(b) => {
                assert forall|m: int|
                    0 <= m < cur.len() && wanted(opt, #[trigger] cur[m], tier) implies cur[m].score
                    <= cur[b].score by {
                    if m < n - 1 {
                        assert(prev[m] == cur[m]);
                    }
                }
                assert forall|m: int|
                    0 <= m < b && wanted(opt, #[trigger] cur[m], tier) implies cur[m].score
                    < cur[b].score by {
                    assert(prev[m] == cur[m]);
                }
            },
            None => {
                assert forall|m: int| 0 <= m < cur.len() implies !wanted(
                    opt,
                    #[trigger] cur[m],
                    tier,
                ) by {
                    if m < n - 1 {
                        assert(prev[m] == cur[m]);
                    }
                }
            },
        }
    }
}

} // verus!
