//! The endpoints of the remote directory and which of them an account may use.

use vstd::prelude::*;
use crate::ip::Ipv4Addr;
use crate::tier::PlanTier;

verus! {

/// One physical machine behind a logical server.
#[derive(Debug, Clone, PartialEq, Eq)]
pub struct Server {
    pub entry_ip: Ipv4Addr,
    pub exit_ip: Ipv4Addr,
    pub domain: String,
    pub id: String,
    /// 1 when the machine is up.
    pub status: i8,
}

/// One logical VPN destination, backed by one or more physical machines.
#[derive(Debug, Clone, PartialEq, Eq)]
pub struct LogicalServer {
    pub name: String,
    pub entry_country: String,
    pub exit_country: String,
    pub domain: String,
    /// Level of the lowest tier that may use the server.
    pub tier: u8,
    pub id: String,
    /// 1 when the server is up; any other value means it cannot be used.
    pub status: i8,
    pub servers: Vec<Server>,
    /// Relative load, as the directory reports it.
    pub load: i16,
    /// Fitness as an ordering key: of two servers the one with the greater
    /// score is the better choice.
    pub score: u64,
}

/// The directory's answer to a request for the list of logical servers.
#[derive(Debug, Clone, PartialEq, Eq)]
pub struct ServersResponse {
    pub code: i32,
    pub logical_servers: Vec<LogicalServer>,
}

/// The directory's answer to a request for the caller's public address.
#[derive(Debug, Clone, PartialEq, Eq)]
pub struct IpInfo {
    pub ip: Ipv4Addr,
    pub isp: String,
}

/// The entry addresses of a list of machines, in order.
pub open spec fn entry_ips_of(servers: Seq<Server>) -> Seq<Ipv4Addr> {
    servers.map_values(|s: Server| s.entry_ip)
}

/// The predicate "an account of tier `tier` may use this server".
pub open spec fn eligible_for(tier: PlanTier) -> spec_fn(LogicalServer) -> bool {
    |s: LogicalServer| s.eligible(tier)
}

/// What a list of references refers to.
pub open spec fn referents(refs: Seq<&LogicalServer>) -> Seq<LogicalServer> {
    refs.map_values(|r: &LogicalServer| *r)
}

impl LogicalServer {
    /// An account of tier `tier` may use the server: it is up, and its tier
    /// is not above the account's.
    pub open spec fn eligible(&self, tier: PlanTier) -> bool {
        self.status == 1 && self.tier <= tier.level()
    }

    /// Whether an account of tier `tier` may use the server.
    pub fn is_eligible(&self, tier: PlanTier) -> (b: bool)
        ensures
            b == self.eligible(tier),
    {
        self.status == 1 && self.tier <= tier.rank()
    }

    /// The entry addresses of the server's machines, in order.
    pub fn entry_ips(&self) -> (ips: Vec<Ipv4Addr>)
        ensures
            ips@ == entry_ips_of(self.servers@),
    {
        let mut ips: Vec<Ipv4Addr> = Vec::new();
        let mut i: usize = 0;
        while i < self.servers.len()
            invariant
                i <= self.servers.len(),
                ips@ == entry_ips_of(self.servers@.take(i as int)),
            decreases self.servers.len() - i,
        {
            ips.push(self.servers[i].entry_ip);
            assert(ips@ =~= entry_ips_of(self.servers@.take(i + 1)));
            i += 1;
        }
        assert(self.servers@.take(self.servers.len() as int) =~= self.servers@);
        ips
    }
}

/// The servers of `servers` that an account of tier `tier` may use, in
/// catalog order.
pub fn visible_servers<'a>(servers: &'a Vec<LogicalServer>, tier: PlanTier) -> (visible: Vec<
    &'a LogicalServer,
>)
    ensures
        referents(visible@) == servers@.filter(eligible_for(tier)),
{
    let mut visible: Vec<&'a LogicalServer> = Vec::new();
    let mut i: usize = 0;
    assert(servers@.take(0) =~= Seq::<LogicalServer>::empty());
    assert(referents(visible@) =~= servers@.take(0).filter(eligible_for(tier)));
    while i < servers.len()
        invariant
            i <= servers.len(),
            referents(visible@) == servers@.take(i as int).filter(eligible_for(tier)),
        decreases servers.len() - i,
    {
        let s = &servers[i];
        let ghost before = referents(visible@);
        proof {
            assert(servers@.take(i + 1).drop_last() =~= servers@.take(i as int));
            assert(servers@.take(i + 1).last() == servers@[i as int]);
            reveal(Seq::filter);
        }
        if s.is_eligible(tier) {
            visible.push(s);
            assert(referents(visible@) =~= before.push(servers@[i as int]));
        }
        i += 1;
    }
    assert(servers@.take(servers.len() as int) =~= servers@);
    visible
}

/// A server above the account's tier is never eligible, whatever its status.
pub proof fn lemma_higher_tier_not_eligible(s: LogicalServer, tier: PlanTier)
    requires
        s.tier > tier.level(),
    ensures
        !s.eligible(tier),
{
}

/// A server whose status is not 1 is never eligible, whatever the tier.
pub proof fn lemma_down_not_eligible(s: LogicalServer, tier: PlanTier)
    requires
        s.status != 1,
    ensures
        !s.eligible(tier),
{
}

/// The visible part of a catalog holds eligible servers only, and every
/// eligible server of the catalog.
pub proof fn lemma_visible_exact(servers: Seq<LogicalServer>, tier: PlanTier)
    ensures
        forall|k: int|
            0 <= k < servers.filter(eligible_for(tier)).len() ==> (#[trigger] servers.filter(
                eligible_for(tier),
            )[k]).eligible(tier),
        forall|i: int|
            0 <= i < servers.len() && (#[trigger] servers[i]).eligible(tier) ==> servers.filter(
                eligible_for(tier),
            ).contains(servers[i]),
{
    broadcast use vstd::seq_lib::group_filter_ensures;

}

/// A rise of the account's tier never hides a server.
pub proof fn lemma_eligible_monotone(s: LogicalServer, low: PlanTier, high: PlanTier)
    requires
        low.level() <= high.level(),
        s.eligible(low),
    ensures
        s.eligible(high),
{
}

} // verus!
