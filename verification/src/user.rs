//! The settings of the user and the state that the application keeps.

use vstd::prelude::*;
use crate::ip::Ipv4Addr;
use crate::protocol::ConnectionProtocol;
use crate::tier::PlanTier;

verus! {

/// Base address of the remote directory, in the form in which an address
/// is written out: with the path `/`.
pub const API_DOMAIN: &'static str = "https://api.protonvpn.ch/";

/// All settings of the user.
#[derive(Debug, Clone, PartialEq, Eq)]
pub struct UserConfig {
    pub username: String,
    pub password: String,
    pub tier: PlanTier,
    pub protocol: ConnectionProtocol,
    /// Use the provider's name servers, or the user's own, in place of those
    /// of the operating system.
    pub dns_leak_protection: bool,
    /// Read only while `dns_leak_protection` is on.
    pub custom_dns: Vec<Ipv4Addr>,
    pub check_update_interval: u8,
    pub killswitch: u8,
    pub split_tunnel: bool,
    /// Base address of the remote directory.
    pub api_domain: String,
}

/// Extra state that the application keeps between runs.
#[derive(Debug, Clone, PartialEq, Eq)]
pub struct MetaData {
    pub resolvconf_hash: Option<String>,
    /// When the list of servers was last fetched, in milliseconds since the
    /// Unix epoch; 0 stands for "never".
    pub last_api_pull: i64,
}

/// What is known of the current connection.
#[derive(Debug, Clone, PartialEq, Eq)]
pub struct ConnectionInfo {
    pub server_id: String,
    pub protocol: ConnectionProtocol,
    pub dns_server: String,
    pub connected_time: String,
}

/// All application state: the user's settings, the current connection and
/// the extra state.
#[derive(Debug, Clone, PartialEq, Eq)]
pub struct Config {
    pub user: UserConfig,
    pub connection_info: Option<ConnectionInfo>,
    pub metadata: MetaData,
}

/// The settings of the user as plain values.
pub struct UserConfigView {
    pub username: Seq<char>,
    pub password: Seq<char>,
    pub tier: PlanTier,
    pub protocol: ConnectionProtocol,
    pub dns_leak_protection: bool,
    pub custom_dns: Seq<Ipv4Addr>,
    pub check_update_interval: u8,
    pub killswitch: u8,
    pub split_tunnel: bool,
    pub api_domain: Seq<char>,
}

impl View for UserConfig {
    type V = UserConfigView;

    open spec fn view(&self) -> UserConfigView {
        UserConfigView {
            username: self.username@,
            password: self.password@,
            tier: self.tier,
            protocol: self.protocol,
            dns_leak_protection: self.dns_leak_protection,
            custom_dns: self.custom_dns@,
            check_update_interval: self.check_update_interval,
            killswitch: self.killswitch,
            split_tunnel: self.split_tunnel,
            api_domain: self.api_domain@,
        }
    }
}

impl UserConfig {
    /// Every setting but the name and the password has its initial value.
    pub open spec fn has_initial_settings(&self) -> bool {
        &&& self.tier == PlanTier::Free
        &&& self.protocol == ConnectionProtocol::UDP
        &&& self.dns_leak_protection
        &&& self.custom_dns@ == Seq::<Ipv4Addr>::empty()
        &&& self.check_update_interval == 3
        &&& self.killswitch == 0
        &&& !self.split_tunnel
        &&& self.api_domain@ == API_DOMAIN@
    }

    /// The settings of a new user: the given name and password, and the
    /// initial value of every other setting.
    pub fn new(username: String, password: String) -> (u: UserConfig)
        ensures
            u.username == username,
            u.password == password,
            u.has_initial_settings(),
    {
        UserConfig {
            username,
            password,
            tier: PlanTier::Free,
            protocol: ConnectionProtocol::UDP,
            dns_leak_protection: true,
            custom_dns: Vec::new(),
            check_update_interval: 3,
            killswitch: 0,
            split_tunnel: false,
            api_domain: API_DOMAIN.to_owned(),
        }
    }
}

impl Default for UserConfig {
    /// Settings that cannot connect yet: the name and the password are empty.
    fn default() -> (u: UserConfig)
        ensures
            u.username@ == Seq::<char>::empty(),
            u.password@ == Seq::<char>::empty(),
            u.has_initial_settings(),
    {
        UserConfig::new(String::new(), String::new())
    }
}

impl Default for MetaData {
    fn default() -> (m: MetaData)
        ensures
            m.resolvconf_hash is None,
            m.last_api_pull == 0,
    {
        MetaData { resolvconf_hash: None, last_api_pull: 0 }
    }
}

impl Default for Config {
    fn default() -> (c: Config)
        ensures
            c.user.username@ == Seq::<char>::empty(),
            c.user.password@ == Seq::<char>::empty(),
            c.user.has_initial_settings(),
            c.connection_info is None,
            c.metadata.resolvconf_hash is None,
            c.metadata.last_api_pull == 0,
    {
        Config {
            user: UserConfig::new(String::new(), String::new()),
            connection_info: None,
            metadata: MetaData { resolvconf_hash: None, last_api_pull: 0 },
        }
    }
}

} // verus!
