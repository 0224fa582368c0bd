//! The network of the node: its configuration in memory, and starting and
//! stopping it.
use vstd::prelude::*;
use vstd::string::*;
use crate::address::{
    ipv4_cidr_form, ipv4_inet_form, ipv6_inet_form, loopback_form, loopback_url,
    parse_ipv4_cidr, parse_ipv4_inet, parse_ipv6_inet, parse_url, url_form, uuid_form, uuid_text, RpcAddr,
};
use crate::command::{error1, error2, push_line, CommandError};
use crate::text::{
    cat, chars_of, decimal, decimal_is_injective, decimal_reads_as_the_number, decimal_text, join,
    joined, joined_lines_are_the_lines, lines_of, lines_of_two_texts, one_line, opt_text, str_eq,
    string_of, texts,
};

verus! {

/// The first port that is tried for the RPC portal.
pub const RPC_PORT_FIRST: u16 = 15888;

/// The port after the last one that is tried for the RPC portal.
pub const RPC_PORT_END: u16 = 15900;

/// A peer to connect to.
pub struct PeerConfig {
    pub uri: String,
    pub peer_public_key: Option<String>,
}

/// The contents of a `PeerConfig`.
pub struct PeerView {
    pub uri: Seq<char>,
    pub peer_public_key: Option<Seq<char>>,
}

impl View for PeerConfig {
    type V = PeerView;

    open spec fn view(&self) -> PeerView {
        PeerView { uri: self.uri@, peer_public_key: opt_text(self.peer_public_key) }
    }
}

/// A network that the node offers to its peers, maybe under another range.
pub struct ProxyNetwork {
    pub cidr: String,
    pub mapped_cidr: Option<String>,
}

/// The contents of a `ProxyNetwork`.
pub struct NetworkView {
    pub cidr: Seq<char>,
    pub mapped_cidr: Option<Seq<char>>,
}

impl View for ProxyNetwork {
    type V = NetworkView;

    open spec fn view(&self) -> NetworkView {
        NetworkView { cidr: self.cidr@, mapped_cidr: opt_text(self.mapped_cidr) }
    }
}

/// The configuration of the network. Addresses, URLs and networks are kept in
/// their normal form.
pub struct NetworkConfig {
    pub network_name: String,
    pub network_secret: Option<String>,
    pub dhcp: bool,
    pub no_tun: bool,
    pub ipv4: Option<String>,
    pub ipv6: Option<String>,
    pub peers: Vec<PeerConfig>,
    pub networks: Vec<ProxyNetwork>,
}

/// The contents of a `NetworkConfig`.
pub struct ConfigView {
    pub network_name: Seq<char>,
    pub network_secret: Option<Seq<char>>,
    pub dhcp: bool,
    pub no_tun: bool,
    pub ipv4: Option<Seq<char>>,
    pub ipv6: Option<Seq<char>>,
    pub peers: Seq<PeerView>,
    pub networks: Seq<NetworkView>,
}

/// The contents of a list of peers.
pub open spec fn peer_views(peers: Seq<PeerConfig>) -> Seq<PeerView> {
    Seq::new(peers.len(), |i: int| peers[i]@)
}

/// The contents of a list of networks.
pub open spec fn network_views(networks: Seq<ProxyNetwork>) -> Seq<NetworkView> {
    Seq::new(networks.len(), |i: int| networks[i]@)
}

impl View for NetworkConfig {
    type V = ConfigView;

    open spec fn view(&self) -> ConfigView {
        ConfigView {
            network_name: self.network_name@,
            network_secret: opt_text(self.network_secret),
            dhcp: self.dhcp,
            no_tun: self.no_tun,
            ipv4: opt_text(self.ipv4),
            ipv6: opt_text(self.ipv6),
            peers: peer_views(self.peers@),
            networks: network_views(self.networks@),
        }
    }
}

impl ConfigView {
    /// Automatic addresses and static ones exclude each other.
    pub open spec fn addresses_consistent(self) -> bool {
        self.dhcp ==> self.ipv4 is None && self.ipv6 is None
    }

    /// No peer is listed twice.
    pub open spec fn peers_distinct(self) -> bool {
        forall|i: int, j: int|
            0 <= i < j < self.peers.len() ==> (#[trigger] self.peers[i]).uri != (
            #[trigger] self.peers[j]).uri
    }

    /// No network is listed twice.
    pub open spec fn networks_distinct(self) -> bool {
        forall|i: int, j: int|
            0 <= i < j < self.networks.len() ==> #[trigger] self.networks[i]
                != #[trigger] self.networks[j]
    }

    /// What every command keeps of a configuration.
    pub open spec fn consistent(self) -> bool {
        self.addresses_consistent() && self.peers_distinct() && self.networks_distinct()
    }
}

/// The state of the node's network.
pub struct CoreRuntimeController {
    config: NetworkConfig,
    rpc_addr: Option<RpcAddr>,
    instance_id: Option<u128>,
}

/// The contents of a `CoreRuntimeController`.
pub struct RuntimeView {
    pub config: ConfigView,
    /// The address of the RPC portal while it is up.
    pub rpc_addr: Option<RpcAddr>,
    /// The network instance while it runs.
    pub instance_id: Option<u128>,
}

impl View for CoreRuntimeController {
    type V = RuntimeView;

    closed spec fn view(&self) -> RuntimeView {
        RuntimeView {
            config: self.config@,
            rpc_addr: self.rpc_addr,
            instance_id: self.instance_id,
        }
    }
}

/// The uri stands in the list.
pub open spec fn has_peer(peers: Seq<PeerView>, uri: Seq<char>) -> bool {
    exists|i: int| 0 <= i < peers.len() && (#[trigger] peers[i]).uri == uri
}

/// The list without the peers that have the given uri.
pub open spec fn without_peer(peers: Seq<PeerView>, uri: Seq<char>) -> Seq<PeerView> {
    peers.filter(|p: PeerView| p.uri != uri)
}

/// The list without the networks that have the given range.
pub open spec fn without_network(networks: Seq<NetworkView>, cidr: Seq<char>) -> Seq<NetworkView> {
    networks.filter(|n: NetworkView| n.cidr != cidr)
}

/// Where `->` first stands in a text; its length where it does not.
pub open spec fn arrow_at(s: Seq<char>) -> nat
    decreases s.len(),
{
    if s.len() < 2 {
        s.len()
    } else if s[0] == '-' && s[1] == '>' {
        0
    } else {
        1 + arrow_at(s.drop_first())
    }
}

/// The ranges that a text names: one, or one and the one under which it is
/// offered, with `->` between them.
pub open spec fn network_parts(s: Seq<char>) -> (Seq<char>, Option<Seq<char>>) {
    let k = arrow_at(s) as int;
    if k >= s.len() {
        (s, None)
    } else {
        (s.take(k), Some(s.skip(k + 2)))
    }
}

/// The network with the given ranges, each of them as it was read. Without a
/// second range the network is offered as it is.
pub open spec fn network_of(
    cidr: Option<Seq<char>>,
    mapped: Option<Option<Seq<char>>>,
) -> Option<NetworkView> {
    match (cidr, mapped) {
        (Some(cidr), None) => Some(NetworkView { cidr, mapped_cidr: None }),
        (Some(cidr), Some(Some(mapped))) => Some(
            NetworkView { cidr, mapped_cidr: Some(mapped) },
        ),
        _ => None,
    }
}

/// The network that a text stands for.
pub open spec fn network_form(s: Seq<char>) -> Option<NetworkView> {
    let (cidr, mapped) = network_parts(s);
    network_of(
        ipv4_cidr_form(cidr),
        match mapped {
            Some(m) => Some(ipv4_cidr_form(m)),
            None => None,
        },
    )
}

proof fn arrow_at_bounds(s: Seq<char>)
    ensures
        arrow_at(s) <= s.len(),
        arrow_at(s) < s.len() ==> arrow_at(s) + 2 <= s.len() && s[arrow_at(s) as int] == '-'
            && s[arrow_at(s) as int + 1] == '>',
    decreases s.len(),
{
    if s.len() >= 2 && !(s[0] == '-' && s[1] == '>') {
        arrow_at_bounds(s.drop_first());
    }
}

fn find_arrow(cs: &Vec<char>) -> (k: usize)
    ensures
        k == arrow_at(cs@),
{
    let mut i: usize = 0;
    assert(cs@.skip(0) =~= cs@);
    while i < cs.len()
        invariant
            i <= cs@.len(),
            arrow_at(cs@) == i + arrow_at(cs@.skip(i as int)),
        decreases cs@.len() - i,
    {
        assert(cs@.skip(i as int).drop_first() =~= cs@.skip(i + 1));
        if cs.len() - i < 2 {
            return cs.len();
        }
        if cs[i] == '-' && cs[i + 1] == '>' {
            return i;
        }
        i = i + 1;
    }
    cs.len()
}

/// Takes the ranges that a text names apart.
pub fn split_network(text: &str) -> (r: (String, Option<String>))
    ensures
        (r.0@, opt_text(r.1)) == network_parts(text@),
{
    let cs = chars_of(text);
    let k = find_arrow(&cs);
    proof {
        arrow_at_bounds(cs@);
    }
    if k >= cs.len() {
        return (text.to_owned(), None);
    }
    let first = string_of(cs.as_slice(), 0, k);
    let second = string_of(cs.as_slice(), k + 2, cs.len());
    assert(first@ =~= text@.take(k as int));
    assert(second@ =~= text@.skip(k + 2));
    (first, Some(second))
}

/// The contents of an optional network.
pub open spec fn opt_network(n: Option<ProxyNetwork>) -> Option<NetworkView> {
    match n {
        Some(p) => Some(p@),
        None => None,
    }
}

/// The network with the given ranges, each of them as it was read.
pub fn network_from(cidr: Option<String>, mapped: Option<Option<String>>) -> (r: Option<
    ProxyNetwork,
>)
    ensures
        opt_network(r) == network_of(
            opt_text(cidr),
            match mapped {
                Some(m) => Some(opt_text(m)),
                None => None,
            },
        ),
{
    match (cidr, mapped) {
        (Some(cidr), None) => Some(ProxyNetwork { cidr, mapped_cidr: None }),
        (Some(cidr), Some(Some(mapped))) => Some(
            ProxyNetwork { cidr, mapped_cidr: Some(mapped) },
        ),
        _ => None,
    }
}

/// Reads a network.
fn parse_network(text: &str) -> (r: Option<ProxyNetwork>)
    ensures
        opt_network(r) == network_form(text@),
{
    let (first, second) = split_network(text);
    let cidr = parse_ipv4_cidr(first.as_str());
    let mapped = match second {
        Some(m) => Some(parse_ipv4_cidr(m.as_str())),
        None => None,
    };
    network_from(cidr, mapped)
}

/// `true` or `false`.
pub open spec fn bool_form(b: bool) -> Seq<char> {
    if b {
        "true"@
    } else {
        "false"@
    }
}

/// The text of an optional address; `off` where there is none.
pub open spec fn address_form(a: Option<Seq<char>>) -> Seq<char> {
    match a {
        Some(t) => t,
        None => "off"@,
    }
}

/// The line of the `i`-th peer.
pub open spec fn peer_line(peers: Seq<PeerView>, i: int) -> Seq<char> {
    "  "@ + decimal((i + 1) as nat) + ": "@ + peers[i].uri
}

/// The line of the `i`-th network.
pub open spec fn network_line(networks: Seq<NetworkView>, i: int) -> Seq<char> {
    let front = "  "@ + decimal((i + 1) as nat) + ": "@ + networks[i].cidr;
    match networks[i].mapped_cidr {
        Some(mapped) => front + "->"@ + mapped,
        None => front,
    }
}

/// The lines that show a configuration.
pub open spec fn config_lines(c: ConfigView) -> Seq<Seq<char>> {
    seq![
        "network-name: "@ + c.network_name,
        "network-secret: "@ + (match c.network_secret {
            Some(s) => s,
            None => Seq::empty(),
        }),
        "dhcp: "@ + bool_form(c.dhcp),
        "no-tun: "@ + bool_form(c.no_tun),
        "ipv4: "@ + address_form(c.ipv4),
        "ipv6: "@ + address_form(c.ipv6),
        "peers: "@ + decimal(c.peers.len()),
    ] + Seq::new(c.peers.len(), |i: int| peer_line(c.peers, i)) + seq![
        "networks: "@ + decimal(c.networks.len()),
    ] + Seq::new(c.networks.len(), |i: int| network_line(c.networks, i))
}

/// The text that shows a configuration.
pub open spec fn config_form(c: ConfigView) -> Seq<char> {
    joined(config_lines(c), "\n"@)
}

/// The lines that show the state of the network.
pub open spec fn status_lines(s: RuntimeView) -> Seq<Seq<char>> {
    seq!["network-running: "@ + bool_form(s.instance_id is Some)] + (match s.instance_id {
        Some(id) => seq!["instance-id: "@ + uuid_form(id)],
        None => Seq::empty(),
    }) + (match s.rpc_addr {
        Some(addr) => seq!["rpc-addr: "@ + loopback_form(addr.port)],
        None => Seq::empty(),
    }) + seq![""@, config_form(s.config)]
}

fn bool_text(b: bool) -> (r: String)
    ensures
        r@ == bool_form(b),
{
    if b {
        "true".to_owned()
    } else {
        "false".to_owned()
    }
}

fn push_pair(lines: &mut Vec<String>, a: &str, b: &str)
    ensures
        texts(final(lines)@) == texts(old(lines)@).push(a@ + b@),
{
    let line = cat(a, b);
    push_line(lines, line.as_str());
}

fn clone_opt(s: &Option<String>) -> (r: Option<String>)
    ensures
        opt_text(r) == opt_text(*s),
{
    match s {
        Some(t) => Some(t.clone()),
        None => None,
    }
}

fn clone_peers(peers: &Vec<PeerConfig>) -> (r: Vec<PeerConfig>)
    ensures
        peer_views(r@) == peer_views(peers@),
{
    let mut out: Vec<PeerConfig> = Vec::new();
    let mut i: usize = 0;
    while i < peers.len()
        invariant
            i <= peers@.len(),
            peer_views(out@) == peer_views(peers@).take(i as int),
        decreases peers@.len() - i,
    {
        let ghost before = peer_views(out@);
        out.push(
            PeerConfig {
                uri: peers[i].uri.clone(),
                peer_public_key: clone_opt(&peers[i].peer_public_key),
            },
        );
        assert(peer_views(out@) =~= before.push(peers@[i as int]@));
        i = i + 1;
        assert(peer_views(out@) =~= peer_views(peers@).take(i as int));
    }
    assert(peer_views(out@) =~= peer_views(peers@));
    out
}

fn clone_networks(networks: &Vec<ProxyNetwork>) -> (r: Vec<ProxyNetwork>)
    ensures
        network_views(r@) == network_views(networks@),
{
    let mut out: Vec<ProxyNetwork> = Vec::new();
    let mut i: usize = 0;
    while i < networks.len()
        invariant
            i <= networks@.len(),
            network_views(out@) == network_views(networks@).take(i as int),
        decreases networks@.len() - i,
    {
        let ghost before = network_views(out@);
        out.push(
            ProxyNetwork {
                cidr: networks[i].cidr.clone(),
                mapped_cidr: clone_opt(&networks[i].mapped_cidr),
            },
        );
        assert(network_views(out@) =~= before.push(networks@[i as int]@));
        i = i + 1;
        assert(network_views(out@) =~= network_views(networks@).take(i as int));
    }
    assert(network_views(out@) =~= network_views(networks@));
    out
}

impl NetworkConfig {
    /// A copy of the configuration.
    pub fn copy(&self) -> (r: NetworkConfig)
        ensures
            r@ == self@,
    {
        NetworkConfig {
            network_name: self.network_name.clone(),
            network_secret: clone_opt(&self.network_secret),
            dhcp: self.dhcp,
            no_tun: self.no_tun,
            ipv4: clone_opt(&self.ipv4),
            ipv6: clone_opt(&self.ipv6),
            peers: clone_peers(&self.peers),
            networks: clone_networks(&self.networks),
        }
    }
}

/// What the outcome of a command is, by contents: nothing or a message.
pub open spec fn unit_view(r: Result<(), CommandError>) -> Result<(), Seq<char>> {
    match r {
        Ok(_) => Ok(()),
        Err(e) => Err(e@),
    }
}

impl CoreRuntimeController {
    /// A network that is not running, with the given configuration.
    pub fn new(config: NetworkConfig) -> (r: Self)
        ensures
            r@ == (RuntimeView { config: config@, rpc_addr: None, instance_id: None }),
    {
        Self { config, rpc_addr: None, instance_id: None }
    }

    /// The address of the RPC portal while it is up.
    pub fn rpc_addr(&self) -> (r: Option<RpcAddr>)
        ensures
            r == self@.rpc_addr,
    {
        self.rpc_addr
    }

    /// The configuration.
    pub fn config(&self) -> (r: &NetworkConfig)
        ensures
            r@ == self@.config,
    {
        &self.config
    }

    /// Sets the name of the network. The secret is kept; there is one from
    /// then on, if only an empty one.
    pub fn set_network_name(&mut self, name: String)
        ensures
            final(self)@ == (RuntimeView {
                config: ConfigView {
                    network_name: name@,
                    network_secret: Some(
                        match old(self)@.config.network_secret {
                            Some(s) => s,
                            None => Seq::empty(),
                        },
                    ),
                    ..old(self)@.config
                },
                ..old(self)@
            }),
    {
        let secret = match &self.config.network_secret {
            Some(s) => s.clone(),
            None => String::new(),
        };
        self.config.network_name = name;
        self.config.network_secret = Some(secret);
    }

    /// Sets the secret of the network.
    pub fn set_network_secret(&mut self, secret: String)
        ensures
            final(self)@ == (RuntimeView {
                config: ConfigView { network_secret: Some(secret@), ..old(self)@.config },
                ..old(self)@
            }),
    {
        self.config.network_secret = Some(secret);
    }

    /// Switches automatic addresses on or off. On removes static addresses.
    pub fn set_dhcp(&mut self, enabled: bool) -> (r: Result<(), CommandError>)
        ensures
            r is Ok,
            final(self)@ == (RuntimeView {
                config: if enabled {
                    ConfigView { dhcp: true, ipv4: None, ipv6: None, ..old(self)@.config }
                } else {
                    ConfigView { dhcp: false, ..old(self)@.config }
                },
                ..old(self)@
            }),
    {
        self.config.dhcp = enabled;
        if enabled {
            self.config.ipv4 = None;
            self.config.ipv6 = None;
        }
        Ok(())
    }

    /// Sets or removes the static IPv4 address. Setting one switches automatic
    /// addresses off.
    pub fn set_ipv4(&mut self, cidr: Option<String>) -> (r: Result<(), CommandError>)
        ensures
            match cidr {
                None => {
                    &&& r is Ok
                    &&& final(self)@ == (RuntimeView {
                        config: ConfigView { ipv4: None, ..old(self)@.config },
                        ..old(self)@
                    })
                },
                Some(text) => match ipv4_inet_form(text@) {
                    Some(addr) => {
                        &&& r is Ok
                        &&& final(self)@ == (RuntimeView {
                            config: ConfigView {
                                ipv4: Some(addr),
                                dhcp: false,
                                ..old(self)@.config
                            },
                            ..old(self)@
                        })
                    },
                    None => {
                        &&& unit_view(r) == Err::<(), Seq<char>>("invalid ipv4 cidr: "@ + text@)
                        &&& final(self)@ == old(self)@
                    },
                },
            },
    {
        match cidr {
            None => {
                self.config.ipv4 = None;
            },
            Some(text) => {
                let parsed = parse_ipv4_inet(text.as_str());
                return self.set_parsed_ipv4(text.as_str(), parsed);
            },
        }
        Ok(())
    }

    /// Sets the static IPv4 address to what the text was read as, and switches
    /// automatic addresses off; refuses a text that was read as no address.
    pub fn set_parsed_ipv4(&mut self, text: &str, parsed: Option<String>) -> (r: Result<
        (),
        CommandError,
    >)
        ensures
            match parsed {
                Some(addr) => {
                    &&& r is Ok
                    &&& final(self)@ == (RuntimeView {
                        config: ConfigView { ipv4: Some(addr@), dhcp: false, ..old(self)@.config },
                        ..old(self)@
                    })
                },
                None => {
                    &&& unit_view(r) == Err::<(), Seq<char>>("invalid ipv4 cidr: "@ + text@)
                    &&& final(self)@ == old(self)@
                },
            },
    {
        match parsed {
            Some(addr) => {
                self.config.ipv4 = Some(addr);
                self.config.dhcp = false;
                Ok(())
            },
            None => Err(error2("invalid ipv4 cidr: ", text)),
        }
    }

    /// Sets or removes the static IPv6 address. Setting one switches automatic
    /// addresses off.
    pub fn set_ipv6(&mut self, cidr: Option<String>) -> (r: Result<(), CommandError>)
        ensures
            match cidr {
                None => {
                    &&& r is Ok
                    &&& final(self)@ == (RuntimeView {
                        config: ConfigView { ipv6: None, ..old(self)@.config },
                        ..old(self)@
                    })
                },
                Some(text) => match ipv6_inet_form(text@) {
                    Some(addr) => {
                        &&& r is Ok
                        &&& final(self)@ == (RuntimeView {
                            config: ConfigView {
                                ipv6: Some(addr),
                                dhcp: false,
                                ..old(self)@.config
                            },
                            ..old(self)@
                        })
                    },
                    None => {
                        &&& unit_view(r) == Err::<(), Seq<char>>("invalid ipv6 cidr: "@ + text@)
                        &&& final(self)@ == old(self)@
                    },
                },
            },
    {
        match cidr {
            None => {
                self.config.ipv6 = None;
            },
            Some(text) => {
                let parsed = parse_ipv6_inet(text.as_str());
                return self.set_parsed_ipv6(text.as_str(), parsed);
            },
        }
        Ok(())
    }

    /// Sets the static IPv6 address to what the text was read as, and switches
    /// automatic addresses off; refuses a text that was read as no address.
    pub fn set_parsed_ipv6(&mut self, text: &str, parsed: Option<String>) -> (r: Result<
        (),
        CommandError,
    >)
        ensures
            match parsed {
                Some(addr) => {
                    &&& r is Ok
                    &&& final(self)@ == (RuntimeView {
                        config: ConfigView { ipv6: Some(addr@), dhcp: false, ..old(self)@.config },
                        ..old(self)@
                    })
                },
                None => {
                    &&& unit_view(r) == Err::<(), Seq<char>>("invalid ipv6 cidr: "@ + text@)
                    &&& final(self)@ == old(self)@
                },
            },
    {
        match parsed {
            Some(addr) => {
                self.config.ipv6 = Some(addr);
                self.config.dhcp = false;
                Ok(())
            },
            None => Err(error2("invalid ipv6 cidr: ", text)),
        }
    }

    /// Adds a peer, unless it is listed already.
    pub fn peers_add(&mut self, url: String) -> (r: Result<(), CommandError>)
        ensures
            match url_form(url@) {
                Some(uri) => {
                    &&& r is Ok
                    &&& final(self)@ == (RuntimeView {
                        config: ConfigView {
                            peers: with_peer(old(self)@.config.peers, uri),
                            ..old(self)@.config
                        },
                        ..old(self)@
                    })
                },
                None => {
                    &&& unit_view(r) == Err::<(), Seq<char>>("invalid peer url: "@ + url@)
                    &&& final(self)@ == old(self)@
                },
            },
    {
        let parsed = parse_url(url.as_str());
        self.add_parsed_peer(url.as_str(), parsed)
    }

    /// Adds the peer that the text was read as, unless it is listed already;
    /// refuses a text that was read as no URL.
    pub fn add_parsed_peer(&mut self, url: &str, parsed: Option<String>) -> (r: Result<
        (),
        CommandError,
    >)
        ensures
            match parsed {
                Some(uri) => {
                    &&& r is Ok
                    &&& final(self)@ == (RuntimeView {
                        config: ConfigView {
                            peers: with_peer(old(self)@.config.peers, uri@),
                            ..old(self)@.config
                        },
                        ..old(self)@
                    })
                },
                None => {
                    &&& unit_view(r) == Err::<(), Seq<char>>("invalid peer url: "@ + url@)
                    &&& final(self)@ == old(self)@
                },
            },
    {
        let uri = match parsed {
            Some(u) => u,
            None => {
                return Err(error2("invalid peer url: ", url));
            },
        };
        let ghost before = self@.config.peers;
        let mut i: usize = 0;
        while i < self.config.peers.len()
            invariant
                i <= self.config.peers@.len(),
                *self == *old(self),
                before == peer_views(self.config.peers@),
                parsed == Some(uri),
                forall|j: int| 0 <= j < i ==> (#[trigger] before[j]).uri != uri@,
            decreases self.config.peers@.len() - i,
        {
            assert(before[i as int].uri == self.config.peers@[i as int].uri@);
            if str_eq(self.config.peers[i].uri.as_str(), uri.as_str()) {
                assert(has_peer(before, uri@));
                return Ok(());
            }
            i = i + 1;
        }
        assert(!has_peer(before, uri@));
        self.config.peers.push(PeerConfig { uri, peer_public_key: None });
        assert(self@.config.peers =~= before.push(
            PeerView { uri: uri@, peer_public_key: None },
        ));
        assert(self@.config.networks =~= old(self)@.config.networks);
        Ok(())
    }

    /// Removes a peer.
    pub fn peers_remove(&mut self, url: String) -> (r: Result<(), CommandError>)
        ensures
            match url_form(url@) {
                Some(uri) => {
                    &&& r is Ok
                    &&& final(self)@ == (RuntimeView {
                        config: ConfigView {
                            peers: without_peer(old(self)@.config.peers, uri),
                            ..old(self)@.config
                        },
                        ..old(self)@
                    })
                },
                None => {
                    &&& unit_view(r) == Err::<(), Seq<char>>("invalid peer url: "@ + url@)
                    &&& final(self)@ == old(self)@
                },
            },
    {
        let parsed = parse_url(url.as_str());
        self.remove_parsed_peer(url.as_str(), parsed)
    }

    /// Removes the peer that the text was read as; refuses a text that was read
    /// as no URL.
    pub fn remove_parsed_peer(&mut self, url: &str, parsed: Option<String>) -> (r: Result<
        (),
        CommandError,
    >)
        ensures
            match parsed {
                Some(uri) => {
                    &&& r is Ok
                    &&& final(self)@ == (RuntimeView {
                        config: ConfigView {
                            peers: without_peer(old(self)@.config.peers, uri@),
                            ..old(self)@.config
                        },
                        ..old(self)@
                    })
                },
                None => {
                    &&& unit_view(r) == Err::<(), Seq<char>>("invalid peer url: "@ + url@)
                    &&& final(self)@ == old(self)@
                },
            },
    {
        let uri = match parsed {
            Some(u) => u,
            None => {
                return Err(error2("invalid peer url: ", url));
            },
        };
        let peers = drop_peer(&self.config.peers, uri.as_str());
        self.config.peers = peers;
        assert(self@.config.networks =~= old(self)@.config.networks);
        Ok(())
    }

    /// Removes all peers.
    pub fn peers_clear(&mut self)
        ensures
            final(self)@ == (RuntimeView {
                config: ConfigView { peers: Seq::empty(), ..old(self)@.config },
                ..old(self)@
            }),
    {
        self.config.peers = Vec::new();
        assert(self@.config.peers =~= Seq::empty());
        assert(self@.config.networks =~= old(self)@.config.networks);
    }

    /// Switches the network interface off or on.
    pub fn set_no_tun(&mut self, enabled: bool)
        ensures
            final(self)@ == (RuntimeView {
                config: ConfigView { no_tun: enabled, ..old(self)@.config },
                ..old(self)@
            }),
    {
        self.config.no_tun = enabled;
    }

    /// Whether the network interface is off.
    pub fn get_no_tun(&self) -> (r: bool)
        ensures
            r == self@.config.no_tun,
    {
        self.config.no_tun
    }

    /// Adds a network that is offered to peers, unless it is listed already.
    pub fn networks_add(&mut self, cidr: String) -> (r: Result<(), CommandError>)
        ensures
            match network_form(cidr@) {
                Some(network) => {
                    &&& r is Ok
                    &&& final(self)@ == (RuntimeView {
                        config: ConfigView {
                            networks: with_network(old(self)@.config.networks, network),
                            ..old(self)@.config
                        },
                        ..old(self)@
                    })
                },
                None => {
                    &&& unit_view(r) == Err::<(), Seq<char>>("invalid CIDR: "@ + cidr@)
                    &&& final(self)@ == old(self)@
                },
            },
    {
        let parsed = parse_network(cidr.as_str());
        self.add_parsed_network(cidr.as_str(), parsed)
    }

    /// Adds the network that the text was read as, unless it is listed already;
    /// refuses a text that was read as no network.
    pub fn add_parsed_network(&mut self, cidr: &str, parsed: Option<ProxyNetwork>) -> (r: Result<
        (),
        CommandError,
    >)
        ensures
            match parsed {
                Some(network) => {
                    &&& r is Ok
                    &&& final(self)@ == (RuntimeView {
                        config: ConfigView {
                            networks: with_network(old(self)@.config.networks, network@),
                            ..old(self)@.config
                        },
                        ..old(self)@
                    })
                },
                None => {
                    &&& unit_view(r) == Err::<(), Seq<char>>("invalid CIDR: "@ + cidr@)
                    &&& final(self)@ == old(self)@
                },
            },
    {
        let network = match parsed {
            Some(n) => n,
            None => {
                return Err(error2("invalid CIDR: ", cidr));
            },
        };
        let ghost before = self@.config.networks;
        let mut i: usize = 0;
        while i < self.config.networks.len()
            invariant
                i <= self.config.networks@.len(),
                *self == *old(self),
                before == network_views(self.config.networks@),
                parsed == Some(network),
                forall|j: int| 0 <= j < i ==> #[trigger] before[j] != network@,
            decreases self.config.networks@.len() - i,
        {
            assert(before[i as int] == self.config.networks@[i as int]@);
            if same_network(&self.config.networks[i], &network) {
                assert(before.contains(network@));
                return Ok(());
            }
            i = i + 1;
        }
        assert(!before.contains(network@));
        self.config.networks.push(network);
        assert(self@.config.networks =~= before.push(network@));
        assert(self@.config.peers =~= old(self)@.config.peers);
        Ok(())
    }

    /// Removes the networks with the given range.
    pub fn networks_remove(&mut self, cidr: String) -> (r: Result<(), CommandError>)
        ensures
            match ipv4_cidr_form(cidr@) {
                Some(range) => {
                    &&& r is Ok
                    &&& final(self)@ == (RuntimeView {
                        config: ConfigView {
                            networks: without_network(old(self)@.config.networks, range),
                            ..old(self)@.config
                        },
                        ..old(self)@
                    })
                },
                None => {
                    &&& unit_view(r) == Err::<(), Seq<char>>("invalid CIDR: "@ + cidr@)
                    &&& final(self)@ == old(self)@
                },
            },
    {
        let parsed = parse_ipv4_cidr(cidr.as_str());
        self.remove_parsed_network(cidr.as_str(), parsed)
    }

    /// Removes the networks with the range that the text was read as; refuses a
    /// text that was read as no range.
    pub fn remove_parsed_network(&mut self, cidr: &str, parsed: Option<String>) -> (r: Result<
        (),
        CommandError,
    >)
        ensures
            match parsed {
                Some(range) => {
                    &&& r is Ok
                    &&& final(self)@ == (RuntimeView {
                        config: ConfigView {
                            networks: without_network(old(self)@.config.networks, range@),
                            ..old(self)@.config
                        },
                        ..old(self)@
                    })
                },
                None => {
                    &&& unit_view(r) == Err::<(), Seq<char>>("invalid CIDR: "@ + cidr@)
                    &&& final(self)@ == old(self)@
                },
            },
    {
        let range = match parsed {
            Some(c) => c,
            None => {
                return Err(error2("invalid CIDR: ", cidr));
            },
        };
        let networks = drop_network(&self.config.networks, range.as_str());
        self.config.networks = networks;
        assert(self@.config.peers =~= old(self)@.config.peers);
        Ok(())
    }

    /// Removes all networks.
    pub fn networks_clear(&mut self)
        ensures
            final(self)@ == (RuntimeView {
                config: ConfigView { networks: Seq::empty(), ..old(self)@.config },
                ..old(self)@
            }),
    {
        self.config.networks = Vec::new();
        assert(self@.config.networks =~= Seq::empty());
        assert(self@.config.peers =~= old(self)@.config.peers);
    }

    /// The configuration as text.
    pub fn config_text(&self) -> (r: String)
        ensures
            r@ == config_form(self@.config),
    {
        let ghost c = self@.config;
        let mut lines: Vec<String> = Vec::new();
        push_pair(&mut lines, "network-name: ", self.config.network_name.as_str());
        match &self.config.network_secret {
            Some(s) => push_pair(&mut lines, "network-secret: ", s.as_str()),
            None => {
                push_pair(&mut lines, "network-secret: ", "");
                proof {
                    reveal_strlit("");
                    assert(""@ =~= Seq::empty());
                }
            },
        }
        let dhcp = bool_text(self.config.dhcp);
        push_pair(&mut lines, "dhcp: ", dhcp.as_str());
        let no_tun = bool_text(self.get_no_tun());
        push_pair(&mut lines, "no-tun: ", no_tun.as_str());
        match &self.config.ipv4 {
            Some(a) => push_pair(&mut lines, "ipv4: ", a.as_str()),
            None => push_pair(&mut lines, "ipv4: ", "off"),
        }
        match &self.config.ipv6 {
            Some(a) => push_pair(&mut lines, "ipv6: ", a.as_str()),
            None => push_pair(&mut lines, "ipv6: ", "off"),
        }
        let n = decimal_text(self.config.peers.len() as u64);
        push_pair(&mut lines, "peers: ", n.as_str());
        let ghost head = texts(lines@);
        proof {
            assert(head =~= config_lines(c).take(7));
        }
        let mut i: usize = 0;
        while i < self.config.peers.len()
            invariant
                i <= self.config.peers@.len(),
                c == self@.config,
                texts(lines@) == head + Seq::new(i as nat, |j: int| peer_line(c.peers, j)),
            decreases self.config.peers@.len() - i,
        {
            let ghost before = texts(lines@);
            let number = decimal_text(i as u64 + 1);
            let front = cat("  ", number.as_str());
            let front = cat(front.as_str(), ": ");
            assert(c.peers[i as int].uri == self.config.peers@[i as int].uri@);
            push_pair(&mut lines, front.as_str(), self.config.peers[i].uri.as_str());
            assert(texts(lines@) =~= before.push(peer_line(c.peers, i as int)));
            i = i + 1;
            assert(texts(lines@) =~= head + Seq::new(i as nat, |j: int| peer_line(c.peers, j)));
        }
        let n = decimal_text(self.config.networks.len() as u64);
        push_pair(&mut lines, "networks: ", n.as_str());
        let ghost middle = texts(lines@);
        let mut i: usize = 0;
        while i < self.config.networks.len()
            invariant
                i <= self.config.networks@.len(),
                c == self@.config,
                texts(lines@) == middle + Seq::new(i as nat, |j: int| network_line(c.networks, j)),
            decreases self.config.networks@.len() - i,
        {
            let ghost before = texts(lines@);
            let number = decimal_text(i as u64 + 1);
            let front = cat("  ", number.as_str());
            let front = cat(front.as_str(), ": ");
            let network = &self.config.networks[i];
            assert(c.networks[i as int] == network@);
            match &network.mapped_cidr {
                Some(mapped) => {
                    let front = cat(front.as_str(), network.cidr.as_str());
                    let front = cat(front.as_str(), "->");
                    push_pair(&mut lines, front.as_str(), mapped.as_str());
                },
                None => push_pair(&mut lines, front.as_str(), network.cidr.as_str()),
            }
            assert(texts(lines@) =~= before.push(network_line(c.networks, i as int)));
            i = i + 1;
            assert(texts(lines@) =~= middle + Seq::new(
                i as nat,
                |j: int| network_line(c.networks, j),
            ));
        }
        assert(texts(lines@) =~= config_lines(c));
        join(&lines, "\n")
    }

    /// The state of the network and its configuration as text.
    pub fn status_text(&self) -> (r: String)
        ensures
            r@ == joined(status_lines(self@), "\n"@),
    {
        let mut lines: Vec<String> = Vec::new();
        let running = bool_text(self.instance_id.is_some());
        push_pair(&mut lines, "network-running: ", running.as_str());
        if let Some(id) = self.instance_id {
            let text = uuid_text(id);
            push_pair(&mut lines, "instance-id: ", text.as_str());
        }
        if let Some(addr) = self.rpc_addr {
            let text = addr.text();
            push_pair(&mut lines, "rpc-addr: ", text.as_str());
        }
        push_line(&mut lines, "");
        let config = self.config_text();
        push_line(&mut lines, config.as_str());
        assert(texts(lines@) =~= status_lines(self@));
        join(&lines, "\n")
    }
}

/// The list with a peer added at its end, unless it is listed already.
pub open spec fn with_peer(peers: Seq<PeerView>, uri: Seq<char>) -> Seq<PeerView> {
    if has_peer(peers, uri) {
        peers
    } else {
        peers.push(PeerView { uri, peer_public_key: None })
    }
}

/// The list with a network added at its end, unless it is listed already.
pub open spec fn with_network(networks: Seq<NetworkView>, n: NetworkView) -> Seq<NetworkView> {
    if networks.contains(n) {
        networks
    } else {
        networks.push(n)
    }
}

/// Removing a peer keeps the others in their order: a list with one more at its
/// end gives what the list gives, and at its end the one more, unless it is to go.
pub proof fn without_peer_push(peers: Seq<PeerView>, p: PeerView, uri: Seq<char>)
    ensures
        without_peer(peers.push(p), uri) == (if p.uri != uri {
            without_peer(peers, uri).push(p)
        } else {
            without_peer(peers, uri)
        }),
        without_peer(Seq::empty(), uri) == Seq::<PeerView>::empty(),
{
    reveal(Seq::filter);
    assert(peers.push(p).drop_last() =~= peers);
}

/// Removing a network keeps the others in their order: a list with one more at
/// its end gives what the list gives, and at its end the one more, unless it is to
/// go.
pub proof fn without_network_push(networks: Seq<NetworkView>, n: NetworkView, cidr: Seq<char>)
    ensures
        without_network(networks.push(n), cidr) == (if n.cidr != cidr {
            without_network(networks, cidr).push(n)
        } else {
            without_network(networks, cidr)
        }),
        without_network(Seq::empty(), cidr) == Seq::<NetworkView>::empty(),
{
    reveal(Seq::filter);
    assert(networks.push(n).drop_last() =~= networks);
}

fn drop_peer(peers: &Vec<PeerConfig>, uri: &str) -> (r: Vec<PeerConfig>)
    ensures
        peer_views(r@) == without_peer(peer_views(peers@), uri@),
{
    let ghost all = peer_views(peers@);
    let mut out: Vec<PeerConfig> = Vec::new();
    let mut i: usize = 0;
    proof {
        assert(all.take(0) =~= Seq::empty());
        assert(without_peer(Seq::empty(), uri@) =~= Seq::empty()) by {
            reveal(Seq::filter);
        }
        assert(peer_views(out@) =~= Seq::empty());
    }
    while i < peers.len()
        invariant
            i <= peers@.len(),
            all == peer_views(peers@),
            peer_views(out@) == without_peer(all.take(i as int), uri@),
        decreases peers@.len() - i,
    {
        let ghost before = peer_views(out@);
        proof {
            without_peer_push(all.take(i as int), all[i as int], uri@);
            assert(all.take(i as int).push(all[i as int]) =~= all.take(i + 1));
        }
        if !str_eq(peers[i].uri.as_str(), uri) {
            out.push(
                PeerConfig {
                    uri: peers[i].uri.clone(),
                    peer_public_key: clone_opt(&peers[i].peer_public_key),
                },
            );
            assert(peer_views(out@) =~= before.push(all[i as int]));
        }
        i = i + 1;
    }
    assert(all.take(i as int) =~= all);
    out
}

fn drop_network(networks: &Vec<ProxyNetwork>, cidr: &str) -> (r: Vec<ProxyNetwork>)
    ensures
        network_views(r@) == without_network(network_views(networks@), cidr@),
{
    let ghost all = network_views(networks@);
    let mut out: Vec<ProxyNetwork> = Vec::new();
    let mut i: usize = 0;
    proof {
        assert(all.take(0) =~= Seq::empty());
        assert(without_network(Seq::empty(), cidr@) =~= Seq::empty()) by {
            reveal(Seq::filter);
        }
        assert(network_views(out@) =~= Seq::empty());
    }
    while i < networks.len()
        invariant
            i <= networks@.len(),
            all == network_views(networks@),
            network_views(out@) == without_network(all.take(i as int), cidr@),
        decreases networks@.len() - i,
    {
        let ghost before = network_views(out@);
        proof {
            without_network_push(all.take(i as int), all[i as int], cidr@);
            assert(all.take(i as int).push(all[i as int]) =~= all.take(i + 1));
        }
        if !str_eq(networks[i].cidr.as_str(), cidr) {
            out.push(
                ProxyNetwork {
                    cidr: networks[i].cidr.clone(),
                    mapped_cidr: clone_opt(&networks[i].mapped_cidr),
                },
            );
            assert(network_views(out@) =~= before.push(all[i as int]));
        }
        i = i + 1;
    }
    assert(all.take(i as int) =~= all);
    out
}

fn same_network(a: &ProxyNetwork, b: &ProxyNetwork) -> (r: bool)
    ensures
        r == (a@ == b@),
{
    str_eq(a.cidr.as_str(), b.cidr.as_str()) && (match (&a.mapped_cidr, &b.mapped_cidr) {
        (Some(x), Some(y)) => str_eq(x.as_str(), y.as_str()),
        (None, None) => true,
        _ => false,
    })
}

/// What happened while the network is being started.
#[allow(inconsistent_fields)]
pub enum StartEvent {
    /// The user asked for it.
    Requested,
    /// A free port for the RPC portal was found, or there is none.
    Port(Option<u16>),
    /// The RPC portal serves the given address, or does not.
    Portal { addr: RpcAddr, outcome: Result<(), CommandError> },
    /// The network instance runs, or does not.
    Instance { addr: RpcAddr, outcome: Result<u128, CommandError> },
}

/// What to do next in order to start the network.
pub enum StartAction {
    /// Nothing; this is the answer to the user.
    Finished(String),
    /// Find a free port from `first` up to, but without, `end`.
    FindPort { first: u16, end: u16 },
    /// Serve the RPC portal at the given URL.
    ServePortal { addr: RpcAddr, url: String },
    /// Run a network instance with the configuration.
    RunInstance { addr: RpcAddr },
}

/// The contents of a `StartAction`.
pub enum StartActionView {
    Finished(Seq<char>),
    FindPort { first: u16, end: u16 },
    ServePortal { addr: RpcAddr, url: Seq<char> },
    RunInstance { addr: RpcAddr },
}

impl View for StartAction {
    type V = StartActionView;

    open spec fn view(&self) -> StartActionView {
        match *self {
            StartAction::Finished(t) => StartActionView::Finished(t@),
            StartAction::FindPort { first, end } => StartActionView::FindPort { first, end },
            StartAction::ServePortal { addr, url } => StartActionView::ServePortal {
                addr,
                url: url@,
            },
            StartAction::RunInstance { addr } => StartActionView::RunInstance { addr },
        }
    }
}

/// The answer to the user when the network has been started.
pub open spec fn started_form(id: u128, addr: RpcAddr) -> Seq<char> {
    "started: instance-id="@ + uuid_form(id) + " rpc-addr="@ + loopback_form(addr.port)
}

/// What to do next after an event of the start, or why it failed.
pub open spec fn start_outcome(s: RuntimeView, e: StartEvent) -> Result<
    StartActionView,
    Seq<char>,
> {
    match e {
        StartEvent::Requested => if s.instance_id is Some {
            Ok(StartActionView::Finished("network already started"@))
        } else {
            Ok(StartActionView::FindPort { first: RPC_PORT_FIRST, end: RPC_PORT_END })
        },
        StartEvent::Port(None) => Err("no free port for rpc portal"@),
        StartEvent::Port(Some(port)) => Ok(
            StartActionView::ServePortal {
                addr: RpcAddr { port },
                url: loopback_url(port),
            },
        ),
        StartEvent::Portal { addr, outcome: Ok(_) } => Ok(StartActionView::RunInstance { addr }),
        StartEvent::Portal { addr, outcome: Err(error) } => Err(error@),
        StartEvent::Instance { addr, outcome: Ok(id) } => Ok(
            StartActionView::Finished(started_form(id, addr)),
        ),
        StartEvent::Instance { addr, outcome: Err(error) } => Err(error@),
    }
}

/// The state after an event of the start.
pub open spec fn start_state(s: RuntimeView, e: StartEvent) -> RuntimeView {
    match e {
        StartEvent::Portal { addr, outcome: Ok(_) } => RuntimeView { rpc_addr: Some(addr), ..s },
        StartEvent::Instance { addr, outcome: Ok(id) } => RuntimeView {
            instance_id: Some(id),
            rpc_addr: Some(addr),
            ..s
        },
        _ => s,
    }
}

/// What a step of the start gave, by contents.
pub open spec fn start_view(r: Result<StartAction, CommandError>) -> Result<
    StartActionView,
    Seq<char>,
> {
    match r {
        Ok(a) => Ok(a@),
        Err(e) => Err(e@),
    }
}

/// What to do in order to stop the network.
pub enum StopAction {
    /// Nothing; this is the answer to the user.
    Finished(String),
    /// Delete the network instance.
    DeleteInstance(u128),
}

/// The answer to the user when the network has been stopped.
pub open spec fn stopped_form(id: u128) -> Seq<char> {
    "stopped: instance-id="@ + uuid_form(id)
}

impl CoreRuntimeController {
    /// One step of starting the network: first a loopback RPC portal, then a
    /// single network instance.
    pub fn start_network(&mut self, event: StartEvent) -> (r: Result<StartAction, CommandError>)
        ensures
            start_view(r) == start_outcome(old(self)@, event),
            final(self)@ == start_state(old(self)@, event),
    {
        match event {
            StartEvent::Requested => if self.instance_id.is_some() {
                Ok(StartAction::Finished("network already started".to_owned()))
            } else {
                Ok(StartAction::FindPort { first: RPC_PORT_FIRST, end: RPC_PORT_END })
            },
            StartEvent::Port(None) => Err(error1("no free port for rpc portal")),
            StartEvent::Port(Some(port)) => {
                let addr = RpcAddr { port };
                let url = addr.url();
                Ok(StartAction::ServePortal { addr, url })
            },
            StartEvent::Portal { addr, outcome: Ok(_) } => {
                self.rpc_addr = Some(addr);
                Ok(StartAction::RunInstance { addr })
            },
            StartEvent::Portal { addr: _, outcome: Err(error) } => Err(error),
            StartEvent::Instance { addr, outcome: Ok(id) } => {
                self.rpc_addr = Some(addr);
                self.instance_id = Some(id);
                let id_text = uuid_text(id);
                let addr_text = addr.text();
                let text = cat("started: instance-id=", id_text.as_str());
                let text = cat(text.as_str(), " rpc-addr=");
                let text = cat(text.as_str(), addr_text.as_str());
                Ok(StartAction::Finished(text))
            },
            StartEvent::Instance { addr: _, outcome: Err(error) } => Err(error),
        }
    }

    /// Begins to stop the network: the instance no longer counts as running.
    pub fn stop_network(&mut self) -> (r: StopAction)
        ensures
            final(self)@ == (RuntimeView { instance_id: None, ..old(self)@ }),
            match old(self)@.instance_id {
                Some(id) => r == StopAction::DeleteInstance(id),
                None => r matches StopAction::Finished(t) && t@ == "network is not started"@,
            },
    {
        match self.instance_id {
            Some(id) => {
                self.instance_id = None;
                StopAction::DeleteInstance(id)
            },
            None => StopAction::Finished("network is not started".to_owned()),
        }
    }

    /// Completes the stop when the instance has been deleted: the RPC portal
    /// goes too. Where it could not be deleted the portal stays.
    pub fn instance_deleted(
        &mut self,
        id: u128,
        outcome: Result<(), CommandError>,
    ) -> (r: Result<String, CommandError>)
        ensures
            match outcome {
                Ok(_) => {
                    &&& final(self)@ == (RuntimeView { rpc_addr: None, ..old(self)@ })
                    &&& r matches Ok(t)
                    &&& t@ == stopped_form(id)
                },
                Err(e) => {
                    &&& final(self)@ == old(self)@
                    &&& r matches Err(f)
                    &&& f@ == e@
                },
            },
    {
        match outcome {
            Ok(_) => {
                self.rpc_addr = None;
                let id_text = uuid_text(id);
                Ok(cat("stopped: instance-id=", id_text.as_str()))
            },
            Err(e) => Err(e),
        }
    }
}

/// After a peer is added it is listed, adding it again changes nothing, and a
/// list without repetitions stays so.
pub proof fn adding_a_peer(c: ConfigView, uri: Seq<char>)
    ensures
        has_peer(with_peer(c.peers, uri), uri),
        with_peer(with_peer(c.peers, uri), uri) == with_peer(c.peers, uri),
        c.peers_distinct() ==> (ConfigView {
            peers: with_peer(c.peers, uri),
            ..c
        }).peers_distinct(),
{
    if !has_peer(c.peers, uri) {
        let t = with_peer(c.peers, uri);
        assert(t[c.peers.len() as int].uri == uri);
    }
}

proof fn without_peer_facts(peers: Seq<PeerView>, uri: Seq<char>)
    ensures
        !has_peer(without_peer(peers, uri), uri),
        forall|other: Seq<char>|
            other != uri ==> #[trigger] has_peer(without_peer(peers, uri), other) == has_peer(
                peers,
                other,
            ),
        !has_peer(peers, uri) ==> without_peer(peers, uri) == peers,
        (forall|i: int, j: int|
            0 <= i < j < peers.len() ==> (#[trigger] peers[i]).uri != (#[trigger] peers[j]).uri)
            ==> (forall|i: int, j: int|
            0 <= i < j < without_peer(peers, uri).len() ==> (#[trigger] without_peer(
                peers,
                uri,
            )[i]).uri != (#[trigger] without_peer(peers, uri)[j]).uri),
    decreases peers.len(),
{
    if peers.len() == 0 {
        reveal(Seq::filter);
        assert(without_peer(peers, uri) =~= peers);
    } else {
        let front = peers.drop_last();
        let p = peers.last();
        assert(front.push(p) =~= peers);
        without_peer_push(front, p, uri);
        without_peer_facts(front, uri);
        let kept = without_peer(front, uri);
        let all = without_peer(peers, uri);
        assert(has_peer(peers, p.uri)) by {
            assert(peers[peers.len() - 1].uri == p.uri);
        }
        assert forall|other: Seq<char>| other != uri implies #[trigger] has_peer(all, other)
            == has_peer(peers, other) by {
            assert(has_peer(kept, other) == has_peer(front, other));
            if has_peer(peers, other) {
                let i = choose|i: int| 0 <= i < peers.len() && (#[trigger] peers[i]).uri == other;
                if i < front.len() {
                    assert(front[i].uri == other);
                    let k = choose|k: int| 0 <= k < kept.len() && (#[trigger] kept[k]).uri == other;
                    assert(all[k].uri == other);
                } else {
                    assert(all[all.len() - 1].uri == other);
                }
            }
            if has_peer(all, other) {
                let i = choose|i: int| 0 <= i < all.len() && (#[trigger] all[i]).uri == other;
                if i < kept.len() {
                    assert(kept[i].uri == other);
                    let k = choose|k: int|
                        0 <= k < front.len() && (#[trigger] front[k]).uri == other;
                    assert(peers[k].uri == other);
                } else {
                    assert(peers[peers.len() - 1].uri == other);
                }
            }
        }
        assert(!has_peer(all, uri)) by {
            if has_peer(all, uri) {
                let i = choose|i: int| 0 <= i < all.len() && (#[trigger] all[i]).uri == uri;
                if i < kept.len() {
                    assert(kept[i].uri == uri);
                }
            }
        }
        if !has_peer(peers, uri) {
            assert(!has_peer(front, uri)) by {
                if has_peer(front, uri) {
                    let i = choose|i: int|
                        0 <= i < front.len() && (#[trigger] front[i]).uri == uri;
                    assert(peers[i].uri == uri);
                }
            }
        }
        if forall|i: int, j: int|
            0 <= i < j < peers.len() ==> (#[trigger] peers[i]).uri != (#[trigger] peers[j]).uri {
            assert forall|i: int, j: int| 0 <= i < j < front.len() implies (
            #[trigger] front[i]).uri != (#[trigger] front[j]).uri by {
                assert(peers[i].uri != peers[j].uri);
            }
            assert forall|i: int, j: int| 0 <= i < j < all.len() implies (#[trigger] all[i]).uri
                != (#[trigger] all[j]).uri by {
                if j < kept.len() {
                    assert(kept[i].uri != kept[j].uri);
                } else {
                    let u = kept[i].uri;
                    assert(has_peer(kept, u));
                    if u == uri {
                        assert(!has_peer(kept, uri));
                    }
                    assert(has_peer(front, u));
                    let k = choose|k: int| 0 <= k < front.len() && (#[trigger] front[k]).uri == u;
                    assert(peers[k].uri != peers[peers.len() - 1].uri);
                }
            }
        }
    }
}

/// Removing a peer removes that peer and no other and undoes the adding of a peer
/// that was not there. A list without repetitions stays so.
pub proof fn removing_a_peer(c: ConfigView, uri: Seq<char>)
    ensures
        !has_peer(without_peer(c.peers, uri), uri),
        forall|other: Seq<char>|
            other != uri ==> #[trigger] has_peer(without_peer(c.peers, uri), other) == has_peer(
                c.peers,
                other,
            ),
        !has_peer(c.peers, uri) ==> without_peer(with_peer(c.peers, uri), uri) == c.peers,
        c.peers_distinct() ==> (ConfigView {
            peers: without_peer(c.peers, uri),
            ..c
        }).peers_distinct(),
{
    without_peer_facts(c.peers, uri);
    if !has_peer(c.peers, uri) {
        without_peer_push(c.peers, PeerView { uri, peer_public_key: None }, uri);
    }
}

/// After a network is added it is listed, adding it again changes nothing, and a
/// list without repetitions stays so.
pub proof fn adding_a_network(c: ConfigView, n: NetworkView)
    ensures
        with_network(c.networks, n).contains(n),
        with_network(with_network(c.networks, n), n) == with_network(c.networks, n),
        c.networks_distinct() ==> (ConfigView {
            networks: with_network(c.networks, n),
            ..c
        }).networks_distinct(),
{
    if !c.networks.contains(n) {
        let t = with_network(c.networks, n);
        assert(t[c.networks.len() as int] == n);
    }
}

proof fn without_network_facts(networks: Seq<NetworkView>, cidr: Seq<char>)
    ensures
        forall|n: NetworkView| #[trigger]
            without_network(networks, cidr).contains(n) == (networks.contains(n) && n.cidr != cidr),
        (forall|i: int, j: int|
            0 <= i < j < networks.len() ==> #[trigger] networks[i] != #[trigger] networks[j]) ==> (
        forall|i: int, j: int|
            0 <= i < j < without_network(networks, cidr).len() ==> #[trigger] without_network(
                networks,
                cidr,
            )[i] != #[trigger] without_network(networks, cidr)[j]),
    decreases networks.len(),
{
    if networks.len() == 0 {
        reveal(Seq::filter);
        assert(without_network(networks, cidr) =~= networks);
    } else {
        let front = networks.drop_last();
        let p = networks.last();
        assert(front.push(p) =~= networks);
        without_network_push(front, p, cidr);
        without_network_facts(front, cidr);
        let kept = without_network(front, cidr);
        let all = without_network(networks, cidr);
        assert forall|n: NetworkView| #[trigger] all.contains(n) == (networks.contains(n) && n.cidr
            != cidr) by {
            assert(kept.contains(n) == (front.contains(n) && n.cidr != cidr));
            if all.contains(n) {
                let i = choose|i: int| 0 <= i < all.len() && all[i] == n;
                if i < kept.len() {
                    assert(kept[i] == n);
                    assert(kept.contains(n));
                    let k = choose|k: int| 0 <= k < front.len() && front[k] == n;
                    assert(networks[k] == n);
                } else {
                    assert(networks[networks.len() - 1] == n);
                }
            }
            if networks.contains(n) && n.cidr != cidr {
                let i = choose|i: int| 0 <= i < networks.len() && networks[i] == n;
                if i < front.len() {
                    assert(front[i] == n);
                    let k = choose|k: int| 0 <= k < kept.len() && kept[k] == n;
                    assert(all[k] == n);
                } else {
                    assert(all[all.len() - 1] == n);
                }
            }
        }
        if forall|i: int, j: int|
            0 <= i < j < networks.len() ==> #[trigger] networks[i] != #[trigger] networks[j] {
            assert forall|i: int, j: int| 0 <= i < j < front.len() implies #[trigger] front[i]
                != #[trigger] front[j] by {
                assert(networks[i] != networks[j]);
            }
            assert forall|i: int, j: int| 0 <= i < j < all.len() implies #[trigger] all[i]
                != #[trigger] all[j] by {
                if j < kept.len() {
                    assert(kept[i] != kept[j]);
                } else {
                    let n = kept[i];
                    assert(kept.contains(n));
                    assert(front.contains(n));
                    let k = choose|k: int| 0 <= k < front.len() && front[k] == n;
                    assert(networks[k] != networks[networks.len() - 1]);
                }
            }
        }
    }
}

/// Removing a range removes the networks with that range and no others. A list
/// without repetitions stays so.
pub proof fn removing_a_network(c: ConfigView, cidr: Seq<char>)
    ensures
        forall|n: NetworkView| #[trigger]
            without_network(c.networks, cidr).contains(n) == (c.networks.contains(n) && n.cidr
                != cidr),
        c.networks_distinct() ==> (ConfigView {
            networks: without_network(c.networks, cidr),
            ..c
        }).networks_distinct(),
{
    without_network_facts(c.networks, cidr);
}

/// A network instance runs only while the RPC portal is up.
pub open spec fn running_has_portal(s: RuntimeView) -> bool {
    s.instance_id is Some ==> s.rpc_addr is Some
}

/// No event of a start leaves an instance running without the portal.
pub proof fn start_keeps_portal(s: RuntimeView, e: StartEvent)
    requires
        running_has_portal(s),
    ensures
        running_has_portal(start_state(s, e)),
        start_state(s, e).config == s.config,
{
}

/// A start whose steps succeed ends with the instance running and the portal
/// up. A second start of a running network changes nothing.
pub proof fn start_reaches_running(s: RuntimeView, port: u16, id: u128)
    requires
        s.instance_id is None,
    ensures
        ({
            let addr = RpcAddr { port };
            let e1 = StartEvent::Requested;
            let e2 = StartEvent::Port(Some(port));
            let e3 = StartEvent::Portal { addr, outcome: Ok(()) };
            let e4 = StartEvent::Instance { addr, outcome: Ok(id) };
            let s1 = start_state(s, e1);
            let s2 = start_state(s1, e2);
            let s3 = start_state(s2, e3);
            let s4 = start_state(s3, e4);
            &&& start_outcome(s, e1) == Ok::<StartActionView, Seq<char>>(
                StartActionView::FindPort { first: RPC_PORT_FIRST, end: RPC_PORT_END },
            )
            &&& start_outcome(s1, e2) == Ok::<StartActionView, Seq<char>>(
                StartActionView::ServePortal { addr, url: loopback_url(port) },
            )
            &&& start_outcome(s2, e3) == Ok::<StartActionView, Seq<char>>(
                StartActionView::RunInstance { addr },
            )
            &&& start_outcome(s3, e4) == Ok::<StartActionView, Seq<char>>(
                StartActionView::Finished(started_form(id, addr)),
            )
            &&& s4 == (RuntimeView { instance_id: Some(id), rpc_addr: Some(addr), ..s })
            &&& start_state(s4, e1) == s4
            &&& start_outcome(s4, e1) == Ok::<StartActionView, Seq<char>>(
                StartActionView::Finished("network already started"@),
            )
        }),
{
}

/// Every value of a configuration can be told from the text that shows it: none
/// holds a line ending, no address reads `off`, and no range holds `->`.
pub open spec fn showable(c: ConfigView) -> bool {
    &&& one_line(c.network_name)
    &&& c.network_secret matches Some(s) ==> one_line(s)
    &&& c.ipv4 matches Some(a) ==> one_line(a) && a != "off"@
    &&& c.ipv6 matches Some(a) ==> one_line(a) && a != "off"@
    &&& forall|i: int| 0 <= i < c.peers.len() ==> one_line((#[trigger] c.peers[i]).uri)
    &&& forall|i: int|
        0 <= i < c.networks.len() ==> {
            &&& one_line((#[trigger] c.networks[i]).cidr)
            &&& arrow_at(c.networks[i].cidr) == c.networks[i].cidr.len()
            &&& c.networks[i].mapped_cidr matches Some(m) ==> one_line(m)
        }
}

/// The secret as it is shown: empty where there is none.
pub open spec fn secret_text(c: ConfigView) -> Seq<char> {
    match c.network_secret {
        Some(s) => s,
        None => Seq::empty(),
    }
}

/// Each value of a configuration is shown on a line of its own, in this order:
/// the name, the secret, whether addresses are automatic, whether the interface
/// is off, the two addresses, the peers with their number, and the networks with
/// theirs.
pub proof fn each_value_has_its_line(c: ConfigView)
    ensures
        ({
            let l = config_lines(c);
            let n = c.peers.len() as int;
            &&& l.len() == 8 + n + c.networks.len()
            &&& l[0] == "network-name: "@ + c.network_name
            &&& l[1] == "network-secret: "@ + secret_text(c)
            &&& c.dhcp ==> l[2] == "dhcp: "@ + "true"@
            &&& !c.dhcp ==> l[2] == "dhcp: "@ + "false"@
            &&& c.no_tun ==> l[3] == "no-tun: "@ + "true"@
            &&& !c.no_tun ==> l[3] == "no-tun: "@ + "false"@
            &&& c.ipv4 matches Some(a) ==> l[4] == "ipv4: "@ + a
            &&& c.ipv4 is None ==> l[4] == "ipv4: "@ + "off"@
            &&& c.ipv6 matches Some(a) ==> l[5] == "ipv6: "@ + a
            &&& c.ipv6 is None ==> l[5] == "ipv6: "@ + "off"@
            &&& l[6] == "peers: "@ + decimal(c.peers.len())
            &&& forall|i: int|
                0 <= i < n ==> #[trigger] l[7 + i] == "  "@ + decimal((i + 1) as nat) + ": "@
                    + c.peers[i].uri
            &&& l[7 + n] == "networks: "@ + decimal(c.networks.len())
            &&& forall|i: int|
                0 <= i < c.networks.len() ==> #[trigger] l[8 + n + i] == "  "@ + decimal(
                    (i + 1) as nat,
                ) + ": "@ + c.networks[i].cidr + (match c.networks[i].mapped_cidr {
                    Some(m) => "->"@ + m,
                    None => Seq::empty(),
                })
        }),
{
    let l = config_lines(c);
    let n = c.peers.len() as int;
    assert forall|i: int| 0 <= i < n implies #[trigger] l[7 + i] == "  "@ + decimal((i + 1) as nat)
        + ": "@ + c.peers[i].uri by {
        assert(l[7 + i] == peer_line(c.peers, i));
    }
    assert forall|i: int| 0 <= i < c.networks.len() implies #[trigger] l[8 + n + i] == "  "@
        + decimal((i + 1) as nat) + ": "@ + c.networks[i].cidr + (match c.networks[i].mapped_cidr {
        Some(m) => "->"@ + m,
        None => Seq::empty(),
    }) by {
        assert(l[8 + n + i] == network_line(c.networks, i));
        let front = "  "@ + decimal((i + 1) as nat) + ": "@ + c.networks[i].cidr;
        match c.networks[i].mapped_cidr {
            Some(m) => assert(front + "->"@ + m =~= front + ("->"@ + m)),
            None => assert(front + Seq::<char>::empty() =~= front),
        }
    }
}

proof fn one_line_sum(a: Seq<char>, b: Seq<char>)
    requires
        one_line(a),
        one_line(b),
    ensures
        one_line(a + b),
{
    let s = a + b;
    assert forall|i: int| 0 <= i < s.len() implies #[trigger] s[i] != '\n' by {
        if i < a.len() {
            assert(s[i] == a[i]);
        } else {
            assert(s[i] == b[i - a.len()]);
        }
    }
}

proof fn one_line_labels()
    ensures
        one_line("network-name: "@),
        one_line("network-secret: "@),
        one_line("dhcp: "@),
        one_line("no-tun: "@),
        one_line("ipv4: "@),
        one_line("ipv6: "@),
        one_line("peers: "@),
        one_line("networks: "@),
        one_line("true"@),
        one_line("false"@),
        one_line("off"@),
        one_line("  "@),
        one_line(": "@),
        one_line("->"@),
{
    reveal_strlit("network-name: ");
    reveal_strlit("network-secret: ");
    reveal_strlit("dhcp: ");
    reveal_strlit("no-tun: ");
    reveal_strlit("ipv4: ");
    reveal_strlit("ipv6: ");
    reveal_strlit("peers: ");
    reveal_strlit("networks: ");
    reveal_strlit("true");
    reveal_strlit("false");
    reveal_strlit("off");
    reveal_strlit("  ");
    reveal_strlit(": ");
    reveal_strlit("->");
}

proof fn decimal_is_one_line(n: nat)
    ensures
        one_line(decimal(n)),
{
    decimal_reads_as_the_number(n);
    assert forall|i: int| 0 <= i < decimal(n).len() implies #[trigger] decimal(n)[i] != '\n' by {
        assert('0' <= decimal(n)[i]);
    }
}

proof fn config_lines_are_lines(c: ConfigView)
    requires
        showable(c),
    ensures
        forall|i: int| 0 <= i < config_lines(c).len() ==> one_line(#[trigger] config_lines(c)[i]),
{
    let l = config_lines(c);
    let n = c.peers.len() as int;
    each_value_has_its_line(c);
    one_line_labels();
    one_line_sum("network-name: "@, c.network_name);
    one_line_sum("network-secret: "@, secret_text(c));
    one_line_sum("dhcp: "@, bool_form(c.dhcp));
    one_line_sum("no-tun: "@, bool_form(c.no_tun));
    one_line_sum("ipv4: "@, address_form(c.ipv4));
    one_line_sum("ipv6: "@, address_form(c.ipv6));
    decimal_is_one_line(c.peers.len());
    decimal_is_one_line(c.networks.len());
    one_line_sum("peers: "@, decimal(c.peers.len()));
    one_line_sum("networks: "@, decimal(c.networks.len()));
    assert forall|i: int| 0 <= i < l.len() implies one_line(#[trigger] l[i]) by {
        if 7 <= i < 7 + n {
            let j = i - 7;
            assert(l[i] == l[7 + j]);
            decimal_is_one_line((j + 1) as nat);
            one_line_sum("  "@, decimal((j + 1) as nat));
            one_line_sum("  "@ + decimal((j + 1) as nat), ": "@);
            one_line_sum("  "@ + decimal((j + 1) as nat) + ": "@, c.peers[j].uri);
        } else if i >= 8 + n {
            let j = i - 8 - n;
            assert(l[i] == l[8 + n + j]);
            decimal_is_one_line((j + 1) as nat);
            one_line_sum("  "@, decimal((j + 1) as nat));
            one_line_sum("  "@ + decimal((j + 1) as nat), ": "@);
            let front = "  "@ + decimal((j + 1) as nat) + ": "@;
            one_line_sum(front, c.networks[j].cidr);
            match c.networks[j].mapped_cidr {
                Some(m) => {
                    one_line_sum("->"@, m);
                    one_line_sum(front + c.networks[j].cidr, "->"@ + m);
                },
                None => one_line_sum(front + c.networks[j].cidr, Seq::empty()),
            }
        }
    }
}

/// The text that shows a configuration has exactly the lines of its values.
pub proof fn shown_config_has_the_lines(c: ConfigView)
    requires
        showable(c),
    ensures
        lines_of(config_form(c)) == config_lines(c),
{
    config_lines_are_lines(c);
    joined_lines_are_the_lines(config_lines(c));
}

proof fn same_behind(front: Seq<char>, a: Seq<char>, b: Seq<char>)
    requires
        front + a == front + b,
    ensures
        a == b,
{
    assert((front + a).skip(front.len() as int) =~= a);
    assert((front + b).skip(front.len() as int) =~= b);
}

proof fn arrow_at_joined(a: Seq<char>, b: Seq<char>)
    requires
        arrow_at(a) == a.len(),
    ensures
        arrow_at(a + "->"@ + b) == a.len(),
    decreases a.len(),
{
    reveal_strlit("->");
    let s = a + "->"@ + b;
    if a.len() > 0 {
        let t = a.drop_first();
        if a.len() >= 2 {
            assert(s[1] == a[1]);
        } else {
            assert(s[1] == '-');
            assert(arrow_at(t) == 0);
        }
        assert(s[0] == a[0]);
        arrow_at_joined(t, b);
        assert(s.drop_first() =~= t + "->"@ + b);
    } else {
        assert(s[0] == '-' && s[1] == '>');
    }
}

/// A network is named by its range, or by its range and, behind `->`, the range
/// under which it is offered.
pub proof fn networks_are_named_by_their_ranges(a: Seq<char>, b: Seq<char>)
    requires
        arrow_at(a) == a.len(),
    ensures
        network_parts(a) == (a, None::<Seq<char>>),
        network_parts(a + "->"@ + b) == (a, Some(b)),
        network_form(a) is Some <==> ipv4_cidr_form(a) is Some,
        network_form(a) matches Some(n) ==> Some(n.cidr) == ipv4_cidr_form(a) && n.mapped_cidr
            is None,
        network_form(a + "->"@ + b) is Some <==> ipv4_cidr_form(a) is Some && ipv4_cidr_form(
            b,
        ) is Some,
        network_form(a + "->"@ + b) matches Some(n) ==> Some(n.cidr) == ipv4_cidr_form(a)
            && n.mapped_cidr == ipv4_cidr_form(b),
{
    reveal_strlit("->");
    arrow_at_joined(a, b);
    let s = a + "->"@ + b;
    assert(s.take(a.len() as int) =~= a);
    assert(s.skip(a.len() as int + 2) =~= b);
}

proof fn shown_network_is_known(
    front: Seq<char>,
    a: NetworkView,
    b: NetworkView,
)
    requires
        arrow_at(a.cidr) == a.cidr.len(),
        arrow_at(b.cidr) == b.cidr.len(),
        front + a.cidr + (match a.mapped_cidr {
            Some(m) => "->"@ + m,
            None => Seq::empty(),
        }) == front + b.cidr + (match b.mapped_cidr {
            Some(m) => "->"@ + m,
            None => Seq::empty(),
        }),
    ensures
        a == b,
{
    let x = a.cidr + (match a.mapped_cidr {
        Some(m) => "->"@ + m,
        None => Seq::empty(),
    });
    let y = b.cidr + (match b.mapped_cidr {
        Some(m) => "->"@ + m,
        None => Seq::empty(),
    });
    assert(front + a.cidr + (match a.mapped_cidr {
        Some(m) => "->"@ + m,
        None => Seq::empty(),
    }) =~= front + x);
    assert(front + b.cidr + (match b.mapped_cidr {
        Some(m) => "->"@ + m,
        None => Seq::empty(),
    }) =~= front + y);
    same_behind(front, x, y);
    reveal_strlit("->");
    match a.mapped_cidr {
        Some(m) => {
            networks_are_named_by_their_ranges(a.cidr, m);
            assert(x =~= a.cidr + "->"@ + m);
        },
        None => {
            networks_are_named_by_their_ranges(a.cidr, Seq::empty());
            assert(x =~= a.cidr);
        },
    }
    match b.mapped_cidr {
        Some(m) => {
            networks_are_named_by_their_ranges(b.cidr, m);
            assert(y =~= b.cidr + "->"@ + m);
        },
        None => {
            networks_are_named_by_their_ranges(b.cidr, Seq::empty());
            assert(y =~= b.cidr);
        },
    }
    assert(network_parts(x) == (a.cidr, a.mapped_cidr));
    assert(network_parts(y) == (b.cidr, b.mapped_cidr));
}

/// The text that shows a configuration tells its values apart: two that are shown
/// alike have the same name, secret, switches, addresses, peers and networks.
pub proof fn shown_config_tells_the_values(a: ConfigView, b: ConfigView)
    requires
        showable(a),
        showable(b),
        config_form(a) == config_form(b),
    ensures
        a.network_name == b.network_name,
        secret_text(a) == secret_text(b),
        a.dhcp == b.dhcp,
        a.no_tun == b.no_tun,
        a.ipv4 == b.ipv4,
        a.ipv6 == b.ipv6,
        a.peers.len() == b.peers.len(),
        forall|i: int| 0 <= i < a.peers.len() ==> (#[trigger] a.peers[i]).uri == b.peers[i].uri,
        a.networks == b.networks,
{
    shown_config_has_the_lines(a);
    shown_config_has_the_lines(b);
    each_value_has_its_line(a);
    each_value_has_its_line(b);
    let l = config_lines(a);
    let k = config_lines(b);
    assert(l == k);
    same_behind("network-name: "@, a.network_name, b.network_name);
    same_behind("network-secret: "@, secret_text(a), secret_text(b));
    same_behind("dhcp: "@, bool_form(a.dhcp), bool_form(b.dhcp));
    same_behind("no-tun: "@, bool_form(a.no_tun), bool_form(b.no_tun));
    same_behind("ipv4: "@, address_form(a.ipv4), address_form(b.ipv4));
    same_behind("ipv6: "@, address_form(a.ipv6), address_form(b.ipv6));
    reveal_strlit("true");
    reveal_strlit("false");
    assert("true"@.len() != "false"@.len());
    same_behind("peers: "@, decimal(a.peers.len()), decimal(b.peers.len()));
    decimal_is_injective(a.peers.len(), b.peers.len());
    let n = a.peers.len() as int;
    assert forall|i: int| 0 <= i < n implies (#[trigger] a.peers[i]).uri == b.peers[i].uri by {
        assert(l[7 + i] == k[7 + i]);
        same_behind("  "@ + decimal((i + 1) as nat) + ": "@, a.peers[i].uri, b.peers[i].uri);
    }
    same_behind("networks: "@, decimal(a.networks.len()), decimal(b.networks.len()));
    decimal_is_injective(a.networks.len(), b.networks.len());
    assert forall|i: int| 0 <= i < a.networks.len() implies #[trigger] a.networks[i]
        == b.networks[i] by {
        assert(l[8 + n + i] == k[8 + n + i]);
        shown_network_is_known(
            "  "@ + decimal((i + 1) as nat) + ": "@,
            a.networks[i],
            b.networks[i],
        );
    }
    assert(a.networks =~= b.networks);
}

/// The text that shows the state has, in this order, a line that says whether the
/// network runs, the instance where it runs, the address of the portal where it is
/// up, an empty line, and the lines of the configuration.
pub proof fn shown_status_has_the_lines(s: RuntimeView)
    requires
        showable(s.config),
    ensures
        ({
            let l = lines_of(joined(status_lines(s), "\n"@));
            let id = if s.instance_id is Some {
                1int
            } else {
                0
            };
            let addr = if s.rpc_addr is Some {
                1int
            } else {
                0
            };
            &&& s.instance_id is Some ==> l[0] == "network-running: "@ + "true"@
            &&& s.instance_id is None ==> l[0] == "network-running: "@ + "false"@
            &&& s.instance_id matches Some(i) ==> l[1] == "instance-id: "@ + uuid_form(i)
            &&& s.rpc_addr matches Some(a) ==> l[1 + id] == "rpc-addr: "@ + "127.0.0.1:"@ + decimal(
                a.port as nat,
            )
            &&& l[1 + id + addr].len() == 0
            &&& l.skip(2 + id + addr) == config_lines(s.config)
        }),
{
    let all = status_lines(s);
    let front = all.drop_last();
    let c = config_form(s.config);
    reveal_strlit("network-running: ");
    reveal_strlit("instance-id: ");
    reveal_strlit("rpc-addr: ");
    reveal_strlit("127.0.0.1:");
    reveal_strlit("");
    one_line_labels();
    one_line_sum("network-running: "@, bool_form(s.instance_id is Some));
    if let Some(i) = s.instance_id {
        uuid_form_is_one_line(i);
        one_line_sum("instance-id: "@, uuid_form(i));
    }
    if let Some(a) = s.rpc_addr {
        decimal_is_one_line(a.port as nat);
        one_line_sum("127.0.0.1:"@, decimal(a.port as nat));
        one_line_sum("rpc-addr: "@, loopback_form(a.port));
        assert("rpc-addr: "@ + loopback_form(a.port) =~= "rpc-addr: "@ + "127.0.0.1:"@ + decimal(
            a.port as nat,
        ));
    }
    assert(all.last() == c);
    assert forall|i: int| 0 <= i < front.len() implies one_line(#[trigger] front[i]) by {}
    joined_lines_are_the_lines(front);
    reveal_strlit("\n");
    assert("\n"@ =~= seq!['\n']);
    lines_of_two_texts(joined(front, "\n"@), c);
    shown_config_has_the_lines(s.config);
    let l = lines_of(joined(all, "\n"@));
    assert(l == front + config_lines(s.config));
    assert(l.skip(front.len() as int) =~= config_lines(s.config));
}

proof fn uuid_form_is_one_line(id: u128)
    ensures
        one_line(uuid_form(id)),
{
    let u = uuid_form(id);
    assert forall|i: int| 0 <= i < u.len() implies #[trigger] u[i] != '\n' by {
        let j = if i < 8 {
            i
        } else if i < 13 {
            i - 1
        } else if i < 18 {
            i - 2
        } else if i < 23 {
            i - 3
        } else {
            i - 4
        };
        let d = ((id as int / vstd::arithmetic::power::pow(16, (31 - j) as nat)) % 16) as nat;
        assert(d < 16);
        assert(crate::address::hex_digit(d) != '\n');
    }
}

/// Where a step of the start fails, the user is told why and nothing changes.
pub proof fn failed_starts_change_nothing(s: RuntimeView, addr: RpcAddr, e: CommandError)
    ensures
        start_outcome(s, StartEvent::Port(None)) == Err::<StartActionView, Seq<char>>(
            "no free port for rpc portal"@,
        ),
        start_state(s, StartEvent::Port(None)) == s,
        start_outcome(s, StartEvent::Portal { addr, outcome: Err(e) }) == Err::<
            StartActionView,
            Seq<char>,
        >(e@),
        start_state(s, StartEvent::Portal { addr, outcome: Err(e) }) == s,
        start_outcome(s, StartEvent::Instance { addr, outcome: Err(e) }) == Err::<
            StartActionView,
            Seq<char>,
        >(e@),
        start_state(s, StartEvent::Instance { addr, outcome: Err(e) }) == s,
{
}

/// From the moment that the portal serves it is known at its address, whatever
/// becomes of the instance; looking for a port changes nothing.
pub proof fn serving_portal_is_known(
    s: RuntimeView,
    addr: RpcAddr,
    port: Option<u16>,
    instance: Result<u128, CommandError>,
)
    ensures
        ({
            let up = start_state(s, StartEvent::Portal { addr, outcome: Ok(()) });
            let run = start_state(up, StartEvent::Instance { addr, outcome: instance });
            &&& start_state(s, StartEvent::Port(port)) == s
            &&& up == (RuntimeView { rpc_addr: Some(addr), ..s })
            &&& run.rpc_addr == Some(addr)
            &&& run.config == s.config
            &&& run.instance_id == (match instance {
                Ok(id) => Some(id),
                Err(_) => s.instance_id,
            })
        }),
{
}

/// What the user is told of a start and a stop names the instance, and of a start
/// the address of the portal.
pub proof fn starts_and_stops_name_the_instance(id: u128, addr: RpcAddr)
    ensures
        started_form(id, addr) == "started: instance-id="@ + uuid_form(id) + " rpc-addr="@
            + "127.0.0.1:"@ + decimal(addr.port as nat),
        stopped_form(id) == "stopped: instance-id="@ + uuid_form(id),
{
    let front = "started: instance-id="@ + uuid_form(id) + " rpc-addr="@;
    assert(front + loopback_form(addr.port) =~= front + "127.0.0.1:"@ + decimal(addr.port as nat));
}

} // verus!
