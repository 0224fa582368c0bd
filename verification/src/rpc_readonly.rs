//! Read-only management commands and the remote calls that answer them.
use vstd::prelude::*;
use vstd::string::*;
use crate::address::{loopback_url, RpcAddr};
use crate::command::{command_of, error1, error2, word, word_at, CommandError, CommandView};
use crate::text::{join, joined, str_eq, texts};

verus! {

/// The services of the RPC portal.
#[derive(Clone, Copy, PartialEq, Eq, Structural)]
pub enum RpcService {
    PeerManage,
    PeerCenter,
    Config,
    VpnPortal,
    TcpProxy,
    AclManage,
    PortForwardManage,
    Stats,
    Logger,
    CredentialManage,
}

/// The calls that answer read-only commands.
#[derive(Clone, Copy, PartialEq, Eq, Structural)]
pub enum RpcMethod {
    ListPeer,
    ListPublicIpv6Info,
    GetGlobalPeerMap,
    ListRoute,
    DumpRoute,
    ShowNodeInfo,
    GetConfig,
    GetVpnPortalInfo,
    ListTcpProxyEntry,
    GetAclStats,
    ListPortForward,
    GetWhitelist,
    GetStats,
    GetPrometheusStats,
    GetLoggerConfig,
    ListCredentials,
}

/// How the replies of a call are shown.
#[derive(Clone, Copy, PartialEq, Eq, Structural)]
pub enum ReplyShape {
    /// The only reply, as a structure.
    Structure,
    /// A text that the only reply holds.
    Text,
    /// The list of the replies, as a structure.
    List,
}

/// The service that a call belongs to.
pub open spec fn service_of(m: RpcMethod) -> RpcService {
    match m {
        RpcMethod::ListPeer
        | RpcMethod::ListPublicIpv6Info
        | RpcMethod::ListRoute
        | RpcMethod::DumpRoute
        | RpcMethod::ShowNodeInfo => RpcService::PeerManage,
        RpcMethod::GetGlobalPeerMap => RpcService::PeerCenter,
        RpcMethod::GetConfig => RpcService::Config,
        RpcMethod::GetVpnPortalInfo => RpcService::VpnPortal,
        RpcMethod::ListTcpProxyEntry => RpcService::TcpProxy,
        RpcMethod::GetAclStats | RpcMethod::GetWhitelist => RpcService::AclManage,
        RpcMethod::ListPortForward => RpcService::PortForwardManage,
        RpcMethod::GetStats | RpcMethod::GetPrometheusStats => RpcService::Stats,
        RpcMethod::GetLoggerConfig => RpcService::Logger,
        RpcMethod::ListCredentials => RpcService::CredentialManage,
    }
}

/// What a user is told when no client of a service can be had.
pub open spec fn client_error_form(service: RpcService) -> Seq<char> {
    match service {
        RpcService::PeerManage => "failed to get peer client"@,
        RpcService::PeerCenter => "failed to get peer-center client"@,
        RpcService::Config => "failed to get config client"@,
        RpcService::VpnPortal => "failed to get vpn-portal client"@,
        RpcService::TcpProxy => "failed to get proxy client"@,
        RpcService::AclManage => "failed to get acl client"@,
        RpcService::PortForwardManage => "failed to get port-forward client"@,
        RpcService::Stats => "failed to get stats client"@,
        RpcService::Logger => "failed to get logger client"@,
        RpcService::CredentialManage => "failed to get credential client"@,
    }
}

/// The scopes in which a call is made, one after the other.
pub open spec fn scopes_of(m: RpcMethod) -> Seq<Seq<char>> {
    match m {
        RpcMethod::ListTcpProxyEntry => seq![
            "tcp"@,
            "kcp_src"@,
            "kcp_dst"@,
            "quic_src"@,
            "quic_dst"@,
        ],
        _ => seq![""@],
    }
}

/// How the replies of a call are shown.
pub open spec fn shape_of(m: RpcMethod) -> ReplyShape {
    match m {
        RpcMethod::ListTcpProxyEntry => ReplyShape::List,
        RpcMethod::DumpRoute | RpcMethod::GetPrometheusStats => ReplyShape::Text,
        _ => ReplyShape::Structure,
    }
}

impl RpcService {
    /// The error when no client of the service can be had.
    pub fn client_error(&self) -> (r: CommandError)
        ensures
            r@ == client_error_form(*self),
    {
        match self {
            RpcService::PeerManage => error1("failed to get peer client"),
            RpcService::PeerCenter => error1("failed to get peer-center client"),
            RpcService::Config => error1("failed to get config client"),
            RpcService::VpnPortal => error1("failed to get vpn-portal client"),
            RpcService::TcpProxy => error1("failed to get proxy client"),
            RpcService::AclManage => error1("failed to get acl client"),
            RpcService::PortForwardManage => error1("failed to get port-forward client"),
            RpcService::Stats => error1("failed to get stats client"),
            RpcService::Logger => error1("failed to get logger client"),
            RpcService::CredentialManage => error1("failed to get credential client"),
        }
    }
}

impl RpcMethod {
    /// The service that the call belongs to.
    pub fn service(&self) -> (r: RpcService)
        ensures
            r == service_of(*self),
    {
        match self {
            RpcMethod::ListPeer
            | RpcMethod::ListPublicIpv6Info
            | RpcMethod::ListRoute
            | RpcMethod::DumpRoute
            | RpcMethod::ShowNodeInfo => RpcService::PeerManage,
            RpcMethod::GetGlobalPeerMap => RpcService::PeerCenter,
            RpcMethod::GetConfig => RpcService::Config,
            RpcMethod::GetVpnPortalInfo => RpcService::VpnPortal,
            RpcMethod::ListTcpProxyEntry => RpcService::TcpProxy,
            RpcMethod::GetAclStats | RpcMethod::GetWhitelist => RpcService::AclManage,
            RpcMethod::ListPortForward => RpcService::PortForwardManage,
            RpcMethod::GetStats | RpcMethod::GetPrometheusStats => RpcService::Stats,
            RpcMethod::GetLoggerConfig => RpcService::Logger,
            RpcMethod::ListCredentials => RpcService::CredentialManage,
        }
    }

    /// The scopes in which the call is made, one after the other.
    pub fn scopes(&self) -> (r: Vec<String>)
        ensures
            texts(r@) == scopes_of(*self),
    {
        let mut out: Vec<String> = Vec::new();
        match self {
            RpcMethod::ListTcpProxyEntry => {
                crate::command::push_line(&mut out, "tcp");
                crate::command::push_line(&mut out, "kcp_src");
                crate::command::push_line(&mut out, "kcp_dst");
                crate::command::push_line(&mut out, "quic_src");
                crate::command::push_line(&mut out, "quic_dst");
            },
            _ => {
                crate::command::push_line(&mut out, "");
            },
        }
        assert(texts(out@) =~= scopes_of(*self));
        out
    }

    /// How the replies of the call are shown.
    pub fn shape(&self) -> (r: ReplyShape)
        ensures
            r == shape_of(*self),
    {
        match self {
            RpcMethod::ListTcpProxyEntry => ReplyShape::List,
            RpcMethod::DumpRoute | RpcMethod::GetPrometheusStats => ReplyShape::Text,
            _ => ReplyShape::Structure,
        }
    }
}

/// The second word of a command; `default` where there is none.
pub open spec fn sub_word(w: Seq<Seq<char>>, default: Seq<char>) -> Seq<char> {
    if w.len() > 1 {
        w[1]
    } else {
        default
    }
}

/// The call of a `peer` command.
pub open spec fn peer_method(sub: Seq<char>) -> Result<RpcMethod, Seq<char>> {
    if sub == "list"@ {
        Ok(RpcMethod::ListPeer)
    } else if sub == "ipv6"@ {
        Ok(RpcMethod::ListPublicIpv6Info)
    } else {
        Err("unknown peer subcommand: "@ + sub)
    }
}

/// The call of a `route` command.
pub open spec fn route_method(sub: Seq<char>) -> Result<RpcMethod, Seq<char>> {
    if sub == "list"@ {
        Ok(RpcMethod::ListRoute)
    } else if sub == "dump"@ {
        Ok(RpcMethod::DumpRoute)
    } else {
        Err("unknown route subcommand: "@ + sub)
    }
}

/// The call of a `node` command.
pub open spec fn node_method(sub: Seq<char>) -> Result<RpcMethod, Seq<char>> {
    if sub == "info"@ || sub == "show"@ {
        Ok(RpcMethod::ShowNodeInfo)
    } else if sub == "config"@ {
        Ok(RpcMethod::GetConfig)
    } else {
        Err("unknown node subcommand: "@ + sub)
    }
}

/// The call of a `stats` command.
pub open spec fn stats_method(sub: Seq<char>) -> Result<RpcMethod, Seq<char>> {
    if sub == "show"@ {
        Ok(RpcMethod::GetStats)
    } else if sub == "prometheus"@ {
        Ok(RpcMethod::GetPrometheusStats)
    } else {
        Err("unknown stats subcommand: "@ + sub)
    }
}

/// The call of a command with a single subcommand.
pub open spec fn only_method(
    sub: Seq<char>,
    known: Seq<char>,
    method: RpcMethod,
    complaint: Seq<char>,
) -> Result<RpcMethod, Seq<char>> {
    if sub == known {
        Ok(method)
    } else {
        Err(complaint + sub)
    }
}

/// The call that answers a read-only command, or why there is none.
pub open spec fn method_of(w: Seq<Seq<char>>) -> Result<RpcMethod, Seq<char>> {
    let head = word(w, 0);
    if head == "peer"@ {
        peer_method(sub_word(w, "list"@))
    } else if head == "peer-center"@ {
        Ok(RpcMethod::GetGlobalPeerMap)
    } else if head == "route"@ {
        route_method(sub_word(w, "list"@))
    } else if head == "node"@ {
        node_method(sub_word(w, "info"@))
    } else if head == "vpn-portal"@ {
        Ok(RpcMethod::GetVpnPortalInfo)
    } else if head == "proxy"@ {
        Ok(RpcMethod::ListTcpProxyEntry)
    } else if head == "acl"@ {
        only_method(
            sub_word(w, "stats"@),
            "stats"@,
            RpcMethod::GetAclStats,
            "unknown acl subcommand: "@,
        )
    } else if head == "port-forward"@ {
        only_method(
            sub_word(w, "list"@),
            "list"@,
            RpcMethod::ListPortForward,
            "unknown port-forward subcommand: "@,
        )
    } else if head == "whitelist"@ {
        only_method(
            sub_word(w, "show"@),
            "show"@,
            RpcMethod::GetWhitelist,
            "unknown whitelist subcommand: "@,
        )
    } else if head == "stats"@ {
        stats_method(sub_word(w, "show"@))
    } else if head == "logger"@ {
        only_method(
            sub_word(w, "get"@),
            "get"@,
            RpcMethod::GetLoggerConfig,
            "unknown logger subcommand: "@,
        )
    } else if head == "credential"@ {
        only_method(
            sub_word(w, "list"@),
            "list"@,
            RpcMethod::ListCredentials,
            "unknown credential subcommand: "@,
        )
    } else {
        Err("unknown management command: "@ + joined(w, " "@))
    }
}

/// What choosing a call gave, by contents.
pub open spec fn method_view(r: Result<RpcMethod, CommandError>) -> Result<RpcMethod, Seq<char>> {
    match r {
        Ok(m) => Ok(m),
        Err(e) => Err(e@),
    }
}

fn sub_at<'a>(w: &'a Vec<String>, default: &'a str) -> (r: &'a str)
    ensures
        r@ == sub_word(texts(w@), default@),
{
    if w.len() > 1 {
        w[1].as_str()
    } else {
        default
    }
}

fn only(sub: &str, known: &str, method: RpcMethod, complaint: &str) -> (r: Result<
    RpcMethod,
    CommandError,
>)
    ensures
        method_view(r) == only_method(sub@, known@, method, complaint@),
{
    if str_eq(sub, known) {
        Ok(method)
    } else {
        Err(error2(complaint, sub))
    }
}

/// Answers read-only commands through the RPC portal of a running network.
pub struct ReadOnlyRpcExecutor {
    url: String,
}

impl View for ReadOnlyRpcExecutor {
    type V = Seq<char>;

    /// The URL of the portal.
    closed spec fn view(&self) -> Seq<char> {
        self.url@
    }
}

impl ReadOnlyRpcExecutor {
    /// An executor for the portal at the given address.
    pub fn new(rpc_addr: RpcAddr) -> (r: Self)
        ensures
            r@ == loopback_url(rpc_addr.port),
    {
        Self { url: rpc_addr.url() }
    }

    /// The URL of the portal.
    pub fn url(&self) -> (r: &String)
        ensures
            r@ == self@,
    {
        &self.url
    }

    /// Chooses the call that answers a command.
    pub fn execute(&self, words: &Vec<String>) -> (r: Result<RpcMethod, CommandError>)
        ensures
            method_view(r) == method_of(texts(words@)),
    {
        let head = word_at(words, 0);
        if str_eq(head, "peer") {
            Self::exec_peer(words)
        } else if str_eq(head, "peer-center") {
            Ok(RpcMethod::GetGlobalPeerMap)
        } else if str_eq(head, "route") {
            Self::exec_route(words)
        } else if str_eq(head, "node") {
            Self::exec_node(words)
        } else if str_eq(head, "vpn-portal") {
            Ok(RpcMethod::GetVpnPortalInfo)
        } else if str_eq(head, "proxy") {
            Ok(RpcMethod::ListTcpProxyEntry)
        } else if str_eq(head, "acl") {
            let sub = sub_at(words, "stats");
            only(sub, "stats", RpcMethod::GetAclStats, "unknown acl subcommand: ")
        } else if str_eq(head, "port-forward") {
            let sub = sub_at(words, "list");
            only(sub, "list", RpcMethod::ListPortForward, "unknown port-forward subcommand: ")
        } else if str_eq(head, "whitelist") {
            let sub = sub_at(words, "show");
            only(sub, "show", RpcMethod::GetWhitelist, "unknown whitelist subcommand: ")
        } else if str_eq(head, "stats") {
            Self::exec_stats(words)
        } else if str_eq(head, "logger") {
            let sub = sub_at(words, "get");
            only(sub, "get", RpcMethod::GetLoggerConfig, "unknown logger subcommand: ")
        } else if str_eq(head, "credential") {
            let sub = sub_at(words, "list");
            only(sub, "list", RpcMethod::ListCredentials, "unknown credential subcommand: ")
        } else {
            let line = join(words, " ");
            Err(error2("unknown management command: ", line.as_str()))
        }
    }

    fn exec_peer(words: &Vec<String>) -> (r: Result<RpcMethod, CommandError>)
        ensures
            method_view(r) == peer_method(sub_word(texts(words@), "list"@)),
    {
        let sub = sub_at(words, "list");
        if str_eq(sub, "list") {
            Ok(RpcMethod::ListPeer)
        } else if str_eq(sub, "ipv6") {
            Ok(RpcMethod::ListPublicIpv6Info)
        } else {
            Err(error2("unknown peer subcommand: ", sub))
        }
    }

    fn exec_route(words: &Vec<String>) -> (r: Result<RpcMethod, CommandError>)
        ensures
            method_view(r) == route_method(sub_word(texts(words@), "list"@)),
    {
        let sub = sub_at(words, "list");
        if str_eq(sub, "list") {
            Ok(RpcMethod::ListRoute)
        } else if str_eq(sub, "dump") {
            Ok(RpcMethod::DumpRoute)
        } else {
            Err(error2("unknown route subcommand: ", sub))
        }
    }

    fn exec_node(words: &Vec<String>) -> (r: Result<RpcMethod, CommandError>)
        ensures
            method_view(r) == node_method(sub_word(texts(words@), "info"@)),
    {
        let sub = sub_at(words, "info");
        if str_eq(sub, "info") || str_eq(sub, "show") {
            Ok(RpcMethod::ShowNodeInfo)
        } else if str_eq(sub, "config") {
            Ok(RpcMethod::GetConfig)
        } else {
            Err(error2("unknown node subcommand: ", sub))
        }
    }

    fn exec_stats(words: &Vec<String>) -> (r: Result<RpcMethod, CommandError>)
        ensures
            method_view(r) == stats_method(sub_word(texts(words@), "show"@)),
    {
        let sub = sub_at(words, "show");
        if str_eq(sub, "show") {
            Ok(RpcMethod::GetStats)
        } else if str_eq(sub, "prometheus") {
            Ok(RpcMethod::GetPrometheusStats)
        } else {
            Err(error2("unknown stats subcommand: ", sub))
        }
    }
}

/// The words are a read-only management command, which the given call answers.
pub open spec fn answered(w: Seq<Seq<char>>, method: RpcMethod) -> bool {
    &&& command_of(w) == Ok::<CommandView, Seq<char>>(CommandView::ReadOnlyMgmt { words: w })
    &&& method_of(w) == Ok::<RpcMethod, Seq<char>>(method)
}

/// The read-only management commands that `help` lists, and the calls that answer
/// them.
pub proof fn read_only_forms()
    ensures
        answered(seq!["peer"@, "list"@], RpcMethod::ListPeer),
        answered(seq!["peer"@, "ipv6"@], RpcMethod::ListPublicIpv6Info),
        answered(seq!["peer-center"@], RpcMethod::GetGlobalPeerMap),
        answered(seq!["route"@, "list"@], RpcMethod::ListRoute),
        answered(seq!["route"@, "dump"@], RpcMethod::DumpRoute),
        answered(seq!["node"@], RpcMethod::ShowNodeInfo),
        answered(seq!["node"@, "info"@], RpcMethod::ShowNodeInfo),
        answered(seq!["node"@, "config"@], RpcMethod::GetConfig),
        answered(seq!["vpn-portal"@], RpcMethod::GetVpnPortalInfo),
        answered(seq!["proxy"@], RpcMethod::ListTcpProxyEntry),
        answered(seq!["acl"@, "stats"@], RpcMethod::GetAclStats),
        answered(seq!["port-forward"@, "list"@], RpcMethod::ListPortForward),
        answered(seq!["whitelist"@, "show"@], RpcMethod::GetWhitelist),
        answered(seq!["stats"@, "show"@], RpcMethod::GetStats),
        answered(seq!["stats"@, "prometheus"@], RpcMethod::GetPrometheusStats),
        answered(seq!["logger"@, "get"@], RpcMethod::GetLoggerConfig),
        answered(seq!["credential"@, "list"@], RpcMethod::ListCredentials),
{
    reveal_strlit("acl");
    assert("acl"@.len() == 3);
    reveal_strlit("bluenet");
    assert("bluenet"@.len() == 7);
    reveal_strlit("config");
    assert("config"@.len() == 6);
    reveal_strlit("credential");
    assert("credential"@.len() == 10);
    reveal_strlit("dump");
    assert("dump"@.len() == 4);
    reveal_strlit("exit");
    assert("exit"@.len() == 4);
    reveal_strlit("get");
    assert("get"@.len() == 3);
    reveal_strlit("help");
    assert("help"@.len() == 4);
    reveal_strlit("info");
    assert("info"@.len() == 4);
    reveal_strlit("ipv6");
    assert("ipv6"@.len() == 4);
    reveal_strlit("list");
    assert("list"@.len() == 4);
    reveal_strlit("logger");
    assert("logger"@.len() == 6);
    reveal_strlit("node");
    assert("node"@.len() == 4);
    reveal_strlit("peer");
    assert("peer"@.len() == 4);
    reveal_strlit("peer-center");
    assert("peer-center"@.len() == 11);
    reveal_strlit("port-forward");
    assert("port-forward"@.len() == 12);
    reveal_strlit("prometheus");
    assert("prometheus"@.len() == 10);
    reveal_strlit("proxy");
    assert("proxy"@.len() == 5);
    reveal_strlit("quit");
    assert("quit"@.len() == 4);
    reveal_strlit("route");
    assert("route"@.len() == 5);
    reveal_strlit("show");
    assert("show"@.len() == 4);
    reveal_strlit("start-network");
    assert("start-network"@.len() == 13);
    reveal_strlit("stats");
    assert("stats"@.len() == 5);
    reveal_strlit("status");
    assert("status"@.len() == 6);
    reveal_strlit("stop-network");
    assert("stop-network"@.len() == 12);
    reveal_strlit("vpn-portal");
    assert("vpn-portal"@.len() == 10);
    reveal_strlit("whitelist");
    assert("whitelist"@.len() == 9);
    assert("acl"@[0] != "get"@[0]);
    assert("config"@[0] != "logger"@[0]);
    assert("config"@[0] != "status"@[0]);
    assert("credential"@[0] != "prometheus"@[0]);
    assert("credential"@[0] != "vpn-portal"@[0]);
    assert("dump"@[0] != "exit"@[0]);
    assert("dump"@[0] != "help"@[0]);
    assert("dump"@[0] != "info"@[0]);
    assert("dump"@[0] != "ipv6"@[0]);
    assert("dump"@[0] != "list"@[0]);
    assert("dump"@[0] != "node"@[0]);
    assert("dump"@[0] != "peer"@[0]);
    assert("dump"@[0] != "quit"@[0]);
    assert("dump"@[0] != "show"@[0]);
    assert("exit"@[0] != "help"@[0]);
    assert("exit"@[0] != "info"@[0]);
    assert("exit"@[0] != "ipv6"@[0]);
    assert("exit"@[0] != "list"@[0]);
    assert("exit"@[0] != "node"@[0]);
    assert("exit"@[0] != "peer"@[0]);
    assert("exit"@[0] != "quit"@[0]);
    assert("exit"@[0] != "show"@[0]);
    assert("help"@[0] != "info"@[0]);
    assert("help"@[0] != "ipv6"@[0]);
    assert("help"@[0] != "list"@[0]);
    assert("help"@[0] != "node"@[0]);
    assert("help"@[0] != "peer"@[0]);
    assert("help"@[0] != "quit"@[0]);
    assert("help"@[0] != "show"@[0]);
    assert("info"@[1] != "ipv6"@[1]);
    assert("info"@[0] != "list"@[0]);
    assert("info"@[0] != "node"@[0]);
    assert("info"@[0] != "peer"@[0]);
    assert("info"@[0] != "quit"@[0]);
    assert("info"@[0] != "show"@[0]);
    assert("ipv6"@[0] != "list"@[0]);
    assert("ipv6"@[0] != "node"@[0]);
    assert("ipv6"@[0] != "peer"@[0]);
    assert("ipv6"@[0] != "quit"@[0]);
    assert("ipv6"@[0] != "show"@[0]);
    assert("list"@[0] != "node"@[0]);
    assert("list"@[0] != "peer"@[0]);
    assert("list"@[0] != "quit"@[0]);
    assert("list"@[0] != "show"@[0]);
    assert("logger"@[0] != "status"@[0]);
    assert("node"@[0] != "peer"@[0]);
    assert("node"@[0] != "quit"@[0]);
    assert("node"@[0] != "show"@[0]);
    assert("peer"@[0] != "quit"@[0]);
    assert("peer"@[0] != "show"@[0]);
    assert("port-forward"@[0] != "stop-network"@[0]);
    assert("prometheus"@[0] != "vpn-portal"@[0]);
    assert("proxy"@[0] != "route"@[0]);
    assert("proxy"@[0] != "stats"@[0]);
    assert("quit"@[0] != "show"@[0]);
    assert("route"@[0] != "stats"@[0]);
}

/// The first words of the read-only management commands are told apart.
proof fn management_words_differ()
    ensures
        "peer"@ != "peer-center"@,
        "peer"@ != "route"@,
        "peer"@ != "node"@,
        "peer"@ != "vpn-portal"@,
        "peer"@ != "proxy"@,
        "peer"@ != "acl"@,
        "peer"@ != "port-forward"@,
        "peer"@ != "whitelist"@,
        "peer"@ != "stats"@,
        "peer"@ != "logger"@,
        "peer"@ != "credential"@,
        "peer-center"@ != "route"@,
        "peer-center"@ != "node"@,
        "peer-center"@ != "vpn-portal"@,
        "peer-center"@ != "proxy"@,
        "peer-center"@ != "acl"@,
        "peer-center"@ != "port-forward"@,
        "peer-center"@ != "whitelist"@,
        "peer-center"@ != "stats"@,
        "peer-center"@ != "logger"@,
        "peer-center"@ != "credential"@,
        "route"@ != "node"@,
        "route"@ != "vpn-portal"@,
        "route"@ != "proxy"@,
        "route"@ != "acl"@,
        "route"@ != "port-forward"@,
        "route"@ != "whitelist"@,
        "route"@ != "stats"@,
        "route"@ != "logger"@,
        "route"@ != "credential"@,
        "node"@ != "vpn-portal"@,
        "node"@ != "proxy"@,
        "node"@ != "acl"@,
        "node"@ != "port-forward"@,
        "node"@ != "whitelist"@,
        "node"@ != "stats"@,
        "node"@ != "logger"@,
        "node"@ != "credential"@,
        "vpn-portal"@ != "proxy"@,
        "vpn-portal"@ != "acl"@,
        "vpn-portal"@ != "port-forward"@,
        "vpn-portal"@ != "whitelist"@,
        "vpn-portal"@ != "stats"@,
        "vpn-portal"@ != "logger"@,
        "vpn-portal"@ != "credential"@,
        "proxy"@ != "acl"@,
        "proxy"@ != "port-forward"@,
        "proxy"@ != "whitelist"@,
        "proxy"@ != "stats"@,
        "proxy"@ != "logger"@,
        "proxy"@ != "credential"@,
        "acl"@ != "port-forward"@,
        "acl"@ != "whitelist"@,
        "acl"@ != "stats"@,
        "acl"@ != "logger"@,
        "acl"@ != "credential"@,
        "port-forward"@ != "whitelist"@,
        "port-forward"@ != "stats"@,
        "port-forward"@ != "logger"@,
        "port-forward"@ != "credential"@,
        "whitelist"@ != "stats"@,
        "whitelist"@ != "logger"@,
        "whitelist"@ != "credential"@,
        "stats"@ != "logger"@,
        "stats"@ != "credential"@,
        "logger"@ != "credential"@,
{
    reveal_strlit("acl");
    assert("acl"@.len() == 3);
    reveal_strlit("credential");
    assert("credential"@.len() == 10);
    reveal_strlit("logger");
    assert("logger"@.len() == 6);
    reveal_strlit("node");
    assert("node"@.len() == 4);
    reveal_strlit("peer");
    assert("peer"@.len() == 4);
    reveal_strlit("peer-center");
    assert("peer-center"@.len() == 11);
    reveal_strlit("port-forward");
    assert("port-forward"@.len() == 12);
    reveal_strlit("proxy");
    assert("proxy"@.len() == 5);
    reveal_strlit("route");
    assert("route"@.len() == 5);
    reveal_strlit("stats");
    assert("stats"@.len() == 5);
    reveal_strlit("vpn-portal");
    assert("vpn-portal"@.len() == 10);
    reveal_strlit("whitelist");
    assert("whitelist"@.len() == 9);
    assert("credential"@[0] != "vpn-portal"@[0]);
    assert("node"@[0] != "peer"@[0]);
    assert("proxy"@[0] != "route"@[0]);
    assert("proxy"@[0] != "stats"@[0]);
    assert("route"@[0] != "stats"@[0]);
}

/// A subcommand that there is not is named in the error, with the command.
pub proof fn unknown_subcommands_are_named(sub: Seq<char>)
    ensures
        sub != "list"@ && sub != "ipv6"@ ==> method_of(seq!["peer"@, sub]) == Err::<RpcMethod, Seq<char>>(
            "unknown peer subcommand: "@ + sub,
        ),
        sub != "list"@ && sub != "dump"@ ==> method_of(seq!["route"@, sub]) == Err::<RpcMethod, Seq<char>>(
            "unknown route subcommand: "@ + sub,
        ),
        sub != "info"@ && sub != "show"@ && sub != "config"@ ==> method_of(seq!["node"@, sub]) == Err::<RpcMethod, Seq<char>>(
            "unknown node subcommand: "@ + sub,
        ),
        sub != "stats"@ ==> method_of(seq!["acl"@, sub]) == Err::<RpcMethod, Seq<char>>(
            "unknown acl subcommand: "@ + sub,
        ),
        sub != "list"@ ==> method_of(seq!["port-forward"@, sub]) == Err::<RpcMethod, Seq<char>>(
            "unknown port-forward subcommand: "@ + sub,
        ),
        sub != "show"@ ==> method_of(seq!["whitelist"@, sub]) == Err::<RpcMethod, Seq<char>>(
            "unknown whitelist subcommand: "@ + sub,
        ),
        sub != "show"@ && sub != "prometheus"@ ==> method_of(seq!["stats"@, sub]) == Err::<RpcMethod, Seq<char>>(
            "unknown stats subcommand: "@ + sub,
        ),
        sub != "get"@ ==> method_of(seq!["logger"@, sub]) == Err::<RpcMethod, Seq<char>>(
            "unknown logger subcommand: "@ + sub,
        ),
        sub != "list"@ ==> method_of(seq!["credential"@, sub]) == Err::<RpcMethod, Seq<char>>(
            "unknown credential subcommand: "@ + sub,
        ),
{
    management_words_differ();
}

/// A command without a subcommand is that with its first one.
pub proof fn first_subcommands_can_be_left_out()
    ensures
        method_of(seq!["peer"@]) == method_of(seq!["peer"@, "list"@]),
        method_of(seq!["route"@]) == method_of(seq!["route"@, "list"@]),
        method_of(seq!["node"@]) == method_of(seq!["node"@, "info"@]),
        method_of(seq!["acl"@]) == method_of(seq!["acl"@, "stats"@]),
        method_of(seq!["port-forward"@]) == method_of(seq!["port-forward"@, "list"@]),
        method_of(seq!["whitelist"@]) == method_of(seq!["whitelist"@, "show"@]),
        method_of(seq!["stats"@]) == method_of(seq!["stats"@, "show"@]),
        method_of(seq!["logger"@]) == method_of(seq!["logger"@, "get"@]),
        method_of(seq!["credential"@]) == method_of(seq!["credential"@, "list"@]),
        method_of(seq!["node"@, "show"@]) == method_of(seq!["node"@, "info"@]),
{
    management_words_differ();
}

/// The command is one of the read-only management commands.
pub open spec fn is_read_only_head(head: Seq<char>) -> bool {
    ||| head == "peer"@
    ||| head == "peer-center"@
    ||| head == "route"@
    ||| head == "node"@
    ||| head == "vpn-portal"@
    ||| head == "proxy"@
    ||| head == "acl"@
    ||| head == "port-forward"@
    ||| head == "whitelist"@
    ||| head == "stats"@
    ||| head == "logger"@
    ||| head == "credential"@
}

/// No word behind the subcommand changes the call. A command that there is not is
/// named in the error as it stands.
pub proof fn calls_are_chosen_by_two_words(w: Seq<Seq<char>>, rest: Seq<Seq<char>>)
    requires
        w.len() > 0,
    ensures
        is_read_only_head(w[0]) && w.len() >= 2 ==> method_of(w + rest) == method_of(w),
        !is_read_only_head(w[0]) ==> method_of(w) == Err::<RpcMethod, Seq<char>>(
            "unknown management command: "@ + joined(w, " "@),
        ),
{
    assert((w + rest)[0] == w[0]);
    if w.len() >= 2 {
        assert((w + rest)[1] == w[1]);
    }
}

/// The service that is asked goes by the command: routes and the node are kept by
/// the service for peers, the configuration of the node by that for
/// configurations, the whitelist by that for access lists, and everything else by
/// the service of its own name. The user is told that name where it cannot be
/// asked.
pub proof fn commands_ask_the_service_of_their_name(w: Seq<Seq<char>>, m: RpcMethod)
    requires
        method_of(w) == Ok::<RpcMethod, Seq<char>>(m),
    ensures
        ({
            let head = word(w, 0);
            let name = if head == "route"@ {
                "peer"@
            } else if head == "node"@ {
                if sub_word(w, "info"@) == "config"@ {
                    "config"@
                } else {
                    "peer"@
                }
            } else if head == "whitelist"@ {
                "acl"@
            } else {
                head
            };
            client_error_form(service_of(m)) == "failed to get "@ + name + " client"@
        }),
{
    management_words_differ();
    reveal_strlit("failed to get ");
    reveal_strlit(" client");
    reveal_strlit("config");
    reveal_strlit("failed to get peer client");
    reveal_strlit("failed to get peer-center client");
    reveal_strlit("failed to get config client");
    reveal_strlit("failed to get vpn-portal client");
    reveal_strlit("failed to get proxy client");
    reveal_strlit("failed to get acl client");
    reveal_strlit("failed to get port-forward client");
    reveal_strlit("failed to get stats client");
    reveal_strlit("failed to get logger client");
    reveal_strlit("failed to get credential client");
    reveal_strlit("peer");
    reveal_strlit("peer-center");
    reveal_strlit("vpn-portal");
    reveal_strlit("proxy");
    reveal_strlit("acl");
    reveal_strlit("port-forward");
    reveal_strlit("stats");
    reveal_strlit("logger");
    reveal_strlit("credential");
    reveal_strlit("info");
    reveal_strlit("show");
    assert("info"@.len() != "config"@.len());
    assert("show"@.len() != "config"@.len());
    assert("failed to get peer client"@ =~= "failed to get "@ + "peer"@ + " client"@);
    assert("failed to get peer-center client"@ =~= "failed to get "@ + "peer-center"@ + " client"@);
    assert("failed to get config client"@ =~= "failed to get "@ + "config"@ + " client"@);
    assert("failed to get vpn-portal client"@ =~= "failed to get "@ + "vpn-portal"@ + " client"@);
    assert("failed to get proxy client"@ =~= "failed to get "@ + "proxy"@ + " client"@);
    assert("failed to get acl client"@ =~= "failed to get "@ + "acl"@ + " client"@);
    assert("failed to get port-forward client"@ =~= "failed to get "@ + "port-forward"@
        + " client"@);
    assert("failed to get stats client"@ =~= "failed to get "@ + "stats"@ + " client"@);
    assert("failed to get logger client"@ =~= "failed to get "@ + "logger"@ + " client"@);
    assert("failed to get credential client"@ =~= "failed to get "@ + "credential"@ + " client"@);
}

/// The services are told apart by what the user is told.
pub proof fn services_are_told_apart(a: RpcService, b: RpcService)
    requires
        client_error_form(a) == client_error_form(b),
    ensures
        a == b,
{
    reveal_strlit("failed to get acl client");
    assert("failed to get acl client"@.len() == 24);
    reveal_strlit("failed to get config client");
    assert("failed to get config client"@.len() == 27);
    reveal_strlit("failed to get credential client");
    assert("failed to get credential client"@.len() == 31);
    reveal_strlit("failed to get logger client");
    assert("failed to get logger client"@.len() == 27);
    reveal_strlit("failed to get peer client");
    assert("failed to get peer client"@.len() == 25);
    reveal_strlit("failed to get peer-center client");
    assert("failed to get peer-center client"@.len() == 32);
    reveal_strlit("failed to get port-forward client");
    assert("failed to get port-forward client"@.len() == 33);
    reveal_strlit("failed to get proxy client");
    assert("failed to get proxy client"@.len() == 26);
    reveal_strlit("failed to get stats client");
    assert("failed to get stats client"@.len() == 26);
    reveal_strlit("failed to get vpn-portal client");
    assert("failed to get vpn-portal client"@.len() == 31);
    assert("failed to get config client"@[14] != "failed to get logger client"@[14]);
    assert("failed to get credential client"@[14] != "failed to get vpn-portal client"@[14]);
    assert("failed to get proxy client"@[14] != "failed to get stats client"@[14]);
}

/// A call that is made in several scopes is shown as a list, with one reply for
/// each of the transports; every other call is made once, without a scope. A text
/// is what dumps and metrics are.
pub proof fn replies_are_shown_by_the_command(w: Seq<Seq<char>>, m: RpcMethod)
    requires
        method_of(w) == Ok::<RpcMethod, Seq<char>>(m),
    ensures
        shape_of(m) is List <==> word(w, 0) == "proxy"@,
        shape_of(m) is Text <==> {
            ||| word(w, 0) == "route"@ && sub_word(w, "list"@) == "dump"@
            ||| word(w, 0) == "stats"@ && sub_word(w, "show"@) == "prometheus"@
        },
        shape_of(m) is List ==> scopes_of(m) == seq![
            "tcp"@,
            "kcp_src"@,
            "kcp_dst"@,
            "quic_src"@,
            "quic_dst"@,
        ],
        shape_of(m) !is List ==> scopes_of(m).len() == 1 && scopes_of(m)[0].len() == 0,
{
    management_words_differ();
    reveal_strlit("");
    reveal_strlit("dump");
    reveal_strlit("list");
    reveal_strlit("show");
    reveal_strlit("prometheus");
    assert("dump"@[0] != "list"@[0]);
    assert("prometheus"@.len() != "show"@.len());
}

} // verus!
