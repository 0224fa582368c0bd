use easytier_ssh::address::RpcAddr;
use easytier_ssh::command::{CommandError, CommandResult};
use easytier_ssh::router::{EmbeddedCommandRouter, RouterStep};
use easytier_ssh::rpc_readonly::{ReadOnlyRpcExecutor, ReplyShape, RpcMethod, RpcService};
use easytier_ssh::runtime::{
    network_from, split_network, CoreRuntimeController, NetworkConfig, PeerConfig, StartAction,
    StartEvent, StopAction,
};

fn blank() -> NetworkConfig {
    NetworkConfig {
        network_name: "default".to_string(),
        network_secret: None,
        dhcp: false,
        no_tun: false,
        ipv4: None,
        ipv6: None,
        peers: Vec::new(),
        networks: Vec::new(),
    }
}

fn controller() -> CoreRuntimeController {
    CoreRuntimeController::new(blank())
}

fn router() -> EmbeddedCommandRouter {
    EmbeddedCommandRouter::new(controller())
}

fn error(text: &str) -> CommandError {
    CommandError::new(text.to_string())
}

fn result(r: &mut EmbeddedCommandRouter, line: &str) -> CommandResult {
    match r.execute_line(line) {
        Ok(RouterStep::Done(c)) => c,
        Ok(_) => panic!("{} asks for more", line),
        Err(e) => panic!("{}: {}", line, e.message),
    }
}

fn output(r: &mut EmbeddedCommandRouter, line: &str) -> String {
    let c = result(r, line);
    assert!(!c.should_exit);
    c.output
}

fn failure(r: &mut EmbeddedCommandRouter, line: &str) -> String {
    match r.execute_line(line) {
        Ok(_) => panic!("{} succeeded", line),
        Err(e) => e.message,
    }
}

fn uris(c: &CoreRuntimeController) -> Vec<String> {
    c.config().peers.iter().map(|p| p.uri.clone()).collect()
}

fn config_of(r: &EmbeddedCommandRouter) -> String {
    r.controller().config_text()
}

fn start(r: &mut EmbeddedCommandRouter, port: u16, id: u128) -> String {
    match r.execute_line("start-network") {
        Ok(RouterStep::Start(StartAction::FindPort { first, end })) => {
            assert_eq!((first, end), (15888, 15900))
        }
        _ => panic!("no port is looked for"),
    }
    let addr = match r.start_event(StartEvent::Port(Some(port))) {
        Ok(RouterStep::Start(StartAction::ServePortal { addr, url })) => {
            assert_eq!(url, format!("tcp://127.0.0.1:{port}"));
            addr
        }
        _ => panic!("no portal is served"),
    };
    match r.start_event(StartEvent::Portal { addr, outcome: Ok(()) }) {
        Ok(RouterStep::Start(StartAction::RunInstance { addr: a })) => assert!(a == addr),
        _ => panic!("no instance is run"),
    }
    match r.start_event(StartEvent::Instance { addr, outcome: Ok(id) }) {
        Ok(RouterStep::Done(c)) => c.output,
        _ => panic!("the start goes on"),
    }
}

#[test]
fn loopback_addresses() {
    for port in [0u16, 1, 22, 80, 443, 5922, 15888, 15899, 65535] {
        let addr = RpcAddr { port };
        assert_eq!(addr.text(), format!("127.0.0.1:{port}"));
        assert_eq!(addr.url(), format!("tcp://127.0.0.1:{port}"));
        assert_eq!(ReadOnlyRpcExecutor::new(addr).url(), &addr.url());
    }
}

#[test]
fn name_and_secret() {
    let mut c = controller();
    c.set_network_name("demo".to_string());
    assert_eq!(c.config().network_name, "demo");
    assert_eq!(c.config().network_secret.as_deref(), Some(""));
    c.set_network_secret("123456".to_string());
    c.set_network_name("other".to_string());
    assert_eq!(c.config().network_secret.as_deref(), Some("123456"));
}

#[test]
fn static_and_automatic_addresses_exclude_each_other() {
    let mut c = controller();
    assert!(c.set_dhcp(true).is_ok());
    assert!(c.config().dhcp);
    assert!(c.set_ipv4(Some("10.144.144.1/24".to_string())).is_ok());
    assert!(!c.config().dhcp);
    assert_eq!(c.config().ipv4.as_deref(), Some("10.144.144.1/24"));
    assert!(c.set_ipv6(Some("FD00:0:0::1/64".to_string())).is_ok());
    assert_eq!(c.config().ipv6.as_deref(), Some("fd00::1/64"));
    assert!(c.set_dhcp(false).is_ok());
    assert_eq!(c.config().ipv4.as_deref(), Some("10.144.144.1/24"));
    assert!(c.set_dhcp(true).is_ok());
    assert!(c.config().ipv4.is_none() && c.config().ipv6.is_none());
    assert!(c.set_ipv6(Some("fd00::1/64".to_string())).is_ok());
    assert!(!c.config().dhcp);
    assert!(c.set_ipv4(None).is_ok() && c.set_ipv6(None).is_ok());
    assert!(c.config().ipv4.is_none() && c.config().ipv6.is_none());
}

#[test]
fn addresses_are_kept_in_normal_form() {
    let mut c = controller();
    assert!(c.set_ipv4(Some("10.0.0.1".to_string())).is_ok());
    assert_eq!(c.config().ipv4.as_deref(), Some("10.0.0.1"));
    assert!(c.set_ipv4(Some("10.0.0.1/32".to_string())).is_ok());
    assert_eq!(c.config().ipv4.as_deref(), Some("10.0.0.1"));
    assert!(c.set_ipv6(Some("::1/128".to_string())).is_ok());
    assert_eq!(c.config().ipv6.as_deref(), Some("::1"));
}

#[test]
fn wrong_addresses_are_refused() {
    let mut c = controller();
    assert!(c.set_dhcp(true).is_ok());
    let e = c.set_ipv4(Some("10.0.0.1/33".to_string())).err().unwrap();
    assert_eq!(e.message, "invalid ipv4 cidr: 10.0.0.1/33");
    let e = c.set_ipv6(Some("fe80".to_string())).err().unwrap();
    assert_eq!(e.message, "invalid ipv6 cidr: fe80");
    assert!(c.config().dhcp);
    assert!(c.config().ipv4.is_none() && c.config().ipv6.is_none());
}

#[test]
fn peers_are_listed_once() {
    let mut c = controller();
    assert!(c.peers_add("tcp://1.2.3.4:11010".to_string()).is_ok());
    assert!(c.peers_add("UDP://Peer.example:11010".to_string()).is_ok());
    assert!(c.peers_add("HTTP://Example.COM:80/".to_string()).is_ok());
    assert!(c.peers_add("tcp://1.2.3.4:11010".to_string()).is_ok());
    assert!(c.peers_add("http://example.com".to_string()).is_ok());
    assert_eq!(
        uris(&c),
        ["tcp://1.2.3.4:11010", "udp://Peer.example:11010", "http://example.com/"]
    );
    assert!(c.peers_remove("http://example.com:80".to_string()).is_ok());
    assert_eq!(uris(&c), ["tcp://1.2.3.4:11010", "udp://Peer.example:11010"]);
    assert!(c.peers_remove("tcp://9.9.9.9:1".to_string()).is_ok());
    assert_eq!(uris(&c).len(), 2);
    let e = c.peers_add("1.2.3.4".to_string()).err().unwrap();
    assert_eq!(e.message, "invalid peer url: 1.2.3.4");
    let e = c.peers_remove("peer".to_string()).err().unwrap();
    assert_eq!(e.message, "invalid peer url: peer");
    assert_eq!(uris(&c).len(), 2);
    c.peers_clear();
    assert!(uris(&c).is_empty());
}

#[test]
fn adding_and_removing_a_peer_gives_the_list_back() {
    let mut config = blank();
    config.peers.push(PeerConfig {
        uri: "tcp://a:1".to_string(),
        peer_public_key: Some("key".to_string()),
    });
    let mut c = CoreRuntimeController::new(config);
    assert!(c.peers_add("tcp://b:1".to_string()).is_ok());
    assert!(c.peers_remove("tcp://b:1".to_string()).is_ok());
    assert_eq!(uris(&c), ["tcp://a:1"]);
    assert_eq!(c.config().peers[0].peer_public_key.as_deref(), Some("key"));
}

#[test]
fn networks_are_listed_once() {
    let mut c = controller();
    assert!(c.networks_add("10.0.0.0/24".to_string()).is_ok());
    assert!(c.networks_add("10.0.0.0/24->192.168.0.0/24".to_string()).is_ok());
    assert!(c.networks_add("10.0.0.0/24".to_string()).is_ok());
    assert!(c.networks_add("172.16.0.0/12".to_string()).is_ok());
    let list: Vec<(String, Option<String>)> = c
        .config()
        .networks
        .iter()
        .map(|n| (n.cidr.clone(), n.mapped_cidr.clone()))
        .collect();
    assert_eq!(
        list,
        [
            ("10.0.0.0/24".to_string(), None),
            ("10.0.0.0/24".to_string(), Some("192.168.0.0/24".to_string())),
            ("172.16.0.0/12".to_string(), None),
        ]
    );
    let e = c.networks_add("10.0.0.1/24".to_string()).err().unwrap();
    assert_eq!(e.message, "invalid CIDR: 10.0.0.1/24");
    let e = c.networks_add("10.0.0.0/24->".to_string()).err().unwrap();
    assert_eq!(e.message, "invalid CIDR: 10.0.0.0/24->");
    let e = c.networks_remove("ten".to_string()).err().unwrap();
    assert_eq!(e.message, "invalid CIDR: ten");
    assert!(c.networks_remove("10.0.0.0/24".to_string()).is_ok());
    assert_eq!(c.config().networks.len(), 1);
    assert_eq!(c.config().networks[0].cidr, "172.16.0.0/12");
    c.networks_clear();
    assert!(c.config().networks.is_empty());
}

#[test]
fn parsed_values_are_applied() {
    let mut c = controller();
    assert!(c.set_dhcp(true).is_ok());
    assert_eq!(
        c.set_parsed_ipv4("x", None).err().unwrap().message,
        "invalid ipv4 cidr: x"
    );
    assert_eq!(
        c.set_parsed_ipv6("x", None).err().unwrap().message,
        "invalid ipv6 cidr: x"
    );
    assert!(c.config().dhcp);
    assert!(c.set_parsed_ipv4("x", Some("10.0.0.1/24".to_string())).is_ok());
    assert!(c.set_parsed_ipv6("x", Some("fd00::1/64".to_string())).is_ok());
    assert!(!c.config().dhcp);
    assert_eq!(c.config().ipv4.as_deref(), Some("10.0.0.1/24"));
    assert_eq!(c.config().ipv6.as_deref(), Some("fd00::1/64"));
    assert_eq!(c.add_parsed_peer("x", None).err().unwrap().message, "invalid peer url: x");
    assert_eq!(c.remove_parsed_peer("x", None).err().unwrap().message, "invalid peer url: x");
    assert!(c.add_parsed_peer("x", Some("tcp://a:1".to_string())).is_ok());
    assert!(c.add_parsed_peer("y", Some("tcp://a:1".to_string())).is_ok());
    assert_eq!(uris(&c), ["tcp://a:1"]);
    assert!(c.remove_parsed_peer("x", Some("tcp://a:1".to_string())).is_ok());
    assert!(uris(&c).is_empty());
    assert_eq!(c.add_parsed_network("x", None).err().unwrap().message, "invalid CIDR: x");
    assert_eq!(c.remove_parsed_network("x", None).err().unwrap().message, "invalid CIDR: x");
    let network = || network_from(Some("a".to_string()), Some(Some("b".to_string())));
    assert!(c.add_parsed_network("x", network()).is_ok());
    assert!(c.add_parsed_network("x", network()).is_ok());
    assert_eq!(c.config().networks.len(), 1);
    assert!(c.remove_parsed_network("x", Some("a".to_string())).is_ok());
    assert!(c.config().networks.is_empty());
}

#[test]
fn networks_are_taken_apart() {
    assert_eq!(split_network("10.0.0.0/24"), ("10.0.0.0/24".to_string(), None));
    assert_eq!(split_network("a->b->c"), ("a".to_string(), Some("b->c".to_string())));
    assert_eq!(split_network("a->"), ("a".to_string(), Some(String::new())));
    assert_eq!(split_network("a-"), ("a-".to_string(), None));
    let n = network_from(Some("a".to_string()), None).unwrap();
    assert_eq!((n.cidr.as_str(), n.mapped_cidr), ("a", None));
    assert!(network_from(None, None).is_none());
    assert!(network_from(Some("a".to_string()), Some(None)).is_none());
    assert!(network_from(None, Some(Some("b".to_string()))).is_none());
}

#[test]
fn no_tun_is_kept() {
    let mut c = controller();
    assert!(!c.get_no_tun());
    c.set_no_tun(true);
    assert!(c.get_no_tun() && c.config().no_tun);
}

#[test]
fn copies_hold_the_same() {
    let mut c = controller();
    assert!(c.peers_add("tcp://a:1".to_string()).is_ok());
    assert!(c.networks_add("10.0.0.0/24->192.168.0.0/24".to_string()).is_ok());
    let again = CoreRuntimeController::new(c.config().copy());
    assert_eq!(again.config_text(), c.config_text());
}

#[test]
fn config_is_shown() {
    let mut c = controller();
    assert_eq!(
        c.config_text(),
        "network-name: default\nnetwork-secret: \ndhcp: false\nno-tun: false\nipv4: off\nipv6: off\npeers: 0\nnetworks: 0"
    );
    c.set_network_secret("s".to_string());
    c.set_no_tun(true);
    assert!(c.set_ipv4(Some("10.0.0.1/24".to_string())).is_ok());
    assert!(c.peers_add("tcp://a:1".to_string()).is_ok());
    assert!(c.peers_add("tcp://b:2".to_string()).is_ok());
    assert!(c.networks_add("10.0.0.0/24".to_string()).is_ok());
    assert!(c.networks_add("10.1.0.0/16->10.2.0.0/16".to_string()).is_ok());
    assert_eq!(
        c.config_text(),
        "network-name: default\nnetwork-secret: s\ndhcp: false\nno-tun: true\nipv4: 10.0.0.1/24\nipv6: off\npeers: 2\n  1: tcp://a:1\n  2: tcp://b:2\nnetworks: 2\n  1: 10.0.0.0/24\n  2: 10.1.0.0/16->10.2.0.0/16"
    );
}

#[test]
fn status_shows_the_running_network() {
    let mut c = controller();
    assert!(c.status_text().starts_with("network-running: false\n\nnetwork-name: default\n"));
    let addr = RpcAddr { port: 15890 };
    assert!(c.start_network(StartEvent::Portal { addr, outcome: Ok(()) }).is_ok());
    let id = 0x0123_4567_89ab_cdef_fedc_ba98_7654_3210u128;
    assert!(c.start_network(StartEvent::Instance { addr, outcome: Ok(id) }).is_ok());
    assert!(c.status_text().starts_with(
        "network-running: true\ninstance-id: 01234567-89ab-cdef-fedc-ba9876543210\nrpc-addr: 127.0.0.1:15890\n\nnetwork-name: default\n"
    ));
}

#[test]
fn start_and_stop() {
    let mut r = router();
    let before = config_of(&r);
    assert_eq!(output(&mut r, "stop-network"), "network is not started");
    assert_eq!(
        start(&mut r, 15888, 7),
        "started: instance-id=00000000-0000-0000-0000-000000000007 rpc-addr=127.0.0.1:15888"
    );
    assert_eq!(output(&mut r, "start-network"), "network already started");
    assert_eq!(output(&mut r, "bluenet on"), "network already started");
    match r.execute_line("bluenet off") {
        Ok(RouterStep::DeleteInstance(id)) => assert_eq!(id, 7),
        _ => panic!("nothing is deleted"),
    }
    let c = r.instance_deleted(7, Ok(())).ok().unwrap();
    assert_eq!(c.output, "stopped: instance-id=00000000-0000-0000-0000-000000000007");
    assert!(!c.should_exit);
    assert!(r.controller().rpc_addr().is_none());
    assert_eq!(output(&mut r, "stop-network"), "network is not started");
    assert_eq!(failure(&mut r, "peer"), "network is not started; run start-network first");
    assert_eq!(config_of(&r), before);
}

#[test]
fn starts_may_fail() {
    let mut c = controller();
    let e = c.start_network(StartEvent::Port(None)).err().unwrap();
    assert_eq!(e.message, "no free port for rpc portal");
    assert!(c.rpc_addr().is_none());
    let addr = RpcAddr { port: 15889 };
    let outcome = Err(error("in use"));
    let e = c.start_network(StartEvent::Portal { addr, outcome }).err().unwrap();
    assert_eq!(e.message, "in use");
    assert!(c.rpc_addr().is_none());
    assert!(c.start_network(StartEvent::Portal { addr, outcome: Ok(()) }).is_ok());
    let outcome = Err(error("no device"));
    let e = c.start_network(StartEvent::Instance { addr, outcome }).err().unwrap();
    assert_eq!(e.message, "no device");
    assert!(c.rpc_addr() == Some(addr));
    assert!(matches!(
        c.start_network(StartEvent::Requested),
        Ok(StartAction::FindPort { first: 15888, end: 15900 })
    ));
}

#[test]
fn stops_may_fail() {
    let mut c = controller();
    let addr = RpcAddr { port: 15889 };
    assert!(c.start_network(StartEvent::Portal { addr, outcome: Ok(()) }).is_ok());
    assert!(c.start_network(StartEvent::Instance { addr, outcome: Ok(1) }).is_ok());
    assert!(matches!(c.stop_network(), StopAction::DeleteInstance(1)));
    let e = c.instance_deleted(1, Err(error("busy"))).err().unwrap();
    assert_eq!(e.message, "busy");
    assert!(c.rpc_addr() == Some(addr));
    assert!(matches!(c.stop_network(), StopAction::Finished(_)));
}

#[test]
fn base_commands_work_without_a_network() {
    let mut r = router();
    assert_eq!(output(&mut r, ""), "");
    assert!(output(&mut r, "help").starts_with("Built-in commands:\n"));
    assert!(output(&mut r, "status").starts_with("network-running: false\n"));
    let c = result(&mut r, "exit");
    assert_eq!((c.output.as_str(), c.should_exit), ("", true));
    assert!(result(&mut r, "quit").should_exit);
}

#[test]
fn config_commands_answer_ok() {
    let mut r = router();
    for line in [
        "config set network-name demo",
        "config set network-secret 123456",
        "config set dhcp on",
        "config set dhcp off",
        "config set ipv4 10.0.0.1/24",
        "config set ipv4 off",
        "config set ipv6 fd00::1/64",
        "config set ipv6 off",
        "config set no-tun on",
        "config peers add tcp://1.2.3.4:11010",
        "config peers remove tcp://1.2.3.4:11010",
        "config peers clear",
        "config networks add 10.0.0.0/24",
        "config networks remove 10.0.0.0/24",
        "config networks clear",
    ] {
        assert_eq!(output(&mut r, line), "OK");
    }
    assert_eq!(
        output(&mut r, "config show"),
        "network-name: demo\nnetwork-secret: 123456\ndhcp: false\nno-tun: true\nipv4: off\nipv6: off\npeers: 0\nnetworks: 0"
    );
}

#[test]
fn failed_lines_change_nothing() {
    let mut r = router();
    assert_eq!(output(&mut r, "config set dhcp on"), "OK");
    let before = config_of(&r);
    assert_eq!(failure(&mut r, "config set ipv4 x"), "invalid ipv4 cidr: x");
    assert_eq!(failure(&mut r, "config set ipv6 x"), "invalid ipv6 cidr: x");
    assert_eq!(failure(&mut r, "config peers add x"), "invalid peer url: x");
    assert_eq!(failure(&mut r, "config peers remove x"), "invalid peer url: x");
    assert_eq!(failure(&mut r, "config networks add x"), "invalid CIDR: x");
    assert_eq!(failure(&mut r, "config networks remove x"), "invalid CIDR: x");
    assert_eq!(failure(&mut r, "config foo"), "unknown config subcommand: foo");
    assert_eq!(config_of(&r), before);
}

#[test]
fn management_commands_need_the_network() {
    let mut r = router();
    for line in ["peer list", "node", "proxy", "nonsense"] {
        assert_eq!(failure(&mut r, line), "network is not started; run start-network first");
    }
    start(&mut r, 15899, 1);
    match r.execute_line("peer list") {
        Ok(RouterStep::Call { url, method }) => {
            assert_eq!(url, "tcp://127.0.0.1:15899");
            assert!(method == RpcMethod::ListPeer);
        }
        _ => panic!("no call is made"),
    }
    assert_eq!(failure(&mut r, "nonsense  here"), "unknown management command: nonsense here");
}

#[test]
fn documented_session() {
    let mut r = router();
    assert!(output(&mut r, "help").contains("config peers add <url>"));
    assert!(output(&mut r, "config show").contains("network-name: default"));
    assert_eq!(output(&mut r, "config set network-name demo"), "OK");
    assert_eq!(output(&mut r, "config set network-secret 123456"), "OK");
    assert_eq!(output(&mut r, "config set dhcp on"), "OK");
    assert_eq!(output(&mut r, "config peers add tcp://1.2.3.4:11010"), "OK");
    start(&mut r, 15888, 1);
    assert_eq!(
        output(&mut r, "status"),
        "network-running: true\ninstance-id: 00000000-0000-0000-0000-000000000001\nrpc-addr: 127.0.0.1:15888\n\nnetwork-name: demo\nnetwork-secret: 123456\ndhcp: true\nno-tun: false\nipv4: off\nipv6: off\npeers: 1\n  1: tcp://1.2.3.4:11010\nnetworks: 0"
    );
    for (line, expected) in [
        ("peer list", RpcMethod::ListPeer),
        ("node info", RpcMethod::ShowNodeInfo),
        ("route list", RpcMethod::ListRoute),
    ] {
        match r.execute_line(line) {
            Ok(RouterStep::Call { method, .. }) => assert!(method == expected),
            _ => panic!("no call is made"),
        }
    }
    assert!(matches!(r.execute_line("stop-network"), Ok(RouterStep::DeleteInstance(1))));
    assert!(r.instance_deleted(1, Ok(())).is_ok());
    assert!(result(&mut r, "exit").should_exit);
}

#[test]
fn documented_management_commands() {
    let executor = ReadOnlyRpcExecutor::new(RpcAddr { port: 15888 });
    for (line, expected) in [
        ("peer", RpcMethod::ListPeer),
        ("peer list", RpcMethod::ListPeer),
        ("peer ipv6", RpcMethod::ListPublicIpv6Info),
        ("peer-center", RpcMethod::GetGlobalPeerMap),
        ("route", RpcMethod::ListRoute),
        ("route list", RpcMethod::ListRoute),
        ("route dump", RpcMethod::DumpRoute),
        ("node", RpcMethod::ShowNodeInfo),
        ("node info", RpcMethod::ShowNodeInfo),
        ("node show", RpcMethod::ShowNodeInfo),
        ("node config", RpcMethod::GetConfig),
        ("vpn-portal", RpcMethod::GetVpnPortalInfo),
        ("proxy", RpcMethod::ListTcpProxyEntry),
        ("acl", RpcMethod::GetAclStats),
        ("acl stats", RpcMethod::GetAclStats),
        ("port-forward", RpcMethod::ListPortForward),
        ("port-forward list", RpcMethod::ListPortForward),
        ("whitelist", RpcMethod::GetWhitelist),
        ("whitelist show", RpcMethod::GetWhitelist),
        ("stats", RpcMethod::GetStats),
        ("stats show", RpcMethod::GetStats),
        ("stats prometheus", RpcMethod::GetPrometheusStats),
        ("logger", RpcMethod::GetLoggerConfig),
        ("logger get", RpcMethod::GetLoggerConfig),
        ("credential", RpcMethod::ListCredentials),
        ("credential list", RpcMethod::ListCredentials),
    ] {
        let words: Vec<String> = line.split(' ').map(|w| w.to_string()).collect();
        match executor.execute(&words) {
            Ok(method) => assert!(method == expected, "{}", line),
            Err(e) => panic!("{}: {}", line, e.message),
        }
    }
}

#[test]
fn unknown_management_commands() {
    let executor = ReadOnlyRpcExecutor::new(RpcAddr { port: 15888 });
    for (line, expected) in [
        ("peer x", "unknown peer subcommand: x"),
        ("route x", "unknown route subcommand: x"),
        ("node x", "unknown node subcommand: x"),
        ("acl x", "unknown acl subcommand: x"),
        ("port-forward x", "unknown port-forward subcommand: x"),
        ("whitelist x", "unknown whitelist subcommand: x"),
        ("stats x", "unknown stats subcommand: x"),
        ("logger x", "unknown logger subcommand: x"),
        ("credential x", "unknown credential subcommand: x"),
        ("foo bar baz", "unknown management command: foo bar baz"),
    ] {
        let words: Vec<String> = line.split(' ').map(|w| w.to_string()).collect();
        assert_eq!(executor.execute(&words).err().unwrap().message, expected);
    }
    assert_eq!(
        executor.execute(&Vec::new()).err().unwrap().message,
        "unknown management command: "
    );
}

#[test]
fn calls_know_their_service() {
    assert!(RpcMethod::DumpRoute.service() == RpcService::PeerManage);
    assert!(RpcMethod::GetWhitelist.service() == RpcService::AclManage);
    assert_eq!(RpcMethod::ListPeer.scopes(), [""]);
    assert_eq!(
        RpcMethod::ListTcpProxyEntry.scopes(),
        ["tcp", "kcp_src", "kcp_dst", "quic_src", "quic_dst"]
    );
    assert!(RpcMethod::ListTcpProxyEntry.shape() == ReplyShape::List);
    assert!(RpcMethod::DumpRoute.shape() == ReplyShape::Text);
    assert!(RpcMethod::GetPrometheusStats.shape() == ReplyShape::Text);
    assert!(RpcMethod::ListRoute.shape() == ReplyShape::Structure);
    for (service, name) in [
        (RpcService::PeerManage, "peer"),
        (RpcService::PeerCenter, "peer-center"),
        (RpcService::Config, "config"),
        (RpcService::VpnPortal, "vpn-portal"),
        (RpcService::TcpProxy, "proxy"),
        (RpcService::AclManage, "acl"),
        (RpcService::PortForwardManage, "port-forward"),
        (RpcService::Stats, "stats"),
        (RpcService::Logger, "logger"),
        (RpcService::CredentialManage, "credential"),
    ] {
        assert_eq!(service.client_error().message, format!("failed to get {name} client"));
    }
}
