use easytier_ssh::command::{help_text, parse_line, CommandError, CommandResult, ParsedCommand};

fn parsed(line: &str) -> ParsedCommand {
    match parse_line(line) {
        Ok(c) => c,
        Err(e) => panic!("{}", e.message),
    }
}

fn refused(line: &str) -> String {
    match parse_line(line) {
        Ok(_) => panic!("{} was accepted", line),
        Err(e) => e.message,
    }
}

#[test]
fn results_hold_output_and_exit() {
    let r = CommandResult::empty();
    assert_eq!((r.output.as_str(), r.should_exit), ("", false));
    let r = CommandResult::text("x".to_string());
    assert_eq!((r.output.as_str(), r.should_exit), ("x", false));
    let r = CommandResult::exit();
    assert_eq!((r.output.as_str(), r.should_exit), ("", true));
    assert_eq!(CommandError::new("bad".to_string()).message, "bad");
}

#[test]
fn empty_lines_do_nothing() {
    assert!(matches!(parsed(""), ParsedCommand::Noop));
    assert!(matches!(parsed(" \t\u{3000} "), ParsedCommand::Noop));
}

#[test]
fn base_commands() {
    assert!(matches!(parsed("exit"), ParsedCommand::Exit));
    assert!(matches!(parsed("quit"), ParsedCommand::Exit));
    assert!(matches!(parsed("help"), ParsedCommand::Help));
    assert!(matches!(parsed("status"), ParsedCommand::Status));
    assert!(matches!(parsed("start-network"), ParsedCommand::StartNetwork));
    assert!(matches!(parsed("stop-network"), ParsedCommand::StopNetwork));
    assert!(matches!(parsed("bluenet on"), ParsedCommand::StartNetwork));
    assert!(matches!(parsed("bluenet off"), ParsedCommand::StopNetwork));
}

#[test]
fn bluenet_wants_on_or_off() {
    assert_eq!(refused("bluenet"), "unknown bluenet subcommand:  (use on|off)");
    assert_eq!(refused("bluenet up"), "unknown bluenet subcommand: up (use on|off)");
}

#[test]
fn surrounding_space_is_ignored() {
    assert!(matches!(parsed("  \t help \r\n"), ParsedCommand::Help));
    match parsed(" config   set\tnetwork-name  demo ") {
        ParsedCommand::ConfigSetNetworkName { name } => assert_eq!(name, "demo"),
        _ => panic!("another command"),
    }
}

#[test]
fn config_set_name_and_secret() {
    match parsed("config set network-name demo") {
        ParsedCommand::ConfigSetNetworkName { name } => assert_eq!(name, "demo"),
        _ => panic!("another command"),
    }
    match parsed("config set network-secret 123456") {
        ParsedCommand::ConfigSetNetworkSecret { secret } => assert_eq!(secret, "123456"),
        _ => panic!("another command"),
    }
    assert_eq!(refused("config set network-name"), "missing network-name");
    assert_eq!(refused("config set network-secret"), "missing network-secret");
    assert_eq!(refused("config set"), "missing config key");
    assert_eq!(refused("config set mtu 1400"), "unknown config key: mtu");
    assert!(matches!(parsed("config show"), ParsedCommand::ConfigShow));
    assert_eq!(refused("config"), "unknown config subcommand: ");
    assert_eq!(refused("config reset"), "unknown config subcommand: reset");
}

#[test]
fn config_switches() {
    for on in ["on", "true", "1"] {
        let line = format!("config set dhcp {on}");
        assert!(matches!(parsed(&line), ParsedCommand::ConfigSetDhcp { enabled: true }));
        let line = format!("config set no-tun {on}");
        assert!(matches!(parsed(&line), ParsedCommand::ConfigSetNoTun { enabled: true }));
    }
    for off in ["off", "false", "0"] {
        let line = format!("config set dhcp {off}");
        assert!(matches!(parsed(&line), ParsedCommand::ConfigSetDhcp { enabled: false }));
        let line = format!("config set no-tun {off}");
        assert!(matches!(parsed(&line), ParsedCommand::ConfigSetNoTun { enabled: false }));
    }
    assert_eq!(refused("config set dhcp maybe"), "invalid dhcp value: maybe (use on|off)");
    assert_eq!(refused("config set dhcp"), "invalid dhcp value:  (use on|off)");
    assert_eq!(refused("config set no-tun ON"), "invalid no-tun value: ON (use on|off)");
}

#[test]
fn config_addresses() {
    match parsed("config set ipv4 10.0.0.1/24") {
        ParsedCommand::ConfigSetIpv4 { cidr } => assert_eq!(cidr.as_deref(), Some("10.0.0.1/24")),
        _ => panic!("another command"),
    }
    match parsed("config set ipv6 fd00::1/64") {
        ParsedCommand::ConfigSetIpv6 { cidr } => assert_eq!(cidr.as_deref(), Some("fd00::1/64")),
        _ => panic!("another command"),
    }
    assert!(matches!(parsed("config set ipv4 off"), ParsedCommand::ConfigSetIpv4 { cidr: None }));
    assert!(matches!(parsed("config set ipv4"), ParsedCommand::ConfigSetIpv4 { cidr: None }));
    assert!(matches!(parsed("config set ipv6 off"), ParsedCommand::ConfigSetIpv6 { cidr: None }));
}

#[test]
fn config_peers_and_networks() {
    match parsed("config peers add tcp://1.2.3.4:11010") {
        ParsedCommand::ConfigPeersAdd { url } => assert_eq!(url, "tcp://1.2.3.4:11010"),
        _ => panic!("another command"),
    }
    match parsed("config peers remove tcp://1.2.3.4:11010") {
        ParsedCommand::ConfigPeersRemove { url } => assert_eq!(url, "tcp://1.2.3.4:11010"),
        _ => panic!("another command"),
    }
    assert!(matches!(parsed("config peers clear"), ParsedCommand::ConfigPeersClear));
    assert_eq!(refused("config peers add"), "missing peer url");
    assert_eq!(refused("config peers remove"), "missing peer url");
    assert_eq!(refused("config peers list"), "unknown config peers action: list");
    match parsed("config networks add 10.0.0.0/24->192.168.0.0/24") {
        ParsedCommand::ConfigNetworksAdd { cidr } => {
            assert_eq!(cidr, "10.0.0.0/24->192.168.0.0/24")
        }
        _ => panic!("another command"),
    }
    match parsed("config networks remove 10.0.0.0/24") {
        ParsedCommand::ConfigNetworksRemove { cidr } => assert_eq!(cidr, "10.0.0.0/24"),
        _ => panic!("another command"),
    }
    assert!(matches!(parsed("config networks clear"), ParsedCommand::ConfigNetworksClear));
    assert_eq!(
        refused("config networks add"),
        "missing CIDR (e.g. 10.0.0.0/24 or 10.0.0.0/24->192.168.0.0/24)"
    );
    assert_eq!(refused("config networks remove"), "missing CIDR");
    assert_eq!(refused("config networks"), "unknown config networks action: ");
}

#[test]
fn other_words_are_management_commands() {
    match parsed("route  dump") {
        ParsedCommand::ReadOnlyMgmt { words } => assert_eq!(words, ["route", "dump"]),
        _ => panic!("another command"),
    }
}

#[test]
fn every_form_of_the_help_parses() {
    let text = help_text();
    let mut group = 0;
    let mut forms = [0, 0, 0, 0, 0];
    for line in text.split('\n') {
        if !line.starts_with("  ") {
            if line.ends_with(':') {
                group += 1;
            }
            continue;
        }
        if group == 4 {
            continue;
        }
        // Alternatives are given once for the whole form, and once for its last
        // word; places for values take any word.
        let words: Vec<&str> = line.split_whitespace().collect();
        let line = words.join(" ");
        let options: Vec<String> = if line.contains("<on|off>") {
            vec![line.replace("<on|off>", "on"), line.replace("<on|off>", "off")]
        } else if line.starts_with("node|") || line.starts_with("exit|") {
            line.split('|').map(|s| s.to_string()).collect()
        } else if line.contains('|') {
            let cut = line.rfind(' ').unwrap();
            line[cut + 1..].split('|').map(|s| format!("{} {}", &line[..cut], s)).collect()
        } else {
            vec![line]
        };
        for option in options {
            let command = parsed(&option);
            let fits = match group {
                1 => matches!(
                    command,
                    ParsedCommand::Help
                        | ParsedCommand::Status
                        | ParsedCommand::StartNetwork
                        | ParsedCommand::StopNetwork
                ),
                2 => option.starts_with("config ") && !matches!(command, ParsedCommand::Noop),
                3 => matches!(command, ParsedCommand::ReadOnlyMgmt { .. }),
                _ => matches!(command, ParsedCommand::Exit),
            };
            assert!(fits, "{}", option);
            forms[group - 1] += 1;
        }
    }
    assert_eq!(forms, [4, 18, 17, 0, 2]);
}

#[test]
fn help_lists_the_commands() {
    let text = help_text();
    let lines: Vec<&str> = text.split('\n').collect();
    assert_eq!(lines.len(), 40);
    assert_eq!(lines[0], "Built-in commands:");
    assert_eq!(lines[17], "  config networks add <CIDR>|<CIDR->CIDR>");
    assert_eq!(lines[39], "  exit|quit");
    assert!(!text.ends_with('\n'));
}
