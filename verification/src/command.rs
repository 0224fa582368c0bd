//! Commands of the management shell and how a line of input becomes one.
use vstd::prelude::*;
use vstd::string::*;
use crate::text::{cat, opt_text, split_words, str_eq, texts, words};

verus! {

/// What a command prints, and whether it ends the shell.
pub struct CommandResult {
    pub output: String,
    pub should_exit: bool,
}

impl CommandResult {
    /// No output; the shell goes on.
    pub fn empty() -> (r: Self)
        ensures
            r.output@ == Seq::<char>::empty(),
            !r.should_exit,
    {
        Self { output: String::new(), should_exit: false }
    }

    /// Some output; the shell goes on.
    pub fn text(output: String) -> (r: Self)
        ensures
            r.output == output,
            !r.should_exit,
    {
        Self { output, should_exit: false }
    }

    /// No output; the shell ends.
    pub fn exit() -> (r: Self)
        ensures
            r.output@ == Seq::<char>::empty(),
            r.should_exit,
    {
        Self { output: String::new(), should_exit: true }
    }
}

/// Why a command failed, as the user is told.
pub struct CommandError {
    pub message: String,
}

impl View for CommandError {
    type V = Seq<char>;

    open spec fn view(&self) -> Seq<char> {
        self.message@
    }
}

impl CommandError {
    /// An error with the given message.
    pub fn new(message: String) -> (r: Self)
        ensures
            r@ == message@,
    {
        CommandError { message }
    }
}

/// A command of the management shell.
#[allow(inconsistent_fields)]
pub enum ParsedCommand {
    Noop,
    Exit,
    Help,
    Status,
    StartNetwork,
    StopNetwork,
    ConfigShow,
    ConfigSetNetworkName { name: String },
    ConfigSetNetworkSecret { secret: String },
    ConfigSetDhcp { enabled: bool },
    ConfigSetIpv4 { cidr: Option<String> },
    ConfigSetIpv6 { cidr: Option<String> },
    ConfigSetNoTun { enabled: bool },
    ConfigPeersAdd { url: String },
    ConfigPeersRemove { url: String },
    ConfigPeersClear,
    ConfigNetworksAdd { cidr: String },
    ConfigNetworksRemove { cidr: String },
    ConfigNetworksClear,
    ReadOnlyMgmt { words: Vec<String> },
}

/// The contents of a `ParsedCommand`.
#[allow(inconsistent_fields)]
pub enum CommandView {
    Noop,
    Exit,
    Help,
    Status,
    StartNetwork,
    StopNetwork,
    ConfigShow,
    ConfigSetNetworkName { name: Seq<char> },
    ConfigSetNetworkSecret { secret: Seq<char> },
    ConfigSetDhcp { enabled: bool },
    ConfigSetIpv4 { cidr: Option<Seq<char>> },
    ConfigSetIpv6 { cidr: Option<Seq<char>> },
    ConfigSetNoTun { enabled: bool },
    ConfigPeersAdd { url: Seq<char> },
    ConfigPeersRemove { url: Seq<char> },
    ConfigPeersClear,
    ConfigNetworksAdd { cidr: Seq<char> },
    ConfigNetworksRemove { cidr: Seq<char> },
    ConfigNetworksClear,
    ReadOnlyMgmt { words: Seq<Seq<char>> },
}

impl View for ParsedCommand {
    type V = CommandView;

    open spec fn view(&self) -> CommandView {
        match *self {
            ParsedCommand::Noop => CommandView::Noop,
            ParsedCommand::Exit => CommandView::Exit,
            ParsedCommand::Help => CommandView::Help,
            ParsedCommand::Status => CommandView::Status,
            ParsedCommand::StartNetwork => CommandView::StartNetwork,
            ParsedCommand::StopNetwork => CommandView::StopNetwork,
            ParsedCommand::ConfigShow => CommandView::ConfigShow,
            ParsedCommand::ConfigSetNetworkName { name } => CommandView::ConfigSetNetworkName {
                name: name@,
            },
            ParsedCommand::ConfigSetNetworkSecret {
                secret,
            } => CommandView::ConfigSetNetworkSecret { secret: secret@ },
            ParsedCommand::ConfigSetDhcp { enabled } => CommandView::ConfigSetDhcp { enabled },
            ParsedCommand::ConfigSetIpv4 { cidr } => CommandView::ConfigSetIpv4 {
                cidr: opt_text(cidr),
            },
            ParsedCommand::ConfigSetIpv6 { cidr } => CommandView::ConfigSetIpv6 {
                cidr: opt_text(cidr),
            },
            ParsedCommand::ConfigSetNoTun { enabled } => CommandView::ConfigSetNoTun { enabled },
            ParsedCommand::ConfigPeersAdd { url } => CommandView::ConfigPeersAdd { url: url@ },
            ParsedCommand::ConfigPeersRemove { url } => CommandView::ConfigPeersRemove {
                url: url@,
            },
            ParsedCommand::ConfigPeersClear => CommandView::ConfigPeersClear,
            ParsedCommand::ConfigNetworksAdd { cidr } => CommandView::ConfigNetworksAdd {
                cidr: cidr@,
            },
            ParsedCommand::ConfigNetworksRemove { cidr } => CommandView::ConfigNetworksRemove {
                cidr: cidr@,
            },
            ParsedCommand::ConfigNetworksClear => CommandView::ConfigNetworksClear,
            ParsedCommand::ReadOnlyMgmt { words } => CommandView::ReadOnlyMgmt {
                words: texts(words@),
            },
        }
    }
}

/// What parsing gave, by contents: a command or the message of an error.
pub open spec fn parse_view(r: Result<ParsedCommand, CommandError>) -> Result<
    CommandView,
    Seq<char>,
> {
    match r {
        Ok(c) => Ok(c@),
        Err(e) => Err(e@),
    }
}

/// The lines that `help` prints.
pub open spec fn help_lines() -> Seq<Seq<char>> {
    seq![
        "Built-in commands:"@,
        "  help"@,
        "  status"@,
        "  bluenet on"@,
        "  bluenet off"@,
        ""@,
        "Config commands:"@,
        "  config show"@,
        "  config set network-name <name>"@,
        "  config set network-secret <secret>"@,
        "  config set dhcp <on|off>"@,
        "  config set ipv4 <CIDR>|off"@,
        "  config set ipv6 <CIDR>|off"@,
        "  config set no-tun <on|off>"@,
        "  config peers add <url>"@,
        "  config peers remove <url>"@,
        "  config peers clear"@,
        "  config networks add <CIDR>|<CIDR->CIDR>"@,
        "  config networks remove <CIDR>"@,
        "  config networks clear"@,
        ""@,
        "Read-only management commands (available after bluenet on):"@,
        "  peer list|ipv6"@,
        "  peer-center"@,
        "  route list|dump"@,
        "  node|node info|node config"@,
        "  vpn-portal"@,
        "  proxy"@,
        "  acl stats"@,
        "  port-forward list"@,
        "  whitelist show"@,
        "  stats show|prometheus"@,
        "  logger get"@,
        "  credential list"@,
        ""@,
        "Note:"@,
        "  Read-only management commands will fail until you run bluenet on."@,
        ""@,
        "Exit:"@,
        "  exit|quit"@,
    ]
}

/// Adds a line.
pub(crate) fn push_line(lines: &mut Vec<String>, line: &str)
    ensures
        texts(final(lines)@) == texts(old(lines)@).push(line@),
{
    lines.push(line.to_owned());
    assert(texts(lines@) =~= texts(old(lines)@).push(line@));
}

/// The text that `help` prints.
pub fn help_text() -> (r: String)
    ensures
        r@ == crate::text::joined(help_lines(), "\n"@),
{
    let mut lines: Vec<String> = Vec::new();
    push_line(&mut lines, "Built-in commands:");
    push_line(&mut lines, "  help");
    push_line(&mut lines, "  status");
    push_line(&mut lines, "  bluenet on");
    push_line(&mut lines, "  bluenet off");
    push_line(&mut lines, "");
    push_line(&mut lines, "Config commands:");
    push_line(&mut lines, "  config show");
    push_line(&mut lines, "  config set network-name <name>");
    push_line(&mut lines, "  config set network-secret <secret>");
    push_line(&mut lines, "  config set dhcp <on|off>");
    push_line(&mut lines, "  config set ipv4 <CIDR>|off");
    push_line(&mut lines, "  config set ipv6 <CIDR>|off");
    push_line(&mut lines, "  config set no-tun <on|off>");
    push_line(&mut lines, "  config peers add <url>");
    push_line(&mut lines, "  config peers remove <url>");
    push_line(&mut lines, "  config peers clear");
    push_line(&mut lines, "  config networks add <CIDR>|<CIDR->CIDR>");
    push_line(&mut lines, "  config networks remove <CIDR>");
    push_line(&mut lines, "  config networks clear");
    push_line(&mut lines, "");
    push_line(&mut lines, "Read-only management commands (available after bluenet on):");
    push_line(&mut lines, "  peer list|ipv6");
    push_line(&mut lines, "  peer-center");
    push_line(&mut lines, "  route list|dump");
    push_line(&mut lines, "  node|node info|node config");
    push_line(&mut lines, "  vpn-portal");
    push_line(&mut lines, "  proxy");
    push_line(&mut lines, "  acl stats");
    push_line(&mut lines, "  port-forward list");
    push_line(&mut lines, "  whitelist show");
    push_line(&mut lines, "  stats show|prometheus");
    push_line(&mut lines, "  logger get");
    push_line(&mut lines, "  credential list");
    push_line(&mut lines, "");
    push_line(&mut lines, "Note:");
    push_line(&mut lines, "  Read-only management commands will fail until you run bluenet on.");
    push_line(&mut lines, "");
    push_line(&mut lines, "Exit:");
    push_line(&mut lines, "  exit|quit");
    assert(texts(lines@) =~= help_lines());
    crate::text::join(&lines, "\n")
}

/// The word at `i`; the empty text where there is none.
pub open spec fn word(w: Seq<Seq<char>>, i: int) -> Seq<char> {
    if 0 <= i < w.len() {
        w[i]
    } else {
        ""@
    }
}

/// The words that mean yes.
pub open spec fn means_on(v: Seq<char>) -> bool {
    v == "on"@ || v == "true"@ || v == "1"@
}

/// The words that mean no.
pub open spec fn means_off(v: Seq<char>) -> bool {
    v == "off"@ || v == "false"@ || v == "0"@
}

/// The command of `bluenet ...`.
pub open spec fn bluenet_command(w: Seq<Seq<char>>) -> Result<CommandView, Seq<char>> {
    let action = word(w, 1);
    if action == "on"@ {
        Ok(CommandView::StartNetwork)
    } else if action == "off"@ {
        Ok(CommandView::StopNetwork)
    } else {
        Err("unknown bluenet subcommand: "@ + action + " (use on|off)"@)
    }
}

/// The address of `config set ipv4|ipv6 ...`: none for `off` and for no word.
pub open spec fn address_word(v: Seq<char>) -> Option<Seq<char>> {
    if v == "off"@ || v.len() == 0 {
        None
    } else {
        Some(v)
    }
}

/// The command of `config set ...`.
pub open spec fn config_set_command(w: Seq<Seq<char>>) -> Result<CommandView, Seq<char>> {
    let key = word(w, 2);
    let value = word(w, 3);
    if w.len() <= 2 {
        Err("missing config key"@)
    } else if key == "network-name"@ {
        if w.len() > 3 {
            Ok(CommandView::ConfigSetNetworkName { name: value })
        } else {
            Err("missing network-name"@)
        }
    } else if key == "network-secret"@ {
        if w.len() > 3 {
            Ok(CommandView::ConfigSetNetworkSecret { secret: value })
        } else {
            Err("missing network-secret"@)
        }
    } else if key == "dhcp"@ {
        if means_on(value) {
            Ok(CommandView::ConfigSetDhcp { enabled: true })
        } else if means_off(value) {
            Ok(CommandView::ConfigSetDhcp { enabled: false })
        } else {
            Err("invalid dhcp value: "@ + value + " (use on|off)"@)
        }
    } else if key == "ipv4"@ {
        Ok(CommandView::ConfigSetIpv4 { cidr: address_word(value) })
    } else if key == "ipv6"@ {
        Ok(CommandView::ConfigSetIpv6 { cidr: address_word(value) })
    } else if key == "no-tun"@ {
        if means_on(value) {
            Ok(CommandView::ConfigSetNoTun { enabled: true })
        } else if means_off(value) {
            Ok(CommandView::ConfigSetNoTun { enabled: false })
        } else {
            Err("invalid no-tun value: "@ + value + " (use on|off)"@)
        }
    } else {
        Err("unknown config key: "@ + key)
    }
}

/// The command of `config peers ...`.
pub open spec fn config_peers_command(w: Seq<Seq<char>>) -> Result<CommandView, Seq<char>> {
    let action = word(w, 2);
    if action == "add"@ {
        if w.len() > 3 {
            Ok(CommandView::ConfigPeersAdd { url: w[3] })
        } else {
            Err("missing peer url"@)
        }
    } else if action == "remove"@ {
        if w.len() > 3 {
            Ok(CommandView::ConfigPeersRemove { url: w[3] })
        } else {
            Err("missing peer url"@)
        }
    } else if action == "clear"@ {
        Ok(CommandView::ConfigPeersClear)
    } else {
        Err("unknown config peers action: "@ + action)
    }
}

/// The command of `config networks ...`.
pub open spec fn config_networks_command(w: Seq<Seq<char>>) -> Result<CommandView, Seq<char>> {
    let action = word(w, 2);
    if action == "add"@ {
        if w.len() > 3 {
            Ok(CommandView::ConfigNetworksAdd { cidr: w[3] })
        } else {
            Err("missing CIDR (e.g. 10.0.0.0/24 or 10.0.0.0/24->192.168.0.0/24)"@)
        }
    } else if action == "remove"@ {
        if w.len() > 3 {
            Ok(CommandView::ConfigNetworksRemove { cidr: w[3] })
        } else {
            Err("missing CIDR"@)
        }
    } else if action == "clear"@ {
        Ok(CommandView::ConfigNetworksClear)
    } else {
        Err("unknown config networks action: "@ + action)
    }
}

/// The command of `config ...`.
pub open spec fn config_command(w: Seq<Seq<char>>) -> Result<CommandView, Seq<char>> {
    let sub = word(w, 1);
    if sub == "show"@ {
        Ok(CommandView::ConfigShow)
    } else if sub == "set"@ {
        config_set_command(w)
    } else if sub == "peers"@ {
        config_peers_command(w)
    } else if sub == "networks"@ {
        config_networks_command(w)
    } else {
        Err("unknown config subcommand: "@ + sub)
    }
}

/// The command that the words of a line stand for.
pub open spec fn command_of(w: Seq<Seq<char>>) -> Result<CommandView, Seq<char>> {
    let head = word(w, 0);
    if w.len() == 0 {
        Ok(CommandView::Noop)
    } else if head == "exit"@ || head == "quit"@ {
        Ok(CommandView::Exit)
    } else if head == "help"@ {
        Ok(CommandView::Help)
    } else if head == "status"@ {
        Ok(CommandView::Status)
    } else if head == "start-network"@ {
        Ok(CommandView::StartNetwork)
    } else if head == "stop-network"@ {
        Ok(CommandView::StopNetwork)
    } else if head == "bluenet"@ {
        bluenet_command(w)
    } else if head == "config"@ {
        config_command(w)
    } else {
        Ok(CommandView::ReadOnlyMgmt { words: w })
    }
}

/// The word at `i`; the empty text where there is none.
pub(crate) fn word_at<'a>(w: &'a Vec<String>, i: usize) -> (r: &'a str)
    ensures
        r@ == word(texts(w@), i as int),
{
    if i < w.len() {
        w[i].as_str()
    } else {
        ""
    }
}

/// An error made of two texts.
pub(crate) fn error2(a: &str, b: &str) -> (r: CommandError)
    ensures
        r@ == a@ + b@,
{
    CommandError::new(cat(a, b))
}

/// An error made of three texts.
pub(crate) fn error3(a: &str, b: &str, c: &str) -> (r: CommandError)
    ensures
        r@ == a@ + b@ + c@,
{
    let front = cat(a, b);
    CommandError::new(cat(front.as_str(), c))
}

/// An error with the given text.
pub(crate) fn error1(a: &str) -> (r: CommandError)
    ensures
        r@ == a@,
{
    CommandError::new(a.to_owned())
}

/// Parses a line of input.
pub fn parse_line(line: &str) -> (r: Result<ParsedCommand, CommandError>)
    ensures
        parse_view(r) == command_of(words(line@)),
{
    let w = split_words(line);
    if w.len() == 0 {
        return Ok(ParsedCommand::Noop);
    }
    let head = word_at(&w, 0);
    if str_eq(head, "exit") || str_eq(head, "quit") {
        Ok(ParsedCommand::Exit)
    } else if str_eq(head, "help") {
        Ok(ParsedCommand::Help)
    } else if str_eq(head, "status") {
        Ok(ParsedCommand::Status)
    } else if str_eq(head, "start-network") {
        Ok(ParsedCommand::StartNetwork)
    } else if str_eq(head, "stop-network") {
        Ok(ParsedCommand::StopNetwork)
    } else if str_eq(head, "bluenet") {
        parse_bluenet(&w)
    } else if str_eq(head, "config") {
        parse_config(&w)
    } else {
        Ok(ParsedCommand::ReadOnlyMgmt { words: w })
    }
}

fn parse_bluenet(w: &Vec<String>) -> (r: Result<ParsedCommand, CommandError>)
    ensures
        parse_view(r) == bluenet_command(texts(w@)),
{
    let action = word_at(w, 1);
    if str_eq(action, "on") {
        Ok(ParsedCommand::StartNetwork)
    } else if str_eq(action, "off") {
        Ok(ParsedCommand::StopNetwork)
    } else {
        Err(error3("unknown bluenet subcommand: ", action, " (use on|off)"))
    }
}

fn parse_config(w: &Vec<String>) -> (r: Result<ParsedCommand, CommandError>)
    ensures
        parse_view(r) == config_command(texts(w@)),
{
    let sub = word_at(w, 1);
    if str_eq(sub, "show") {
        Ok(ParsedCommand::ConfigShow)
    } else if str_eq(sub, "set") {
        parse_config_set(w)
    } else if str_eq(sub, "peers") {
        parse_config_peers(w)
    } else if str_eq(sub, "networks") {
        parse_config_networks(w)
    } else {
        Err(error2("unknown config subcommand: ", sub))
    }
}

/// Reads a switch: on, off, or neither.
fn parse_switch(value: &str) -> (r: Option<bool>)
    ensures
        r == (if means_on(value@) {
            Some(true)
        } else if means_off(value@) {
            Some(false)
        } else {
            None
        }),
{
    if str_eq(value, "on") || str_eq(value, "true") || str_eq(value, "1") {
        Some(true)
    } else if str_eq(value, "off") || str_eq(value, "false") || str_eq(value, "0") {
        Some(false)
    } else {
        None
    }
}

/// Reads an address: none for `off` and for no word.
fn parse_address(value: &str) -> (r: Option<String>)
    ensures
        opt_text(r) == address_word(value@),
{
    if str_eq(value, "off") || value.is_empty() {
        None
    } else {
        Some(value.to_owned())
    }
}

fn parse_config_set(w: &Vec<String>) -> (r: Result<ParsedCommand, CommandError>)
    ensures
        parse_view(r) == config_set_command(texts(w@)),
{
    if w.len() <= 2 {
        return Err(error1("missing config key"));
    }
    let key = word_at(w, 2);
    let value = word_at(w, 3);
    if str_eq(key, "network-name") {
        if w.len() > 3 {
            Ok(ParsedCommand::ConfigSetNetworkName { name: value.to_owned() })
        } else {
            Err(error1("missing network-name"))
        }
    } else if str_eq(key, "network-secret") {
        if w.len() > 3 {
            Ok(ParsedCommand::ConfigSetNetworkSecret { secret: value.to_owned() })
        } else {
            Err(error1("missing network-secret"))
        }
    } else if str_eq(key, "dhcp") {
        match parse_switch(value) {
            Some(enabled) => Ok(ParsedCommand::ConfigSetDhcp { enabled }),
            None => Err(error3("invalid dhcp value: ", value, " (use on|off)")),
        }
    } else if str_eq(key, "ipv4") {
        Ok(ParsedCommand::ConfigSetIpv4 { cidr: parse_address(value) })
    } else if str_eq(key, "ipv6") {
        Ok(ParsedCommand::ConfigSetIpv6 { cidr: parse_address(value) })
    } else if str_eq(key, "no-tun") {
        match parse_switch(value) {
            Some(enabled) => Ok(ParsedCommand::ConfigSetNoTun { enabled }),
            None => Err(error3("invalid no-tun value: ", value, " (use on|off)")),
        }
    } else {
        Err(error2("unknown config key: ", key))
    }
}

fn parse_config_peers(w: &Vec<String>) -> (r: Result<ParsedCommand, CommandError>)
    ensures
        parse_view(r) == config_peers_command(texts(w@)),
{
    let action = word_at(w, 2);
    if str_eq(action, "add") {
        if w.len() > 3 {
            Ok(ParsedCommand::ConfigPeersAdd { url: w[3].clone() })
        } else {
            Err(error1("missing peer url"))
        }
    } else if str_eq(action, "remove") {
        if w.len() > 3 {
            Ok(ParsedCommand::ConfigPeersRemove { url: w[3].clone() })
        } else {
            Err(error1("missing peer url"))
        }
    } else if str_eq(action, "clear") {
        Ok(ParsedCommand::ConfigPeersClear)
    } else {
        Err(error2("unknown config peers action: ", action))
    }
}

fn parse_config_networks(w: &Vec<String>) -> (r: Result<ParsedCommand, CommandError>)
    ensures
        parse_view(r) == config_networks_command(texts(w@)),
{
    let action = word_at(w, 2);
    if str_eq(action, "add") {
        if w.len() > 3 {
            Ok(ParsedCommand::ConfigNetworksAdd { cidr: w[3].clone() })
        } else {
            Err(error1("missing CIDR (e.g. 10.0.0.0/24 or 10.0.0.0/24->192.168.0.0/24)"))
        }
    } else if str_eq(action, "remove") {
        if w.len() > 3 {
            Ok(ParsedCommand::ConfigNetworksRemove { cidr: w[3].clone() })
        } else {
            Err(error1("missing CIDR"))
        }
    } else if str_eq(action, "clear") {
        Ok(ParsedCommand::ConfigNetworksClear)
    } else {
        Err(error2("unknown config networks action: ", action))
    }
}

/// White space around a line does not change the command.
pub proof fn command_ignores_surrounding_space(line: Seq<char>)
    ensures
        command_of(words(crate::text::trimmed(line))) == command_of(words(line)),
{
    crate::text::words_ignore_surrounding_space(line);
}

/// The built-in commands that `help` lists, and those of the network and the end
/// of the shell.
pub proof fn built_in_forms()
    ensures
        command_of(seq!["help"@]) == Ok::<CommandView, Seq<char>>(CommandView::Help),
        command_of(seq!["status"@]) == Ok::<CommandView, Seq<char>>(CommandView::Status),
        command_of(seq!["bluenet"@, "on"@]) == Ok::<CommandView, Seq<char>>(CommandView::StartNetwork),
        command_of(seq!["bluenet"@, "off"@]) == Ok::<CommandView, Seq<char>>(CommandView::StopNetwork),
        command_of(seq!["start-network"@]) == Ok::<CommandView, Seq<char>>(CommandView::StartNetwork),
        command_of(seq!["stop-network"@]) == Ok::<CommandView, Seq<char>>(CommandView::StopNetwork),
        command_of(seq!["exit"@]) == Ok::<CommandView, Seq<char>>(CommandView::Exit),
        command_of(seq!["quit"@]) == Ok::<CommandView, Seq<char>>(CommandView::Exit),
{
    reveal_strlit("bluenet");
    assert("bluenet"@.len() == 7);
    reveal_strlit("config");
    assert("config"@.len() == 6);
    reveal_strlit("exit");
    assert("exit"@.len() == 4);
    reveal_strlit("help");
    assert("help"@.len() == 4);
    reveal_strlit("off");
    assert("off"@.len() == 3);
    reveal_strlit("on");
    assert("on"@.len() == 2);
    reveal_strlit("quit");
    assert("quit"@.len() == 4);
    reveal_strlit("start-network");
    assert("start-network"@.len() == 13);
    reveal_strlit("status");
    assert("status"@.len() == 6);
    reveal_strlit("stop-network");
    assert("stop-network"@.len() == 12);
    assert("config"@[0] != "status"@[0]);
    assert("exit"@[0] != "help"@[0]);
    assert("exit"@[0] != "quit"@[0]);
    assert("help"@[0] != "quit"@[0]);
}

/// The config commands that `help` lists, for all that may stand in place of a
/// name, a secret, an address and a URL.
pub proof fn config_forms(
    name: Seq<char>,
    secret: Seq<char>,
    cidr: Seq<char>,
    url: Seq<char>,
)
    requires
        cidr.len() > 0,
        cidr != "off"@,
    ensures
        command_of(seq!["config"@, "show"@]) == Ok::<CommandView, Seq<char>>(CommandView::ConfigShow),
        command_of(seq!["config"@, "set"@, "network-name"@, name]) == Ok::<CommandView, Seq<char>>(CommandView::ConfigSetNetworkName { name }),
        command_of(seq!["config"@, "set"@, "network-secret"@, secret]) == Ok::<CommandView, Seq<char>>(CommandView::ConfigSetNetworkSecret { secret }),
        command_of(seq!["config"@, "set"@, "dhcp"@, "on"@]) == Ok::<CommandView, Seq<char>>(CommandView::ConfigSetDhcp { enabled: true }),
        command_of(seq!["config"@, "set"@, "dhcp"@, "off"@]) == Ok::<CommandView, Seq<char>>(CommandView::ConfigSetDhcp { enabled: false }),
        command_of(seq!["config"@, "set"@, "ipv4"@, cidr]) == Ok::<CommandView, Seq<char>>(CommandView::ConfigSetIpv4 { cidr: Some(cidr) }),
        command_of(seq!["config"@, "set"@, "ipv4"@, "off"@]) == Ok::<CommandView, Seq<char>>(CommandView::ConfigSetIpv4 { cidr: None }),
        command_of(seq!["config"@, "set"@, "ipv6"@, cidr]) == Ok::<CommandView, Seq<char>>(CommandView::ConfigSetIpv6 { cidr: Some(cidr) }),
        command_of(seq!["config"@, "set"@, "ipv6"@, "off"@]) == Ok::<CommandView, Seq<char>>(CommandView::ConfigSetIpv6 { cidr: None }),
        command_of(seq!["config"@, "set"@, "no-tun"@, "on"@]) == Ok::<CommandView, Seq<char>>(CommandView::ConfigSetNoTun { enabled: true }),
        command_of(seq!["config"@, "set"@, "no-tun"@, "off"@]) == Ok::<CommandView, Seq<char>>(CommandView::ConfigSetNoTun { enabled: false }),
        command_of(seq!["config"@, "peers"@, "add"@, url]) == Ok::<CommandView, Seq<char>>(CommandView::ConfigPeersAdd { url }),
        command_of(seq!["config"@, "peers"@, "remove"@, url]) == Ok::<CommandView, Seq<char>>(CommandView::ConfigPeersRemove { url }),
        command_of(seq!["config"@, "peers"@, "clear"@]) == Ok::<CommandView, Seq<char>>(CommandView::ConfigPeersClear),
        command_of(seq!["config"@, "networks"@, "add"@, cidr]) == Ok::<CommandView, Seq<char>>(CommandView::ConfigNetworksAdd { cidr }),
        command_of(seq!["config"@, "networks"@, "remove"@, cidr]) == Ok::<CommandView, Seq<char>>(CommandView::ConfigNetworksRemove { cidr }),
        command_of(seq!["config"@, "networks"@, "clear"@]) == Ok::<CommandView, Seq<char>>(CommandView::ConfigNetworksClear),
{
    heads_differ();
    config_subcommands_differ();
    config_keys_differ();
    reveal_strlit("add");
    assert("add"@.len() == 3);
    reveal_strlit("clear");
    assert("clear"@.len() == 5);
    reveal_strlit("remove");
    assert("remove"@.len() == 6);
    reveal_strlit("0");
    assert("0"@.len() == 1);
    reveal_strlit("1");
    assert("1"@.len() == 1);
    reveal_strlit("false");
    assert("false"@.len() == 5);
    reveal_strlit("off");
    assert("off"@.len() == 3);
    reveal_strlit("on");
    assert("on"@.len() == 2);
    reveal_strlit("true");
    assert("true"@.len() == 4);
    assert("0"@[0] != "1"@[0]);
}

/// The first word is none of those that the shell knows.
pub open spec fn is_management_head(head: Seq<char>) -> bool {
    &&& head != "exit"@
    &&& head != "quit"@
    &&& head != "help"@
    &&& head != "status"@
    &&& head != "start-network"@
    &&& head != "stop-network"@
    &&& head != "bluenet"@
    &&& head != "config"@
}

/// Words that begin with none of the words that the shell knows are a read-only
/// management command, as they stand.
pub proof fn other_words_are_management_commands(w: Seq<Seq<char>>)
    requires
        w.len() > 0,
        is_management_head(w[0]),
    ensures
        command_of(w) == Ok::<CommandView, Seq<char>>(CommandView::ReadOnlyMgmt { words: w }),
{
}

/// The words that the shell knows are told apart.
proof fn heads_differ()
    ensures
        "exit"@ != "quit"@,
        "exit"@ != "help"@,
        "exit"@ != "status"@,
        "exit"@ != "start-network"@,
        "exit"@ != "stop-network"@,
        "exit"@ != "bluenet"@,
        "exit"@ != "config"@,
        "quit"@ != "help"@,
        "quit"@ != "status"@,
        "quit"@ != "start-network"@,
        "quit"@ != "stop-network"@,
        "quit"@ != "bluenet"@,
        "quit"@ != "config"@,
        "help"@ != "status"@,
        "help"@ != "start-network"@,
        "help"@ != "stop-network"@,
        "help"@ != "bluenet"@,
        "help"@ != "config"@,
        "status"@ != "start-network"@,
        "status"@ != "stop-network"@,
        "status"@ != "bluenet"@,
        "status"@ != "config"@,
        "start-network"@ != "stop-network"@,
        "start-network"@ != "bluenet"@,
        "start-network"@ != "config"@,
        "stop-network"@ != "bluenet"@,
        "stop-network"@ != "config"@,
        "bluenet"@ != "config"@,
{
    reveal_strlit("bluenet");
    assert("bluenet"@.len() == 7);
    reveal_strlit("config");
    assert("config"@.len() == 6);
    reveal_strlit("exit");
    assert("exit"@.len() == 4);
    reveal_strlit("help");
    assert("help"@.len() == 4);
    reveal_strlit("quit");
    assert("quit"@.len() == 4);
    reveal_strlit("start-network");
    assert("start-network"@.len() == 13);
    reveal_strlit("status");
    assert("status"@.len() == 6);
    reveal_strlit("stop-network");
    assert("stop-network"@.len() == 12);
    assert("config"@[0] != "status"@[0]);
    assert("exit"@[0] != "help"@[0]);
    assert("exit"@[0] != "quit"@[0]);
    assert("help"@[0] != "quit"@[0]);
}

proof fn config_subcommands_differ()
    ensures
        "show"@ != "set"@,
        "show"@ != "peers"@,
        "show"@ != "networks"@,
        "set"@ != "peers"@,
        "set"@ != "networks"@,
        "peers"@ != "networks"@,
{
    reveal_strlit("networks");
    assert("networks"@.len() == 8);
    reveal_strlit("peers");
    assert("peers"@.len() == 5);
    reveal_strlit("set");
    assert("set"@.len() == 3);
    reveal_strlit("show");
    assert("show"@.len() == 4);
}

proof fn config_keys_differ()
    ensures
        "network-name"@ != "network-secret"@,
        "network-name"@ != "dhcp"@,
        "network-name"@ != "ipv4"@,
        "network-name"@ != "ipv6"@,
        "network-name"@ != "no-tun"@,
        "network-secret"@ != "dhcp"@,
        "network-secret"@ != "ipv4"@,
        "network-secret"@ != "ipv6"@,
        "network-secret"@ != "no-tun"@,
        "dhcp"@ != "ipv4"@,
        "dhcp"@ != "ipv6"@,
        "dhcp"@ != "no-tun"@,
        "ipv4"@ != "ipv6"@,
        "ipv4"@ != "no-tun"@,
        "ipv6"@ != "no-tun"@,
{
    reveal_strlit("dhcp");
    assert("dhcp"@.len() == 4);
    reveal_strlit("ipv4");
    assert("ipv4"@.len() == 4);
    reveal_strlit("ipv6");
    assert("ipv6"@.len() == 4);
    reveal_strlit("network-name");
    assert("network-name"@.len() == 12);
    reveal_strlit("network-secret");
    assert("network-secret"@.len() == 14);
    reveal_strlit("no-tun");
    assert("no-tun"@.len() == 6);
    assert("dhcp"@[0] != "ipv4"@[0]);
    assert("dhcp"@[0] != "ipv6"@[0]);
    assert("ipv4"@[3] != "ipv6"@[3]);
}

/// A command of one word is the same whatever words follow it, and no word behind
/// the fourth changes a command that the shell knows.
pub proof fn words_behind_a_command_are_ignored(w: Seq<Seq<char>>, rest: Seq<Seq<char>>)
    requires
        w.len() > 0,
        !is_management_head(w[0]),
    ensures
        w[0] != "bluenet"@ && w[0] != "config"@ ==> command_of(w + rest) == command_of(seq![w[0]]),
        w[0] == "bluenet"@ && w.len() >= 2 ==> command_of(w + rest) == command_of(w),
        w.len() >= 4 ==> command_of(w + rest) == command_of(w),
{
    assert((w + rest)[0] == w[0]);
    if w.len() >= 2 {
        assert((w + rest)[1] == w[1]);
    }
    if w.len() >= 4 {
        assert((w + rest)[2] == w[2]);
        assert((w + rest)[3] == w[3]);
    }
}

/// A switch is turned on by `on`, `true` and `1`, off by `off`, `false` and `0`, and
/// by nothing else.
pub proof fn switches_take_six_words(v: Seq<char>)
    ensures
        ({
            let dhcp = command_of(seq!["config"@, "set"@, "dhcp"@, v]);
            let tun = command_of(seq!["config"@, "set"@, "no-tun"@, v]);
            let on = v == "on"@ || v == "true"@ || v == "1"@;
            let off = v == "off"@ || v == "false"@ || v == "0"@;
            &&& on ==> dhcp == Ok::<CommandView, Seq<char>>(CommandView::ConfigSetDhcp { enabled: true })
            &&& off ==> dhcp == Ok::<CommandView, Seq<char>>(CommandView::ConfigSetDhcp { enabled: false })
            &&& !on && !off ==> dhcp == Err::<CommandView, Seq<char>>("invalid dhcp value: "@ + v + " (use on|off)"@)
            &&& on ==> tun == Ok::<CommandView, Seq<char>>(CommandView::ConfigSetNoTun { enabled: true })
            &&& off ==> tun == Ok::<CommandView, Seq<char>>(CommandView::ConfigSetNoTun { enabled: false })
            &&& !on && !off ==> tun == Err::<CommandView, Seq<char>>("invalid no-tun value: "@ + v + " (use on|off)"@)
        }),
{
    heads_differ();
    config_subcommands_differ();
    config_keys_differ();
    reveal_strlit("0");
    assert("0"@.len() == 1);
    reveal_strlit("1");
    assert("1"@.len() == 1);
    reveal_strlit("false");
    assert("false"@.len() == 5);
    reveal_strlit("off");
    assert("off"@.len() == 3);
    reveal_strlit("on");
    assert("on"@.len() == 2);
    reveal_strlit("true");
    assert("true"@.len() == 4);
    assert("0"@[0] != "1"@[0]);
}

/// What stands where a subcommand, a key or an action is expected and is none is
/// named in the error.
pub proof fn unknown_words_are_named(x: Seq<char>)
    ensures
        x != "on"@ && x != "off"@ ==> command_of(seq!["bluenet"@, x]) == Err::<CommandView, Seq<char>>(
            "unknown bluenet subcommand: "@ + x + " (use on|off)"@,
        ),
        x != "show"@ && x != "set"@ && x != "peers"@ && x != "networks"@ ==> command_of(
            seq!["config"@, x],
        ) == Err::<CommandView, Seq<char>>("unknown config subcommand: "@ + x),
        x != "network-name"@ && x != "network-secret"@ && x != "dhcp"@ && x != "ipv4"@ && x
            != "ipv6"@ && x != "no-tun"@ ==> command_of(seq!["config"@, "set"@, x]) == Err::<CommandView, Seq<char>>(
            "unknown config key: "@ + x,
        ),
        x != "add"@ && x != "remove"@ && x != "clear"@ ==> command_of(
            seq!["config"@, "peers"@, x],
        ) == Err::<CommandView, Seq<char>>("unknown config peers action: "@ + x),
        x != "add"@ && x != "remove"@ && x != "clear"@ ==> command_of(
            seq!["config"@, "networks"@, x],
        ) == Err::<CommandView, Seq<char>>("unknown config networks action: "@ + x),
{
    heads_differ();
    config_subcommands_differ();
}

/// A command whose last word is missing is an error that says what is missing; an
/// address that is missing is taken for `off`.
pub proof fn missing_words_are_named()
    ensures
        command_of(seq!["config"@, "set"@]) == Err::<CommandView, Seq<char>>("missing config key"@),
        command_of(seq!["config"@, "set"@, "network-name"@]) == Err::<CommandView, Seq<char>>("missing network-name"@),
        command_of(seq!["config"@, "set"@, "network-secret"@]) == Err::<CommandView, Seq<char>>("missing network-secret"@),
        command_of(seq!["config"@, "set"@, "ipv4"@]) == command_of(
            seq!["config"@, "set"@, "ipv4"@, "off"@],
        ),
        command_of(seq!["config"@, "set"@, "ipv6"@]) == command_of(
            seq!["config"@, "set"@, "ipv6"@, "off"@],
        ),
        command_of(seq!["config"@, "peers"@, "add"@]) == Err::<CommandView, Seq<char>>("missing peer url"@),
        command_of(seq!["config"@, "peers"@, "remove"@]) == Err::<CommandView, Seq<char>>("missing peer url"@),
        command_of(seq!["config"@, "networks"@, "add"@]) == Err::<CommandView, Seq<char>>(
            "missing CIDR (e.g. 10.0.0.0/24 or 10.0.0.0/24->192.168.0.0/24)"@,
        ),
        command_of(seq!["config"@, "networks"@, "remove"@]) == Err::<CommandView, Seq<char>>("missing CIDR"@),
{
    heads_differ();
    config_subcommands_differ();
    config_keys_differ();
    reveal_strlit("");
    reveal_strlit("add");
    assert("add"@.len() == 3);
    reveal_strlit("clear");
    assert("clear"@.len() == 5);
    reveal_strlit("remove");
    assert("remove"@.len() == 6);
}

} // verus!
