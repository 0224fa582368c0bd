//! Runs lines of the management shell against the node's network.
use vstd::prelude::*;
use vstd::string::*;
use crate::address::{
    ipv4_cidr_form, ipv4_inet_form, ipv6_inet_form, loopback_url, url_form, uuid_form, RpcAddr,
};
use crate::command::{
    command_of, error1, help_lines, help_text, parse_line, CommandError, CommandResult,
    CommandView, ParsedCommand,
};
use crate::rpc_readonly::{method_of, ReadOnlyRpcExecutor, RpcMethod};
use crate::runtime::{
    config_form, config_lines, each_value_has_its_line, has_peer, network_form,
    running_has_portal, showable, shown_config_has_the_lines, shown_status_has_the_lines,
    start_outcome, start_state, status_lines, stopped_form, with_network, with_peer, without_network, without_peer,
    ConfigView, CoreRuntimeController, NetworkView, RuntimeView, StartAction, StartActionView,
    StartEvent, StopAction,
};
use crate::text::{decimal, joined, lines_of, words};

verus! {

/// What is to be done for a command.
pub enum RouterStep {
    /// Nothing more; this is its result.
    Done(CommandResult),
    /// Go on starting the network.
    Start(StartAction),
    /// Delete the network instance.
    DeleteInstance(u128),
    /// Make a call to the RPC portal at the given URL and show the replies.
    Call { url: String, method: RpcMethod },
}

/// The contents of a `RouterStep`.
pub enum RouterStepView {
    Done { output: Seq<char>, should_exit: bool },
    Start(StartActionView),
    DeleteInstance(u128),
    Call { url: Seq<char>, method: RpcMethod },
}

impl View for RouterStep {
    type V = RouterStepView;

    open spec fn view(&self) -> RouterStepView {
        match *self {
            RouterStep::Done(r) => RouterStepView::Done {
                output: r.output@,
                should_exit: r.should_exit,
            },
            RouterStep::Start(a) => RouterStepView::Start(a@),
            RouterStep::DeleteInstance(id) => RouterStepView::DeleteInstance(id),
            RouterStep::Call { url, method } => RouterStepView::Call { url: url@, method },
        }
    }
}

/// What a command gave, by contents: what is to be done, or a message.
pub open spec fn outcome_view(r: Result<RouterStep, CommandError>) -> Result<
    RouterStepView,
    Seq<char>,
> {
    match r {
        Ok(s) => Ok(s@),
        Err(e) => Err(e@),
    }
}

/// The command is finished and printed a text.
pub open spec fn printed(text: Seq<char>) -> Result<RouterStepView, Seq<char>> {
    Ok(RouterStepView::Done { output: text, should_exit: false })
}

/// `OK` where a value was accepted; else the complaint about the text.
pub open spec fn accepted<T>(
    value: Option<T>,
    complaint: Seq<char>,
    text: Seq<char>,
) -> Result<RouterStepView, Seq<char>> {
    match value {
        Some(_) => printed("OK"@),
        None => Err(complaint + text),
    }
}

/// What is to be done for a step of the start.
pub open spec fn start_step(a: Result<StartActionView, Seq<char>>) -> Result<
    RouterStepView,
    Seq<char>,
> {
    match a {
        Ok(StartActionView::Finished(text)) => printed(text),
        Ok(action) => Ok(RouterStepView::Start(action)),
        Err(e) => Err(e),
    }
}

/// What is to be done for a command, or why it failed.
pub open spec fn command_outcome(s: RuntimeView, c: CommandView) -> Result<
    RouterStepView,
    Seq<char>,
> {
    match c {
        CommandView::Noop => printed(Seq::empty()),
        CommandView::Exit => Ok(
            RouterStepView::Done { output: Seq::empty(), should_exit: true },
        ),
        CommandView::Help => printed(joined(help_lines(), "\n"@)),
        CommandView::Status => printed(joined(status_lines(s), "\n"@)),
        CommandView::StartNetwork => start_step(start_outcome(s, StartEvent::Requested)),
        CommandView::StopNetwork => match s.instance_id {
            Some(id) => Ok(RouterStepView::DeleteInstance(id)),
            None => printed("network is not started"@),
        },
        CommandView::ConfigShow => printed(config_form(s.config)),
        CommandView::ConfigSetIpv4 { cidr: Some(text) } => accepted(
            ipv4_inet_form(text),
            "invalid ipv4 cidr: "@,
            text,
        ),
        CommandView::ConfigSetIpv6 { cidr: Some(text) } => accepted(
            ipv6_inet_form(text),
            "invalid ipv6 cidr: "@,
            text,
        ),
        CommandView::ConfigPeersAdd { url } => accepted(
            url_form(url),
            "invalid peer url: "@,
            url,
        ),
        CommandView::ConfigPeersRemove { url } => accepted(
            url_form(url),
            "invalid peer url: "@,
            url,
        ),
        CommandView::ConfigNetworksAdd { cidr } => accepted(
            network_form(cidr),
            "invalid CIDR: "@,
            cidr,
        ),
        CommandView::ConfigNetworksRemove { cidr } => accepted(
            ipv4_cidr_form(cidr),
            "invalid CIDR: "@,
            cidr,
        ),
        CommandView::ReadOnlyMgmt { words } => match s.rpc_addr {
            None => Err("network is not started; run start-network first"@),
            Some(addr) => match method_of(words) {
                Ok(method) => Ok(RouterStepView::Call { url: loopback_url(addr.port), method }),
                Err(e) => Err(e),
            },
        },
        _ => printed("OK"@),
    }
}

/// The configuration after a command.
pub open spec fn config_after(s: ConfigView, c: CommandView) -> ConfigView {
    match c {
        CommandView::ConfigSetNetworkName { name } => ConfigView {
            network_name: name,
            network_secret: Some(
                match s.network_secret {
                    Some(secret) => secret,
                    None => Seq::empty(),
                },
            ),
            ..s
        },
        CommandView::ConfigSetNetworkSecret { secret } => ConfigView {
            network_secret: Some(secret),
            ..s
        },
        CommandView::ConfigSetDhcp { enabled } => if enabled {
            ConfigView { dhcp: true, ipv4: None, ipv6: None, ..s }
        } else {
            ConfigView { dhcp: false, ..s }
        },
        CommandView::ConfigSetIpv4 { cidr: None } => ConfigView { ipv4: None, ..s },
        CommandView::ConfigSetIpv4 { cidr: Some(text) } => match ipv4_inet_form(text) {
            Some(addr) => ConfigView { ipv4: Some(addr), dhcp: false, ..s },
            None => s,
        },
        CommandView::ConfigSetIpv6 { cidr: None } => ConfigView { ipv6: None, ..s },
        CommandView::ConfigSetIpv6 { cidr: Some(text) } => match ipv6_inet_form(text) {
            Some(addr) => ConfigView { ipv6: Some(addr), dhcp: false, ..s },
            None => s,
        },
        CommandView::ConfigSetNoTun { enabled } => ConfigView { no_tun: enabled, ..s },
        CommandView::ConfigPeersAdd { url } => match url_form(url) {
            Some(uri) => ConfigView { peers: with_peer(s.peers, uri), ..s },
            None => s,
        },
        CommandView::ConfigPeersRemove { url } => match url_form(url) {
            Some(uri) => ConfigView { peers: without_peer(s.peers, uri), ..s },
            None => s,
        },
        CommandView::ConfigPeersClear => ConfigView { peers: Seq::empty(), ..s },
        CommandView::ConfigNetworksAdd { cidr } => match network_form(cidr) {
            Some(n) => ConfigView { networks: with_network(s.networks, n), ..s },
            None => s,
        },
        CommandView::ConfigNetworksRemove { cidr } => match ipv4_cidr_form(cidr) {
            Some(range) => ConfigView { networks: without_network(s.networks, range), ..s },
            None => s,
        },
        CommandView::ConfigNetworksClear => ConfigView { networks: Seq::empty(), ..s },
        _ => s,
    }
}

/// The state after a command.
pub open spec fn state_after(s: RuntimeView, c: CommandView) -> RuntimeView {
    match c {
        CommandView::StopNetwork => RuntimeView { instance_id: None, ..s },
        _ => RuntimeView { config: config_after(s.config, c), ..s },
    }
}

/// Runs lines of input.
pub struct EmbeddedCommandRouter {
    controller: CoreRuntimeController,
}

impl View for EmbeddedCommandRouter {
    type V = RuntimeView;

    /// The state of the network.
    closed spec fn view(&self) -> RuntimeView {
        self.controller@
    }
}

impl EmbeddedCommandRouter {
    /// A router for the given network.
    pub fn new(controller: CoreRuntimeController) -> (r: Self)
        ensures
            r@ == controller@,
    {
        Self { controller }
    }

    /// The network.
    pub fn controller(&self) -> (r: &CoreRuntimeController)
        ensures
            r@ == self@,
    {
        &self.controller
    }

    /// Runs a line of input. A line that is no command changes nothing.
    pub fn execute_line(&mut self, line: &str) -> (r: Result<RouterStep, CommandError>)
        ensures
            match command_of(words(line@)) {
                Ok(c) => {
                    &&& outcome_view(r) == command_outcome(old(self)@, c)
                    &&& final(self)@ == state_after(old(self)@, c)
                },
                Err(e) => {
                    &&& outcome_view(r) == Err::<RouterStepView, Seq<char>>(e)
                    &&& final(self)@ == old(self)@
                },
            },
    {
        match parse_line(line) {
            Ok(command) => self.execute(command),
            Err(e) => Err(e),
        }
    }

    /// Runs a command.
    pub fn execute(&mut self, command: ParsedCommand) -> (r: Result<RouterStep, CommandError>)
        ensures
            outcome_view(r) == command_outcome(old(self)@, command@),
            final(self)@ == state_after(old(self)@, command@),
    {
        match command {
            ParsedCommand::Noop => Ok(RouterStep::Done(CommandResult::empty())),
            ParsedCommand::Exit => Ok(RouterStep::Done(CommandResult::exit())),
            ParsedCommand::Help => Ok(RouterStep::Done(CommandResult::text(help_text()))),
            ParsedCommand::Status => Ok(
                RouterStep::Done(CommandResult::text(self.controller.status_text())),
            ),
            ParsedCommand::StartNetwork => self.start_event(StartEvent::Requested),
            ParsedCommand::StopNetwork => match self.controller.stop_network() {
                StopAction::Finished(text) => Ok(RouterStep::Done(CommandResult::text(text))),
                StopAction::DeleteInstance(id) => Ok(RouterStep::DeleteInstance(id)),
            },
            ParsedCommand::ConfigShow => Ok(
                RouterStep::Done(CommandResult::text(self.controller.config_text())),
            ),
            ParsedCommand::ConfigSetNetworkName { name } => {
                self.controller.set_network_name(name);
                ok()
            },
            ParsedCommand::ConfigSetNetworkSecret { secret } => {
                self.controller.set_network_secret(secret);
                ok()
            },
            ParsedCommand::ConfigSetDhcp { enabled } => done(self.controller.set_dhcp(enabled)),
            ParsedCommand::ConfigSetIpv4 { cidr } => done(self.controller.set_ipv4(cidr)),
            ParsedCommand::ConfigSetIpv6 { cidr } => done(self.controller.set_ipv6(cidr)),
            ParsedCommand::ConfigSetNoTun { enabled } => {
                self.controller.set_no_tun(enabled);
                ok()
            },
            ParsedCommand::ConfigPeersAdd { url } => done(self.controller.peers_add(url)),
            ParsedCommand::ConfigPeersRemove { url } => done(self.controller.peers_remove(url)),
            ParsedCommand::ConfigPeersClear => {
                self.controller.peers_clear();
                ok()
            },
            ParsedCommand::ConfigNetworksAdd { cidr } => done(self.controller.networks_add(cidr)),
            ParsedCommand::ConfigNetworksRemove { cidr } => done(
                self.controller.networks_remove(cidr),
            ),
            ParsedCommand::ConfigNetworksClear => {
                self.controller.networks_clear();
                ok()
            },
            ParsedCommand::ReadOnlyMgmt { words } => match self.controller.rpc_addr() {
                None => Err(error1("network is not started; run start-network first")),
                Some(addr) => {
                    let executor = ReadOnlyRpcExecutor::new(addr);
                    match executor.execute(&words) {
                        Ok(method) => Ok(
                            RouterStep::Call { url: executor.url().clone(), method },
                        ),
                        Err(e) => Err(e),
                    }
                },
            },
        }
    }

    /// Goes on with a start of the network.
    pub fn start_event(&mut self, event: StartEvent) -> (r: Result<RouterStep, CommandError>)
        ensures
            outcome_view(r) == start_step(start_outcome(old(self)@, event)),
            final(self)@ == start_state(old(self)@, event),
    {
        match self.controller.start_network(event) {
            Ok(StartAction::Finished(text)) => Ok(RouterStep::Done(CommandResult::text(text))),
            Ok(action) => Ok(RouterStep::Start(action)),
            Err(e) => Err(e),
        }
    }

    /// Completes a stop of the network.
    pub fn instance_deleted(
        &mut self,
        id: u128,
        outcome: Result<(), CommandError>,
    ) -> (r: Result<CommandResult, CommandError>)
        ensures
            match outcome {
                Ok(_) => {
                    &&& final(self)@ == (RuntimeView { rpc_addr: None, ..old(self)@ })
                    &&& r matches Ok(c)
                    &&& c.output@ == stopped_form(id)
                    &&& !c.should_exit
                },
                Err(e) => {
                    &&& final(self)@ == old(self)@
                    &&& r matches Err(f)
                    &&& f@ == e@
                },
            },
    {
        match self.controller.instance_deleted(id, outcome) {
            Ok(text) => Ok(CommandResult::text(text)),
            Err(e) => Err(e),
        }
    }
}

fn ok() -> (r: Result<RouterStep, CommandError>)
    ensures
        outcome_view(r) == printed("OK"@),
{
    Ok(RouterStep::Done(CommandResult::text("OK".to_owned())))
}

fn done(outcome: Result<(), CommandError>) -> (r: Result<RouterStep, CommandError>)
    ensures
        match outcome {
            Ok(_) => outcome_view(r) == printed("OK"@),
            Err(e) => outcome_view(r) == Err::<RouterStepView, Seq<char>>(e@),
        },
{
    match outcome {
        Ok(_) => ok(),
        Err(e) => Err(e),
    }
}

/// Every command keeps automatic and static addresses apart and the lists of
/// peers and networks free of repetitions.
pub proof fn commands_keep_config_consistent(s: RuntimeView, c: CommandView)
    requires
        s.config.consistent(),
    ensures
        state_after(s, c).config.consistent(),
{
    match c {
        CommandView::ConfigPeersAdd { url } => {
            if let Some(uri) = url_form(url) {
                crate::runtime::adding_a_peer(s.config, uri);
            }
        },
        CommandView::ConfigPeersRemove { url } => {
            if let Some(uri) = url_form(url) {
                crate::runtime::removing_a_peer(s.config, uri);
            }
        },
        CommandView::ConfigNetworksAdd { cidr } => {
            if let Some(n) = network_form(cidr) {
                crate::runtime::adding_a_network(s.config, n);
            }
        },
        CommandView::ConfigNetworksRemove { cidr } => {
            if let Some(range) = ipv4_cidr_form(cidr) {
                crate::runtime::removing_a_network(s.config, range);
            }
        },
        _ => {},
    }
}

/// A command that fails changes nothing.
pub proof fn failed_commands_change_nothing(s: RuntimeView, c: CommandView)
    requires
        command_outcome(s, c) is Err,
    ensures
        state_after(s, c) == s,
{
}

/// Read-only management commands fail until the network has been started, and
/// they never change anything.
pub proof fn read_only_commands_need_the_network(s: RuntimeView, w: Seq<Seq<char>>)
    ensures
        s.rpc_addr is None ==> command_outcome(s, CommandView::ReadOnlyMgmt { words: w }) == Err::<
            RouterStepView,
            Seq<char>,
        >("network is not started; run start-network first"@),
        state_after(s, CommandView::ReadOnlyMgmt { words: w }) == s,
{
}

/// The built-in commands can be used whether or not the network runs.
pub proof fn built_in_commands_always_succeed(s: RuntimeView, c: CommandView)
    requires
        c is Noop || c is Exit || c is Help || c is Status || c is StartNetwork || c is StopNetwork
            || c is ConfigShow,
    ensures
        command_outcome(s, c) is Ok,
        state_after(s, c).config == s.config,
{
}

/// Only `start-network` and `stop-network` start and stop the network: no other
/// command touches the instance or the portal, and no command leaves an
/// instance running without the portal.
pub proof fn other_commands_leave_the_network(s: RuntimeView, c: CommandView)
    ensures
        c !is StopNetwork ==> state_after(s, c).instance_id == s.instance_id,
        state_after(s, c).rpc_addr == s.rpc_addr,
        running_has_portal(s) ==> running_has_portal(state_after(s, c)),
{
}

/// After a completed stop the network is as before it was started: read-only
/// commands fail again, and the configuration is kept.
pub proof fn stop_undoes_start(s: RuntimeView, addr: RpcAddr, id: u128)
    requires
        s.instance_id is None,
        s.rpc_addr is None,
    ensures
        ({
            let up = start_state(
                start_state(s, StartEvent::Portal { addr, outcome: Ok(()) }),
                StartEvent::Instance { addr, outcome: Ok(id) },
            );
            let down = state_after(up, CommandView::StopNetwork);
            &&& command_outcome(up, CommandView::StopNetwork) == Ok::<RouterStepView, Seq<char>>(
                RouterStepView::DeleteInstance(id),
            )
            &&& (RuntimeView { rpc_addr: None, ..down }) == s
        }),
{
}

/// The lines that `config show` prints.
pub open spec fn shown(s: RuntimeView) -> Seq<Seq<char>> {
    match command_outcome(s, CommandView::ConfigShow) {
        Ok(RouterStepView::Done { output, .. }) => lines_of(output),
        _ => Seq::empty(),
    }
}

proof fn shown_is_the_lines(s: RuntimeView)
    requires
        showable(s.config),
    ensures
        shown(s) == config_lines(s.config),
{
    shown_config_has_the_lines(s.config);
}

/// What a setting is set to is what `config show` shows from then on, and nothing
/// else that it shows changes, but that automatic and static addresses exclude
/// each other.
pub proof fn what_is_set_is_shown(s: RuntimeView, c: CommandView)
    requires
        showable(s.config),
        showable(state_after(s, c).config),
    ensures
        ({
            let before = shown(s);
            let after = shown(state_after(s, c));
            let fixed = before.update(2, "dhcp: "@ + "false"@);
            &&& c matches CommandView::ConfigSetNetworkName { name } ==> after == before.update(
                0,
                "network-name: "@ + name,
            )
            &&& c matches CommandView::ConfigSetNetworkSecret { secret } ==> after
                == before.update(1, "network-secret: "@ + secret)
            &&& c == (CommandView::ConfigSetDhcp { enabled: true }) ==> after == before.update(
                2,
                "dhcp: "@ + "true"@,
            ).update(4, "ipv4: "@ + "off"@).update(5, "ipv6: "@ + "off"@)
            &&& c == (CommandView::ConfigSetDhcp { enabled: false }) ==> after == fixed
            &&& c == (CommandView::ConfigSetNoTun { enabled: true }) ==> after == before.update(
                3,
                "no-tun: "@ + "true"@,
            )
            &&& c == (CommandView::ConfigSetNoTun { enabled: false }) ==> after == before.update(
                3,
                "no-tun: "@ + "false"@,
            )
            &&& c == (CommandView::ConfigSetIpv4 { cidr: None }) ==> after == before.update(
                4,
                "ipv4: "@ + "off"@,
            )
            &&& c == (CommandView::ConfigSetIpv6 { cidr: None }) ==> after == before.update(
                5,
                "ipv6: "@ + "off"@,
            )
            &&& c matches CommandView::ConfigSetIpv4 { cidr: Some(text) } ==> ipv4_inet_form(
                text,
            ) matches Some(a) ==> after == fixed.update(4, "ipv4: "@ + a)
            &&& c matches CommandView::ConfigSetIpv6 { cidr: Some(text) } ==> ipv6_inet_form(
                text,
            ) matches Some(a) ==> after == fixed.update(5, "ipv6: "@ + a)
        }),
{
    shown_is_the_lines(s);
    shown_is_the_lines(state_after(s, c));
    let d = state_after(s, c).config;
    each_value_has_its_line(s.config);
    each_value_has_its_line(d);
    let k = config_lines(s.config);
    let l = config_lines(d);
    let n = s.config.peers.len() as int;
    if d.peers == s.config.peers && d.networks == s.config.networks {
        assert forall|i: int| 6 <= i < l.len() implies #[trigger] l[i] == k[i] by {}
    }
}

/// A peer that is added stands at the end of the peers that `config show` shows,
/// which are one more; one that is listed already changes nothing. Nothing else
/// changes.
pub proof fn added_peer_is_shown(s: RuntimeView, url: Seq<char>, uri: Seq<char>)
    requires
        url_form(url) == Some(uri),
        showable(s.config),
        showable(state_after(s, CommandView::ConfigPeersAdd { url }).config),
    ensures
        ({
            let before = shown(s);
            let after = shown(state_after(s, CommandView::ConfigPeersAdd { url }));
            let n = s.config.peers.len();
            &&& has_peer(s.config.peers, uri) ==> after == before
            &&& !has_peer(s.config.peers, uri) ==> after == before.update(
                6,
                "peers: "@ + decimal(n + 1),
            ).insert(7 + n as int, "  "@ + decimal(n + 1) + ": "@ + uri)
        }),
{
    let t = state_after(s, CommandView::ConfigPeersAdd { url });
    shown_is_the_lines(s);
    shown_is_the_lines(t);
    each_value_has_its_line(s.config);
    each_value_has_its_line(t.config);
    let n = s.config.peers.len() as int;
    let k = config_lines(s.config);
    let l = config_lines(t.config);
    if !has_peer(s.config.peers, uri) {
        let goal = k.update(6, "peers: "@ + decimal((n + 1) as nat)).insert(
            7 + n,
            "  "@ + decimal((n + 1) as nat) + ": "@ + uri,
        );
        assert forall|i: int| 0 <= i < l.len() implies #[trigger] l[i] == goal[i] by {
            if 7 <= i < 7 + n {
                assert(l[i] == l[7 + (i - 7)]);
                assert(k[i] == k[7 + (i - 7)]);
            } else if i == 7 + n {
                assert(l[i] == l[7 + n]);
            } else if i > 8 + n {
                let j = i - 9 - n;
                assert(l[i] == l[8 + (n + 1) + j]);
                assert(k[i - 1] == k[8 + n + j]);
            }
        }
        assert(l =~= goal);
    }
}

/// A network that is added stands at the end of the networks that `config show`
/// shows, which are one more; one that is listed already changes nothing. Nothing
/// else changes.
pub proof fn added_network_is_shown(s: RuntimeView, cidr: Seq<char>, network: NetworkView)
    requires
        network_form(cidr) == Some(network),
        showable(s.config),
        showable(state_after(s, CommandView::ConfigNetworksAdd { cidr }).config),
    ensures
        ({
            let before = shown(s);
            let after = shown(state_after(s, CommandView::ConfigNetworksAdd { cidr }));
            let n = s.config.peers.len();
            let m = s.config.networks.len();
            let line = "  "@ + decimal(m + 1) + ": "@ + network.cidr + (match network.mapped_cidr {
                Some(mapped) => "->"@ + mapped,
                None => Seq::empty(),
            });
            &&& s.config.networks.contains(network) ==> after == before
            &&& !s.config.networks.contains(network) ==> after == before.update(
                7 + n as int,
                "networks: "@ + decimal(m + 1),
            ).push(line)
        }),
{
    let t = state_after(s, CommandView::ConfigNetworksAdd { cidr });
    shown_is_the_lines(s);
    shown_is_the_lines(t);
    each_value_has_its_line(s.config);
    each_value_has_its_line(t.config);
    let n = s.config.peers.len() as int;
    let m = s.config.networks.len() as int;
    let k = config_lines(s.config);
    let l = config_lines(t.config);
    if !s.config.networks.contains(network) {
        let goal = k.update(7 + n, "networks: "@ + decimal((m + 1) as nat)).push(l[8 + n + m]);
        assert forall|i: int| 0 <= i < l.len() implies #[trigger] l[i] == goal[i] by {
            if 7 <= i < 7 + n {
                assert(l[i] == l[7 + (i - 7)]);
                assert(k[i] == k[7 + (i - 7)]);
            } else if 8 + n <= i < 8 + n + m {
                let j = i - 8 - n;
                assert(l[i] == l[8 + n + j]);
                assert(k[i] == k[8 + n + j]);
            }
        }
        assert(l =~= goal);
    }
}

/// `clear` leaves no peers, and no networks, and touches nothing else.
pub proof fn cleared_lists_are_empty(s: RuntimeView)
    ensures
        ({
            let p = state_after(s, CommandView::ConfigPeersClear);
            let n = state_after(s, CommandView::ConfigNetworksClear);
            &&& p.config.peers.len() == 0
            &&& p == (RuntimeView { config: ConfigView { peers: p.config.peers, ..s.config }, ..s })
            &&& n.config.networks.len() == 0
            &&& n == (RuntimeView {
                config: ConfigView { networks: n.config.networks, ..s.config },
                ..s
            })
        }),
{
}

/// A command that changes the configuration is answered `OK`, or names the text
/// that is no address, URL or range.
pub proof fn settings_are_answered(s: RuntimeView, text: Seq<char>)
    ensures
        ({
            let set4 = command_outcome(s, CommandView::ConfigSetIpv4 { cidr: Some(text) });
            let set6 = command_outcome(s, CommandView::ConfigSetIpv6 { cidr: Some(text) });
            let add = command_outcome(s, CommandView::ConfigPeersAdd { url: text });
            let remove = command_outcome(s, CommandView::ConfigPeersRemove { url: text });
            let offer = command_outcome(s, CommandView::ConfigNetworksAdd { cidr: text });
            let withdraw = command_outcome(s, CommandView::ConfigNetworksRemove { cidr: text });
            &&& ipv4_inet_form(text) is Some ==> set4 == printed("OK"@)
            &&& ipv4_inet_form(text) is None ==> set4 == Err::<RouterStepView, Seq<char>>(
                "invalid ipv4 cidr: "@ + text,
            )
            &&& ipv6_inet_form(text) is Some ==> set6 == printed("OK"@)
            &&& ipv6_inet_form(text) is None ==> set6 == Err::<RouterStepView, Seq<char>>(
                "invalid ipv6 cidr: "@ + text,
            )
            &&& url_form(text) is Some ==> add == printed("OK"@) && remove == printed("OK"@)
            &&& url_form(text) is None ==> add == Err::<RouterStepView, Seq<char>>(
                "invalid peer url: "@ + text,
            ) && remove == add
            &&& network_form(text) is Some ==> offer == printed("OK"@)
            &&& network_form(text) is None ==> offer == Err::<RouterStepView, Seq<char>>(
                "invalid CIDR: "@ + text,
            )
            &&& ipv4_cidr_form(text) is Some ==> withdraw == printed("OK"@)
            &&& ipv4_cidr_form(text) is None ==> withdraw == Err::<RouterStepView, Seq<char>>(
                "invalid CIDR: "@ + text,
            )
        }),
{
}

/// Only `exit` and `quit` end the shell, and only a command of the network or a
/// read-only one asks for more than a text to be printed.
pub proof fn only_exit_ends_the_shell(s: RuntimeView, c: CommandView)
    ensures
        command_outcome(s, c) matches Ok(RouterStepView::Done { should_exit, .. }) ==> (should_exit
            <==> c is Exit),
        c is Exit ==> command_outcome(s, c) is Ok && command_outcome(s, c)->Ok_0 is Done,
        command_outcome(s, c) matches Ok(RouterStepView::Start(_)) ==> c is StartNetwork
            && s.instance_id is None,
        c is StartNetwork && s.instance_id is None ==> command_outcome(s, c)->Ok_0 is Start,
        command_outcome(s, c) matches Ok(RouterStepView::DeleteInstance(id)) ==> c is StopNetwork
            && s.instance_id == Some(id),
        c is StopNetwork && s.instance_id is Some ==> command_outcome(s, c)->Ok_0 is DeleteInstance,
        command_outcome(s, c) matches Ok(RouterStepView::Call { .. }) ==> c is ReadOnlyMgmt,
{
}

/// Once the portal is up, a read-only command is a call to it, at its own port,
/// where there is such a command.
pub proof fn read_only_commands_call_the_portal(s: RuntimeView, addr: RpcAddr, w: Seq<Seq<char>>)
    requires
        s.rpc_addr == Some(addr),
    ensures
        method_of(w) matches Ok(method) ==> command_outcome(
            s,
            CommandView::ReadOnlyMgmt { words: w },
        ) == Ok::<RouterStepView, Seq<char>>(
            RouterStepView::Call {
                url: "tcp://"@ + "127.0.0.1:"@ + decimal(addr.port as nat),
                method,
            },
        ),
        method_of(w) matches Err(e) ==> command_outcome(s, CommandView::ReadOnlyMgmt { words: w })
            == Err::<RouterStepView, Seq<char>>(e),
{
    assert(loopback_url(addr.port) =~= "tcp://"@ + "127.0.0.1:"@ + decimal(addr.port as nat));
}

/// `status` says first whether the network runs, and ends with what `config show`
/// shows; in between stand the instance and the address of the portal, as far as
/// there are any, and an empty line.
pub proof fn status_ends_with_the_config(s: RuntimeView)
    requires
        showable(s.config),
    ensures
        command_outcome(s, CommandView::Status) matches Ok(
            RouterStepView::Done { output, should_exit: false },
        ) && {
            let l = lines_of(output);
            let id = if s.instance_id is Some {
                1int
            } else {
                0
            };
            let addr = if s.rpc_addr is Some {
                1int
            } else {
                0
            };
            &&& l[0] == "network-running: "@ + (if s.instance_id is Some {
                "true"@
            } else {
                "false"@
            })
            &&& s.instance_id matches Some(i) ==> l[1] == "instance-id: "@ + uuid_form(i)
            &&& s.rpc_addr matches Some(a) ==> l[1 + id] == "rpc-addr: "@ + "127.0.0.1:"@ + decimal(
                a.port as nat,
            )
            &&& l[1 + id + addr].len() == 0
            &&& l.skip(2 + id + addr) == shown(s)
        },
{
    shown_is_the_lines(s);
    shown_status_has_the_lines(s);
}

/// An empty line and the end of the shell print nothing, a stop of a network that
/// does not run says so, and a start of one that runs too; whatever they print,
/// they change nothing then.
pub proof fn idle_commands_are_answered(s: RuntimeView)
    ensures
        command_outcome(s, CommandView::Noop) matches Ok(RouterStepView::Done { output, .. })
            && output.len() == 0,
        command_outcome(s, CommandView::Exit) matches Ok(RouterStepView::Done { output, .. })
            && output.len() == 0,
        command_outcome(s, CommandView::Help) == printed(joined(help_lines(), "\n"@)),
        s.instance_id is None ==> command_outcome(s, CommandView::StopNetwork) == printed(
            "network is not started"@,
        ) && state_after(s, CommandView::StopNetwork) == s,
        s.instance_id is Some ==> command_outcome(s, CommandView::StartNetwork) == printed(
            "network already started"@,
        ) && state_after(s, CommandView::StartNetwork) == s,
{
}

} // verus!
