//! The ADD, DEL and CHECK commands as state machines: each step takes what
//! the last driver call or write answered and says what to do next, with
//! every argument of the next driver call.

use vstd::prelude::*;

use crate::cni::{CniConfig, CniContext};
use crate::command_dispatcher::{
    add_input_problem, arg_text, check_input_problem, del_input_problem, del_warning, is_general, named_master,
    CommandContext,
};
use crate::driver::{Ipv6Subnet, NetworkDriver};
use crate::error::{CniError, CniResult, CommandError};
use crate::orchestrator::{add_result_json, success_json, chosen_cidr, is_temporary_name, planned_cidr, CniOrchestrator};
use crate::utils::{cidr_text, in_subnet, invalid_cidr_message, ipv6_net_syntax, ipv6_string, ipv6_text};

verus! {

/// One call of a network driver, with its arguments.
#[derive(Debug)]
pub enum DriverCall {
    DetectUpstreamInterface,
    CheckInterface { ifname: String },
    GetInterfaceSubnet { ifname: String },
    GetInterfaceGateway { ifname: String },
    CreateIpvlan { parent: String, mode: String, temp_name: String },
    SetNetns { ifname: String, netns_path: String },
    DeleteInterface { ifname: String },
    ConfigureInNetns {
        netns_path: String,
        temp_ifname: String,
        target_ifname: String,
        ip_cidr: String,
        gateway: Option<u128>,
    },
    DeleteInterfaceInNetns { netns_path: String, ifname: String },
    InterfaceExistsInNetns { netns_path: String, ifname: String },
    NetnsExists { netns_path: String },
}

/// A driver call with its arguments as text.
pub enum CallSpec {
    DetectUpstreamInterface,
    CheckInterface(Seq<char>),
    GetInterfaceSubnet(Seq<char>),
    GetInterfaceGateway(Seq<char>),
    CreateIpvlan(Seq<char>, Seq<char>, Seq<char>),
    SetNetns(Seq<char>, Seq<char>),
    DeleteInterface(Seq<char>),
    ConfigureInNetns(Seq<char>, Seq<char>, Seq<char>, Seq<char>, Option<u128>),
    DeleteInterfaceInNetns(Seq<char>, Seq<char>),
    InterfaceExistsInNetns(Seq<char>, Seq<char>),
    NetnsExists(Seq<char>),
}

impl DriverCall {
    /// The call with its arguments as text.
    pub open spec fn spec(&self) -> CallSpec {
        match self {
            DriverCall::DetectUpstreamInterface => CallSpec::DetectUpstreamInterface,
            DriverCall::CheckInterface { ifname } => CallSpec::CheckInterface(ifname@),
            DriverCall::GetInterfaceSubnet { ifname } => CallSpec::GetInterfaceSubnet(ifname@),
            DriverCall::GetInterfaceGateway { ifname } => CallSpec::GetInterfaceGateway(ifname@),
            DriverCall::CreateIpvlan { parent, mode, temp_name } => CallSpec::CreateIpvlan(parent@, mode@, temp_name@),
            DriverCall::SetNetns { ifname, netns_path } => CallSpec::SetNetns(ifname@, netns_path@),
            DriverCall::DeleteInterface { ifname } => CallSpec::DeleteInterface(ifname@),
            DriverCall::ConfigureInNetns { netns_path, temp_ifname, target_ifname, ip_cidr, gateway } =>
                CallSpec::ConfigureInNetns(netns_path@, temp_ifname@, target_ifname@, ip_cidr@, *gateway),
            DriverCall::DeleteInterfaceInNetns { netns_path, ifname } =>
                CallSpec::DeleteInterfaceInNetns(netns_path@, ifname@),
            DriverCall::InterfaceExistsInNetns { netns_path, ifname } =>
                CallSpec::InterfaceExistsInNetns(netns_path@, ifname@),
            DriverCall::NetnsExists { netns_path } => CallSpec::NetnsExists(netns_path@),
        }
    }
}

/// What the last driver call or write answered; `Start` before the first step.
#[derive(Debug)]
pub enum Event {
    Start,
    Done(Result<(), String>),
    Name(Result<String, String>),
    Subnet(Result<Ipv6Subnet, String>),
    Gateway(Result<Option<u128>, String>),
    Exists(Result<bool, String>),
    Present(bool),
}

/// What a command does next.
#[derive(Debug)]
pub enum CommandStep {
    /// Call the driver; its answer is the next event.
    Call(DriverCall),
    /// Write a line to the output; whether it was written is the next event.
    WriteOutput(String),
    /// Write a line to the error output; whether it was written is the next event.
    WriteError(String),
    /// The command is over with this result.
    Finish(CniResult<()>),
}

/// The step calls the driver so.
pub open spec fn calls(step: CommandStep, c: CallSpec) -> bool {
    step matches CommandStep::Call(d) && d.spec() == c
}

/// The step writes `line` to the output.
pub open spec fn writes_output(step: CommandStep, line: Seq<char>) -> bool {
    step matches CommandStep::WriteOutput(s) && s@ == line
}

/// The step writes `line` to the error output.
pub open spec fn writes_error(step: CommandStep, line: Seq<char>) -> bool {
    step matches CommandStep::WriteError(s) && s@ == line
}

/// The step ends the command successfully.
pub open spec fn finishes_ok(step: CommandStep) -> bool {
    step matches CommandStep::Finish(Ok(_))
}

/// The step ends the command with the general error of `msg`.
pub open spec fn finishes_general(step: CommandStep, msg: Seq<char>) -> bool {
    step matches CommandStep::Finish(Err(e)) && is_general(e, msg)
}

/// The step ends the command.
pub open spec fn finishes(step: CommandStep) -> bool {
    step is Finish
}

/// The message of an answer of the wrong kind, which a runner never gives.
pub open spec fn unexpected_text() -> Seq<char> {
    "Unexpected answer to a driver call"@
}

/// The answer `e` is of the kind that the call `c` gives.
pub open spec fn answers(c: CallSpec, e: Event) -> bool {
    match c {
        CallSpec::DetectUpstreamInterface => e is Name,
        CallSpec::GetInterfaceSubnet(_) => e is Subnet,
        CallSpec::GetInterfaceGateway(_) => e is Gateway,
        CallSpec::InterfaceExistsInNetns(_, _) => e is Exists,
        CallSpec::NetnsExists(_) => e is Present,
        _ => e is Done,
    }
}

/// The answer `e` is of the kind that `step` gets: the driver's answer to
/// a call, whether a line was written; a finishing step gets none.
pub open spec fn step_answered(step: CommandStep, e: Event) -> bool {
    match step {
        CommandStep::Call(c) => answers(c.spec(), e),
        CommandStep::WriteOutput(_) => e is Done,
        CommandStep::WriteError(_) => e is Done,
        CommandStep::Finish(_) => false,
    }
}

/// The answer on which the step at `i` of a log was taken: `Start` for the
/// first, else the answer to the step before it.
pub open spec fn answer_before(log: Seq<(CommandStep, Event)>, i: int) -> Event {
    if i == 0 {
        Event::Start
    } else {
        log[i - 1].1
    }
}

/// Makes the driver call `call` and hands back its answer.
pub fn perform<D: NetworkDriver>(driver: &D, call: &DriverCall) -> (e: Event)
    ensures
        answers(call.spec(), e),
{
    match call {
        DriverCall::DetectUpstreamInterface => Event::Name(driver.detect_upstream_interface()),
        DriverCall::CheckInterface { ifname } => Event::Done(driver.check_interface(ifname.as_str())),
        DriverCall::GetInterfaceSubnet { ifname } => Event::Subnet(driver.get_interface_subnet(ifname.as_str())),
        DriverCall::GetInterfaceGateway { ifname } => Event::Gateway(driver.get_interface_gateway(ifname.as_str())),
        DriverCall::CreateIpvlan { parent, mode, temp_name } => Event::Done(
            driver.create_ipvlan(parent.as_str(), mode.as_str(), temp_name.as_str()),
        ),
        DriverCall::SetNetns { ifname, netns_path } => Event::Done(driver.set_netns(ifname.as_str(), netns_path.as_str())),
        DriverCall::DeleteInterface { ifname } => Event::Done(driver.delete_interface(ifname.as_str())),
        DriverCall::ConfigureInNetns { netns_path, temp_ifname, target_ifname, ip_cidr, gateway } => Event::Done(
            driver.configure_in_netns(
                netns_path.as_str(),
                temp_ifname.as_str(),
                target_ifname.as_str(),
                ip_cidr.as_str(),
                *gateway,
            ),
        ),
        DriverCall::DeleteInterfaceInNetns { netns_path, ifname } => Event::Done(
            driver.delete_interface_in_netns(netns_path.as_str(), ifname.as_str()),
        ),
        DriverCall::InterfaceExistsInNetns { netns_path, ifname } => Event::Exists(
            driver.interface_exists_in_netns(netns_path.as_str(), ifname.as_str()),
        ),
        DriverCall::NetnsExists { netns_path } => Event::Present(driver.netns_exists(netns_path.as_str())),
    }
}

fn general_step(msg: String) -> (s: CommandStep)
    ensures
        finishes_general(s, msg@),
{
    CommandStep::Finish(Err(CniError::general(msg)))
}

fn unexpected_step() -> (s: CommandStep)
    ensures
        finishes_general(s, unexpected_text()),
{
    general_step(String::from_str("Unexpected answer to a driver call"))
}

/// The master interface named by the arguments or the configuration.
fn named_master_of(ctx: &CommandContext) -> (r: Option<String>)
    ensures
        match named_master(ctx.args, ctx.cni) {
            Some(m) => r matches Some(s) && s@ == m,
            None => r is None,
        },
{
    match &ctx.args.interface {
        Some(i) => Some(i.clone()),
        None => match &ctx.cni.config {
            Some(c) => match &c.master {
                Some(m) => Some(m.clone()),
                None => None,
            },
            None => None,
        },
    }
}

// ---------------------------------------------------------------- ADD

/// Where an ADD stands: which driver call or write it waits on.
#[derive(Debug)]
pub enum AddState {
    Start,
    /// The upstream interface is being detected.
    Detecting,
    /// The master interface is being checked.
    Checking { master: String },
    /// The subnet of the master interface is being read.
    ReadingSubnet { master: String },
    /// The gateway of the master interface is being read.
    ReadingGateway { master: String, subnet: Option<(String, u8)> },
    /// The temporary ipvlan interface is being created.
    Creating { temp: String, target_ip: String, gateway: Option<u128> },
    /// The temporary interface is being moved into the namespace.
    Moving { temp: String, target_ip: String, gateway: Option<u128> },
    /// The temporary interface is being deleted after a failed move.
    CleaningUp { error: String },
    /// The interface is being configured inside the namespace.
    Configuring { temp: String, target_ip: String, gateway: Option<u128> },
    /// The result for `target_ip` is being written.
    Writing { target_ip: String },
    Done,
}

/// How far an ADD is from its end.
pub open spec fn add_rank(s: AddState) -> nat {
    match s {
        AddState::Start => 10,
        AddState::Detecting => 9,
        AddState::Checking { .. } => 8,
        AddState::ReadingSubnet { .. } => 7,
        AddState::ReadingGateway { .. } => 6,
        AddState::Creating { .. } => 5,
        AddState::Moving { .. } => 4,
        AddState::CleaningUp { .. } => 3,
        AddState::Configuring { .. } => 2,
        AddState::Writing { .. } => 1,
        AddState::Done => 0,
    }
}

/// The master interface needs its subnet read: neither the arguments nor
/// the configuration give a pod CIDR.
pub open spec fn needs_subnet(ctx: CommandContext, config: CniConfig) -> bool {
    ctx.args.pod_cidr is None && config.pod_cidr is None
}

/// The subnet that was read, as text.
pub open spec fn subnet_view(s: Option<(String, u8)>) -> Option<(Seq<char>, u8)> {
    match s {
        Some(p) => Some((p.0@, p.1)),
        None => None,
    }
}

/// The gateway an answer gives: none where the driver failed to read one.
pub open spec fn gateway_of(g: Result<Option<u128>, String>) -> Option<u128> {
    match g {
        Ok(x) => x,
        Err(_) => None,
    }
}

/// One step of an ADD, given the context, where it stands and the last
/// answer: the next state and what to do.
///
/// In order: detect the upstream interface where no master is named,
/// check the master, read its subnet where no pod CIDR is given, read its
/// gateway (a failure reads as none), plan the address and the temporary
/// name, create the ipvlan interface in mode `l2` on the master, move it
/// into the namespace (deleting it again where that fails), configure it
/// with the planned address and the gateway, and write the result. A
/// failure ends the command with its message as a general error.
pub open spec fn add_next(ctx: CommandContext, state: AddState, event: Event, next: AddState, step: CommandStep) -> bool {
    match add_input_problem(ctx.cni) {
        Some(m) => finishes_general(step, m) && next is Done,
        None => {
            let config = ctx.cni.config->0;
            let netns = ctx.cni.environment.netns->0@;
            let ifname = ctx.cni.environment.ifname->0@;
            let cli = arg_text(ctx.args.pod_cidr);
            match state {
                AddState::Start => match named_master(ctx.args, ctx.cni) {
                    Some(m) => next matches AddState::Checking { master } && master@ == m
                        && calls(step, CallSpec::CheckInterface(m)),
                    None => next is Detecting && calls(step, CallSpec::DetectUpstreamInterface),
                },
                AddState::Detecting => match event {
                    Event::Name(Ok(n)) => next matches AddState::Checking { master } && master@ == n@
                        && calls(step, CallSpec::CheckInterface(n@)),
                    Event::Name(Err(e)) => finishes_general(step, e@) && next is Done,
                    _ => finishes_general(step, unexpected_text()) && next is Done,
                },
                AddState::Checking { master } => match event {
                    Event::Done(Ok(_)) => if needs_subnet(ctx, config) {
                        next matches AddState::ReadingSubnet { master: m } && m@ == master@
                            && calls(step, CallSpec::GetInterfaceSubnet(master@))
                    } else {
                        next matches AddState::ReadingGateway { master: m, subnet } && m@ == master@ && subnet is None
                            && calls(step, CallSpec::GetInterfaceGateway(master@))
                    },
                    Event::Done(Err(e)) => finishes_general(step, e@) && next is Done,
                    _ => finishes_general(step, unexpected_text()) && next is Done,
                },
                AddState::ReadingSubnet { master } => match event {
                    Event::Subnet(Ok(s)) => next matches AddState::ReadingGateway { master: m, subnet }
                        && m@ == master@ && subnet_view(subnet) == Some((ipv6_text(s.address), s.prefix_length))
                        && calls(step, CallSpec::GetInterfaceGateway(master@)),
                    Event::Subnet(Err(e)) => finishes_general(step, e@) && next is Done,
                    _ => finishes_general(step, unexpected_text()) && next is Done,
                },
                AddState::ReadingGateway { master, subnet } => match event {
                    Event::Gateway(g) => match chosen_cidr(config, cli, subnet_view(subnet)) {
                        None => finishes_general(step, "No pod CIDR specified in config, CLI args, or master interface"@)
                            && next is Done,
                        Some(c) => match ipv6_net_syntax(c) {
                            None => finishes_general(step, invalid_cidr_message(c)) && next is Done,
                            Some(net) => next matches AddState::Creating { temp, target_ip, gateway }
                                && gateway == gateway_of(g) && is_temporary_name(temp@)
                                && (exists|a: u128| #[trigger] in_subnet(net.0, net.1, a) && target_ip@ == cidr_text(a, net.1))
                                && calls(step, CallSpec::CreateIpvlan(master@, "l2"@, temp@)),
                        },
                    },
                    _ => finishes_general(step, unexpected_text()) && next is Done,
                },
                AddState::Creating { temp, target_ip, gateway } => match event {
                    Event::Done(Ok(_)) => next matches AddState::Moving { temp: t, target_ip: ip, gateway: gw }
                        && t@ == temp@ && ip@ == target_ip@ && gw == gateway
                        && calls(step, CallSpec::SetNetns(temp@, netns)),
                    Event::Done(Err(e)) => finishes_general(step, e@) && next is Done,
                    _ => finishes_general(step, unexpected_text()) && next is Done,
                },
                AddState::Moving { temp, target_ip, gateway } => match event {
                    Event::Done(Ok(_)) => next matches AddState::Configuring { temp: t, target_ip: ip, gateway: gw }
                        && t@ == temp@ && ip@ == target_ip@ && gw == gateway
                        && calls(step, CallSpec::ConfigureInNetns(netns, temp@, ifname, target_ip@, gateway)),
                    Event::Done(Err(e)) => next matches AddState::CleaningUp { error } && error@ == e@
                        && calls(step, CallSpec::DeleteInterface(temp@)),
                    _ => finishes_general(step, unexpected_text()) && next is Done,
                },
                AddState::CleaningUp { error } => match event {
                    Event::Done(_) => finishes_general(step, error@) && next is Done,
                    _ => finishes_general(step, unexpected_text()) && next is Done,
                },
                AddState::Configuring { temp, target_ip, gateway } => match event {
                    Event::Done(Ok(_)) => next matches AddState::Writing { target_ip: ip } && ip@ == target_ip@
                        && writes_output(step, add_result_json(config, ifname, target_ip@, netns)),
                    Event::Done(Err(e)) => finishes_general(step, e@) && next is Done,
                    _ => finishes_general(step, unexpected_text()) && next is Done,
                },
                AddState::Writing { .. } => match event {
                    Event::Done(Ok(_)) => finishes_ok(step) && next is Done,
                    Event::Done(Err(e)) => finishes_general(step, e@) && next is Done,
                    _ => finishes_general(step, unexpected_text()) && next is Done,
                },
                AddState::Done => finishes_general(step, unexpected_text()) && next is Done,
            }
        },
    }
}

/// `log` is a run of the ADD machine through `states`: from the start,
/// each logged step is the one `add_next` gives on the answer before it,
/// with an answer of its kind, and the step after the last is `Finish(r)`.
pub open spec fn add_run_along(
    ctx: CommandContext,
    log: Seq<(CommandStep, Event)>,
    states: Seq<AddState>,
    r: CniResult<()>,
) -> bool {
    &&& states.len() == log.len() + 2
    &&& states[0] == AddState::Start
    &&& forall|i: int|
        #![trigger log[i]]
        0 <= i < log.len() ==> add_next(ctx, states[i], answer_before(log, i), states[i + 1], log[i].0)
            && step_answered(log[i].0, log[i].1)
    &&& add_next(ctx, states[log.len() as int], answer_before(log, log.len() as int), states[log.len() + 1int], CommandStep::Finish(r))
}

/// `log` holds the driver calls and writes of an ADD in order, each with
/// its answer, and `r` is what the ADD machine ends with after them.
pub open spec fn add_run(ctx: CommandContext, log: Seq<(CommandStep, Event)>, r: CniResult<()>) -> bool {
    exists|states: Seq<AddState>| add_run_along(ctx, log, states, r)
}

/// The inputs of an ADD: configuration, namespace and interface name.
fn add_inputs(ctx: &CommandContext) -> (r: Result<(&CniConfig, &str, &str), CniError>)
    ensures
        match add_input_problem(ctx.cni) {
            Some(m) => r matches Err(e) && is_general(e, m),
            None => r matches Ok(t) && ctx.cni.config == Some(*t.0) && t.1@ == ctx.cni.environment.netns->0@
                && t.2@ == ctx.cni.environment.ifname->0@,
        },
{
    let config = match &ctx.cni.config {
        Some(c) => c,
        None => {
            return Err(CniError::general(String::from_str("Missing CNI configuration on stdin")));
        },
    };
    let netns = match ctx.cni.environment.get_netns() {
        Ok(s) => s,
        Err(e) => {
            return Err(CniError::general(e));
        },
    };
    let ifname = match ctx.cni.environment.get_ifname() {
        Ok(s) => s,
        Err(e) => {
            return Err(CniError::general(e));
        },
    };
    Ok((config, netns, ifname))
}

/// One step of an ADD (see `add_next`).
pub fn add_step(ctx: &CommandContext, state: AddState, event: Event) -> (r: (AddState, CommandStep))
    ensures
        add_next(*ctx, state, event, r.0, r.1),
        !finishes(r.1) ==> add_rank(r.0) < add_rank(state),
{
    let (config, netns, ifname) = match add_inputs(ctx) {
        Ok(t) => t,
        Err(e) => {
            return (AddState::Done, CommandStep::Finish(Err(e)));
        },
    };
    match state {
        AddState::Start => match named_master_of(ctx) {
            Some(m) => {
                let call = DriverCall::CheckInterface { ifname: m.clone() };
                (AddState::Checking { master: m }, CommandStep::Call(call))
            },
            None => (AddState::Detecting, CommandStep::Call(DriverCall::DetectUpstreamInterface)),
        },
        AddState::Detecting => match event {
            Event::Name(Ok(n)) => {
                let call = DriverCall::CheckInterface { ifname: n.clone() };
                (AddState::Checking { master: n }, CommandStep::Call(call))
            },
            Event::Name(Err(e)) => (AddState::Done, general_step(e)),
            _ => (AddState::Done, unexpected_step()),
        },
        AddState::Checking { master } => match event {
            Event::Done(Ok(_)) => {
                if ctx.args.pod_cidr.is_none() && config.pod_cidr.is_none() {
                    let call = DriverCall::GetInterfaceSubnet { ifname: master.clone() };
                    (AddState::ReadingSubnet { master }, CommandStep::Call(call))
                } else {
                    let call = DriverCall::GetInterfaceGateway { ifname: master.clone() };
                    (AddState::ReadingGateway { master, subnet: None }, CommandStep::Call(call))
                }
            },
            Event::Done(Err(e)) => (AddState::Done, general_step(e)),
            _ => (AddState::Done, unexpected_step()),
        },
        AddState::ReadingSubnet { master } => match event {
            Event::Subnet(Ok(s)) => {
                let call = DriverCall::GetInterfaceGateway { ifname: master.clone() };
                let subnet = Some((ipv6_string(s.address), s.prefix_length));
                (AddState::ReadingGateway { master, subnet }, CommandStep::Call(call))
            },
            Event::Subnet(Err(e)) => (AddState::Done, general_step(e)),
            _ => (AddState::Done, unexpected_step()),
        },
        AddState::ReadingGateway { master, subnet } => match event {
            Event::Gateway(g) => {
                let gateway = match g {
                    Ok(x) => x,
                    Err(_) => None,
                };
                let cli_pod_cidr: Option<&str> = match &ctx.args.pod_cidr {
                    Some(c) => Some(c.as_str()),
                    None => None,
                };
                let ghost planned = planned_cidr(*config, cli_pod_cidr, &subnet);
                match CniOrchestrator::plan_add_operation(config, cli_pod_cidr, master.as_str(), ifname, subnet, gateway) {
                    Ok(nc) => {
                        let call = DriverCall::CreateIpvlan {
                            parent: master,
                            mode: String::from_str("l2"),
                            temp_name: nc.temporary_name.clone(),
                        };
                        proof {
                            reveal_strlit("l2");
                        }
                        (
                            AddState::Creating { temp: nc.temporary_name, target_ip: nc.target_ip, gateway: nc.gateway },
                            CommandStep::Call(call),
                        )
                    },
                    Err(e) => (AddState::Done, general_step(e)),
                }
            },
            _ => (AddState::Done, unexpected_step()),
        },
        AddState::Creating { temp, target_ip, gateway } => match event {
            Event::Done(Ok(_)) => {
                let call = DriverCall::SetNetns { ifname: temp.clone(), netns_path: String::from_str(netns) };
                (AddState::Moving { temp, target_ip, gateway }, CommandStep::Call(call))
            },
            Event::Done(Err(e)) => (AddState::Done, general_step(e)),
            _ => (AddState::Done, unexpected_step()),
        },
        AddState::Moving { temp, target_ip, gateway } => match event {
            Event::Done(Ok(_)) => {
                let call = DriverCall::ConfigureInNetns {
                    netns_path: String::from_str(netns),
                    temp_ifname: temp.clone(),
                    target_ifname: String::from_str(ifname),
                    ip_cidr: target_ip.clone(),
                    gateway,
                };
                (AddState::Configuring { temp, target_ip, gateway }, CommandStep::Call(call))
            },
            Event::Done(Err(e)) => {
                let call = DriverCall::DeleteInterface { ifname: temp };
                (AddState::CleaningUp { error: e }, CommandStep::Call(call))
            },
            _ => (AddState::Done, unexpected_step()),
        },
        AddState::CleaningUp { error } => match event {
            Event::Done(_) => (AddState::Done, general_step(error)),
            _ => (AddState::Done, unexpected_step()),
        },
        AddState::Configuring { temp, target_ip, gateway } => match event {
            Event::Done(Ok(_)) => {
                let network_config = crate::orchestrator::NetworkConfiguration {
                    interface_name: String::from_str(ifname),
                    target_ip: target_ip.clone(),
                    gateway,
                    master_interface: String::new(),
                    temporary_name: temp,
                };
                let result = CniOrchestrator::create_add_result(config, &network_config, netns);
                let line = result.to_json_string();
                (AddState::Writing { target_ip }, CommandStep::WriteOutput(line))
            },
            Event::Done(Err(e)) => (AddState::Done, general_step(e)),
            _ => (AddState::Done, unexpected_step()),
        },
        AddState::Writing { .. } => match event {
            Event::Done(Ok(_)) => (AddState::Done, CommandStep::Finish(Ok(()))),
            Event::Done(Err(e)) => (AddState::Done, general_step(e)),
            _ => (AddState::Done, unexpected_step()),
        },
        AddState::Done => (AddState::Done, unexpected_step()),
    }
}

// ---------------------------------------------------------------- DEL

/// Where a DEL stands.
#[derive(Debug)]
pub enum DelState {
    Start,
    /// Whether the namespace still exists is being asked.
    Probing,
    /// The interface is being deleted inside the namespace.
    Deleting,
    /// The warning about a failed delete is being written.
    Warning,
    Done,
}

/// How far a DEL is from its end.
pub open spec fn del_rank(s: DelState) -> nat {
    match s {
        DelState::Start => 4,
        DelState::Probing => 3,
        DelState::Deleting => 2,
        DelState::Warning => 1,
        DelState::Done => 0,
    }
}

/// One step of a DEL: outside a dry run, ask whether the namespace exists
/// and end successfully where it does not; delete the interface inside the
/// namespace; where that fails, write a warning and still succeed.
pub open spec fn del_next(ctx: CommandContext, state: DelState, event: Event, next: DelState, step: CommandStep) -> bool {
    match del_input_problem(ctx.cni) {
        Some(m) => finishes_general(step, m) && next is Done,
        None => {
            let netns = ctx.cni.environment.netns->0@;
            let ifname = ctx.cni.environment.ifname->0@;
            match state {
                DelState::Start => if ctx.cni.is_dry_run {
                    next is Deleting && calls(step, CallSpec::DeleteInterfaceInNetns(netns, ifname))
                } else {
                    next is Probing && calls(step, CallSpec::NetnsExists(netns))
                },
                DelState::Probing => match event {
                    Event::Present(b) => if ctx.cni.is_dry_run || b {
                        next is Deleting && calls(step, CallSpec::DeleteInterfaceInNetns(netns, ifname))
                    } else {
                        finishes_ok(step) && next is Done
                    },
                    _ => finishes_general(step, unexpected_text()) && next is Done,
                },
                DelState::Deleting => match event {
                    Event::Done(Ok(_)) => finishes_ok(step) && next is Done,
                    Event::Done(Err(e)) => next is Warning && writes_error(step, del_warning(e@)),
                    _ => finishes_general(step, unexpected_text()) && next is Done,
                },
                DelState::Warning => match event {
                    Event::Done(Ok(_)) => finishes_ok(step) && next is Done,
                    Event::Done(Err(e)) => finishes_general(step, e@) && next is Done,
                    _ => finishes_general(step, unexpected_text()) && next is Done,
                },
                DelState::Done => finishes_general(step, unexpected_text()) && next is Done,
            }
        },
    }
}

/// `log` is a run of the DEL machine through `states` (see `add_run_along`).
pub open spec fn del_run_along(
    ctx: CommandContext,
    log: Seq<(CommandStep, Event)>,
    states: Seq<DelState>,
    r: CniResult<()>,
) -> bool {
    &&& states.len() == log.len() + 2
    &&& states[0] == DelState::Start
    &&& forall|i: int|
        #![trigger log[i]]
        0 <= i < log.len() ==> del_next(ctx, states[i], answer_before(log, i), states[i + 1], log[i].0)
            && step_answered(log[i].0, log[i].1)
    &&& del_next(ctx, states[log.len() as int], answer_before(log, log.len() as int), states[log.len() + 1int], CommandStep::Finish(r))
}

/// `log` holds the driver calls and writes of a DEL in order, each with
/// its answer, and `r` is what the DEL machine ends with after them.
pub open spec fn del_run(ctx: CommandContext, log: Seq<(CommandStep, Event)>, r: CniResult<()>) -> bool {
    exists|states: Seq<DelState>| del_run_along(ctx, log, states, r)
}

/// The inputs of a DEL: namespace, container id and interface name.
fn del_inputs(ctx: &CommandContext) -> (r: Result<(&str, &str), CniError>)
    ensures
        match del_input_problem(ctx.cni) {
            Some(m) => r matches Err(e) && is_general(e, m),
            None => r matches Ok(t) && t.0@ == ctx.cni.environment.netns->0@ && t.1@ == ctx.cni.environment.ifname->0@,
        },
{
    let netns = match ctx.cni.environment.get_netns() {
        Ok(s) => s,
        Err(e) => {
            return Err(CniError::general(e));
        },
    };
    match ctx.cni.environment.get_container_id() {
        Ok(_) => {},
        Err(e) => {
            return Err(CniError::general(e));
        },
    }
    let ifname = match ctx.cni.environment.get_ifname() {
        Ok(s) => s,
        Err(e) => {
            return Err(CniError::general(e));
        },
    };
    Ok((netns, ifname))
}

/// One step of a DEL (see `del_next`).
pub fn del_step(ctx: &CommandContext, state: DelState, event: Event) -> (r: (DelState, CommandStep))
    ensures
        del_next(*ctx, state, event, r.0, r.1),
        !finishes(r.1) ==> del_rank(r.0) < del_rank(state),
{
    let (netns, ifname) = match del_inputs(ctx) {
        Ok(t) => t,
        Err(e) => {
            return (DelState::Done, CommandStep::Finish(Err(e)));
        },
    };
    let delete = DriverCall::DeleteInterfaceInNetns { netns_path: String::from_str(netns), ifname: String::from_str(ifname) };
    match state {
        DelState::Start => {
            if ctx.cni.is_dry_run {
                (DelState::Deleting, CommandStep::Call(delete))
            } else {
                (DelState::Probing, CommandStep::Call(DriverCall::NetnsExists { netns_path: String::from_str(netns) }))
            }
        },
        DelState::Probing => match event {
            Event::Present(exists) => {
                let netns_exists = ctx.cni.is_dry_run || exists;
                if CniOrchestrator::should_proceed_with_del(netns_exists, ctx.cni.is_dry_run) {
                    (DelState::Deleting, CommandStep::Call(delete))
                } else {
                    (DelState::Done, CommandStep::Finish(Ok(())))
                }
            },
            _ => (DelState::Done, unexpected_step()),
        },
        DelState::Deleting => match event {
            Event::Done(Ok(_)) => (DelState::Done, CommandStep::Finish(Ok(()))),
            Event::Done(Err(e)) => {
                let line = String::from_str("Warning during DEL: ").concat(e.as_str());
                (DelState::Warning, CommandStep::WriteError(line))
            },
            _ => (DelState::Done, unexpected_step()),
        },
        DelState::Warning => match event {
            Event::Done(Ok(_)) => (DelState::Done, CommandStep::Finish(Ok(()))),
            Event::Done(Err(e)) => (DelState::Done, general_step(e)),
            _ => (DelState::Done, unexpected_step()),
        },
        DelState::Done => (DelState::Done, unexpected_step()),
    }
}

// ---------------------------------------------------------------- CHECK

/// Where a CHECK stands.
#[derive(Debug)]
pub enum CheckState {
    Start,
    /// The upstream interface is being detected.
    Detecting,
    /// Whether the namespace exists is being asked.
    ProbingNetns { master: String },
    /// The master interface is being checked.
    CheckingMaster,
    /// The interface inside the namespace is being looked up.
    CheckingTarget,
    Done,
}

/// How far a CHECK is from its end.
pub open spec fn check_rank(s: CheckState) -> nat {
    match s {
        CheckState::Start => 5,
        CheckState::Detecting => 4,
        CheckState::ProbingNetns { .. } => 3,
        CheckState::CheckingMaster => 2,
        CheckState::CheckingTarget => 1,
        CheckState::Done => 0,
    }
}

/// The validation of a CHECK once its master interface `master` is known:
/// a configuration of another version than `1.0.0` is refused; otherwise
/// the namespace is looked for (not in a dry run), then the master is
/// checked.
pub open spec fn check_begin(ctx: CommandContext, master: Seq<char>, next: CheckState, step: CommandStep) -> bool {
    let config = ctx.cni.config->0;
    let netns = ctx.cni.environment.netns->0@;
    if config.cni_version@ != "1.0.0"@ {
        finishes_general(step, "Unsupported CNI version: "@ + config.cni_version@) && next is Done
    } else if ctx.cni.is_dry_run {
        next is CheckingMaster && calls(step, CallSpec::CheckInterface(master))
    } else {
        next matches CheckState::ProbingNetns { master: m } && m@ == master && calls(step, CallSpec::NetnsExists(netns))
    }
}

/// One step of a CHECK: find the master interface (named, else detected),
/// refuse another configuration version, then look for the namespace
/// (outside a dry run; `NetnsNotFound` where it is missing), check the
/// master interface, and look up the interface inside the namespace
/// (`InterfaceNotFound` where it is missing). Nothing is written.
pub open spec fn check_next(ctx: CommandContext, state: CheckState, event: Event, next: CheckState, step: CommandStep) -> bool {
    match check_input_problem(ctx.cni) {
        Some(m) => finishes_general(step, m) && next is Done,
        None => {
            let netns = ctx.cni.environment.netns->0@;
            let ifname = ctx.cni.environment.ifname->0@;
            match state {
                CheckState::Start => match named_master(ctx.args, ctx.cni) {
                    Some(m) => check_begin(ctx, m, next, step),
                    None => next is Detecting && calls(step, CallSpec::DetectUpstreamInterface),
                },
                CheckState::Detecting => match event {
                    Event::Name(Ok(n)) => check_begin(ctx, n@, next, step),
                    Event::Name(Err(e)) => finishes_general(step, e@) && next is Done,
                    _ => finishes_general(step, unexpected_text()) && next is Done,
                },
                CheckState::ProbingNetns { master } => match event {
                    Event::Present(true) => next is CheckingMaster && calls(step, CallSpec::CheckInterface(master@)),
                    Event::Present(false) => step matches CommandStep::Finish(
                        Err(CniError::Command(CommandError::NetnsNotFound { netns: n })),
                    ) && n@ == netns && next is Done,
                    _ => finishes_general(step, unexpected_text()) && next is Done,
                },
                CheckState::CheckingMaster => match event {
                    Event::Done(Ok(_)) => next is CheckingTarget && calls(step, CallSpec::InterfaceExistsInNetns(netns, ifname)),
                    Event::Done(Err(e)) => finishes_general(step, e@) && next is Done,
                    _ => finishes_general(step, unexpected_text()) && next is Done,
                },
                CheckState::CheckingTarget => match event {
                    Event::Exists(Ok(true)) => finishes_ok(step) && next is Done,
                    Event::Exists(Ok(false)) => step matches CommandStep::Finish(
                        Err(CniError::Command(CommandError::InterfaceNotFound { interface: i, netns: n })),
                    ) && i@ == ifname && n@ == netns && next is Done,
                    Event::Exists(Err(e)) => finishes_general(step, e@) && next is Done,
                    _ => finishes_general(step, unexpected_text()) && next is Done,
                },
                CheckState::Done => finishes_general(step, unexpected_text()) && next is Done,
            }
        },
    }
}

/// `log` is a run of the CHECK machine through `states` (see `add_run_along`).
pub open spec fn check_run_along(
    ctx: CommandContext,
    log: Seq<(CommandStep, Event)>,
    states: Seq<CheckState>,
    r: CniResult<()>,
) -> bool {
    &&& states.len() == log.len() + 2
    &&& states[0] == CheckState::Start
    &&& forall|i: int|
        #![trigger log[i]]
        0 <= i < log.len() ==> check_next(ctx, states[i], answer_before(log, i), states[i + 1], log[i].0)
            && step_answered(log[i].0, log[i].1)
    &&& check_next(ctx, states[log.len() as int], answer_before(log, log.len() as int), states[log.len() + 1int], CommandStep::Finish(r))
}

/// `log` holds the driver calls and writes of a CHECK in order, each with
/// its answer, and `r` is what the CHECK machine ends with after them.
pub open spec fn check_run(ctx: CommandContext, log: Seq<(CommandStep, Event)>, r: CniResult<()>) -> bool {
    exists|states: Seq<CheckState>| check_run_along(ctx, log, states, r)
}

/// The inputs of a CHECK: configuration, namespace, container id and interface name.
fn check_inputs(ctx: &CommandContext) -> (r: Result<(&CniConfig, &str, &str), CniError>)
    ensures
        match check_input_problem(ctx.cni) {
            Some(m) => r matches Err(e) && is_general(e, m),
            None => r matches Ok(t) && ctx.cni.config == Some(*t.0) && t.1@ == ctx.cni.environment.netns->0@
                && t.2@ == ctx.cni.environment.ifname->0@,
        },
{
    let config = match &ctx.cni.config {
        Some(c) => c,
        None => {
            return Err(CniError::general(String::from_str("Missing CNI configuration on stdin")));
        },
    };
    let netns = match ctx.cni.environment.get_netns() {
        Ok(s) => s,
        Err(e) => {
            return Err(CniError::general(e));
        },
    };
    match ctx.cni.environment.get_container_id() {
        Ok(_) => {},
        Err(e) => {
            return Err(CniError::general(e));
        },
    }
    let ifname = match ctx.cni.environment.get_ifname() {
        Ok(s) => s,
        Err(e) => {
            return Err(CniError::general(e));
        },
    };
    Ok((config, netns, ifname))
}

fn check_begin_step(ctx: &CommandContext, config: &CniConfig, netns: &str, ifname: &str, master: String) -> (r: (
    CheckState,
    CommandStep,
))
    requires
        check_input_problem(ctx.cni) is None,
        ctx.cni.config == Some(*config),
        netns@ == ctx.cni.environment.netns->0@,
        ifname@ == ctx.cni.environment.ifname->0@,
    ensures
        check_begin(*ctx, master@, r.0, r.1),
        !finishes(r.1) ==> check_rank(r.0) < 4,
{
    match CniOrchestrator::plan_check_operation(config, ifname, master.as_str()) {
        Err(e) => (CheckState::Done, general_step(e)),
        Ok(_) => {
            if ctx.cni.is_dry_run {
                (CheckState::CheckingMaster, CommandStep::Call(DriverCall::CheckInterface { ifname: master }))
            } else {
                let call = DriverCall::NetnsExists { netns_path: String::from_str(netns) };
                (CheckState::ProbingNetns { master }, CommandStep::Call(call))
            }
        },
    }
}

/// One step of a CHECK (see `check_next`).
pub fn check_step(ctx: &CommandContext, state: CheckState, event: Event) -> (r: (CheckState, CommandStep))
    ensures
        check_next(*ctx, state, event, r.0, r.1),
        !finishes(r.1) ==> check_rank(r.0) < check_rank(state),
{
    let (config, netns, ifname) = match check_inputs(ctx) {
        Ok(t) => t,
        Err(e) => {
            return (CheckState::Done, CommandStep::Finish(Err(e)));
        },
    };
    match state {
        CheckState::Start => match named_master_of(ctx) {
            Some(m) => check_begin_step(ctx, config, netns, ifname, m),
            None => (CheckState::Detecting, CommandStep::Call(DriverCall::DetectUpstreamInterface)),
        },
        CheckState::Detecting => match event {
            Event::Name(Ok(n)) => check_begin_step(ctx, config, netns, ifname, n),
            Event::Name(Err(e)) => (CheckState::Done, general_step(e)),
            _ => (CheckState::Done, unexpected_step()),
        },
        CheckState::ProbingNetns { master } => match event {
            Event::Present(true) => (CheckState::CheckingMaster, CommandStep::Call(DriverCall::CheckInterface { ifname: master })),
            Event::Present(false) => (
                CheckState::Done,
                CommandStep::Finish(Err(CniError::Command(CommandError::NetnsNotFound { netns: String::from_str(netns) }))),
            ),
            _ => (CheckState::Done, unexpected_step()),
        },
        CheckState::CheckingMaster => match event {
            Event::Done(Ok(_)) => {
                let call = DriverCall::InterfaceExistsInNetns {
                    netns_path: String::from_str(netns),
                    ifname: String::from_str(ifname),
                };
                (CheckState::CheckingTarget, CommandStep::Call(call))
            },
            Event::Done(Err(e)) => (CheckState::Done, general_step(e)),
            _ => (CheckState::Done, unexpected_step()),
        },
        CheckState::CheckingTarget => match event {
            Event::Exists(Ok(true)) => (CheckState::Done, CommandStep::Finish(Ok(()))),
            Event::Exists(Ok(false)) => (
                CheckState::Done,
                CommandStep::Finish(
                    Err(
                        CniError::Command(
                            CommandError::InterfaceNotFound {
                                interface: String::from_str(ifname),
                                netns: String::from_str(netns),
                            },
                        ),
                    ),
                ),
            ),
            Event::Exists(Err(e)) => (CheckState::Done, general_step(e)),
            _ => (CheckState::Done, unexpected_step()),
        },
        CheckState::Done => (CheckState::Done, unexpected_step()),
    }
}

// ---------------------------------------------------------------- STATUS

/// Where a STATUS stands.
#[derive(Debug)]
pub enum StatusState {
    Start,
    /// The upstream interface is being detected.
    Detecting,
    /// The master interface is being checked.
    Checking,
    /// The empty result is being written.
    Writing,
    /// No master interface could be found: the process is to end.
    NoMaster,
    Done,
}

/// How far a STATUS is from its end.
pub open spec fn status_rank(s: StatusState) -> nat {
    match s {
        StatusState::Start => 4,
        StatusState::Detecting => 3,
        StatusState::Checking => 2,
        StatusState::Writing => 1,
        StatusState::NoMaster => 0,
        StatusState::Done => 0,
    }
}

/// One step of a STATUS: check the master interface that the arguments or
/// the configuration name, or else the one detected upstream (a failed
/// detection ends in `NoMaster`); once the check passes, write the empty
/// result. A failure ends the command with its message as a general error.
pub open spec fn status_next(ctx: CommandContext, state: StatusState, event: Event, next: StatusState, step: CommandStep) -> bool {
    match state {
        StatusState::Start => match named_master(ctx.args, ctx.cni) {
            Some(m) => next is Checking && calls(step, CallSpec::CheckInterface(m)),
            None => next is Detecting && calls(step, CallSpec::DetectUpstreamInterface),
        },
        StatusState::Detecting => match event {
            Event::Name(Ok(n)) => next is Checking && calls(step, CallSpec::CheckInterface(n@)),
            Event::Name(Err(e)) => finishes_general(step, e@) && next is NoMaster,
            _ => finishes_general(step, unexpected_text()) && next is Done,
        },
        StatusState::Checking => match event {
            Event::Done(Ok(_)) => next is Writing && writes_output(step, success_json()),
            Event::Done(Err(e)) => finishes_general(step, e@) && next is Done,
            _ => finishes_general(step, unexpected_text()) && next is Done,
        },
        StatusState::Writing => match event {
            Event::Done(Ok(_)) => finishes_ok(step) && next is Done,
            Event::Done(Err(e)) => finishes_general(step, e@) && next is Done,
            _ => finishes_general(step, unexpected_text()) && next is Done,
        },
        _ => finishes_general(step, unexpected_text()) && next is Done,
    }
}

/// One step of a STATUS (see `status_next`).
pub fn status_step(ctx: &CommandContext, state: StatusState, event: Event) -> (r: (StatusState, CommandStep))
    ensures
        status_next(*ctx, state, event, r.0, r.1),
        !finishes(r.1) ==> status_rank(r.0) < status_rank(state),
{
    match state {
        StatusState::Start => match named_master_of(ctx) {
            Some(m) => (StatusState::Checking, CommandStep::Call(DriverCall::CheckInterface { ifname: m })),
            None => (StatusState::Detecting, CommandStep::Call(DriverCall::DetectUpstreamInterface)),
        },
        StatusState::Detecting => match event {
            Event::Name(Ok(n)) => (StatusState::Checking, CommandStep::Call(DriverCall::CheckInterface { ifname: n })),
            Event::Name(Err(e)) => (StatusState::NoMaster, general_step(e)),
            _ => (StatusState::Done, unexpected_step()),
        },
        StatusState::Checking => match event {
            Event::Done(Ok(_)) => {
                let result = CniOrchestrator::create_success_result();
                (StatusState::Writing, CommandStep::WriteOutput(result.to_json_string()))
            },
            Event::Done(Err(e)) => (StatusState::Done, general_step(e)),
            _ => (StatusState::Done, unexpected_step()),
        },
        StatusState::Writing => match event {
            Event::Done(Ok(_)) => (StatusState::Done, CommandStep::Finish(Ok(()))),
            Event::Done(Err(e)) => (StatusState::Done, general_step(e)),
            _ => (StatusState::Done, unexpected_step()),
        },
        _ => (StatusState::Done, unexpected_step()),
    }
}

/// `log` is a run of the STATUS machine through `states` (see `add_run_along`).
pub open spec fn status_run_along(
    ctx: CommandContext,
    log: Seq<(CommandStep, Event)>,
    states: Seq<StatusState>,
    r: CniResult<()>,
) -> bool {
    &&& states.len() == log.len() + 2
    &&& states[0] == StatusState::Start
    &&& forall|i: int|
        #![trigger log[i]]
        0 <= i < log.len() ==> status_next(ctx, states[i], answer_before(log, i), states[i + 1], log[i].0)
            && step_answered(log[i].0, log[i].1)
    &&& status_next(ctx, states[log.len() as int], answer_before(log, log.len() as int), states[log.len() + 1int], CommandStep::Finish(r))
}

/// `log` holds the driver calls and writes of a STATUS in order, each with
/// its answer, and `r` is what the STATUS machine ends with after them.
pub open spec fn status_run(ctx: CommandContext, log: Seq<(CommandStep, Event)>, r: CniResult<()>) -> bool {
    exists|states: Seq<StatusState>| status_run_along(ctx, log, states, r)
}

// ---------------------------------------------------------------- laws

/// In a run of an ADD, a failed move of the interface into the namespace
/// is followed by the delete of that same interface, which is the last
/// call: the ADD then fails with the move's error, configures nothing and
/// writes nothing more.
pub proof fn lemma_add_run_cleans_up_failed_move(
    ctx: CommandContext,
    log: Seq<(CommandStep, Event)>,
    r: CniResult<()>,
    i: int,
    temp: Seq<char>,
    netns: Seq<char>,
    error: String,
)
    requires
        add_run(ctx, log, r),
        0 <= i < log.len(),
        calls(log[i].0, CallSpec::SetNetns(temp, netns)),
        log[i].1 == Event::Done(Err(error)),
    ensures
        log.len() == i + 2,
        calls(log[i + 1].0, CallSpec::DeleteInterface(temp)),
        r matches Err(e) && is_general(e, error@),
{
    let states = choose|states: Seq<AddState>| add_run_along(ctx, log, states, r);
    assert(add_next(ctx, states[i], answer_before(log, i), states[i + 1], log[i].0));
    assert(states[i + 1] matches AddState::Moving { temp: t, .. } && t@ == temp);
    if i + 1 == log.len() {
        assert(add_next(ctx, states[i + 1], answer_before(log, i + 1), states[i + 2], CommandStep::Finish(r)));
        assert(false);
    }
    assert(add_next(ctx, states[i + 1], answer_before(log, i + 1), states[i + 2], log[i + 1].0));
    assert(step_answered(log[i + 1].0, log[i + 1].1));
    if i + 2 < log.len() {
        assert(add_next(ctx, states[i + 2], answer_before(log, i + 2), states[i + 3], log[i + 2].0));
        assert(step_answered(log[i + 2].0, log[i + 2].1));
        assert(false);
    }
    assert(add_next(ctx, states[i + 2], answer_before(log, i + 2), states[i + 3], CommandStep::Finish(r)));
}

/// In a run of a CHECK, the namespace is probed only outside a dry run,
/// and the target interface is looked for by the command's namespace and
/// name. A namespace found absent ends it with
/// `NetnsNotFound` for that namespace, with no call after; and the answer
/// on the target interface decides: present is success, absent is
/// `InterfaceNotFound` for that name and namespace, with no call after.
pub proof fn lemma_check_run_verdicts(
    ctx: CommandContext,
    log: Seq<(CommandStep, Event)>,
    r: CniResult<()>,
    i: int,
)
    requires
        check_run(ctx, log, r),
        0 <= i < log.len(),
    ensures
        log[i].0 matches CommandStep::Call(DriverCall::NetnsExists { netns_path: p }) ==> p@
            == ctx.cni.environment.netns->0@ && !ctx.cni.is_dry_run,
        log[i].0 matches CommandStep::Call(DriverCall::InterfaceExistsInNetns { netns_path: p, ifname: f }) ==> p@
            == ctx.cni.environment.netns->0@ && f@ == ctx.cni.environment.ifname->0@,
        log[i].1 == Event::Present(false) ==> (log.len() == i + 1 && (r matches Err(
            CniError::Command(CommandError::NetnsNotFound { netns: n }),
        ) && n@ == ctx.cni.environment.netns->0@)),
        log[i].1 == Event::Exists(Ok(true)) ==> (log.len() == i + 1 && r is Ok),
        log[i].1 == Event::Exists(Ok(false)) ==> (log.len() == i + 1 && (r matches Err(
            CniError::Command(CommandError::InterfaceNotFound { interface: f, netns: n }),
        ) && f@ == ctx.cni.environment.ifname->0@ && n@ == ctx.cni.environment.netns->0@)),
{
    let states = choose|states: Seq<CheckState>| check_run_along(ctx, log, states, r);
    assert(check_next(ctx, states[i], answer_before(log, i), states[i + 1], log[i].0));
    assert(step_answered(log[i].0, log[i].1));
    if i + 1 < log.len() {
        assert(check_next(ctx, states[i + 1], answer_before(log, i + 1), states[i + 2], log[i + 1].0));
        assert(step_answered(log[i + 1].0, log[i + 1].1));
    } else {
        assert(check_next(ctx, states[i + 1], answer_before(log, i + 1), states[i + 2], CommandStep::Finish(r)));
    }
}

/// In a run of an ADD, the ipvlan interface is created in mode `l2`, and
/// once created it is the interface moved into the command's namespace.
pub proof fn lemma_add_run_moves_created_interface(
    ctx: CommandContext,
    log: Seq<(CommandStep, Event)>,
    r: CniResult<()>,
    i: int,
    parent: Seq<char>,
    mode: Seq<char>,
    temp: Seq<char>,
)
    requires
        add_run(ctx, log, r),
        0 <= i < log.len(),
        calls(log[i].0, CallSpec::CreateIpvlan(parent, mode, temp)),
        log[i].1 == Event::Done(Ok(())),
    ensures
        mode == "l2"@,
        i + 1 < log.len(),
        calls(log[i + 1].0, CallSpec::SetNetns(temp, ctx.cni.environment.netns->0@)),
{
    let states = choose|states: Seq<AddState>| add_run_along(ctx, log, states, r);
    assert(add_next(ctx, states[i], answer_before(log, i), states[i + 1], log[i].0));
    if i + 1 == log.len() {
        assert(add_next(ctx, states[i + 1], answer_before(log, i + 1), states[i + 2], CommandStep::Finish(r)));
        assert(false);
    }
    assert(add_next(ctx, states[i + 1], answer_before(log, i + 1), states[i + 2], log[i + 1].0));
}

/// In a run of an ADD, a successful configuration in the namespace is of
/// the command's namespace and interface name, and is followed by the write
/// of the result for the very address configured; the ADD succeeds only
/// where that write does, and ends there.
#[verifier::rlimit(50)]
pub proof fn lemma_add_run_writes_configured_address(
    ctx: CommandContext,
    log: Seq<(CommandStep, Event)>,
    r: CniResult<()>,
    i: int,
    netns: Seq<char>,
    temp: Seq<char>,
    target: Seq<char>,
    ip: Seq<char>,
    gateway: Option<u128>,
)
    requires
        add_run(ctx, log, r),
        0 <= i < log.len(),
        calls(log[i].0, CallSpec::ConfigureInNetns(netns, temp, target, ip, gateway)),
        log[i].1 == Event::Done(Ok(())),
    ensures
        netns == ctx.cni.environment.netns->0@,
        target == ctx.cni.environment.ifname->0@,
        i + 1 < log.len(),
        writes_output(log[i + 1].0, add_result_json(ctx.cni.config->0, target, ip, netns)),
        r is Ok ==> log.len() == i + 2 && (log[i + 1].1 matches Event::Done(Ok(_))),
{
    let states = choose|states: Seq<AddState>| add_run_along(ctx, log, states, r);
    assert(add_next(ctx, states[i], answer_before(log, i), states[i + 1], log[i].0));
    assert(add_input_problem(ctx.cni) is None);
    assert(states[i] is Moving);
    assert(states[i + 1] matches AddState::Configuring { target_ip: x, .. } && x@ == ip);
    assert(netns == ctx.cni.environment.netns->0@);
    assert(target == ctx.cni.environment.ifname->0@);
    if i + 1 == log.len() {
        assert(add_next(ctx, states[i + 1], answer_before(log, i + 1), states[i + 2], CommandStep::Finish(r)));
        assert(false);
    }
    assert(add_next(ctx, states[i + 1], answer_before(log, i + 1), states[i + 2], log[i + 1].0));
    assert(step_answered(log[i + 1].0, log[i + 1].1));
    assert(states[i + 2] is Writing);
    if i + 2 < log.len() {
        assert(add_next(ctx, states[i + 2], answer_before(log, i + 2), states[i + 3], log[i + 2].0));
        assert(step_answered(log[i + 2].0, log[i + 2].1));
        assert(false);
    }
    assert(add_next(ctx, states[i + 2], answer_before(log, i + 2), states[i + 3], CommandStep::Finish(r)));
}

/// In a run of a DEL with valid inputs: outside a dry run the namespace is
/// probed first, and an absent namespace ends the DEL in success with no
/// other call; otherwise the interface is deleted inside the namespace,
/// a warning is written exactly when that delete fails, and the DEL
/// succeeds unless that warning could not be written.
pub proof fn lemma_del_run_deletes(ctx: CommandContext, log: Seq<(CommandStep, Event)>, r: CniResult<()>)
    requires
        del_run(ctx, log, r),
        del_input_problem(ctx.cni) is None,
    ensures
        ({
            let netns = ctx.cni.environment.netns->0@;
            let ifname = ctx.cni.environment.ifname->0@;
            let k: int = if ctx.cni.is_dry_run { 0 } else { 1 };
            &&& !ctx.cni.is_dry_run ==> log.len() > 0 && calls(log[0].0, CallSpec::NetnsExists(netns))
            &&& !ctx.cni.is_dry_run && log[0].1 == Event::Present(false) ==> log.len() == 1 && r is Ok
            &&& (ctx.cni.is_dry_run || log[0].1 == Event::Present(true)) ==> {
                &&& log.len() > k
                &&& calls(log[k].0, CallSpec::DeleteInterfaceInNetns(netns, ifname))
                &&& log[k].1 is Done
                &&& log[k].1 == Event::Done(Ok(())) ==> log.len() == k + 1 && r is Ok
                &&& log[k].1 matches Event::Done(Err(e)) ==> log.len() == k + 2 && writes_error(log[k + 1].0, del_warning(e@))
                    && (r is Ok <==> log[k + 1].1 matches Event::Done(Ok(_)))
            }
        }),
{
    let states = choose|states: Seq<DelState>| del_run_along(ctx, log, states, r);
    let n = log.len() as int;
    if n == 0 {
        assert(del_next(ctx, states[0], answer_before(log, 0), states[1], CommandStep::Finish(r)));
    } else {
        assert(del_next(ctx, states[0], answer_before(log, 0), states[1], log[0].0));
        assert(step_answered(log[0].0, log[0].1));
        if n == 1 {
            assert(del_next(ctx, states[1], answer_before(log, 1), states[2], CommandStep::Finish(r)));
        } else {
            assert(del_next(ctx, states[1], answer_before(log, 1), states[2], log[1].0));
            assert(step_answered(log[1].0, log[1].1));
            if n == 2 {
                assert(del_next(ctx, states[2], answer_before(log, 2), states[3], CommandStep::Finish(r)));
            } else {
                assert(del_next(ctx, states[2], answer_before(log, 2), states[3], log[2].0));
                assert(step_answered(log[2].0, log[2].1));
                if n == 3 {
                    assert(del_next(ctx, states[3], answer_before(log, 3), states[4], CommandStep::Finish(r)));
                } else {
                    assert(del_next(ctx, states[3], answer_before(log, 3), states[4], log[3].0));
                    assert(step_answered(log[3].0, log[3].1));
                    if n == 4 {
                        assert(del_next(ctx, states[4], answer_before(log, 4), states[5], CommandStep::Finish(r)));
                    } else {
                        assert(del_next(ctx, states[4], answer_before(log, 4), states[5], log[4].0));
                    }
                }
            }
        }
    }
}

/// A run of an ADD with valid inputs begins with the master interface:
/// the one the arguments or the configuration name is checked first;
/// where none is named, the upstream interface is detected and the one
/// detected is checked. Once the check passes, the master's subnet is read
/// where no pod CIDR is given, else its gateway.
#[verifier::rlimit(50)]
pub proof fn lemma_add_run_begins_with_master(
    ctx: CommandContext,
    log: Seq<(CommandStep, Event)>,
    r: CniResult<()>,
    j: int,
    master: Seq<char>,
)
    requires
        add_run(ctx, log, r),
        add_input_problem(ctx.cni) is None,
        0 <= j < log.len() - 1,
        calls(log[j].0, CallSpec::CheckInterface(master)),
        log[j].1 == Event::Done(Ok(())),
    ensures
        log.len() > 0,
        named_master(ctx.args, ctx.cni) matches Some(m) ==> calls(log[0].0, CallSpec::CheckInterface(m)),
        named_master(ctx.args, ctx.cni) is None ==> calls(log[0].0, CallSpec::DetectUpstreamInterface)
            && (log[0].1 matches Event::Name(Ok(n)) ==> log.len() > 1 && calls(log[1].0, CallSpec::CheckInterface(n@))),
        needs_subnet(ctx, ctx.cni.config->0) ==> calls(log[j + 1].0, CallSpec::GetInterfaceSubnet(master)),
        !needs_subnet(ctx, ctx.cni.config->0) ==> calls(log[j + 1].0, CallSpec::GetInterfaceGateway(master)),
{
    let states = choose|states: Seq<AddState>| add_run_along(ctx, log, states, r);
    assert(add_next(ctx, states[0], answer_before(log, 0), states[1], log[0].0));
    assert(step_answered(log[0].0, log[0].1));
    if log.len() > 1 {
        assert(add_next(ctx, states[1], answer_before(log, 1), states[2], log[1].0));
    } else {
        assert(add_next(ctx, states[1], answer_before(log, 1), states[2], CommandStep::Finish(r)));
    }
    assert(add_next(ctx, states[j], answer_before(log, j), states[j + 1], log[j].0));
    assert(states[j + 1] matches AddState::Checking { master: m } && m@ == master);
    assert(add_next(ctx, states[j + 1], answer_before(log, j + 1), states[j + 2], log[j + 1].0));
}

/// A STATUS succeeds only after checking the master interface: the one
/// the arguments or the configuration name, else the one detected upstream.
/// That check passed, and the empty result was written after it.
pub proof fn lemma_status_run_checks_master(ctx: CommandContext, log: Seq<(CommandStep, Event)>, r: CniResult<()>)
    requires
        status_run(ctx, log, r),
        r is Ok,
    ensures
        ({
            let k: int = if named_master(ctx.args, ctx.cni) is Some { 0 } else { 1 };
            &&& log.len() == k + 2
            &&& named_master(ctx.args, ctx.cni) matches Some(m) ==> calls(log[0].0, CallSpec::CheckInterface(m))
            &&& named_master(ctx.args, ctx.cni) is None ==> calls(log[0].0, CallSpec::DetectUpstreamInterface)
                && (log[0].1 matches Event::Name(Ok(n)) && calls(log[1].0, CallSpec::CheckInterface(n@)))
            &&& log[k].1 matches Event::Done(Ok(_))
            &&& writes_output(log[k + 1].0, success_json())
        }),
{
    let states = choose|states: Seq<StatusState>| status_run_along(ctx, log, states, r);
    let n = log.len() as int;
    assert(status_next(ctx, states[n], answer_before(log, n), states[n + 1], CommandStep::Finish(r)));
    if n > 0 {
        assert(status_next(ctx, states[0], answer_before(log, 0), states[1], log[0].0));
        assert(step_answered(log[0].0, log[0].1));
    }
    if n > 1 {
        assert(status_next(ctx, states[1], answer_before(log, 1), states[2], log[1].0));
        assert(step_answered(log[1].0, log[1].1));
    }
    if n > 2 {
        assert(status_next(ctx, states[2], answer_before(log, 2), states[3], log[2].0));
        assert(step_answered(log[2].0, log[2].1));
    }
    if n > 3 {
        assert(status_next(ctx, states[3], answer_before(log, 3), states[4], log[3].0));
    }
}

/// In a run of an ADD, a configuration in the namespace that fails is the
/// last call: the ADD fails with its error, and no result line is ever
/// written in that run.
#[verifier::rlimit(50)]
pub proof fn lemma_add_run_stops_on_failed_configuration(
    ctx: CommandContext,
    log: Seq<(CommandStep, Event)>,
    r: CniResult<()>,
    i: int,
    error: String,
)
    requires
        add_run(ctx, log, r),
        0 <= i < log.len(),
        log[i].0 matches CommandStep::Call(DriverCall::ConfigureInNetns { .. }),
        log[i].1 == Event::Done(Err(error)),
    ensures
        log.len() == i + 1,
        r matches Err(e) && is_general(e, error@),
        forall|j: int| 0 <= j < log.len() ==> !(#[trigger] log[j].0 is WriteOutput),
{
    lemma_add_run_stops_at(ctx, log, r, i, error);
    lemma_add_run_writes_only_at_end(ctx, log, r);
}

/// The end of a run of an ADD whose configuration failed.
#[verifier::rlimit(50)]
proof fn lemma_add_run_stops_at(
    ctx: CommandContext,
    log: Seq<(CommandStep, Event)>,
    r: CniResult<()>,
    i: int,
    error: String,
)
    requires
        add_run(ctx, log, r),
        0 <= i < log.len(),
        log[i].0 matches CommandStep::Call(DriverCall::ConfigureInNetns { .. }),
        log[i].1 == Event::Done(Err(error)),
    ensures
        log.len() == i + 1,
        r matches Err(e) && is_general(e, error@),
{
    let states = choose|states: Seq<AddState>| add_run_along(ctx, log, states, r);
    assert(add_next(ctx, states[i], answer_before(log, i), states[i + 1], log[i].0));
    assert(states[i] is Moving);
    assert(states[i + 1] is Configuring);
    if i + 1 < log.len() {
        assert(add_next(ctx, states[i + 1], answer_before(log, i + 1), states[i + 2], log[i + 1].0));
        assert(step_answered(log[i + 1].0, log[i + 1].1));
        assert(false);
    }
    assert(add_next(ctx, states[i + 1], answer_before(log, i + 1), states[i + 2], CommandStep::Finish(r)));
}

/// In a run of an ADD, only the last logged step can write the result.
proof fn lemma_add_run_writes_only_at_end(ctx: CommandContext, log: Seq<(CommandStep, Event)>, r: CniResult<()>)
    requires
        add_run(ctx, log, r),
    ensures
        forall|j: int| 0 <= j < log.len() - 1 ==> !(#[trigger] log[j].0 is WriteOutput),
{
    let states = choose|states: Seq<AddState>| add_run_along(ctx, log, states, r);
    assert forall|j: int| 0 <= j < log.len() - 1 implies !(#[trigger] log[j].0 is WriteOutput) by {
        if log[j].0 is WriteOutput {
            lemma_add_write_is_last(ctx, log, r, states, j);
        }
    }
}

/// In a run of an ADD, a write of the result is the last logged step.
proof fn lemma_add_write_is_last(
    ctx: CommandContext,
    log: Seq<(CommandStep, Event)>,
    r: CniResult<()>,
    states: Seq<AddState>,
    j: int,
)
    requires
        add_run_along(ctx, log, states, r),
        0 <= j < log.len(),
        log[j].0 is WriteOutput,
    ensures
        j == log.len() - 1,
{
    assert(add_next(ctx, states[j], answer_before(log, j), states[j + 1], log[j].0));
    assert(states[j + 1] is Writing);
    if j + 1 < log.len() {
        assert(add_next(ctx, states[j + 1], answer_before(log, j + 1), states[j + 2], log[j + 1].0));
        assert(step_answered(log[j + 1].0, log[j + 1].1));
    }
}

/// An ADD succeeds only after its configuration in the namespace succeeded:
/// the run ends with that configuration answered `Ok`, then the result line
/// written successfully.
#[verifier::rlimit(50)]
pub proof fn lemma_add_run_success_was_configured(ctx: CommandContext, log: Seq<(CommandStep, Event)>, r: CniResult<()>)
    requires
        add_run(ctx, log, r),
        r is Ok,
    ensures
        log.len() >= 2,
        log[log.len() - 2].0 matches CommandStep::Call(DriverCall::ConfigureInNetns { .. }),
        log[log.len() - 2].1 matches Event::Done(Ok(_)),
        log[log.len() - 1].0 is WriteOutput,
        log[log.len() - 1].1 matches Event::Done(Ok(_)),
{
    let states = choose|states: Seq<AddState>| add_run_along(ctx, log, states, r);
    let n = log.len() as int;
    assert(add_next(ctx, states[n], answer_before(log, n), states[n + 1], CommandStep::Finish(r)));
    assert(states[n] is Writing);
    assert(n > 0);
    assert(add_next(ctx, states[n - 1], answer_before(log, n - 1), states[n], log[n - 1].0));
    assert(states[n - 1] is Configuring);
    assert(n > 1);
    assert(add_next(ctx, states[n - 2], answer_before(log, n - 2), states[n - 1], log[n - 2].0));
}

/// In a run of a CHECK, a check of the master interface that fails is the
/// last call: the CHECK fails with its error.
pub proof fn lemma_check_run_stops_on_failed_master_check(
    ctx: CommandContext,
    log: Seq<(CommandStep, Event)>,
    r: CniResult<()>,
    i: int,
    error: String,
)
    requires
        check_run(ctx, log, r),
        0 <= i < log.len(),
        log[i].0 matches CommandStep::Call(DriverCall::CheckInterface { .. }),
        log[i].1 == Event::Done(Err(error)),
    ensures
        log.len() == i + 1,
        r matches Err(e) && is_general(e, error@),
{
    let states = choose|states: Seq<CheckState>| check_run_along(ctx, log, states, r);
    assert(check_next(ctx, states[i], answer_before(log, i), states[i + 1], log[i].0));
    assert(states[i + 1] is CheckingMaster);
    if i + 1 < log.len() {
        assert(check_next(ctx, states[i + 1], answer_before(log, i + 1), states[i + 2], log[i + 1].0));
        assert(step_answered(log[i + 1].0, log[i + 1].1));
        assert(false);
    }
    assert(check_next(ctx, states[i + 1], answer_before(log, i + 1), states[i + 2], CommandStep::Finish(r)));
}

/// A CHECK succeeds only after the master interface was checked
/// successfully and the target interface was then found in the namespace.
pub proof fn lemma_check_run_success_checked_master(ctx: CommandContext, log: Seq<(CommandStep, Event)>, r: CniResult<()>)
    requires
        check_run(ctx, log, r),
        r is Ok,
    ensures
        log.len() >= 2,
        log[log.len() - 2].0 matches CommandStep::Call(DriverCall::CheckInterface { .. }),
        log[log.len() - 2].1 matches Event::Done(Ok(_)),
        log[log.len() - 1].0 matches CommandStep::Call(DriverCall::InterfaceExistsInNetns { .. }),
        log[log.len() - 1].1 == Event::Exists(Ok(true)),
{
    let states = choose|states: Seq<CheckState>| check_run_along(ctx, log, states, r);
    let n = log.len() as int;
    assert(check_next(ctx, states[n], answer_before(log, n), states[n + 1], CommandStep::Finish(r)));
    assert(states[n] is CheckingTarget);
    assert(n > 0);
    assert(check_next(ctx, states[n - 1], answer_before(log, n - 1), states[n], log[n - 1].0));
    assert(states[n - 1] is CheckingMaster);
    assert(n > 1);
    assert(check_next(ctx, states[n - 2], answer_before(log, n - 2), states[n - 1], log[n - 2].0));
}

} // verus!
