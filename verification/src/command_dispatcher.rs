//! Routing of CNI commands to their handlers, which drive a network driver
//! and write the results to an output writer.

use vstd::prelude::*;

use crate::cni::{CniConfig, CniContext};
use crate::driver::NetworkDriver;
use crate::error::{CniError, CniResult, CommandError, ConfigError};
use crate::orchestrator::{
    add_result_json, chosen_cidr, interface_json_of, ip_json_of, lemma_same_dns_json, planned_cidr, result_json_of,
    success_json, CniOrchestrator, ValidationStep,
};
use crate::text::text_eq;
use crate::utils::{cidr_text, in_subnet, ipv6_net_syntax, ipv6_string};
use crate::output::OutputWriter;
use crate::command_steps::{
    add_next, add_rank, add_run, add_run_along, add_step, answer_before, answers, check_next, check_rank, check_run,
    check_run_along, check_step, del_next, del_rank, del_run, del_run_along, del_step, perform, status_next,
    status_rank, status_run, status_run_along, status_step, step_answered, subnet_view, AddState, CheckState,
    CommandStep, DelState, Event, StatusState,
};

verus! {

/// CLI Arguments structure (replicated to avoid circular dependencies)
#[derive(Debug)]
pub struct Args {
    pub interface: Option<String>,
    pub pod_cidr: Option<String>,
    pub dry_run: bool,
}

impl Clone for Args {
    fn clone(&self) -> (r: Self)
        ensures
            r == *self,
    {
        Args { interface: self.interface.clone(), pod_cidr: self.pod_cidr.clone(), dry_run: self.dry_run }
    }
}

/// `e` is the error a general failure with message `msg` becomes.
pub open spec fn is_general(e: CniError, msg: Seq<char>) -> bool {
    e matches CniError::Config(ConfigError::ParseError { message }) && message@ == "General error: "@ + msg
}

/// `e` is the error of some general failure.
pub open spec fn is_general_error(e: CniError) -> bool {
    exists|msg: Seq<char>| #[trigger] is_general(e, msg)
}

fn general(msg: String) -> (e: CniError)
    ensures
        is_general(e, msg@),
        is_general_error(e),
{
    let e = CniError::general(msg);
    assert(is_general(e, msg@));
    e
}

/// The master interface that the arguments or the configuration name, if any.
pub open spec fn named_master(args: Args, cni: CniContext) -> Option<Seq<char>> {
    if args.interface is Some {
        Some(args.interface->0@)
    } else {
        match cni.config {
            Some(c) => match c.master {
                Some(m) => Some(m@),
                None => None,
            },
            None => None,
        }
    }
}

/// The text of an optional argument.
pub open spec fn arg_text(a: Option<String>) -> Option<Seq<char>> {
    match a {
        Some(s) => Some(s@),
        None => None,
    }
}

/// CommandContext consolidates all common parameters passed to CNI command handlers
/// This eliminates parameter duplication and makes it easier to add new context data
#[derive(Debug)]
pub struct CommandContext {
    pub args: Args,
    pub cni: CniContext,
}

impl CommandContext {
    pub fn new(args: Args, cni: CniContext) -> (r: Self)
        ensures
            r.args == args,
            r.cni == cni,
    {
        Self { args, cni }
    }

    /// Helper to get config and handle errors consistently
    pub fn require_config(&self) -> (r: CniResult<&CniConfig>)
        ensures
            self.cni.config matches Some(c) ==> r == Ok::<&CniConfig, CniError>(&c),
            self.cni.config is None ==> (r matches Err(e) && is_general(e, "Missing CNI configuration on stdin"@)),
    {
        match self.cni.require_config() {
            Ok(c) => Ok(c),
            Err(e) => Err(general(e)),
        }
    }

    /// Helper to determine master interface with fallback logic: the
    /// interface of the arguments, then the master of the configuration,
    /// then the upstream interface the driver detects.
    pub fn get_master_interface<D: NetworkDriver>(&self, driver: &D) -> (r: CniResult<String>)
        ensures
            named_master(self.args, self.cni) matches Some(m) ==> (r matches Ok(s) && s@ == m),
            r matches Err(e) ==> named_master(self.args, self.cni) is None && is_general_error(e),
    {
        match &self.args.interface {
            Some(interface) => {
                return Ok(interface.clone());
            },
            None => {},
        }
        match &self.cni.config {
            Some(config) => match &config.master {
                Some(master) => {
                    return Ok(master.clone());
                },
                None => {},
            },
            None => {},
        }
        match driver.detect_upstream_interface() {
            Ok(i) => Ok(i),
            Err(e) => Err(general(e)),
        }
    }
}

/// The commands the plugin knows.
pub open spec fn is_known_command(c: Seq<char>) -> bool {
    c == "ADD"@ || c == "DEL"@ || c == "CHECK"@ || c == "GC"@ || c == "VERSION"@ || c == "STATUS"@
}

/// The reply to VERSION.
pub open spec fn version_text() -> Seq<char> {
    "{\"cniVersion\": \"1.0.0\", \"supportedVersions\": [\"1.0.0\"]}"@
}

/// The error line written for an unknown command.
pub open spec fn unknown_command_line(c: Seq<char>) -> Seq<char> {
    "Unknown CNI_COMMAND: "@ + c
}

/// `t` is an address that the planned pod CIDR admits: one of the subnet
/// of the arguments or the configuration where either gives one, else one
/// of some subnet (the driver's).
pub open spec fn target_fits(config: CniConfig, cli_pod_cidr: Option<Seq<char>>, t: Seq<char>) -> bool {
    match chosen_cidr(config, cli_pod_cidr, None) {
        Some(c) => match ipv6_net_syntax(c) {
            Some(net) => exists|a: u128| #[trigger] in_subnet(net.0, net.1, a) && t == cidr_text(a, net.1),
            None => false,
        },
        None => exists|a: u128, p: u8| t == #[trigger] cidr_text(a, p),
    }
}

/// The line an ADD writes: the result for some target address that fits.
pub open spec fn is_add_result(config: CniConfig, cli_pod_cidr: Option<Seq<char>>, ifname: Seq<char>, netns: Seq<char>, line: Seq<char>) -> bool {
    exists|t: Seq<char>| #[trigger] add_result_json(config, ifname, t, netns) == line && target_fits(config, cli_pod_cidr, t)
}

/// What stops an ADD before the driver is asked anything.
pub open spec fn add_input_problem(cni: CniContext) -> Option<Seq<char>> {
    if cni.config is None {
        Some("Missing CNI configuration on stdin"@)
    } else if cni.environment.netns is None {
        Some("CNI_NETNS not set"@)
    } else if cni.environment.ifname is None {
        Some("CNI_IFNAME not set"@)
    } else {
        None
    }
}

/// What stops a DEL before the driver is asked anything.
pub open spec fn del_input_problem(cni: CniContext) -> Option<Seq<char>> {
    if cni.environment.netns is None {
        Some("CNI_NETNS not set"@)
    } else if cni.environment.container_id is None {
        Some("CNI_CONTAINERID not set"@)
    } else if cni.environment.ifname is None {
        Some("CNI_IFNAME not set"@)
    } else {
        None
    }
}

/// What stops a CHECK before the driver is asked anything.
pub open spec fn check_input_problem(cni: CniContext) -> Option<Seq<char>> {
    if cni.config is None {
        Some("Missing CNI configuration on stdin"@)
    } else if cni.environment.netns is None {
        Some("CNI_NETNS not set"@)
    } else if cni.environment.container_id is None {
        Some("CNI_CONTAINERID not set"@)
    } else if cni.environment.ifname is None {
        Some("CNI_IFNAME not set"@)
    } else {
        None
    }
}

/// The warning line a DEL writes when the driver fails to delete.
pub open spec fn del_warning(w: Seq<char>) -> Seq<char> {
    "Warning during DEL: "@ + w
}

/// The configuration of a context that holds one.
pub open spec fn config_of(cni: CniContext) -> CniConfig {
    cni.config->0
}

/// What an ADD leaves behind: the errors of missing inputs, a refused
/// pod CIDR, and on success one result line, for an address that fits.
pub open spec fn add_outcome<O: OutputWriter>(cni: CniContext, args: Args, before: O, after: O, r: CniResult<()>) -> bool {
    &&& add_input_problem(cni) matches Some(m) ==> (r matches Err(e) && is_general(e, m) && after == before)
    &&& add_input_problem(cni) is None ==> (chosen_cidr(config_of(cni), arg_text(args.pod_cidr), None) matches Some(c)
        ==> (ipv6_net_syntax(c) is None ==> r is Err))
    &&& r is Ok ==> add_input_problem(cni) is None
    &&& r matches Err(e) ==> add_input_problem(cni) is None ==> is_general_error(e)
    &&& (r is Ok && O::keeps_record()) ==> {
        &&& after.errors() == before.errors()
        &&& after.outputs().len() == before.outputs().len() + 1
        &&& after.outputs().drop_last() == before.outputs()
        &&& is_add_result(
            config_of(cni),
            arg_text(args.pod_cidr),
            cni.environment.ifname->0@,
            cni.environment.netns->0@,
            after.outputs().last(),
        )
    }
    &&& (r is Err && O::keeps_record()) ==> after.outputs() == before.outputs() && after.errors() == before.errors()
}

/// What a DEL leaves behind: the errors of missing inputs; otherwise
/// success with at most a warning, for a writer that keeps its lines.
pub open spec fn del_outcome<O: OutputWriter>(cni: CniContext, before: O, after: O, r: CniResult<()>) -> bool {
    &&& del_input_problem(cni) matches Some(m) ==> (r matches Err(e) && is_general(e, m) && after == before)
    &&& r matches Err(e) ==> is_general_error(e)
    &&& (del_input_problem(cni) is None && O::keeps_record()) ==> {
        &&& r is Ok
        &&& after.outputs() == before.outputs()
        &&& (after.errors() == before.errors()
            || exists|w: Seq<char>| after.errors() == before.errors().push(#[trigger] del_warning(w)))
    }
}

/// What a CHECK leaves behind: nothing written; the errors of missing
/// inputs and of an unsupported version; the not-found errors name what
/// was looked for.
pub open spec fn check_outcome<O: OutputWriter>(cni: CniContext, args: Args, before: O, after: O, r: CniResult<()>) -> bool {
    &&& after == before
    &&& check_input_problem(cni) matches Some(m) ==> (r matches Err(e) && is_general(e, m))
    &&& (check_input_problem(cni) is None && named_master(args, cni) is Some
        && config_of(cni).cni_version@ != "1.0.0"@) ==> (r matches Err(e)
        && is_general(e, "Unsupported CNI version: "@ + config_of(cni).cni_version@))
    &&& r is Ok ==> check_input_problem(cni) is None && config_of(cni).cni_version@ == "1.0.0"@
    &&& r matches Err(CniError::Command(CommandError::NetnsNotFound { netns })) ==> (!cni.is_dry_run
        && netns@ == cni.environment.netns->0@)
    &&& r matches Err(CniError::Command(CommandError::InterfaceNotFound { interface, netns })) ==> (
        interface@ == cni.environment.ifname->0@ && netns@ == cni.environment.netns->0@)
    &&& r matches Err(e) ==> (is_general_error(e) || e matches CniError::Command(CommandError::NetnsNotFound { .. })
        || e matches CniError::Command(CommandError::InterfaceNotFound { .. }))
}

/// A command that answers with the single line `line`: for a writer that
/// keeps its lines it succeeds having written just that.
pub open spec fn reply_outcome<O: OutputWriter>(line: Seq<char>, before: O, after: O, r: CniResult<()>) -> bool {
    &&& r matches Err(e) ==> is_general_error(e)
    &&& O::keeps_record() ==> (r is Ok && after.outputs() == before.outputs().push(line)
        && after.errors() == before.errors())
}

/// What a STATUS leaves behind: on success the empty result line, on an
/// error nothing, for a writer that keeps its lines.
pub open spec fn status_outcome<O: OutputWriter>(before: O, after: O, r: CniResult<()>) -> bool {
    &&& r matches Err(e) ==> is_general_error(e)
    &&& (r is Ok && O::keeps_record()) ==> (after.outputs() == before.outputs().push(success_json())
        && after.errors() == before.errors())
    &&& (r is Err && O::keeps_record()) ==> after == before
}

/// What an unknown command leaves behind: an error, which for a writer
/// that keeps its lines names the command, with the error line written.
pub open spec fn unknown_outcome<O: OutputWriter>(command: Seq<char>, before: O, after: O, r: CniResult<()>) -> bool {
    &&& r is Err
    &&& O::keeps_record() ==> (r matches Err(CniError::Command(CommandError::UnknownCommand { command: c }))
        && c@ == command && after.errors() == before.errors().push(unknown_command_line(command))
        && after.outputs() == before.outputs())
}

/// What dispatching `command` leaves behind, by command.
pub open spec fn dispatch_outcome<O: OutputWriter>(
    command: Seq<char>,
    args: Args,
    cni: CniContext,
    before: O,
    after: O,
    r: CniResult<()>,
) -> bool {
    &&& command == "ADD"@ ==> add_outcome(cni, args, before, after, r)
    &&& command == "DEL"@ ==> del_outcome(cni, before, after, r)
    &&& command == "CHECK"@ ==> check_outcome(cni, args, before, after, r)
    &&& command == "GC"@ ==> reply_outcome(success_json(), before, after, r)
    &&& command == "VERSION"@ ==> reply_outcome(version_text(), before, after, r)
    &&& command == "STATUS"@ ==> status_outcome(before, after, r)
    &&& !is_known_command(command) ==> unknown_outcome(command, before, after, r)
}

/// The driver calls and writes that dispatching `command` made, in order
/// with their answers: for ADD, DEL, CHECK and STATUS a run of that
/// command's machine, on the arguments and a copy of the context, that ends
/// in `r`; for any other command none.
pub open spec fn dispatch_run(
    command: Seq<char>,
    args: Args,
    cni: CniContext,
    log: Seq<(CommandStep, Event)>,
    r: CniResult<()>,
) -> bool {
    if command == "ADD"@ {
        exists|c: CniContext| #[trigger] c.same_as(&cni) && add_run((CommandContext { args, cni: c }), log, r)
    } else if command == "DEL"@ {
        exists|c: CniContext| #[trigger] c.same_as(&cni) && del_run((CommandContext { args, cni: c }), log, r)
    } else if command == "CHECK"@ {
        exists|c: CniContext| #[trigger] c.same_as(&cni) && check_run((CommandContext { args, cni: c }), log, r)
    } else if command == "STATUS"@ {
        exists|c: CniContext| #[trigger] c.same_as(&cni) && status_run((CommandContext { args, cni: c }), log, r)
    } else {
        log.len() == 0
    }
}

/// Outcomes depend on a context only through what a copy keeps.
pub proof fn lemma_same_context_outcomes<O: OutputWriter>(
    c1: CniContext,
    c2: CniContext,
    args: Args,
    before: O,
    after: O,
    r: CniResult<()>,
)
    requires
        c1.same_as(&c2),
    ensures
        add_outcome(c1, args, before, after, r) == add_outcome(c2, args, before, after, r),
        del_outcome(c1, before, after, r) == del_outcome(c2, before, after, r),
        check_outcome(c1, args, before, after, r) == check_outcome(c2, args, before, after, r),
{
    if c1.config is Some {
        let a = config_of(c1);
        let b = config_of(c2);
        lemma_same_dns_json(a.dns, b.dns);
        assert forall|i: Seq<char>, t: Seq<char>, n: Seq<char>| #[trigger] add_result_json(a, i, t, n) == add_result_json(b, i, t, n) by {
            assert(result_json_of(a.cni_version@, seq![interface_json_of(i, Seq::empty(), n)], seq![ip_json_of("6"@, t, 0)], a.dns)
                == result_json_of(a.cni_version@, seq![interface_json_of(i, Seq::empty(), n)], seq![ip_json_of("6"@, t, 0)], b.dns));
        }
        assert forall|cli: Option<Seq<char>>, i: Seq<char>, n: Seq<char>, line: Seq<char>|
            #[trigger] is_add_result(a, cli, i, n, line) == is_add_result(b, cli, i, n, line) by {
            if is_add_result(a, cli, i, n, line) {
                let t = choose|t: Seq<char>| #[trigger] add_result_json(a, i, t, n) == line && target_fits(a, cli, t);
                assert(add_result_json(b, i, t, n) == line);
            }
            if is_add_result(b, cli, i, n, line) {
                let t = choose|t: Seq<char>| #[trigger] add_result_json(b, i, t, n) == line && target_fits(b, cli, t);
                assert(add_result_json(a, i, t, n) == line);
            }
        }
    }
}

/// What holds while an ADD runs, in each state: before the first step
/// nothing is written; until the result is written nothing is, and a
/// planned address fits the pod CIDR; once written, the result line is
/// the last output.
pub open spec fn add_run_inv<O: OutputWriter>(ctx: CommandContext, state: AddState, event: Event, before: O, w: O) -> bool {
    let config = config_of(ctx.cni);
    let cli = arg_text(ctx.args.pod_cidr);
    match state {
        AddState::Start => event is Start && w == before,
        AddState::Creating { target_ip, .. } => add_input_problem(ctx.cni) is None && w == before
            && target_fits(config, cli, target_ip@),
        AddState::Moving { target_ip, .. } => add_input_problem(ctx.cni) is None && w == before
            && target_fits(config, cli, target_ip@),
        AddState::Configuring { target_ip, .. } => add_input_problem(ctx.cni) is None && w == before
            && target_fits(config, cli, target_ip@),
        AddState::Writing { target_ip } => {
            &&& add_input_problem(ctx.cni) is None
            &&& target_fits(config, cli, target_ip@)
            &&& event is Done
            &&& O::keeps_record() ==> (event matches Event::Done(Ok(_))
                && w.outputs() == before.outputs().push(
                add_result_json(config, ctx.cni.environment.ifname->0@, target_ip@, ctx.cni.environment.netns->0@),
            ) && w.errors() == before.errors())
        },
        AddState::Done => false,
        _ => add_input_problem(ctx.cni) is None && w == before,
    }
}

/// An address planned in the pod CIDR that the arguments, the
/// configuration or the subnet read give, fits the pod CIDR.
proof fn lemma_planned_target_fits(
    config: CniConfig,
    cli: Option<Seq<char>>,
    sub: Option<(Seq<char>, u8)>,
    net: (u128, u8),
    ip: Seq<char>,
)
    requires
        chosen_cidr(config, cli, sub) is Some,
        ipv6_net_syntax(chosen_cidr(config, cli, sub)->0) == Some(net),
        exists|a: u128| #[trigger] in_subnet(net.0, net.1, a) && ip == cidr_text(a, net.1),
    ensures
        target_fits(config, cli, ip),
{
    let a = choose|a: u128| #[trigger] in_subnet(net.0, net.1, a) && ip == cidr_text(a, net.1);
    if chosen_cidr(config, cli, None) is None {
        assert(ip == cidr_text(a, net.1));
        assert(exists|a2: u128, p: u8| ip == #[trigger] cidr_text(a2, p));
        assert(target_fits(config, cli, ip));
    } else {
        assert(chosen_cidr(config, cli, None) == chosen_cidr(config, cli, sub));
        let c = chosen_cidr(config, cli, None)->0;
        assert(ipv6_net_syntax(c) == Some(net));
        assert(in_subnet(net.0, net.1, a) && ip == cidr_text(a, net.1));
        match chosen_cidr(config, cli, None) {
            Some(c2) => match ipv6_net_syntax(c2) {
                Some(n2) => {
                    assert(n2 == net);
                    assert(in_subnet(n2.0, n2.1, a));
                },
                None => {},
            },
            None => {},
        }
        assert(target_fits(config, cli, ip));
    }
}

/// One step of an ADD keeps what holds while it runs, and where it ends,
/// ends as `add_outcome` says.
proof fn lemma_add_run_step<O: OutputWriter>(
    ctx: CommandContext,
    state: AddState,
    event: Event,
    next: AddState,
    step: CommandStep,
    before: O,
    w: O,
)
    requires
        add_run_inv(ctx, state, event, before, w),
        add_next(ctx, state, event, next, step),
    ensures
        step is Call ==> forall|ev: Event| #[trigger] add_run_inv(ctx, next, ev, before, w),
        step matches CommandStep::WriteOutput(line) ==> (next matches AddState::Writing { target_ip } && w == before
            && add_input_problem(ctx.cni) is None
            && target_fits(config_of(ctx.cni), arg_text(ctx.args.pod_cidr), target_ip@)
            && line@ == add_result_json(
            config_of(ctx.cni),
            ctx.cni.environment.ifname->0@,
            target_ip@,
            ctx.cni.environment.netns->0@,
        )),
        !(step is WriteError),
        step matches CommandStep::Finish(r) ==> add_outcome(ctx.cni, ctx.args, before, w, r),
{
    let config = config_of(ctx.cni);
    let cli = arg_text(ctx.args.pod_cidr);
    if add_input_problem(ctx.cni) is None {
        match state {
            AddState::ReadingGateway { master, subnet } => {
                if step is Call {
                    if let AddState::Creating { target_ip, .. } = next {
                        let net = ipv6_net_syntax(chosen_cidr(config, cli, subnet_view(subnet))->0)->0;
                        lemma_planned_target_fits(config, cli, subnet_view(subnet), net, target_ip@);
                    }
                }
            },
            AddState::Writing { target_ip } => {
                if step is Finish && O::keeps_record() {
                    let line = add_result_json(
                        config,
                        ctx.cni.environment.ifname->0@,
                        target_ip@,
                        ctx.cni.environment.netns->0@,
                    );
                    assert(w.outputs().drop_last() =~= before.outputs());
                    assert(w.outputs().last() == line);
                }
            },
            _ => {},
        }
    }
}

/// What holds while a DEL runs, in each state.
pub open spec fn del_run_inv<O: OutputWriter>(ctx: CommandContext, state: DelState, event: Event, before: O, w: O) -> bool {
    match state {
        DelState::Start => event is Start && w == before,
        DelState::Probing => del_input_problem(ctx.cni) is None && w == before && event is Present,
        DelState::Deleting => del_input_problem(ctx.cni) is None && w == before && event is Done,
        DelState::Warning => {
            &&& del_input_problem(ctx.cni) is None
            &&& event is Done
            &&& O::keeps_record() ==> (event matches Event::Done(Ok(_)) && w.outputs() == before.outputs()
                && exists|x: Seq<char>| w.errors() == before.errors().push(#[trigger] del_warning(x)))
        },
        DelState::Done => false,
    }
}

/// One step of a DEL keeps what holds while it runs, and where it ends,
/// ends as `del_outcome` says.
proof fn lemma_del_run_step<O: OutputWriter>(
    ctx: CommandContext,
    state: DelState,
    event: Event,
    next: DelState,
    step: CommandStep,
    before: O,
    w: O,
)
    requires
        del_run_inv(ctx, state, event, before, w),
        del_next(ctx, state, event, next, step),
    ensures
        step matches CommandStep::Call(c) ==> forall|ev: Event| answers(c.spec(), ev) ==> #[trigger] del_run_inv(ctx, next, ev, before, w),
        step matches CommandStep::WriteError(line) ==> (next is Warning && w == before && del_input_problem(ctx.cni) is None
            && exists|x: Seq<char>| line@ == #[trigger] del_warning(x)),
        !(step is WriteOutput),
        step matches CommandStep::Finish(r) ==> del_outcome(ctx.cni, before, w, r),
{
    if del_input_problem(ctx.cni) is None {
        match state {
            DelState::Deleting => {
                if let Event::Done(Err(e)) = event {
                    assert(step->WriteError_0@ == del_warning(e@));
                }
            },
            DelState::Warning => {
                if step is Finish && O::keeps_record() {
                    let x = choose|x: Seq<char>| w.errors() == before.errors().push(#[trigger] del_warning(x));
                    assert(w.errors() == before.errors().push(del_warning(x)));
                }
            },
            _ => {},
        }
    }
}

/// What holds while a CHECK runs, in each state: nothing is written.
pub open spec fn check_run_inv<O: OutputWriter>(ctx: CommandContext, state: CheckState, event: Event, before: O, w: O) -> bool {
    &&& w == before
    &&& match state {
        CheckState::Start => event is Start,
        CheckState::Detecting => check_input_problem(ctx.cni) is None && named_master(ctx.args, ctx.cni) is None,
        CheckState::ProbingNetns { .. } => check_input_problem(ctx.cni) is None
            && config_of(ctx.cni).cni_version@ == "1.0.0"@ && !ctx.cni.is_dry_run,
        CheckState::CheckingMaster => check_input_problem(ctx.cni) is None && config_of(ctx.cni).cni_version@ == "1.0.0"@,
        CheckState::CheckingTarget => check_input_problem(ctx.cni) is None && config_of(ctx.cni).cni_version@ == "1.0.0"@,
        CheckState::Done => false,
    }
}

/// One step of a CHECK keeps what holds while it runs, and where it ends,
/// ends as `check_outcome` says.
proof fn lemma_check_run_step<O: OutputWriter>(
    ctx: CommandContext,
    state: CheckState,
    event: Event,
    next: CheckState,
    step: CommandStep,
    before: O,
    w: O,
)
    requires
        check_run_inv(ctx, state, event, before, w),
        check_next(ctx, state, event, next, step),
    ensures
        step is Call ==> forall|ev: Event| #[trigger] check_run_inv(ctx, next, ev, before, w),
        !(step is WriteOutput),
        !(step is WriteError),
        step matches CommandStep::Finish(r) ==> check_outcome(ctx.cni, ctx.args, before, w, r),
{
}

/// What holds while a STATUS runs: nothing is written until the result
/// is, and once written the result line is the last output.
pub open spec fn status_run_inv<O: OutputWriter>(ctx: CommandContext, state: StatusState, event: Event, before: O, w: O) -> bool {
    match state {
        StatusState::Start => event is Start && w == before,
        StatusState::Detecting => w == before && named_master(ctx.args, ctx.cni) is None,
        StatusState::Checking => w == before,
        StatusState::Writing => event is Done && (O::keeps_record() ==> (event matches Event::Done(Ok(_))
            && w.outputs() == before.outputs().push(success_json()) && w.errors() == before.errors())),
        _ => false,
    }
}

/// One step of a STATUS keeps what holds while it runs, and where it ends,
/// ends as `status_outcome` says.
proof fn lemma_status_run_step<O: OutputWriter>(
    ctx: CommandContext,
    state: StatusState,
    event: Event,
    next: StatusState,
    step: CommandStep,
    before: O,
    w: O,
)
    requires
        status_run_inv(ctx, state, event, before, w),
        status_next(ctx, state, event, next, step),
    ensures
        step is Call ==> forall|ev: Event| #[trigger] status_run_inv(ctx, next, ev, before, w),
        step matches CommandStep::WriteOutput(line) ==> next is Writing && w == before && line@ == success_json(),
        !(step is WriteError),
        step matches CommandStep::Finish(r) ==> status_outcome(before, w, r),
{
}

/// A STATUS found no master interface: none is named, and the detection,
/// its only call, failed.
pub open spec fn status_no_master(ctx: CommandContext, log: Seq<(CommandStep, Event)>) -> bool {
    named_master(ctx.args, ctx.cni) is None && log.len() == 1 && log[0].1 matches Event::Name(Err(_))
}

/// A run of a STATUS ends in `NoMaster` exactly where no master interface
/// was found.
proof fn lemma_status_no_master(
    ctx: CommandContext,
    log: Seq<(CommandStep, Event)>,
    states: Seq<StatusState>,
    r: CniResult<()>,
)
    requires
        status_run_along(ctx, log, states, r),
    ensures
        (states[log.len() + 1int] is NoMaster) == status_no_master(ctx, log),
        states[log.len() + 1int] is NoMaster ==> r is Err,
{
    let n = log.len() as int;
    assert(status_next(ctx, states[n], answer_before(log, n), states[n + 1], CommandStep::Finish(r)));
    if n > 0 {
        assert(status_next(ctx, states[0], answer_before(log, 0), states[1], log[0].0));
        assert(step_answered(log[0].0, log[0].1));
    }
    if n > 1 {
        assert(status_next(ctx, states[1], answer_before(log, 1), states[2], log[1].0));
    }
    if n > 2 {
        assert(status_next(ctx, states[2], answer_before(log, 2), states[3], log[2].0));
    }
}

/// Command routing configuration for testability
#[derive(Debug)]
pub struct CommandConfig {
    pub allow_unknown_commands: bool,
    pub exit_on_error: bool,
}

impl Default for CommandConfig {
    fn default() -> (r: Self)
        ensures
            !r.allow_unknown_commands,
            r.exit_on_error,
    {
        Self { allow_unknown_commands: false, exit_on_error: true }
    }
}

impl Clone for CommandConfig {
    fn clone(&self) -> (r: Self)
        ensures
            r == *self,
    {
        CommandConfig { allow_unknown_commands: self.allow_unknown_commands, exit_on_error: self.exit_on_error }
    }
}

/// Command dispatcher routes CNI commands to appropriate handlers
///
/// This separates command routing logic from the main application flow,
/// making it easier to test individual commands and add new command types.
pub struct CommandDispatcher<'a, O: OutputWriter> {
    output: &'a mut O,
    exit_requested: bool,
    steps: Ghost<Seq<(CommandStep, Event)>>,
}

impl<'a, O: OutputWriter> CommandDispatcher<'a, O> {
    /// The writer, as it stands.
    pub closed spec fn writer(&self) -> O {
        *self.output
    }

    /// The last command asked for the process to end at once with status 1:
    /// a STATUS whose master interface could not be found.
    pub closed spec fn exit_flag(&self) -> bool {
        self.exit_requested
    }

    /// Whether the last command asked for the process to end at once with
    /// status 1, reporting nothing further.
    pub fn exit_requested(&self) -> (b: bool)
        ensures
            b == self.exit_flag(),
    {
        self.exit_requested
    }

    /// The driver calls and writes of the last ADD, DEL, CHECK or STATUS, in order,
    /// each with the answer it got; empty after any other command.
    pub closed spec fn steps_taken(&self) -> Seq<(CommandStep, Event)> {
        self.steps@
    }

    /// The borrow of the writer that the dispatcher holds: what it writes
    /// through it is what the lender finds in its writer afterwards.
    pub closed spec fn output_ref(&self) -> &'a mut O {
        self.output
    }

    /// Once the dispatcher is done with the writer, the lender's writer is
    /// the writer as the dispatcher left it.
    pub proof fn lemma_writer_handed_back(&self)
        requires
            has_resolved(*self),
        ensures
            *final(self.output_ref()) == self.writer(),
    {
    }

    pub fn new(output: &'a mut O) -> (r: Self)
        ensures
            r.writer() == *old(output),
            !r.exit_flag(),
            r.steps_taken() == Seq::<(CommandStep, Event)>::empty(),
            *final(output) == *final(r.output_ref()),
    {
        Self { output, exit_requested: false, steps: Ghost(Seq::empty()) }
    }

    /// Get list of supported CNI commands
    pub fn supported_commands() -> (r: &'static [&'static str])
        ensures
            r@.len() == 6,
            r@[0]@ == "ADD"@,
            r@[1]@ == "DEL"@,
            r@[2]@ == "CHECK"@,
            r@[3]@ == "GC"@,
            r@[4]@ == "VERSION"@,
            r@[5]@ == "STATUS"@,
    {
        proof {
            reveal_strlit("ADD");
            reveal_strlit("DEL");
            reveal_strlit("CHECK");
            reveal_strlit("GC");
            reveal_strlit("VERSION");
            reveal_strlit("STATUS");
        }
        &["ADD", "DEL", "CHECK", "GC", "VERSION", "STATUS"]
    }

    /// Check if a command is supported
    pub fn is_supported_command(command: &str) -> (r: bool)
        ensures
            r == is_known_command(command@),
    {
        let commands = Self::supported_commands();
        let mut i: usize = 0;
        while i < commands.len()
            invariant
                commands@.len() == 6,
                i <= 6,
                commands@[0]@ == "ADD"@,
                commands@[1]@ == "DEL"@,
                commands@[2]@ == "CHECK"@,
                commands@[3]@ == "GC"@,
                commands@[4]@ == "VERSION"@,
                commands@[5]@ == "STATUS"@,
                forall|j: int| 0 <= j < i ==> commands@[j]@ != command@,
            decreases 6 - i,
        {
            if text_eq(commands[i], command) {
                return true;
            }
            i = i + 1;
        }
        proof {
            assert(commands@[0]@ != command@);
            assert(commands@[1]@ != command@);
            assert(commands@[2]@ != command@);
            assert(commands@[3]@ != command@);
            assert(commands@[4]@ != command@);
            assert(commands@[5]@ != command@);
        }
        false
    }
}

impl<'a, O: OutputWriter> CommandDispatcher<'a, O> {
    /// Dispatch a CNI command to its appropriate handler
    ///
    /// Returns an error if the command is unknown or if the handler fails.
    pub fn dispatch<D: NetworkDriver>(
        &mut self,
        command: &str,
        args: &Args,
        cni_context: &CniContext,
        driver: &D,
    ) -> (r: CniResult<()>)
        ensures
            dispatch_outcome(command@, *args, *cni_context, old(self).writer(), final(self).writer(), r),
            *final(final(self).output_ref()) == *final(old(self).output_ref()),
            final(self).exit_flag() == (command@ == "STATUS"@ && status_no_master(
                (CommandContext { args: *args, cni: *cni_context }),
                final(self).steps_taken(),
            )),
            final(self).exit_flag() ==> r is Err,
            dispatch_run(command@, *args, *cni_context, final(self).steps_taken(), r),
    {
        self.exit_requested = false;
        self.steps = Ghost(Seq::empty());
        let ctx = CommandContext::new(args.clone(), cni_context.clone());
        let ghost before = self.writer();
        proof {
            reveal_strlit("ADD");
            reveal_strlit("DEL");
            reveal_strlit("CHECK");
            reveal_strlit("GC");
            reveal_strlit("VERSION");
            reveal_strlit("STATUS");
            assert("ADD"@[0] != "DEL"@[0]);
            assert("ADD"@.len() == 3 && "DEL"@.len() == 3 && "GC"@.len() == 2 && "CHECK"@.len() == 5);
            assert("VERSION"@.len() == 7 && "STATUS"@.len() == 6);
        }
        if text_eq(command, "ADD") {
            let r = self.cmd_add(&ctx, driver);
            proof {
                lemma_same_context_outcomes(ctx.cni, *cni_context, *args, before, self.writer(), r);
                assert(ctx == (CommandContext { args: *args, cni: ctx.cni }));
                assert(ctx.cni.same_as(cni_context));
            }
            r
        } else if text_eq(command, "DEL") {
            let r = self.cmd_del(&ctx, driver);
            proof {
                lemma_same_context_outcomes(ctx.cni, *cni_context, *args, before, self.writer(), r);
                assert(ctx == (CommandContext { args: *args, cni: ctx.cni }));
                assert(ctx.cni.same_as(cni_context));
            }
            r
        } else if text_eq(command, "CHECK") {
            let r = self.cmd_check(&ctx, driver);
            proof {
                lemma_same_context_outcomes(ctx.cni, *cni_context, *args, before, self.writer(), r);
                assert(ctx == (CommandContext { args: *args, cni: ctx.cni }));
                assert(ctx.cni.same_as(cni_context));
            }
            r
        } else if text_eq(command, "GC") {
            let r = self.cmd_success(&ctx);
            r
        } else if text_eq(command, "VERSION") {
            let r = self.cmd_version(&ctx);
            r
        } else if text_eq(command, "STATUS") {
            let r = self.cmd_status(&ctx, driver);
            proof {
                assert(ctx == (CommandContext { args: *args, cni: ctx.cni }));
                assert(ctx.cni.same_as(cni_context));
                assert(named_master(ctx.args, ctx.cni) == named_master(*args, *cni_context));
            }
            r
        } else {
            let line = String::from_str("Unknown CNI_COMMAND: ").concat(command);
            match self.output.write_error(line.as_str()) {
                Ok(()) => {},
                Err(e) => {
                    return Err(general(e));
                },
            }
            Err(CniError::Command(CommandError::UnknownCommand { command: String::from_str(command) }))
        }
    }

    /// Dispatch command with configuration options for testing. An unknown
    /// command that the configuration does not allow is reported on the
    /// error output and returned as an error; a caller whose configuration
    /// asks to exit on error ends the process on it.
    pub fn dispatch_with_config<D: NetworkDriver>(
        &mut self,
        command: &str,
        args: &Args,
        cni_context: &CniContext,
        driver: &D,
        config: &CommandConfig,
    ) -> (r: CniResult<()>)
        ensures
            dispatch_outcome(command@, *args, *cni_context, old(self).writer(), final(self).writer(), r),
            *final(final(self).output_ref()) == *final(old(self).output_ref()),
            final(self).exit_flag() == (command@ == "STATUS"@ && status_no_master(
                (CommandContext { args: *args, cni: *cni_context }),
                final(self).steps_taken(),
            )),
            final(self).exit_flag() ==> r is Err,
            dispatch_run(command@, *args, *cni_context, final(self).steps_taken(), r),
    {
        if !Self::is_supported_command(command) && !config.allow_unknown_commands {
            self.exit_requested = false;
            self.steps = Ghost(Seq::empty());
            let line = String::from_str("Unknown CNI_COMMAND: ").concat(command);
            match self.output.write_error(line.as_str()) {
                Ok(()) => {},
                Err(e) => {
                    return Err(general(e));
                },
            }
            return Err(CniError::Command(CommandError::UnknownCommand { command: String::from_str(command) }));
        }
        self.dispatch(command, args, cni_context, driver)
    }

    /// Writes one line to the output; a failed write becomes a general error.
    fn reply(&mut self, line: &str) -> (r: CniResult<()>)
        ensures
            reply_outcome(line@, old(self).writer(), final(self).writer(), r),
            *final(final(self).output_ref()) == *final(old(self).output_ref()),
            final(self).exit_flag() == old(self).exit_flag(),
            final(self).steps_taken() == old(self).steps_taken(),
    {
        match self.output.write_output(line) {
            Ok(()) => Ok(()),
            Err(e) => Err(general(e)),
        }
    }

    fn cmd_version(&mut self, ctx: &CommandContext) -> (r: CniResult<()>)
        ensures
            reply_outcome(version_text(), old(self).writer(), final(self).writer(), r),
            *final(final(self).output_ref()) == *final(old(self).output_ref()),
            final(self).exit_flag() == old(self).exit_flag(),
            final(self).steps_taken() == old(self).steps_taken(),
    {
        let response = CniOrchestrator::create_version_response();
        self.reply(response)
    }

    fn cmd_success(&mut self, ctx: &CommandContext) -> (r: CniResult<()>)
        ensures
            reply_outcome(success_json(), old(self).writer(), final(self).writer(), r),
            *final(final(self).output_ref()) == *final(old(self).output_ref()),
            final(self).exit_flag() == old(self).exit_flag(),
            final(self).steps_taken() == old(self).steps_taken(),
    {
        let result = CniOrchestrator::create_success_result();
        let text = result.to_json_string();
        self.reply(text.as_str())
    }

    /// Runs an ADD: each step of `add_step` is carried out on the driver
    /// or the writer, and its answer fed to the next step.
    fn cmd_add<D: NetworkDriver>(&mut self, ctx: &CommandContext, driver: &D) -> (r: CniResult<()>)
        ensures
            add_outcome(ctx.cni, ctx.args, old(self).writer(), final(self).writer(), r),
            add_run(*ctx, final(self).steps_taken(), r),
            *final(final(self).output_ref()) == *final(old(self).output_ref()),
            final(self).exit_flag() == old(self).exit_flag(),
    {
        let ghost before = self.writer();
        let mut state = AddState::Start;
        let mut event = Event::Start;
        self.steps = Ghost(Seq::empty());
        let ghost mut states: Seq<AddState> = seq![AddState::Start];
        loop
            invariant
                add_run_inv(*ctx, state, event, before, self.writer()),
                before == old(self).writer(),
                *final(self.output_ref()) == *final(old(self).output_ref()),
                self.exit_flag() == old(self).exit_flag(),
                states.len() == self.steps@.len() + 1,
                states[0] == AddState::Start,
                states.last() == state,
                event == answer_before(self.steps@, self.steps@.len() as int),
                forall|i: int|
                    #![trigger self.steps@[i]]
                    0 <= i < self.steps@.len() ==> add_next(*ctx, states[i], answer_before(self.steps@, i), states[i + 1], self.steps@[i].0)
                        && step_answered(self.steps@[i].0, self.steps@[i].1),
            decreases add_rank(state),
        {
            let ghost s0 = state;
            let ghost e0 = event;
            let ghost w0 = self.writer();
            let ghost log0 = self.steps@;
            let (next, step) = add_step(ctx, state, event);
            let ghost n0 = next;
            let ghost st = step;
            proof {
                lemma_add_run_step(*ctx, s0, e0, next, step, before, w0);
            }
            match step {
                CommandStep::Call(call) => {
                    event = perform(driver, &call);
                    state = next;
                },
                CommandStep::WriteOutput(line) => {
                    event = Event::Done(self.output.write_output(line.as_str()));
                    state = next;
                },
                CommandStep::WriteError(line) => {
                    event = Event::Done(self.output.write_error(line.as_str()));
                    state = next;
                },
                CommandStep::Finish(r) => {
                    proof {
                        let full = states.push(n0);
                        assert(add_run_along(*ctx, log0, full, r));
                    }
                    return r;
                },
            }
            self.steps = Ghost(log0.push((st, event)));
            proof {
                states = states.push(n0);
                assert forall|i: int|
                    #![trigger self.steps@[i]]
                    0 <= i < self.steps@.len() implies add_next(*ctx, states[i], answer_before(self.steps@, i), states[i + 1], self.steps@[i].0)
                        && step_answered(self.steps@[i].0, self.steps@[i].1) by {
                    if i < log0.len() {
                        assert(self.steps@[i] == log0[i]);
                        assert(answer_before(self.steps@, i) == answer_before(log0, i));
                    }
                }
            }
        }
    }

    /// Runs a DEL: each step of `del_step` is carried out on the driver or
    /// the writer, and its answer fed to the next step.
    fn cmd_del<D: NetworkDriver>(&mut self, ctx: &CommandContext, driver: &D) -> (r: CniResult<()>)
        ensures
            del_outcome(ctx.cni, old(self).writer(), final(self).writer(), r),
            del_run(*ctx, final(self).steps_taken(), r),
            *final(final(self).output_ref()) == *final(old(self).output_ref()),
            final(self).exit_flag() == old(self).exit_flag(),
    {
        let ghost before = self.writer();
        let mut state = DelState::Start;
        let mut event = Event::Start;
        self.steps = Ghost(Seq::empty());
        let ghost mut states: Seq<DelState> = seq![DelState::Start];
        loop
            invariant
                del_run_inv(*ctx, state, event, before, self.writer()),
                before == old(self).writer(),
                *final(self.output_ref()) == *final(old(self).output_ref()),
                self.exit_flag() == old(self).exit_flag(),
                states.len() == self.steps@.len() + 1,
                states[0] == DelState::Start,
                states.last() == state,
                event == answer_before(self.steps@, self.steps@.len() as int),
                forall|i: int|
                    #![trigger self.steps@[i]]
                    0 <= i < self.steps@.len() ==> del_next(*ctx, states[i], answer_before(self.steps@, i), states[i + 1], self.steps@[i].0)
                        && step_answered(self.steps@[i].0, self.steps@[i].1),
            decreases del_rank(state),
        {
            let ghost s0 = state;
            let ghost e0 = event;
            let ghost w0 = self.writer();
            let ghost log0 = self.steps@;
            let (next, step) = del_step(ctx, state, event);
            let ghost n0 = next;
            let ghost st = step;
            proof {
                lemma_del_run_step(*ctx, s0, e0, next, step, before, w0);
            }
            match step {
                CommandStep::Call(call) => {
                    event = perform(driver, &call);
                    state = next;
                },
                CommandStep::WriteOutput(line) => {
                    event = Event::Done(self.output.write_output(line.as_str()));
                    state = next;
                },
                CommandStep::WriteError(line) => {
                    event = Event::Done(self.output.write_error(line.as_str()));
                    state = next;
                },
                CommandStep::Finish(r) => {
                    proof {
                        let full = states.push(n0);
                        assert(del_run_along(*ctx, log0, full, r));
                    }
                    return r;
                },
            }
            self.steps = Ghost(log0.push((st, event)));
            proof {
                states = states.push(n0);
                assert forall|i: int|
                    #![trigger self.steps@[i]]
                    0 <= i < self.steps@.len() implies del_next(*ctx, states[i], answer_before(self.steps@, i), states[i + 1], self.steps@[i].0)
                        && step_answered(self.steps@[i].0, self.steps@[i].1) by {
                    if i < log0.len() {
                        assert(self.steps@[i] == log0[i]);
                        assert(answer_before(self.steps@, i) == answer_before(log0, i));
                    }
                }
            }
        }
    }

    /// Runs a CHECK: each step of `check_step` is carried out on the
    /// driver, and its answer fed to the next step.
    fn cmd_check<D: NetworkDriver>(&mut self, ctx: &CommandContext, driver: &D) -> (r: CniResult<()>)
        ensures
            check_outcome(ctx.cni, ctx.args, old(self).writer(), final(self).writer(), r),
            check_run(*ctx, final(self).steps_taken(), r),
            *final(final(self).output_ref()) == *final(old(self).output_ref()),
            final(self).exit_flag() == old(self).exit_flag(),
    {
        let ghost before = self.writer();
        let mut state = CheckState::Start;
        let mut event = Event::Start;
        self.steps = Ghost(Seq::empty());
        let ghost mut states: Seq<CheckState> = seq![CheckState::Start];
        loop
            invariant
                check_run_inv(*ctx, state, event, before, self.writer()),
                before == old(self).writer(),
                *final(self.output_ref()) == *final(old(self).output_ref()),
                self.exit_flag() == old(self).exit_flag(),
                states.len() == self.steps@.len() + 1,
                states[0] == CheckState::Start,
                states.last() == state,
                event == answer_before(self.steps@, self.steps@.len() as int),
                forall|i: int|
                    #![trigger self.steps@[i]]
                    0 <= i < self.steps@.len() ==> check_next(*ctx, states[i], answer_before(self.steps@, i), states[i + 1], self.steps@[i].0)
                        && step_answered(self.steps@[i].0, self.steps@[i].1),
            decreases check_rank(state),
        {
            let ghost s0 = state;
            let ghost e0 = event;
            let ghost log0 = self.steps@;
            let (next, step) = check_step(ctx, state, event);
            let ghost n0 = next;
            let ghost st = step;
            proof {
                lemma_check_run_step(*ctx, s0, e0, next, step, before, self.writer());
            }
            match step {
                CommandStep::Call(call) => {
                    event = perform(driver, &call);
                    state = next;
                },
                CommandStep::Finish(r) => {
                    proof {
                        let full = states.push(n0);
                        assert(check_run_along(*ctx, log0, full, r));
                    }
                    return r;
                },
                _ => {
                    return Err(general(String::from_str("Unexpected answer to a driver call")));
                },
            }
            self.steps = Ghost(log0.push((st, event)));
            proof {
                states = states.push(n0);
                assert forall|i: int|
                    #![trigger self.steps@[i]]
                    0 <= i < self.steps@.len() implies check_next(*ctx, states[i], answer_before(self.steps@, i), states[i + 1], self.steps@[i].0)
                        && step_answered(self.steps@[i].0, self.steps@[i].1) by {
                    if i < log0.len() {
                        assert(self.steps@[i] == log0[i]);
                        assert(answer_before(self.steps@, i) == answer_before(log0, i));
                    }
                }
            }
        }
    }

    /// Runs a STATUS: each step of `status_step` is carried out on the
    /// driver or the writer, and its answer fed to the next step. Where no
    /// master interface can be found the exit flag is set.
    fn cmd_status<D: NetworkDriver>(&mut self, ctx: &CommandContext, driver: &D) -> (r: CniResult<()>)
        requires
            !old(self).exit_flag(),
        ensures
            status_outcome(old(self).writer(), final(self).writer(), r),
            status_run(*ctx, final(self).steps_taken(), r),
            *final(final(self).output_ref()) == *final(old(self).output_ref()),
            final(self).exit_flag() == status_no_master(*ctx, final(self).steps_taken()),
            final(self).exit_flag() ==> r is Err,
    {
        let ghost before = self.writer();
        let mut state = StatusState::Start;
        let mut event = Event::Start;
        self.steps = Ghost(Seq::empty());
        let ghost mut states: Seq<StatusState> = seq![StatusState::Start];
        loop
            invariant
                status_run_inv(*ctx, state, event, before, self.writer()),
                before == old(self).writer(),
                *final(self.output_ref()) == *final(old(self).output_ref()),
                !self.exit_flag(),
                states.len() == self.steps@.len() + 1,
                states[0] == StatusState::Start,
                states.last() == state,
                event == answer_before(self.steps@, self.steps@.len() as int),
                forall|i: int|
                    #![trigger self.steps@[i]]
                    0 <= i < self.steps@.len() ==> status_next(*ctx, states[i], answer_before(self.steps@, i), states[i + 1], self.steps@[i].0)
                        && step_answered(self.steps@[i].0, self.steps@[i].1),
            decreases status_rank(state),
        {
            let ghost s0 = state;
            let ghost e0 = event;
            let ghost w0 = self.writer();
            let ghost log0 = self.steps@;
            let (next, step) = status_step(ctx, state, event);
            let ghost n0 = next;
            let ghost st = step;
            proof {
                lemma_status_run_step(*ctx, s0, e0, next, step, before, w0);
            }
            match step {
                CommandStep::Call(call) => {
                    event = perform(driver, &call);
                    state = next;
                },
                CommandStep::WriteOutput(line) => {
                    event = Event::Done(self.output.write_output(line.as_str()));
                    state = next;
                },
                CommandStep::WriteError(line) => {
                    event = Event::Done(self.output.write_error(line.as_str()));
                    state = next;
                },
                CommandStep::Finish(r) => {
                    if let StatusState::NoMaster = next {
                        // No master interface: the process ends with status 1.
                        self.exit_requested = true;
                    }
                    proof {
                        let full = states.push(n0);
                        assert(status_run_along(*ctx, log0, full, r));
                        lemma_status_no_master(*ctx, log0, full, r);
                    }
                    return r;
                },
            }
            self.steps = Ghost(log0.push((st, event)));
            proof {
                states = states.push(n0);
                assert forall|i: int|
                    #![trigger self.steps@[i]]
                    0 <= i < self.steps@.len() implies status_next(*ctx, states[i], answer_before(self.steps@, i), states[i + 1], self.steps@[i].0)
                        && step_answered(self.steps@[i].0, self.steps@[i].1) by {
                    if i < log0.len() {
                        assert(self.steps@[i] == log0[i]);
                        assert(answer_before(self.steps@, i) == answer_before(log0, i));
                    }
                }
            }
        }
    }
}

} // verus!
