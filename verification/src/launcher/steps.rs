//! What each step of a launch does with what it is told.

use vstd::prelude::*;
use vstd::string::*;

use crate::launcher::conda_meta;
use crate::launcher::location;
use crate::launcher::machine;
use crate::launcher::machine::{Action, Event, ExecPlan, Failure, Launcher, Phase, Secret};
use crate::launcher::prefix;
use crate::launcher::profile;
use crate::text;

verus! {

/// A launch begins with nothing known. A sandboxed process hands over to the interpreter at
/// once; any other collects its arguments first.
pub proof fn law_beginning<E>(cap_file_set: bool, l: Launcher, action: Action<E>)
    requires
        machine::starts(cap_file_set, l, action),
    ensures
        cap_file_set ==> l.phase is Sandboxed && action is RunPython,
        !cap_file_set ==> l.phase is Args && action is CollectArgs,
        l.args@.len() == 0,
        l.prefix.parts@.len() == 0,
        l.home is None,
        l.roots@.len() == 0,
        l.profile@.len() == 0,
        l.prepared.secrets@.len() == 0,
        !l.prepared.before_hook && !l.prepared.after_hook && !l.prepared.proxy_only,
        !l.proxy_active,
        l.proxy_env@.len() == 0,
        l.cap_file@.len() == 0,
        l.start_dir@.len() == 0,
        l.self_exe@.len() == 0,
        l.session_id is None,
        l.hook_env@.len() == 0,
        l.exit_code == 0,
{
}

/// Whatever a launch is told is kept as it came, and only where it waits for it: each fact
/// changes in its own phase, and in no other.
pub proof fn law_facts_are_kept_as_they_came<E>(
    l: Launcher,
    event: Event<E>,
    n: Launcher,
    action: Action<E>,
)
    requires
        machine::advances(l, event, n, action),
    ensures
        l.phase is Args && event is Args ==> n.args == event->Args_0,
        !(l.phase is Args && event is Args) ==> n.args == l.args,
        !(l.phase is Exe && event is Exe) ==> n.prefix.parts == l.prefix.parts,
        l.phase is Shown && event is Shown ==> n.prefix.shown == event->Shown_0,
        !(l.phase is Shown && event is Shown) ==> n.prefix.shown == l.prefix.shown,
        l.phase is Home && event is Home && event->Home_0 is Ok && !(n.phase is Failed) ==> n.home
            == Some(event->Home_0->Ok_0),
        !(l.phase is Home && event is Home) ==> n.home == l.home,
        l.phase is Roots && event is Roots && event->Roots_0 is Ok && !(n.phase is Failed)
            ==> n.roots == event->Roots_0->Ok_0,
        !(l.phase is Roots && event is Roots) ==> n.roots == l.roots,
        !(l.phase is ProfileVar && event is ProfileVar) && !(l.phase is State && event is State)
            ==> n.profile == l.profile,
        l.phase is Prepare && event is Prepared && event->Prepared_0 is Ok ==> n.prepared
            == event->Prepared_0->Ok_0,
        !(l.phase is Prepare && event is Prepared) ==> n.prepared == l.prepared,
        l.phase is ProxyOptions && event is ProxyOptions && event->ProxyOptions_0 is Ok
            ==> n.proxy_active == event->ProxyOptions_0->Ok_0,
        !(l.phase is ProxyOptions && event is ProxyOptions) ==> n.proxy_active == l.proxy_active,
        l.phase is StartProxy && event is ProxyStarted && event->ProxyStarted_0 is Ok
            ==> n.proxy_env == event->ProxyStarted_0->Ok_0,
        !(l.phase is StartProxy && event is ProxyStarted) ==> n.proxy_env == l.proxy_env,
        l.phase is WorkDir && event is WorkDir && event->WorkDir_0 is Some ==> n.start_dir
            == event->WorkDir_0->0,
        l.phase is WorkDir && event is WorkDir && event->WorkDir_0 is None ==> n.start_dir@
            == "/".spec_bytes(),
        l.phase is StartDir && event is StartDir && event->StartDir_0 is Ok ==> n.start_dir
            == event->StartDir_0->Ok_0,
        !(l.phase is WorkDir && event is WorkDir) && !(l.phase is StartDir && event is StartDir)
            ==> n.start_dir == l.start_dir,
        l.phase is SelfExe && event is SelfExe ==> n.self_exe == event->SelfExe_0,
        !(l.phase is SelfExe && event is SelfExe) ==> n.self_exe == l.self_exe,
        l.phase is SessionId && event is SessionId ==> n.session_id == Some(event->SessionId_0),
        !(l.phase is SessionId && event is SessionId) ==> n.session_id == l.session_id,
        l.phase is BeforeHook && event is BeforeHook && event->BeforeHook_0 is Some ==> n.hook_env
            == event->BeforeHook_0->0,
        l.phase is BeforeHook && event is BeforeHook && event->BeforeHook_0 is None ==> n.hook_env
            == l.hook_env,
        !(l.phase is BeforeHook && event is BeforeHook) ==> n.hook_env == l.hook_env,
        l.phase is CapFile && event is CapFile && event->CapFile_0 is Some ==> n.cap_file
            == event->CapFile_0->0,
        l.phase is CapFile && event is CapFile && event->CapFile_0 is None ==> n.cap_file@
            == "/dev/null".spec_bytes(),
        !(l.phase is CapFile && event is CapFile) ==> n.cap_file == l.cap_file,
        l.phase is Execute && event is Exited && event->Exited_0 is Ok ==> n.exit_code
            == event->Exited_0->Ok_0,
        !(l.phase is Execute && event is Exited) ==> n.exit_code == l.exit_code,
{
}

/// What failed outside ends the launch, and is handed on as it came; nothing is tried again
/// or passed over.
pub proof fn law_failures_are_handed_on<E>(
    l: Launcher,
    event: Event<E>,
    n: Launcher,
    action: Action<E>,
)
    requires
        machine::advances(l, event, n, action),
    ensures
        l.phase is Exe && event is Exe && event->Exe_0 is Err ==> n.phase is Failed && action
            == Action::Fail(Failure::Host(event->Exe_0->Err_0)),
        l.phase is Home && event is Home && event->Home_0 is Err ==> n.phase is Failed && action
            == Action::Fail(Failure::Host(event->Home_0->Err_0)),
        l.phase is Roots && event is Roots && event->Roots_0 is Err ==> n.phase is Failed && action
            == Action::Fail(Failure::Host(event->Roots_0->Err_0)),
        l.phase is Prepare && event is Prepared && event->Prepared_0 is Err ==> n.phase is Failed
            && action == Action::Fail(Failure::Host(event->Prepared_0->Err_0)),
        l.phase is Bypass && event is Bypass && event->Bypass_0 is Err ==> n.phase is Failed
            && action == Action::Fail(Failure::Host(event->Bypass_0->Err_0)),
        l.phase is ProxyOptions && event is ProxyOptions && event->ProxyOptions_0 is Err ==> n.phase
            is Failed && action == Action::Fail(Failure::Host(event->ProxyOptions_0->Err_0)),
        l.phase is StartProxy && event is ProxyStarted && event->ProxyStarted_0 is Err ==> n.phase
            is Failed && action == Action::Fail(Failure::Host(event->ProxyStarted_0->Err_0)),
        l.phase is StartDir && event is StartDir && event->StartDir_0 is Err ==> n.phase is Failed
            && action == Action::Fail(Failure::Host(event->StartDir_0->Err_0)),
        l.phase is Defaults && event is Defaults && event->Defaults_0 is Err ==> n.phase is Failed
            && action == Action::Fail(Failure::Host(event->Defaults_0->Err_0)),
        l.phase is Execute && event is Exited && event->Exited_0 is Err ==> n.phase is Failed
            && action == Action::Fail(Failure::Host(event->Exited_0->Err_0)),
        (l.phase is Exe || l.phase is SelfExe) && event is NoExe ==> {
            &&& n.phase is Failed
            &&& action is Fail && action->Fail_0 is SandboxInit
            &&& action->Fail_0->SandboxInit_0@ == "cannot determine current_exe: "@
                + event->NoExe_0@
        },
{
}

/// Where a step succeeds the launch goes on to the one step that is next.
pub proof fn law_what_comes_next<E>(l: Launcher, event: Event<E>, n: Launcher, action: Action<E>)
    requires
        machine::advances(l, event, n, action),
    ensures
        l.phase is Args && event is Args ==> n.phase is Exe && action is ResolveExe,
        l.phase is Register && event is Registered ==> n.phase is ProfileVar && action
            is ReadProfileVar,
        l.phase is State && event is State ==> n.phase is Prepare && action == (
        Action::<E>::PrepareSandbox { allow_cwd: true }),
        l.phase is Prepare && event is Prepared && event->Prepared_0 is Ok ==> n.phase is Bypass
            && action is CheckProxyBypass,
        l.phase is ProxyOptions && event is ProxyOptions && event->ProxyOptions_0 is Ok ==> n.phase
            is StartProxy && action is StartProxy,
        l.phase is StartProxy && event is ProxyStarted && event->ProxyStarted_0 is Ok ==> n.phase
            is WorkDir && action is FindWorkDir,
        l.phase is WorkDir && event is WorkDir ==> n.phase is StartDir && action is FindStartDir,
        l.phase is StartDir && event is StartDir && event->StartDir_0 is Ok ==> n.phase is SelfExe
            && action is FindSelfExe,
        l.phase is SelfExe && event is SelfExe ==> n.phase is Defaults && action is PrepareDefaults,
        l.phase is Defaults && event is Defaults && event->Defaults_0 is Ok && (
        l.prepared.before_hook || l.prepared.after_hook) ==> n.phase is SessionId && action
            is MakeSessionId,
        l.phase is Defaults && event is Defaults && event->Defaults_0 is Ok
            && !l.prepared.before_hook && !l.prepared.after_hook ==> n.phase is CapFile && action
            is WriteCapFile,
        l.phase is SessionId && event is SessionId && l.prepared.before_hook ==> n.phase
            is BeforeHook && action is RunBeforeHook,
        l.phase is SessionId && event is SessionId && !l.prepared.before_hook ==> n.phase is CapFile
            && action is WriteCapFile,
        l.phase is BeforeHook && event is BeforeHook ==> n.phase is CapFile && action
            is WriteCapFile,
        l.phase is CapFile && event is CapFile ==> n.phase is HostFacts && action == Action::<
            E,
        >::InspectHost(l.prepared.proxy_only),
        l.phase is HostFacts && event is HostFacts ==> n.phase is Execute && action is Execute,
        l.phase is Execute && event is Exited && event->Exited_0 is Ok && l.prepared.after_hook
            ==> n.phase is AfterHook && action is RunAfterHook,
        l.phase is Execute && event is Exited && event->Exited_0 is Ok && !l.prepared.after_hook
            ==> n.phase is Cleanup && action is CleanUp,
        l.phase is AfterHook && event is AfterHook ==> n.phase is Cleanup && action is CleanUp,
        l.phase is Cleanup && event is CleanedUp ==> n.phase is Finished && action == Action::<
            E,
        >::Exit(l.exit_code),
{
}

/// The prefix goes through its checks one after the other: the launch takes the prefix of the
/// executable, and each check lets it on to the next or ends the launch with its report.
pub proof fn law_prefix_goes_through_its_checks<E>(
    l: Launcher,
    event: Event<E>,
    n: Launcher,
    action: Action<E>,
)
    requires
        machine::advances(l, event, n, action),
    ensures
        l.phase is Exe && event is Exe && event->Exe_0 is Ok ==> match prefix::prefix_of(
            location::parts_of((event->Exe_0->Ok_0).parts@),
            (event->Exe_0->Ok_0).shown@,
        ) {
            Ok(parts) => n.phase is Shown && action is ShowPrefix && location::parts_of(
                n.prefix.parts@,
            ) == parts,
            Err(message) => is_refusal(n, action, message),
        },
        l.phase is Shown && event is Shown ==> match prefix::shape_refusal(
            location::parts_of(l.prefix.parts@),
            event->Shown_0@,
        ) {
            None => n.phase is Home && action is LookUpHome,
            Some(message) => is_refusal(n, action, message),
        },
        l.phase is Home && event is Home && event->Home_0 is Ok ==> match prefix::home_refusal(
            location::parts_of(l.prefix.parts@),
            l.prefix.shown@,
            event->Home_0->Ok_0,
        ) {
            None => n.phase is Roots && action is LookUpRoots,
            Some(message) => is_refusal(n, action, message),
        },
        l.phase is Roots && event is Roots && event->Roots_0 is Ok ==> match prefix::roots_refusal(
            location::parts_of(l.prefix.parts@),
            l.prefix.shown@,
            (event->Roots_0->Ok_0)@,
            0,
        ) {
            None => n.phase is Register && action is RegisterPrefix,
            Some(message) => is_refusal(n, action, message),
        },
{
}

/// Whether the launch is over with this report.
pub open spec fn is_refusal<E>(n: Launcher, action: Action<E>, message: Seq<char>) -> bool {
    n.phase is Failed && action is Fail && action->Fail_0 is SandboxInit
        && action->Fail_0->SandboxInit_0@ == message
}

/// The profile is the name in the variable; without one the state file below the prefix is
/// read, and the profile is the name in it, or else the default.
pub proof fn law_profile_of_a_launch<E>(
    l: Launcher,
    event: Event<E>,
    n: Launcher,
    action: Action<E>,
)
    requires
        machine::advances(l, event, n, action),
    ensures
        l.phase is ProfileVar && event is ProfileVar ==> match profile::name_in(
            text::string_of(event->ProfileVar_0),
        ) {
            Some(name) => n.phase is Prepare && n.profile@ == name && action == (
            Action::<E>::PrepareSandbox { allow_cwd: true }),
            None => n.phase is State && action is ReadState && location::parts_of(
                (action->ReadState_0)@,
            ) == location::parts_of(l.prefix.parts@) + seq![
                location::Part::Normal("conda-meta".spec_bytes()),
                location::Part::Normal("state".spec_bytes()),
            ],
        },
        l.phase is State && event is State ==> n.profile@ == profile::profile_for(
            None,
            conda_meta::state_variable(
                text::string_of(event->State_0),
                "CONDA_PYTHON_PROFILE"@,
            ),
        ),
{
    conda_meta::law_place_of_the_state_file(location::parts_of(l.prefix.parts@));
}

/// The first dangerous secret ends the launch, with its variable in the report, once the
/// proxy bypass is in order; without one the launch goes on to the proxy.
pub proof fn law_dangerous_secrets_end_the_launch<E>(
    l: Launcher,
    event: Event<E>,
    n: Launcher,
    action: Action<E>,
    k: int,
)
    requires
        machine::advances(l, event, n, action),
        l.phase is Bypass && event is Bypass && event->Bypass_0 is Ok,
    ensures
        (forall|i: int|
            0 <= i < l.prepared.secrets@.len() ==> !(#[trigger] l.prepared.secrets@[i]).dangerous)
            ==> n.phase is ProxyOptions && action is PrepareProxy,
        0 <= k < l.prepared.secrets@.len() && l.prepared.secrets@[k].dangerous && (forall|i: int|
            0 <= i < k ==> !(#[trigger] l.prepared.secrets@[i]).dangerous) ==> {
            &&& n.phase is Failed
            &&& action is Fail && action->Fail_0 is ConfigParse
            &&& action->Fail_0->ConfigParse_0@
                == "secret mapping targets dangerous environment variable: "@
                + l.prepared.secrets@[k].env_var@
        },
{
    let secrets = l.prepared.secrets@;
    if forall|i: int| 0 <= i < secrets.len() ==> !(#[trigger] secrets[i]).dangerous {
        lemma_no_dangerous_found(secrets, 0);
    }
    if 0 <= k < secrets.len() && secrets[k].dangerous && forall|i: int|
        0 <= i < k ==> !(#[trigger] secrets[i]).dangerous {
        lemma_first_dangerous(secrets, 0, k);
    }
}

/// Without a dangerous secret none is found.
proof fn lemma_no_dangerous_found(secrets: Seq<Secret>, from: int)
    requires
        0 <= from,
        forall|i: int| 0 <= i < secrets.len() ==> !(#[trigger] secrets[i]).dangerous,
    ensures
        machine::dangerous_from(secrets, from) is None,
    decreases secrets.len() - from,
{
    if from < secrets.len() {
        lemma_no_dangerous_found(secrets, from + 1);
    }
}

/// The first dangerous secret is the one that is found.
proof fn lemma_first_dangerous(secrets: Seq<Secret>, from: int, k: int)
    requires
        0 <= from <= k < secrets.len(),
        secrets[k].dangerous,
        forall|i: int| 0 <= i < k ==> !(#[trigger] secrets[i]).dangerous,
    ensures
        machine::dangerous_from(secrets, from) == Some(k),
    decreases k - from,
{
    if from < k {
        lemma_first_dangerous(secrets, from + 1, k);
    }
}

/// Whether the launch waits for this event.
pub open spec fn is_awaited<E>(phase: Phase, event: Event<E>) -> bool {
    match event {
        Event::Args(_) => phase is Args,
        Event::Exe(_) => phase is Exe,
        Event::Shown(_) => phase is Shown,
        Event::Home(_) => phase is Home,
        Event::Roots(_) => phase is Roots,
        Event::Registered => phase is Register,
        Event::ProfileVar(_) => phase is ProfileVar,
        Event::State(_) => phase is State,
        Event::Prepared(_) => phase is Prepare,
        Event::Bypass(_) => phase is Bypass,
        Event::ProxyOptions(_) => phase is ProxyOptions,
        Event::ProxyStarted(_) => phase is StartProxy,
        Event::WorkDir(_) => phase is WorkDir,
        Event::StartDir(_) => phase is StartDir,
        Event::SelfExe(_) => phase is SelfExe,
        Event::NoExe(_) => phase is Exe || phase is SelfExe,
        Event::Defaults(_) => phase is Defaults,
        Event::SessionId(_) => phase is SessionId,
        Event::BeforeHook(_) => phase is BeforeHook,
        Event::CapFile(_) => phase is CapFile,
        Event::HostFacts { .. } => phase is HostFacts,
        Event::Exited(_) => phase is Execute,
        Event::AfterHook => phase is AfterHook,
        Event::CleanedUp => phase is Cleanup,
    }
}

/// An event that the launch waits for is always taken up, and any other changes nothing.
pub proof fn law_awaited_events_are_taken_up<E>(
    l: Launcher,
    event: Event<E>,
    n: Launcher,
    action: Action<E>,
)
    requires
        machine::advances(l, event, n, action),
    ensures
        is_awaited(l.phase, event) <==> !(action is Unexpected),
        !is_awaited(l.phase, event) ==> n == l,
        is_awaited(l.phase, event) ==> n.phase != l.phase,
{
}

/// The sandboxed process is run as the launch was told: the executable and then the arguments
/// behind `argv[0]`; the variables of the hook, then those of the secrets, then those of the
/// proxy, each of them whole and in order, and the original `argv[0]` last.
pub proof fn law_plan(
    l: Launcher,
    diagnostics: Option<Vec<String>>,
    rules: Option<bool>,
    plan: ExecPlan,
    i: int,
)
    requires
        machine::is_plan(l, diagnostics, rules, plan),
    ensures
        plan.command@.len() == (if l.args@.len() == 0 {
            1
        } else {
            l.args@.len()
        }),
        plan.command@[0]@ == l.self_exe@,
        1 <= i < l.args@.len() ==> plan.command@[i]@ == l.args@[i]@,
        plan.env_vars@.len() == l.hook_env@.len() + l.prepared.secrets@.len() + l.proxy_env@.len()
            + 1,
        0 <= i < l.hook_env@.len() ==> plan.env_vars@[i].0@ == l.hook_env@[i].0@
            && plan.env_vars@[i].1@ == l.hook_env@[i].1@,
        0 <= i < l.prepared.secrets@.len() ==> plan.env_vars@[l.hook_env@.len() + i].0@
            == l.prepared.secrets@[i].env_var@ && plan.env_vars@[l.hook_env@.len() + i].1@
            == l.prepared.secrets@[i].value@,
        0 <= i < l.proxy_env@.len() ==> plan.env_vars@[l.hook_env@.len()
            + l.prepared.secrets@.len() + i].0@ == l.proxy_env@[i].0@
            && plan.env_vars@[l.hook_env@.len() + l.prepared.secrets@.len() + i].1@
            == l.proxy_env@[i].1@,
        plan.env_vars@.last().0@ == "_CONDA_PYTHON_ARGV0"@,
        l.args@.len() > 0 ==> plan.env_vars@.last().1@ == l.args@[0]@,
        l.args@.len() == 0 ==> plan.env_vars@.last().1@ == Seq::<char>::empty(),
        plan.secrets_loaded <==> l.prepared.secrets@.len() > 0,
        plan.proxy_active <==> l.proxy_active,
        plan.seccomp_proxy_fallback <==> l.prepared.proxy_only && rules != Some(true),
        diagnostics is None ==> plan.proxy_diagnostics is None,
        diagnostics is Some && (diagnostics->0)@.len() == 0 ==> plan.proxy_diagnostics is None,
        diagnostics is Some && (diagnostics->0)@.len() > 0 ==> plan.proxy_diagnostics
            == diagnostics,
        !plan.trust_scan_performed,
        !plan.trust_interception_active,
        plan.no_diagnostics,
        !plan.diagnostics_json,
{
    let seen = machine::variables(plan.env_vars@);
    let h = l.hook_env@.len() as int;
    let s = l.prepared.secrets@.len() as int;
    let p = l.proxy_env@.len() as int;
    let whole = machine::environment(l);
    assert(seen == whole);
    assert(seen.len() == plan.env_vars@.len());
    assert(whole.len() == h + s + p + 1);
    assert(seen.last() == (plan.env_vars@.last().0@, plan.env_vars@.last().1@));
    if 0 <= i < h {
        assert(seen[i] == (plan.env_vars@[i].0@, plan.env_vars@[i].1@));
        assert(whole[i] == machine::variables(l.hook_env@)[i]);
    }
    if 0 <= i < s {
        assert(seen[h + i] == (plan.env_vars@[h + i].0@, plan.env_vars@[h + i].1@));
        assert(whole[h + i] == machine::secret_variables(l.prepared.secrets@)[i]);
    }
    if 0 <= i < p {
        assert(seen[h + s + i] == (plan.env_vars@[h + s + i].0@, plan.env_vars@[h + s + i].1@));
        assert(whole[h + s + i] == machine::variables(l.proxy_env@)[i]);
    }
    let words = crate::launcher::argv::texts(plan.command@);
    assert(words == machine::command(l));
    assert(words.len() == plan.command@.len());
    assert(words[0] == plan.command@[0]@);
    if 1 <= i < l.args@.len() {
        assert(words[i] == plan.command@[i]@);
        assert(machine::command(l)[i] == crate::launcher::argv::texts(l.args@)[i]);
    }
}

/// The plan that a launch runs its process with is that of what it knows.
pub proof fn law_execution_goes_by_the_plan<E>(
    l: Launcher,
    event: Event<E>,
    n: Launcher,
    action: Action<E>,
)
    requires
        machine::advances(l, event, n, action),
        action is Execute,
    ensures
        event is HostFacts,
        machine::is_plan(
            l,
            event->proxy_diagnostics,
            event->network_rules,
            action->Execute_0,
        ),
        n == (Launcher { phase: Phase::Execute, ..l }),
{
}

/// A process is sandboxed where this variable is set, and the launch knows its own variables by
/// these names.
pub proof fn law_names_of_variables()
    ensures
        machine::CAP_FILE_ENV@ == "NONO_CAP_FILE"@,
        profile::CONDA_PYTHON_PROFILE_ENV@ == "CONDA_PYTHON_PROFILE"@,
        crate::launcher::argv::CONDA_PYTHON_ARGV0_ENV@ == "_CONDA_PYTHON_ARGV0"@,
{
}

} // verus!
