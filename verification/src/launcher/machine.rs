//! The course of a launch, from the start of the process to its exit code.
//!
//! `Launcher` holds what is known so far. Each `Action` asks for one piece of work outside:
//! looking something up, preparing the sandbox, running a hook or the sandboxed process.
//! What it came to is handed back as an `Event`, and `Launcher::advance` decides what comes
//! next.

use vstd::prelude::*;
use vstd::string::*;

use crate::launcher::argv;
use crate::launcher::conda_meta;
use crate::launcher::location;
use crate::launcher::location::{Location, PathPart};
use crate::launcher::prefix;
use crate::launcher::profile;
use crate::text;

verus! {

/// The variable that is set in every sandboxed process, to the file that describes its
/// sandbox.
pub const CAP_FILE_ENV: &'static str = "NONO_CAP_FILE";

/// How far a launch has come: what it waits for.
#[derive(Clone, Copy, PartialEq, Eq, Structural)]
pub enum Phase {
    /// The process is already sandboxed; there is nothing to launch.
    Sandboxed,
    /// The arguments of the process.
    Args,
    /// The place of the executable.
    Exe,
    /// The text that the prefix is shown as.
    Shown,
    /// The home directory.
    Home,
    /// The directories of protected state.
    Roots,
    /// The prefix being made known to the profile loader.
    Register,
    /// The environment variable with the profile's name.
    ProfileVar,
    /// The state file of the environment.
    State,
    /// The sandbox being prepared.
    Prepare,
    /// The check that a proxy bypass comes with a proxy.
    Bypass,
    /// The options of the proxy.
    ProxyOptions,
    /// The proxy being started.
    StartProxy,
    /// The working directory.
    WorkDir,
    /// The directory to start in.
    StartDir,
    /// The executable to run.
    SelfExe,
    /// The defaults for the execution.
    Defaults,
    /// A session id for the hooks.
    SessionId,
    /// The hook before the session.
    BeforeHook,
    /// The file that describes the sandbox to the process in it.
    CapFile,
    /// What the host can do.
    HostFacts,
    /// The sandboxed process.
    Execute,
    /// The hook after the session.
    AfterHook,
    /// The clean-up.
    Cleanup,
    /// The launch is over; the process exits with the exit code of the sandboxed one.
    Finished,
    /// The launch has failed.
    Failed,
}

/// A secret that is put into an environment variable of the sandboxed process.
pub struct Secret {
    pub env_var: String,
    pub value: String,
    /// Whether the variable could be used to subvert the process.
    pub dangerous: bool,
}

/// What is known of the prepared sandbox.
pub struct Prepared {
    pub secrets: Vec<Secret>,
    /// Whether the profile has a hook that runs before the session.
    pub before_hook: bool,
    /// Whether the profile has a hook that runs after the session.
    pub after_hook: bool,
    /// Whether the sandbox reaches the network through the proxy only.
    pub proxy_only: bool,
}

/// What the sandboxed process is run with.
pub struct ExecPlan {
    /// The executable and its arguments.
    pub command: Vec<String>,
    /// The environment variables to set, later ones over earlier ones.
    pub env_vars: Vec<(String, String)>,
    /// Whether secrets were looked up, which may have started threads.
    pub secrets_loaded: bool,
    /// Whether the proxy runs, which has threads.
    pub proxy_active: bool,
    /// Whether the proxy has to be enforced without the kernel's own network rules.
    pub seccomp_proxy_fallback: bool,
    /// What the proxy reported at its start, if anything.
    pub proxy_diagnostics: Option<Vec<String>>,
    /// Whether files were scanned for trust, which the launcher never does.
    pub trust_scan_performed: bool,
    /// Whether the trust of files is checked on access, which the launcher never does.
    pub trust_interception_active: bool,
    /// Whether diagnostics after the session are left out.
    pub no_diagnostics: bool,
    /// Whether diagnostics are written as JSON.
    pub diagnostics_json: bool,
}

/// What came of the last action.
pub enum Event<E> {
    /// The arguments of the process.
    Args(Vec<String>),
    /// The real place of the executable.
    Exe(Result<Location, E>),
    /// The text that the prefix is shown as.
    Shown(String),
    /// The home directory.
    Home(Result<Location, E>),
    /// The directories of protected state.
    Roots(Result<Vec<Location>, E>),
    /// The prefix is known to the profile loader.
    Registered,
    /// The value of the environment variable with the profile's name.
    ProfileVar(Option<String>),
    /// The contents of the state file, where it can be read.
    State(Option<String>),
    /// The sandbox is prepared.
    Prepared(Result<Prepared, E>),
    /// The proxy bypass is in order.
    Bypass(Result<(), E>),
    /// The options of the proxy are ready; whether there is one.
    ProxyOptions(Result<bool, E>),
    /// The proxy runs, if there is one; the variables that point to it.
    ProxyStarted(Result<Vec<(String, String)>, E>),
    /// The working directory, where it can be determined.
    WorkDir(Option<Vec<u8>>),
    /// The directory to start in.
    StartDir(Result<Vec<u8>, E>),
    /// The executable.
    SelfExe(String),
    /// The executable cannot be determined; what the system says of it.
    NoExe(String),
    /// The defaults for the execution are ready.
    Defaults(Result<(), E>),
    /// A new session id.
    SessionId(String),
    /// The variables that the hook before the session exported; `None` where it failed.
    BeforeHook(Option<Vec<(String, String)>>),
    /// The file that describes the sandbox, where it could be written.
    CapFile(Option<Vec<u8>>),
    /// What the proxy reported, where one runs, and whether the kernel's sandbox has
    /// network rules, where that was asked and could be told.
    HostFacts { proxy_diagnostics: Option<Vec<String>>, network_rules: Option<bool> },
    /// The exit code of the sandboxed process.
    Exited(Result<i32, E>),
    /// The hook after the session has run or failed.
    AfterHook,
    /// What the launch left behind is cleaned up.
    CleanedUp,
}

/// Why a launch fails.
pub enum Failure<E> {
    /// The sandbox cannot be set up.
    SandboxInit(String),
    /// The configuration is not acceptable.
    ConfigParse(String),
    /// An action failed.
    Host(E),
}

/// What to do next.
pub enum Action<E> {
    /// Hand over to the interpreter.
    RunPython,
    CollectArgs,
    ResolveExe,
    /// Tell how `prefix` is shown.
    ShowPrefix,
    LookUpHome,
    LookUpRoots,
    /// Make `prefix` known to the profile loader.
    RegisterPrefix,
    ReadProfileVar,
    /// Read the state file at this path.
    ReadState(Vec<PathPart>),
    /// Prepare the sandbox from `profile`; whether with access to the working directory.
    PrepareSandbox { allow_cwd: bool },
    CheckProxyBypass,
    PrepareProxy,
    StartProxy,
    FindWorkDir,
    /// Find the directory to start in, from `start_dir`.
    FindStartDir,
    FindSelfExe,
    PrepareDefaults,
    MakeSessionId,
    /// Run the hook before the session, with `session_id`.
    RunBeforeHook,
    WriteCapFile,
    /// Tell what the proxy reported, and, where `true`, what the kernel's sandbox can do.
    InspectHost(bool),
    Execute(ExecPlan),
    /// Run the hook after the session, with `session_id` and `exit_code`.
    RunAfterHook,
    CleanUp,
    Exit(i32),
    Fail(Failure<E>),
    /// The event was not one that the launch waits for; nothing has changed.
    Unexpected,
}

/// A launch, as far as it has come.
pub struct Launcher {
    pub phase: Phase,
    pub args: Vec<String>,
    pub prefix: Location,
    pub home: Option<Location>,
    pub roots: Vec<Location>,
    pub profile: String,
    pub prepared: Prepared,
    pub proxy_active: bool,
    pub proxy_env: Vec<(String, String)>,
    pub cap_file: Vec<u8>,
    pub start_dir: Vec<u8>,
    pub self_exe: String,
    pub session_id: Option<String>,
    pub hook_env: Vec<(String, String)>,
    pub exit_code: i32,
}

/// Names and values of environment variables.
pub open spec fn variables(env: Seq<(String, String)>) -> Seq<(Seq<char>, Seq<char>)> {
    env.map_values(|v: (String, String)| (v.0@, v.1@))
}

/// The variables that the secrets are put into.
pub open spec fn secret_variables(secrets: Seq<Secret>) -> Seq<(Seq<char>, Seq<char>)> {
    secrets.map_values(|s: Secret| (s.env_var@, s.value@))
}

/// The first dangerous secret from `from` on.
pub open spec fn dangerous_from(secrets: Seq<Secret>, from: int) -> Option<int>
    decreases secrets.len() - from,
{
    if 0 <= from < secrets.len() {
        if secrets[from].dangerous {
            Some(from)
        } else {
            dangerous_from(secrets, from + 1)
        }
    } else {
        None
    }
}

/// What a refusal says of a secret that goes to a dangerous variable.
pub open spec fn dangerous_message(env_var: Seq<char>) -> Seq<char> {
    "secret mapping targets dangerous environment variable: "@ + env_var
}

/// The `argv[0]` that the process got, or nothing.
pub open spec fn original_argv0(args: Seq<Seq<char>>) -> Seq<char> {
    if args.len() > 0 {
        args[0]
    } else {
        seq![]
    }
}

/// The environment variables of the sandboxed process: those of the hook, over them those
/// of the secrets, over them those of the proxy, and over all of them the original
/// `argv[0]`.
pub open spec fn environment(l: Launcher) -> Seq<(Seq<char>, Seq<char>)> {
    variables(l.hook_env@) + secret_variables(l.prepared.secrets@) + variables(l.proxy_env@) + seq![
        (argv::CONDA_PYTHON_ARGV0_ENV@, original_argv0(argv::texts(l.args@))),
    ]
}

/// The command of the sandboxed process: the executable itself, and the arguments that the
/// process got.
pub open spec fn command(l: Launcher) -> Seq<Seq<char>> {
    seq![l.self_exe@] + (if l.args@.len() > 0 {
        argv::texts(l.args@).skip(1)
    } else {
        seq![]
    })
}

/// What a refusal says when the executable cannot be determined.
pub open spec fn no_exe_message(cause: Seq<char>) -> Seq<char> {
    "cannot determine current_exe: "@ + cause
}

/// Whether there is a hook.
pub open spec fn has_hook(prepared: Prepared) -> bool {
    prepared.before_hook || prepared.after_hook
}

/// Whether `plan` is how the sandboxed process of `l` is run, on a host with these facts.
pub open spec fn is_plan(
    l: Launcher,
    proxy_diagnostics: Option<Vec<String>>,
    network_rules: Option<bool>,
    plan: ExecPlan,
) -> bool {
    &&& argv::texts(plan.command@) == command(l)
    &&& variables(plan.env_vars@) == environment(l)
    &&& plan.secrets_loaded == (l.prepared.secrets@.len() > 0)
    &&& plan.proxy_active == l.proxy_active
    &&& plan.seccomp_proxy_fallback == (l.prepared.proxy_only && network_rules != Some(true))
    &&& plan.proxy_diagnostics == (match proxy_diagnostics {
        Some(reports) if reports@.len() > 0 => Some(reports),
        _ => None,
    })
    &&& !plan.trust_scan_performed
    &&& !plan.trust_interception_active
    &&& plan.no_diagnostics
    &&& !plan.diagnostics_json
}

/// Whether the launch ends in this failure of an action.
pub open spec fn fails<E>(l: Launcher, n: Launcher, action: Action<E>, e: E) -> bool {
    n == (Launcher { phase: Phase::Failed, ..l }) && action == Action::Fail(Failure::Host(e))
}

/// Whether the launch ends because the sandbox cannot be set up.
pub open spec fn refuses<E>(
    l: Launcher,
    n: Launcher,
    action: Action<E>,
    message: Seq<char>,
) -> bool {
    &&& n == (Launcher { phase: Phase::Failed, ..l })
    &&& action matches Action::Fail(Failure::SandboxInit(m)) && m@ == message
}

/// Whether the launch goes on to the file that describes the sandbox: nothing that comes
/// before it is left to do.
pub open spec fn writes_cap_file<E>(l: Launcher, n: Launcher, action: Action<E>) -> bool {
    n == (Launcher { phase: Phase::CapFile, ..l }) && action == Action::<E>::WriteCapFile
}

/// How a launch goes on: from `l`, by `event`, to `n`, and what to do next. In any phase,
/// an event that the launch does not wait for changes nothing.
pub open spec fn advances<E>(l: Launcher, event: Event<E>, n: Launcher, action: Action<E>) -> bool {
    match (l.phase, event) {
        (Phase::Args, Event::Args(args)) => {
            &&& n == (Launcher { phase: Phase::Exe, args: args, ..l })
            &&& action == Action::<E>::ResolveExe
        },
        (Phase::Exe, Event::Exe(exe)) => match exe {
            Err(e) => fails(l, n, action, e),
            Ok(exe) => match prefix::prefix_of(exe@, exe.shown@) {
                Err(message) => refuses(l, n, action, message),
                Ok(parts) => {
                    &&& n == (Launcher {
                        phase: Phase::Shown,
                        prefix: Location { parts: n.prefix.parts, shown: l.prefix.shown },
                        ..l
                    })
                    &&& n.prefix@ == parts
                    &&& action == Action::<E>::ShowPrefix
                },
            },
        },
        (Phase::Exe, Event::NoExe(cause)) => refuses(l, n, action, no_exe_message(cause@)),
        (Phase::Shown, Event::Shown(shown)) => {
            let l = Launcher { prefix: Location { parts: l.prefix.parts, shown: shown }, ..l };
            match prefix::shape_refusal(l.prefix@, shown@) {
                Some(message) => refuses(l, n, action, message),
                None => {
                    &&& n == (Launcher { phase: Phase::Home, ..l })
                    &&& action == Action::<E>::LookUpHome
                },
            }
        },
        (Phase::Home, Event::Home(home)) => match home {
            Err(e) => fails(l, n, action, e),
            Ok(home) => match prefix::home_refusal(l.prefix@, l.prefix.shown@, home) {
                Some(message) => refuses(l, n, action, message),
                None => {
                    &&& n == (Launcher { phase: Phase::Roots, home: Some(home), ..l })
                    &&& action == Action::<E>::LookUpRoots
                },
            },
        },
        (Phase::Roots, Event::Roots(roots)) => match roots {
            Err(e) => fails(l, n, action, e),
            Ok(roots) => match prefix::roots_refusal(l.prefix@, l.prefix.shown@, roots@, 0) {
                Some(message) => refuses(l, n, action, message),
                None => {
                    &&& n == (Launcher { phase: Phase::Register, roots: roots, ..l })
                    &&& action == Action::<E>::RegisterPrefix
                },
            },
        },
        (Phase::Register, Event::Registered) => {
            &&& n == (Launcher { phase: Phase::ProfileVar, ..l })
            &&& action == Action::<E>::ReadProfileVar
        },
        (Phase::ProfileVar, Event::ProfileVar(value)) => match profile::name_in(
            text::string_of(value),
        ) {
            Some(name) => {
                &&& n == (Launcher { phase: Phase::Prepare, profile: n.profile, ..l })
                &&& n.profile@ == name
                &&& action == Action::<E>::PrepareSandbox { allow_cwd: true }
            },
            None => {
                &&& n == (Launcher { phase: Phase::State, ..l })
                &&& action matches Action::ReadState(path)
                &&& location::parts_of(path@) == conda_meta::state_file(l.prefix@)
            },
        },
        (Phase::State, Event::State(contents)) => {
            &&& n == (Launcher { phase: Phase::Prepare, profile: n.profile, ..l })
            &&& n.profile@ == profile::profile_for(
                None,
                conda_meta::state_variable(
                    text::string_of(contents),
                    profile::CONDA_PYTHON_PROFILE_ENV@,
                ),
            )
            &&& action == Action::<E>::PrepareSandbox { allow_cwd: true }
        },
        (Phase::Prepare, Event::Prepared(prepared)) => match prepared {
            Err(e) => fails(l, n, action, e),
            Ok(prepared) => {
                &&& n == (Launcher { phase: Phase::Bypass, prepared: prepared, ..l })
                &&& action == Action::<E>::CheckProxyBypass
            },
        },
        (Phase::Bypass, Event::Bypass(checked)) => match checked {
            Err(e) => fails(l, n, action, e),
            Ok(_) => match dangerous_from(l.prepared.secrets@, 0) {
                Some(i) => {
                    &&& n == (Launcher { phase: Phase::Failed, ..l })
                    &&& action matches Action::Fail(Failure::ConfigParse(m))
                    &&& m@ == dangerous_message(l.prepared.secrets@[i].env_var@)
                },
                None => {
                    &&& n == (Launcher { phase: Phase::ProxyOptions, ..l })
                    &&& action == Action::<E>::PrepareProxy
                },
            },
        },
        (Phase::ProxyOptions, Event::ProxyOptions(options)) => match options {
            Err(e) => fails(l, n, action, e),
            Ok(active) => {
                &&& n == (Launcher { phase: Phase::StartProxy, proxy_active: active, ..l })
                &&& action == Action::<E>::StartProxy
            },
        },
        (Phase::StartProxy, Event::ProxyStarted(started)) => match started {
            Err(e) => fails(l, n, action, e),
            Ok(env) => {
                &&& n == (Launcher { phase: Phase::WorkDir, proxy_env: env, ..l })
                &&& action == Action::<E>::FindWorkDir
            },
        },
        (Phase::WorkDir, Event::WorkDir(dir)) => {
            &&& n == (Launcher { phase: Phase::StartDir, start_dir: n.start_dir, ..l })
            &&& match dir {
                Some(dir) => n.start_dir == dir,
                None => n.start_dir@ == "/".spec_bytes(),
            }
            &&& action == Action::<E>::FindStartDir
        },
        (Phase::StartDir, Event::StartDir(dir)) => match dir {
            Err(e) => fails(l, n, action, e),
            Ok(dir) => {
                &&& n == (Launcher { phase: Phase::SelfExe, start_dir: dir, ..l })
                &&& action == Action::<E>::FindSelfExe
            },
        },
        (Phase::SelfExe, Event::SelfExe(exe)) => {
            &&& n == (Launcher { phase: Phase::Defaults, self_exe: exe, ..l })
            &&& action == Action::<E>::PrepareDefaults
        },
        (Phase::SelfExe, Event::NoExe(cause)) => refuses(l, n, action, no_exe_message(cause@)),
        (Phase::Defaults, Event::Defaults(ready)) => match ready {
            Err(e) => fails(l, n, action, e),
            Ok(_) => if has_hook(l.prepared) {
                &&& n == (Launcher { phase: Phase::SessionId, ..l })
                &&& action == Action::<E>::MakeSessionId
            } else {
                writes_cap_file(l, n, action)
            },
        },
        (Phase::SessionId, Event::SessionId(id)) => {
            let l = Launcher { session_id: Some(id), ..l };
            if l.prepared.before_hook {
                &&& n == (Launcher { phase: Phase::BeforeHook, ..l })
                &&& action == Action::<E>::RunBeforeHook
            } else {
                writes_cap_file(l, n, action)
            }
        },
        (Phase::BeforeHook, Event::BeforeHook(exported)) => match exported {
            Some(env) => writes_cap_file(Launcher { hook_env: env, ..l }, n, action),
            None => writes_cap_file(l, n, action),
        },
        (Phase::CapFile, Event::CapFile(path)) => {
            &&& n == (Launcher { phase: Phase::HostFacts, cap_file: n.cap_file, ..l })
            &&& match path {
                Some(path) => n.cap_file == path,
                None => n.cap_file@ == "/dev/null".spec_bytes(),
            }
            &&& action == Action::<E>::InspectHost(l.prepared.proxy_only)
        },
        (Phase::HostFacts, Event::HostFacts { proxy_diagnostics, network_rules }) => {
            &&& n == (Launcher { phase: Phase::Execute, ..l })
            &&& action matches Action::Execute(plan)
            &&& is_plan(l, proxy_diagnostics, network_rules, plan)
        },
        (Phase::Execute, Event::Exited(exited)) => match exited {
            Err(e) => fails(l, n, action, e),
            Ok(code) => if l.prepared.after_hook {
                &&& n == (Launcher { phase: Phase::AfterHook, exit_code: code, ..l })
                &&& action == Action::<E>::RunAfterHook
            } else {
                &&& n == (Launcher { phase: Phase::Cleanup, exit_code: code, ..l })
                &&& action == Action::<E>::CleanUp
            },
        },
        (Phase::AfterHook, Event::AfterHook) => {
            &&& n == (Launcher { phase: Phase::Cleanup, ..l })
            &&& action == Action::<E>::CleanUp
        },
        (Phase::Cleanup, Event::CleanedUp) => {
            &&& n == (Launcher { phase: Phase::Finished, ..l })
            &&& action == Action::<E>::Exit(l.exit_code)
        },
        _ => n == l && action == Action::<E>::Unexpected,
    }
}

/// How a launch begins: nothing is known yet. A process that already is sandboxed hands over
/// to the interpreter, and waits for nothing.
pub open spec fn starts<E>(cap_file_set: bool, l: Launcher, action: Action<E>) -> bool {
    &&& l.phase == (if cap_file_set {
        Phase::Sandboxed
    } else {
        Phase::Args
    })
    &&& action == (if cap_file_set {
        Action::<E>::RunPython
    } else {
        Action::<E>::CollectArgs
    })
    &&& l.args@ == Seq::<String>::empty()
    &&& l.prefix.parts@ == Seq::<PathPart>::empty()
    &&& l.prefix.shown@ == Seq::<char>::empty()
    &&& l.home is None
    &&& l.roots@ == Seq::<Location>::empty()
    &&& l.profile@ == Seq::<char>::empty()
    &&& l.prepared.secrets@ == Seq::<Secret>::empty()
    &&& !l.prepared.before_hook
    &&& !l.prepared.after_hook
    &&& !l.prepared.proxy_only
    &&& !l.proxy_active
    &&& l.proxy_env@ == Seq::<(String, String)>::empty()
    &&& l.cap_file@ == Seq::<u8>::empty()
    &&& l.start_dir@ == Seq::<u8>::empty()
    &&& l.self_exe@ == Seq::<char>::empty()
    &&& l.session_id is None
    &&& l.hook_env@ == Seq::<(String, String)>::empty()
    &&& l.exit_code == 0
}

/// Appends `more` to `env`.
fn append_variables(env: &mut Vec<(String, String)>, more: &Vec<(String, String)>)
    ensures
        variables(final(env)@) == variables(old(env)@) + variables(more@),
{
    let ghost start = variables(env@);
    assert(variables(more@).take(0) == Seq::<(Seq<char>, Seq<char>)>::empty());
    for i in 0..more.len()
        invariant
            variables(env@) == start + variables(more@).take(i as int),
    {
        let ghost before = env@;
        env.push((more[i].0.clone(), more[i].1.clone()));
        assert(variables(env@) == variables(before).push(variables(more@)[i as int]));
    }
    assert(variables(more@).take(more.len() as int) == variables(more@));
}

/// Appends the variables of the secrets to `env`.
fn append_secrets(env: &mut Vec<(String, String)>, secrets: &Vec<Secret>)
    ensures
        variables(final(env)@) == variables(old(env)@) + secret_variables(secrets@),
{
    let ghost start = variables(env@);
    for i in 0..secrets.len()
        invariant
            variables(env@) == start + secret_variables(secrets@).take(i as int),
    {
        let ghost before = env@;
        env.push((secrets[i].env_var.clone(), secrets[i].value.clone()));
        assert(variables(env@) == variables(before).push(secret_variables(secrets@)[i as int]));
    }
    assert(secret_variables(secrets@).take(secrets.len() as int) == secret_variables(secrets@));
}

/// The report on the first secret that goes to a dangerous variable.
fn check_secrets(secrets: &Vec<Secret>) -> (r: Result<(), String>)
    ensures
        match r {
            Ok(_) => dangerous_from(secrets@, 0) is None,
            Err(message) => dangerous_from(secrets@, 0) matches Some(i) && message@
                == dangerous_message(secrets@[i].env_var@),
        },
{
    for i in 0..secrets.len()
        invariant
            dangerous_from(secrets@, 0) == dangerous_from(secrets@, i as int),
    {
        if secrets[i].dangerous {
            let mut message =
                "secret mapping targets dangerous environment variable: ".to_owned();
            message.append(secrets[i].env_var.as_str());
            return Err(message);
        }
    }
    Ok(())
}

/// A text that may be there, borrowed.
fn borrowed(value: &Option<String>) -> (r: Option<&str>)
    ensures
        text::text_of(r) == text::string_of(*value),
{
    match value {
        Some(s) => Some(s.as_str()),
        None => None,
    }
}

impl Launcher {
    /// The command of the sandboxed process.
    fn command_line(&self) -> (r: Vec<String>)
        ensures
            argv::texts(r@) == command(*self),
    {
        let mut r: Vec<String> = Vec::new();
        r.push(self.self_exe.clone());
        assert(argv::texts(r@) == seq![self.self_exe@]);
        if self.args.len() == 0 {
            return r;
        }
        for i in 1..self.args.len()
            invariant
                self.args.len() > 0,
                argv::texts(r@) == seq![self.self_exe@] + argv::texts(self.args@).subrange(
                    1,
                    i as int,
                ),
        {
            let ghost before = r@;
            r.push(self.args[i].clone());
            assert(argv::texts(r@) == argv::texts(before).push(argv::texts(self.args@)[i as int]));
        }
        r
    }

    /// The environment variables of the sandboxed process.
    fn env_vars(&self) -> (r: Vec<(String, String)>)
        ensures
            variables(r@) == environment(*self),
    {
        let mut env: Vec<(String, String)> = Vec::new();
        append_variables(&mut env, &self.hook_env);
        append_secrets(&mut env, &self.prepared.secrets);
        append_variables(&mut env, &self.proxy_env);
        let argv0 = if self.args.len() > 0 {
            self.args[0].clone()
        } else {
            String::new()
        };
        let ghost before = env@;
        env.push((argv::CONDA_PYTHON_ARGV0_ENV.to_owned(), argv0));
        assert(variables(env@) == variables(before).push(
            (argv::CONDA_PYTHON_ARGV0_ENV@, original_argv0(argv::texts(self.args@))),
        ));
        env
    }

    /// What the sandboxed process is run with, on a host with these facts.
    pub fn plan(
        &self,
        proxy_diagnostics: Option<Vec<String>>,
        network_rules: Option<bool>,
    ) -> (r: ExecPlan)
        ensures
            is_plan(*self, proxy_diagnostics, network_rules, r),
    {
        let proxy_diagnostics = match proxy_diagnostics {
            Some(reports) => if reports.len() > 0 {
                Some(reports)
            } else {
                None
            },
            None => None,
        };
        let enforced = match network_rules {
            Some(has_rules) => has_rules,
            None => false,
        };
        ExecPlan {
            command: self.command_line(),
            env_vars: self.env_vars(),
            secrets_loaded: self.prepared.secrets.len() > 0,
            proxy_active: self.proxy_active,
            seccomp_proxy_fallback: self.prepared.proxy_only && !enforced,
            proxy_diagnostics: proxy_diagnostics,
            trust_scan_performed: false,
            trust_interception_active: false,
            no_diagnostics: true,
            diagnostics_json: false,
        }
    }

    /// Begins a launch. `cap_file_set` tells whether `CAP_FILE_ENV` is set: it is exactly
    /// where the process already is sandboxed.
    pub fn start<E>(cap_file_set: bool) -> (r: (Launcher, Action<E>))
        ensures
            starts(cap_file_set, r.0, r.1),
    {
        let launcher = Launcher {
            phase: if cap_file_set {
                Phase::Sandboxed
            } else {
                Phase::Args
            },
            args: Vec::new(),
            prefix: Location { parts: Vec::new(), shown: String::new() },
            home: None,
            roots: Vec::new(),
            profile: String::new(),
            prepared: Prepared {
                secrets: Vec::new(),
                before_hook: false,
                after_hook: false,
                proxy_only: false,
            },
            proxy_active: false,
            proxy_env: Vec::new(),
            cap_file: Vec::new(),
            start_dir: Vec::new(),
            self_exe: String::new(),
            session_id: None,
            hook_env: Vec::new(),
            exit_code: 0,
        };
        if cap_file_set {
            (launcher, Action::RunPython)
        } else {
            (launcher, Action::CollectArgs)
        }
    }

    /// Ends the launch in a failure.
    fn fail<E>(&mut self, failure: Failure<E>) -> (r: Action<E>)
        ensures
            *final(self) == (Launcher { phase: Phase::Failed, ..*old(self) }),
            r == Action::Fail(failure),
    {
        self.phase = Phase::Failed;
        Action::Fail(failure)
    }

    /// Ends the launch because the executable cannot be determined.
    fn fail_without_exe<E>(&mut self, cause: &str) -> (r: Action<E>)
        ensures
            refuses(*old(self), *final(self), r, no_exe_message(cause@)),
    {
        let mut message = "cannot determine current_exe: ".to_owned();
        message.append(cause);
        self.fail(Failure::SandboxInit(message))
    }

    /// Goes on to the file that describes the sandbox.
    fn write_cap_file<E>(&mut self) -> (r: Action<E>)
        ensures
            writes_cap_file(*old(self), *final(self), r),
    {
        self.phase = Phase::CapFile;
        Action::WriteCapFile
    }

    /// Takes up what came of the last action, and decides what to do next.
    pub fn advance<E>(&mut self, event: Event<E>) -> (r: Action<E>)
        ensures
            advances(*old(self), event, *final(self), r),
    {
        match (self.phase, event) {
            (Phase::Args, Event::Args(args)) => {
                self.args = args;
                self.phase = Phase::Exe;
                Action::ResolveExe
            },
            (Phase::Exe, Event::Exe(Ok(exe))) => match prefix::resolve_prefix(exe) {
                Ok(parts) => {
                    self.prefix.parts = parts;
                    self.phase = Phase::Shown;
                    Action::ShowPrefix
                },
                Err(message) => self.fail(Failure::SandboxInit(message)),
            },
            (Phase::Exe, Event::Exe(Err(e))) => self.fail(Failure::Host(e)),
            (Phase::Exe, Event::NoExe(cause)) => self.fail_without_exe(cause.as_str()),
            (Phase::Shown, Event::Shown(shown)) => {
                self.prefix.shown = shown;
                match prefix::check_shape(&self.prefix) {
                    Ok(_) => {
                        self.phase = Phase::Home;
                        Action::LookUpHome
                    },
                    Err(message) => self.fail(Failure::SandboxInit(message)),
                }
            },
            (Phase::Home, Event::Home(Ok(home))) => match prefix::check_home(&self.prefix, &home) {
                Ok(_) => {
                    self.home = Some(home);
                    self.phase = Phase::Roots;
                    Action::LookUpRoots
                },
                Err(message) => self.fail(Failure::SandboxInit(message)),
            },
            (Phase::Home, Event::Home(Err(e))) => self.fail(Failure::Host(e)),
            (Phase::Roots, Event::Roots(Ok(roots))) => match prefix::check_roots(
                &self.prefix,
                &roots,
            ) {
                Ok(_) => {
                    self.roots = roots;
                    self.phase = Phase::Register;
                    Action::RegisterPrefix
                },
                Err(message) => self.fail(Failure::SandboxInit(message)),
            },
            (Phase::Roots, Event::Roots(Err(e))) => self.fail(Failure::Host(e)),
            (Phase::Register, Event::Registered) => {
                self.phase = Phase::ProfileVar;
                Action::ReadProfileVar
            },
            (Phase::ProfileVar, Event::ProfileVar(value)) => match profile::named_profile(
                borrowed(&value),
            ) {
                Some(name) => {
                    self.profile = name;
                    self.phase = Phase::Prepare;
                    Action::PrepareSandbox { allow_cwd: true }
                },
                None => {
                    self.phase = Phase::State;
                    Action::ReadState(conda_meta::state_path(&self.prefix.parts))
                },
            },
            (Phase::State, Event::State(contents)) => {
                let value = conda_meta::read_env_var_from_state(
                    borrowed(&contents),
                    profile::CONDA_PYTHON_PROFILE_ENV,
                );
                self.profile = profile::resolve_profile_name(None, borrowed(&value));
                self.phase = Phase::Prepare;
                Action::PrepareSandbox { allow_cwd: true }
            },
            (Phase::Prepare, Event::Prepared(Ok(prepared))) => {
                self.prepared = prepared;
                self.phase = Phase::Bypass;
                Action::CheckProxyBypass
            },
            (Phase::Prepare, Event::Prepared(Err(e))) => self.fail(Failure::Host(e)),
            (Phase::Bypass, Event::Bypass(Ok(_))) => match check_secrets(&self.prepared.secrets) {
                Ok(_) => {
                    self.phase = Phase::ProxyOptions;
                    Action::PrepareProxy
                },
                Err(message) => self.fail(Failure::ConfigParse(message)),
            },
            (Phase::Bypass, Event::Bypass(Err(e))) => self.fail(Failure::Host(e)),
            (Phase::ProxyOptions, Event::ProxyOptions(Ok(active))) => {
                self.proxy_active = active;
                self.phase = Phase::StartProxy;
                Action::StartProxy
            },
            (Phase::ProxyOptions, Event::ProxyOptions(Err(e))) => self.fail(Failure::Host(e)),
            (Phase::StartProxy, Event::ProxyStarted(Ok(env))) => {
                self.proxy_env = env;
                self.phase = Phase::WorkDir;
                Action::FindWorkDir
            },
            (Phase::StartProxy, Event::ProxyStarted(Err(e))) => self.fail(Failure::Host(e)),
            (Phase::WorkDir, Event::WorkDir(dir)) => {
                self.start_dir =
                match dir {
                    Some(dir) => dir,
                    None => "/".as_bytes_vec(),
                };
                self.phase = Phase::StartDir;
                Action::FindStartDir
            },
            (Phase::StartDir, Event::StartDir(Ok(dir))) => {
                self.start_dir = dir;
                self.phase = Phase::SelfExe;
                Action::FindSelfExe
            },
            (Phase::StartDir, Event::StartDir(Err(e))) => self.fail(Failure::Host(e)),
            (Phase::SelfExe, Event::SelfExe(exe)) => {
                self.self_exe = exe;
                self.phase = Phase::Defaults;
                Action::PrepareDefaults
            },
            (Phase::SelfExe, Event::NoExe(cause)) => self.fail_without_exe(cause.as_str()),
            (Phase::Defaults, Event::Defaults(Ok(_))) => if self.prepared.before_hook
                || self.prepared.after_hook {
                self.phase = Phase::SessionId;
                Action::MakeSessionId
            } else {
                self.write_cap_file()
            },
            (Phase::Defaults, Event::Defaults(Err(e))) => self.fail(Failure::Host(e)),
            (Phase::SessionId, Event::SessionId(id)) => {
                self.session_id = Some(id);
                if self.prepared.before_hook {
                    self.phase = Phase::BeforeHook;
                    Action::RunBeforeHook
                } else {
                    self.write_cap_file()
                }
            },
            (Phase::BeforeHook, Event::BeforeHook(exported)) => {
                if let Some(env) = exported {
                    self.hook_env = env;
                }
                self.write_cap_file()
            },
            (Phase::CapFile, Event::CapFile(path)) => {
                self.cap_file =
                match path {
                    Some(path) => path,
                    None => "/dev/null".as_bytes_vec(),
                };
                self.phase = Phase::HostFacts;
                Action::InspectHost(self.prepared.proxy_only)
            },
            (Phase::HostFacts, Event::HostFacts { proxy_diagnostics, network_rules }) => {
                let plan = self.plan(proxy_diagnostics, network_rules);
                self.phase = Phase::Execute;
                Action::Execute(plan)
            },
            (Phase::Execute, Event::Exited(Ok(code))) => {
                self.exit_code = code;
                if self.prepared.after_hook {
                    self.phase = Phase::AfterHook;
                    Action::RunAfterHook
                } else {
                    self.phase = Phase::Cleanup;
                    Action::CleanUp
                }
            },
            (Phase::Execute, Event::Exited(Err(e))) => self.fail(Failure::Host(e)),
            (Phase::AfterHook, Event::AfterHook) => {
                self.phase = Phase::Cleanup;
                Action::CleanUp
            },
            (Phase::Cleanup, Event::CleanedUp) => {
                self.phase = Phase::Finished;
                Action::Exit(self.exit_code)
            },
            _ => Action::Unexpected,
        }
    }
}

/// How far along a phase is.
pub open spec fn rank(phase: Phase) -> int {
    match phase {
        Phase::Args => 0,
        Phase::Exe => 1,
        Phase::Shown => 2,
        Phase::Home => 3,
        Phase::Roots => 4,
        Phase::Register => 5,
        Phase::ProfileVar => 6,
        Phase::State => 7,
        Phase::Prepare => 8,
        Phase::Bypass => 9,
        Phase::ProxyOptions => 10,
        Phase::StartProxy => 11,
        Phase::WorkDir => 12,
        Phase::StartDir => 13,
        Phase::SelfExe => 14,
        Phase::Defaults => 15,
        Phase::SessionId => 16,
        Phase::BeforeHook => 17,
        Phase::CapFile => 18,
        Phase::HostFacts => 19,
        Phase::Execute => 20,
        Phase::AfterHook => 21,
        Phase::Cleanup => 22,
        Phase::Sandboxed | Phase::Finished | Phase::Failed => 23,
    }
}

/// Whether the launch is over, in one way or another.
pub open spec fn is_over(l: Launcher) -> bool {
    l.phase is Sandboxed || l.phase is Finished || l.phase is Failed
}

/// What holds of a launch that has come to where it is by `advance`: once the prefix is
/// checked it is safe; from the proxy's options on no secret goes to a dangerous variable;
/// once the hooks are reached there is a session id exactly where there is a hook, and only
/// a hook that ran has exported variables.
pub open spec fn well_formed(l: Launcher) -> bool {
    !is_over(l) ==> {
        &&& rank(l.phase) > rank(Phase::Shown) ==> prefix::shape_refusal(
            l.prefix@,
            l.prefix.shown@,
        ) is None
        &&& rank(l.phase) > rank(Phase::Home) ==> l.home is Some && prefix::home_refusal(
            l.prefix@,
            l.prefix.shown@,
            l.home->0,
        ) is None
        &&& rank(l.phase) > rank(Phase::Roots) ==> prefix::roots_refusal(
            l.prefix@,
            l.prefix.shown@,
            l.roots@,
            0,
        ) is None
        &&& rank(l.phase) > rank(Phase::Bypass) ==> dangerous_from(
            l.prepared.secrets@,
            0,
        ) is None
        &&& rank(l.phase) <= rank(Phase::SessionId) ==> l.session_id is None
        &&& rank(l.phase) > rank(Phase::SessionId) ==> l.session_id is Some == has_hook(l.prepared)
        &&& l.phase is SessionId ==> has_hook(l.prepared)
        &&& l.phase is BeforeHook ==> l.prepared.before_hook
        &&& l.phase is AfterHook ==> l.prepared.after_hook
        &&& rank(l.phase) <= rank(Phase::BeforeHook) || !l.prepared.before_hook
            ==> l.hook_env@.len() == 0
    }
}

/// A launch begins well formed.
pub proof fn law_start_is_well_formed<E>(cap_file_set: bool, l: Launcher, action: Action<E>)
    requires
        starts(cap_file_set, l, action),
    ensures
        well_formed(l),
{
}

/// A launch stays well formed, whatever comes of the actions.
pub proof fn law_advance_keeps_well_formed<E>(
    l: Launcher,
    event: Event<E>,
    n: Launcher,
    action: Action<E>,
)
    requires
        well_formed(l),
        advances(l, event, n, action),
    ensures
        well_formed(n),
{
}

/// A launch comes to an end: each event that it waits for brings it further, and an event
/// that it does not wait for changes nothing. Once it is over nothing happens any more.
pub proof fn law_launch_goes_forward<E>(
    l: Launcher,
    event: Event<E>,
    n: Launcher,
    action: Action<E>,
)
    requires
        advances(l, event, n, action),
    ensures
        action is Unexpected ==> n == l,
        !(action is Unexpected) ==> rank(n.phase) > rank(l.phase),
        is_over(l) ==> action is Unexpected,
        is_over(n) && !is_over(l) <==> action is Exit || action is Fail,
{
}

} // verus!
