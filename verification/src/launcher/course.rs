//! What holds of a launch as a whole.

use vstd::prelude::*;

use crate::launcher::argv;
use crate::launcher::machine;
use crate::launcher::machine::{Action, Event, Launcher, Phase, Secret};
use crate::launcher::prefix;
use crate::launcher::steps;

verus! {

/// A launch from its beginning on: the events that came, in order, and before and after each
/// of them what was known and what to do.
pub struct Run<E> {
    pub states: Seq<Launcher>,
    pub actions: Seq<Action<E>>,
    pub events: Seq<Event<E>>,
}

impl<E> Run<E> {
    /// Whether the launch was begun by `start` and brought on by `advance`.
    pub open spec fn is_launch(self) -> bool {
        &&& self.states.len() == self.events.len() + 1
        &&& self.actions.len() == self.events.len() + 1
        &&& exists|cap_file_set: bool| machine::starts(cap_file_set, self.states[0], self.actions[0])
        &&& forall|i: int|
            0 <= i < self.events.len() ==> machine::advances(
                self.states[i],
                #[trigger] self.events[i],
                self.states[i + 1],
                self.actions[i + 1],
            )
    }

    /// Whether the launch has come to its action `i`.
    pub open spec fn reaches(self, i: int) -> bool {
        0 <= i < self.actions.len()
    }
}

/// Every state of a launch is well formed, and an action that is asked for goes with the
/// phase that waits for what it comes to.
proof fn lemma_state<E>(run: Run<E>, j: int)
    requires
        run.is_launch(),
        run.reaches(j),
    ensures
        machine::well_formed(run.states[j]),
        run.actions[j] is RegisterPrefix ==> run.states[j].phase is Register,
        run.actions[j] is PrepareSandbox ==> run.states[j].phase is Prepare,
        run.actions[j] is CheckProxyBypass ==> run.states[j].phase is Bypass,
        run.actions[j] is StartProxy ==> run.states[j].phase is StartProxy,
        run.actions[j] is WriteCapFile ==> run.states[j].phase is CapFile,
        run.actions[j] is RunBeforeHook ==> run.states[j].phase is BeforeHook,
        run.actions[j] is Execute ==> run.states[j].phase is Execute,
        run.actions[j] is RunAfterHook ==> run.states[j].phase is AfterHook,
        run.actions[j] is CleanUp ==> run.states[j].phase is Cleanup,
        run.actions[j] is Exit ==> run.states[j].phase is Finished,
    decreases j,
{
    if j > 0 {
        lemma_state(run, j - 1);
        let event = run.events[j - 1];
        machine::law_advance_keeps_well_formed(
            run.states[j - 1],
            event,
            run.states[j],
            run.actions[j],
        );
    }
}

/// A launch never goes back, and what its hooks get is settled before they run.
proof fn lemma_order<E>(run: Run<E>, i: int, j: int)
    requires
        run.is_launch(),
        0 <= i <= j,
        run.reaches(j),
    ensures
        machine::rank(run.states[i].phase) <= machine::rank(run.states[j].phase),
        machine::rank(run.states[i].phase) > machine::rank(Phase::SessionId) ==> run.states[j].session_id
            == run.states[i].session_id,
        machine::rank(run.states[i].phase) > machine::rank(Phase::StartDir) ==> run.states[j].start_dir
            == run.states[i].start_dir,
        machine::rank(run.states[i].phase) > machine::rank(Phase::Exe) ==> run.states[j].prefix.parts
            == run.states[i].prefix.parts,
    decreases j,
{
    if i < j {
        lemma_order(run, i, j - 1);
        let event = run.events[j - 1];
    }
}

/// The profile loader knows the prefix before any profile is loaded, and it is a safe one.
pub proof fn law_prefix_is_known_before_profile<E>(run: Run<E>, j: int)
    requires
        run.is_launch(),
        run.reaches(j),
        run.actions[j] is PrepareSandbox,
    ensures
        exists|i: int|
            0 <= i < j && #[trigger] run.actions[i] is RegisterPrefix && run.states[i].prefix@
                == run.states[j].prefix@,
        run.states[j].home is Some,
        prefix::is_safe(
            run.states[j].prefix@,
            run.states[j].home->0@,
            run.states[j].roots@,
        ),
{
    let l = run.states[j];
    lemma_state(run, j);
    prefix::law_accepted_is_safe(l.prefix, l.home->0, l.roots@);
    lemma_registered(run, j);
    let i = choose|i: int| 0 <= i <= j && #[trigger] run.actions[i] is RegisterPrefix;
    lemma_state(run, i);
    lemma_order(run, i, j);
}

/// From the check of the prefix on, there was a moment when it was registered.
proof fn lemma_registered<E>(run: Run<E>, j: int)
    requires
        run.is_launch(),
        run.reaches(j),
        !machine::is_over(run.states[j]),
        machine::rank(run.states[j].phase) >= machine::rank(Phase::Register),
    ensures
        exists|i: int| 0 <= i <= j && #[trigger] run.actions[i] is RegisterPrefix,
    decreases j,
{
    if j > 0 {
        let event = run.events[j - 1];
        if !machine::is_over(run.states[j - 1]) && machine::rank(run.states[j - 1].phase) >= machine::rank(Phase::Register) {
            lemma_registered(run, j - 1);
        } else {
            assert(run.actions[j] is RegisterPrefix);
        }
    }
}

/// From the end of the sandboxed process on, its exit code is kept.
proof fn lemma_exit_code<E>(run: Run<E>, j: int)
    requires
        run.is_launch(),
        run.reaches(j),
        run.states[j].phase is AfterHook || run.states[j].phase is Cleanup
            || run.states[j].phase is Finished,
    ensures
        exists|i: int|
            0 <= i < j && #[trigger] run.events[i] == Event::<E>::Exited(
                Ok(run.states[j].exit_code),
            ) && run.states[i].phase is Execute,
    decreases j,
{
    if j > 0 {
        let event = run.events[j - 1];
        let before = run.states[j - 1];
        if before.phase is AfterHook || before.phase is Cleanup || before.phase is Finished {
            lemma_exit_code(run, j - 1);
        } else {
            assert(run.events[j - 1] == Event::<E>::Exited(Ok(run.states[j].exit_code)));
        }
    }
}

/// The launch exits with the exit code of the sandboxed process, whatever came of the hooks.
pub proof fn law_exit_code_is_that_of_the_process<E>(run: Run<E>, j: int)
    requires
        run.is_launch(),
        run.reaches(j),
        run.actions[j] is Exit,
    ensures
        exists|i: int|
            0 <= i < j && #[trigger] run.events[i] == Event::<E>::Exited(Ok(run.actions[j]->Exit_0))
                && run.states[i].phase is Execute,
{
    lemma_state(run, j);
    lemma_exit_code(run, j);
    if j > 0 {
        let event = run.events[j - 1];
    }
}

/// A launch that has come to the clean-up was told to clean up, after its hook.
proof fn lemma_clean_up<E>(run: Run<E>, j: int)
    requires
        run.is_launch(),
        run.reaches(j),
        run.states[j].phase is AfterHook || run.states[j].phase is Cleanup
            || run.states[j].phase is Finished,
    ensures
        run.states[j].prepared.after_hook ==> exists|i: int|
            0 <= i <= j && #[trigger] run.actions[i] is RunAfterHook,
        !(run.states[j].phase is AfterHook) ==> exists|i: int|
            0 <= i <= j && #[trigger] run.actions[i] is CleanUp,
    decreases j,
{
    if j > 0 {
        let event = run.events[j - 1];
        let before = run.states[j - 1];
        if before.phase is AfterHook || before.phase is Cleanup || before.phase is Finished {
            lemma_clean_up(run, j - 1);
        }
        assert(run.actions[j] is RunAfterHook || run.actions[j] is CleanUp
            || run.actions[j] is Exit || run.actions[j] is Unexpected);
    }
}

/// The launch cleans up before it exits, and the hook after the session has its turn, where
/// there is one.
pub proof fn law_clean_up_before_exit<E>(run: Run<E>, j: int)
    requires
        run.is_launch(),
        run.reaches(j),
        run.actions[j] is Exit,
    ensures
        exists|i: int| 0 <= i < j && #[trigger] run.actions[i] is CleanUp,
        run.states[j].prepared.after_hook ==> exists|i: int|
            0 <= i < j && #[trigger] run.actions[i] is RunAfterHook,
{
    lemma_state(run, j);
    lemma_clean_up(run, j);
}

/// The hooks of a launch share one session id, and run in one directory.
pub proof fn law_hooks_share_session<E>(run: Run<E>, i: int, j: int)
    requires
        run.is_launch(),
        run.reaches(i),
        run.reaches(j),
        run.actions[i] is RunBeforeHook,
        run.actions[j] is RunAfterHook,
    ensures
        i < j,
        run.states[i].session_id is Some,
        run.states[j].session_id == run.states[i].session_id,
        run.states[j].start_dir == run.states[i].start_dir,
{
    lemma_state(run, i);
    lemma_state(run, j);
    if j <= i {
        lemma_order(run, j, i);
    } else {
        lemma_order(run, i, j);
    }
}

/// From the start of the launch on, its arguments are kept.
proof fn lemma_args<E>(run: Run<E>, j: int)
    requires
        run.is_launch(),
        run.reaches(j),
        !machine::is_over(run.states[j]),
        machine::rank(run.states[j].phase) > machine::rank(Phase::Args),
    ensures
        exists|i: int| 0 <= i < j && #[trigger] run.events[i] == Event::<E>::Args(run.states[j].args),
    decreases j,
{
    if j > 0 {
        let event = run.events[j - 1];
        if !(run.states[j - 1].phase is Args) {
            lemma_args(run, j - 1);
        } else {
            assert(run.events[j - 1] == Event::<E>::Args(run.states[j].args));
        }
    }
}

/// Where no dangerous secret is found there is none.
proof fn lemma_no_dangerous(secrets: Seq<Secret>, from: int)
    requires
        0 <= from <= secrets.len(),
        machine::dangerous_from(secrets, from) is None,
    ensures
        forall|i: int| from <= i < secrets.len() ==> !(#[trigger] secrets[i]).dangerous,
    decreases secrets.len() - from,
{
    if from < secrets.len() {
        lemma_no_dangerous(secrets, from + 1);
    }
}

/// Nothing is run in a sandbox before it has been checked: the prefix is a safe one, no
/// secret goes to a dangerous variable, and what is run gets the arguments that the process
/// got.
pub proof fn law_only_checked_launches_execute<E>(run: Run<E>, j: int)
    requires
        run.is_launch(),
        run.reaches(j),
        run.actions[j] is Execute,
    ensures
        run.states[j].home is Some,
        prefix::is_safe(
            run.states[j].prefix@,
            run.states[j].home->0@,
            run.states[j].roots@,
        ),
        forall|i: int|
            0 <= i < run.states[j].prepared.secrets@.len()
                ==> !(#[trigger] run.states[j].prepared.secrets@[i]).dangerous,
        exists|i: int|
            0 <= i < j && #[trigger] run.events[i] == Event::<E>::Args(run.states[j].args),
        argv::texts(run.actions[j]->Execute_0.command@) == machine::command(run.states[j]),
        machine::variables(run.actions[j]->Execute_0.env_vars@) == machine::environment(
            run.states[j],
        ),
{
    let l = run.states[j];
    lemma_state(run, j);
    prefix::law_accepted_is_safe(l.prefix, l.home->0, l.roots@);
    lemma_no_dangerous(l.prepared.secrets@, 0);
    lemma_args(run, j);
    if j > 0 {
        let event = run.events[j - 1];
    }
}

/// The steps of a launch come in one order: the proxy bypass is checked, the proxy is
/// started, the hook before the session runs, the file that describes the sandbox is
/// written, the sandboxed process runs, the hook after the session runs, and what the launch
/// left behind is cleaned up.
pub proof fn law_steps_come_in_order<E>(run: Run<E>, i: int, j: int)
    requires
        run.is_launch(),
        run.reaches(i),
        run.reaches(j),
    ensures
        run.actions[i] is CheckProxyBypass && run.actions[j] is StartProxy ==> i < j,
        run.actions[i] is StartProxy && run.actions[j] is RunBeforeHook ==> i < j,
        run.actions[i] is RunBeforeHook && run.actions[j] is WriteCapFile ==> i < j,
        run.actions[i] is WriteCapFile && run.actions[j] is Execute ==> i < j,
        run.actions[i] is Execute && run.actions[j] is RunAfterHook ==> i < j,
        run.actions[i] is Execute && run.actions[j] is CleanUp ==> i < j,
        run.actions[i] is RunAfterHook && run.actions[j] is CleanUp ==> i < j,
        run.actions[i] is CleanUp && run.actions[j] is Exit ==> i < j,
{
    lemma_state(run, i);
    lemma_state(run, j);
    if j <= i {
        lemma_order(run, j, i);
    }
}

/// Dangerous secrets are refused before the proxy is started: where it is to be started, no
/// secret goes to a dangerous variable.
pub proof fn law_secrets_are_checked_before_proxy<E>(run: Run<E>, j: int, k: int)
    requires
        run.is_launch(),
        run.reaches(j),
        run.actions[j] is StartProxy,
        0 <= k < run.states[j].prepared.secrets@.len(),
    ensures
        !run.states[j].prepared.secrets@[k].dangerous,
{
    lemma_state(run, j);
    lemma_no_dangerous(run.states[j].prepared.secrets@, 0);
}

/// A launch that has come this far was told to take the steps before.
proof fn lemma_steps<E>(run: Run<E>, j: int)
    requires
        run.is_launch(),
        run.reaches(j),
        !machine::is_over(run.states[j]),
    ensures
        machine::rank(run.states[j].phase) >= machine::rank(Phase::Bypass) ==> exists|i: int|
            0 <= i <= j && #[trigger] run.actions[i] is CheckProxyBypass,
        machine::rank(run.states[j].phase) >= machine::rank(Phase::StartProxy) ==> exists|i: int|
            0 <= i <= j && #[trigger] run.actions[i] is StartProxy,
        machine::rank(run.states[j].phase) >= machine::rank(Phase::BeforeHook)
            && run.states[j].prepared.before_hook ==> exists|i: int|
            0 <= i <= j && #[trigger] run.actions[i] is RunBeforeHook,
        machine::rank(run.states[j].phase) >= machine::rank(Phase::CapFile) ==> exists|i: int|
            0 <= i <= j && #[trigger] run.actions[i] is WriteCapFile,
    decreases j,
{
    if j > 0 {
        let event = run.events[j - 1];
        lemma_state(run, j - 1);
        if !machine::is_over(run.states[j - 1]) {
            lemma_steps(run, j - 1);
        }
        assert(run.actions[j] is CheckProxyBypass || run.states[j - 1].phase == run.states[j].phase
            || !(run.states[j].phase is Bypass));
        assert(run.actions[j] is StartProxy || run.states[j - 1].phase == run.states[j].phase || !(
        run.states[j].phase is StartProxy));
        assert(run.actions[j] is RunBeforeHook || run.states[j - 1].phase == run.states[j].phase
            || !(run.states[j].phase is BeforeHook));
        assert(run.actions[j] is WriteCapFile || run.states[j - 1].phase == run.states[j].phase
            || !(run.states[j].phase is CapFile));
    }
}

/// No step is left out before the sandboxed process runs: the proxy bypass was checked, the
/// proxy started, the hook run, where there is one, and the file written.
pub proof fn law_no_step_is_left_out<E>(run: Run<E>, j: int)
    requires
        run.is_launch(),
        run.reaches(j),
        run.actions[j] is Execute,
    ensures
        exists|i: int| 0 <= i < j && #[trigger] run.actions[i] is CheckProxyBypass,
        exists|i: int| 0 <= i < j && #[trigger] run.actions[i] is StartProxy,
        run.states[j].prepared.before_hook ==> exists|i: int|
            0 <= i < j && #[trigger] run.actions[i] is RunBeforeHook,
        exists|i: int| 0 <= i < j && #[trigger] run.actions[i] is WriteCapFile,
{
    lemma_state(run, j);
    lemma_steps(run, j);
}

/// The sandboxed process is run at most once.
pub proof fn law_executes_once<E>(run: Run<E>, i: int, j: int)
    requires
        run.is_launch(),
        run.reaches(i),
        run.reaches(j),
        run.actions[i] is Execute,
        run.actions[j] is Execute,
    ensures
        i == j,
{
    lemma_state(run, i);
    lemma_state(run, j);
    if i < j {
        let event = run.events[j - 1];
        lemma_order(run, i, j - 1);
    }
    if j < i {
        let event = run.events[i - 1];
        lemma_order(run, j, i - 1);
    }
}

/// A hook that fails never keeps the launch from going on: it counts as one that exports
/// nothing.
pub proof fn law_failed_hook_does_not_block<E>(
    l: Launcher,
    n: Launcher,
    action: Action<E>,
    exported: Vec<(String, String)>,
    other: Launcher,
    after_success: Action<E>,
)
    requires
        machine::well_formed(l),
        l.phase is BeforeHook,
        exported@.len() == 0,
        machine::advances(l, Event::BeforeHook(None), n, action),
        machine::advances(l, Event::BeforeHook(Some(exported)), other, after_success),
    ensures
        action is WriteCapFile,
        action == after_success,
        machine::environment(n) == machine::environment(other),
        machine::command(n) == machine::command(other),
{
    assert(machine::variables(l.hook_env@) == machine::variables(exported@));
}

/// The value that a process sees of the variable `name`: a later setting replaces an
/// earlier one.
pub open spec fn value_of(env: Seq<(Seq<char>, Seq<char>)>, name: Seq<char>) -> Option<Seq<char>>
    decreases env.len(),
{
    if env.len() == 0 {
        None
    } else if env.last().0 == name {
        Some(env.last().1)
    } else {
        value_of(env.drop_last(), name)
    }
}

/// The first of two values that is there.
pub open spec fn first_of(a: Option<Seq<char>>, b: Option<Seq<char>>) -> Option<Seq<char>> {
    match a {
        Some(_) => a,
        None => b,
    }
}

/// Settings that come later are looked at first.
proof fn lemma_value_of(
    a: Seq<(Seq<char>, Seq<char>)>,
    b: Seq<(Seq<char>, Seq<char>)>,
    name: Seq<char>,
)
    ensures
        value_of(a + b, name) == first_of(value_of(b, name), value_of(a, name)),
    decreases b.len(),
{
    if b.len() == 0 {
        assert(a + b == a);
    } else {
        assert((a + b).drop_last() == a + b.drop_last());
        assert((a + b).last() == b.last());
        lemma_value_of(a, b.drop_last(), name);
    }
}

/// Nothing overrides the original `argv[0]`; the proxy's variables override those of the
/// secrets, and both override those of the hook.
pub proof fn law_precedence(l: Launcher, name: Seq<char>)
    ensures
        value_of(machine::environment(l), argv::CONDA_PYTHON_ARGV0_ENV@) == Some(
            machine::original_argv0(argv::texts(l.args@)),
        ),
        name != argv::CONDA_PYTHON_ARGV0_ENV@ ==> value_of(machine::environment(l), name) == first_of(
            value_of(machine::variables(l.proxy_env@), name),
            first_of(
                value_of(machine::secret_variables(l.prepared.secrets@), name),
                value_of(machine::variables(l.hook_env@), name),
            ),
        ),
{
    let env = machine::environment(l);
    let hook = machine::variables(l.hook_env@);
    let secrets = machine::secret_variables(l.prepared.secrets@);
    let proxy = machine::variables(l.proxy_env@);
    assert(env.drop_last() == hook + secrets + proxy);
    lemma_value_of(hook + secrets, proxy, name);
    lemma_value_of(hook, secrets, name);
}

/// The texts as bytes, in UTF-8.
pub open spec fn encoded(texts: Seq<Seq<char>>) -> Seq<Seq<u8>> {
    texts.map_values(|t: Seq<char>| vstd::utf8::encode_utf8(t))
}

/// The interpreter in the sandbox gets the arguments that the user typed, `argv[0]`
/// included, as C strings can hold them: what the launch puts into the command and into the
/// variable for `argv[0]` is put together again. A process without any arguments, not even
/// `argv[0]`, is left out: its interpreter gets one empty argument.
pub proof fn law_interpreter_gets_the_typed_arguments(l: Launcher, argv0: Seq<char>, i: int)
    requires
        0 <= i < l.args@.len(),
        value_of(machine::environment(l), argv::CONDA_PYTHON_ARGV0_ENV@) == Some(argv0),
    ensures
        argv::interpreter_args(
            encoded(machine::command(l)),
            Some(vstd::utf8::encode_utf8(argv0)),
        ).len() == l.args@.len(),
        argv::interpreter_args(
            encoded(machine::command(l)),
            Some(vstd::utf8::encode_utf8(argv0)),
        )[i] == argv::as_c_string(vstd::utf8::encode_utf8(l.args@[i]@)),
{
    law_precedence(l, argv::CONDA_PYTHON_ARGV0_ENV@);
}

/// What a launch knows stays as it is once the phase that it is told in has passed.
proof fn lemma_facts_stay<E>(run: Run<E>, i: int, j: int)
    requires
        run.is_launch(),
        0 <= i <= j,
        run.reaches(j),
    ensures
        machine::rank(run.states[i].phase) <= machine::rank(run.states[j].phase),
        machine::rank(run.states[i].phase) > machine::rank(Phase::Args) ==> run.states[j].args
            == run.states[i].args,
        machine::rank(run.states[i].phase) > machine::rank(Phase::Prepare) ==> run.states[j].prepared
            == run.states[i].prepared,
        machine::rank(run.states[i].phase) >= machine::rank(Phase::Prepare) ==> run.states[j].profile
            == run.states[i].profile,
        machine::rank(run.states[i].phase) > machine::rank(Phase::ProxyOptions)
            ==> run.states[j].proxy_active == run.states[i].proxy_active,
        machine::rank(run.states[i].phase) > machine::rank(Phase::StartProxy)
            ==> run.states[j].proxy_env == run.states[i].proxy_env,
        machine::rank(run.states[i].phase) > machine::rank(Phase::StartDir)
            ==> run.states[j].start_dir == run.states[i].start_dir,
        machine::rank(run.states[i].phase) > machine::rank(Phase::SelfExe)
            ==> run.states[j].self_exe == run.states[i].self_exe,
        machine::rank(run.states[i].phase) > machine::rank(Phase::SessionId)
            ==> run.states[j].session_id == run.states[i].session_id,
        machine::rank(run.states[i].phase) > machine::rank(Phase::BeforeHook)
            ==> run.states[j].hook_env == run.states[i].hook_env,
        machine::rank(run.states[i].phase) > machine::rank(Phase::CapFile)
            ==> run.states[j].cap_file == run.states[i].cap_file,
        machine::rank(run.states[i].phase) > machine::rank(Phase::Execute)
            ==> run.states[j].exit_code == run.states[i].exit_code,
    decreases j,
{
    if i < j {
        lemma_facts_stay(run, i, j - 1);
        let event = run.events[j - 1];
        steps::law_facts_are_kept_as_they_came(
            run.states[j - 1],
            event,
            run.states[j],
            run.actions[j],
        );
    }
}

/// What a launch was told is what it acts by, from then on and to its end: event `i`, told in
/// the phase that waits for it, is known as it came at every later action `j`.
pub proof fn law_what_was_told_is_acted_by<E>(run: Run<E>, i: int, j: int)
    requires
        run.is_launch(),
        0 <= i < j,
        run.reaches(j),
    ensures
        run.states[i].phase is Args && run.events[i] is Args ==> run.states[j].args
            == run.events[i]->Args_0,
        run.states[i].phase is Prepare && run.events[i] is Prepared && run.events[i]->Prepared_0
            is Ok ==> run.states[j].prepared == run.events[i]->Prepared_0->Ok_0,
        run.states[i].phase is ProxyOptions && run.events[i] is ProxyOptions
            && run.events[i]->ProxyOptions_0 is Ok ==> run.states[j].proxy_active
            == run.events[i]->ProxyOptions_0->Ok_0,
        run.states[i].phase is StartProxy && run.events[i] is ProxyStarted
            && run.events[i]->ProxyStarted_0 is Ok ==> run.states[j].proxy_env
            == run.events[i]->ProxyStarted_0->Ok_0,
        run.states[i].phase is StartDir && run.events[i] is StartDir && run.events[i]->StartDir_0
            is Ok ==> run.states[j].start_dir == run.events[i]->StartDir_0->Ok_0,
        run.states[i].phase is SelfExe && run.events[i] is SelfExe ==> run.states[j].self_exe
            == run.events[i]->SelfExe_0,
        run.states[i].phase is SessionId && run.events[i] is SessionId ==> run.states[j].session_id
            == Some(run.events[i]->SessionId_0),
        run.states[i].phase is BeforeHook && run.events[i] is BeforeHook
            && run.events[i]->BeforeHook_0 is Some ==> run.states[j].hook_env
            == run.events[i]->BeforeHook_0->0,
        run.states[i].phase is CapFile && run.events[i] is CapFile && run.events[i]->CapFile_0
            is Some ==> run.states[j].cap_file == run.events[i]->CapFile_0->0,
        run.states[i].phase is Execute && run.events[i] is Exited && run.events[i]->Exited_0 is Ok
            ==> run.states[j].exit_code == run.events[i]->Exited_0->Ok_0,
{
    let event = run.events[i];
    steps::law_facts_are_kept_as_they_came(
        run.states[i],
        event,
        run.states[i + 1],
        run.actions[i + 1],
    );
    steps::law_awaited_events_are_taken_up(
        run.states[i],
        event,
        run.states[i + 1],
        run.actions[i + 1],
    );
    steps::law_what_comes_next(run.states[i], event, run.states[i + 1], run.actions[i + 1]);
    lemma_facts_stay(run, i + 1, j);
}

/// Nothing that was told is lost on the way to the sandboxed process: the command is the
/// executable and the arguments that were told, and its environment holds what the hook
/// exported first, whether or not there is a hook after the session, then the secrets, then
/// what points to the proxy, and the original `argv[0]` last.
pub proof fn law_what_was_told_reaches_the_process<E>(run: Run<E>, i: int, j: int, k: int)
    requires
        run.is_launch(),
        0 <= i < j,
        run.reaches(j),
        run.actions[j] is Execute,
    ensures
        ({
            let plan = run.actions[j]->Execute_0;
            let hook = run.states[j].hook_env@.len() as int;
            let secrets = run.states[j].prepared.secrets@.len() as int;
            &&& run.states[i].phase is Args && run.events[i] is Args ==> {
                let args = (run.events[i]->Args_0)@;
                &&& 1 <= k < args.len() ==> plan.command@[k]@ == args[k]@
                &&& args.len() > 0 ==> plan.command@.len() == args.len()
                &&& args.len() > 0 ==> plan.env_vars@.last().1@ == args[0]@
                &&& plan.env_vars@.last().0@ == "_CONDA_PYTHON_ARGV0"@
            }
            &&& run.states[i].phase is SelfExe && run.events[i] is SelfExe
                ==> plan.command@[0]@ == (run.events[i]->SelfExe_0)@
            &&& run.states[i].phase is BeforeHook && run.events[i] is BeforeHook
                && run.events[i]->BeforeHook_0 is Some ==> {
                let env = (run.events[i]->BeforeHook_0->0)@;
                &&& hook == env.len()
                &&& 0 <= k < env.len() ==> plan.env_vars@[k].0@ == env[k].0@ && plan.env_vars@[k].1@
                    == env[k].1@
            }
            &&& run.states[i].phase is Prepare && run.events[i] is Prepared
                && run.events[i]->Prepared_0 is Ok ==> {
                let list = (run.events[i]->Prepared_0->Ok_0).secrets@;
                &&& secrets == list.len()
                &&& 0 <= k < list.len() ==> plan.env_vars@[hook + k].0@ == list[k].env_var@
                    && plan.env_vars@[hook + k].1@ == list[k].value@
            }
            &&& run.states[i].phase is StartProxy && run.events[i] is ProxyStarted
                && run.events[i]->ProxyStarted_0 is Ok ==> {
                let env = (run.events[i]->ProxyStarted_0->Ok_0)@;
                &&& plan.env_vars@.len() == hook + secrets + env.len() + 1
                &&& 0 <= k < env.len() ==> plan.env_vars@[hook + secrets + k].0@ == env[k].0@
                    && plan.env_vars@[hook + secrets + k].1@ == env[k].1@
            }
            &&& run.states[i].phase is ProxyOptions && run.events[i] is ProxyOptions
                && run.events[i]->ProxyOptions_0 is Ok ==> plan.proxy_active
                == run.events[i]->ProxyOptions_0->Ok_0
        }),
{
    law_what_was_told_is_acted_by(run, i, j);
    let event = run.events[j - 1];
    let l = run.states[j - 1];
    steps::law_execution_goes_by_the_plan(l, event, run.states[j], run.actions[j]);
    steps::law_plan(
        l,
        event->proxy_diagnostics,
        event->network_rules,
        run.actions[j]->Execute_0,
        k,
    );
}

/// What the hook before the session exports reaches the sandboxed process: the last setting of
/// a name in it is the last one of that name in the whole environment, unless a secret, the
/// proxy or the original `argv[0]` sets the same name.
pub proof fn law_hook_exports_reach_the_process<E>(run: Run<E>, i: int, j: int, k: int, m: int)
    requires
        run.is_launch(),
        0 <= i < j,
        run.reaches(j),
        run.actions[j] is Execute,
        run.states[i].phase is BeforeHook,
        run.events[i] is BeforeHook,
        run.events[i]->BeforeHook_0 is Some,
        0 <= k < (run.events[i]->BeforeHook_0->0)@.len(),
        k < m < (run.actions[j]->Execute_0).env_vars@.len(),
        ({
            let env = (run.events[i]->BeforeHook_0->0)@;
            let name = env[k].0@;
            &&& forall|x: int| k < x < env.len() ==> (#[trigger] env[x]).0@ != name
            &&& forall|x: int|
                0 <= x < run.states[j].prepared.secrets@.len() ==> (
                #[trigger] run.states[j].prepared.secrets@[x]).env_var@ != name
            &&& forall|x: int|
                0 <= x < run.states[j].proxy_env@.len() ==> (
                #[trigger] run.states[j].proxy_env@[x]).0@ != name
            &&& name != "_CONDA_PYTHON_ARGV0"@
        }),
    ensures
        (run.actions[j]->Execute_0).env_vars@[k].0@ == (run.events[i]->BeforeHook_0->0)@[k].0@,
        (run.actions[j]->Execute_0).env_vars@[k].1@ == (run.events[i]->BeforeHook_0->0)@[k].1@,
        (run.actions[j]->Execute_0).env_vars@[m].0@ != (run.events[i]->BeforeHook_0->0)@[k].0@,
{
    law_what_was_told_reaches_the_process(run, i, j, k);
    law_what_was_told_is_acted_by(run, i, j);
    let plan = run.actions[j]->Execute_0;
    let env = (run.events[i]->BeforeHook_0->0)@;
    let event = run.events[j - 1];
    let l = run.states[j - 1];
    let h = env.len() as int;
    let s = l.prepared.secrets@.len() as int;
    steps::law_execution_goes_by_the_plan(l, event, run.states[j], run.actions[j]);
    assert(l.hook_env@ == env);
    if m < h {
        steps::law_plan(l, event->proxy_diagnostics, event->network_rules, plan, m);
        assert(env[m].0@ != env[k].0@);
    } else if m < h + s {
        steps::law_plan(l, event->proxy_diagnostics, event->network_rules, plan, m - h);
        assert(run.states[j].prepared.secrets@[m - h].env_var@ != env[k].0@);
    } else {
        steps::law_plan(l, event->proxy_diagnostics, event->network_rules, plan, m - h - s);
        if m < h + s + l.proxy_env@.len() {
            assert(run.states[j].proxy_env@[m - h - s].0@ != env[k].0@);
        } else {
            assert(plan.env_vars@[m] == plan.env_vars@.last());
        }
    }
}

/// The sandbox is prepared from the profile that the launch was told of: the name in the
/// variable, or else the one in the state file, or else the default.
pub proof fn law_sandbox_is_prepared_from_the_profile<E>(run: Run<E>, i: int, j: int)
    requires
        run.is_launch(),
        0 <= i < j,
        run.reaches(j),
        run.states[j].phase is Prepare,
    ensures
        run.states[i].phase is ProfileVar && run.events[i] is ProfileVar
            && crate::launcher::profile::name_in(
            crate::text::string_of(run.events[i]->ProfileVar_0),
        ) is Some ==> run.states[j].profile@ == crate::launcher::profile::profile_for(
            crate::text::string_of(run.events[i]->ProfileVar_0),
            None,
        ),
        run.states[i].phase is State && run.events[i] is State ==> run.states[j].profile@
            == crate::launcher::profile::profile_for(
            None,
            crate::launcher::conda_meta::state_variable(
                crate::text::string_of(run.events[i]->State_0),
                "CONDA_PYTHON_PROFILE"@,
            ),
        ),
{
    let event = run.events[i];
    steps::law_profile_of_a_launch(
        run.states[i],
        event,
        run.states[i + 1],
        run.actions[i + 1],
    );
    steps::law_what_comes_next(run.states[i], event, run.states[i + 1], run.actions[i + 1]);
    lemma_facts_stay(run, i + 1, j);
}

/// A name that the hook exported, and that neither the secrets nor the proxy nor the original
/// `argv[0]` set, has in the sandboxed process the value that the hook gave it, whether or not
/// there is a hook after the session.
pub proof fn law_exported_value_is_seen<E>(run: Run<E>, i: int, j: int, name: Seq<char>)
    requires
        run.is_launch(),
        0 <= i < j,
        run.reaches(j),
        run.actions[j] is Execute,
        run.states[i].phase is BeforeHook,
        run.events[i] is BeforeHook,
        run.events[i]->BeforeHook_0 is Some,
        value_of(machine::secret_variables(run.states[j].prepared.secrets@), name) is None,
        value_of(machine::variables(run.states[j].proxy_env@), name) is None,
        name != "_CONDA_PYTHON_ARGV0"@,
    ensures
        machine::variables((run.events[i]->BeforeHook_0->0)@).is_prefix_of(
            machine::variables((run.actions[j]->Execute_0).env_vars@),
        ),
        value_of(machine::variables((run.actions[j]->Execute_0).env_vars@), name) == value_of(
            machine::variables((run.events[i]->BeforeHook_0->0)@),
            name,
        ),
{
    law_what_was_told_is_acted_by(run, i, j);
    let l = run.states[j];
    let event = run.events[j - 1];
    steps::law_execution_goes_by_the_plan(
        run.states[j - 1],
        event,
        run.states[j],
        run.actions[j],
    );
    law_precedence(l, name);
    let hook = machine::variables(l.hook_env@);
    assert(machine::environment(l).take(hook.len() as int) == hook);
}

/// Of two settings of a name a process sees the later one, and a name that is not set it does
/// not see.
pub proof fn law_later_settings_win(
    before: Seq<(Seq<char>, Seq<char>)>,
    name: Seq<char>,
    value: Seq<char>,
    after: Seq<(Seq<char>, Seq<char>)>,
)
    requires
        forall|k: int| 0 <= k < after.len() ==> (#[trigger] after[k]).0 != name,
    ensures
        value_of(before + seq![(name, value)] + after, name) == Some(value),
        value_of(after, name) is None,
    decreases after.len(),
{
    let whole = before + seq![(name, value)] + after;
    if after.len() == 0 {
        assert(whole.last() == (name, value));
    } else {
        let fewer = after.drop_last();
        assert forall|k: int| 0 <= k < fewer.len() implies (#[trigger] fewer[k]).0 != name by {
            assert(after[k].0 != name);
        }
        law_later_settings_win(before, name, value, fewer);
        assert(whole.drop_last() == before + seq![(name, value)] + fewer);
        assert(whole.last() == after.last());
        assert(after[after.len() - 1].0 != name);
    }
}

} // verus!
