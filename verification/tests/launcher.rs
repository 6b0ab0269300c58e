use nono_core::launcher::argv::{c_argument, python_argv, restore_argv0, CONDA_PYTHON_ARGV0_ENV};
use nono_core::launcher::conda_meta::{env_var_in, read_env_var_from_state, state_path};
use nono_core::launcher::location::{copy_parts, is_named, within, Location, PathPart};
use nono_core::launcher::machine::{
    Action, Event, ExecPlan, Failure, Launcher, Phase, Prepared, Secret,
};
use nono_core::launcher::prefix::{resolve_prefix, validate_prefix, PrefixError};
use nono_core::launcher::profile::{
    named_profile, resolve_profile_name, CONDA_PYTHON_PROFILE_ENV, DEFAULT_PROFILE,
};
use nono_core::text::{same_text, trim};

fn parts(path: &str) -> Vec<PathPart> {
    let mut parts = Vec::new();
    if path.starts_with('/') {
        parts.push(PathPart::Root);
    }
    for name in path.split('/').filter(|n| !n.is_empty()) {
        parts.push(match name {
            "." => PathPart::Current,
            ".." => PathPart::Parent,
            _ => PathPart::Normal(name.as_bytes().to_vec()),
        });
    }
    parts
}

fn place(path: &str) -> Location {
    Location { parts: parts(path), shown: path.to_string() }
}

fn joined(parts: &[PathPart]) -> String {
    let mut names = Vec::new();
    for part in parts {
        names.push(match part {
            PathPart::Root => String::new(),
            PathPart::Current => ".".to_string(),
            PathPart::Parent => "..".to_string(),
            PathPart::Normal(name) => String::from_utf8(name.clone()).unwrap(),
        });
    }
    names.join("/")
}

fn texts(list: &[&str]) -> Vec<String> {
    list.iter().map(|s| s.to_string()).collect()
}

fn bytes(list: &[&str]) -> Vec<Vec<u8>> {
    list.iter().map(|s| s.as_bytes().to_vec()).collect()
}

fn pairs(list: &[(&str, &str)]) -> Vec<(String, String)> {
    list.iter().map(|(k, v)| (k.to_string(), v.to_string())).collect()
}

#[test]
fn parts_are_compared_whole() {
    assert!(within(&parts("/home/u/x"), &parts("/home/u")));
    assert!(within(&parts("/home/u"), &parts("/home/u")));
    assert!(!within(&parts("/home/user"), &parts("/home/u")));
    assert!(!within(&parts("/home"), &parts("/home/u")));
    assert!(!within(&parts("home/u"), &parts("/home")));
    assert!(within(&parts("a/../."), &parts("a/..")));
    assert!(!within(&parts("a/../."), &parts("a/.")));
    assert!(is_named(&parts("bin")[0], "bin"));
    assert!(!is_named(&parts("bin")[0], "bi"));
    assert!(!is_named(&PathPart::Root, "/"));
    assert_eq!(joined(&copy_parts(&parts("/a/./../b"))), "/a/./../b");
}

#[test]
fn prefix_is_above_bin() {
    let prefix = resolve_prefix(place("/opt/conda/bin/python3.14")).unwrap_or_default();
    assert_eq!(joined(&prefix), "/opt/conda");
    let root = resolve_prefix(place("/bin/python")).unwrap_or_default();
    assert!(matches!(root.as_slice(), [PathPart::Root]));
    let bare = resolve_prefix(place("bin/python"));
    assert!(matches!(bare, Ok(parts) if parts.is_empty()));
}

fn prefix_refusal(exe: &str) -> String {
    match resolve_prefix(place(exe)) {
        Ok(_) => panic!("accepted"),
        Err(message) => message,
    }
}

#[test]
fn prefix_needs_a_bin_directory() {
    assert_eq!(
        prefix_refusal("/"),
        "cannot derive $PREFIX: / has no parent directory"
    );
    assert_eq!(
        prefix_refusal(""),
        "cannot derive $PREFIX:  has no parent directory"
    );
    for exe in ["/opt/conda/sbin/python", "/python", "python", "/opt/bin/../python"] {
        assert_eq!(
            prefix_refusal(exe),
            format!(
                "cannot derive $PREFIX: expected executable inside a `bin/` directory, got {exe}"
            )
        );
    }
}

fn validated(prefix: &str, home: Result<&str, &str>, roots: Result<&[&str], &str>) -> String {
    let home = home.map(place).map_err(|e| e.to_string());
    let roots = match roots {
        Ok(list) => Ok(list.iter().map(|r| place(r)).collect()),
        Err(e) => Err(e.to_string()),
    };
    match validate_prefix(&place(prefix), home, roots) {
        Ok(()) => "ok".to_string(),
        Err(PrefixError::Refused(message)) => message,
        Err(PrefixError::Lookup(e)) => format!("lookup: {e}"),
    }
}

#[test]
fn safe_prefix_is_accepted() {
    assert_eq!(validated("/opt/conda", Ok("/home/u"), Ok(&["/home/u/.nono"])), "ok");
    assert_eq!(validated("/home/u/env", Ok("/home/u"), Ok(&[])), "ok");
    assert_eq!(validated("/home/us", Ok("/home/user"), Ok(&["/home/use"])), "ok");
}

#[test]
fn misshapen_prefix_is_refused() {
    assert_eq!(
        validated("opt/conda/x", Err("none"), Err("none")),
        "$PREFIX must be absolute, got: opt/conda/x"
    );
    assert_eq!(validated("", Err("none"), Err("none")), "$PREFIX must be absolute, got: ");
    assert_eq!(
        validated("/", Err("none"), Err("none")),
        "$PREFIX must not be the filesystem root"
    );
    assert_eq!(
        validated("/opt", Err("none"), Err("none")),
        "$PREFIX must have at least 3 path components, got 2 (/opt)"
    );
}

#[test]
fn prefix_around_home_is_refused() {
    for home in ["/home/u", "/home/u/nested"] {
        assert_eq!(
            validated("/home/u", Ok(home), Err("none")),
            format!(
                "$PREFIX /home/u is equal to or an ancestor of $HOME {home} — \
                 granting $PREFIX would expose the home directory"
            )
        );
    }
}

#[test]
fn prefix_around_protected_state_is_refused() {
    assert_eq!(
        validated("/var/lib", Ok("/home/u"), Ok(&["/etc/nono", "/var/lib/nono", "/var/lib"])),
        "$PREFIX /var/lib is equal to or an ancestor of nono protected state \
         path /var/lib/nono — this would expose nono internal state to the sandbox"
    );
}

#[test]
fn failed_lookups_are_handed_on() {
    assert_eq!(validated("/opt/conda", Err("no home"), Ok(&[])), "lookup: no home");
    assert_eq!(validated("/opt/conda", Ok("/home/u"), Err("no roots")), "lookup: no roots");
    assert_eq!(validated("/opt/conda", Err("no home"), Err("no roots")), "lookup: no home");
}

#[test]
fn profile_comes_from_variable_then_state_then_default() {
    assert_eq!(resolve_profile_name(Some(" a/b\n"), Some("c")), "a/b");
    assert_eq!(resolve_profile_name(Some(" \t"), Some("\u{a0}c d\u{3000}")), "c d");
    assert_eq!(resolve_profile_name(None, Some("c")), "c");
    assert_eq!(resolve_profile_name(None, Some("")), "intentionally-left-nil/python");
    assert_eq!(resolve_profile_name(None, None), DEFAULT_PROFILE);
    assert_eq!(named_profile(Some("  x ")), Some("x".to_string()));
    assert_eq!(named_profile(Some("  ")), None);
    assert_eq!(named_profile(None), None);
}

#[test]
fn trimming_is_that_of_the_language() {
    for text in [
        "", " ", "a", " a ", "\u{85}x\u{1680}", "\u{2028}a b\u{2029}", "\u{200b}z\u{200b}",
        "\u{feff}q", "\u{205f}\u{202f}w\u{2000}", "\u{180e}m",
    ] {
        assert_eq!(trim(text), text.trim());
        assert_eq!(trim(&trim(text)), trim(text));
    }
    assert!(same_text("ab", "ab") && !same_text("ab", "aB") && !same_text("ab", "a"));
}

#[test]
fn state_file_gives_its_variables() {
    let key = CONDA_PYTHON_PROFILE_ENV;
    let state = r#"{"env_vars": {"CONDA_PYTHON_PROFILE": "abc", "N": 3}, "version": 1}"#;
    assert_eq!(read_env_var_from_state(Some(state), key), Some("abc".to_string()));
    assert_eq!(read_env_var_from_state(Some(state), "N"), None);
    assert_eq!(read_env_var_from_state(Some(state), "OTHER"), None);
    assert_eq!(read_env_var_from_state(None, key), None);
    for malformed in ["", "{", "[1]", "3", r#"{"env_vars": []}"#, r#"{"env_vars": "x"}"#, "{}"] {
        assert_eq!(read_env_var_from_state(Some(malformed), key), None);
    }
}

#[test]
fn variable_is_found_in_a_value() {
    let mut variables = serde_json::Map::new();
    variables.insert("A".to_string(), serde_json::Value::String("x".to_string()));
    variables.insert("B".to_string(), serde_json::Value::Bool(true));
    let mut state = serde_json::Map::new();
    state.insert("A".to_string(), serde_json::Value::String("outer".to_string()));
    state.insert("env_vars".to_string(), serde_json::Value::Object(variables));
    let state = serde_json::Value::Object(state);
    assert_eq!(env_var_in(&state, "A"), Some("x".to_string()));
    assert_eq!(env_var_in(&state, "B"), None);
    assert_eq!(env_var_in(&state, "C"), None);
    assert_eq!(env_var_in(&serde_json::Value::Null, "A"), None);
}

#[test]
fn state_file_stands_below_the_prefix() {
    assert_eq!(joined(&state_path(&parts("/opt/conda"))), "/opt/conda/conda-meta/state");
}

#[test]
fn interpreter_gets_the_original_argv0() {
    let args = || bytes(&["/opt/conda/bin/python", "-c", "pass"]);
    assert_eq!(
        python_argv(args(), Some(b"venv/bin/python".to_vec())),
        bytes(&["venv/bin/python", "-c", "pass"])
    );
    assert_eq!(python_argv(args(), None), args());
    assert_eq!(restore_argv0(Vec::new(), Some(b"x".to_vec())), Vec::<Vec<u8>>::new());
    assert_eq!(restore_argv0(args(), Some(Vec::new())), bytes(&["", "-c", "pass"]));
}

#[test]
fn interpreter_gets_raw_bytes() {
    let args = vec![b"python".to_vec(), b"caf\xe9\xff.py".to_vec()];
    let expected = vec![b"p\xfe".to_vec(), b"caf\xe9\xff.py".to_vec()];
    assert_eq!(python_argv(args, Some(b"p\xfe".to_vec())), expected);
}

#[test]
fn arguments_with_nul_become_empty() {
    assert_eq!(c_argument(&b"a\0b".to_vec()), b"");
    assert_eq!(c_argument(&b"\0".to_vec()), b"");
    assert_eq!(c_argument(&b"ab".to_vec()), b"ab");
    assert_eq!(
        python_argv(bytes(&["p", "x\0", "y"]), Some(b"q\0".to_vec())),
        bytes(&["", "", "y"])
    );
}

fn sandbox(before_hook: bool, after_hook: bool) -> Prepared {
    Prepared {
        secrets: vec![
            Secret {
                env_var: "TOKEN".to_string(),
                value: "s3cret".to_string(),
                dangerous: false,
            },
        ],
        before_hook,
        after_hook,
        proxy_only: true,
    }
}

/// A launch that went well up to its phase.
fn launch_until(phase: Phase, prepared: Prepared) -> Launcher {
    let (mut launch, first) = Launcher::start::<String>(false);
    assert!(matches!(first, Action::CollectArgs));
    let events: Vec<Event<String>> = vec![
        Event::Args(texts(&["python", "-V"])),
        Event::Exe(Ok(place("/opt/conda/bin/python3.14"))),
        Event::Shown("/opt/conda".to_string()),
        Event::Home(Ok(place("/home/u"))),
        Event::Roots(Ok(vec![place("/home/u/.nono")])),
        Event::Registered,
        Event::ProfileVar(None),
        Event::State(Some(r#"{"env_vars": {"CONDA_PYTHON_PROFILE": "team/py"}}"#.to_string())),
        Event::Prepared(Ok(prepared)),
        Event::Bypass(Ok(())),
        Event::ProxyOptions(Ok(true)),
        Event::ProxyStarted(Ok(pairs(&[("HTTPS_PROXY", "http://127.0.0.1:1")]))),
        Event::WorkDir(Some(b"/work".to_vec())),
        Event::StartDir(Ok(b"/work/dir".to_vec())),
        Event::SelfExe("/opt/conda/bin/python3.14".to_string()),
        Event::Defaults(Ok(())),
        Event::SessionId("id-7".to_string()),
        Event::BeforeHook(Some(pairs(&[("A", "1"), ("TOKEN", "hook")]))),
        Event::CapFile(Some(b"/tmp/cap".to_vec())),
        Event::HostFacts { proxy_diagnostics: None, network_rules: Some(true) },
        Event::Exited(Ok(3)),
        Event::AfterHook,
        Event::CleanedUp,
    ];
    for event in events {
        if launch.phase == phase {
            break;
        }
        let hook_event = matches!(event, Event::SessionId(_) | Event::BeforeHook(_));
        let action = launch.advance(event);
        assert!(!matches!(action, Action::Fail(_)));
        assert!(hook_event || !matches!(action, Action::Unexpected));
    }
    assert!(launch.phase == phase);
    launch
}

fn failure(action: Action<String>) -> String {
    match action {
        Action::Fail(Failure::SandboxInit(message)) => format!("init: {message}"),
        Action::Fail(Failure::ConfigParse(message)) => format!("config: {message}"),
        Action::Fail(Failure::Host(e)) => format!("host: {e}"),
        _ => panic!("no failure"),
    }
}

fn plan_of(action: Action<String>) -> ExecPlan {
    match action {
        Action::Execute(plan) => plan,
        _ => panic!("no plan"),
    }
}

#[test]
fn sandboxed_process_hands_over_to_the_interpreter() {
    let (mut launch, first) = Launcher::start::<String>(true);
    assert!(matches!(first, Action::RunPython));
    assert!(matches!(launch.advance(Event::<String>::Args(Vec::new())), Action::Unexpected));
    assert!(launch.phase == Phase::Sandboxed);
}

#[test]
fn launch_runs_to_its_exit() {
    let mut launch = launch_until(Phase::SessionId, sandbox(true, true));
    assert_eq!(launch.profile, "team/py");
    assert!(launch.session_id.is_none());
    let id = Event::<String>::SessionId("id-7".to_string());
    assert!(matches!(launch.advance(id), Action::RunBeforeHook));
    assert_eq!(launch.session_id.as_deref(), Some("id-7"));
    assert_eq!(launch.start_dir, b"/work/dir");
    let exported = pairs(&[("A", "1"), ("TOKEN", "hook"), (CONDA_PYTHON_ARGV0_ENV, "evil")]);
    let next = launch.advance(Event::<String>::BeforeHook(Some(exported)));
    assert!(matches!(next, Action::WriteCapFile));
    assert!(launch.cap_file.is_empty());
    let next = launch.advance(Event::<String>::CapFile(Some(b"/tmp/cap".to_vec())));
    assert!(matches!(next, Action::InspectHost(true)));
    let plan = plan_of(launch.advance(Event::HostFacts {
        proxy_diagnostics: Some(texts(&["slow"])),
        network_rules: Some(true),
    }));
    assert_eq!(plan.command, ["/opt/conda/bin/python3.14", "-V"]);
    assert_eq!(
        plan.env_vars,
        pairs(&[
            ("A", "1"),
            ("TOKEN", "hook"),
            ("_CONDA_PYTHON_ARGV0", "evil"),
            ("TOKEN", "s3cret"),
            ("HTTPS_PROXY", "http://127.0.0.1:1"),
            ("_CONDA_PYTHON_ARGV0", "python"),
        ])
    );
    assert!(plan.secrets_loaded && plan.proxy_active && plan.no_diagnostics);
    assert!(!plan.seccomp_proxy_fallback && !plan.diagnostics_json);
    assert!(!plan.trust_scan_performed && !plan.trust_interception_active);
    assert_eq!(plan.proxy_diagnostics, Some(texts(&["slow"])));
    assert!(matches!(launch.advance(Event::<String>::Exited(Ok(3))), Action::RunAfterHook));
    assert_eq!(launch.exit_code, 3);
    assert_eq!(launch.session_id.as_deref(), Some("id-7"));
    assert_eq!(launch.start_dir, b"/work/dir");
    assert_eq!(launch.cap_file, b"/tmp/cap");
    assert!(matches!(launch.advance(Event::<String>::AfterHook), Action::CleanUp));
    assert!(matches!(launch.advance(Event::<String>::CleanedUp), Action::Exit(3)));
    assert!(matches!(launch.advance(Event::<String>::CleanedUp), Action::Unexpected));
    assert!(launch.phase == Phase::Finished);
}

#[test]
fn prefix_is_registered_before_the_profile_is_loaded() {
    let (mut launch, _) = Launcher::start::<String>(false);
    let mut order = Vec::new();
    let events: Vec<Event<String>> = vec![
        Event::Args(texts(&["python"])),
        Event::Exe(Ok(place("/opt/conda/bin/python"))),
        Event::Shown("/opt/conda".to_string()),
        Event::Home(Ok(place("/home/u"))),
        Event::Roots(Ok(Vec::new())),
        Event::Registered,
        Event::ProfileVar(Some(" mine ".to_string())),
    ];
    for event in events {
        order.push(match launch.advance(event) {
            Action::ResolveExe => "exe",
            Action::ShowPrefix => "show",
            Action::LookUpHome => "home",
            Action::LookUpRoots => "roots",
            Action::RegisterPrefix => "register",
            Action::ReadProfileVar => "variable",
            Action::PrepareSandbox { allow_cwd: true } => "prepare",
            _ => "other",
        });
    }
    assert_eq!(order, ["exe", "show", "home", "roots", "register", "variable", "prepare"]);
    assert_eq!(launch.profile, "mine");
    assert_eq!(joined(&launch.prefix.parts), "/opt/conda");
    assert_eq!(launch.prefix.shown, "/opt/conda");
}

#[test]
fn steps_come_in_order() {
    let mut launch = launch_until(Phase::Prepare, sandbox(true, true));
    let mut order = Vec::new();
    let events: Vec<Event<String>> = vec![
        Event::Prepared(Ok(sandbox(true, true))),
        Event::Bypass(Ok(())),
        Event::ProxyOptions(Ok(true)),
        Event::ProxyStarted(Ok(Vec::new())),
        Event::WorkDir(None),
        Event::StartDir(Ok(Vec::new())),
        Event::SelfExe("p".to_string()),
        Event::Defaults(Ok(())),
        Event::SessionId("s".to_string()),
        Event::BeforeHook(None),
        Event::CapFile(None),
        Event::HostFacts { proxy_diagnostics: None, network_rules: None },
        Event::Exited(Ok(0)),
    ];
    for event in events {
        match launch.advance(event) {
            Action::CheckProxyBypass => order.push("bypass"),
            Action::StartProxy => order.push("proxy"),
            Action::RunBeforeHook => order.push("before"),
            Action::WriteCapFile => order.push("file"),
            Action::Execute(_) => order.push("execute"),
            Action::RunAfterHook => order.push("after"),
            _ => {}
        }
    }
    assert_eq!(order, ["bypass", "proxy", "before", "file", "execute", "after"]);
}

#[test]
fn state_file_is_read_without_the_variable() {
    let mut launch = launch_until(Phase::ProfileVar, sandbox(false, false));
    match launch.advance(Event::<String>::ProfileVar(Some("  ".to_string()))) {
        Action::ReadState(path) => assert_eq!(joined(&path), "/opt/conda/conda-meta/state"),
        _ => panic!("state file not asked for"),
    }
    let next = launch.advance(Event::<String>::State(None));
    assert!(matches!(next, Action::PrepareSandbox { allow_cwd: true }));
    assert_eq!(launch.profile, "intentionally-left-nil/python");
}

#[test]
fn unsafe_prefixes_end_the_launch() {
    let mut launch = launch_until(Phase::Exe, sandbox(false, false));
    assert_eq!(
        failure(launch.advance(Event::Exe(Ok(place("/opt/python"))))),
        "init: cannot derive $PREFIX: expected executable inside a `bin/` directory, \
         got /opt/python"
    );
    assert!(launch.phase == Phase::Failed);

    let mut launch = launch_until(Phase::Exe, sandbox(false, false));
    launch.advance(Event::<String>::Exe(Ok(place("/usr/bin/python"))));
    assert_eq!(
        failure(launch.advance(Event::Shown("/usr".to_string()))),
        "init: $PREFIX must have at least 3 path components, got 2 (/usr)"
    );

    let mut launch = launch_until(Phase::Home, sandbox(false, false));
    assert!(failure(launch.advance(Event::Home(Ok(place("/opt/conda/u")))))
        .starts_with("init: $PREFIX /opt/conda is equal to or an ancestor of $HOME /opt/conda/u"));

    let mut launch = launch_until(Phase::Roots, sandbox(false, false));
    assert!(failure(launch.advance(Event::Roots(Ok(vec![place("/opt/conda")]))))
        .starts_with("init: $PREFIX /opt/conda is equal to or an ancestor of nono protected"));
}

#[test]
fn unknown_executable_ends_the_launch() {
    for phase in [Phase::Exe, Phase::SelfExe] {
        let mut launch = launch_until(phase, sandbox(false, false));
        assert_eq!(
            failure(launch.advance(Event::NoExe("gone".to_string()))),
            "init: cannot determine current_exe: gone"
        );
        assert!(launch.phase == Phase::Failed);
    }
}

#[test]
fn failed_actions_end_the_launch() {
    let why = || "why".to_string();
    let cases: Vec<(Phase, Event<String>)> = vec![
        (Phase::Exe, Event::Exe(Err(why()))),
        (Phase::Home, Event::Home(Err(why()))),
        (Phase::Roots, Event::Roots(Err(why()))),
        (Phase::Prepare, Event::Prepared(Err(why()))),
        (Phase::Bypass, Event::Bypass(Err(why()))),
        (Phase::ProxyOptions, Event::ProxyOptions(Err(why()))),
        (Phase::StartProxy, Event::ProxyStarted(Err(why()))),
        (Phase::StartDir, Event::StartDir(Err(why()))),
        (Phase::Defaults, Event::Defaults(Err(why()))),
        (Phase::Execute, Event::Exited(Err(why()))),
    ];
    for (phase, event) in cases {
        let mut launch = launch_until(phase, sandbox(true, true));
        assert_eq!(failure(launch.advance(event)), "host: why");
        assert!(launch.phase == Phase::Failed);
        assert!(matches!(launch.advance(Event::<String>::Registered), Action::Unexpected));
    }
}

#[test]
fn dangerous_secret_ends_the_launch() {
    let mut prepared = sandbox(false, false);
    for (name, dangerous) in [("LD_PRELOAD", true), ("BASH_ENV", true)] {
        prepared.secrets.push(Secret {
            env_var: name.to_string(),
            value: "x".to_string(),
            dangerous,
        });
    }
    let mut launch = launch_until(Phase::Bypass, prepared);
    assert_eq!(
        failure(launch.advance(Event::Bypass(Ok(())))),
        "config: secret mapping targets dangerous environment variable: LD_PRELOAD"
    );
}

#[test]
fn missing_files_and_directories_have_stand_ins() {
    let mut launch = launch_until(Phase::WorkDir, sandbox(false, false));
    assert!(matches!(launch.advance(Event::<String>::WorkDir(None)), Action::FindStartDir));
    assert_eq!(launch.start_dir, b"/");
    let mut launch = launch_until(Phase::CapFile, sandbox(false, false));
    let next = launch.advance(Event::<String>::CapFile(None));
    assert!(matches!(next, Action::InspectHost(true)));
    assert_eq!(launch.cap_file, b"/dev/null");
}

#[test]
fn session_id_is_made_for_hooks_only() {
    let mut launch = launch_until(Phase::Defaults, sandbox(false, false));
    let next = launch.advance(Event::<String>::Defaults(Ok(())));
    assert!(matches!(next, Action::WriteCapFile));
    assert!(launch.session_id.is_none());
    launch.advance(Event::<String>::CapFile(None));
    launch.advance(Event::<String>::HostFacts { proxy_diagnostics: None, network_rules: None });
    assert!(matches!(launch.advance(Event::<String>::Exited(Ok(0))), Action::CleanUp));

    let mut launch = launch_until(Phase::Defaults, sandbox(false, true));
    let next = launch.advance(Event::<String>::Defaults(Ok(())));
    assert!(matches!(next, Action::MakeSessionId));
    let next = launch.advance(Event::<String>::SessionId("s".to_string()));
    assert!(matches!(next, Action::WriteCapFile));
    assert_eq!(launch.session_id.as_deref(), Some("s"));

    let mut launch = launch_until(Phase::Execute, sandbox(true, false));
    assert!(matches!(launch.advance(Event::<String>::Exited(Ok(-1))), Action::CleanUp));
    assert!(matches!(launch.advance(Event::<String>::CleanedUp), Action::Exit(-1)));
}

#[test]
fn failed_hook_does_not_block() {
    let facts = || Event::HostFacts { proxy_diagnostics: None, network_rules: None };
    let mut failed = launch_until(Phase::BeforeHook, sandbox(true, false));
    assert!(matches!(failed.advance(Event::<String>::BeforeHook(None)), Action::WriteCapFile));
    let mut silent = launch_until(Phase::BeforeHook, sandbox(true, false));
    silent.advance(Event::<String>::BeforeHook(Some(Vec::new())));
    failed.advance(Event::<String>::CapFile(None));
    silent.advance(Event::<String>::CapFile(None));
    let after_failure = plan_of(failed.advance(facts()));
    assert_eq!(after_failure.env_vars, plan_of(silent.advance(facts())).env_vars);
    assert_eq!(after_failure.env_vars.len(), 3);
}

#[test]
fn plan_depends_on_the_host() {
    let launch = launch_until(Phase::HostFacts, sandbox(false, false));
    for (rules, fallback) in [(None, true), (Some(false), true), (Some(true), false)] {
        let plan = launch.plan(Some(Vec::new()), rules);
        assert_eq!(plan.seccomp_proxy_fallback, fallback);
        assert_eq!(plan.proxy_diagnostics, None);
    }
    let open = Prepared {
        secrets: Vec::new(),
        before_hook: false,
        after_hook: false,
        proxy_only: false,
    };
    let launch = launch_until(Phase::HostFacts, open);
    let plan = launch.plan(None, None);
    assert!(!plan.seccomp_proxy_fallback && !plan.secrets_loaded);
}

#[test]
fn interpreter_gets_what_the_user_typed() {
    let mut launch = launch_until(Phase::HostFacts, sandbox(false, false));
    launch.args = texts(&["./venv/bin/python", "-c", "print(1)"]);
    let plan = launch.plan(None, None);
    let argv0 = plan.env_vars.iter().rev().find(|(k, _)| k == CONDA_PYTHON_ARGV0_ENV);
    let argv0 = argv0.map(|(_, v)| v.clone().into_bytes());
    let command = plan.command.into_iter().map(String::into_bytes).collect();
    assert_eq!(python_argv(command, argv0), bytes(&["./venv/bin/python", "-c", "print(1)"]));

    launch.args = Vec::new();
    let plan = launch.plan(None, None);
    assert_eq!(plan.command, ["/opt/conda/bin/python3.14"]);
    let last = plan.env_vars.last().cloned();
    assert_eq!(last, Some((CONDA_PYTHON_ARGV0_ENV.to_string(), String::new())));
}

#[test]
fn unexpected_events_change_nothing() {
    let mut launch = launch_until(Phase::Bypass, sandbox(true, true));
    assert!(matches!(launch.advance(Event::<String>::Exited(Ok(9))), Action::Unexpected));
    assert!(matches!(launch.advance(Event::<String>::Args(Vec::new())), Action::Unexpected));
    assert!(launch.phase == Phase::Bypass);
    assert_eq!(launch.exit_code, 0);
    assert_eq!(launch.args, ["python", "-V"]);
}
