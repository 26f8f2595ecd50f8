use codex_flows::bash_env::{BashEnvCache, CacheKey, ExecParams, LaunchStep};
use codex_flows::capture::{
    capture_environment, capture_plan, collect_output, new_capture_plan, parse_capture,
    sanitize_environment, shell_managed, MAX_CAPTURE_BYTES,
};
use codex_flows::environment::Environment;
use codex_flows::unix_path::path_file_name;

fn environment(pairs: &[(&str, &str)]) -> Environment {
    let mut environment = Environment::new();
    for (key, value) in pairs {
        environment.insert(key.to_string(), value.to_string());
    }
    environment
}

fn sorted(environment: &Environment) -> Vec<(String, String)> {
    let mut entries = environment.entries().clone();
    entries.sort();
    entries
}

fn pairs(entries: &[(&str, &str)]) -> Vec<(String, String)> {
    entries
        .iter()
        .map(|(key, value)| (key.to_string(), value.to_string()))
        .collect()
}

fn params() -> ExecParams {
    ExecParams {
        argv: vec![
            "/bin/bash".to_string(),
            "-c".to_string(),
            "make".to_string(),
        ],
        cwd: "file:///work/project".to_string(),
        arg0: None,
        tty: false,
        pipe_stdin: false,
        bash_env_cache_scope: Some("file:///work".to_string()),
        sandbox: None,
        enforce_managed_network: false,
        managed_network: None,
    }
}

fn inherited() -> Environment {
    environment(&[("BASH_ENV", "/work/env.sh"), ("PATH", "/bin")])
}

#[test]
fn printed_environments_are_read_back() {
    let output = b"<<A=1\0B=x=y\0EMPTY=\0>>".to_vec();
    let captured = parse_capture(output, "<<", ">>").unwrap();
    assert_eq!(
        sorted(&captured),
        pairs(&[("A", "1"), ("B", "x=y"), ("EMPTY", "")])
    );
    assert_eq!(
        sorted(&parse_capture(b"<<A=1\0A=2\0>>".to_vec(), "<<", ">>").unwrap()),
        pairs(&[("A", "2")])
    );
    assert_eq!(
        sorted(&parse_capture(b"<<>>".to_vec(), "<<", ">>").unwrap()),
        pairs(&[])
    );
    assert_eq!(
        sorted(&parse_capture("<<GREETING=grüße\0\0>>".as_bytes().to_vec(), "<<", ">>").unwrap()),
        pairs(&[("GREETING", "grüße")])
    );
}

#[test]
fn malformed_captures_are_refused() {
    for output in [
        b"A=1\0>>".to_vec(),
        b"<<A=1\0".to_vec(),
        b"<<A=1>>".to_vec(),
        b"<<A\0>>".to_vec(),
        b"<<A=\xff\0>>".to_vec(),
        b"<<\xff=1\0>>".to_vec(),
        b"<".to_vec(),
        b"".to_vec(),
    ] {
        assert!(parse_capture(output, "<<", ">>").is_none());
    }
}

#[test]
fn sanitized_environments_drop_the_startup_file_and_keep_managed_variables() {
    let captured = environment(&[
        ("BASH_ENV", "/work/env.sh"),
        ("PATH", "/opt/bin"),
        ("PWD", "/elsewhere"),
        ("SHLVL", "2"),
        ("BASH_FUNC_f%%", "() { :; }"),
    ]);
    let original = environment(&[("PWD", "/work"), ("_", "/bin/sh"), ("PATH", "/bin")]);
    assert_eq!(
        sorted(&sanitize_environment(captured, &original)),
        pairs(&[("PATH", "/opt/bin"), ("PWD", "/work"), ("_", "/bin/sh")])
    );
}

#[test]
fn shells_manage_some_variables_for_themselves() {
    for key in [
        "BASH_FUNC_f%%",
        "BASHOPTS",
        "BASH_ARGV0",
        "BASH_EXECUTION_STRING",
        "OLDPWD",
        "PWD",
        "SHELLOPTS",
        "SHLVL",
        "_",
    ] {
        assert!(shell_managed(key));
    }
    for key in ["BASH_ENV", "PATH", "pwd", "", "BASH_FUNC"] {
        assert!(!shell_managed(key));
    }
}

#[test]
fn capture_plans_print_the_environment_between_markers() {
    let plan = capture_plan("/bin/bash", "0123");
    assert_eq!(plan.start_marker, "__CODEX_BASH_ENV_START_0123__");
    assert_eq!(plan.end_marker, "__CODEX_BASH_ENV_END_0123__");
    assert_eq!(
        plan.argv,
        vec![
            "/bin/bash",
            "-c",
            "builtin printf '%s' '__CODEX_BASH_ENV_START_0123__'; if builtin command env -0; then builtin printf '%s' '__CODEX_BASH_ENV_END_0123__'; else builtin exit 125; fi",
        ]
    );
}

#[test]
fn fresh_capture_plans_have_random_markers() {
    let argv = vec!["/bin/bash".to_string()];
    let first = new_capture_plan(&argv).unwrap();
    let second = new_capture_plan(&argv).unwrap();
    assert_ne!(first.start_marker, second.start_marker);
    let nonce = first
        .start_marker
        .strip_prefix("__CODEX_BASH_ENV_START_")
        .unwrap()
        .strip_suffix("__")
        .unwrap();
    assert_eq!(nonce.len(), 32);
    assert!(nonce
        .chars()
        .all(|c| c.is_ascii_digit() || ('a'..='f').contains(&c)));
    assert_eq!(&nonce[12..13], "4");
    assert!(["8", "9", "a", "b"].contains(&&nonce[16..17]));
    assert_eq!(first, capture_plan("/bin/bash", nonce));
    assert!(new_capture_plan(&Vec::new()).is_none());
}

#[test]
fn output_is_collected_up_to_a_limit() {
    let output = collect_output(vec![1, 2], &vec![3]).unwrap();
    assert_eq!(output, vec![1, 2, 3]);
    let full = collect_output(vec![0; MAX_CAPTURE_BYTES - 1], &vec![1]).unwrap();
    assert_eq!(full.len(), MAX_CAPTURE_BYTES);
    assert_eq!(MAX_CAPTURE_BYTES, 1024 * 1024);
    assert!(collect_output(full, &vec![1]).is_none());
}

#[test]
fn only_clean_captures_are_used() {
    let plan = capture_plan("/bin/bash", "n");
    let output = || Some(format!("{}A=1\0{}", plan.start_marker, plan.end_marker).into_bytes());
    let original = inherited();
    let captured = capture_environment(&plan, Some(0), output(), Some(Vec::new()), &original);
    assert_eq!(sorted(&captured.unwrap()), pairs(&[("A", "1")]));

    for (exit_code, stdout, stderr) in [
        (Some(125), output(), Some(Vec::new())),
        (None, output(), Some(Vec::new())),
        (Some(0), None, Some(Vec::new())),
        (Some(0), output(), None),
        (Some(0), output(), Some(b"warning".to_vec())),
        (Some(0), Some(b"A=1\0".to_vec()), Some(Vec::new())),
    ] {
        assert!(capture_environment(&plan, exit_code, stdout, stderr, &original).is_none());
    }
}

#[test]
fn one_capture_serves_equal_launches() {
    let mut cache = BashEnvCache::default();
    let (key, original) = match cache.environment_for_launch(&params(), inherited(), true) {
        LaunchStep::Capture { key, environment } => (key, environment),
        LaunchStep::Launch { .. } => panic!("nothing was captured yet"),
    };
    let launched = cache.capture_finished(
        key,
        original,
        Some(environment(&[("PATH", "/opt/bin")])),
    );
    assert_eq!(sorted(&launched), pairs(&[("PATH", "/opt/bin")]));

    match cache.environment_for_launch(&params(), inherited(), true) {
        LaunchStep::Launch { environment } => {
            assert_eq!(sorted(&environment), pairs(&[("PATH", "/opt/bin")]))
        }
        LaunchStep::Capture { .. } => panic!("the capture should be reused"),
    }
}

#[test]
fn launches_without_a_key_leave_the_capture_alone() {
    let mut cache = BashEnvCache::default();
    let key = || CacheKey::new(&params(), &inherited(), true).unwrap();
    cache.capture_finished(key(), inherited(), Some(environment(&[("PATH", "/opt/bin")])));
    match cache.environment_for_launch(&params(), environment(&[("A", "1")]), true) {
        LaunchStep::Launch { environment } => assert_eq!(sorted(&environment), pairs(&[("A", "1")])),
        LaunchStep::Capture { .. } => panic!("there is no startup file"),
    }
    match cache.environment_for_key(key(), inherited()) {
        LaunchStep::Launch { environment } => {
            assert_eq!(sorted(&environment), pairs(&[("PATH", "/opt/bin")]))
        }
        LaunchStep::Capture { .. } => panic!("the capture should be reused"),
    }
}

#[test]
fn failed_captures_are_not_tried_again() {
    let mut cache = BashEnvCache::default();
    let key = CacheKey::new(&params(), &inherited(), true).unwrap();
    let launched = cache.capture_finished(key, inherited(), None);
    assert_eq!(sorted(&launched), sorted(&inherited()));
    match cache.environment_for_launch(&params(), inherited(), true) {
        LaunchStep::Launch { environment } => {
            assert_eq!(sorted(&environment), sorted(&inherited()))
        }
        LaunchStep::Capture { .. } => panic!("the failure should be remembered"),
    }
}

#[test]
fn other_settings_capture_again() {
    let mut cache = BashEnvCache::default();
    let key = CacheKey::new(&params(), &inherited(), true).unwrap();
    cache.capture_finished(key, inherited(), Some(environment(&[])));

    let mut changed = Vec::new();
    for change in 0..6 {
        let mut params = params();
        match change {
            0 => params.argv[0] = "/usr/bin/bash".to_string(),
            1 => params.cwd = "file:///work/other".to_string(),
            2 => params.bash_env_cache_scope = Some("file:///".to_string()),
            3 => params.sandbox = Some("read-only".to_string()),
            4 => params.enforce_managed_network = true,
            _ => params.managed_network = Some("proxy".to_string()),
        }
        changed.push((params, inherited()));
    }
    changed.push((params(), environment(&[("BASH_ENV", "/work/env.sh")])));
    for (params, environment) in changed {
        assert!(matches!(
            cache.environment_for_launch(&params, environment, true),
            LaunchStep::Capture { .. }
        ));
    }

    let mut other_script = params();
    other_script.argv[2] = "make test".to_string();
    assert!(matches!(
        cache.environment_for_launch(&other_script, inherited(), true),
        LaunchStep::Launch { .. }
    ));
}

#[test]
fn only_plain_bash_scripts_in_scope_are_cached() {
    assert!(CacheKey::new(&params(), &inherited(), true).is_some());
    assert!(CacheKey::new(&params(), &inherited(), false).is_none());
    assert!(CacheKey::new(&params(), &environment(&[("BASH_ENV", "")]), true).is_none());
    assert!(CacheKey::new(&params(), &environment(&[("PATH", "/bin")]), true).is_none());
    for change in 0..7 {
        let mut params = params();
        match change {
            0 => params.argv[0] = "/bin/zsh".to_string(),
            1 => params.argv[1] = "-lc".to_string(),
            2 => params.argv.push("extra".to_string()),
            3 => params.tty = true,
            4 => params.pipe_stdin = true,
            5 => params.arg0 = Some("bash".to_string()),
            _ => params.bash_env_cache_scope = None,
        }
        assert!(CacheKey::new(&params, &inherited(), true).is_none());
    }
    let cache = BashEnvCache::default();
    match cache.environment_for_launch(&params(), inherited(), false) {
        LaunchStep::Launch { environment } => {
            assert_eq!(sorted(&environment), sorted(&inherited()))
        }
        LaunchStep::Capture { .. } => panic!("nothing should be captured out of scope"),
    }
}

#[test]
fn file_names_follow_the_standard_library() {
    for path in [
        "bash", "/bin/bash", "/bin/bash/", "/bin/bash/.", "bin/..", "/", "", ".", "./", "..",
        "a/./b//", "/.", "/..bash", "bash/./", "./.", ".bash", "//", "a/b/../c",
    ] {
        assert_eq!(
            path_file_name(path),
            std::path::Path::new(path)
                .file_name()
                .map(|name| name.to_str().unwrap().to_string()),
            "{path}"
        );
    }
}

#[test]
fn environments_compare_by_their_variables() {
    let first = environment(&[("A", "1"), ("B", "2")]);
    let second = environment(&[("B", "2"), ("A", "0"), ("A", "1")]);
    assert!(first.same(&second));
    assert!(first.same(&first.clone()));
    assert!(!first.same(&environment(&[("A", "1")])));
    assert!(!environment(&[("A", "1")]).same(&first));
    assert!(!first.same(&environment(&[("A", "1"), ("B", "3")])));
    assert_eq!(first.get("A").map(String::as_str), Some("1"));
    assert_eq!(first.get("C"), None);
}
