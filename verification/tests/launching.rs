use dsh_desktop::boot::{
    boot_start, exit_failure_message, start_timeout_secs, timeout_message, wait_step, BootStart,
    WaitDecision, WaitObservation,
};
use dsh_desktop::commands::{checked_repo_dir, set_repo_dir};
use dsh_desktop::launch::{
    augmented_path, dedup_dirs, launch_argv, launch_failure_message, launch_plan_from,
    node_version_roots, sort_paths,
};
use dsh_desktop::paths::{
    checked_program, home_scan_bases, home_scan_candidates, is_repo_root, names_file,
    next_repo_source, program_paths, program_search_dirs, repo_candidates, repo_marker_path,
    resolve_program, resolve_repo_dir, scan_home_for_repo, search_start, search_step,
    walk_up_to_repo, RepoSearch, RepoSource, RepoStep, SearchStep,
};
use dsh_desktop::web_url::WebUrl;

fn strings(items: &[&str]) -> Vec<String> {
    items.iter().map(|s| s.to_string()).collect()
}

#[test]
fn resolve_program_finds_an_absolute_path() {
    let program = resolve_program("/bin/ls", None, "").expect("absolute path must resolve");
    assert_eq!(program, "/bin/ls");
}

#[test]
fn resolve_program_rejects_a_missing_name() {
    assert!(resolve_program(
        "definitely-not-a-real-command-xyz",
        Some("/usr/bin:/bin".to_string()),
        "/nonexistent-home"
    )
    .is_none());
}

#[test]
fn resolve_program_searches_path_entries() {
    assert_eq!(
        resolve_program("ls", Some("/nonexistent-dir:/bin".to_string()), ""),
        Some("/bin/ls".to_string())
    );
    assert_eq!(resolve_program("/nonexistent/ls", None, ""), None);
}

#[test]
fn program_search_dirs_put_path_before_fallbacks() {
    assert_eq!(
        program_search_dirs(Some("/a::/b".to_string()), "/home/me"),
        strings(&["/a", "", "/b", "/opt/homebrew/bin", "/usr/local/bin", "/home/me/.local/share/pnpm"])
    );
    assert_eq!(
        program_search_dirs(Some("  ".to_string()), ""),
        strings(&["/opt/homebrew/bin", "/usr/local/bin", "/.local/share/pnpm"])
    );
}

#[test]
fn augmented_path_includes_common_locations_and_dedupes() {
    let path = augmented_path(
        "/opt/homebrew/bin/pnpm",
        "/home/me",
        &Vec::new(),
        Some("/usr/bin:/opt/homebrew/bin:/usr/bin".to_string()),
    );
    let dirs: Vec<&str> = path.split(':').collect();
    assert!(dirs.contains(&"/opt/homebrew/bin"));
    assert!(dirs.first().is_some_and(|first| *first == "/opt/homebrew/bin"));
    let mut seen = std::collections::HashSet::new();
    for dir in &dirs {
        assert!(seen.insert(*dir), "duplicate PATH entry: {dir}");
    }
}

#[test]
fn augmented_path_orders_its_sources() {
    let versions = vec![
        strings(&["/h/.nvm/versions/node/v20", "/h/.nvm/versions/node/v18"]),
        strings(&["/h/.local/share/fnm/node-versions/v22"]),
    ];
    let path = augmented_path("/usr/bin/pnpm", "/h", &versions, Some("/x::/usr/bin".to_string()));
    assert_eq!(
        path,
        "/usr/bin:/h/.local/share/pnpm:/h/.local/share/fnm:/h/.volta/bin:/h/Library/pnpm:/opt/homebrew/bin:/h/.nvm/versions/node/v18/bin:/h/.nvm/versions/node/v20/bin:/h/.local/share/fnm/node-versions/v22/bin:/x"
    );
    assert_eq!(
        node_version_roots("/h"),
        strings(&["/h/.nvm/versions/node", "/h/.local/share/fnm/node-versions"])
    );
}

#[test]
fn sorting_and_dedup() {
    assert_eq!(
        sort_paths(&strings(&["b", "a/bin", "a", "B", "é", "ab"])),
        strings(&["B", "a", "a/bin", "ab", "b", "é"])
    );
    assert_eq!(dedup_dirs(&strings(&["a", "", "b", "a", "c", "b"])), strings(&["a", "b", "c"]));
}

#[test]
fn launch_argv_defaults_to_the_url_port() {
    let url = WebUrl::parse("http://127.0.0.1:3080").unwrap();
    assert_eq!(launch_argv(None, &url), strings(&["pnpm", "dsh", "web", "--port", "3080"]));
    let https = WebUrl::parse("https://example.com").unwrap();
    assert_eq!(launch_argv(Some(" ".to_string()), &https)[4], "443");
    let other = WebUrl::parse("foo://example.com").unwrap();
    assert_eq!(launch_argv(None, &other)[4], "80");
}

#[test]
fn launch_argv_uses_a_custom_command_verbatim() {
    let url = WebUrl::parse("http://127.0.0.1:3080").unwrap();
    assert_eq!(
        launch_argv(Some("node  dist/web.js --port 9000".to_string()), &url),
        strings(&["node", "dist/web.js", "--port", "9000"])
    );
}

#[test]
fn launch_plan_reports_the_first_missing_piece() {
    let argv = strings(&["pnpm", "dsh", "web"]);
    let no_program = launch_plan_from(&argv, None, Some("/repo".to_string()), "", &Vec::new(), None);
    let message = no_program.err().unwrap();
    assert!(message.starts_with("could not find `pnpm`.\nLaunch the app from a terminal"));
    let no_repo = launch_plan_from(&argv, Some("/usr/bin/pnpm".to_string()), None, "", &Vec::new(), None);
    assert_eq!(
        no_repo.err().unwrap(),
        "could not locate the DeepSeek Harness checkout.\nLaunch the app from the checkout directory, or set DSH_REPO_DIR to its path."
    );
    let empty = launch_plan_from(&Vec::new(), None, None, "", &Vec::new(), None);
    assert_eq!(empty.err().unwrap(), "DSH_WEB_COMMAND must not be empty");
    let plan = launch_plan_from(
        &argv,
        Some("/usr/bin/pnpm".to_string()),
        Some("/repo".to_string()),
        "/h",
        &Vec::new(),
        Some("/bin".to_string()),
    )
    .ok()
    .unwrap();
    assert_eq!(plan.program, "/usr/bin/pnpm");
    assert_eq!(plan.args, strings(&["dsh", "web"]));
    assert_eq!(plan.working_dir, "/repo");
    assert!(plan.search_path.starts_with("/usr/bin:/h/.local/share/pnpm"));
    assert!(plan.search_path.ends_with(":/bin"));
}

#[test]
fn launch_failure_names_the_command() {
    assert_eq!(
        launch_failure_message(&strings(&["pnpm", "dsh", "web"]), "No such file"),
        "failed to launch `pnpm dsh web`: No such file"
    );
}

#[test]
fn walk_candidates_climb_with_siblings() {
    assert_eq!(
        repo_candidates("/a/b"),
        strings(&["/a/b", "/a/b/deepseek-harness", "/a", "/a/deepseek-harness", "/", "/deepseek-harness"])
    );
    let deep = repo_candidates("/1/2/3/4/5/6/7/8/9/10");
    assert_eq!(deep.len(), 16);
    assert_eq!(deep[14], "/1/2/3");
    assert_eq!(repo_marker_path("/r"), "/r/pnpm-workspace.yaml");
}

#[test]
fn no_checkout_is_found_where_there_is_none() {
    assert!(!is_repo_root("/nonexistent-dir-xyz"));
    assert_eq!(walk_up_to_repo("/nonexistent-dir-xyz/a"), None);
}

#[test]
fn home_scan_looks_in_the_usual_places() {
    let bases = home_scan_bases("/h");
    assert_eq!(bases.len(), 8);
    assert_eq!(bases[0], "/h/deepseek-harness");
    assert_eq!(bases[1], "/h/Projects");
    assert_eq!(bases[7], "/h/work");
    let mut entries = vec![Vec::new(); 8];
    entries[1] = strings(&["/h/Projects/mine"]);
    let candidates = home_scan_candidates("/h", &entries);
    assert_eq!(candidates[0], "/h/deepseek-harness");
    assert_eq!(candidates[1], "/h/deepseek-harness/deepseek-harness");
    assert_eq!(candidates[2], "/h/Projects/deepseek-harness");
    assert_eq!(candidates[3], "/h/Projects/mine/deepseek-harness");
    assert_eq!(candidates.len(), 10);
}

#[test]
fn set_repo_dir_refuses_a_directory_without_the_marker() {
    assert_eq!(
        set_repo_dir("/nonexistent-dir-xyz".to_string()),
        Err("/nonexistent-dir-xyz is not a DeepSeek Harness checkout (no pnpm-workspace.yaml)".to_string())
    );
    assert_eq!(checked_repo_dir("/r".to_string(), true), Ok("/r".to_string()));
}

#[test]
fn start_timeout_defaults_to_three_minutes() {
    assert_eq!(start_timeout_secs(None), 180);
    assert_eq!(start_timeout_secs(Some(" ".to_string())), 180);
    assert_eq!(start_timeout_secs(Some("soon".to_string())), 180);
    assert_eq!(start_timeout_secs(Some("30".to_string())), 30);
}

#[test]
fn boot_attaches_to_a_running_server() {
    let url = WebUrl::parse("http://127.0.0.1:3080").unwrap();
    match boot_start(&url, true, None) {
        BootStart::Attach { status } => {
            assert_eq!(status, "http://127.0.0.1:3080/ is already listening — attaching")
        }
        BootStart::Launch { .. } => panic!("must attach"),
    }
    match boot_start(&url, false, Some("/repo".to_string())) {
        BootStart::Launch { status } => assert_eq!(
            status,
            "launching the harness web server for http://127.0.0.1:3080/ (repo: /repo)"
        ),
        BootStart::Attach { .. } => panic!("must launch"),
    }
}

#[test]
fn waiting_decides_in_order() {
    let url = WebUrl::parse("http://127.0.0.1:3080").unwrap();
    let tail = strings(&["boom", "bye"]);
    let obs = |listening, exited, elapsed_ms, since_report_ms| WaitObservation {
        listening,
        exited,
        elapsed_ms,
        since_report_ms,
    };
    assert!(matches!(wait_step(&obs(true, Some(Some(1)), 999_999, 0), &url, 1, &tail), WaitDecision::Ready));
    match wait_step(&obs(false, Some(Some(1)), 0, 0), &url, 180, &tail) {
        WaitDecision::Failed { message } => assert_eq!(
            message,
            "the harness web server exited (exit code 1) before becoming ready\nserver output:\nboom\nbye"
        ),
        _ => panic!("must fail"),
    }
    match wait_step(&obs(false, None, 180_000, 0), &url, 180, &tail) {
        WaitDecision::Failed { message } => {
            assert_eq!(message, "timed out waiting for http://127.0.0.1:3080/ after 180s")
        }
        _ => panic!("must time out"),
    }
    assert!(matches!(
        wait_step(&obs(false, None, 179_999, 2_000), &url, 180, &tail),
        WaitDecision::Waiting { report: true }
    ));
    assert!(matches!(
        wait_step(&obs(false, None, 1_000, 1_999), &url, 180, &tail),
        WaitDecision::Waiting { report: false }
    ));
}

#[test]
fn failure_messages() {
    assert_eq!(
        exit_failure_message(None, &Vec::new()),
        "the harness web server exited before becoming ready"
    );
    assert_eq!(
        exit_failure_message(Some(-9), &Vec::new()),
        "the harness web server exited (exit code -9) before becoming ready"
    );
    let url = WebUrl::parse("http://localhost:1/").unwrap();
    assert_eq!(timeout_message(&url, 0), "timed out waiting for http://localhost:1/ after 0s");
}

#[test]
fn launched_server_listens_where_the_client_probes() {
    for text in ["http://127.0.0.1:3080", "http://example.com", "https://h:8443/x"] {
        let url = WebUrl::parse(text).unwrap();
        let (_, port) = dsh_desktop::web_url::probe_target(&url).unwrap();
        let argv = launch_argv(None, &url);
        assert_eq!(argv[3], "--port");
        assert_eq!(argv[4], port.to_string());
    }
}

#[test]
fn searches_stop_at_the_first_hit() {
    assert!(matches!(search_start(0), SearchStep::NotFound));
    assert!(matches!(search_start(3), SearchStep::Probe(0)));
    assert!(matches!(search_step(3, 0, false), SearchStep::Probe(1)));
    assert!(matches!(search_step(3, 1, true), SearchStep::Found(1)));
    assert!(matches!(search_step(3, 2, false), SearchStep::NotFound));
    assert!(matches!(search_step(3, 2, true), SearchStep::Found(2)));
}

#[test]
fn discovery_sources_come_in_order() {
    assert!(matches!(
        next_repo_source(RepoSource::Configured, None),
        RepoStep::Try(RepoSource::WorkingDir)
    ));
    assert!(matches!(
        next_repo_source(RepoSource::WorkingDir, None),
        RepoStep::Try(RepoSource::Executable)
    ));
    assert!(matches!(
        next_repo_source(RepoSource::Executable, None),
        RepoStep::Try(RepoSource::HomeScan)
    ));
    assert!(matches!(next_repo_source(RepoSource::HomeScan, None), RepoStep::Done(None)));
    match next_repo_source(RepoSource::Configured, Some("/r".to_string())) {
        RepoStep::Done(Some(found)) => assert_eq!(found, "/r"),
        _ => panic!("a configured checkout must win"),
    }
}

#[test]
fn programs_with_a_separator_are_taken_as_given() {
    assert_eq!(checked_program("/bin/ls", true), Some("/bin/ls".to_string()));
    assert_eq!(checked_program("/bin/ls", false), None);
    assert!(names_file("/bin/ls"));
    assert!(!names_file("/bin"));
    assert_eq!(
        program_paths("ls", Some("/a".to_string()), "/h"),
        strings(&["/a/ls", "/opt/homebrew/bin/ls", "/usr/local/bin/ls", "/h/.local/share/pnpm/ls"])
    );
}

#[test]
fn discovery_without_any_checkout_finds_nothing() {
    let search = RepoSearch {
        configured: Some("/nonexistent-dir-xyz".to_string()),
        current_dir: Some("/nonexistent-dir-xyz/a".to_string()),
        executable: Some("/nonexistent-dir-xyz/bin/app".to_string()),
        home: Some("/nonexistent-home-xyz".to_string()),
        home_entries: vec![Vec::new(); 8],
    };
    assert_eq!(resolve_repo_dir(&search), None);
    assert_eq!(scan_home_for_repo("/nonexistent-home-xyz", &Vec::new()), None);
}
