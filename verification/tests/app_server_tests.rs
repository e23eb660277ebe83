use quota_critter::codex::{
    reply_action, shell_lookup_commands, CodexLookup, LookupEvent, LookupOutcome, LookupStage,
    ReplyAction,
};
use quota_critter::codex::{
    app_server_command, best_candidate, codex_missing_error, codex_names, configured_codex_path,
    first_existing, is_codex_extension, push_codex_candidate, select_codex, target_matches_current_architecture,
    target_matches_current_platform, which_output_paths, CodexCandidate, DirWalk, Platform,
};
use quota_critter::AppServerState;

#[test]
fn launches_npm_cmd_wrappers_through_cmd_exe() {
    let command = app_server_command(r"C:\Program Files\Codex\codex.cmd", Some("cmd"), Platform::Windows);
    assert_eq!(command.program, "cmd.exe");
    let args = command.args.clone();
    assert!(args
        .iter()
        .any(|value| value.contains("app-server --listen stdio://")));
}

#[test]
fn launch_arguments_per_platform() {
    let c = app_server_command(r"C:\x\codex.CMD", Some("CMD"), Platform::Windows);
    assert_eq!(c.args, vec!["/d", "/s", "/c", r#""C:\x\codex.CMD" app-server --listen stdio://"#]);
    let p = app_server_command(r"C:\x\codex.ps1", Some("ps1"), Platform::Windows);
    assert_eq!(p.program, "powershell.exe");
    assert_eq!(
        p.args,
        vec!["-NoLogo", "-NoProfile", "-NonInteractive", "-ExecutionPolicy", "Bypass", "-File", r"C:\x\codex.ps1", "app-server", "--listen", "stdio://"]
    );
    let e = app_server_command(r"C:\x\codex.exe", Some("exe"), Platform::Windows);
    assert_eq!(e.program, r"C:\x\codex.exe");
    assert_eq!(e.args, vec!["app-server", "--listen", "stdio://"]);
    let u = app_server_command("/usr/bin/codex.cmd", Some("cmd"), Platform::Linux);
    assert_eq!(u.program, "/usr/bin/codex.cmd");
    assert_eq!(u.args, vec!["app-server", "--listen", "stdio://"]);
}

#[test]
fn names_and_targets() {
    assert_eq!(codex_names(Platform::Windows), vec!["codex.exe", "codex.cmd", "codex.bat", "codex.ps1", "codex"]);
    assert_eq!(codex_names(Platform::Macos), vec!["codex"]);
    assert!(target_matches_current_platform("darwin-x86_64", Platform::Macos));
    assert!(target_matches_current_platform("macos-arm64", Platform::Macos));
    assert!(!target_matches_current_platform("linux-x86_64", Platform::Windows));
    assert!(target_matches_current_platform("linux-x86_64", Platform::Linux));
    assert!(target_matches_current_architecture("windows-x64", "x86_64"));
    assert!(target_matches_current_architecture("darwin-arm64", "aarch64"));
    assert!(!target_matches_current_architecture("darwin-arm64", "x86_64"));
    assert!(target_matches_current_architecture("linux-riscv64", "riscv64"));
    assert!(is_codex_extension("OpenAI.ChatGPT-99.0.0"));
    assert!(is_codex_extension("openai.chatgpt"));
    assert!(!is_codex_extension("openai.chatgptx"));
}

#[test]
fn newest_matching_candidate_wins() {
    let mut c: Vec<CodexCandidate> = Vec::new();
    push_codex_candidate(&mut c, "a".into(), Some(5), false);
    push_codex_candidate(&mut c, "missing".into(), None, true);
    push_codex_candidate(&mut c, "b".into(), Some(1), true);
    push_codex_candidate(&mut c, "c".into(), Some(3), true);
    push_codex_candidate(&mut c, "d".into(), Some(3), true);
    assert_eq!(c.len(), 4);
    assert_eq!(best_candidate(&c), Some(2));
    assert_eq!(select_codex(&c).as_deref(), Some("c"));
    assert_eq!(select_codex(&Vec::new()), None);
}

#[test]
fn dir_walk_is_depth_first_and_bounded() {
    let mut w = DirWalk::new(vec!["r1".into(), "r2".into()], 1);
    let (d, depth, list) = w.next_dir().unwrap();
    assert_eq!((d.as_str(), depth, list), ("r2", 0, true));
    w.push_subdirs(vec!["r2/a".into(), "r2/b".into()], depth);
    let (d, depth, list) = w.next_dir().unwrap();
    assert_eq!((d.as_str(), depth, list), ("r2/b", 1, false));
    assert_eq!(w.next_dir().unwrap().0, "r2/a");
    assert_eq!(w.next_dir().unwrap().0, "r1");
    assert!(w.next_dir().is_none());
}

#[test]
fn which_output_lines() {
    assert_eq!(which_output_paths("/usr/bin/codex\n"), vec!["/usr/bin/codex"]);
    assert_eq!(which_output_paths("  C:\\a\\codex.cmd \r\n\r\nC:\\b\\codex"), vec!["C:\\a\\codex.cmd", "C:\\b\\codex"]);
    assert!(which_output_paths("").is_empty());
}

#[test]
fn override_and_errors() {
    assert_eq!(configured_codex_path(Some("  /opt/codex \n")).as_deref(), Some("/opt/codex"));
    assert_eq!(configured_codex_path(Some(" \t ")), None);
    assert_eq!(configured_codex_path(None), None);
    assert_eq!(codex_missing_error(true, true), "CODEX_CONFIG_FOUND_BUT_CLI_MISSING");
    assert_eq!(codex_missing_error(false, true), "CODEX_CONFIGURED_PATH_MISSING");
    assert_eq!(codex_missing_error(false, false), "CODEX_NOT_FOUND");
}

#[test]
fn server_states_exist() {
    let states = [
        AppServerState::Starting,
        AppServerState::Handshaking,
        AppServerState::Ready,
        AppServerState::Backoff,
        AppServerState::Error,
    ];
    assert_eq!(states.len(), 5);
}

fn run_lookup(platform: Platform, events: &[LookupEvent]) -> (Vec<LookupStage>, Option<String>) {
    let mut lookup = CodexLookup::new(platform);
    let mut visited = Vec::new();
    for event in events {
        visited.push(lookup.stage);
        match lookup.advance(*event) {
            LookupOutcome::Continue => {}
            LookupOutcome::Resolved => return (visited, None),
            LookupOutcome::Failed(e) => return (visited, Some(e)),
        }
    }
    (visited, Some("unfinished".to_string()))
}

#[test]
fn lookup_visits_stages_in_order() {
    let (skipped, not_found, found) = (LookupEvent::Skipped, LookupEvent::NotFound, LookupEvent::Found);
    let (stages, error) = run_lookup(Platform::Windows, &[skipped, skipped, not_found, not_found, not_found, not_found, not_found, not_found]);
    assert_eq!(
        stages,
        vec![
            LookupStage::ConfiguredPath,
            LookupStage::EnvironmentPath,
            LookupStage::SearchPath,
            LookupStage::EditorExtensions,
            LookupStage::DesktopInstalls,
            LookupStage::CommonLocations,
            LookupStage::ShellLookup,
            LookupStage::Credentials,
        ]
    );
    assert_eq!(error.as_deref(), Some("CODEX_NOT_FOUND"));

    let (stages, error) = run_lookup(Platform::Macos, &[not_found, skipped, not_found, not_found, not_found, not_found, not_found]);
    assert!(!stages.contains(&LookupStage::DesktopInstalls));
    assert_eq!(error.as_deref(), Some("CODEX_CONFIGURED_PATH_MISSING"));

    let (_, error) = run_lookup(Platform::Linux, &[not_found, skipped, not_found, not_found, not_found, not_found, found]);
    assert_eq!(error.as_deref(), Some("CODEX_CONFIG_FOUND_BUT_CLI_MISSING"));

    let (stages, error) = run_lookup(Platform::Linux, &[skipped, skipped, found]);
    assert_eq!(stages.last(), Some(&LookupStage::SearchPath));
    assert_eq!(error, None);
}

#[test]
fn lookup_commands_and_replies() {
    assert_eq!(shell_lookup_commands(Platform::Windows), vec!["where"]);
    assert_eq!(shell_lookup_commands(Platform::Linux), vec!["which", "command -v"]);
    assert!(matches!(reply_action(3, Some(2), false), ReplyAction::Skip));
    assert!(matches!(reply_action(3, None, true), ReplyAction::Skip));
    assert!(matches!(reply_action(3, Some(3), true), ReplyAction::Fail));
    assert!(matches!(reply_action(3, Some(3), false), ReplyAction::Succeed));
}

#[test]
fn first_existing_candidate_in_order() {
    assert_eq!(first_existing(&vec![false, true, true]), Some(1));
    assert_eq!(first_existing(&vec![true, false]), Some(0));
    assert_eq!(first_existing(&vec![false, false]), None);
    assert_eq!(first_existing(&Vec::new()), None);
}

fn walk_tree(max_depth: usize) -> Vec<(String, usize)> {
    // root/app-1.2.3/resources/bin, as in a nested desktop installation.
    let children = |dir: &str| -> Vec<String> {
        match dir {
            "root" => vec!["root/app-1.2.3".to_string()],
            "root/app-1.2.3" => vec!["root/app-1.2.3/resources".to_string()],
            "root/app-1.2.3/resources" => vec!["root/app-1.2.3/resources/bin".to_string()],
            _ => Vec::new(),
        }
    };
    let mut walk = DirWalk::new(vec!["root".to_string()], max_depth);
    let mut visited = Vec::new();
    while let Some((dir, depth, list)) = walk.next_dir() {
        if list {
            walk.push_subdirs(children(&dir), depth);
        }
        visited.push((dir, depth));
    }
    visited
}

#[test]
fn dir_walk_visits_each_directory_within_the_limit_once() {
    let shallow = walk_tree(2);
    assert_eq!(shallow.len(), 3);
    assert!(!shallow.iter().any(|(d, _)| d.ends_with("/bin")));
    let deep = walk_tree(4);
    assert_eq!(deep.len(), 4);
    assert_eq!(deep.last(), Some(&("root/app-1.2.3/resources/bin".to_string(), 3)));
}
