use tmuxtui::app::{App, InputMode, Key, KeyInput, Selection};
use tmuxtui::managed_config::ManagedConfig;
use tmuxtui::tmux::{LastTarget, TargetKind, assemble_snapshot, parse_panes, parse_sessions, parse_windows};
use tmuxtui::tmux_ops::{Effect, Job, Outcome, Reply, Step, Tmux, is_no_server_error};

#[test]
fn parses_tmux_snapshot_rows() {
    let sessions = parse_sessions("$1\tdev\t1\n");
    let windows = parse_windows("$1\t@1\teditor\t1\n");
    let panes = parse_panes("@1\t%1\tmain\tnvim\t/Users/me/project\t1\t0\n");

    assert_eq!(sessions.len(), 1);
    assert_eq!(sessions[0].name, "dev");
    assert!(sessions[0].attached);

    assert_eq!(windows.len(), 1);
    assert_eq!(windows[0].session_id, "$1");
    assert_eq!(windows[0].name, "editor");
    assert!(windows[0].active);

    assert_eq!(panes.len(), 1);
    assert_eq!(panes[0].window_id, "@1");
    assert_eq!(panes[0].current_command, "nvim");
    assert_eq!(panes[0].current_path, "/Users/me/project");
    assert!(panes[0].active);
    assert!(!panes[0].zoomed);
}

#[test]
fn keeps_tmux_pane_listing_order() {
    let panes = parse_panes("@1\t%10\tmain\tzsh\t/tmp\t1\t0\n@1\t%2\tmain\tzsh\t/tmp\t0\t0\n");

    assert_eq!(panes[0].id, "%10");
    assert_eq!(panes[1].id, "%2");
}

#[test]
fn keeps_tmux_window_listing_order() {
    let windows = parse_windows("$1\t@10\tzsh\t1\n$1\t@2\tagent\t0\n");

    assert_eq!(windows[0].id, "@10");
    assert_eq!(windows[0].name, "zsh");
    assert_eq!(windows[1].id, "@2");
    assert_eq!(windows[1].name, "agent");
}

#[test]
fn short_rows_are_skipped() {
    assert_eq!(parse_sessions("$1\tdev\n$2\tops\t0\n\n").len(), 1);
    assert_eq!(parse_windows("$1\t@1\teditor\n").len(), 0);
    assert_eq!(parse_panes("@1\t%1\tmain\tzsh\t/tmp\t1\n").len(), 0);
    let crlf = parse_sessions("$1\tdev\t1\r\n");
    assert_eq!(crlf.len(), 1);
    assert!(crlf[0].attached);
}

#[test]
fn snapshot_nests_panes_and_windows_and_sorts_sessions_by_name() {
    let snap = assemble_snapshot(
        "$2\tzeta\t0\n$1\talpha\t1\n",
        "$2\t@3\tlogs\t1\n$1\t@1\teditor\t1\n$1\t@2\tshell\t0\n$9\t@9\torphan\t1\n",
        "@1\t%1\tt\tnvim\t/a\t1\t0\n@2\t%2\tt\tzsh\t/b\t1\t1\n@1\t%4\tt\tzsh\t/a\t0\t0\n@8\t%8\tt\tzsh\t/x\t1\t0\n",
    );
    assert_eq!(snap.sessions.len(), 2);
    assert_eq!(snap.sessions[0].name, "alpha");
    assert_eq!(snap.sessions[1].name, "zeta");
    assert_eq!(snap.sessions[0].windows.len(), 2);
    assert_eq!(snap.sessions[0].windows[0].panes.len(), 2);
    assert_eq!(snap.sessions[0].windows[0].panes[1].id, "%4");
    assert!(snap.sessions[0].windows[1].panes[0].zoomed);
    assert_eq!(snap.sessions[1].windows[0].panes.len(), 0);
}

#[test]
fn no_server_messages_are_recognised() {
    assert!(is_no_server_error("no server running on /tmp/tmux-1000/default"));
    assert!(is_no_server_error("error connecting: failed to connect to server"));
    assert!(!is_no_server_error("can't find session: x"));
}

fn args_of(effect: &Effect) -> Vec<String> {
    match effect {
        Effect::Run { args, .. } => args.clone(),
        Effect::Attach { args } => args.clone(),
        Effect::Write(w) => vec![String::from("write"), w.path.clone(), w.contents.clone()],
        Effect::MakeDir(d) => vec![String::from("mkdir"), d.clone()],
        Effect::Clock => vec![String::from("clock")],
    }
}

/// Runs a job against a scripted tmux: `reply` answers each effect.
fn run_job(mut job: Job, reply: &dyn Fn(&[String]) -> Reply, log: &mut Vec<Vec<String>>) -> Outcome {
    let mut step = job.start();
    loop {
        match step {
            Step::Finish(outcome) => return outcome,
            Step::Perform(effect) => {
                let args = args_of(&effect);
                let answer = reply(&args);
                log.push(args);
                step = job.resume(answer);
            },
        }
    }
}

fn scripted(args: &[String]) -> Reply {
    let first = args.first().map(String::as_str).unwrap_or("");
    match first {
        "list-sessions" => Reply::Output(String::from("$1\tdev\t1\n$2\tops\t0\n")),
        "list-windows" => Reply::Output(String::from(
            "$1\t@1\teditor\t1\n$1\t@2\tshell\t0\n$2\t@3\tlogs\t1\n",
        )),
        "list-panes" => Reply::Output(String::from(
            "@1\t%1\tt\tnvim\t/src\t1\t0\n@1\t%2\tt\tzsh\t/src\t0\t0\n@2\t%3\tt\tzsh\t/tmp\t1\t0\n@3\t%4\tt\ttail\t/var\t1\t0\n",
        )),
        "show-options" => match args.last().map(String::as_str) {
            Some("@tmuxtui-session") => Reply::Output(String::from("$1\n")),
            Some("@tmuxtui-window") => Reply::Output(String::from("@2\n")),
            Some("@tmuxtui-pane") => Reply::Output(String::from("\n")),
            _ => Reply::Output(String::new()),
        },
        "capture-pane" => Reply::Output(format!("contents of {}", args[4])),
        "new-session" => Reply::Output(String::from("$7\n")),
        "clock" => Reply::Output(String::from("1700000000")),
        _ => Reply::Output(String::new()),
    }
}

/// Runs what the app asks for until it waits on nothing.
fn drive(app: &mut App, first: Option<Job>, log: &mut Vec<Vec<String>>) {
    let mut next = first;
    while let Some(job) = next {
        let outcome = run_job(job, &scripted, log);
        next = app.resume(outcome);
    }
}

fn scripted_app() -> App {
    App::new(Tmux::new(ManagedConfig::from_dir("/tmp/tmuxtui-tests", None)))
}

#[test]
fn snapshot_job_reads_three_listings() {
    let tmux = Tmux::new(ManagedConfig::from_dir("/tmp/tmuxtui-tests", None));
    let mut log = Vec::new();
    let outcome = run_job(tmux.snapshot(), &scripted, &mut log);
    assert_eq!(log.len(), 3);
    assert_eq!(log[0][0], "list-sessions");
    assert_eq!(log[1][0], "list-windows");
    assert_eq!(log[2][0], "list-panes");
    match outcome {
        Outcome::Snapshot(s) => {
            assert_eq!(s.sessions.len(), 2);
            assert_eq!(s.sessions[0].windows[0].panes.len(), 2);
        },
        _ => panic!("expected a snapshot"),
    }
}

#[test]
fn snapshot_job_without_server_is_empty() {
    let tmux = Tmux::new(ManagedConfig::from_dir("/tmp/tmuxtui-tests", None));
    let mut log = Vec::new();
    let outcome = run_job(
        tmux.snapshot(),
        &|_: &[String]| Reply::Failure(String::from("no server running on /tmp/tmux-0/default")),
        &mut log,
    );
    match outcome {
        Outcome::Snapshot(s) => assert!(s.sessions.is_empty()),
        _ => panic!("expected an empty snapshot"),
    }
}

#[test]
fn failing_command_reports_trimmed_message() {
    let tmux = Tmux::new(ManagedConfig::from_dir("/tmp/tmuxtui-tests", None));
    let mut log = Vec::new();
    let outcome = run_job(
        tmux.kill_pane("%9"),
        &|_: &[String]| Reply::Failure(String::from("  can't find pane: %9\n")),
        &mut log,
    );
    assert_eq!(log, vec![vec![String::from("kill-pane"), String::from("-t"), String::from("%9")]]);
    match outcome {
        Outcome::Failed(m) => assert_eq!(m, "can't find pane: %9"),
        _ => panic!("expected a failure"),
    }
}

#[test]
fn last_target_job_reads_three_options() {
    let tmux = Tmux::new(ManagedConfig::from_dir("/tmp/tmuxtui-tests", None));
    let mut log = Vec::new();
    let outcome = run_job(tmux.last_target(), &scripted, &mut log);
    match outcome {
        Outcome::Target(Some(t)) => {
            assert_eq!(
                t,
                LastTarget { session_id: String::from("$1"), window_id: Some(String::from("@2")), pane_id: None }
            );
        },
        _ => panic!("expected a target"),
    }
}

#[test]
fn set_last_target_clears_missing_parts() {
    let tmux = Tmux::new(ManagedConfig::from_dir("/tmp/tmuxtui-tests", None));
    let mut log = Vec::new();
    let outcome = run_job(tmux.set_last_target(&TargetKind::Session(String::from("$3"))), &scripted, &mut log);
    assert!(matches!(outcome, Outcome::Done));
    assert_eq!(log.len(), 3);
    assert_eq!(log[0], vec!["set-option", "-gq", "@tmuxtui-session", "$3"]);
    assert_eq!(log[1], vec!["set-option", "-gq", "@tmuxtui-window", ""]);
    assert_eq!(log[2], vec!["set-option", "-gq", "@tmuxtui-pane", ""]);
}

#[test]
fn create_session_names_the_session_only_when_given() {
    let tmux = Tmux::new(ManagedConfig::from_dir("/tmp/tmuxtui-tests", None));
    let mut log = Vec::new();
    let outcome = run_job(tmux.create_session(""), &scripted, &mut log);
    assert_eq!(log[0], vec!["new-session", "-P", "-F", "#{session_id}", "-d"]);
    assert!(matches!(outcome, Outcome::Text(ref id) if id == "$7"));
    log.clear();
    run_job(tmux.create_session("work"), &scripted, &mut log);
    assert_eq!(log[0], vec!["new-session", "-P", "-F", "#{session_id}", "-d", "-s", "work"]);
}

#[test]
fn refresh_reads_tmux_and_previews_the_selected_pane() {
    let mut app = scripted_app();
    let mut log = Vec::new();
    let first = app.refresh();
    drive(&mut app, first, &mut log);
    assert_eq!(app.snapshot.sessions.len(), 2);
    assert_eq!(app.snapshot.sessions[0].name, "dev");
    // the remembered window @2 of $1 is selected
    assert_eq!(app.selection, Some(Selection::Window(0, 1)));
    assert_eq!(app.pinned_pane, None);
    assert_eq!(app.preview, "contents of %3");
    assert_eq!(app.status, "");
}

#[test]
fn keys_move_and_attach_through_jobs() {
    let mut app = scripted_app();
    let mut log = Vec::new();
    let first = app.refresh();
    drive(&mut app, first, &mut log);
    let j = app.handle_key(KeyInput { code: Key::Char('k'), ctrl: false, shift: false });
    assert!(j.is_none());
    assert_eq!(app.selection, Some(Selection::Pane(0, 0, 1)));
    log.clear();
    let job = app.handle_key(KeyInput { code: Key::Enter, ctrl: false, shift: false });
    drive(&mut app, job, &mut log);
    assert!(app.should_quit());
    assert_eq!(
        app.attach_target(),
        Some(TargetKind::Pane { session_id: String::from("$1"), window_id: String::from("@1"), pane_id: String::from("%2") })
    );
    assert_eq!(log[0], vec!["set-option", "-gq", "@tmuxtui-session", "$1"]);
    assert_eq!(log[2], vec!["set-option", "-gq", "@tmuxtui-pane", "%2"]);
}

#[test]
fn new_session_prompt_selects_the_created_session() {
    let mut app = scripted_app();
    let mut log = Vec::new();
    let first = app.refresh();
    drive(&mut app, first, &mut log);
    app.selection = Some(Selection::Session(0));
    let none = app.handle_key(KeyInput { code: Key::Char('O'), ctrl: false, shift: true });
    assert!(none.is_none());
    assert!(matches!(app.mode, InputMode::Prompt(_)));
    for c in "  ops ".chars() {
        let j = app.handle_key(KeyInput { code: Key::Char(c), ctrl: false, shift: false });
        drive(&mut app, j, &mut log);
    }
    log.clear();
    let job = app.handle_key(KeyInput { code: Key::Enter, ctrl: false, shift: false });
    drive(&mut app, job, &mut log);
    assert_eq!(log[0], vec!["new-session", "-P", "-F", "#{session_id}", "-d", "-s", "ops"]);
    assert_eq!(app.mode, InputMode::Normal);
    assert_eq!(app.status, "saved");
    assert!(app.input.is_empty());
}

#[test]
fn failed_tmux_command_shows_its_message() {
    let mut app = scripted_app();
    let mut log = Vec::new();
    let first = app.refresh();
    drive(&mut app, first, &mut log);
    let job = app.handle_key(KeyInput { code: Key::Char('z'), ctrl: false, shift: false });
    assert!(job.is_some());
    // keys are ignored while the job runs
    assert!(app.handle_key(KeyInput { code: Key::Char('q'), ctrl: false, shift: false }).is_none());
    assert!(!app.should_quit());
    let next = app.resume(Outcome::Failed(String::from("no current client")));
    assert!(next.is_none());
    assert_eq!(app.status, "no current client");
}

#[test]
fn renaming_a_window_to_blank_uses_its_pane_command() {
    let mut app = scripted_app();
    let mut log = Vec::new();
    let first = app.refresh();
    drive(&mut app, first, &mut log);
    app.selection = Some(Selection::Window(0, 0));
    let none = app.handle_key(KeyInput { code: Key::Char('r'), ctrl: false, shift: false });
    assert!(none.is_none());
    assert_eq!(app.input, "editor");
    for _ in 0..6 {
        let j = app.handle_key(KeyInput { code: Key::Backspace, ctrl: false, shift: false });
        assert!(j.is_none());
    }
    log.clear();
    let job = app.handle_key(KeyInput { code: Key::Enter, ctrl: false, shift: false });
    drive(&mut app, job, &mut log);
    assert_eq!(log[0], vec!["rename-window", "-t", "@1", "nvim"]);
    assert_eq!(app.status, "saved");
}

#[test]
fn renaming_a_session_to_blank_uses_its_active_window_name() {
    let mut app = scripted_app();
    let mut log = Vec::new();
    let first = app.refresh();
    drive(&mut app, first, &mut log);
    app.selection = Some(Selection::Session(1));
    app.handle_key(KeyInput { code: Key::Char('r'), ctrl: false, shift: false });
    assert_eq!(app.input, "ops");
    for _ in 0..3 {
        app.handle_key(KeyInput { code: Key::Backspace, ctrl: false, shift: false });
    }
    log.clear();
    let job = app.handle_key(KeyInput { code: Key::Enter, ctrl: false, shift: false });
    drive(&mut app, job, &mut log);
    assert_eq!(log[0], vec!["rename-session", "-t", "$2", "logs"]);
}

#[test]
fn new_window_starts_in_the_selected_pane_directory() {
    let mut app = scripted_app();
    let mut log = Vec::new();
    let first = app.refresh();
    drive(&mut app, first, &mut log);
    app.selection = Some(Selection::Session(1));
    app.handle_key(KeyInput { code: Key::Char('o'), ctrl: false, shift: false });
    assert!(matches!(app.mode, InputMode::Prompt(_)));
    log.clear();
    let job = app.handle_key(KeyInput { code: Key::Enter, ctrl: false, shift: false });
    drive(&mut app, job, &mut log);
    assert_eq!(log[0], vec!["display-message", "-p", "-t", "%4", "#{pane_current_path}"]);
    assert_eq!(log[1][0], "new-window");
    assert_eq!(app.mode, InputMode::Normal);
}

#[test]
fn big_a_archives_every_pane_of_the_window() {
    let mut app = scripted_app();
    let mut log = Vec::new();
    let first = app.refresh();
    drive(&mut app, first, &mut log);
    app.selection = Some(Selection::Window(0, 0));
    log.clear();
    let job = app.handle_key(KeyInput { code: Key::Char('A'), ctrl: false, shift: true });
    assert!(job.is_some());
    drive(&mut app, job, &mut log);
    assert_eq!(log[0], vec!["mkdir", "/tmp/tmuxtui-tests/archive"]);
    assert_eq!(log[1], vec!["clock"]);
    assert_eq!(log[2], vec!["capture-pane", "-J", "-p", "-t", "%1", "-S", "-"]);
    assert_eq!(log[3], vec!["capture-pane", "-J", "-p", "-t", "%2", "-S", "-"]);
    assert_eq!(log[4][0], "write");
    assert_eq!(log[4][1], "/tmp/tmuxtui-tests/archive/1700000000-editor.txt");
    assert_eq!(
        log[4][2],
        "archive: editor\ncreated: 1700000000\n\n--- 1 %1 ---\ncontents of %1\n\n--- 2 %2 ---\ncontents of %2\n"
    );
    assert_eq!(log.len(), 5);
    assert_eq!(app.status, "archived /tmp/tmuxtui-tests/archive/1700000000-editor.txt");
}

#[test]
fn small_a_archives_the_selected_pane_or_the_whole_session() {
    let mut app = scripted_app();
    let mut log = Vec::new();
    let first = app.refresh();
    drive(&mut app, first, &mut log);
    app.selection = Some(Selection::Pane(0, 0, 1));
    log.clear();
    let job = app.handle_key(KeyInput { code: Key::Char('a'), ctrl: false, shift: false });
    drive(&mut app, job, &mut log);
    assert_eq!(log.len(), 4);
    assert_eq!(log[2], vec!["capture-pane", "-J", "-p", "-t", "%2", "-S", "-"]);
    assert_eq!(log[3][1], "/tmp/tmuxtui-tests/archive/1700000000-editor-2.txt");

    app.selection = Some(Selection::Session(0));
    log.clear();
    let job = app.handle_key(KeyInput { code: Key::Char('a'), ctrl: false, shift: false });
    drive(&mut app, job, &mut log);
    assert_eq!(log.len(), 6);
    assert!(log[5][2].contains("--- editor.1 %1 ---"));
    assert!(log[5][2].contains("--- shell.1 %3 ---"));
    assert_eq!(app.status, "archived /tmp/tmuxtui-tests/archive/1700000000-dev.txt");
}

#[test]
fn failed_archive_shows_the_message() {
    let tmux = Tmux::new(ManagedConfig::from_dir("/tmp/tmuxtui-tests", None));
    let mut log = Vec::new();
    let outcome = run_job(
        tmux.archive_panes("x", Vec::new()),
        &|_: &[String]| Reply::Failure(String::from("failed to create archive directory at /x")),
        &mut log,
    );
    assert!(matches!(outcome, Outcome::Failed(ref m) if m == "failed to create archive directory at /x"));
}
