use tmuxtui::app::{App, CreateIntent, CutTarget, InputMode, Key, KeyInput, PasteIntent, Selection, SelectionKey};
use tmuxtui::managed_config::ManagedConfig;
use tmuxtui::rows::pane_label;
use tmuxtui::tmux::{Pane, Session, Snapshot, TargetKind, Window};
use tmuxtui::tmux_ops::{Outcome, Tmux};

fn fixture_app() -> App {
    App::new(Tmux::new(ManagedConfig::from_dir("/tmp/tmuxtui-tests", None)))
}

fn fixture_pane(id: &str, command: &str, path: &str, active: bool, window_id: &str) -> Pane {
    Pane {
        id: id.to_owned(),
        current_command: command.to_owned(),
        current_path: path.to_owned(),
        active,
        zoomed: false,
        window_id: window_id.to_owned(),
    }
}

fn fixture_window(id: &str, name: &str, active: bool, session_id: &str, panes: Vec<Pane>) -> Window {
    Window { id: id.to_owned(), name: name.to_owned(), active, session_id: session_id.to_owned(), panes }
}

fn fixture_session(id: &str, name: &str, attached: bool, windows: Vec<Window>) -> Session {
    Session { id: id.to_owned(), name: name.to_owned(), attached, windows }
}

fn snapshot_with_windows(windows: &[(&str, &str, bool)]) -> Snapshot {
    Snapshot {
        sessions: vec![Session {
            id: String::from("$1"),
            name: String::from("dev"),
            attached: false,
            windows: windows
                .iter()
                .map(|(id, name, active)| Window {
                    id: (*id).to_owned(),
                    name: (*name).to_owned(),
                    active: *active,
                    session_id: String::from("$1"),
                    panes: vec![Pane {
                        id: format!("%{id}"),
                        current_command: String::from("zsh"),
                        current_path: String::from("/tmp"),
                        active: true,
                        zoomed: false,
                        window_id: (*id).to_owned(),
                    }],
                })
                .collect(),
        }],
    }
}

/// Presses a key as the program would with no tmux server to talk to:
/// every job that the key starts fails.
fn press(app: &mut App, code: Key, shift: bool) {
    let mut next = app.handle_key(KeyInput { code, ctrl: false, shift });
    while next.is_some() {
        next = app.resume(Outcome::Failed(String::from("no server running")));
    }
}

fn two_window_sessions() -> Snapshot {
    Snapshot {
        sessions: vec![
            fixture_session(
                "$1",
                "alpha",
                true,
                vec![fixture_window("@1", "main", true, "$1", vec![fixture_pane("%1", "zsh", "/tmp/alpha", true, "@1")])],
            ),
            fixture_session(
                "$2",
                "beta",
                false,
                vec![
                    fixture_window("@2", "one", true, "$2", vec![fixture_pane("%2", "zsh", "/tmp/beta", true, "@2")]),
                    fixture_window("@3", "two", false, "$2", vec![fixture_pane("%3", "zsh", "/tmp/beta", true, "@3")]),
                ],
            ),
        ],
    }
}

fn recent_and_beta() -> Snapshot {
    Snapshot {
        sessions: vec![
            fixture_session(
                "$1",
                "alpha",
                true,
                vec![
                    fixture_window("@1", "main", true, "$1", vec![fixture_pane("%1", "zsh", "/tmp/alpha", true, "@1")]),
                    fixture_window("@2", "recent", false, "$1", vec![fixture_pane("%2", "zsh", "/tmp/alpha", true, "@2")]),
                ],
            ),
            fixture_session(
                "$2",
                "beta",
                false,
                vec![fixture_window("@3", "main", true, "$2", vec![fixture_pane("%3", "zsh", "/tmp/beta", true, "@3")])],
            ),
        ],
    }
}

fn split_editor(first_active: bool) -> Snapshot {
    Snapshot {
        sessions: vec![fixture_session(
            "$1",
            "dev",
            false,
            vec![fixture_window(
                "@1",
                "editor",
                true,
                "$1",
                vec![
                    fixture_pane("%1", "zsh", "/tmp", first_active, "@1"),
                    fixture_pane("%2", "zsh", "/tmp", !first_active, "@1"),
                ],
            )],
        )],
    }
}

fn split_editor_and_shell() -> Snapshot {
    Snapshot {
        sessions: vec![fixture_session(
            "$1",
            "dev",
            false,
            vec![
                fixture_window(
                    "@1",
                    "editor",
                    true,
                    "$1",
                    vec![fixture_pane("%1", "zsh", "/tmp", false, "@1"), fixture_pane("%2", "zsh", "/tmp", true, "@1")],
                ),
                fixture_window("@2", "shell", false, "$1", vec![fixture_pane("%3", "zsh", "/tmp", true, "@2")]),
            ],
        )],
    }
}

#[test]
fn reconcile_selection_tracks_window_by_id_when_indices_shift() {
    let mut app = fixture_app();
    app.snapshot = snapshot_with_windows(&[("@1", "alpha", true), ("@2", "beta", false)]);
    app.selection = Some(Selection::Window(0, 1));

    let previous_selection = app.selection_key();
    app.snapshot = snapshot_with_windows(&[("@2", "beta", true), ("@3", "gamma", false)]);
    app.reconcile_selection(previous_selection.as_ref(), Some(2));

    assert_eq!(app.selection, Some(Selection::Window(0, 0)));
}

#[test]
fn reconcile_selection_stays_in_same_session_when_window_is_removed() {
    let mut app = fixture_app();
    app.snapshot = two_window_sessions();
    app.selection = Some(Selection::Window(1, 1));

    let previous_selection = app.selection_key();
    app.snapshot.sessions[1].windows.remove(1);
    app.reconcile_selection(previous_selection.as_ref(), Some(4));

    assert_eq!(app.selection, Some(Selection::Session(1)));
}

#[test]
fn reconcile_selection_keeps_row_position_when_session_is_removed() {
    let mut app = fixture_app();
    app.snapshot = recent_and_beta();
    app.selection = Some(Selection::Session(1));

    let previous_selection = app.selection_key();
    app.snapshot.sessions.remove(1);
    app.reconcile_selection(previous_selection.as_ref(), Some(3));

    assert_eq!(app.selection, Some(Selection::Session(0)));
}

#[test]
fn reconcile_selection_uses_adjacent_session_when_window_in_removed_session_was_selected() {
    let mut app = fixture_app();
    app.snapshot = recent_and_beta();
    app.selection = Some(Selection::Window(1, 0));

    let previous_selection = app.selection_key();
    app.snapshot.sessions.remove(1);
    app.reconcile_selection(previous_selection.as_ref(), Some(4));

    assert_eq!(app.selection, Some(Selection::Session(0)));
}

#[test]
fn session_selection_remembers_active_window_as_last_target() {
    let mut app = fixture_app();
    app.snapshot = snapshot_with_windows(&[("@1", "alpha", false), ("@2", "beta", true)]);
    app.selection = Some(Selection::Session(0));

    let target = app.last_target_for_selection();

    assert!(matches!(
        target,
        Some(TargetKind::Window { session_id, window_id })
            if session_id == "$1" && window_id == "@2"
    ));
}

#[test]
fn child_create_on_session_targets_new_window() {
    let mut app = fixture_app();
    app.snapshot = snapshot_with_windows(&[("@1", "alpha", false), ("@2", "beta", true)]);
    app.selection = Some(Selection::Session(0));

    assert_eq!(app.child_create_intent(), Some(CreateIntent::NewWindow { session_id: String::from("$1") }));
}

#[test]
fn peer_create_on_session_targets_new_session() {
    let mut app = fixture_app();
    app.snapshot = snapshot_with_windows(&[("@1", "alpha", true)]);
    app.selection = Some(Selection::Session(0));

    assert_eq!(app.peer_create_intent(), Some(CreateIntent::NewSession));
}

#[test]
fn peer_create_on_window_targets_new_window() {
    let mut app = fixture_app();
    app.snapshot = snapshot_with_windows(&[("@1", "alpha", true)]);
    app.selection = Some(Selection::Window(0, 0));

    assert_eq!(app.peer_create_intent(), Some(CreateIntent::NewWindow { session_id: String::from("$1") }));
}

#[test]
fn child_create_on_window_targets_new_pane() {
    let mut app = fixture_app();
    app.snapshot = snapshot_with_windows(&[("@1", "alpha", true)]);
    app.selection = Some(Selection::Window(0, 0));

    assert_eq!(app.child_create_intent(), Some(CreateIntent::NewPane));
}

#[test]
fn pane_label_uses_window_local_numbers() {
    assert_eq!(pane_label(0), "1");
    assert_eq!(pane_label(1), "2");
}

#[test]
fn split_window_only_lists_additional_panes_as_children() {
    let mut app = fixture_app();
    app.snapshot = split_editor(true);

    assert_eq!(
        app.visible_rows(),
        vec![Selection::Session(0), Selection::Window(0, 0), Selection::Pane(0, 0, 1)]
    );
}

#[test]
fn slash_enters_search_mode() {
    let mut app = fixture_app();

    press(&mut app, Key::Char('/'), false);

    assert_eq!(app.mode, InputMode::Search);
    assert!(app.input.is_empty());
}

#[test]
fn slash_clears_previous_search_input() {
    let mut app = fixture_app();
    app.search = String::from("as");
    app.input = String::from("stale");

    press(&mut app, Key::Char('/'), false);

    assert_eq!(app.mode, InputMode::Search);
    assert!(app.input.is_empty());
    assert_eq!(app.search, "as");
}

fn dev_and_focus() -> Snapshot {
    Snapshot {
        sessions: vec![
            fixture_session(
                "$1",
                "dev",
                false,
                vec![
                    fixture_window("@1", "editor", true, "$1", vec![fixture_pane("%1", "zsh", "/tmp", true, "@1")]),
                    fixture_window("@2", "files", false, "$1", vec![fixture_pane("%2", "zsh", "/tmp", true, "@2")]),
                ],
            ),
            fixture_session(
                "$2",
                "focus",
                false,
                vec![fixture_window("@3", "main", true, "$2", vec![fixture_pane("%3", "zsh", "/tmp", true, "@3")])],
            ),
        ],
    }
}

#[test]
fn slash_search_selects_current_matching_visible_row() {
    let mut app = fixture_app();
    app.snapshot = dev_and_focus();
    app.selection = Some(Selection::Window(0, 1));

    press(&mut app, Key::Char('/'), false);
    press(&mut app, Key::Char('f'), false);

    assert_eq!(app.selection, Some(Selection::Window(0, 1)));
    assert_eq!(app.mode, InputMode::Search);
}

#[test]
fn n_and_n_repeat_search_forward_and_backward() {
    let mut app = fixture_app();
    app.snapshot = Snapshot {
        sessions: vec![
            fixture_session(
                "$1",
                "dev",
                false,
                vec![
                    fixture_window("@1", "files", true, "$1", vec![fixture_pane("%1", "zsh", "/tmp", true, "@1")]),
                    fixture_window("@2", "focus", false, "$1", vec![fixture_pane("%2", "zsh", "/tmp", true, "@2")]),
                ],
            ),
            fixture_session(
                "$2",
                "files-2",
                false,
                vec![fixture_window("@3", "main", true, "$2", vec![fixture_pane("%3", "zsh", "/tmp", true, "@3")])],
            ),
        ],
    };
    app.selection = Some(Selection::Session(0));

    press(&mut app, Key::Char('/'), false);
    press(&mut app, Key::Char('f'), false);
    press(&mut app, Key::Enter, false);

    assert_eq!(app.selection, Some(Selection::Window(0, 0)));
    assert_eq!(app.mode, InputMode::Normal);

    press(&mut app, Key::Char('n'), false);
    assert_eq!(app.selection, Some(Selection::Window(0, 1)));

    press(&mut app, Key::Char('n'), false);
    assert_eq!(app.selection, Some(Selection::Session(1)));

    press(&mut app, Key::Char('N'), true);
    assert_eq!(app.selection, Some(Selection::Window(0, 1)));

    press(&mut app, Key::Char('N'), true);
    assert_eq!(app.selection, Some(Selection::Window(0, 0)));
}

#[test]
fn search_ignores_pane_command_and_path_text() {
    let mut app = fixture_app();
    app.snapshot = Snapshot {
        sessions: vec![
            fixture_session(
                "$1",
                "alpha",
                false,
                vec![fixture_window(
                    "@1",
                    "agent",
                    true,
                    "$1",
                    vec![fixture_pane("%1", "zsh", "/tmp", true, "@1"), fixture_pane("%2", "node", "/tmp/node", false, "@1")],
                )],
            ),
            fixture_session(
                "$2",
                "node",
                false,
                vec![fixture_window("@2", "main", true, "$2", vec![fixture_pane("%3", "zsh", "/tmp", true, "@2")])],
            ),
        ],
    };

    assert!(!app.row_matches_search(&Selection::Pane(0, 0, 1), "n"));
    assert!(app.row_matches_search(&Selection::Session(1), "n"));
}

#[test]
fn search_matches_prefix_not_substring() {
    let mut app = fixture_app();
    app.snapshot = Snapshot {
        sessions: vec![fixture_session(
            "$1",
            "agent",
            false,
            vec![fixture_window("@1", "tools", true, "$1", vec![fixture_pane("%1", "zsh", "/tmp", true, "@1")])],
        )],
    };

    assert!(!app.row_matches_search(&Selection::Session(0), "t"));
    assert!(!app.row_matches_search(&Selection::Session(0), "n"));
    assert!(app.row_matches_search(&Selection::Window(0, 0), "t"));
    assert!(app.row_matches_search(&Selection::Session(0), "a"));
}

#[test]
fn f_enters_filter_mode() {
    let mut app = fixture_app();

    press(&mut app, Key::Char('f'), false);

    assert_eq!(app.mode, InputMode::Filter);
}

#[test]
fn selection_for_first_pane_maps_to_window_row() {
    let mut app = fixture_app();
    app.snapshot = split_editor(true);

    assert_eq!(app.selection_for_ids("$1", "@1", "%1"), Some(Selection::Window(0, 0)));
    assert_eq!(app.selection_for_ids("$1", "@1", "%2"), Some(Selection::Pane(0, 0, 1)));
}

#[test]
fn selection_from_key_keeps_window_row_when_split_pane_is_active() {
    let mut app = fixture_app();
    app.snapshot = split_editor_and_shell();

    assert_eq!(
        app.selection_from_key(&SelectionKey {
            session_id: String::from("$1"),
            window_id: Some(String::from("@1")),
            pane_id: None,
        }),
        Some(Selection::Window(0, 0))
    );
}

#[test]
fn selection_in_previous_session_keeps_window_row_when_split_pane_is_active() {
    let mut app = fixture_app();
    app.snapshot = split_editor_and_shell();

    assert_eq!(
        app.selection_in_previous_session(&SelectionKey {
            session_id: String::from("$1"),
            window_id: Some(String::from("@1")),
            pane_id: None,
        }),
        Some(Selection::Window(0, 0))
    );
}

#[test]
fn selection_for_session_finds_new_session_by_id() {
    let mut app = fixture_app();
    app.snapshot = Snapshot {
        sessions: vec![
            fixture_session("$1", "dev", false, Vec::new()),
            fixture_session("$2", "fresh", false, Vec::new()),
        ],
    };

    assert_eq!(app.selection_for_session("$2"), Some(Selection::Session(1)));
}

#[test]
fn app_split_window_row_attaches_to_first_pane() {
    let mut app = fixture_app();
    app.snapshot = split_editor(false);
    app.selection = Some(Selection::Window(0, 0));

    assert!(matches!(
        app.selected_target(),
        Some(TargetKind::Pane { session_id, window_id, pane_id })
            if session_id == "$1" && window_id == "@1" && pane_id == "%1"
    ));
}

#[test]
fn x_cuts_selected_window() {
    let mut app = fixture_app();
    app.snapshot = snapshot_with_windows(&[("@1", "editor", true), ("@2", "shell", false)]);
    app.selection = Some(Selection::Window(0, 1));

    press(&mut app, Key::Char('x'), false);

    assert_eq!(
        app.cut_target,
        Some(CutTarget::Window {
            session_id: String::from("$1"),
            window_id: String::from("@2"),
            name: String::from("shell"),
        })
    );
    assert_eq!(app.status, "cut window shell");
}

#[test]
fn x_cuts_selected_pane() {
    let mut app = fixture_app();
    app.snapshot = split_editor(false);
    app.selection = Some(Selection::Pane(0, 0, 1));

    press(&mut app, Key::Char('x'), false);

    assert_eq!(
        app.cut_target,
        Some(CutTarget::Pane { window_id: String::from("@1"), pane_id: String::from("%2"), name: String::from("2") })
    );
    assert_eq!(app.status, "cut pane 2");
}

#[test]
fn paste_intent_matches_create_key_hierarchy() {
    let mut app = fixture_app();
    app.snapshot = snapshot_with_windows(&[("@1", "editor", true)]);

    app.selection = Some(Selection::Session(0));
    assert_eq!(app.paste_intent(false), Some(PasteIntent::Window { session_id: String::from("$1") }));
    assert_eq!(app.paste_intent(true), Some(PasteIntent::Session));

    app.selection = Some(Selection::Window(0, 0));
    assert_eq!(
        app.paste_intent(false),
        Some(PasteIntent::Pane {
            session_id: String::from("$1"),
            window_id: String::from("@1"),
            pane_id: String::from("%@1"),
        })
    );
    assert_eq!(app.paste_intent(true), Some(PasteIntent::Window { session_id: String::from("$1") }));
}
