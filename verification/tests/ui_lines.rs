use tmuxtui::app::{App, ConfirmAction, InputMode, PromptKind, Selection};
use tmuxtui::managed_config::ManagedConfig;
use tmuxtui::tmux::{Pane, Session, Snapshot, Window};
use tmuxtui::tmux_ops::Tmux;
use tmuxtui::ui::{
    DrawState, command_message, confirm_label, current_input, marker_column, pane_tree_label, pane_tree_line,
    preview_status, prompt_label, replace_leading_spaces, session_label, window_tree_label,
};

fn ui_pane(id: &str, command: &str, active: bool) -> Pane {
    Pane {
        id: String::from(id),
        current_command: String::from(command),
        current_path: String::from("/tmp"),
        active,
        zoomed: false,
        window_id: String::from("@1"),
    }
}

fn split_window(name: &str) -> Window {
    Window {
        id: String::from("@1"),
        name: String::from(name),
        active: true,
        session_id: String::from("$1"),
        panes: vec![ui_pane("%1", "zsh", true), ui_pane("%2", "zsh", false)],
    }
}

fn ui_app(snapshot: Snapshot) -> App {
    let mut app = App::new(Tmux::new(ManagedConfig::from_dir("/tmp/tmuxtui-tests", None)));
    app.snapshot = snapshot;
    app
}

#[test]
fn pane_tree_label_uses_window_local_numbers() {
    assert_eq!(pane_tree_label(0), "1");
    assert_eq!(pane_tree_label(1), "2");
}

#[test]
fn pane_tree_line_aligns_under_split_window_suffix() {
    let split_window = split_window("zsh");

    assert_eq!(window_tree_label(&split_window), "zsh 1");
    assert_eq!(pane_tree_line(&split_window, 1, ""), "      2");
}

#[test]
fn window_tree_label_suffixes_first_pane_when_split() {
    let split_window = split_window("editor");

    assert_eq!(window_tree_label(&split_window), "editor 1");
}

#[test]
fn marker_column_marks_rows_without_shifting_labels() {
    assert_eq!(marker_column(String::from("  editor 1"), true, false), "⚲ editor 1");
    assert_eq!(marker_column(String::from("  editor 1"), false, true), "☼ editor 1");
    assert_eq!(marker_column(String::from("  editor 1"), true, true), "☼⚲editor 1");
    assert_eq!(marker_column(String::from("      2"), false, false), "      2");
}

#[test]
fn session_label_places_marker_after_name() {
    assert_eq!(session_label("node", false), "node");
    assert_eq!(session_label("node", true), "node ☼");
}

#[test]
fn markers_take_room_before_a_label_without_enough_spaces() {
    assert_eq!(replace_leading_spaces(" x", "☼⚲"), "☼⚲x");
    assert_eq!(replace_leading_spaces("x", "⚲"), "⚲ x");
    assert_eq!(replace_leading_spaces("", "⚲"), "⚲ ");
    let line = String::from("      2");
    let marked = marker_column(line.clone(), true, true);
    assert_eq!(marked.chars().count(), line.chars().count());
    assert_eq!(marked.chars().skip(2).collect::<String>(), line.chars().skip(2).collect::<String>());
}

#[test]
fn single_pane_lines_are_indented_and_show_zoom() {
    let mut w = split_window("zsh");
    w.panes.truncate(1);
    assert_eq!(pane_tree_line(&w, 0, " z"), "    1 z");
    assert_eq!(window_tree_label(&w), "zsh");
}

#[test]
fn prompt_and_confirm_labels() {
    assert_eq!(prompt_label(&PromptKind::NewSession), "new session");
    assert_eq!(prompt_label(&PromptKind::RenamePane { pane_id: String::from("%1") }), "rename pane");
    assert_eq!(
        confirm_label(&ConfirmAction::KillWindow { window_id: String::from("@1"), name: String::from("logs") }),
        "kill window logs? y/n"
    );
}

#[test]
fn auto_sidebar_width_fits_visible_tree_labels() {
    let app = ui_app(Snapshot {
        sessions: vec![Session {
            id: String::from("$1"),
            name: String::from("long-session"),
            attached: false,
            windows: vec![Window {
                id: String::from("@1"),
                name: String::from("build"),
                active: true,
                session_id: String::from("$1"),
                panes: vec![ui_pane("%1", "zsh", true)],
            }],
        }],
    });

    let state = DrawState::from_app(&app);

    assert_eq!(state.auto_sidebar_width(120), 13);
    assert_eq!(state.auto_sidebar_width(24), 8);
}

#[test]
fn draw_state_places_session_marker_after_name() {
    let mut app = ui_app(Snapshot {
        sessions: vec![Session {
            id: String::from("$4"),
            name: String::from("4"),
            attached: false,
            windows: vec![Window {
                id: String::from("@8"),
                name: String::from("zsh"),
                active: true,
                session_id: String::from("$4"),
                panes: vec![ui_pane("%9", "zsh", true)],
            }],
        }],
    });
    app.caffeinated_targets = vec![String::from("$4")];

    let state = DrawState::from_app(&app);
    let rendered = state.tree_lines[0].text.clone();

    assert_eq!(rendered, "4 ☼");
}

#[test]
fn draw_state_marks_pinned_pane_and_selection() {
    let mut app = ui_app(Snapshot {
        sessions: vec![Session {
            id: String::from("$1"),
            name: String::from("dev"),
            attached: true,
            windows: vec![split_window("editor")],
        }],
    });
    app.pinned_pane = Some(String::from("%2"));
    app.selection = Some(Selection::Pane(0, 0, 1));
    let state = DrawState::from_app(&app);
    assert_eq!(state.tree_lines.len(), 3);
    assert_eq!(state.tree_lines[0].text, "dev");
    assert!(state.tree_lines[0].bold);
    assert!(!state.tree_lines[0].active);
    assert_eq!(state.tree_lines[1].text, "  editor 1");
    assert_eq!(state.tree_lines[2].text, "⚲        2");
    assert!(state.tree_lines[2].selected);
    assert_eq!(state.preview_status, "dev | editor | zsh | /tmp");
    assert!(state.footer.is_empty());
}

#[test]
fn preview_header_names_session_window_and_pane() {
    let mut app = ui_app(Snapshot {
        sessions: vec![Session {
            id: String::from("$1"),
            name: String::from("dev"),
            attached: false,
            windows: vec![split_window("editor")],
        }],
    });
    assert_eq!(preview_status(&app), "No sessions");
    app.selection = Some(Selection::Session(0));
    assert_eq!(preview_status(&app), "dev | editor | zsh | /tmp");
    app.snapshot.sessions[0].windows[0].panes.clear();
    assert_eq!(preview_status(&app), "dev | editor");
    app.snapshot.sessions[0].windows.clear();
    assert_eq!(preview_status(&app), "dev");
}

#[test]
fn footer_hints_follow_settings_and_mode() {
    let mut app = App::new(Tmux::new(ManagedConfig::from_dir("/tmp/tmuxtui-tests", Some("show_hints=true\n"))));
    let actions = app.actions();
    assert_eq!(actions.len(), 15);
    assert_eq!(actions[0].key, "enter");
    assert_eq!(actions[0].label, "attach");
    assert_eq!(actions[14].key, "q");
    app.mode = InputMode::Search;
    let actions = app.actions();
    assert_eq!(actions.len(), 2);
    assert_eq!(actions[1].label, "cancel");
}

#[test]
fn command_line_shows_what_is_typed() {
    let mut app = ui_app(Snapshot { sessions: Vec::new() });
    app.mode = InputMode::Command;
    app.input = String::from("pin");
    let state = DrawState::from_app(&app);
    assert_eq!(current_input(&state), "pin");
    assert_eq!(command_message(&state), Some(String::from(":pin")));
    app.mode = InputMode::Filter;
    app.filter = String::from("ed");
    let state = DrawState::from_app(&app);
    assert_eq!(command_message(&state), Some(String::from("fed")));
    app.mode = InputMode::Confirm(ConfirmAction::KillPane { pane_id: String::from("%1"), name: String::from("2") });
    let state = DrawState::from_app(&app);
    assert_eq!(command_message(&state), Some(String::from(" kill pane 2? y/n")));
    app.mode = InputMode::Normal;
    let state = DrawState::from_app(&app);
    assert_eq!(command_message(&state), None);
}
