use tmuxtui::app::{App, ConfirmAction, Focus, InputMode, Key, KeyInput, PromptKind, Selection};
use tmuxtui::managed_config::ManagedConfig;
use tmuxtui::tmux::{Pane, Session, Snapshot, Window};
use tmuxtui::tmux_ops::{Outcome, Tmux};

fn motion_pane(id: &str, window_id: &str) -> Pane {
    Pane {
        id: String::from(id),
        current_command: String::from("zsh"),
        current_path: String::from("/tmp"),
        active: true,
        zoomed: false,
        window_id: String::from(window_id),
    }
}

fn motion_window(id: &str, name: &str, session_id: &str, panes: Vec<Pane>) -> Window {
    Window { id: String::from(id), name: String::from(name), active: true, session_id: String::from(session_id), panes }
}

/// Three sessions of two windows each: nine rows.
fn nine_rows() -> App {
    let mut app = App::new(Tmux::new(ManagedConfig::from_dir("/tmp/tmuxtui-tests", None)));
    let mut sessions = Vec::new();
    for s in 1..=3 {
        let sid = format!("${s}");
        let w1 = format!("@{s}1");
        let w2 = format!("@{s}2");
        sessions.push(Session {
            id: sid.clone(),
            name: format!("s{s}"),
            attached: false,
            windows: vec![
                motion_window(&w1, "one", &sid, vec![motion_pane(&format!("%{s}1"), &w1)]),
                motion_window(&w2, "two", &sid, vec![motion_pane(&format!("%{s}2"), &w2)]),
            ],
        });
    }
    app.snapshot = Snapshot { sessions };
    app.selection = Some(Selection::Session(0));
    app
}

fn key(app: &mut App, code: Key) {
    let mut next = app.handle_key(KeyInput { code, ctrl: false, shift: false });
    while next.is_some() {
        next = app.resume(Outcome::Failed(String::from("no server running")));
    }
}

fn typed(app: &mut App, text: &str) {
    for c in text.chars() {
        key(app, Key::Char(c));
    }
}

#[test]
fn gg_and_big_g_jump_to_first_and_last_rows() {
    let mut app = nine_rows();
    key(&mut app, Key::Char('G'));
    assert_eq!(app.selection, Some(Selection::Window(2, 1)));
    key(&mut app, Key::Char('g'));
    assert!(app.pending_g);
    key(&mut app, Key::Char('g'));
    assert_eq!(app.selection, Some(Selection::Session(0)));
    assert!(!app.pending_g);
}

#[test]
fn counts_move_by_rows_and_pick_rows() {
    let mut app = nine_rows();
    typed(&mut app, "5j");
    assert_eq!(app.selection, Some(Selection::Window(1, 1)));
    assert_eq!(app.count_prefix, None);
    typed(&mut app, "2k");
    assert_eq!(app.selection, Some(Selection::Session(1)));
    typed(&mut app, "7G");
    assert_eq!(app.selection, Some(Selection::Session(2)));
    typed(&mut app, "40j");
    assert_eq!(app.selection, Some(Selection::Window(2, 1)));
    typed(&mut app, "12G");
    assert_eq!(app.selection, Some(Selection::Window(2, 1)));
    typed(&mut app, "99k");
    assert_eq!(app.selection, Some(Selection::Session(0)));
}

#[test]
fn zero_starts_no_count_but_extends_one() {
    let mut app = nine_rows();
    key(&mut app, Key::Char('0'));
    assert_eq!(app.count_prefix, None);
    typed(&mut app, "10");
    assert_eq!(app.count_prefix, Some(10));
    key(&mut app, Key::Char('h'));
    assert_eq!(app.count_prefix, None);
    assert_eq!(app.focus, Focus::Tree);
}

#[test]
fn huge_counts_saturate() {
    let mut app = nine_rows();
    typed(&mut app, "99999999999999999999999");
    assert!(app.count_prefix.is_some());
    key(&mut app, Key::Down);
    assert_eq!(app.count_prefix, None);
}

#[test]
fn focus_keys_switch_panels() {
    let mut app = nine_rows();
    key(&mut app, Key::Char('l'));
    assert_eq!(app.focus, Focus::Preview);
    key(&mut app, Key::Tab);
    assert_eq!(app.focus, Focus::Tree);
    key(&mut app, Key::Right);
    key(&mut app, Key::Left);
    assert_eq!(app.focus, Focus::Tree);
}

#[test]
fn escape_leaves_every_input_mode() {
    let mut app = nine_rows();
    key(&mut app, Key::Char(':'));
    typed(&mut app, "pi");
    assert_eq!(app.input, "pi");
    key(&mut app, Key::Esc);
    assert_eq!(app.mode, InputMode::Normal);
    assert!(app.input.is_empty());

    key(&mut app, Key::Char('f'));
    typed(&mut app, "s2");
    assert_eq!(app.filter, "s2");
    key(&mut app, Key::Esc);
    assert_eq!(app.mode, InputMode::Normal);
    assert!(app.filter.is_empty());

    app.selection = Some(Selection::Session(0));
    key(&mut app, Key::Char('r'));
    assert!(matches!(app.mode, InputMode::Prompt(PromptKind::RenameSession { .. })));
    key(&mut app, Key::Esc);
    assert_eq!(app.mode, InputMode::Normal);
    assert!(app.input.is_empty());

    key(&mut app, Key::Char('d'));
    assert!(matches!(app.mode, InputMode::Confirm(ConfirmAction::KillSession { .. })));
    key(&mut app, Key::Esc);
    assert_eq!(app.mode, InputMode::Normal);
}

#[test]
fn filter_keeps_selection_on_matching_rows() {
    let mut app = nine_rows();
    typed(&mut app, "3j");
    assert_eq!(app.selection, Some(Selection::Session(1)));
    key(&mut app, Key::Char('f'));
    typed(&mut app, "s2");
    assert_eq!(app.visible_rows(), vec![Selection::Session(1), Selection::Window(1, 0), Selection::Window(1, 1)]);
    assert_eq!(app.selection, Some(Selection::Session(1)));
    key(&mut app, Key::Backspace);
    assert_eq!(app.filter, "s");
    key(&mut app, Key::Enter);
    assert_eq!(app.mode, InputMode::Normal);
    assert_eq!(app.filter, "s");
}

#[test]
fn rename_prompt_starts_with_current_name() {
    let mut app = nine_rows();
    app.selection = Some(Selection::Window(1, 1));
    key(&mut app, Key::Char('r'));
    assert_eq!(app.input, "two");
    assert_eq!(app.mode, InputMode::Prompt(PromptKind::RenameWindow { window_id: String::from("@22") }));
    key(&mut app, Key::Backspace);
    assert_eq!(app.input, "tw");
}

#[test]
fn commands_report_their_effect() {
    let mut app = nine_rows();
    key(&mut app, Key::Char(':'));
    typed(&mut app, "bogus");
    key(&mut app, Key::Enter);
    // the refresh after the command fails without a server
    assert_eq!(app.status, "no server running");

    let mut app = nine_rows();
    key(&mut app, Key::Char(':'));
    typed(&mut app, " sidebar 250 ");
    let mut next = app.handle_key(KeyInput { code: Key::Enter, ctrl: false, shift: false });
    assert_eq!(app.status, "");
    assert_eq!(app.sidebar_percent(), 100);
    assert!(next.is_some());
    next = app.resume(Outcome::Done);
    assert_eq!(app.status, "sidebar 100");
    assert!(next.is_some());

    let mut app = nine_rows();
    key(&mut app, Key::Char(':'));
    typed(&mut app, "sidebar x");
    let next = app.handle_key(KeyInput { code: Key::Enter, ctrl: false, shift: false });
    assert_eq!(app.status, "sidebar expects 0-100");
    assert!(next.is_some());

    let mut app = nine_rows();
    key(&mut app, Key::Char(':'));
    typed(&mut app, "q");
    key(&mut app, Key::Enter);
    assert!(app.should_quit());
}

#[test]
fn unknown_command_is_named() {
    let mut app = nine_rows();
    key(&mut app, Key::Char(':'));
    typed(&mut app, "bogus");
    let next = app.handle_key(KeyInput { code: Key::Enter, ctrl: false, shift: false });
    assert_eq!(app.status, "unknown command: bogus");
    assert!(next.is_some());
}

#[test]
fn showing_hints_changes_settings_at_once() {
    let mut app = nine_rows();
    assert!(!app.show_hints());
    key(&mut app, Key::Char(':'));
    typed(&mut app, "showhints");
    let next = app.handle_key(KeyInput { code: Key::Enter, ctrl: false, shift: false });
    assert!(app.show_hints());
    assert!(next.is_some());
    let next = app.resume(Outcome::Done);
    assert_eq!(app.status, "hints shown");
    assert!(next.is_some());
}

#[test]
fn pin_needs_a_pane_and_paste_needs_a_cut() {
    let mut app = nine_rows();
    app.snapshot.sessions[0].windows.clear();
    app.selection = Some(Selection::Session(0));
    key(&mut app, Key::Char(':'));
    typed(&mut app, "pin");
    let next = app.handle_key(KeyInput { code: Key::Enter, ctrl: false, shift: false });
    assert_eq!(app.status, "pin requires pane selection");
    assert!(next.is_some());

    let mut app = nine_rows();
    key(&mut app, Key::Char('p'));
    assert_eq!(app.status, "nothing cut");
    app.selection = Some(Selection::Session(0));
    key(&mut app, Key::Char('x'));
    assert_eq!(app.status, "cut requires window or pane selection");
}

#[test]
fn pasting_a_window_into_its_own_session_is_refused() {
    let mut app = nine_rows();
    app.selection = Some(Selection::Window(0, 1));
    key(&mut app, Key::Char('x'));
    assert_eq!(app.status, "cut window two");
    app.selection = Some(Selection::Session(0));
    key(&mut app, Key::Char('p'));
    assert_eq!(app.status, "window already in session");
    app.selection = Some(Selection::Window(1, 0));
    key(&mut app, Key::Char('p'));
    assert_eq!(app.status, "window can paste as session or window");
}

#[test]
fn pasting_a_window_into_another_session_moves_it() {
    let mut app = nine_rows();
    app.selection = Some(Selection::Window(0, 1));
    key(&mut app, Key::Char('x'));
    app.selection = Some(Selection::Session(2));
    let job = app.handle_key(KeyInput { code: Key::Char('p'), ctrl: false, shift: false });
    assert!(job.is_some());
    let next = app.resume(Outcome::Done);
    assert!(next.is_some());
    assert!(app.cut_target.is_none());
}

#[test]
fn kill_confirmation_waits_for_y() {
    let mut app = nine_rows();
    app.selection = Some(Selection::Window(2, 0));
    key(&mut app, Key::Char('d'));
    assert_eq!(
        app.mode,
        InputMode::Confirm(ConfirmAction::KillWindow { window_id: String::from("@31"), name: String::from("one") })
    );
    key(&mut app, Key::Char('x'));
    assert!(matches!(app.mode, InputMode::Confirm(_)));
    let job = app.handle_key(KeyInput { code: Key::Char('y'), ctrl: false, shift: false });
    assert!(job.is_some());
    let next = app.resume(Outcome::Done);
    assert_eq!(app.mode, InputMode::Normal);
    assert_eq!(app.status, "removed");
    assert!(next.is_some());
}

#[test]
fn quit_key_leaves_without_attaching() {
    let mut app = nine_rows();
    key(&mut app, Key::Char('q'));
    assert!(app.should_quit());
    assert_eq!(app.attach_target(), None);
}

#[test]
fn ctrl_letters_are_not_typed() {
    let mut app = nine_rows();
    key(&mut app, Key::Char(':'));
    let j = app.handle_key(KeyInput { code: Key::Char('w'), ctrl: true, shift: false });
    assert!(j.is_none());
    assert!(app.input.is_empty());
}

#[test]
fn d_on_split_window_kills_its_first_pane_and_big_d_the_window() {
    let mut app = nine_rows();
    app.snapshot.sessions[1].windows[0].panes.push(motion_pane("%99", "@21"));
    app.selection = Some(Selection::Window(1, 0));
    key(&mut app, Key::Char('d'));
    assert_eq!(
        app.mode,
        InputMode::Confirm(ConfirmAction::KillPane { pane_id: String::from("%21"), name: String::from("1") })
    );
    key(&mut app, Key::Esc);
    key(&mut app, Key::Char('D'));
    assert_eq!(
        app.mode,
        InputMode::Confirm(ConfirmAction::KillWindow { window_id: String::from("@21"), name: String::from("one") })
    );
    key(&mut app, Key::Char('n'));
    assert_eq!(app.mode, InputMode::Normal);
    app.selection = Some(Selection::Pane(1, 0, 1));
    key(&mut app, Key::Char('D'));
    assert_eq!(
        app.mode,
        InputMode::Confirm(ConfirmAction::KillWindow { window_id: String::from("@21"), name: String::from("one") })
    );
    key(&mut app, Key::Esc);
    key(&mut app, Key::Char('d'));
    assert_eq!(
        app.mode,
        InputMode::Confirm(ConfirmAction::KillPane { pane_id: String::from("%99"), name: String::from("2") })
    );
}

#[test]
fn pin_aliases_work() {
    let mut app = nine_rows();
    app.selection = Some(Selection::Window(0, 0));
    key(&mut app, Key::Char(':'));
    typed(&mut app, "p");
    let job = app.handle_key(KeyInput { code: Key::Enter, ctrl: false, shift: false });
    assert!(job.is_some());
    let next = app.resume(Outcome::Done);
    assert_eq!(app.status, "pane pinned");
    assert!(next.is_some());

    let mut app = nine_rows();
    key(&mut app, Key::Char(':'));
    typed(&mut app, "up");
    let job = app.handle_key(KeyInput { code: Key::Enter, ctrl: false, shift: false });
    assert!(job.is_some());
    let _ = app.resume(Outcome::Done);
    assert_eq!(app.status, "pane unpinned");
}

#[test]
fn search_and_filter_ignore_case() {
    let mut app = nine_rows();
    app.snapshot.sessions[1].name = String::from("Agent");
    assert!(app.row_matches_search(&Selection::Session(1), "a"));
    assert!(!app.row_matches_search(&Selection::Session(0), "a"));
    key(&mut app, Key::Char('f'));
    typed(&mut app, "AGE");
    assert_eq!(app.visible_rows(), vec![Selection::Session(1), Selection::Window(1, 0), Selection::Window(1, 1)]);
}

#[test]
fn selection_key_leads_back_to_each_visible_row() {
    let mut app = nine_rows();
    for row in app.visible_rows() {
        app.selection = Some(row);
        let key = app.selection_key().expect("a key");
        assert_eq!(app.selection_from_key(&key), Some(row));
    }
}
