//! Key handling: what each key does in each input mode, and how the state
//! goes on when a tmux job that it started has finished.
//!
//! A key either changes the state at once, or starts a job (see
//! `tmux_ops`) and records in `pending` what to do with its outcome; the
//! caller runs the job and hands the outcome to `App::resume`, which may
//! start the next job of the same operation.
use vstd::prelude::*;

use crate::app::{
    active_pane, lemma_position, or_first, pane_index, session_index, window_index, App, AppV, ConfirmAction, ConfirmV, CreateIntent, CreateV, CutTarget, CutV, Focus, InputMode, Key,
    KeyInput, KeyV, ModeV, PasteIntent, PasteV, Pending, PendingV, PromptKind, PromptV, Selection,
    SelectionKey, lemma_position_is, lemma_position_none, opt_seq, position, valid_selection,
};
use crate::rows::pane_label;
use crate::text::{
    chars_eq, chars_of, decimal_string, parse_u8_chars, push_char, push_str, starts_with_chars,
    str_to_string, string_of_range, trim_string,
};
use crate::tmux_ops::{Job, Outcome};
use crate::archive::{ArchiveEntry, entry_views};
use crate::managed_config::{Settings, archive_dir_of, settings_text, tmux_conf_text};
use crate::rows::{all_valid, lemma_visible_valid, pane_label_spec, visible};
use crate::selection::{key_of, opt_last, reconciled, sel_for_ids, sel_for_session, sel_from_key};
use crate::targets::{
    child_create_of, current_index, cut_of, jumped, row_hit, search_from, search_pos, last_target_of, moved, pane_id_of, paste_of, peer_create_of,
    same_row, searched, session_name_for, target_of, window_name_for,
};
use crate::text::{decimal, lemma_trim_line, no_space, parse_u8, starts_with, trim};
use crate::tmux::{LastTarget, Session, SessionV, Snapshot, TargetKind, TargetV, Window, WindowV};
use crate::tmux_ops::{
    EffectV, Finish, JobKindV, JobV, OutcomeV, ReplyV, StepV, break_pane_args, job_resume, job_start,
    run, show_option_args, create_session_args, fresh,
    join_pane_args, kill_window_args, move_window_args, one_command, script, set_option_args,
    split_pane_args,
};

verus! {

/// Which row to select once a refresh has read the new snapshot.
pub enum Pick {
    Session(String),
    Ids(String, String, String),
}

pub enum PickV {
    Session(Seq<char>),
    Ids(Seq<char>, Seq<char>, Seq<char>),
}

impl View for Pick {
    type V = PickV;

    open spec fn view(&self) -> PickV {
        match self {
            Pick::Session(s) => PickV::Session(s@),
            Pick::Ids(s, w, p) => PickV::Ids(s@, w@, p@),
        }
    }
}

/// What follows a refresh.
pub enum After {
    Stay,
    Reselect { pick: Pick, status: Option<String> },
}

pub enum AfterV {
    Stay,
    Reselect(PickV, Option<Seq<char>>),
}

impl View for After {
    type V = AfterV;

    open spec fn view(&self) -> AfterV {
        match self {
            After::Stay => AfterV::Stay,
            After::Reselect { pick, status } => AfterV::Reselect(pick@, opt_seq(*status)),
        }
    }
}

/// A paste that waits for tmux to move a window or pane.
pub enum PasteWait {
    /// Into a new session, whose id tmux reports.
    NewSession,
    /// Into a new window of this session, whose id tmux reports.
    NewWindow(String),
    /// Into a place known beforehand, with the status to show.
    Moved(Pick, String),
}

pub enum PasteWaitV {
    NewSession,
    NewWindow(Seq<char>),
    Moved(PickV, Seq<char>),
}

impl View for PasteWait {
    type V = PasteWaitV;

    open spec fn view(&self) -> PasteWaitV {
        match self {
            PasteWait::NewSession => PasteWaitV::NewSession,
            PasteWait::NewWindow(s) => PasteWaitV::NewWindow(s@),
            PasteWait::Moved(p, s) => PasteWaitV::Moved(p@, s@),
        }
    }
}

/// What to do with the outcome of the job that the state waits on.
pub enum Resume {
    /// A pane capture for the preview.
    Preview(After),
    /// The steps of a refresh, with the selection it started from and what
    /// it has read so far; the state takes it all in at the last step.
    Snapshot(Option<SelectionKey>, Option<usize>, After),
    LastTarget(Option<SelectionKey>, Option<usize>, After, Snapshot),
    Pinned(Option<SelectionKey>, Option<usize>, After, Snapshot, Option<LastTarget>),
    /// A rename.
    Saved,
    /// A kill.
    Removed,
    /// A change after which to refresh, with the status to show.
    Changed(Option<String>),
    /// A new session (or a new window of the given session).
    Created(Option<String>),
    Pasted(PasteWait),
    /// Recording the last target before attaching to this target.
    Attached(TargetKind),
    /// An archive being written.
    Archived,
}

pub enum ResumeV {
    Preview(AfterV),
    Snapshot(Option<KeyV>, Option<usize>, AfterV),
    LastTarget(Option<KeyV>, Option<usize>, AfterV, Seq<SessionV>),
    Pinned(Option<KeyV>, Option<usize>, AfterV, Seq<SessionV>, Option<KeyV>),
    Saved,
    Removed,
    Changed(Option<Seq<char>>),
    Created(Option<Seq<char>>),
    Pasted(PasteWaitV),
    Attached(TargetV),
    Archived,
}

pub open spec fn key_view(k: Option<SelectionKey>) -> Option<KeyV> {
    match k {
        Some(k) => Some(k@),
        None => None,
    }
}

impl View for Resume {
    type V = ResumeV;

    open spec fn view(&self) -> ResumeV {
        match self {
            Resume::Preview(a) => ResumeV::Preview(a@),
            Resume::Snapshot(k, i, a) => ResumeV::Snapshot(key_view(*k), *i, a@),
            Resume::LastTarget(k, i, a, s) => ResumeV::LastTarget(key_view(*k), *i, a@, s@),
            Resume::Pinned(k, i, a, s, t) => ResumeV::Pinned(key_view(*k), *i, a@, s@, opt_last(*t)),
            Resume::Saved => ResumeV::Saved,
            Resume::Removed => ResumeV::Removed,
            Resume::Changed(s) => ResumeV::Changed(opt_seq(*s)),
            Resume::Created(s) => ResumeV::Created(opt_seq(*s)),
            Resume::Pasted(p) => ResumeV::Pasted(p@),
            Resume::Attached(t) => ResumeV::Attached(t@),
            Resume::Archived => ResumeV::Archived,
        }
    }
}


// ---------------------------------------------------------------------------
// What the keys and the outcomes do, as functions of the whole state.
// ---------------------------------------------------------------------------

pub open spec fn no_text() -> Seq<char> {
    Seq::<char>::empty()
}

/// The rows on screen.
pub open spec fn vis(a: AppV) -> Seq<Selection> {
    visible(a.sessions, a.filter)
}

/// The pane that the selected row stands for.
pub open spec fn sel_pane(a: AppV) -> Option<Seq<char>> {
    match a.selection {
        Some(sel) => pane_id_of(a.sessions, sel, a.last_target),
        None => None,
    }
}

/// The ids of the selected row.
pub open spec fn sel_key(a: AppV) -> Option<KeyV> {
    match a.selection {
        Some(sel) => key_of(a.sessions, sel),
        None => None,
    }
}

/// Where the selected row stands among the rows on screen.
pub open spec fn sel_index(a: AppV) -> Option<usize> {
    match a.selection {
        Some(sel) => match position(vis(a), same_row(sel)) {
            Some(i) => Some(i as usize),
            None => None,
        },
        None => None,
    }
}

pub open spec fn capture_job(pane_id: Seq<char>) -> JobV {
    one_command(seq!["capture-pane"@, "-J"@, "-p"@, "-t"@, pane_id, "-S"@, "-120"@], Finish::Raw)
}

pub open spec fn wait(a: AppV, r: ResumeV) -> AppV {
    AppV { pending: PendingV::Waiting(r), ..a }
}

/// Shows the selected pane in the preview, and nothing more.
pub open spec fn preview_stay(a: AppV) -> (AppV, Option<JobV>) {
    match sel_pane(a) {
        Some(p) => (wait(a, ResumeV::Preview(AfterV::Stay)), Some(capture_job(p))),
        None => (AppV { preview: "No pane selected"@, ..a }, None),
    }
}

pub open spec fn pick_sel(ss: Seq<SessionV>, pick: PickV) -> Option<Selection> {
    match pick {
        PickV::Session(s) => sel_for_session(ss, s),
        PickV::Ids(s, w, p) => sel_for_ids(ss, s, w, p),
    }
}

/// What follows a refresh once its preview is shown.
pub open spec fn after_step(a: AppV, then: AfterV) -> (AppV, Option<JobV>) {
    match then {
        AfterV::Stay => (a, None),
        AfterV::Reselect(pick, status) => preview_stay(
            AppV {
                selection: pick_sel(a.sessions, pick),
                status: match status {
                    Some(s) => s,
                    None => a.status,
                },
                ..a
            },
        ),
    }
}

/// Shows the selected pane in the preview, then goes on with `then`.
pub open spec fn preview_then(a: AppV, then: AfterV) -> (AppV, Option<JobV>) {
    match sel_pane(a) {
        Some(p) => (wait(a, ResumeV::Preview(then)), Some(capture_job(p))),
        None => after_step(AppV { preview: "No pane selected"@, ..a }, then),
    }
}

/// Starts a refresh: a new snapshot, the remembered target and the pinned
/// pane, then the selection is reconciled and the preview shown.
pub open spec fn refresh_step(a: AppV, then: AfterV) -> (AppV, Option<JobV>) {
    (wait(a, ResumeV::Snapshot(sel_key(a), sel_index(a), then)), Some(fresh(JobKindV::Snapshot)))
}

/// The selection after the filter changed, kept on the same row where it
/// can be.
pub open spec fn refilter(a: AppV, filter: Seq<char>) -> AppV {
    let b = AppV { filter, ..a };
    AppV { selection: reconciled(b.sessions, filter, b.last_target, sel_key(b), sel_index(b)), ..b }
}

pub open spec fn backspaced(s: Seq<char>) -> Seq<char> {
    if s.len() > 0 {
        s.drop_last()
    } else {
        s
    }
}

/// Typing into the input line; the flag tells whether the key was taken.
pub open spec fn text_step(a: AppV, key: KeyInput, is_filter: bool) -> (AppV, bool) {
    match key.code {
        Key::Char(ch) => if key.ctrl {
            (a, false)
        } else {
            let b = AppV { input: a.input.push(ch), ..a };
            (if is_filter { refilter(b, b.input) } else { b }, true)
        },
        Key::Backspace => {
            let b = AppV { input: backspaced(a.input), ..a };
            (if is_filter { refilter(b, b.input) } else { b }, true)
        },
        Key::Esc => {
            let b = AppV { mode: ModeV::Normal, input: no_text(), ..a };
            (if is_filter { refilter(b, no_text()) } else { b }, true)
        },
        _ => (a, false),
    }
}

pub open spec fn filter_step(a: AppV, key: KeyInput) -> (AppV, Option<JobV>) {
    if key.code == Key::Enter {
        preview_stay(AppV { filter: a.input, mode: ModeV::Normal, ..a })
    } else {
        let (b, taken) = text_step(a, key, true);
        if taken {
            preview_stay(b)
        } else {
            (b, None)
        }
    }
}

pub open spec fn search_again(a: AppV, forward: bool, include_current: bool) -> AppV {
    AppV {
        selection: searched(a.sessions, a.filter, a.search, a.selection, forward, include_current),
        ..a
    }
}

pub open spec fn search_step(a: AppV, key: KeyInput) -> (AppV, Option<JobV>) {
    if key.code == Key::Enter {
        let b = search_again(AppV { search: a.input, ..a }, true, true);
        preview_stay(AppV { mode: ModeV::Normal, input: no_text(), ..b })
    } else if key.code == Key::Esc {
        (AppV { mode: ModeV::Normal, input: no_text(), ..a }, None)
    } else {
        let (b, taken) = text_step(a, key, false);
        if taken {
            preview_stay(search_again(AppV { search: b.input, ..b }, true, true))
        } else {
            (b, None)
        }
    }
}

pub open spec fn pin_job(pane_id: Option<Seq<char>>) -> JobV {
    one_command(
        set_option_args(
            "@tmuxtui-pinned-pane"@,
            match pane_id {
                Some(p) => p,
                None => no_text(),
            },
        ),
        Finish::Done,
    )
}

/// Writes the settings and the tmux configuration, and with `reload` has
/// tmux read the configuration again.
pub open spec fn settings_job(path: Seq<char>, conf: Seq<char>, s: Settings, reload: bool) -> JobV {
    script(
        if reload {
            seq![
                EffectV::Write(path, settings_text(s)),
                EffectV::Write(conf, tmux_conf_text(s)),
                EffectV::Run(seq!["source-file"@, conf], true),
            ]
        } else {
            seq![EffectV::Write(path, settings_text(s)), EffectV::Write(conf, tmux_conf_text(s))]
        },
        Finish::Done,
    )
}

/// Stores new settings and waits for them to be written.
pub open spec fn settings_step(a: AppV, s: Settings, reload: bool, status: Seq<char>) -> (AppV, Option<JobV>) {
    (
        wait(AppV { settings: s, ..a }, ResumeV::Changed(Some(status))),
        Some(settings_job(a.settings_path, a.conf, s, reload)),
    )
}

pub open spec fn min_percent(p: u8) -> u8 {
    if p <= 100 {
        p
    } else {
        100
    }
}

/// What a `:` command does; a refresh follows it.
pub open spec fn execute_step(a: AppV, cmd: Seq<char>) -> (AppV, Option<JobV>) {
    if cmd == "q"@ {
        refresh_step(AppV { should_quit: true, ..a }, AfterV::Stay)
    } else if cmd == "pin"@ || cmd == "p"@ {
        match sel_pane(a) {
            Some(p) => (wait(a, ResumeV::Changed(Some("pane pinned"@))), Some(pin_job(Some(p)))),
            None => refresh_step(AppV { status: "pin requires pane selection"@, ..a }, AfterV::Stay),
        }
    } else if cmd == "unpin"@ || cmd == "up"@ {
        (wait(a, ResumeV::Changed(Some("pane unpinned"@))), Some(pin_job(None)))
    } else if cmd == "hidehints"@ {
        settings_step(a, Settings { show_hints: false, ..a.settings }, true, "hints hidden"@)
    } else if cmd == "showhints"@ {
        settings_step(a, Settings { show_hints: true, ..a.settings }, true, "hints shown"@)
    } else if cmd == "hidestatus"@ {
        settings_step(a, Settings { show_status: false, ..a.settings }, true, "tmux status hidden"@)
    } else if cmd == "showstatus"@ || cmd == "showstus"@ {
        settings_step(a, Settings { show_status: true, ..a.settings }, true, "tmux status shown"@)
    } else if starts_with(cmd, "sidebar "@) {
        match parse_u8(trim(cmd.skip(8))) {
            Some(p) => settings_step(
                a,
                Settings { sidebar_percent: min_percent(p), sidebar_auto: false, ..a.settings },
                false,
                "sidebar "@ + decimal(min_percent(p) as nat),
            ),
            None => refresh_step(AppV { status: "sidebar expects 0-100"@, ..a }, AfterV::Stay),
        }
    } else if cmd.len() == 0 {
        refresh_step(a, AfterV::Stay)
    } else {
        refresh_step(AppV { status: "unknown command: "@ + cmd, ..a }, AfterV::Stay)
    }
}

pub open spec fn command_step(a: AppV, key: KeyInput) -> (AppV, Option<JobV>) {
    if key.code == Key::Enter {
        execute_step(AppV { input: no_text(), mode: ModeV::Normal, ..a }, trim(a.input))
    } else if key.code == Key::Esc {
        (AppV { mode: ModeV::Normal, input: no_text(), ..a }, None)
    } else {
        (text_step(a, key, false).0, None)
    }
}

pub open spec fn rename_job(kind: PromptV, a: AppV, value: Seq<char>) -> JobV {
    match kind {
        PromptV::RenameSession(s) => one_command(
            seq!["rename-session"@, "-t"@, s, session_name_for(a.sessions, a.selection, value)],
            Finish::Done,
        ),
        PromptV::RenameWindow(w) => one_command(
            seq!["rename-window"@, "-t"@, w, window_name_for(a.sessions, w, value)],
            Finish::Done,
        ),
        PromptV::RenamePane(p) => one_command(seq!["select-pane"@, "-t"@, p, "-T"@, value], Finish::Done),
        _ => one_command(seq![], Finish::Done),
    }
}

pub open spec fn prompt_step(a: AppV, key: KeyInput, kind: PromptV) -> (AppV, Option<JobV>) {
    if key.code == Key::Enter {
        let value = trim(a.input);
        match kind {
            PromptV::NewSession => (
                wait(a, ResumeV::Created(None)),
                Some(one_command(create_session_args(value), Finish::Trimmed)),
            ),
            PromptV::NewWindow(s) => (
                wait(a, ResumeV::Created(Some(s))),
                Some(fresh(JobKindV::NewWindow(s, sel_pane(a), value))),
            ),
            _ => (wait(a, ResumeV::Saved), Some(rename_job(kind, a, value))),
        }
    } else if key.code == Key::Esc {
        (AppV { mode: ModeV::Normal, input: no_text(), ..a }, None)
    } else {
        (text_step(a, key, false).0, None)
    }
}

pub open spec fn kill_job(c: ConfirmV) -> JobV {
    match c {
        ConfirmV::KillSession(id, _) => one_command(seq!["kill-session"@, "-t"@, id], Finish::Done),
        ConfirmV::KillWindow(id, _) => one_command(kill_window_args(id), Finish::Done),
        ConfirmV::KillPane(id, _) => one_command(seq!["kill-pane"@, "-t"@, id], Finish::Done),
    }
}

pub open spec fn confirm_step(a: AppV, key: KeyInput, c: ConfirmV) -> (AppV, Option<JobV>) {
    if key.code == Key::Char('y') {
        (wait(a, ResumeV::Removed), Some(kill_job(c)))
    } else if key.code == Key::Char('n') || key.code == Key::Esc {
        (AppV { mode: ModeV::Normal, ..a }, None)
    } else {
        (a, None)
    }
}

pub open spec fn split_step(a: AppV, vertical: bool) -> (AppV, Option<JobV>) {
    match sel_pane(a) {
        Some(p) => (
            wait(a, ResumeV::Changed(None)),
            Some(one_command(split_pane_args(p, vertical), Finish::Trimmed)),
        ),
        None => (a, None),
    }
}

pub open spec fn zoom_step(a: AppV) -> (AppV, Option<JobV>) {
    match sel_pane(a) {
        Some(p) => (
            wait(a, ResumeV::Changed(None)),
            Some(one_command(seq!["resize-pane"@, "-t"@, p, "-Z"@], Finish::Done)),
        ),
        None => (a, None),
    }
}

pub open spec fn create_step(a: AppV, intent: Option<CreateV>) -> (AppV, Option<JobV>) {
    match intent {
        Some(CreateV::NewSession) => (
            AppV { input: no_text(), mode: ModeV::Prompt(PromptV::NewSession), ..a },
            None,
        ),
        Some(CreateV::NewWindow(s)) => (
            AppV { input: no_text(), mode: ModeV::Prompt(PromptV::NewWindow(s)), ..a },
            None,
        ),
        Some(CreateV::NewPane) => split_step(a, false),
        None => (a, None),
    }
}

/// The input line and mode that `r` sets up for renaming the selected row.
pub open spec fn rename_prompt(a: AppV) -> AppV {
    let ss = a.sessions;
    let b = AppV { input: no_text(), ..a };
    match a.selection {
        Some(sel) => if valid_selection(ss, sel) {
            match sel {
                Selection::Session(i) => AppV {
                    input: ss[i as int].name,
                    mode: ModeV::Prompt(PromptV::RenameSession(ss[i as int].id)),
                    ..b
                },
                Selection::Window(i, j) => AppV {
                    input: ss[i as int].windows[j as int].name,
                    mode: ModeV::Prompt(PromptV::RenameWindow(ss[i as int].windows[j as int].id)),
                    ..b
                },
                Selection::Pane(i, j, k) => AppV {
                    input: pane_label_spec(k as nat),
                    mode: ModeV::Prompt(
                        PromptV::RenamePane(ss[i as int].windows[j as int].panes[k as int].id),
                    ),
                    ..b
                },
            }
        } else {
            AppV { mode: ModeV::Normal, ..b }
        },
        None => AppV { mode: ModeV::Normal, ..b },
    }
}

/// The confirmation that `d` (or, with `whole_window`, `D`) asks for the
/// selected row: `d` kills a session, a pane, or the first pane of a split
/// window; `D` kills a session or the whole window of the selected row.
pub open spec fn kill_prompt(a: AppV, whole_window: bool) -> AppV {
    let ss = a.sessions;
    match a.selection {
        Some(sel) => if valid_selection(ss, sel) {
            match sel {
                Selection::Session(i) => AppV {
                    mode: ModeV::Confirm(ConfirmV::KillSession(ss[i as int].id, ss[i as int].name)),
                    ..a
                },
                Selection::Window(i, j) => {
                    let w = ss[i as int].windows[j as int];
                    AppV {
                        mode: ModeV::Confirm(
                            if !whole_window && w.panes.len() > 1 {
                                ConfirmV::KillPane(w.panes[0].id, pane_label_spec(0))
                            } else {
                                ConfirmV::KillWindow(w.id, w.name)
                            },
                        ),
                        ..a
                    }
                },
                Selection::Pane(i, j, k) => {
                    let w = ss[i as int].windows[j as int];
                    AppV {
                        mode: ModeV::Confirm(
                            if whole_window {
                                ConfirmV::KillWindow(w.id, w.name)
                            } else {
                                ConfirmV::KillPane(w.panes[k as int].id, pane_label_spec(k as nat))
                            },
                        ),
                        ..a
                    }
                },
            }
        } else {
            AppV { mode: ModeV::Normal, ..a }
        },
        None => AppV { mode: ModeV::Normal, ..a },
    }
}

/// `x`: remembers the selected window or pane.
pub open spec fn cut_step(a: AppV) -> AppV {
    let cut = match a.selection {
        Some(sel) => cut_of(a.sessions, sel),
        None => None,
    };
    AppV {
        cut_target: cut,
        status: match cut {
            Some(CutV::Window(_, _, name)) => "cut window "@ + name,
            Some(CutV::Pane(_, _, name)) => "cut pane "@ + name,
            None => "cut requires window or pane selection"@,
        },
        ..a
    }
}

pub open spec fn status_only(a: AppV, status: Seq<char>) -> (AppV, Option<JobV>) {
    (AppV { status, ..a }, None)
}

/// `p` and `P`: moves what was cut next to (or, with `peer`, beside) the
/// selected row.
pub open spec fn paste_step(a: AppV, peer: bool) -> (AppV, Option<JobV>) {
    match a.cut_target {
        None => status_only(a, "nothing cut"@),
        Some(cut) => match paste_of(a.sessions, a.selection, a.last_target, peer) {
            None => status_only(a, "paste requires selection"@),
            Some(intent) => match cut {
                CutV::Window(sid, wid, _) => match intent {
                    PasteV::Session => (
                        wait(a, ResumeV::Pasted(PasteWaitV::NewSession)),
                        Some(fresh(JobKindV::IntoNewSession(false, wid))),
                    ),
                    PasteV::Window(target) => if target == sid {
                        status_only(a, "window already in session"@)
                    } else {
                        (
                            wait(
                                a,
                                ResumeV::Pasted(
                                    PasteWaitV::Moved(PickV::Ids(target, wid, no_text()), "pasted window"@),
                                ),
                            ),
                            Some(one_command(move_window_args(wid, target), Finish::Done)),
                        )
                    },
                    PasteV::Pane(_, _, _) => status_only(a, "window can paste as session or window"@),
                },
                CutV::Pane(wid, pid, _) => match intent {
                    PasteV::Session => (
                        wait(a, ResumeV::Pasted(PasteWaitV::NewSession)),
                        Some(fresh(JobKindV::IntoNewSession(true, pid))),
                    ),
                    PasteV::Window(sid) => (
                        wait(a, ResumeV::Pasted(PasteWaitV::NewWindow(sid))),
                        Some(one_command(break_pane_args(pid, sid), Finish::Trimmed)),
                    ),
                    PasteV::Pane(ts, tw, tp) => if tw == wid {
                        status_only(a, "pane already in window"@)
                    } else {
                        (
                            wait(a, ResumeV::Pasted(PasteWaitV::Moved(PickV::Ids(ts, tw, pid), "pasted pane"@))),
                            Some(one_command(join_pane_args(pid, tp), Finish::Done)),
                        )
                    },
                },
            },
        },
    }
}

/// The session, window and pane ids stored for a target; a part it does
/// not have is stored empty.
pub open spec fn written_parts(t: TargetV) -> (Seq<char>, Seq<char>, Seq<char>) {
    match t {
        TargetV::Session(s) => (s, no_text(), no_text()),
        TargetV::Window(s, w) => (s, w, no_text()),
        TargetV::Pane(s, w, p) => (s, w, p),
    }
}

/// Records the target in the `@tmuxtui-*` options.
pub open spec fn remember_job(t: TargetV) -> JobV {
    let (s, w, p) = written_parts(t);
    script(
        seq![
            EffectV::Run(set_option_args("@tmuxtui-session"@, s), false),
            EffectV::Run(set_option_args("@tmuxtui-window"@, w), false),
            EffectV::Run(set_option_args("@tmuxtui-pane"@, p), false),
        ],
        Finish::Done,
    )
}

/// Enter: records where the user goes, then leaves to attach there.
pub open spec fn attach_step(a: AppV) -> (AppV, Option<JobV>) {
    match a.selection {
        Some(sel) => match target_of(a.sessions, sel) {
            Some(t) => {
                let last = match last_target_of(a.sessions, sel, a.last_target) {
                    Some(l) => l,
                    None => t,
                };
                (wait(a, ResumeV::Attached(t)), Some(remember_job(last)))
            },
            None => (a, None),
        },
        None => (a, None),
    }
}

/// The panes of a window to archive, each listed under `prefix` and its
/// pane label.
pub open spec fn window_entries(w: WindowV, prefix: Seq<char>) -> Seq<(Seq<char>, Seq<char>)> {
    Seq::new(w.panes.len(), |k: int| (prefix + pane_label_spec(k as nat), w.panes[k].id))
}

/// The panes of the first `m` windows of a session, each listed under its
/// window's name and its pane label.
pub open spec fn session_entries(s: SessionV, m: int) -> Seq<(Seq<char>, Seq<char>)>
    decreases m,
{
    if m <= 0 {
        seq![]
    } else {
        session_entries(s, m - 1) + window_entries(s.windows[m - 1], s.windows[m - 1].name + "."@)
    }
}

/// What `a` (or, with `whole`, `A`) archives, and under which name: a
/// session's panes; with `a` the selected pane, or the first pane of a
/// window's row; with `A` every pane of the selected row's window.
pub open spec fn archive_choice(a: AppV, whole: bool) -> Option<(Seq<char>, Seq<(Seq<char>, Seq<char>)>)> {
    let ss = a.sessions;
    match a.selection {
        Some(sel) => if valid_selection(ss, sel) {
            match sel {
                Selection::Session(i) => Some(
                    (ss[i as int].name, session_entries(ss[i as int], ss[i as int].windows.len() as int)),
                ),
                Selection::Window(i, j) => {
                    let w = ss[i as int].windows[j as int];
                    let all = window_entries(w, no_text());
                    Some((w.name, if whole || all.len() == 0 { all } else { all.take(1) }))
                },
                Selection::Pane(i, j, k) => {
                    let w = ss[i as int].windows[j as int];
                    if whole {
                        Some((w.name, window_entries(w, no_text())))
                    } else {
                        Some(
                            (
                                w.name + "-"@ + pane_label_spec(k as nat),
                                seq![(pane_label_spec(k as nat), w.panes[k as int].id)],
                            ),
                        )
                    }
                },
            }
        } else {
            None
        },
        None => None,
    }
}

/// `a` and `A`: starts the archive job for the chosen panes.
pub open spec fn archive_step(a: AppV, whole: bool) -> (AppV, Option<JobV>) {
    match archive_choice(a, whole) {
        Some((name, entries)) => (
            wait(a, ResumeV::Archived),
            Some(fresh(JobKindV::Archive(archive_dir_of(a.conf), name, entries))),
        ),
        None => (a, None),
    }
}

/// A count prefix after one more digit.
pub open spec fn pushed_count(count: Option<usize>, digit: nat) -> usize {
    let base = match count {
        Some(c) => c as int,
        None => 0,
    };
    let m = if base * 10 > usize::MAX { usize::MAX as int } else { base * 10 };
    let n = if m + digit > usize::MAX { m + digit - usize::MAX - 1 } else { m + digit };
    if n < 1 {
        1
    } else {
        n as usize
    }
}

pub open spec fn digit_of(ch: char) -> Option<nat> {
    if '0' <= ch <= '9' {
        Some((ch as u32 - 48) as nat)
    } else {
        None
    }
}

/// How many rows `j` moves down: the count, taken as a signed number.
pub open spec fn down_delta(count: Option<usize>) -> isize {
    match count {
        Some(c) => c as isize,
        None => 1,
    }
}

/// How many rows `k` moves: minus the count, wrapping at the bottom of
/// the signed range.
pub open spec fn up_delta(count: Option<usize>) -> isize {
    let d = down_delta(count);
    if d == isize::MIN {
        d
    } else {
        (-d) as isize
    }
}

pub open spec fn sat_sub1(n: int) -> int {
    if n > 0 {
        n - 1
    } else {
        0
    }
}

pub open spec fn toggled(f: Focus) -> Focus {
    match f {
        Focus::Tree => Focus::Preview,
        Focus::Preview => Focus::Tree,
    }
}

/// A key in normal mode once a pending `g` and a count digit are dealt
/// with; `a` still holds the count.
pub open spec fn normal_command(a: AppV, key: KeyInput) -> (AppV, Option<JobV>) {
    let c = AppV { count_prefix: None, ..a };
    let k = key.code;
    if k == Key::Char('q') {
        (AppV { should_quit: true, ..c }, None)
    } else if k == Key::Char('n') {
        preview_stay(search_again(c, true, false))
    } else if k == Key::Char('N') {
        preview_stay(search_again(c, false, false))
    } else if k == Key::Char('j') || k == Key::Down {
        (AppV { selection: moved(vis(c), c.selection, down_delta(a.count_prefix) as int), ..c }, None)
    } else if k == Key::Char('k') || k == Key::Up {
        (AppV { selection: moved(vis(c), c.selection, up_delta(a.count_prefix) as int), ..c }, None)
    } else if k == Key::Char('h') || k == Key::Left {
        (AppV { focus: Focus::Tree, ..c }, None)
    } else if k == Key::Char('g') {
        (AppV { pending_g: true, ..a }, None)
    } else if k == Key::Char('d') {
        (kill_prompt(c, false), None)
    } else if k == Key::Char('D') {
        (kill_prompt(c, true), None)
    } else if k == Key::Char('x') {
        (cut_step(c), None)
    } else if k == Key::Char('a') {
        archive_step(c, false)
    } else if k == Key::Char('A') {
        archive_step(c, true)
    } else if k == Key::Char('p') {
        paste_step(c, false)
    } else if k == Key::Char('P') {
        paste_step(c, true)
    } else if k == Key::Char('G') {
        let target = match a.count_prefix {
            Some(n) => sat_sub1(n as int),
            None => sat_sub1(vis(c).len() as int),
        };
        (AppV { selection: jumped(vis(c), target), ..c }, None)
    } else if k == Key::Char('l') || k == Key::Right {
        (AppV { focus: Focus::Preview, ..c }, None)
    } else if k == Key::Tab {
        (AppV { focus: toggled(c.focus), ..c }, None)
    } else if k == Key::Enter {
        attach_step(c)
    } else if k == Key::Char('/') {
        (AppV { mode: ModeV::Search, input: no_text(), ..c }, None)
    } else if k == Key::Char('f') {
        (AppV { mode: ModeV::Filter, input: c.filter, ..c }, None)
    } else if k == Key::Char(':') {
        (AppV { mode: ModeV::Command, input: no_text(), ..c }, None)
    } else if k == Key::Char('o') {
        create_step(c, child_create_of(c.sessions, c.selection, c.last_target))
    } else if k == Key::Char('O') {
        create_step(c, peer_create_of(c.sessions, c.selection, c.last_target))
    } else if k == Key::Char('r') {
        (rename_prompt(c), None)
    } else if k == Key::Char('s') {
        split_step(c, false)
    } else if k == Key::Char('S') {
        split_step(c, true)
    } else if k == Key::Char('z') {
        zoom_step(c)
    } else if k == Key::Char('R') && key.shift {
        refresh_step(c, AfterV::Stay)
    } else {
        (AppV { pending_g: false, ..c }, None)
    }
}

/// A key in normal mode: `gg` goes to the top, digits build a count, and
/// the rest are commands.
pub open spec fn normal_step(a: AppV, key: KeyInput) -> (AppV, Option<JobV>) {
    let b = if a.pending_g {
        AppV { pending_g: false, count_prefix: None, ..a }
    } else {
        a
    };
    if a.pending_g && key.code == Key::Char('g') {
        (AppV { selection: jumped(vis(b), 0), ..b }, None)
    } else {
        match key.code {
            Key::Char(ch) => match digit_of(ch) {
                Some(d) => if d > 0 || b.count_prefix is Some {
                    (AppV { count_prefix: Some(pushed_count(b.count_prefix, d)), ..b }, None)
                } else {
                    normal_command(b, key)
                },
                None => normal_command(b, key),
            },
            _ => normal_command(b, key),
        }
    }
}

/// What a key does. While a job runs keys are ignored; otherwise the
/// status line is cleared and the key goes to the current mode.
pub open spec fn key_step(a: AppV, key: KeyInput) -> (AppV, Option<JobV>) {
    match a.pending {
        PendingV::Waiting(_) => (a, None),
        PendingV::Idle => {
            let b = AppV { status: no_text(), ..a };
            match b.mode {
                ModeV::Normal => normal_step(b, key),
                ModeV::Command => command_step(b, key),
                ModeV::Filter => filter_step(b, key),
                ModeV::Search => search_step(b, key),
                ModeV::Prompt(kind) => prompt_step(b, key, kind),
                ModeV::Confirm(c) => confirm_step(b, key, c),
            }
        },
    }
}

pub open spec fn target_key(t: Option<(Seq<char>, Option<Seq<char>>, Option<Seq<char>>)>) -> Option<KeyV> {
    match t {
        Some((s, w, p)) => Some(KeyV { session_id: s, window_id: w, pane_id: p }),
        None => None,
    }
}

pub open spec fn succeeded(o: OutcomeV) -> bool {
    o is Done || o is Text
}

pub open spec fn unexpected(a: AppV) -> (AppV, Option<JobV>) {
    status_only(a, "unexpected tmux reply"@)
}

/// How the state goes on with the outcome of the job it waited on; `a`
/// no longer waits.
pub open spec fn continue_step(a: AppV, r: ResumeV, o: OutcomeV) -> (AppV, Option<JobV>) {
    match r {
        ResumeV::Preview(then) => match o {
            OutcomeV::Text(t) => after_step(AppV { preview: t, ..a }, then),
            _ => unexpected(a),
        },
        ResumeV::Snapshot(k, i, then) => match o {
            OutcomeV::Snapshot(ss) => (
                wait(a, ResumeV::LastTarget(k, i, then, ss)),
                Some(fresh(JobKindV::LastTarget)),
            ),
            _ => unexpected(a),
        },
        ResumeV::LastTarget(k, i, then, ss) => match o {
            OutcomeV::Target(t) => (
                wait(a, ResumeV::Pinned(k, i, then, ss, target_key(t))),
                Some(fresh(JobKindV::PinnedPane)),
            ),
            _ => unexpected(a),
        },
        ResumeV::Pinned(k, i, then, ss, last) => match o {
            OutcomeV::Value(v) => {
                let b = AppV { sessions: ss, last_target: last, pinned_pane: v, ..a };
                preview_then(
                    AppV { selection: reconciled(b.sessions, b.filter, b.last_target, k, i), ..b },
                    then,
                )
            },
            _ => unexpected(a),
        },
        ResumeV::Saved => if succeeded(o) {
            refresh_step(AppV { mode: ModeV::Normal, input: no_text(), status: "saved"@, ..a }, AfterV::Stay)
        } else {
            unexpected(a)
        },
        ResumeV::Removed => if succeeded(o) {
            refresh_step(AppV { mode: ModeV::Normal, status: "removed"@, ..a }, AfterV::Stay)
        } else {
            unexpected(a)
        },
        ResumeV::Changed(status) => if succeeded(o) {
            refresh_step(
                AppV {
                    status: match status {
                        Some(s) => s,
                        None => a.status,
                    },
                    ..a
                },
                AfterV::Stay,
            )
        } else {
            unexpected(a)
        },
        ResumeV::Created(session) => match o {
            OutcomeV::Text(id) => refresh_step(
                AppV { mode: ModeV::Normal, input: no_text(), status: "saved"@, ..a },
                AfterV::Reselect(
                    match session {
                        Some(s) => PickV::Ids(s, id, no_text()),
                        None => PickV::Session(id),
                    },
                    None,
                ),
            ),
            _ => unexpected(a),
        },
        ResumeV::Pasted(w) => {
            let b = AppV { cut_target: None, ..a };
            match w {
                PasteWaitV::NewSession => match o {
                    OutcomeV::Text(id) => refresh_step(
                        b,
                        AfterV::Reselect(PickV::Session(id), Some("pasted session"@)),
                    ),
                    _ => unexpected(a),
                },
                PasteWaitV::NewWindow(s) => match o {
                    OutcomeV::Text(id) => refresh_step(
                        b,
                        AfterV::Reselect(PickV::Ids(s, id, no_text()), Some("pasted window"@)),
                    ),
                    _ => unexpected(a),
                },
                PasteWaitV::Moved(pick, status) => if succeeded(o) {
                    refresh_step(b, AfterV::Reselect(pick, Some(status)))
                } else {
                    unexpected(a)
                },
            }
        },
        ResumeV::Attached(t) => if succeeded(o) {
            (AppV { attach_target: Some(t), should_quit: true, ..a }, None)
        } else {
            unexpected(a)
        },
        ResumeV::Archived => match o {
            OutcomeV::Text(path) => status_only(a, "archived "@ + path),
            _ => unexpected(a),
        },
    }
}

/// What the outcome of a job does: a failure shows its message and ends
/// the operation; otherwise the operation goes on.
pub open spec fn resume_step(a: AppV, o: OutcomeV) -> (AppV, Option<JobV>) {
    match a.pending {
        PendingV::Idle => (a, None),
        PendingV::Waiting(r) => {
            let b = AppV { pending: PendingV::Idle, ..a };
            match o {
                OutcomeV::Failed(m) => status_only(b, m),
                _ => continue_step(b, r, o),
            }
        },
    }
}


// ---------------------------------------------------------------------------
// Key handling.
// ---------------------------------------------------------------------------

pub open spec fn job_view(j: Option<Job>) -> Option<JobV> {
    match j {
        Some(j) => Some(j@),
        None => None,
    }
}

impl PromptKind {
    pub fn duplicate(&self) -> (r: PromptKind)
        ensures
            r@ == self@,
    {
        match self {
            PromptKind::NewSession => PromptKind::NewSession,
            PromptKind::NewWindow { session_id } => PromptKind::NewWindow { session_id: session_id.clone() },
            PromptKind::RenameSession { session_id } => PromptKind::RenameSession { session_id: session_id.clone() },
            PromptKind::RenameWindow { window_id } => PromptKind::RenameWindow { window_id: window_id.clone() },
            PromptKind::RenamePane { pane_id } => PromptKind::RenamePane { pane_id: pane_id.clone() },
        }
    }
}

impl ConfirmAction {
    pub fn duplicate(&self) -> (r: ConfirmAction)
        ensures
            r@ == self@,
    {
        match self {
            ConfirmAction::KillSession { session_id, name } => ConfirmAction::KillSession {
                session_id: session_id.clone(),
                name: name.clone(),
            },
            ConfirmAction::KillWindow { window_id, name } => ConfirmAction::KillWindow {
                window_id: window_id.clone(),
                name: name.clone(),
            },
            ConfirmAction::KillPane { pane_id, name } => ConfirmAction::KillPane {
                pane_id: pane_id.clone(),
                name: name.clone(),
            },
        }
    }
}

/// Where `sel` stands among `rows`.
fn row_position(rows: &Vec<Selection>, sel: Selection) -> (r: Option<usize>)
    ensures
        match position(rows@, same_row(sel)) {
            Some(i) => r == Some(i as usize) && i < rows@.len(),
            None => r is None,
        },
{
    let ghost p = same_row(sel);
    let mut k: usize = 0;
    while k < rows.len()
        invariant
            0 <= k <= rows.len(),
            p == same_row(sel),
            forall|m: int| 0 <= m < k ==> !p(#[trigger] rows@[m]),
        decreases rows.len() - k,
    {
        if rows[k] == sel {
            proof {
                assert(p(rows@[k as int]));
                lemma_position_is(rows@, p, k as int);
            }
            return Some(k);
        }
        k += 1;
    }
    proof {
        lemma_position_none(rows@, p);
    }
    None
}

impl App {
    /// Where the selected row stands among the rows on screen.
    fn selection_index(&self) -> (r: Option<usize>)
        ensures
            r == sel_index(self@),
    {
        match self.selection {
            Some(sel) => {
                let rows = self.visible_rows();
                row_position(&rows, sel)
            },
            None => None,
        }
    }

    fn wait_on(&mut self, resume: Resume, job: Job) -> (r: Option<Job>)
        ensures
            final(self)@ == wait(old(self)@, resume@),
            job_view(r) == Some(job@),
    {
        self.pending = Pending::Waiting(resume);
        Some(job)
    }

    /// Shows the selected pane in the preview.
    fn show_preview(&mut self) -> (r: Option<Job>)
        ensures
            (final(self)@, job_view(r)) == preview_stay(old(self)@),
    {
        match self.selected_pane_id() {
            Some(p) => {
                let job = self.tmux.capture_pane(p.as_str());
                self.wait_on(Resume::Preview(After::Stay), job)
            },
            None => {
                self.preview = str_to_string("No pane selected");
                None
            },
        }
    }

    fn go_on(&mut self, then: After) -> (r: Option<Job>)
        ensures
            (final(self)@, job_view(r)) == after_step(old(self)@, then@),
    {
        match then {
            After::Stay => None,
            After::Reselect { pick, status } => {
                let sel = match &pick {
                    Pick::Session(s) => self.selection_for_session(s.as_str()),
                    Pick::Ids(s, w, p) => self.selection_for_ids(s.as_str(), w.as_str(), p.as_str()),
                };
                self.selection = sel;
                match status {
                    Some(s) => {
                        self.status = s;
                    },
                    None => {},
                }
                self.show_preview()
            },
        }
    }

    /// Shows the selected pane in the preview, then goes on with `then`.
    fn show_preview_then(&mut self, then: After) -> (r: Option<Job>)
        ensures
            (final(self)@, job_view(r)) == preview_then(old(self)@, then@),
    {
        match self.selected_pane_id() {
            Some(p) => {
                let job = self.tmux.capture_pane(p.as_str());
                self.wait_on(Resume::Preview(then), job)
            },
            None => {
                self.preview = str_to_string("No pane selected");
                self.go_on(then)
            },
        }
    }

    fn refresh_then(&mut self, then: After) -> (r: Option<Job>)
        ensures
            (final(self)@, job_view(r)) == refresh_step(old(self)@, then@),
    {
        let key = self.selection_key();
        let index = self.selection_index();
        let job = self.tmux.snapshot();
        self.wait_on(Resume::Snapshot(key, index, then), job)
    }

    /// Starts a refresh of the snapshot, the selection and the preview.
    pub fn refresh(&mut self) -> (r: Option<Job>)
        ensures
            (final(self)@, job_view(r)) == refresh_step(old(self)@, AfterV::Stay),
    {
        self.refresh_then(After::Stay)
    }

    /// Keeps the selection on the same row after the filter changed.
    fn refilter_now(&mut self)
        ensures
            final(self)@ == refilter(old(self)@, old(self).filter@),
    {
        let key = self.selection_key();
        let index = self.selection_index();
        match &key {
            Some(k) => self.reconcile_selection(Some(k), index),
            None => self.reconcile_selection(None, index),
        }
    }

    fn text_input(&mut self, key: KeyInput, is_filter: bool) -> (taken: bool)
        ensures
            (final(self)@, taken) == text_step(old(self)@, key, is_filter),
    {
        match key.code {
            Key::Char(ch) => {
                if key.ctrl {
                    return false;
                }
                push_char(&mut self.input, ch);
                if is_filter {
                    self.filter = self.input.clone();
                    self.refilter_now();
                }
                true
            },
            Key::Backspace => {
                let cs = chars_of(self.input.as_str());
                if cs.len() > 0 {
                    self.input = string_of_range(&cs, 0, cs.len() - 1);
                    assert(self.input@ =~= cs@.drop_last());
                }
                if is_filter {
                    self.filter = self.input.clone();
                    self.refilter_now();
                }
                true
            },
            Key::Esc => {
                self.mode = InputMode::Normal;
                self.input = String::new();
                if is_filter {
                    self.filter = String::new();
                    self.refilter_now();
                }
                true
            },
            _ => false,
        }
    }
}

impl App {
    fn handle_filter(&mut self, key: KeyInput) -> (r: Option<Job>)
        ensures
            (final(self)@, job_view(r)) == filter_step(old(self)@, key),
    {
        if key.code == Key::Enter {
            self.filter = self.input.clone();
            self.mode = InputMode::Normal;
            self.show_preview()
        } else if self.text_input(key, true) {
            self.show_preview()
        } else {
            None
        }
    }

    fn search_now(&mut self, forward: bool, include_current: bool)
        ensures
            final(self)@ == search_again(old(self)@, forward, include_current),
    {
        self.search_match(forward, include_current);
    }

    fn handle_search(&mut self, key: KeyInput) -> (r: Option<Job>)
        ensures
            (final(self)@, job_view(r)) == search_step(old(self)@, key),
    {
        if key.code == Key::Enter {
            self.search = self.input.clone();
            self.search_now(true, true);
            self.mode = InputMode::Normal;
            self.input = String::new();
            self.show_preview()
        } else if key.code == Key::Esc {
            self.mode = InputMode::Normal;
            self.input = String::new();
            None
        } else if self.text_input(key, false) {
            self.search = self.input.clone();
            self.search_now(true, true);
            self.show_preview()
        } else {
            None
        }
    }

    fn wait_changed(&mut self, status: &str, job: Job) -> (r: Option<Job>)
        ensures
            final(self)@ == wait(old(self)@, ResumeV::Changed(Some(status@))),
            job_view(r) == Some(job@),
    {
        self.wait_on(Resume::Changed(Some(str_to_string(status))), job)
    }

    fn refresh_with_status(&mut self, status: &str) -> (r: Option<Job>)
        ensures
            (final(self)@, job_view(r)) == refresh_step(AppV { status: status@, ..old(self)@ }, AfterV::Stay),
    {
        self.status = str_to_string(status);
        self.refresh_then(After::Stay)
    }

    /// Runs a `:` command; a refresh follows it.
    fn execute_command(&mut self, command: &str) -> (r: Option<Job>)
        ensures
            (final(self)@, job_view(r)) == execute_step(old(self)@, command@),
    {
        let c = chars_of(command);
        if chars_eq(&c, &chars_of("q")) {
            self.should_quit = true;
            self.refresh_then(After::Stay)
        } else if chars_eq(&c, &chars_of("pin")) || chars_eq(&c, &chars_of("p")) {
            match self.selected_pane_id() {
                Some(p) => {
                    let job = self.tmux.set_pinned_pane(Some(p.as_str()));
                    self.wait_changed("pane pinned", job)
                },
                None => self.refresh_with_status("pin requires pane selection"),
            }
        } else if chars_eq(&c, &chars_of("unpin")) || chars_eq(&c, &chars_of("up")) {
            let job = self.tmux.set_pinned_pane(None);
            self.wait_changed("pane unpinned", job)
        } else if chars_eq(&c, &chars_of("hidehints")) {
            let job = self.tmux.set_show_hints(false);
            self.wait_changed("hints hidden", job)
        } else if chars_eq(&c, &chars_of("showhints")) {
            let job = self.tmux.set_show_hints(true);
            self.wait_changed("hints shown", job)
        } else if chars_eq(&c, &chars_of("hidestatus")) {
            let job = self.tmux.set_show_status(false);
            self.wait_changed("tmux status hidden", job)
        } else if chars_eq(&c, &chars_of("showstatus")) || chars_eq(&c, &chars_of("showstus")) {
            let job = self.tmux.set_show_status(true);
            self.wait_changed("tmux status shown", job)
        } else if starts_with_chars(&c, &chars_of("sidebar ")) {
            proof {
                reveal_strlit("sidebar ");
            }
            let rest = string_of_range(&c, 8, c.len());
            let value = trim_string(rest.as_str());
            match parse_u8_chars(&chars_of(value.as_str())) {
                Some(percent) => {
                    let shown: u8 = if percent <= 100 {
                        percent
                    } else {
                        100
                    };
                    let job = self.tmux.set_sidebar_percent(percent);
                    let mut status = str_to_string("sidebar ");
                    push_str(&mut status, decimal_string(shown as u64).as_str());
                    self.wait_on(Resume::Changed(Some(status)), job)
                },
                None => self.refresh_with_status("sidebar expects 0-100"),
            }
        } else if c.len() == 0 {
            self.refresh_then(After::Stay)
        } else {
            let mut status = str_to_string("unknown command: ");
            push_str(&mut status, command);
            self.status = status;
            self.refresh_then(After::Stay)
        }
    }

    fn handle_command(&mut self, key: KeyInput) -> (r: Option<Job>)
        ensures
            (final(self)@, job_view(r)) == command_step(old(self)@, key),
    {
        if key.code == Key::Enter {
            let command = trim_string(self.input.as_str());
            self.input = String::new();
            self.mode = InputMode::Normal;
            self.execute_command(command.as_str())
        } else if key.code == Key::Esc {
            self.mode = InputMode::Normal;
            self.input = String::new();
            None
        } else {
            self.text_input(key, false);
            None
        }
    }
}

impl App {
    fn handle_prompt(&mut self, key: KeyInput, kind: PromptKind) -> (r: Option<Job>)
        ensures
            (final(self)@, job_view(r)) == prompt_step(old(self)@, key, kind@),
    {
        if key.code == Key::Enter {
            let value = trim_string(self.input.as_str());
            match kind {
                PromptKind::NewSession => {
                    let job = self.tmux.create_session(value.as_str());
                    self.wait_on(Resume::Created(None), job)
                },
                PromptKind::NewWindow { session_id } => {
                    let base = self.selected_pane_id();
                    let job = match &base {
                        Some(b) => self.tmux.new_window(session_id.as_str(), Some(b.as_str()), value.as_str()),
                        None => self.tmux.new_window(session_id.as_str(), None, value.as_str()),
                    };
                    self.wait_on(Resume::Created(Some(session_id)), job)
                },
                PromptKind::RenameSession { session_id } => {
                    let name = self.default_session_name(value.as_str());
                    let job = self.tmux.rename_session(session_id.as_str(), name.as_str());
                    self.wait_on(Resume::Saved, job)
                },
                PromptKind::RenameWindow { window_id } => {
                    let name = self.default_window_name(window_id.as_str(), value.as_str());
                    let job = self.tmux.rename_window(window_id.as_str(), name.as_str());
                    self.wait_on(Resume::Saved, job)
                },
                PromptKind::RenamePane { pane_id } => {
                    let job = self.tmux.rename_pane(pane_id.as_str(), value.as_str());
                    self.wait_on(Resume::Saved, job)
                },
            }
        } else if key.code == Key::Esc {
            self.mode = InputMode::Normal;
            self.input = String::new();
            None
        } else {
            self.text_input(key, false);
            None
        }
    }

    fn handle_confirm(&mut self, key: KeyInput, action: ConfirmAction) -> (r: Option<Job>)
        ensures
            (final(self)@, job_view(r)) == confirm_step(old(self)@, key, action@),
    {
        if key.code == Key::Char('y') {
            let job = match &action {
                ConfirmAction::KillSession { session_id, .. } => self.tmux.kill_session(session_id.as_str()),
                ConfirmAction::KillWindow { window_id, .. } => self.tmux.kill_window(window_id.as_str()),
                ConfirmAction::KillPane { pane_id, .. } => self.tmux.kill_pane(pane_id.as_str()),
            };
            self.wait_on(Resume::Removed, job)
        } else if key.code == Key::Char('n') || key.code == Key::Esc {
            self.mode = InputMode::Normal;
            None
        } else {
            None
        }
    }

    fn split_selected(&mut self, vertical: bool) -> (r: Option<Job>)
        ensures
            (final(self)@, job_view(r)) == split_step(old(self)@, vertical),
    {
        match self.selected_pane_id() {
            Some(p) => {
                let job = self.tmux.split_pane(p.as_str(), vertical);
                self.wait_on(Resume::Changed(None), job)
            },
            None => None,
        }
    }

    fn zoom_selected(&mut self) -> (r: Option<Job>)
        ensures
            (final(self)@, job_view(r)) == zoom_step(old(self)@),
    {
        match self.selected_pane_id() {
            Some(p) => {
                let job = self.tmux.toggle_zoom(p.as_str());
                self.wait_on(Resume::Changed(None), job)
            },
            None => None,
        }
    }

    fn apply_create_intent(&mut self, intent: Option<CreateIntent>) -> (r: Option<Job>)
        ensures
            (final(self)@, job_view(r)) == create_step(
                old(self)@,
                match intent {
                    Some(i) => Some(i@),
                    None => None,
                },
            ),
    {
        match intent {
            Some(CreateIntent::NewSession) => {
                self.input = String::new();
                self.mode = InputMode::Prompt(PromptKind::NewSession);
                None
            },
            Some(CreateIntent::NewWindow { session_id }) => {
                self.input = String::new();
                self.mode = InputMode::Prompt(PromptKind::NewWindow { session_id });
                None
            },
            Some(CreateIntent::NewPane) => self.split_selected(false),
            None => None,
        }
    }

    /// `r`: asks for a new name of the selected row.
    fn start_rename_prompt(&mut self)
        ensures
            final(self)@ == rename_prompt(old(self)@),
    {
        self.input = String::new();
        let ghost a = old(self)@;
        let ss = &self.snapshot.sessions;
        let next = match self.selection {
            Some(Selection::Session(i)) => if i < ss.len() {
                Some((ss[i].name.clone(), PromptKind::RenameSession { session_id: ss[i].id.clone() }))
            } else {
                None
            },
            Some(Selection::Window(i, j)) => if i < ss.len() && j < ss[i].windows.len() {
                Some((ss[i].windows[j].name.clone(), PromptKind::RenameWindow { window_id: ss[i].windows[j].id.clone() }))
            } else {
                None
            },
            Some(Selection::Pane(i, j, k)) => if i < ss.len() && j < ss[i].windows.len() && k
                < ss[i].windows[j].panes.len() {
                Some((pane_label(k), PromptKind::RenamePane { pane_id: ss[i].windows[j].panes[k].id.clone() }))
            } else {
                None
            },
            None => None,
        };
        match next {
            Some((input, kind)) => {
                self.input = input;
                self.mode = InputMode::Prompt(kind);
            },
            None => {
                self.mode = InputMode::Normal;
            },
        }
    }
}

impl App {
    /// `d` and `D`: asks to confirm killing the selected row, or with
    /// `whole_window` its whole window.
    fn start_kill_prompt(&mut self, whole_window: bool)
        ensures
            final(self)@ == kill_prompt(old(self)@, whole_window),
    {
        let ss = &self.snapshot.sessions;
        let next = match self.selection {
            Some(Selection::Session(i)) => if i < ss.len() {
                Some(ConfirmAction::KillSession { session_id: ss[i].id.clone(), name: ss[i].name.clone() })
            } else {
                None
            },
            Some(Selection::Window(i, j)) => if i < ss.len() && j < ss[i].windows.len() {
                let w = &ss[i].windows[j];
                if !whole_window && w.panes.len() > 1 {
                    Some(ConfirmAction::KillPane { pane_id: w.panes[0].id.clone(), name: pane_label(0) })
                } else {
                    Some(ConfirmAction::KillWindow { window_id: w.id.clone(), name: w.name.clone() })
                }
            } else {
                None
            },
            Some(Selection::Pane(i, j, k)) => if i < ss.len() && j < ss[i].windows.len() && k
                < ss[i].windows[j].panes.len() {
                let w = &ss[i].windows[j];
                if whole_window {
                    Some(ConfirmAction::KillWindow { window_id: w.id.clone(), name: w.name.clone() })
                } else {
                    Some(ConfirmAction::KillPane { pane_id: w.panes[k].id.clone(), name: pane_label(k) })
                }
            } else {
                None
            },
            None => None,
        };
        match next {
            Some(action) => {
                self.mode = InputMode::Confirm(action);
            },
            None => {
                self.mode = InputMode::Normal;
            },
        }
    }

    /// `x`: remembers the selected window or pane for a later paste.
    fn cut_selected(&mut self)
        ensures
            final(self)@ == cut_step(old(self)@),
    {
        let cut = self.cut_target_for_selection();
        let status = match &cut {
            Some(CutTarget::Window { name, .. }) => {
                let mut s = str_to_string("cut window ");
                push_str(&mut s, name.as_str());
                s
            },
            Some(CutTarget::Pane { name, .. }) => {
                let mut s = str_to_string("cut pane ");
                push_str(&mut s, name.as_str());
                s
            },
            None => str_to_string("cut requires window or pane selection"),
        };
        self.cut_target = cut;
        self.status = status;
    }

    fn say(&mut self, status: &str) -> (r: Option<Job>)
        ensures
            (final(self)@, job_view(r)) == status_only(old(self)@, status@),
    {
        self.status = str_to_string(status);
        None
    }

    /// `p` and `P`: moves what was cut next to, or beside, the selected row.
    fn paste_cut(&mut self, peer: bool) -> (r: Option<Job>)
        ensures
            (final(self)@, job_view(r)) == paste_step(old(self)@, peer),
    {
        let cut = match &self.cut_target {
            Some(CutTarget::Window { session_id, window_id, name }) => CutTarget::Window {
                session_id: session_id.clone(),
                window_id: window_id.clone(),
                name: name.clone(),
            },
            Some(CutTarget::Pane { window_id, pane_id, name }) => CutTarget::Pane {
                window_id: window_id.clone(),
                pane_id: pane_id.clone(),
                name: name.clone(),
            },
            None => {
                return self.say("nothing cut");
            },
        };
        let intent = match self.paste_intent(peer) {
            Some(intent) => intent,
            None => {
                return self.say("paste requires selection");
            },
        };
        match cut {
            CutTarget::Window { session_id, window_id, .. } => match intent {
                PasteIntent::Session => {
                    let job = self.tmux.move_window_to_new_session(window_id.as_str());
                    self.wait_on(Resume::Pasted(PasteWait::NewSession), job)
                },
                PasteIntent::Window { session_id: target } => {
                    if target == session_id {
                        return self.say("window already in session");
                    }
                    let job = self.tmux.move_window_to_session(window_id.as_str(), target.as_str());
                    let pick = Pick::Ids(target, window_id, String::new());
                    self.wait_on(Resume::Pasted(PasteWait::Moved(pick, str_to_string("pasted window"))), job)
                },
                PasteIntent::Pane { .. } => self.say("window can paste as session or window"),
            },
            CutTarget::Pane { window_id, pane_id, .. } => match intent {
                PasteIntent::Session => {
                    let job = self.tmux.move_pane_to_new_session(pane_id.as_str());
                    self.wait_on(Resume::Pasted(PasteWait::NewSession), job)
                },
                PasteIntent::Window { session_id } => {
                    let job = self.tmux.move_pane_to_new_window(pane_id.as_str(), session_id.as_str());
                    self.wait_on(Resume::Pasted(PasteWait::NewWindow(session_id)), job)
                },
                PasteIntent::Pane { session_id: ts, window_id: tw, pane_id: tp } => {
                    if tw == window_id {
                        return self.say("pane already in window");
                    }
                    let job = self.tmux.move_pane_to_window(pane_id.as_str(), tp.as_str());
                    let pick = Pick::Ids(ts, tw, pane_id);
                    self.wait_on(Resume::Pasted(PasteWait::Moved(pick, str_to_string("pasted pane"))), job)
                },
            },
        }
    }

    /// Enter: records the selected row as the last target, then leaves to
    /// attach to it.
    fn attach_selected(&mut self) -> (r: Option<Job>)
        ensures
            (final(self)@, job_view(r)) == attach_step(old(self)@),
    {
        match self.selected_target() {
            Some(target) => {
                let last = match self.last_target_for_selection() {
                    Some(l) => l,
                    None => target.duplicate(),
                };
                let job = self.tmux.set_last_target(&last);
                self.wait_on(Resume::Attached(target), job)
            },
            None => None,
        }
    }
}

/// The count prefix after one more digit.
fn push_count(count: Option<usize>, digit: usize) -> (r: usize)
    requires
        digit <= 9,
    ensures
        r == pushed_count(count, digit as nat),
{
    let base: usize = match count {
        Some(c) => c,
        None => 0,
    };
    let m: usize = if base > usize::MAX / 10 {
        usize::MAX
    } else {
        base * 10
    };
    let n: usize = if m > usize::MAX - digit {
        m - (usize::MAX - digit) - 1
    } else {
        m + digit
    };
    if n < 1 {
        1
    } else {
        n
    }
}

impl App {
    /// A key in normal mode once a pending `g` and count digits are dealt
    /// with.
    fn normal_command(&mut self, key: KeyInput) -> (r: Option<Job>)
        ensures
            (final(self)@, job_view(r)) == normal_command(old(self)@, key),
    {
        let count = self.count_prefix;
        self.count_prefix = None;
        let k = key.code;
        if k == Key::Char('q') {
            self.should_quit = true;
            None
        } else if k == Key::Char('n') {
            self.search_now(true, false);
            self.show_preview()
        } else if k == Key::Char('N') {
            self.search_now(false, false);
            self.show_preview()
        } else if k == Key::Char('j') || k == Key::Down {
            let delta: isize = match count {
                Some(c) => c as isize,
                None => 1,
            };
            self.move_selection(delta);
            None
        } else if k == Key::Char('k') || k == Key::Up {
            let d: isize = match count {
                Some(c) => c as isize,
                None => 1,
            };
            let delta: isize = if d == isize::MIN {
                d
            } else {
                -d
            };
            self.move_selection(delta);
            None
        } else if k == Key::Char('h') || k == Key::Left {
            self.focus = Focus::Tree;
            None
        } else if k == Key::Char('g') {
            self.count_prefix = count;
            self.pending_g = true;
            None
        } else if k == Key::Char('d') {
            self.start_kill_prompt(false);
            None
        } else if k == Key::Char('D') {
            self.start_kill_prompt(true);
            None
        } else if k == Key::Char('x') {
            self.cut_selected();
            None
        } else if k == Key::Char('a') {
            self.archive_selected(false)
        } else if k == Key::Char('A') {
            self.archive_selected(true)
        } else if k == Key::Char('p') {
            self.paste_cut(false)
        } else if k == Key::Char('P') {
            self.paste_cut(true)
        } else if k == Key::Char('G') {
            let target: usize = match count {
                Some(n) => if n > 0 {
                    n - 1
                } else {
                    0
                },
                None => {
                    let rows = self.visible_rows();
                    if rows.len() > 0 {
                        rows.len() - 1
                    } else {
                        0
                    }
                },
            };
            self.jump_to_index(target);
            None
        } else if k == Key::Char('l') || k == Key::Right {
            self.focus = Focus::Preview;
            None
        } else if k == Key::Tab {
            self.focus = match self.focus {
                Focus::Tree => Focus::Preview,
                Focus::Preview => Focus::Tree,
            };
            None
        } else if k == Key::Enter {
            self.attach_selected()
        } else if k == Key::Char('/') {
            self.mode = InputMode::Search;
            self.input = String::new();
            None
        } else if k == Key::Char('f') {
            self.mode = InputMode::Filter;
            self.input = self.filter.clone();
            None
        } else if k == Key::Char(':') {
            self.mode = InputMode::Command;
            self.input = String::new();
            None
        } else if k == Key::Char('o') {
            let intent = self.child_create_intent();
            self.apply_create_intent(intent)
        } else if k == Key::Char('O') {
            let intent = self.peer_create_intent();
            self.apply_create_intent(intent)
        } else if k == Key::Char('r') {
            self.start_rename_prompt();
            None
        } else if k == Key::Char('s') {
            self.split_selected(false)
        } else if k == Key::Char('S') {
            self.split_selected(true)
        } else if k == Key::Char('z') {
            self.zoom_selected()
        } else if k == Key::Char('R') && key.shift {
            self.refresh_then(After::Stay)
        } else {
            self.pending_g = false;
            None
        }
    }

    fn handle_normal(&mut self, key: KeyInput) -> (r: Option<Job>)
        ensures
            (final(self)@, job_view(r)) == normal_step(old(self)@, key),
    {
        let was_g = self.pending_g;
        if was_g {
            self.pending_g = false;
            self.count_prefix = None;
            if key.code == Key::Char('g') {
                self.jump_to_index(0);
                return None;
            }
        }
        match key.code {
            Key::Char(ch) => {
                if '0' <= ch && ch <= '9' {
                    let digit: usize = (ch as u32 - 48) as usize;
                    if digit > 0 || self.count_prefix.is_some() {
                        self.count_prefix = Some(push_count(self.count_prefix, digit));
                        return None;
                    }
                }
                self.normal_command(key)
            },
            _ => self.normal_command(key),
        }
    }

    /// Handles a key press. While a job runs, keys are ignored; otherwise
    /// the status line is cleared and the key goes to the current mode. A
    /// returned job is for the caller to run; its outcome goes to
    /// `resume`.
    #[verifier::spinoff_prover]
    #[verifier::rlimit(40)]
    pub fn handle_key(&mut self, key: KeyInput) -> (r: Option<Job>)
        ensures
            (final(self)@, job_view(r)) == key_step(old(self)@, key),
    {
        if let Pending::Waiting(_) = &self.pending {
            return None;
        }
        self.status = String::new();
        match &self.mode {
            InputMode::Normal => self.handle_normal(key),
            InputMode::Command => self.handle_command(key),
            InputMode::Filter => self.handle_filter(key),
            InputMode::Search => self.handle_search(key),
            InputMode::Prompt(kind) => {
                let kind = kind.duplicate();
                self.handle_prompt(key, kind)
            },
            InputMode::Confirm(action) => {
                let action = action.duplicate();
                self.handle_confirm(key, action)
            },
        }
    }
}

impl App {
    fn unexpected_reply(&mut self) -> (r: Option<Job>)
        ensures
            (final(self)@, job_view(r)) == unexpected(old(self)@),
    {
        self.say("unexpected tmux reply")
    }

    fn continue_with(&mut self, resume: Resume, outcome: Outcome) -> (r: Option<Job>)
        ensures
            (final(self)@, job_view(r)) == continue_step(old(self)@, resume@, outcome@),
    {
        match &resume {
            Resume::Preview(_) | Resume::Snapshot(..) | Resume::LastTarget(..) | Resume::Pinned(..) => {
                self.continue_refresh(resume, outcome)
            },
            _ => self.continue_operation(resume, outcome),
        }
    }

    /// The steps of a refresh.
    fn continue_refresh(&mut self, resume: Resume, outcome: Outcome) -> (r: Option<Job>)
        requires
            resume is Preview || resume is Snapshot || resume is LastTarget || resume is Pinned,
        ensures
            (final(self)@, job_view(r)) == continue_step(old(self)@, resume@, outcome@),
    {
        match resume {
            Resume::Preview(then) => match outcome {
                Outcome::Text(t) => {
                    self.preview = t;
                    self.go_on(then)
                },
                _ => self.unexpected_reply(),
            },
            Resume::Snapshot(key, index, then) => match outcome {
                Outcome::Snapshot(snapshot) => {
                    let job = self.tmux.last_target();
                    self.wait_on(Resume::LastTarget(key, index, then, snapshot), job)
                },
                _ => self.unexpected_reply(),
            },
            Resume::LastTarget(key, index, then, snapshot) => match outcome {
                Outcome::Target(t) => {
                    let job = self.tmux.pinned_pane();
                    self.wait_on(Resume::Pinned(key, index, then, snapshot, t), job)
                },
                _ => self.unexpected_reply(),
            },
            Resume::Pinned(key, index, then, snapshot, last) => match outcome {
                Outcome::Value(v) => {
                    self.snapshot = snapshot;
                    self.last_target = last;
                    self.pinned_pane = v;
                    match &key {
                        Some(k) => self.reconcile_selection(Some(k), index),
                        None => self.reconcile_selection(None, index),
                    }
                    self.show_preview_then(then)
                },
                _ => self.unexpected_reply(),
            },
            _ => self.unexpected_reply(),
        }
    }

    /// The end of an operation that changed something.
    #[verifier::rlimit(40)]
    fn continue_operation(&mut self, resume: Resume, outcome: Outcome) -> (r: Option<Job>)
        requires
            !(resume is Preview || resume is Snapshot || resume is LastTarget || resume is Pinned),
        ensures
            (final(self)@, job_view(r)) == continue_step(old(self)@, resume@, outcome@),
    {
        match resume {
            Resume::Saved => match outcome {
                Outcome::Done | Outcome::Text(_) => {
                    self.mode = InputMode::Normal;
                    self.input = String::new();
                    self.status = str_to_string("saved");
                    self.refresh_then(After::Stay)
                },
                _ => self.unexpected_reply(),
            },
            Resume::Removed => match outcome {
                Outcome::Done | Outcome::Text(_) => {
                    self.mode = InputMode::Normal;
                    self.status = str_to_string("removed");
                    self.refresh_then(After::Stay)
                },
                _ => self.unexpected_reply(),
            },
            Resume::Changed(status) => match outcome {
                Outcome::Done | Outcome::Text(_) => {
                    match status {
                        Some(s) => {
                            self.status = s;
                        },
                        None => {},
                    }
                    self.refresh_then(After::Stay)
                },
                _ => self.unexpected_reply(),
            },
            Resume::Created(session) => match outcome {
                Outcome::Text(id) => {
                    self.mode = InputMode::Normal;
                    self.input = String::new();
                    self.status = str_to_string("saved");
                    let pick = match session {
                        Some(s) => Pick::Ids(s, id, String::new()),
                        None => Pick::Session(id),
                    };
                    self.refresh_then(After::Reselect { pick, status: None })
                },
                _ => self.unexpected_reply(),
            },
            Resume::Pasted(w) => match w {
                PasteWait::NewSession => match outcome {
                    Outcome::Text(id) => {
                        self.cut_target = None;
                        let status = Some(str_to_string("pasted session"));
                        self.refresh_then(After::Reselect { pick: Pick::Session(id), status })
                    },
                    _ => self.unexpected_reply(),
                },
                PasteWait::NewWindow(s) => match outcome {
                    Outcome::Text(id) => {
                        self.cut_target = None;
                        let status = Some(str_to_string("pasted window"));
                        self.refresh_then(After::Reselect { pick: Pick::Ids(s, id, String::new()), status })
                    },
                    _ => self.unexpected_reply(),
                },
                PasteWait::Moved(pick, status) => match outcome {
                    Outcome::Done | Outcome::Text(_) => {
                        self.cut_target = None;
                        self.refresh_then(After::Reselect { pick, status: Some(status) })
                    },
                    _ => self.unexpected_reply(),
                },
            },
            Resume::Archived => match outcome {
                Outcome::Text(path) => {
                    let mut status = str_to_string("archived ");
                    push_str(&mut status, path.as_str());
                    self.status = status;
                    None
                },
                _ => self.unexpected_reply(),
            },
            Resume::Attached(target) => match outcome {
                Outcome::Done | Outcome::Text(_) => {
                    self.attach_target = Some(target);
                    self.should_quit = true;
                    None
                },
                _ => self.unexpected_reply(),
            },
            _ => self.unexpected_reply(),
        }
    }

    /// Takes the outcome of the job that the state waits on. A failure shows
    /// its message and ends the operation; otherwise the operation goes on,
    /// and may return the next job to run.
    pub fn resume(&mut self, outcome: Outcome) -> (r: Option<Job>)
        ensures
            (final(self)@, job_view(r)) == resume_step(old(self)@, outcome@),
    {
        let mut pending = Pending::Idle;
        std::mem::swap(&mut pending, &mut self.pending);
        match pending {
            Pending::Idle => None,
            Pending::Waiting(resume) => match outcome {
                Outcome::Failed(message) => {
                    self.status = message;
                    None
                },
                other => self.continue_with(resume, other),
            },
        }
    }
}

// ---------------------------------------------------------------------------
// The selection always names an existing row.
// ---------------------------------------------------------------------------

/// Sizes that fit the machine, as every snapshot read from tmux has.
pub open spec fn bounded(ss: Seq<SessionV>) -> bool {
    &&& ss.len() <= usize::MAX
    &&& forall|i: int| 0 <= i < ss.len() ==> #[trigger] ss[i].windows.len() <= usize::MAX
    &&& forall|i: int, j: int|
        0 <= i < ss.len() && 0 <= j < ss[i].windows.len() ==> #[trigger] ss[i].windows[j].panes.len()
            <= usize::MAX
}

/// The selection, where there is one, names an existing session, window or
/// pane of the snapshot.
pub open spec fn sound(a: AppV) -> bool {
    &&& bounded(a.sessions)
    &&& (a.selection matches Some(sel) ==> valid_selection(a.sessions, sel))
    &&& match a.pending {
        PendingV::Waiting(ResumeV::LastTarget(_, _, _, ss)) => bounded(ss),
        PendingV::Waiting(ResumeV::Pinned(_, _, _, ss, _)) => bounded(ss),
        _ => true,
    }
}

pub open spec fn outcome_bounded(o: OutcomeV) -> bool {
    o matches OutcomeV::Snapshot(ss) ==> bounded(ss)
}

proof fn lemma_rows_valid(ss: Seq<SessionV>, filter: Seq<char>)
    requires
        bounded(ss),
    ensures
        all_valid(ss, visible(ss, filter)),
{
    lemma_visible_valid(ss, crate::text::lowercase(filter), ss.len() as int);
}

proof fn lemma_moved_valid(ss: Seq<SessionV>, filter: Seq<char>, sel: Option<Selection>, delta: int)
    requires
        bounded(ss),
    ensures
        moved(visible(ss, filter), sel, delta) matches Some(x) ==> valid_selection(ss, x),
{
    lemma_rows_valid(ss, filter);
    let v = visible(ss, filter);
    if v.len() > 0 {
        match sel {
            Some(x) => lemma_position(v, same_row(x)),
            None => {},
        }
        let cur = current_index(v, sel);
        let next = if cur + delta < 0 {
            0
        } else if cur + delta > v.len() - 1 {
            v.len() - 1
        } else {
            cur + delta
        };
        assert(valid_selection(ss, v[next]));
    }
}

proof fn lemma_jumped_valid(ss: Seq<SessionV>, filter: Seq<char>, target: int)
    requires
        bounded(ss),
        target >= 0,
    ensures
        jumped(visible(ss, filter), target) matches Some(x) ==> valid_selection(ss, x),
{
    lemma_rows_valid(ss, filter);
    let v = visible(ss, filter);
    if v.len() > 0 {
        let i = if target < v.len() - 1 { target } else { v.len() - 1 };
        assert(valid_selection(ss, v[i]));
    }
}

proof fn lemma_search_from_range(
    ss: Seq<SessionV>,
    vis: Seq<Selection>,
    needle: Seq<char>,
    cur: int,
    forward: bool,
    offset: int,
)
    ensures
        search_from(ss, vis, needle, cur, forward, offset) matches Some(i) ==> 0 <= i < vis.len(),
    decreases vis.len() + 1 - offset,
{
    if offset > vis.len() || vis.len() == 0 || offset < 0 {
    } else {
        let idx = search_pos(cur, vis.len() as int, forward, offset);
        assert(0 <= idx < vis.len()) by {
            vstd::arithmetic::div_mod::lemma_mod_bound(cur + offset, vis.len() as int);
            vstd::arithmetic::div_mod::lemma_mod_bound(
                cur + vis.len() - (offset % (vis.len() as int)),
                vis.len() as int,
            );
        }
        lemma_search_from_range(ss, vis, needle, cur, forward, offset + 1);
    }
}

proof fn lemma_searched_valid(a: AppV, forward: bool, include_current: bool)
    requires
        sound(a),
    ensures
        sound(search_again(a, forward, include_current)),
{
    lemma_rows_valid(a.sessions, a.filter);
    let v = vis(a);
    if a.search.len() > 0 && v.len() > 0 {
        let cur = current_index(v, a.selection);
        let start: int = if include_current { 0 } else { 1 };
        lemma_search_from_range(a.sessions, v, crate::text::lowercase(a.search), cur, forward, start);
        match search_from(a.sessions, v, crate::text::lowercase(a.search), cur, forward, start) {
            Some(idx) => assert(valid_selection(a.sessions, v[idx])),
            None => {},
        }
    }
}

proof fn lemma_reconciled_valid(
    ss: Seq<SessionV>,
    filter: Seq<char>,
    last: Option<KeyV>,
    key: Option<KeyV>,
    index: Option<usize>,
)
    requires
        bounded(ss),
    ensures
        reconciled(ss, filter, last, key, index) matches Some(x) ==> valid_selection(ss, x),
{
    lemma_rows_valid(ss, filter);
    crate::selection::lemma_reconciled_visible(ss, filter, last, key, index);
    let v = visible(ss, filter);
    match reconciled(ss, filter, last, key, index) {
        Some(x) => {
            let i = choose|i: int| 0 <= i < v.len() && v[i] == x;
            assert(valid_selection(ss, v[i]));
        },
        None => {},
    }
}

proof fn lemma_pick_valid(ss: Seq<SessionV>, pick: PickV)
    requires
        bounded(ss),
    ensures
        pick_sel(ss, pick) matches Some(x) ==> valid_selection(ss, x),
{
    match pick {
        PickV::Session(s) => {
            lemma_position(ss, |x: SessionV| x.id == s);
        },
        PickV::Ids(s, w, p) => {
            lemma_position(ss, |x: SessionV| x.id == s);
            match session_index(ss, s) {
                Some(i) => {
                    let sv = ss[i];
                    lemma_position(sv.windows, |x: crate::tmux::WindowV| x.id == w);
                    match window_index(sv, w) {
                        Some(j) => {
                            let wv = sv.windows[j];
                            lemma_position(wv.panes, |x: crate::tmux::PaneV| x.active);
                            lemma_position(wv.panes, |x: crate::tmux::PaneV| x.id == p);
                            assert(wv.panes.len() <= usize::MAX);
                        },
                        None => {},
                    }
                },
                None => {},
            }
        },
    }
}

proof fn lemma_preview_sound(a: AppV, then: AfterV)
    requires
        sound(a),
        !(a.pending is Waiting),
    ensures
        sound(preview_then(a, then).0),
        sound(preview_stay(a).0),
        sound(after_step(a, then).0),
{
    match then {
        AfterV::Reselect(pick, _) => lemma_pick_valid(a.sessions, pick),
        AfterV::Stay => {},
    }
}

proof fn lemma_refilter_sound(a: AppV, f: Seq<char>)
    requires
        sound(a),
    ensures
        sound(refilter(a, f)),
{
    let b = AppV { filter: f, ..a };
    lemma_reconciled_valid(b.sessions, f, b.last_target, sel_key(b), sel_index(b));
}

proof fn lemma_text_sound(a: AppV, key: KeyInput, is_filter: bool)
    requires
        sound(a),
    ensures
        sound(text_step(a, key, is_filter).0),
{
    match key.code {
        Key::Char(ch) => lemma_refilter_sound(AppV { input: a.input.push(ch), ..a }, a.input.push(ch)),
        Key::Backspace => lemma_refilter_sound(
            AppV { input: backspaced(a.input), ..a },
            backspaced(a.input),
        ),
        Key::Esc => lemma_refilter_sound(AppV { mode: ModeV::Normal, input: no_text(), ..a }, no_text()),
        _ => {},
    }
}

#[verifier::spinoff_prover]
#[verifier::rlimit(60)]
proof fn lemma_normal_command_sound(a: AppV, key: KeyInput)
    requires
        sound(a),
        a.pending is Idle,
    ensures
        sound(normal_command(a, key).0),
{
    let c = AppV { count_prefix: None, ..a };
    let k = key.code;
    if k == Key::Char('q') {
    } else if k == Key::Char('n') {
        lemma_searched_valid(c, true, false);
        lemma_preview_sound(search_again(c, true, false), AfterV::Stay);
    } else if k == Key::Char('N') {
        lemma_searched_valid(c, false, false);
        lemma_preview_sound(search_again(c, false, false), AfterV::Stay);
    } else if k == Key::Char('j') || k == Key::Down {
        lemma_moved_valid(c.sessions, c.filter, c.selection, down_delta(a.count_prefix) as int);
    } else if k == Key::Char('k') || k == Key::Up {
        lemma_moved_valid(c.sessions, c.filter, c.selection, up_delta(a.count_prefix) as int);
    } else if k == Key::Char('h') || k == Key::Left || k == Key::Char('g') {
    } else if k == Key::Char('d') || k == Key::Char('D') || k == Key::Char('x') || k == Key::Char('p') || k
        == Key::Char('P') {
    } else if k == Key::Char('G') {
        let target = match a.count_prefix {
            Some(n) => sat_sub1(n as int),
            None => sat_sub1(vis(c).len() as int),
        };
        lemma_jumped_valid(c.sessions, c.filter, target);
    } else {
    }
}

proof fn lemma_normal_sound(a: AppV, key: KeyInput)
    requires
        sound(a),
        a.pending is Idle,
    ensures
        sound(normal_step(a, key).0),
{
    let b = if a.pending_g {
        AppV { pending_g: false, count_prefix: None, ..a }
    } else {
        a
    };
    lemma_jumped_valid(a.sessions, a.filter, 0);
    lemma_normal_command_sound(b, key);
}

proof fn lemma_filter_sound(b: AppV, key: KeyInput)
    requires
        sound(b),
        b.pending is Idle,
    ensures
        sound(filter_step(b, key).0),
{
    lemma_text_sound(b, key, true);
    lemma_preview_sound(AppV { filter: b.input, mode: ModeV::Normal, ..b }, AfterV::Stay);
    lemma_preview_sound(text_step(b, key, true).0, AfterV::Stay);
}

proof fn lemma_search_sound(b: AppV, key: KeyInput)
    requires
        sound(b),
        b.pending is Idle,
    ensures
        sound(search_step(b, key).0),
{
    let e = search_again(AppV { search: b.input, ..b }, true, true);
    lemma_searched_valid(AppV { search: b.input, ..b }, true, true);
    lemma_preview_sound(AppV { mode: ModeV::Normal, input: no_text(), ..e }, AfterV::Stay);
    lemma_text_sound(b, key, false);
    let t = text_step(b, key, false).0;
    lemma_searched_valid(AppV { search: t.input, ..t }, true, true);
    lemma_preview_sound(search_again(AppV { search: t.input, ..t }, true, true), AfterV::Stay);
}

#[verifier::spinoff_prover]
#[verifier::rlimit(40)]
proof fn lemma_command_sound(b: AppV, key: KeyInput)
    requires
        sound(b),
        b.pending is Idle,
    ensures
        sound(command_step(b, key).0),
{
    lemma_text_sound(b, key, false);
}

proof fn lemma_prompt_sound(b: AppV, key: KeyInput, kind: PromptV)
    requires
        sound(b),
        b.pending is Idle,
    ensures
        sound(prompt_step(b, key, kind).0),
{
    lemma_text_sound(b, key, false);
}

/// Every key leaves the selection on an existing row, or on none.
pub proof fn lemma_key_step_sound(a: AppV, key: KeyInput)
    requires
        sound(a),
    ensures
        sound(key_step(a, key).0),
{
    if a.pending is Idle {
        let b = AppV { status: no_text(), ..a };
        match b.mode {
            ModeV::Normal => lemma_normal_sound(b, key),
            ModeV::Filter => lemma_filter_sound(b, key),
            ModeV::Search => lemma_search_sound(b, key),
            ModeV::Command => lemma_command_sound(b, key),
            ModeV::Prompt(kind) => lemma_prompt_sound(b, key, kind),
            ModeV::Confirm(_) => {},
        }
    }
}

/// Every outcome of a job leaves the selection on an existing row, or on
/// none.
#[verifier::spinoff_prover]
#[verifier::rlimit(60)]
pub proof fn lemma_resume_step_sound(a: AppV, o: OutcomeV)
    requires
        sound(a),
        outcome_bounded(o),
    ensures
        sound(resume_step(a, o).0),
{
    match a.pending {
        PendingV::Idle => {},
        PendingV::Waiting(r) => {
            let b = AppV { pending: PendingV::Idle, ..a };
            match r {
                ResumeV::Preview(then) => match o {
                    OutcomeV::Text(t) => lemma_preview_sound(AppV { preview: t, ..b }, then),
                    _ => {},
                },
                ResumeV::Pinned(k, i, then, ss, last) => match o {
                    OutcomeV::Value(v) => {
                        let c = AppV { sessions: ss, last_target: last, pinned_pane: v, ..b };
                        lemma_reconciled_valid(ss, c.filter, last, k, i);
                        let d = AppV { selection: reconciled(ss, c.filter, last, k, i), ..c };
                        lemma_preview_sound(d, then);
                    },
                    _ => {},
                },
                _ => {},
            }
        },
    }
}

// ---------------------------------------------------------------------------
// What the keys promise.
// ---------------------------------------------------------------------------

pub open spec fn plain(code: Key) -> KeyInput {
    KeyInput { code, ctrl: false, shift: false }
}

/// `g` then `g` goes to the first visible row.
pub proof fn lemma_gg_goes_to_top(a: AppV)
    requires
        a.pending is Idle,
        a.mode is Normal,
        !a.pending_g,
    ensures
        ({
            let b = key_step(a, plain(Key::Char('g'))).0;
            let c = key_step(b, plain(Key::Char('g')));
            &&& c.1 is None
            &&& c.0.selection == if vis(a).len() > 0 { Some(vis(a)[0]) } else { None }
            &&& !c.0.pending_g
            &&& c.0.count_prefix is None
        }),
{
}

/// `G` without a count goes to the last visible row; with a count `n` it
/// goes to row `n` (counting from one), or the last row where there are
/// fewer.
pub proof fn lemma_big_g_goes_to_row(a: AppV)
    requires
        a.pending is Idle,
        a.mode is Normal,
        !a.pending_g,
    ensures
        ({
            let v = vis(a);
            let r = key_step(a, plain(Key::Char('G')));
            &&& r.1 is None
            &&& r.0.count_prefix is None
            &&& r.0.selection == if v.len() == 0 {
                None
            } else {
                match a.count_prefix {
                    None => Some(v.last()),
                    Some(n) => if n >= 1 && n <= v.len() {
                        Some(v[n - 1])
                    } else if n == 0 {
                        Some(v[0])
                    } else {
                        Some(v.last())
                    },
                }
            }
        }),
{
}

/// A digit builds a count that the next `j` moves by.
pub proof fn lemma_count_then_down(a: AppV, d: char)
    requires
        a.pending is Idle,
        a.mode is Normal,
        !a.pending_g,
        a.count_prefix is None,
        '1' <= d <= '9',
    ensures
        ({
            let b = key_step(a, plain(Key::Char(d))).0;
            let c = key_step(b, plain(Key::Char('j')));
            &&& b.count_prefix == Some((d as u32 - 48) as usize)
            &&& c.1 is None
            &&& c.0.count_prefix is None
            &&& c.0.selection == moved(vis(a), a.selection, (d as u32 - 48) as int)
        }),
{
    assert(pushed_count(None, (d as u32 - 48) as nat) == (d as u32 - 48) as usize);
}

/// Escape leaves a prompt, the command line, a search or a filter for normal
/// mode with an empty input line; leaving a filter clears it too. Only the
/// filter's preview may need a job.
pub proof fn lemma_escape_cancels(a: AppV)
    requires
        a.pending is Idle,
        !(a.mode is Normal),
    ensures
        ({
            let r = key_step(a, plain(Key::Esc));
            &&& r.0.mode is Normal
            &&& !(a.mode is Confirm) ==> r.0.input.len() == 0
            &&& a.mode is Filter ==> r.0.filter.len() == 0
            &&& !(a.mode is Filter) ==> r.1 is None
        }),
{
}

/// A failed job shows its message on the status line and ends the
/// operation, with nothing else changed.
pub proof fn lemma_failure_reported(a: AppV, message: Seq<char>)
    requires
        a.pending is Waiting,
    ensures
        resume_step(a, OutcomeV::Failed(message)) == (AppV {
            pending: PendingV::Idle,
            status: message,
            ..a
        }, None::<JobV>),
{
}

/// Backspace deletes the last typed character, in every mode that takes
/// typing.
pub proof fn lemma_backspace_deletes_one(a: AppV)
    requires
        a.pending is Idle,
        a.mode is Command || a.mode is Filter || a.mode is Search || a.mode is Prompt,
    ensures
        ({
            let r = key_step(a, plain(Key::Backspace)).0;
            &&& r.input == if a.input.len() > 0 { a.input.drop_last() } else { a.input }
            &&& r.mode == a.mode
            &&& a.mode is Filter ==> r.filter == r.input
        }),
{
}

proof fn lemma_search_from_hits(
    ss: Seq<SessionV>,
    vis: Seq<Selection>,
    needle: Seq<char>,
    cur: int,
    forward: bool,
    offset: int,
)
    ensures
        search_from(ss, vis, needle, cur, forward, offset) matches Some(i) ==> 0 <= i < vis.len() && row_hit(
            ss,
            vis[i],
            needle,
        ),
    decreases vis.len() + 1 - offset,
{
    lemma_search_from_range(ss, vis, needle, cur, forward, offset);
    if !(offset > vis.len() || vis.len() == 0 || offset < 0) {
        lemma_search_from_hits(ss, vis, needle, cur, forward, offset + 1);
    }
}

/// A search never leaves the visible rows: it moves to a visible row whose
/// label starts with the search (ignoring case), or stays where it was.
pub proof fn lemma_search_lands_on_match(a: AppV, forward: bool, include_current: bool)
    ensures
        ({
            let r = search_again(a, forward, include_current).selection;
            let v = vis(a);
            ||| r == a.selection
            ||| r is None && v.len() == 0
            ||| exists|i: int|
                0 <= i < v.len() && r == Some(v[i]) && row_hit(a.sessions, v[i], crate::text::lowercase(a.search))
        }),
{
    let v = vis(a);
    if a.search.len() > 0 && v.len() > 0 {
        let cur = current_index(v, a.selection);
        let start: int = if include_current { 0 } else { 1 };
        let needle = crate::text::lowercase(a.search);
        lemma_search_from_hits(a.sessions, v, needle, cur, forward, start);
        match search_from(a.sessions, v, needle, cur, forward, start) {
            Some(idx) => {
                assert(row_hit(a.sessions, v[idx], needle));
            },
            None => {},
        }
    }
}

/// A refresh keeps the selection on the same session, window or pane,
/// found again by its ids in the new snapshot, wherever it moved to, as
/// long as it is still on screen.
pub proof fn lemma_refresh_keeps_row(
    a: AppV,
    ss: Seq<SessionV>,
    t: Option<(Seq<char>, Option<Seq<char>>, Option<Seq<char>>)>,
    pinned: Option<Seq<char>>,
)
    requires
        a.pending is Idle,
        sel_key(a) is Some,
        sel_from_key(ss, sel_key(a)->0) matches Some(x) && visible(ss, a.filter).contains(x),
    ensures
        ({
            let r1 = refresh_step(a, AfterV::Stay).0;
            let r2 = resume_step(r1, OutcomeV::Snapshot(ss)).0;
            let r3 = resume_step(r2, OutcomeV::Target(t)).0;
            let r4 = resume_step(r3, OutcomeV::Value(pinned)).0;
            &&& r4.sessions == ss
            &&& r4.last_target == target_key(t)
            &&& r4.pinned_pane == pinned
            &&& r4.selection == sel_from_key(ss, sel_key(a)->0)
        }),
{
}

/// Tab moves the focus to the other panel; twice, it comes back.
pub proof fn lemma_tab_toggles_focus(a: AppV)
    requires
        a.pending is Idle,
        a.mode is Normal,
        !a.pending_g,
    ensures
        ({
            let b = key_step(a, plain(Key::Tab));
            let c = key_step(b.0, plain(Key::Tab));
            &&& b.1 is None && c.1 is None
            &&& b.0.focus != a.focus
            &&& c.0.focus == a.focus
            &&& c.0.selection == a.selection
        }),
{
}

/// What a key leaves alone: the snapshot and what was read with it, and
/// where the configuration lives.
pub open spec fn same_reads(a: AppV, b: AppV) -> bool {
    &&& b.sessions == a.sessions
    &&& b.last_target == a.last_target
    &&& b.pinned_pane == a.pinned_pane
    &&& b.conf == a.conf
    &&& b.settings_path == a.settings_path
}

proof fn lemma_archive_reads(a: AppV, whole: bool)
    ensures
        same_reads(a, archive_step(a, whole).0),
{
}

proof fn lemma_paste_reads(a: AppV, peer: bool)
    ensures
        same_reads(a, paste_step(a, peer).0),
{
}

proof fn lemma_preview_reads(a: AppV)
    ensures
        same_reads(a, preview_stay(a).0),
{
}

#[verifier::spinoff_prover]
#[verifier::rlimit(60)]
proof fn lemma_normal_command_reads(a: AppV, key: KeyInput)
    ensures
        same_reads(a, normal_command(a, key).0),
{
    let c = AppV { count_prefix: None, ..a };
    lemma_paste_reads(c, false);
    lemma_paste_reads(c, true);
    lemma_archive_reads(c, false);
    lemma_archive_reads(c, true);
    lemma_preview_reads(search_again(c, true, false));
    lemma_preview_reads(search_again(c, false, false));
}

proof fn lemma_mode_reads(b: AppV, key: KeyInput)
    requires
        b.pending is Idle,
    ensures
        same_reads(
            b,
            match b.mode {
                ModeV::Normal => normal_step(b, key),
                ModeV::Command => command_step(b, key),
                ModeV::Filter => filter_step(b, key),
                ModeV::Search => search_step(b, key),
                ModeV::Prompt(kind) => prompt_step(b, key, kind),
                ModeV::Confirm(c) => confirm_step(b, key, c),
            }.0,
        ),
{
    match b.mode {
        ModeV::Normal => {
            let c = if b.pending_g {
                AppV { pending_g: false, count_prefix: None, ..b }
            } else {
                b
            };
            lemma_normal_command_reads(c, key);
        },
        _ => {},
    }
}

/// A key never changes the snapshot or what was read with it, nor where the
/// configuration lives; only the last step of a refresh takes in what tmux
/// reported.
pub proof fn lemma_keys_keep_snapshot(a: AppV, key: KeyInput)
    ensures
        same_reads(a, key_step(a, key).0),
{
    if a.pending is Idle {
        lemma_mode_reads(AppV { status: no_text(), ..a }, key);
    }
}

/// An id as tmux gives it: not empty, without whitespace.
pub open spec fn plain_id(x: Seq<char>) -> bool {
    x.len() > 0 && no_space(x)
}

pub open spec fn target_parts(t: TargetV) -> (Seq<char>, Option<Seq<char>>, Option<Seq<char>>) {
    match t {
        TargetV::Session(s) => (s, None, None),
        TargetV::Window(s, w) => (s, Some(w), None),
        TargetV::Pane(s, w, p) => (s, Some(w), Some(p)),
    }
}

/// What Enter records is what a refresh reads back: when tmux answers each
/// `show-options` with the value that `remember_job` set (and a newline),
/// the last-target job asks for the three options in turn and ends with
/// the same target.
pub proof fn lemma_last_target_round_trip(t: TargetV)
    requires
        match t {
            TargetV::Session(s) => plain_id(s),
            TargetV::Window(s, w) => plain_id(s) && plain_id(w),
            TargetV::Pane(s, w, p) => plain_id(s) && plain_id(w) && plain_id(p),
        },
    ensures
        ({
            let (s, w, p) = written_parts(t);
            let j0 = fresh(JobKindV::LastTarget);
            let r1 = job_resume(j0, ReplyV::Output(s.push('\n')));
            let r2 = job_resume(r1.0, ReplyV::Output(w.push('\n')));
            let r3 = job_resume(r2.0, ReplyV::Output(p.push('\n')));
            &&& remember_job(t) == script(
                seq![
                    EffectV::Run(set_option_args("@tmuxtui-session"@, s), false),
                    EffectV::Run(set_option_args("@tmuxtui-window"@, w), false),
                    EffectV::Run(set_option_args("@tmuxtui-pane"@, p), false),
                ],
                Finish::Done,
            )
            &&& job_start(j0) == run(show_option_args("@tmuxtui-session"@))
            &&& r1.1 == run(show_option_args("@tmuxtui-window"@))
            &&& r2.1 == run(show_option_args("@tmuxtui-pane"@))
            &&& r3.1 == StepV::Finish(OutcomeV::Target(Some(target_parts(t))))
        }),
{
    let (s, w, p) = written_parts(t);
    assert(no_space(no_text()));
    lemma_trim_line(s);
    lemma_trim_line(w);
    lemma_trim_line(p);
}

/// What `:pin` (or `:unpin`) stores is what a refresh reads back: when tmux
/// answers `show-options` with the stored value and a newline, the
/// pinned-pane job ends with the same pane, or with none.
pub proof fn lemma_pinned_pane_round_trip(pane: Option<Seq<char>>)
    requires
        pane matches Some(p) ==> plain_id(p),
    ensures
        ({
            let stored = match pane {
                Some(p) => p,
                None => no_text(),
            };
            let j0 = fresh(JobKindV::PinnedPane);
            &&& pin_job(pane) == one_command(set_option_args("@tmuxtui-pinned-pane"@, stored), Finish::Done)
            &&& job_start(j0) == run(show_option_args("@tmuxtui-pinned-pane"@))
            &&& job_resume(j0, ReplyV::Output(stored.push('\n'))).1 == StepV::Finish(OutcomeV::Value(pane))
        }),
{
    let stored = match pane {
        Some(p) => p,
        None => no_text(),
    };
    assert(no_space(no_text()));
    lemma_trim_line(stored);
}

fn window_entries_exec(w: &Window, prefix: &str) -> (r: Vec<ArchiveEntry>)
    ensures
        entry_views(r@) == window_entries(w@, prefix@),
{
    let ghost want = window_entries(w@, prefix@);
    let mut out: Vec<ArchiveEntry> = Vec::new();
    let mut k: usize = 0;
    while k < w.panes.len()
        invariant
            0 <= k <= w.panes.len(),
            want == window_entries(w@, prefix@),
            entry_views(out@) =~= want.take(k as int),
        decreases w.panes.len() - k,
    {
        let mut label = str_to_string(prefix);
        push_str(&mut label, pane_label(k).as_str());
        let ghost pre = out@;
        out.push(ArchiveEntry { label, pane_id: w.panes[k].id.clone() });
        assert(entry_views(out@) =~= entry_views(pre).push(want[k as int]));
        k += 1;
    }
    assert(want.take(w.panes.len() as int) =~= want);
    out
}

fn session_entries_exec(s: &Session) -> (r: Vec<ArchiveEntry>)
    ensures
        entry_views(r@) == session_entries(s@, s@.windows.len() as int),
{
    let mut out: Vec<ArchiveEntry> = Vec::new();
    let mut j: usize = 0;
    while j < s.windows.len()
        invariant
            0 <= j <= s.windows.len(),
            entry_views(out@) == session_entries(s@, j as int),
        decreases s.windows.len() - j,
    {
        let w = &s.windows[j];
        let mut prefix = w.name.clone();
        push_str(&mut prefix, ".");
        let part = window_entries_exec(w, prefix.as_str());
        let ghost pre = entry_views(out@);
        let mut k: usize = 0;
        while k < part.len()
            invariant
                0 <= k <= part.len(),
                entry_views(out@) =~= pre + entry_views(part@).take(k as int),
            decreases part.len() - k,
        {
            let e = &part[k];
            let ghost before = out@;
            out.push(ArchiveEntry { label: e.label.clone(), pane_id: e.pane_id.clone() });
            assert(entry_views(out@) =~= entry_views(before).push(entry_views(part@)[k as int]));
            k += 1;
        }
        assert(entry_views(part@).take(part.len() as int) =~= entry_views(part@));
        assert(s@.windows[j as int] == w@);
        j += 1;
    }
    out
}

impl App {
    /// `a` and `A`: archives the chosen panes.
    fn archive_selected(&mut self, whole: bool) -> (r: Option<Job>)
        ensures
            (final(self)@, job_view(r)) == archive_step(old(self)@, whole),
    {
        let ss = &self.snapshot.sessions;
        let choice: Option<(String, Vec<ArchiveEntry>)> = match self.selection {
            Some(Selection::Session(i)) => if i < ss.len() {
                assert(self@.sessions[i as int] == ss@[i as int]@);
                Some((ss[i].name.clone(), session_entries_exec(&ss[i])))
            } else {
                None
            },
            Some(Selection::Window(i, j)) => if i < ss.len() && j < ss[i].windows.len() {
                let w = &ss[i].windows[j];
                assert(self@.sessions[i as int] == ss@[i as int]@);
                assert(self@.sessions[i as int].windows[j as int] == w@);
                let mut all = window_entries_exec(w, "");
                proof {
                    reveal_strlit("");
                    assert(""@ =~= no_text());
                }
                let ghost full = entry_views(all@);
                if !whole && all.len() > 0 {
                    all.truncate(1);
                    assert(entry_views(all@) =~= full.take(1));
                }
                Some((w.name.clone(), all))
            } else {
                None
            },
            Some(Selection::Pane(i, j, k)) => if i < ss.len() && j < ss[i].windows.len() && k
                < ss[i].windows[j].panes.len() {
                let w = &ss[i].windows[j];
                assert(self@.sessions[i as int] == ss@[i as int]@);
                assert(self@.sessions[i as int].windows[j as int] == w@);
                assert(w@.panes[k as int] == w.panes@[k as int]@);
                if whole {
                    let all = window_entries_exec(w, "");
                    proof {
                        reveal_strlit("");
                        assert(""@ =~= no_text());
                    }
                    Some((w.name.clone(), all))
                } else {
                    let mut name = w.name.clone();
                    push_str(&mut name, "-");
                    push_str(&mut name, pane_label(k).as_str());
                    let mut one: Vec<ArchiveEntry> = Vec::new();
                    one.push(ArchiveEntry { label: pane_label(k), pane_id: w.panes[k].id.clone() });
                    assert(entry_views(one@) =~= seq![(pane_label_spec(k as nat), w@.panes[k as int].id)]);
                    Some((name, one))
                }
            } else {
                None
            },
            None => None,
        };
        match choice {
            Some((name, entries)) => {
                let job = self.tmux.archive_panes(name.as_str(), entries);
                self.wait_on(Resume::Archived, job)
            },
            None => None,
        }
    }
}

/// `A` on a window's row archives that window: one entry for each of its
/// panes, in order, under its pane label; `a` there archives only the pane
/// the row stands for, the first.
pub proof fn lemma_archive_keys_on_window(a: AppV, i: usize, j: usize)
    requires
        a.pending is Idle,
        a.mode is Normal,
        !a.pending_g,
        a.selection == Some(Selection::Window(i, j)),
        valid_selection(a.sessions, Selection::Window(i, j)),
    ensures
        ({
            let w = a.sessions[i as int].windows[j as int];
            let big = key_step(a, plain(Key::Char('A')));
            let small = key_step(a, plain(Key::Char('a')));
            &&& big.1 == Some(fresh(JobKindV::Archive(archive_dir_of(a.conf), w.name, window_entries(w, no_text()))))
            &&& window_entries(w, no_text()).len() == w.panes.len()
            &&& forall|k: int| 0 <= k < w.panes.len() ==> #[trigger] window_entries(w, no_text())[k] == (
                pane_label_spec(k as nat),
                w.panes[k].id,
            )
            &&& small.1 == Some(fresh(JobKindV::Archive(
                archive_dir_of(a.conf),
                w.name,
                if w.panes.len() == 0 { seq![] } else { seq![(pane_label_spec(0), w.panes[0].id)] },
            )))
            &&& big.0.pending == PendingV::Waiting(ResumeV::Archived)
        }),
{
    let w = a.sessions[i as int].windows[j as int];
    let all = window_entries(w, no_text());
    assert forall|k: int| 0 <= k < w.panes.len() implies #[trigger] all[k] == (pane_label_spec(k as nat), w.panes[k].id) by {
        assert(no_text() + pane_label_spec(k as nat) =~= pane_label_spec(k as nat));
    }
    if w.panes.len() > 0 {
        assert(all.take(1) =~= seq![(pane_label_spec(0), w.panes[0].id)]);
    } else {
        assert(all =~= seq![]);
    }
}

// ---------------------------------------------------------------------------
// What the tmux commands behind the keys are.
// ---------------------------------------------------------------------------

/// Attaching to a pane while another pane is pinned: tmux is asked for the
/// pinned pane and for the window it is in; when that window is not the
/// target's, the pinned pane is joined next to the target pane (`join-pane
/// -h -f -s <pinned> -t <target>`) before the target window and pane are
/// selected and the session attached; when it is already there, nothing is
/// joined. With no pinned pane the target is selected at once, and a pinned
/// pane whose window tmux cannot tell is forgotten.
pub proof fn lemma_attach_joins_pinned_pane(sid: Seq<char>, wid: Seq<char>, pid: Seq<char>, pin: Seq<char>, pin_window: Seq<char>, err: Seq<char>)
    requires
        plain_id(pin),
        plain_id(pin_window),
    ensures
        ({
            let ok = ReplyV::Output(Seq::<char>::empty());
            let select_window = StepV::Perform(EffectV::Run(seq!["select-window"@, "-t"@, wid], false));
            let select_pane = StepV::Perform(EffectV::Run(seq!["select-pane"@, "-t"@, pid], false));
            let attach = StepV::Perform(EffectV::Attach(seq!["attach-session"@, "-t"@, sid]));
            let j0 = fresh(JobKindV::Attach(TargetV::Pane(sid, wid, pid)));
            let r1 = job_resume(j0, ReplyV::Output(pin.push('\n')));
            let r2 = job_resume(r1.0, ReplyV::Output(pin_window.push('\n')));
            let r3 = job_resume(r2.0, ok);
            let r4 = job_resume(r3.0, ok);
            let r5 = job_resume(r4.0, ok);
            &&& job_start(j0) == StepV::Perform(
                EffectV::Run(seq!["show-options"@, "-gqv"@, "@tmuxtui-pinned-pane"@], false),
            )
            &&& r1.1 == StepV::Perform(
                EffectV::Run(seq!["display-message"@, "-p"@, "-t"@, pin, "#{window_id}"@], false),
            )
            &&& pin_window != wid ==> {
                &&& r2.1 == StepV::Perform(
                    EffectV::Run(seq!["join-pane"@, "-h"@, "-f"@, "-s"@, pin, "-t"@, pid], false),
                )
                &&& r3.1 == select_window
                &&& r4.1 == select_pane
                &&& r5.1 == attach
            }
            &&& pin_window == wid ==> {
                &&& r2.1 == select_window
                &&& r3.1 == select_pane
                &&& r4.1 == attach
            }
            &&& job_resume(j0, ReplyV::Output(Seq::<char>::empty().push('\n'))).1 == select_window
            &&& job_resume(r1.0, ReplyV::Failure(err)).1 == StepV::Perform(
                EffectV::Run(seq!["set-option"@, "-gq"@, "@tmuxtui-pinned-pane"@, Seq::<char>::empty()], false),
            )
        }),
{
    lemma_trim_line(pin);
    lemma_trim_line(pin_window);
    lemma_trim_line(Seq::<char>::empty());
}

/// Attaching to a session while another pane is pinned: the pinned pane
/// joins the session's active pane (as tmux reports it, with its window)
/// unless it is in that window already; then the session is attached.
pub proof fn lemma_attach_session_joins_pinned_pane(
    sid: Seq<char>,
    pin: Seq<char>,
    target_pane: Seq<char>,
    target_window: Seq<char>,
    pin_window: Seq<char>,
)
    requires
        plain_id(pin),
        plain_id(target_pane),
        plain_id(target_window),
        plain_id(pin_window),
    ensures
        ({
            let ok = ReplyV::Output(Seq::<char>::empty());
            let attach = StepV::Perform(EffectV::Attach(seq!["attach-session"@, "-t"@, sid]));
            let j0 = fresh(JobKindV::Attach(TargetV::Session(sid)));
            let r1 = job_resume(j0, ReplyV::Output(pin.push('\n')));
            let r2 = job_resume(r1.0, ReplyV::Output(target_pane.push('\n')));
            let r3 = job_resume(r2.0, ReplyV::Output(target_window.push('\n')));
            let r4 = job_resume(r3.0, ReplyV::Output(pin_window.push('\n')));
            let r5 = job_resume(r4.0, ok);
            &&& r1.1 == StepV::Perform(
                EffectV::Run(seq!["display-message"@, "-p"@, "-t"@, sid, "#{pane_id}"@], false),
            )
            &&& r2.1 == StepV::Perform(
                EffectV::Run(seq!["display-message"@, "-p"@, "-t"@, target_pane, "#{window_id}"@], false),
            )
            &&& r3.1 == StepV::Perform(
                EffectV::Run(seq!["display-message"@, "-p"@, "-t"@, pin, "#{window_id}"@], false),
            )
            &&& pin_window != target_window ==> {
                &&& r4.1 == StepV::Perform(
                    EffectV::Run(seq!["join-pane"@, "-h"@, "-f"@, "-s"@, pin, "-t"@, target_pane], false),
                )
                &&& r5.1 == attach
            }
            &&& pin_window == target_window ==> r4.1 == attach
            &&& job_resume(j0, ReplyV::Output(Seq::<char>::empty().push('\n'))).1 == attach
        }),
{
    lemma_trim_line(pin);
    lemma_trim_line(target_pane);
    lemma_trim_line(target_window);
    lemma_trim_line(pin_window);
    lemma_trim_line(Seq::<char>::empty());
}

/// The same for a window: the pinned pane joins the window's active pane
/// (as tmux reports it) unless it is in that window already.
pub proof fn lemma_attach_window_joins_pinned_pane(
    sid: Seq<char>,
    wid: Seq<char>,
    pin: Seq<char>,
    target_pane: Seq<char>,
    pin_window: Seq<char>,
)
    requires
        plain_id(pin),
        plain_id(target_pane),
        plain_id(pin_window),
    ensures
        ({
            let j0 = fresh(JobKindV::Attach(TargetV::Window(sid, wid)));
            let r1 = job_resume(j0, ReplyV::Output(pin.push('\n')));
            let r2 = job_resume(r1.0, ReplyV::Output(target_pane.push('\n')));
            let r3 = job_resume(r2.0, ReplyV::Output(pin_window.push('\n')));
            &&& r1.1 == StepV::Perform(
                EffectV::Run(seq!["display-message"@, "-p"@, "-t"@, wid, "#{pane_id}"@], false),
            )
            &&& r2.1 == StepV::Perform(
                EffectV::Run(seq!["display-message"@, "-p"@, "-t"@, pin, "#{window_id}"@], false),
            )
            &&& pin_window != wid ==> r3.1 == StepV::Perform(
                EffectV::Run(seq!["join-pane"@, "-h"@, "-f"@, "-s"@, pin, "-t"@, target_pane], false),
            )
            &&& pin_window == wid ==> r3.1 == StepV::Perform(
                EffectV::Run(seq!["select-window"@, "-t"@, wid], false),
            )
        }),
{
    lemma_trim_line(pin);
    lemma_trim_line(target_pane);
    lemma_trim_line(pin_window);
}

/// Confirming a kill with `y` runs the tmux command for what was chosen:
/// `kill-session`, `kill-window` or `kill-pane` with its id.
pub proof fn lemma_confirm_kills(a: AppV, id: Seq<char>, name: Seq<char>)
    requires
        a.pending is Idle,
    ensures
        key_step(AppV { mode: ModeV::Confirm(ConfirmV::KillWindow(id, name)), ..a }, plain(Key::Char('y'))).1
            == Some(script(seq![EffectV::Run(seq!["kill-window"@, "-t"@, id], false)], Finish::Done)),
        key_step(AppV { mode: ModeV::Confirm(ConfirmV::KillPane(id, name)), ..a }, plain(Key::Char('y'))).1
            == Some(script(seq![EffectV::Run(seq!["kill-pane"@, "-t"@, id], false)], Finish::Done)),
        key_step(AppV { mode: ModeV::Confirm(ConfirmV::KillSession(id, name)), ..a }, plain(Key::Char('y'))).1
            == Some(script(seq![EffectV::Run(seq!["kill-session"@, "-t"@, id], false)], Finish::Done)),
{
}

/// `s` splits the selected pane top and bottom (`-v`), `S` side by side
/// (`-h`), each starting in the pane's directory.
#[verifier::spinoff_prover]
#[verifier::rlimit(60)]
pub proof fn lemma_split_orientation(a: AppV, i: usize, j: usize, k: usize)
    requires
        a.pending is Idle,
        a.mode is Normal,
        !a.pending_g,
        a.selection == Some(Selection::Pane(i, j, k)),
        valid_selection(a.sessions, Selection::Pane(i, j, k)),
    ensures
        ({
            let p = a.sessions[i as int].windows[j as int].panes[k as int].id;
            let cmd = |dir: Seq<char>|
                seq![
                    "split-window"@,
                    "-P"@,
                    "-F"@,
                    "#{pane_id}"@,
                    "-t"@,
                    p,
                    "-c"@,
                    "#{pane_current_path}"@,
                    dir,
                ];
            &&& key_step(a, plain(Key::Char('s'))).1 == Some(
                script(seq![EffectV::Run(cmd("-v"@), false)], Finish::Trimmed),
            )
            &&& key_step(a, plain(Key::Char('S'))).1 == Some(
                script(seq![EffectV::Run(cmd("-h"@), false)], Finish::Trimmed),
            )
        }),
{
}

/// Pasting a cut pane onto a pane of another window moves the cut pane
/// there: `join-pane -h -f -s <cut pane> -t <destination pane>`, with `p` or
/// `P` on the destination's own row, or `p` on the row of a window with one
/// pane.
#[verifier::spinoff_prover]
#[verifier::rlimit(60)]
pub proof fn lemma_paste_pane_joins_cut_pane(a: AppV, cut_window: Seq<char>, cut_pane: Seq<char>, name: Seq<char>, i: usize, j: usize, k: usize)
    requires
        a.pending is Idle,
        a.mode is Normal,
        !a.pending_g,
        a.cut_target == Some(CutV::Pane(cut_window, cut_pane, name)),
        valid_selection(a.sessions, Selection::Pane(i, j, k)),
        a.sessions[i as int].windows[j as int].id != cut_window,
    ensures
        ({
            let w = a.sessions[i as int].windows[j as int];
            let join = |target: Seq<char>|
                Some(
                    script(
                        seq![
                            EffectV::Run(
                                seq!["join-pane"@, "-h"@, "-f"@, "-s"@, cut_pane, "-t"@, target],
                                false,
                            ),
                        ],
                        Finish::Done,
                    ),
                );
            let on_pane = AppV { selection: Some(Selection::Pane(i, j, k)), ..a };
            let on_window = AppV { selection: Some(Selection::Window(i, j)), ..a };
            &&& key_step(on_pane, plain(Key::Char('p'))).1 == join(w.panes[k as int].id)
            &&& key_step(on_pane, plain(Key::Char('P'))).1 == join(w.panes[k as int].id)
            &&& w.panes.len() == 1 ==> key_step(on_window, plain(Key::Char('p'))).1 == join(w.panes[0].id)
        }),
{
    let w = a.sessions[i as int].windows[j as int];
    if w.panes.len() == 1 {
        crate::app::lemma_position(w.panes, |p: crate::tmux::PaneV| p.active);
    }
}

/// A pane is not pasted into the window it was cut from: nothing is run.
#[verifier::spinoff_prover]
#[verifier::rlimit(60)]
pub proof fn lemma_paste_pane_into_own_window(a: AppV, cut_pane: Seq<char>, name: Seq<char>, i: usize, j: usize, k: usize)
    requires
        a.pending is Idle,
        a.mode is Normal,
        !a.pending_g,
        valid_selection(a.sessions, Selection::Pane(i, j, k)),
        a.cut_target == Some(CutV::Pane(a.sessions[i as int].windows[j as int].id, cut_pane, name)),
    ensures
        ({
            let on_pane = AppV { selection: Some(Selection::Pane(i, j, k)), ..a };
            let r = key_step(on_pane, plain(Key::Char('p')));
            &&& r.1 is None
            &&& r.0.status == "pane already in window"@
            &&& r.0.sessions == a.sessions
            &&& r.0.cut_target == a.cut_target
        }),
{
}

/// `p` on a session's row moves what was cut into that session: a cut
/// window with `move-window -s <window> -t <session>:` (unless it is in that
/// session already, when nothing is run), a cut pane with `break-pane` into
/// a new window there.
#[verifier::spinoff_prover]
#[verifier::rlimit(60)]
pub proof fn lemma_paste_into_session(a: AppV, cut_session: Seq<char>, cut_window: Seq<char>, cut_pane: Seq<char>, name: Seq<char>, i: usize)
    requires
        a.pending is Idle,
        a.mode is Normal,
        !a.pending_g,
        valid_selection(a.sessions, Selection::Session(i)),
    ensures
        ({
            let sid = a.sessions[i as int].id;
            let on_session = AppV { selection: Some(Selection::Session(i)), ..a };
            let with_window = AppV { cut_target: Some(CutV::Window(cut_session, cut_window, name)), ..on_session };
            let with_pane = AppV { cut_target: Some(CutV::Pane(cut_window, cut_pane, name)), ..on_session };
            let rw = key_step(with_window, plain(Key::Char('p')));
            &&& sid != cut_session ==> rw.1 == Some(
                script(
                    seq![EffectV::Run(seq!["move-window"@, "-s"@, cut_window, "-t"@, sid + ":"@], false)],
                    Finish::Done,
                ),
            )
            &&& sid == cut_session ==> rw.1 is None && rw.0.status == "window already in session"@
            &&& key_step(with_pane, plain(Key::Char('p'))).1 == Some(
                script(
                    seq![
                        EffectV::Run(
                            seq![
                                "break-pane"@,
                                "-d"@,
                                "-P"@,
                                "-F"@,
                                "#{window_id}"@,
                                "-s"@,
                                cut_pane,
                                "-t"@,
                                sid + ":"@,
                            ],
                            false,
                        ),
                    ],
                    Finish::Trimmed,
                ),
            )
        }),
{
}

/// On a window's row, `s` and `S` split the window's first pane, top and
/// bottom (`-v`) and side by side (`-h`).
#[verifier::spinoff_prover]
#[verifier::rlimit(60)]
pub proof fn lemma_split_window_row(a: AppV, i: usize, j: usize)
    requires
        a.pending is Idle,
        a.mode is Normal,
        !a.pending_g,
        a.selection == Some(Selection::Window(i, j)),
        valid_selection(a.sessions, Selection::Window(i, j)),
        a.sessions[i as int].windows[j as int].panes.len() > 0,
    ensures
        ({
            let p = a.sessions[i as int].windows[j as int].panes[0].id;
            let cmd = |dir: Seq<char>|
                seq![
                    "split-window"@,
                    "-P"@,
                    "-F"@,
                    "#{pane_id}"@,
                    "-t"@,
                    p,
                    "-c"@,
                    "#{pane_current_path}"@,
                    dir,
                ];
            &&& key_step(a, plain(Key::Char('s'))).1 == Some(
                script(seq![EffectV::Run(cmd("-v"@), false)], Finish::Trimmed),
            )
            &&& key_step(a, plain(Key::Char('S'))).1 == Some(
                script(seq![EffectV::Run(cmd("-h"@), false)], Finish::Trimmed),
            )
        }),
{
}

/// `D` then `y` removes the whole window of the selected window or pane
/// row (`kill-window -t <window>`); `d` then `y` on a pane row removes only
/// that pane (`kill-pane -t <pane>`); `n` or Esc in place of `y` runs
/// nothing and goes back to normal mode.
#[verifier::spinoff_prover]
#[verifier::rlimit(80)]
pub proof fn lemma_kill_then_confirm(a: AppV, i: usize, j: usize, k: usize)
    requires
        a.pending is Idle,
        a.mode is Normal,
        !a.pending_g,
        valid_selection(a.sessions, Selection::Pane(i, j, k)),
    ensures
        ({
            let w = a.sessions[i as int].windows[j as int];
            let on_window = AppV { selection: Some(Selection::Window(i, j)), ..a };
            let on_pane = AppV { selection: Some(Selection::Pane(i, j, k)), ..a };
            let kill_window = Some(
                script(seq![EffectV::Run(seq!["kill-window"@, "-t"@, w.id], false)], Finish::Done),
            );
            let big_w = key_step(on_window, plain(Key::Char('D'))).0;
            let big_p = key_step(on_pane, plain(Key::Char('D'))).0;
            let small_p = key_step(on_pane, plain(Key::Char('d'))).0;
            &&& key_step(big_w, plain(Key::Char('y'))).1 == kill_window
            &&& key_step(big_p, plain(Key::Char('y'))).1 == kill_window
            &&& key_step(small_p, plain(Key::Char('y'))).1 == Some(
                script(seq![EffectV::Run(seq!["kill-pane"@, "-t"@, w.panes[k as int].id], false)], Finish::Done),
            )
            &&& key_step(big_w, plain(Key::Char('n'))).1 is None
            &&& key_step(big_w, plain(Key::Char('n'))).0.mode is Normal
            &&& key_step(big_w, plain(Key::Esc)).1 is None
            &&& key_step(big_w, plain(Key::Esc)).0.mode is Normal
        }),
{
}

} // verus!
