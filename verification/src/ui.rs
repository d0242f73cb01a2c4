//! What the screen shows, as text: the tree lines with their markers, the
//! preview header, the footer hints and the input line. Laying it out on the
//! terminal is left to the caller.
use vstd::prelude::*;

use crate::app::{
    App, AppV, ConfirmAction, ConfirmV, InputMode, ModeV, PromptKind, PromptV, Selection,
    active_window, or_first, valid_selection,
};
use crate::rows::{pane_label, pane_label_spec, window_label};
use crate::selection::{find_active_window, opt_int, or_first_exec};
use crate::targets::{base_pane, base_pane_exec};
use crate::text::{chars_of, push_char, push_str, str_to_string, string_of_range};
use crate::keys::vis;
use crate::tmux::{SessionV, Window, WindowV};
use crate::tmux_ops::string_views;

pub use crate::rows::window_tree_label;

verus! {

/// A footer hint: a key and what it does.
pub struct Action {
    pub key: String,
    pub label: String,
}

impl View for Action {
    type V = (Seq<char>, Seq<char>);

    open spec fn view(&self) -> (Seq<char>, Seq<char>) {
        (self.key@, self.label@)
    }
}

impl Action {
    pub fn new(key: &str, label: &str) -> (r: Action)
        ensures
            r@ == (key@, label@),
    {
        Action { key: str_to_string(key), label: str_to_string(label) }
    }
}

pub open spec fn action_views(v: Seq<Action>) -> Seq<(Seq<char>, Seq<char>)> {
    v.map_values(|a: Action| a@)
}

/// The footer hints: none when hints are hidden, how to confirm or cancel
/// while typing, and the main keys otherwise.
pub open spec fn footer_actions(show_hints: bool, normal: bool) -> Seq<(Seq<char>, Seq<char>)> {
    if !show_hints {
        seq![]
    } else if !normal {
        seq![("enter"@, "confirm"@), ("esc"@, "cancel"@)]
    } else {
        seq![
            ("enter"@, "attach"@),
            (":"@, "command"@),
            ("j/k"@, "move"@),
            ("/"@, "search"@),
            ("n/N"@, "next/prev"@),
            ("f"@, "filter"@),
            ("o/O"@, "new child/peer"@),
            ("x/p/P"@, "cut/paste"@),
            ("r"@, "rename"@),
            ("d"@, "kill"@),
            ("s/S"@, "split"@),
            ("z"@, "zoom"@),
            ("tab"@, "focus"@),
            ("^q"@, "leave tmux"@),
            ("q"@, "quit"@),
        ]
    }
}

fn push_action(v: &mut Vec<Action>, key: &str, label: &str)
    ensures
        action_views(final(v)@) == action_views(old(v)@).push((key@, label@)),
{
    let ghost pre = v@;
    v.push(Action::new(key, label));
    assert(action_views(v@) =~= action_views(pre).push((key@, label@)));
}

impl App {
    /// The footer hints for the current settings and mode.
    pub fn actions(&self) -> (r: Vec<Action>)
        ensures
            action_views(r@) == footer_actions(self.tmux.settings_spec().show_hints, self.mode@ is Normal),
    {
        let mut v: Vec<Action> = Vec::new();
        assert(action_views(v@) =~= seq![]);
        if !self.tmux.show_hints() {
            return v;
        }
        if let InputMode::Normal = self.mode {
            push_action(&mut v, "enter", "attach");
            push_action(&mut v, ":", "command");
            push_action(&mut v, "j/k", "move");
            push_action(&mut v, "/", "search");
            push_action(&mut v, "n/N", "next/prev");
            push_action(&mut v, "f", "filter");
            push_action(&mut v, "o/O", "new child/peer");
            push_action(&mut v, "x/p/P", "cut/paste");
            push_action(&mut v, "r", "rename");
            push_action(&mut v, "d", "kill");
            push_action(&mut v, "s/S", "split");
            push_action(&mut v, "z", "zoom");
            push_action(&mut v, "tab", "focus");
            push_action(&mut v, "^q", "leave tmux");
            push_action(&mut v, "q", "quit");
        } else {
            push_action(&mut v, "enter", "confirm");
            push_action(&mut v, "esc", "cancel");
        }
        assert(action_views(v@) =~= footer_actions(true, self.mode@ is Normal));
        v
    }
}

/// The tree label of the pane at `pane_idx`.
pub fn pane_tree_label(pane_idx: usize) -> (r: String)
    requires
        pane_idx < usize::MAX,
    ensures
        r@ == pane_label_spec(pane_idx as nat),
{
    pane_label(pane_idx)
}

pub open spec fn spaces(n: nat) -> Seq<char> {
    Seq::new(n, |i: int| ' ')
}

/// The tree line of a pane: under a window with several panes it starts
/// where the window's ` 1` suffix stands.
pub open spec fn pane_line(w: WindowV, pane_idx: nat, zoom: Seq<char>) -> Seq<char> {
    if w.panes.len() > 1 {
        spaces(w.name.len() + 3) + pane_label_spec(pane_idx) + zoom
    } else {
        spaces(4) + pane_label_spec(pane_idx) + zoom
    }
}

fn push_spaces(s: &mut String, n: usize)
    ensures
        final(s)@ == old(s)@ + spaces(n as nat),
{
    let mut i: usize = 0;
    while i < n
        invariant
            0 <= i <= n,
            s@ == old(s)@ + spaces(i as nat),
        decreases n - i,
    {
        push_char(s, ' ');
        i += 1;
        assert(s@ =~= old(s)@ + spaces(i as nat));
    }
}

pub fn pane_tree_line(window: &Window, pane_idx: usize, zoom_suffix: &str) -> (r: String)
    requires
        pane_idx < usize::MAX,
    ensures
        r@ == pane_line(window@, pane_idx as nat, zoom_suffix@),
{
    let mut s = String::new();
    if window.panes.len() > 1 {
        let width = window.name.as_str().unicode_len();
        push_spaces(&mut s, width);
        push_spaces(&mut s, 3);
        assert(spaces(width as nat) + spaces(3) =~= spaces(width as nat + 3));
        assert(s@ =~= spaces(window@.name.len() + 3));
    } else {
        push_spaces(&mut s, 4);
        assert(s@ =~= spaces(4));
    }
    push_str(&mut s, pane_label(pane_idx).as_str());
    push_str(&mut s, zoom_suffix);
    s
}

/// How many spaces a line starts with.
pub open spec fn leading_spaces(s: Seq<char>) -> nat
    decreases s.len(),
{
    if s.len() > 0 && s[0] == ' ' {
        1 + leading_spaces(s.drop_first())
    } else {
        0
    }
}

/// The marker of a row: `☼` for a caffeinated target, then `⚲` for the
/// pinned pane.
pub open spec fn marker_of(pinned: bool, caffeinated: bool) -> Seq<char> {
    (if caffeinated { seq!['☼'] } else { seq![] }) + (if pinned { seq!['⚲'] } else { seq![] })
}

/// Puts the marker in place of the line's leading spaces.
pub open spec fn replaced(line: Seq<char>, marker: Seq<char>) -> Seq<char> {
    let lead = leading_spaces(line);
    if lead >= marker.len() {
        marker + line.skip(marker.len() as int)
    } else if lead > 0 {
        marker + line.skip(lead as int)
    } else {
        marker + seq![' '] + line
    }
}

pub open spec fn marked(line: Seq<char>, pinned: bool, caffeinated: bool) -> Seq<char> {
    let marker = marker_of(pinned, caffeinated);
    if marker.len() == 0 {
        line
    } else {
        replaced(line, marker)
    }
}

proof fn lemma_leading_spaces(s: Seq<char>)
    ensures
        leading_spaces(s) <= s.len(),
        forall|i: int| 0 <= i < leading_spaces(s) ==> s[i] == ' ',
        leading_spaces(s) < s.len() ==> s[leading_spaces(s) as int] != ' ',
    decreases s.len(),
{
    if s.len() > 0 && s[0] == ' ' {
        lemma_leading_spaces(s.drop_first());
        assert forall|i: int| 0 <= i < leading_spaces(s) implies s[i] == ' ' by {
            if i > 0 {
                assert(s[i] == s.drop_first()[i - 1]);
            }
        }
    }
}

fn count_leading_spaces(v: &Vec<char>) -> (r: usize)
    ensures
        r == leading_spaces(v@),
{
    proof {
        lemma_leading_spaces(v@);
    }
    let mut k: usize = 0;
    while k < v.len() && v[k] == ' '
        invariant
            0 <= k <= v.len(),
            k <= leading_spaces(v@),
            leading_spaces(v@) <= v@.len(),
            forall|i: int| 0 <= i < leading_spaces(v@) ==> v@[i] == ' ',
            leading_spaces(v@) < v@.len() ==> v@[leading_spaces(v@) as int] != ' ',
        decreases v.len() - k,
    {
        k += 1;
    }
    k
}

/// Puts the marker in place of the line's leading spaces, so that the
/// label keeps its column where there is room.
pub fn replace_leading_spaces(line: &str, marker: &str) -> (r: String)
    ensures
        r@ == replaced(line@, marker@),
{
    let v = chars_of(line);
    let m = marker.unicode_len();
    let lead = count_leading_spaces(&v);
    let mut out = str_to_string(marker);
    if lead >= m {
        proof {
            lemma_leading_spaces(line@);
        }
        push_str(&mut out, string_of_range(&v, m, v.len()).as_str());
    } else if lead > 0 {
        proof {
            lemma_leading_spaces(line@);
        }
        push_str(&mut out, string_of_range(&v, lead, v.len()).as_str());
    } else {
        push_char(&mut out, ' ');
        push_str(&mut out, line);
    }
    out
}

/// Marks the row of the pinned pane or of a caffeinated target.
pub fn marker_column(line: String, pinned: bool, caffeinated: bool) -> (r: String)
    ensures
        r@ == marked(line@, pinned, caffeinated),
{
    let mut marker = String::new();
    if caffeinated {
        push_char(&mut marker, '☼');
    }
    if pinned {
        push_char(&mut marker, '⚲');
    }
    assert(marker@ =~= marker_of(pinned, caffeinated));
    if marker.as_str().unicode_len() == 0 {
        line
    } else {
        replace_leading_spaces(line.as_str(), marker.as_str())
    }
}

/// A marker in place of leading spaces leaves the rest of the line where it
/// was: the line keeps its length and every character after the marker.
pub proof fn lemma_marker_keeps_columns(line: Seq<char>, pinned: bool, caffeinated: bool)
    requires
        leading_spaces(line) >= marker_of(pinned, caffeinated).len(),
    ensures
        marked(line, pinned, caffeinated).len() == line.len(),
        forall|i: int|
            marker_of(pinned, caffeinated).len() <= i < line.len() ==> #[trigger] marked(line, pinned, caffeinated)[i]
                == line[i],
{
    lemma_leading_spaces(line);
}

pub open spec fn session_text(name: Seq<char>, caffeinated: bool) -> Seq<char> {
    if caffeinated {
        name + seq![' ', '☼']
    } else {
        name
    }
}

/// A session's tree label, with the caffeinated marker after the name.
pub fn session_label(name: &str, caffeinated: bool) -> (r: String)
    ensures
        r@ == session_text(name@, caffeinated),
{
    let mut s = str_to_string(name);
    if caffeinated {
        push_char(&mut s, ' ');
        push_char(&mut s, '☼');
        assert(s@ =~= name@ + seq![' ', '☼']);
    }
    s
}

pub open spec fn prompt_text(kind: PromptV) -> Seq<char> {
    match kind {
        PromptV::NewSession => "new session"@,
        PromptV::NewWindow(_) => "new window"@,
        PromptV::RenameSession(_) => "rename session"@,
        PromptV::RenameWindow(_) => "rename window"@,
        PromptV::RenamePane(_) => "rename pane"@,
    }
}

pub fn prompt_label(kind: &PromptKind) -> (r: &'static str)
    ensures
        r@ == prompt_text(kind@),
{
    match kind {
        PromptKind::NewSession => "new session",
        PromptKind::NewWindow { .. } => "new window",
        PromptKind::RenameSession { .. } => "rename session",
        PromptKind::RenameWindow { .. } => "rename window",
        PromptKind::RenamePane { .. } => "rename pane",
    }
}

pub open spec fn confirm_text(action: ConfirmV) -> Seq<char> {
    match action {
        ConfirmV::KillSession(_, name) => "kill session "@ + name + "? y/n"@,
        ConfirmV::KillWindow(_, name) => "kill window "@ + name + "? y/n"@,
        ConfirmV::KillPane(_, name) => "kill pane "@ + name + "? y/n"@,
    }
}

pub fn confirm_label(action: &ConfirmAction) -> (r: String)
    ensures
        r@ == confirm_text(action@),
{
    let (head, name) = match action {
        ConfirmAction::KillSession { name, .. } => ("kill session ", name),
        ConfirmAction::KillWindow { name, .. } => ("kill window ", name),
        ConfirmAction::KillPane { name, .. } => ("kill pane ", name),
    };
    let mut s = str_to_string(head);
    push_str(&mut s, name.as_str());
    push_str(&mut s, "? y/n");
    s
}

/// A line of the tree: its text, and whether it is the selected row, an
/// active one, or a session's (shown bold).
pub struct TreeLine {
    pub text: String,
    pub selected: bool,
    pub active: bool,
    pub bold: bool,
}

pub struct TreeLineV {
    pub text: Seq<char>,
    pub selected: bool,
    pub active: bool,
    pub bold: bool,
}

impl View for TreeLine {
    type V = TreeLineV;

    open spec fn view(&self) -> TreeLineV {
        TreeLineV { text: self.text@, selected: self.selected, active: self.active, bold: self.bold }
    }
}

pub open spec fn line_views(v: Seq<TreeLine>) -> Seq<TreeLineV> {
    v.map_values(|l: TreeLine| l@)
}

/// The tree line of a row.
pub open spec fn tree_line(a: AppV, sel: Selection) -> TreeLineV {
    let ss = a.sessions;
    let selected = a.selection == Some(sel);
    match sel {
        Selection::Session(i) => {
            let s = ss[i as int];
            TreeLineV {
                text: session_text(s.name, a.caffeinated.contains(s.id)),
                selected,
                active: s.attached && ss.len() > 1,
                bold: true,
            }
        },
        Selection::Window(i, j) => {
            let w = ss[i as int].windows[j as int];
            let pinned = w.panes.len() > 0 && a.pinned_pane == Some(w.panes[0].id);
            TreeLineV {
                text: marked(seq![' ', ' '] + window_label(w), pinned, a.caffeinated.contains(w.id)),
                selected,
                active: w.active && ss[i as int].windows.len() > 1,
                bold: false,
            }
        },
        Selection::Pane(i, j, k) => {
            let w = ss[i as int].windows[j as int];
            let p = w.panes[k as int];
            let zoom = if p.zoomed { seq![' ', 'z'] } else { seq![] };
            TreeLineV {
                text: marked(pane_line(w, k as nat, zoom), a.pinned_pane == Some(p.id), a.caffeinated.contains(p.id)),
                selected,
                active: p.active && w.panes.len() > 1,
                bold: false,
            }
        },
    }
}

pub open spec fn joined4(a: Seq<char>, b: Seq<char>, c: Seq<char>, d: Seq<char>) -> Seq<char> {
    a + " | "@ + b + " | "@ + c + " | "@ + d
}

/// The header above the preview: session, window, command and path of what
/// the selected row stands for.
pub open spec fn header_text(ss: Seq<SessionV>, sel: Option<Selection>) -> Seq<char> {
    match sel {
        None => "No sessions"@,
        Some(Selection::Session(i)) => {
            let s = ss[i as int];
            match or_first(active_window(s), s.windows.len()) {
                Some(j) => {
                    let w = s.windows[j];
                    match base_pane(w) {
                        Some(k) => joined4(s.name, w.name, w.panes[k].current_command, w.panes[k].current_path),
                        None => s.name + " | "@ + w.name,
                    }
                },
                None => s.name,
            }
        },
        Some(Selection::Window(i, j)) => {
            let s = ss[i as int];
            let w = s.windows[j as int];
            match base_pane(w) {
                Some(k) => joined4(s.name, w.name, w.panes[k].current_command, w.panes[k].current_path),
                None => s.name + " | "@ + w.name,
            }
        },
        Some(Selection::Pane(i, j, k)) => {
            let s = ss[i as int];
            let w = s.windows[j as int];
            let p = w.panes[k as int];
            joined4(s.name, w.name, p.current_command, p.current_path)
        },
    }
}

fn join4(a: &str, b: &str, c: &str, d: &str) -> (r: String)
    ensures
        r@ == joined4(a@, b@, c@, d@),
{
    let mut s = str_to_string(a);
    push_str(&mut s, " | ");
    push_str(&mut s, b);
    push_str(&mut s, " | ");
    push_str(&mut s, c);
    push_str(&mut s, " | ");
    push_str(&mut s, d);
    s
}

fn window_header(session_name: &str, w: &Window) -> (r: String)
    ensures
        r@ == match base_pane(w@) {
            Some(k) => joined4(session_name@, w@.name, w@.panes[k].current_command, w@.panes[k].current_path),
            None => session_name@ + " | "@ + w@.name,
        },
{
    match base_pane_exec(w) {
        Some(k) => {
            let p = &w.panes[k];
            join4(session_name, w.name.as_str(), p.current_command.as_str(), p.current_path.as_str())
        },
        None => {
            let mut s = str_to_string(session_name);
            push_str(&mut s, " | ");
            push_str(&mut s, w.name.as_str());
            s
        },
    }
}

/// The header above the preview.
pub fn preview_status(app: &App) -> (r: String)
    requires
        app.selection matches Some(sel) ==> valid_selection(app.sessions(), sel),
    ensures
        r@ == header_text(app.sessions(), app.selection),
{
    let ss = &app.snapshot.sessions;
    match app.selection {
        None => str_to_string("No sessions"),
        Some(Selection::Session(i)) => {
            let s = &ss[i];
            match or_first_exec(find_active_window(s), s.windows.len()) {
                Some(j) => window_header(s.name.as_str(), &s.windows[j]),
                None => s.name.clone(),
            }
        },
        Some(Selection::Window(i, j)) => window_header(ss[i].name.as_str(), &ss[i].windows[j]),
        Some(Selection::Pane(i, j, k)) => {
            let w = &ss[i].windows[j];
            let p = &w.panes[k];
            join4(ss[i].name.as_str(), w.name.as_str(), p.current_command.as_str(), p.current_path.as_str())
        },
    }
}

impl InputMode {
    pub fn duplicate(&self) -> (r: InputMode)
        ensures
            r@ == self@,
    {
        match self {
            InputMode::Normal => InputMode::Normal,
            InputMode::Command => InputMode::Command,
            InputMode::Filter => InputMode::Filter,
            InputMode::Search => InputMode::Search,
            InputMode::Prompt(k) => InputMode::Prompt(k.duplicate()),
            InputMode::Confirm(a) => InputMode::Confirm(a.duplicate()),
        }
    }
}

/// Whether `id` is among `ids`.
fn holds(ids: &Vec<String>, id: &String) -> (r: bool)
    ensures
        r == string_views(ids@).contains(id@),
{
    let mut k: usize = 0;
    while k < ids.len()
        invariant
            0 <= k <= ids.len(),
            forall|m: int| 0 <= m < k ==> string_views(ids@)[m] != id@,
        decreases ids.len() - k,
    {
        if ids[k] == *id {
            assert(string_views(ids@)[k as int] == id@);
            return true;
        }
        k += 1;
    }
    false
}

fn is_pinned(pinned: &Option<String>, id: &String) -> (r: bool)
    ensures
        r == (crate::app::opt_seq(*pinned) == Some(id@)),
{
    match pinned {
        Some(p) => *p == *id,
        None => false,
    }
}

impl App {
    /// The tree line of a row.
    pub fn tree_line(&self, sel: Selection) -> (r: TreeLine)
        requires
            valid_selection(self.sessions(), sel),
        ensures
            r@ == tree_line(self@, sel),
    {
        let ss = &self.snapshot.sessions;
        let selected = self.selection == Some(sel);
        match sel {
            Selection::Session(i) => {
                let s = &ss[i];
                assert(self@.sessions[i as int] == s@);
                let caffeinated = holds(&self.caffeinated_targets, &s.id);
                TreeLine {
                    text: session_label(s.name.as_str(), caffeinated),
                    selected,
                    active: s.attached && ss.len() > 1,
                    bold: true,
                }
            },
            Selection::Window(i, j) => {
                let w = &ss[i].windows[j];
                assert(self@.sessions[i as int] == ss@[i as int]@);
                assert(self@.sessions[i as int].windows[j as int] == w@);
                let pinned = w.panes.len() > 0 && is_pinned(&self.pinned_pane, &w.panes[0].id);
                let caffeinated = holds(&self.caffeinated_targets, &w.id);
                let mut line = str_to_string("  ");
                push_str(&mut line, window_tree_label(w).as_str());
                proof {
                    reveal_strlit("  ");
                    assert("  "@ =~= seq![' ', ' ']);
                    assert(w.panes@.len() > 0 ==> w@.panes[0].id == w.panes@[0].id@);
                }
                TreeLine {
                    text: marker_column(line, pinned, caffeinated),
                    selected,
                    active: w.active && ss[i].windows.len() > 1,
                    bold: false,
                }
            },
            Selection::Pane(i, j, k) => {
                let w = &ss[i].windows[j];
                assert(self@.sessions[i as int] == ss@[i as int]@);
                assert(self@.sessions[i as int].windows[j as int] == w@);
                let pane_count = w.panes.len();
                assert(w@.panes.len() == pane_count);
                let p = &w.panes[k];
                let zoom = if p.zoomed {
                    " z"
                } else {
                    ""
                };
                proof {
                    reveal_strlit(" z");
                    reveal_strlit("");
                    assert(" z"@ =~= seq![' ', 'z']);
                    assert(""@ =~= Seq::<char>::empty());
                    assert(w@.panes[k as int] == p@);
                }
                let pinned = is_pinned(&self.pinned_pane, &p.id);
                let caffeinated = holds(&self.caffeinated_targets, &p.id);
                let line = pane_tree_line(w, k, zoom);
                TreeLine {
                    text: marker_column(line, pinned, caffeinated),
                    selected,
                    active: p.active && w.panes.len() > 1,
                    bold: false,
                }
            },
        }
    }
}

/// Everything the screen shows.
pub struct DrawState {
    pub tree_lines: Vec<TreeLine>,
    pub preview_status: String,
    pub preview_text: String,
    pub footer: Vec<Action>,
    pub sidebar_percent: u8,
    pub sidebar_auto: bool,
    pub show_hints: bool,
    pub filter: String,
    pub input: String,
    pub status: String,
    pub mode: InputMode,
}

impl DrawState {
    pub fn from_app(app: &App) -> (r: DrawState)
        requires
            app.selection matches Some(sel) ==> valid_selection(app.sessions(), sel),
        ensures
            line_views(r.tree_lines@) == vis(app@).map_values(|sel: Selection| tree_line(app@, sel)),
            r.preview_status@ == header_text(app.sessions(), app.selection),
            r.preview_text@ == app.preview@,
            action_views(r.footer@) == footer_actions(app@.settings.show_hints, app.mode@ is Normal),
            r.sidebar_percent == app@.settings.sidebar_percent,
            r.sidebar_auto == app@.settings.sidebar_auto,
            r.show_hints == app@.settings.show_hints,
            r.filter@ == app.filter@,
            r.input@ == app.input@,
            r.status@ == app.status@,
            r.mode@ == app.mode@,
    {
        let rows = app.visible_rows();
        let ghost want = vis(app@).map_values(|sel: Selection| tree_line(app@, sel));
        let mut lines: Vec<TreeLine> = Vec::new();
        let mut k: usize = 0;
        while k < rows.len()
            invariant
                0 <= k <= rows.len(),
                rows@ == vis(app@),
                crate::rows::all_valid(app.sessions(), rows@),
                want == vis(app@).map_values(|sel: Selection| tree_line(app@, sel)),
                line_views(lines@) =~= want.take(k as int),
            decreases rows.len() - k,
        {
            let line = app.tree_line(rows[k]);
            let ghost pre = lines@;
            lines.push(line);
            assert(line_views(lines@) =~= line_views(pre).push(want[k as int]));
            k += 1;
        }
        assert(want.take(rows.len() as int) =~= want);
        DrawState {
            tree_lines: lines,
            preview_status: preview_status(app),
            preview_text: app.preview.clone(),
            footer: app.actions(),
            sidebar_percent: app.sidebar_percent(),
            sidebar_auto: app.sidebar_auto(),
            show_hints: app.show_hints(),
            filter: app.filter.clone(),
            input: app.input.clone(),
            status: app.status.clone(),
            mode: app.mode.duplicate(),
        }
    }
}

pub open spec fn input_text(mode: ModeV, input: Seq<char>, filter: Seq<char>) -> Seq<char> {
    match mode {
        ModeV::Command | ModeV::Prompt(_) | ModeV::Search => input,
        ModeV::Filter => filter,
        _ => Seq::<char>::empty(),
    }
}

/// The text being typed in the current mode.
pub fn current_input(state: &DrawState) -> (r: String)
    ensures
        r@ == input_text(state.mode@, state.input@, state.filter@),
{
    match &state.mode {
        InputMode::Command | InputMode::Prompt(_) | InputMode::Search => state.input.clone(),
        InputMode::Filter => state.filter.clone(),
        _ => String::new(),
    }
}

/// The footer line that shows what is being typed or confirmed.
pub open spec fn message_text(mode: ModeV, show_hints: bool, typed: Seq<char>) -> Option<Seq<char>> {
    match mode {
        ModeV::Normal => None,
        ModeV::Command => Some(":"@ + typed),
        ModeV::Filter => Some(if show_hints { "filter: "@ + typed } else { "f"@ + typed }),
        ModeV::Search => Some(if show_hints { "search: "@ + typed } else { "/"@ + typed }),
        ModeV::Prompt(kind) => Some(prompt_text(kind) + ": "@ + typed),
        ModeV::Confirm(action) => Some(" "@ + confirm_text(action)),
    }
}

fn prefixed(head: &str, tail: &str) -> (r: String)
    ensures
        r@ == head@ + tail@,
{
    let mut s = str_to_string(head);
    push_str(&mut s, tail);
    s
}

pub fn command_message(state: &DrawState) -> (r: Option<String>)
    ensures
        match r {
            Some(m) => message_text(state.mode@, state.show_hints, input_text(state.mode@, state.input@, state.filter@))
                == Some(m@),
            None => message_text(state.mode@, state.show_hints, input_text(state.mode@, state.input@, state.filter@))
                is None,
        },
{
    let typed = current_input(state);
    match &state.mode {
        InputMode::Normal => None,
        InputMode::Command => Some(prefixed(":", typed.as_str())),
        InputMode::Filter => if state.show_hints {
            Some(prefixed("filter: ", typed.as_str()))
        } else {
            Some(prefixed("f", typed.as_str()))
        },
        InputMode::Search => if state.show_hints {
            Some(prefixed("search: ", typed.as_str()))
        } else {
            Some(prefixed("/", typed.as_str()))
        },
        InputMode::Prompt(kind) => {
            let mut s = prefixed(prompt_label(kind), ": ");
            push_str(&mut s, typed.as_str());
            Some(s)
        },
        InputMode::Confirm(action) => Some(prefixed(" ", confirm_label(action).as_str())),
    }
}

/// The widest tree line, in characters.
pub open spec fn widest(lines: Seq<TreeLineV>) -> nat
    decreases lines.len(),
{
    if lines.len() == 0 {
        0
    } else {
        let w = widest(lines.drop_last());
        if lines.last().text.len() > w {
            lines.last().text.len()
        } else {
            w
        }
    }
}

/// The sidebar width that fits the widest line and a space, at least 8
/// columns, and leaves 20 columns to the preview where it can.
pub open spec fn auto_width(lines: Seq<TreeLineV>, area_width: u16) -> u16 {
    let w = widest(lines) as u16;
    let want: u16 = if w < u16::MAX { (w + 1) as u16 } else { u16::MAX };
    let room: u16 = if area_width >= 20 { (area_width - 20) as u16 } else { 0 };
    let high: u16 = if room > 8 { room } else { 8 };
    if want < 8 {
        8
    } else if want > high {
        high
    } else {
        want
    }
}

impl DrawState {
    pub fn auto_sidebar_width(&self, area_width: u16) -> (r: u16)
        ensures
            r == auto_width(line_views(self.tree_lines@), area_width),
    {
        let ghost lv = line_views(self.tree_lines@);
        let mut widest_len: usize = 0;
        let mut k: usize = 0;
        while k < self.tree_lines.len()
            invariant
                0 <= k <= self.tree_lines.len(),
                lv == line_views(self.tree_lines@),
                widest_len == widest(lv.take(k as int)),
            decreases self.tree_lines.len() - k,
        {
            assert(lv.take(k as int + 1).drop_last() =~= lv.take(k as int));
            let n = self.tree_lines[k].text.as_str().unicode_len();
            if n > widest_len {
                widest_len = n;
            }
            k += 1;
        }
        assert(lv.take(self.tree_lines.len() as int) =~= lv);
        let w = widest_len as u16;
        let want: u16 = if w < u16::MAX {
            w + 1
        } else {
            u16::MAX
        };
        let room: u16 = if area_width >= 20 {
            area_width - 20
        } else {
            0
        };
        let high: u16 = if room > 8 {
            room
        } else {
            8
        };
        if want < 8 {
            8
        } else if want > high {
            high
        } else {
            want
        }
    }
}

} // verus!
