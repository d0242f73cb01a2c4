//! The state of the tree browser: what is selected, which input mode is on,
//! and what the user has typed.
use vstd::prelude::*;

use crate::keys::{Resume, ResumeV};
use crate::managed_config::Settings;
use crate::selection::opt_last;
use crate::targets::{opt_cut, opt_target};
use crate::tmux::{LastTarget, PaneV, SessionV, Snapshot, TargetKind, TargetV, WindowV};
use crate::tmux_ops::{Tmux, string_views};

verus! {

#[derive(Clone, Copy, Debug, PartialEq, Eq, Structural)]
pub enum Focus {
    Tree,
    Preview,
}

#[derive(Clone, Debug, PartialEq, Eq)]
pub enum InputMode {
    Normal,
    Command,
    Filter,
    Search,
    Prompt(PromptKind),
    Confirm(ConfirmAction),
}

#[derive(Clone, Debug, PartialEq, Eq)]
pub enum PromptKind {
    NewSession,
    NewWindow { session_id: String },
    RenameSession { session_id: String },
    RenameWindow { window_id: String },
    RenamePane { pane_id: String },
}

#[derive(Clone, Debug, PartialEq, Eq)]
pub enum ConfirmAction {
    KillSession { session_id: String, name: String },
    KillWindow { window_id: String, name: String },
    KillPane { pane_id: String, name: String },
}

/// A row of the tree: a session, a window of a session, or a pane of a
/// window, by position in the snapshot.
#[derive(Clone, Copy, Debug, PartialEq, Eq, Structural)]
pub enum Selection {
    Session(usize),
    Window(usize, usize),
    Pane(usize, usize, usize),
}

/// A selection by tmux ids, which survives a change of positions.
#[derive(Clone, Debug, PartialEq, Eq)]
pub struct SelectionKey {
    pub session_id: String,
    pub window_id: Option<String>,
    pub pane_id: Option<String>,
}

/// What `o` and `O` create.
#[derive(Clone, Debug, PartialEq, Eq)]
pub enum CreateIntent {
    NewSession,
    NewWindow { session_id: String },
    NewPane,
}

/// What `x` cut.
#[derive(Clone, Debug, PartialEq, Eq)]
pub enum CutTarget {
    Window { session_id: String, window_id: String, name: String },
    Pane { window_id: String, pane_id: String, name: String },
}

/// Where `p` and `P` paste.
#[derive(Clone, Debug, PartialEq, Eq)]
pub enum PasteIntent {
    Session,
    Window { session_id: String },
    Pane { session_id: String, window_id: String, pane_id: String },
}

/// A key press.
#[derive(Clone, Copy, Debug, PartialEq, Eq, Structural)]
pub enum Key {
    Char(char),
    Enter,
    Esc,
    Backspace,
    Tab,
    Up,
    Down,
    Left,
    Right,
    Other,
}

/// A key press with the modifiers that matter here.
#[derive(Clone, Copy, Debug, PartialEq, Eq, Structural)]
pub struct KeyInput {
    pub code: Key,
    pub ctrl: bool,
    pub shift: bool,
}

pub struct KeyV {
    pub session_id: Seq<char>,
    pub window_id: Option<Seq<char>>,
    pub pane_id: Option<Seq<char>>,
}

pub open spec fn opt_seq(o: Option<String>) -> Option<Seq<char>> {
    match o {
        Some(s) => Some(s@),
        None => None,
    }
}

impl View for SelectionKey {
    type V = KeyV;

    open spec fn view(&self) -> KeyV {
        KeyV { session_id: self.session_id@, window_id: opt_seq(self.window_id), pane_id: opt_seq(self.pane_id) }
    }
}

pub open spec fn last_target_key(t: LastTarget) -> KeyV {
    KeyV { session_id: t.session_id@, window_id: opt_seq(t.window_id), pane_id: opt_seq(t.pane_id) }
}

pub enum CreateV {
    NewSession,
    NewWindow(Seq<char>),
    NewPane,
}

impl View for CreateIntent {
    type V = CreateV;

    open spec fn view(&self) -> CreateV {
        match self {
            CreateIntent::NewSession => CreateV::NewSession,
            CreateIntent::NewWindow { session_id } => CreateV::NewWindow(session_id@),
            CreateIntent::NewPane => CreateV::NewPane,
        }
    }
}

pub enum CutV {
    Window(Seq<char>, Seq<char>, Seq<char>),
    Pane(Seq<char>, Seq<char>, Seq<char>),
}

impl View for CutTarget {
    type V = CutV;

    open spec fn view(&self) -> CutV {
        match self {
            CutTarget::Window { session_id, window_id, name } => CutV::Window(session_id@, window_id@, name@),
            CutTarget::Pane { window_id, pane_id, name } => CutV::Pane(window_id@, pane_id@, name@),
        }
    }
}

pub enum PasteV {
    Session,
    Window(Seq<char>),
    Pane(Seq<char>, Seq<char>, Seq<char>),
}

impl View for PasteIntent {
    type V = PasteV;

    open spec fn view(&self) -> PasteV {
        match self {
            PasteIntent::Session => PasteV::Session,
            PasteIntent::Window { session_id } => PasteV::Window(session_id@),
            PasteIntent::Pane { session_id, window_id, pane_id } => PasteV::Pane(
                session_id@,
                window_id@,
                pane_id@,
            ),
        }
    }
}

pub enum PromptV {
    NewSession,
    NewWindow(Seq<char>),
    RenameSession(Seq<char>),
    RenameWindow(Seq<char>),
    RenamePane(Seq<char>),
}

impl View for PromptKind {
    type V = PromptV;

    open spec fn view(&self) -> PromptV {
        match self {
            PromptKind::NewSession => PromptV::NewSession,
            PromptKind::NewWindow { session_id } => PromptV::NewWindow(session_id@),
            PromptKind::RenameSession { session_id } => PromptV::RenameSession(session_id@),
            PromptKind::RenameWindow { window_id } => PromptV::RenameWindow(window_id@),
            PromptKind::RenamePane { pane_id } => PromptV::RenamePane(pane_id@),
        }
    }
}

pub enum ConfirmV {
    KillSession(Seq<char>, Seq<char>),
    KillWindow(Seq<char>, Seq<char>),
    KillPane(Seq<char>, Seq<char>),
}

impl View for ConfirmAction {
    type V = ConfirmV;

    open spec fn view(&self) -> ConfirmV {
        match self {
            ConfirmAction::KillSession { session_id, name } => ConfirmV::KillSession(session_id@, name@),
            ConfirmAction::KillWindow { window_id, name } => ConfirmV::KillWindow(window_id@, name@),
            ConfirmAction::KillPane { pane_id, name } => ConfirmV::KillPane(pane_id@, name@),
        }
    }
}

pub enum ModeV {
    Normal,
    Command,
    Filter,
    Search,
    Prompt(PromptV),
    Confirm(ConfirmV),
}

impl View for InputMode {
    type V = ModeV;

    open spec fn view(&self) -> ModeV {
        match self {
            InputMode::Normal => ModeV::Normal,
            InputMode::Command => ModeV::Command,
            InputMode::Filter => ModeV::Filter,
            InputMode::Search => ModeV::Search,
            InputMode::Prompt(k) => ModeV::Prompt(k@),
            InputMode::Confirm(a) => ModeV::Confirm(a@),
        }
    }
}

/// The first index of `s` whose element satisfies `p`.
pub open spec fn position<A>(s: Seq<A>, p: spec_fn(A) -> bool) -> Option<int>
    decreases s.len(),
{
    if s.len() == 0 {
        None
    } else {
        match position(s.drop_last(), p) {
            Some(i) => Some(i),
            None => if p(s.last()) {
                Some(s.len() - 1)
            } else {
                None
            },
        }
    }
}

pub proof fn lemma_position<A>(s: Seq<A>, p: spec_fn(A) -> bool)
    ensures
        match position(s, p) {
            Some(i) => 0 <= i < s.len() && p(s[i]) && forall|k: int| 0 <= k < i ==> !p(#[trigger] s[k]),
            None => forall|k: int| 0 <= k < s.len() ==> !p(#[trigger] s[k]),
        },
    decreases s.len(),
{
    if s.len() > 0 {
        lemma_position(s.drop_last(), p);
        match position(s.drop_last(), p) {
            Some(i) => {
                assert forall|k: int| 0 <= k < i implies !p(#[trigger] s[k]) by {
                    assert(s[k] == s.drop_last()[k]);
                }
                assert(s[i] == s.drop_last()[i]);
            },
            None => {
                assert forall|k: int| 0 <= k < s.len() - 1 implies !p(#[trigger] s[k]) by {
                    assert(s[k] == s.drop_last()[k]);
                }
            },
        }
    }
}

/// A position given by its defining property.
pub proof fn lemma_position_is<A>(s: Seq<A>, p: spec_fn(A) -> bool, i: int)
    requires
        0 <= i < s.len(),
        p(s[i]),
        forall|k: int| 0 <= k < i ==> !p(#[trigger] s[k]),
    ensures
        position(s, p) == Some(i),
{
    lemma_position(s, p);
    match position(s, p) {
        Some(j) => {
            if j < i {
            } else if j > i {
            }
        },
        None => {
            assert(!p(s[i]));
        },
    }
}

pub proof fn lemma_position_none<A>(s: Seq<A>, p: spec_fn(A) -> bool)
    requires
        forall|k: int| 0 <= k < s.len() ==> !p(#[trigger] s[k]),
    ensures
        position(s, p) is None,
{
    lemma_position(s, p);
    match position(s, p) {
        Some(j) => {
            assert(p(s[j]));
        },
        None => {},
    }
}

/// Where the session with id `id` stands.
pub open spec fn session_index(ss: Seq<SessionV>, id: Seq<char>) -> Option<int> {
    position(ss, |s: SessionV| s.id == id)
}

/// Where the window with id `id` stands in a session.
pub open spec fn window_index(s: SessionV, id: Seq<char>) -> Option<int> {
    position(s.windows, |w: WindowV| w.id == id)
}

/// Where the pane with id `id` stands in a window.
pub open spec fn pane_index(w: WindowV, id: Seq<char>) -> Option<int> {
    position(w.panes, |p: PaneV| p.id == id)
}

/// The first active window of a session.
pub open spec fn active_window(s: SessionV) -> Option<int> {
    position(s.windows, |w: WindowV| w.active)
}

/// The first active pane of a window.
pub open spec fn active_pane(w: WindowV) -> Option<int> {
    position(w.panes, |p: PaneV| p.active)
}

/// The first attached session.
pub open spec fn attached_session(ss: Seq<SessionV>) -> Option<int> {
    position(ss, |s: SessionV| s.attached)
}

/// An index, or else the first one where there is one.
pub open spec fn or_first(o: Option<int>, len: nat) -> Option<int> {
    match o {
        Some(i) => Some(i),
        None => if len > 0 {
            Some(0)
        } else {
            None
        },
    }
}

/// A session lists its windows when it has several, or a window with
/// several panes.
pub open spec fn shows_windows(s: SessionV) -> bool {
    s.windows.len() > 1 || exists|j: int| 0 <= j < s.windows.len() && #[trigger] s.windows[j].panes.len() > 1
}

/// A window lists its panes when it has several.
pub open spec fn shows_panes(w: WindowV) -> bool {
    w.panes.len() > 1
}

/// The selection names an existing session, window or pane.
pub open spec fn valid_selection(ss: Seq<SessionV>, sel: Selection) -> bool {
    match sel {
        Selection::Session(i) => i < ss.len(),
        Selection::Window(i, j) => i < ss.len() && j < ss[i as int].windows.len(),
        Selection::Pane(i, j, k) => i < ss.len() && j < ss[i as int].windows.len() && k
            < ss[i as int].windows[j as int].panes.len(),
    }
}

/// Whether the state waits for the outcome of a tmux job, and what it does
/// with it.
pub enum Pending {
    Idle,
    Waiting(Resume),
}

pub enum PendingV {
    Idle,
    Waiting(ResumeV),
}

impl View for Pending {
    type V = PendingV;

    open spec fn view(&self) -> PendingV {
        match self {
            Pending::Idle => PendingV::Idle,
            Pending::Waiting(r) => PendingV::Waiting(r@),
        }
    }
}

/// The whole state as plain values.
pub struct AppV {
    pub settings: Settings,
    pub conf: Seq<char>,
    pub settings_path: Seq<char>,
    pub sessions: Seq<SessionV>,
    pub selection: Option<Selection>,
    pub focus: Focus,
    pub mode: ModeV,
    pub filter: Seq<char>,
    pub search: Seq<char>,
    pub input: Seq<char>,
    pub preview: Seq<char>,
    pub status: Seq<char>,
    pub last_target: Option<KeyV>,
    pub pinned_pane: Option<Seq<char>>,
    pub caffeinated: Seq<Seq<char>>,
    pub should_quit: bool,
    pub attach_target: Option<TargetV>,
    pub cut_target: Option<CutV>,
    pub count_prefix: Option<usize>,
    pub pending_g: bool,
    pub pending: PendingV,
}

pub struct App {
    pub tmux: Tmux,
    pub snapshot: Snapshot,
    pub selection: Option<Selection>,
    pub focus: Focus,
    pub mode: InputMode,
    pub filter: String,
    pub search: String,
    pub input: String,
    pub preview: String,
    pub status: String,
    /// The target that tmux remembered when the snapshot was taken.
    pub last_target: Option<LastTarget>,
    /// The pinned pane when the snapshot was taken.
    pub pinned_pane: Option<String>,
    /// Ids of sessions, windows and panes shown with the ☼ marker.
    pub caffeinated_targets: Vec<String>,
    pub should_quit: bool,
    pub attach_target: Option<TargetKind>,
    pub cut_target: Option<CutTarget>,
    pub count_prefix: Option<usize>,
    pub pending_g: bool,
    pub pending: Pending,
}

impl View for App {
    type V = AppV;

    open spec fn view(&self) -> AppV {
        AppV {
            settings: self.tmux.settings_spec(),
            conf: self.tmux.conf_spec(),
            settings_path: self.tmux.settings_path_spec(),
            sessions: self.snapshot@,
            selection: self.selection,
            focus: self.focus,
            mode: self.mode@,
            filter: self.filter@,
            search: self.search@,
            input: self.input@,
            preview: self.preview@,
            status: self.status@,
            last_target: opt_last(self.last_target),
            pinned_pane: opt_seq(self.pinned_pane),
            caffeinated: string_views(self.caffeinated_targets@),
            should_quit: self.should_quit,
            attach_target: opt_target(self.attach_target),
            cut_target: opt_cut(self.cut_target),
            count_prefix: self.count_prefix,
            pending_g: self.pending_g,
            pending: self.pending@,
        }
    }
}

impl App {
    pub open spec fn sessions(&self) -> Seq<SessionV> {
        self.snapshot@
    }

    pub fn new(tmux: Tmux) -> (r: App)
        ensures
            r.tmux == tmux,
            r.sessions().len() == 0,
            r.selection is None,
            r.focus == Focus::Tree,
            r.mode@ == ModeV::Normal,
            r.filter@.len() == 0 && r.search@.len() == 0 && r.input@.len() == 0,
            r.preview@.len() == 0 && r.status@.len() == 0,
            r.last_target is None,
            r.pinned_pane is None,
            r.caffeinated_targets@.len() == 0,
            !r.should_quit,
            r.attach_target is None,
            r.cut_target is None,
            r.count_prefix is None,
            !r.pending_g,
            r.pending is Idle,
    {
        let snapshot = Snapshot { sessions: Vec::new() };
        assert(snapshot@ =~= Seq::<SessionV>::empty());
        App {
            tmux,
            snapshot,
            selection: None,
            focus: Focus::Tree,
            mode: InputMode::Normal,
            filter: String::new(),
            search: String::new(),
            input: String::new(),
            preview: String::new(),
            status: String::new(),
            last_target: None,
            pinned_pane: None,
            caffeinated_targets: Vec::new(),
            should_quit: false,
            attach_target: None,
            cut_target: None,
            count_prefix: None,
            pending_g: false,
            pending: Pending::Idle,
        }
    }

    pub fn show_hints(&self) -> (r: bool)
        ensures
            r == self.tmux.settings_spec().show_hints,
    {
        self.tmux.show_hints()
    }

    pub fn sidebar_percent(&self) -> (r: u8)
        ensures
            r == self.tmux.settings_spec().sidebar_percent,
            r <= 100,
    {
        self.tmux.sidebar_percent()
    }

    pub fn sidebar_auto(&self) -> (r: bool)
        ensures
            r == self.tmux.settings_spec().sidebar_auto,
    {
        self.tmux.sidebar_auto()
    }

    /// Whether the user asked to leave.
    pub fn should_quit(&self) -> (r: bool)
        ensures
            r == self.should_quit,
    {
        self.should_quit
    }

    /// What to attach to after leaving, if anything.
    pub fn attach_target(&self) -> (r: Option<TargetKind>)
        ensures
            match r {
                Some(t) => self.attach_target matches Some(a) && t@ == a@,
                None => self.attach_target is None,
            },
    {
        match &self.attach_target {
            Some(t) => Some(t.duplicate()),
            None => None,
        }
    }

    /// The tmux controller that this state works through.
    pub fn tmux(&self) -> (r: &Tmux)
        ensures
            r == &self.tmux,
    {
        &self.tmux
    }
}

} // verus!
