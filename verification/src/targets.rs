//! Moving through the visible rows, searching them, and what the selected
//! row means for attaching, creating, cutting and pasting.
use vstd::prelude::*;

use crate::app::{
    App, AppV, CreateIntent, CreateV, CutTarget, CutV, KeyV, PasteIntent, PasteV, Selection, active_pane,
    active_window, or_first, position, valid_selection, window_index,
};
use crate::rows::{
    all_valid, matches_search, pane_label, pane_label_spec, search_match, visible, window_label,
    window_tree_label,
};
use crate::selection::{find_active_pane, find_active_window, find_window, opt_int, opt_last};
use crate::text::{chars_of, lowercase, to_lowercase, trim, trim_string, str_to_string};
use crate::tmux::{
    LastTarget, Session, SessionV, TargetKind, TargetV, Window, WindowV, session_views,
};

verus! {

/// Where `sel` stands among the rows, or the top when it is not there.
pub open spec fn same_row(x: Selection) -> spec_fn(Selection) -> bool {
    |y: Selection| y == x
}

pub open spec fn current_index(vis: Seq<Selection>, sel: Option<Selection>) -> int {
    match sel {
        Some(x) => match position(vis, same_row(x)) {
            Some(i) => i,
            None => 0,
        },
        None => 0,
    }
}

/// The selection after moving `delta` rows, stopping at the first and last
/// rows.
pub open spec fn moved(vis: Seq<Selection>, sel: Option<Selection>, delta: int) -> Option<Selection> {
    if vis.len() == 0 {
        None
    } else {
        let cur = current_index(vis, sel);
        let next = if cur + delta < 0 {
            0
        } else if cur + delta > vis.len() - 1 {
            vis.len() - 1
        } else {
            cur + delta
        };
        Some(vis[next])
    }
}

/// The selection after jumping to row `target`, or to the last row.
pub open spec fn jumped(vis: Seq<Selection>, target: int) -> Option<Selection> {
    if vis.len() == 0 {
        None
    } else {
        Some(vis[if target < vis.len() - 1 { target } else { vis.len() - 1 }])
    }
}

/// A row's label starts with the search, ignoring case.
pub open spec fn row_hit(ss: Seq<SessionV>, sel: Selection, needle: Seq<char>) -> bool {
    valid_selection(ss, sel) && match sel {
        Selection::Session(i) => search_match(ss[i as int].name, needle),
        Selection::Window(i, j) => search_match(window_label(ss[i as int].windows[j as int]), needle),
        Selection::Pane(_, _, k) => search_match(pane_label_spec(k as nat), needle),
    }
}

/// The row visited `offset` steps from `cur`, going round.
pub open spec fn search_pos(cur: int, len: int, forward: bool, offset: int) -> int {
    if forward {
        (cur + offset) % len
    } else {
        (cur + len - (offset % len)) % len
    }
}

/// The first row from `offset` steps on whose label the search matches.
pub open spec fn search_from(
    ss: Seq<SessionV>,
    vis: Seq<Selection>,
    needle: Seq<char>,
    cur: int,
    forward: bool,
    offset: int,
) -> Option<int>
    decreases vis.len() + 1 - offset,
{
    if offset > vis.len() || vis.len() == 0 || offset < 0 {
        None
    } else {
        let idx = search_pos(cur, vis.len() as int, forward, offset);
        if row_hit(ss, vis[idx], needle) {
            Some(idx)
        } else {
            search_from(ss, vis, needle, cur, forward, offset + 1)
        }
    }
}

/// The selection after searching forward or backward, with or without the
/// current row; where nothing matches it stays.
pub open spec fn searched(
    ss: Seq<SessionV>,
    filter: Seq<char>,
    search: Seq<char>,
    sel: Option<Selection>,
    forward: bool,
    include_current: bool,
) -> Option<Selection> {
    if search.len() == 0 {
        sel
    } else {
        let vis = visible(ss, filter);
        if vis.len() == 0 {
            None
        } else {
            let cur = current_index(vis, sel);
            match search_from(ss, vis, lowercase(search), cur, forward, if include_current { 0 } else { 1 }) {
                Some(idx) => Some(vis[idx]),
                None => sel,
            }
        }
    }
}

fn index_in(rows: &Vec<Selection>, sel: Option<Selection>) -> (r: usize)
    ensures
        r as int == current_index(rows@, sel),
        rows@.len() > 0 ==> r < rows@.len(),
{
    match sel {
        None => 0,
        Some(x) => {
            let ghost p = same_row(x);
            let mut k: usize = 0;
            while k < rows.len()
                invariant
                    0 <= k <= rows.len(),
                    p == same_row(x),
                    sel == Some(x),
                    forall|m: int| 0 <= m < k ==> !p(#[trigger] rows@[m]),
                decreases rows.len() - k,
            {
                if rows[k] == x {
                    proof {
                        assert(rows@[k as int] == x);
                        assert(p(rows@[k as int]));
                        crate::app::lemma_position_is(rows@, p, k as int);
                        assert(position(rows@, same_row(x)) == Some(k as int));
                        assert(sel == Some(x));
                        assert(current_index(rows@, sel) == k as int);
                    }
                    return k;
                }
                k += 1;
            }
            proof {
                crate::app::lemma_position_none(rows@, p);
            }
            0
        },
    }
}

proof fn lemma_forward_pos(cur: int, len: int, offset: int)
    requires
        0 <= cur < len,
        0 <= offset <= len,
    ensures
        (cur + offset) % len == if cur + offset < len {
            cur + offset
        } else {
            cur + offset - len
        },
{
    if cur + offset < len {
        vstd::arithmetic::div_mod::lemma_small_mod((cur + offset) as nat, len as nat);
    } else {
        vstd::arithmetic::div_mod::lemma_small_mod((cur + offset - len) as nat, len as nat);
        vstd::arithmetic::div_mod::lemma_mod_add_multiples_vanish(cur + offset - len, len);
    }
}

proof fn lemma_backward_pos(cur: int, len: int, offset: int)
    requires
        0 <= cur < len,
        0 <= offset <= len,
    ensures
        (cur + len - (offset % len)) % len == if offset == len || cur >= offset {
            if offset == len {
                cur
            } else {
                cur - offset
            }
        } else {
            cur + len - offset
        },
{
    if offset == len {
        vstd::arithmetic::div_mod::lemma_mod_self_0(len);
        lemma_forward_pos(cur, len, len);
    } else {
        vstd::arithmetic::div_mod::lemma_small_mod(offset as nat, len as nat);
        lemma_forward_pos(cur, len, len - offset);
    }
}

impl App {
    /// Moves the selection by `delta` rows.
    pub fn move_selection(&mut self, delta: isize)
        ensures
            final(self)@ == (AppV { selection: final(self).selection, ..old(self)@ }),
            final(self).selection == moved(
                visible(old(self).sessions(), old(self).filter@),
                old(self).selection,
                delta as int,
            ),
            final(self).snapshot == old(self).snapshot,
            final(self).filter == old(self).filter,
    {
        let visible = self.visible_rows();
        if visible.len() == 0 {
            self.selection = None;
            return;
        }
        let current = index_in(&visible, self.selection);
        let last = visible.len() - 1;
        let next = if delta < 0 {
            let back: usize = if delta == isize::MIN {
                (isize::MAX as usize) + 1
            } else {
                (-delta) as usize
            };
            if back > current {
                0
            } else {
                current - back
            }
        } else {
            let ahead = delta as usize;
            if ahead > last - current {
                last
            } else {
                current + ahead
            }
        };
        self.selection = Some(visible[next]);
    }

    /// Jumps to row `target`, or to the last row.
    pub fn jump_to_index(&mut self, target: usize)
        ensures
            final(self)@ == (AppV { selection: final(self).selection, ..old(self)@ }),
            final(self).selection == jumped(visible(old(self).sessions(), old(self).filter@), target as int),
            final(self).snapshot == old(self).snapshot,
            final(self).filter == old(self).filter,
    {
        let visible = self.visible_rows();
        if visible.len() == 0 {
            self.selection = None;
            return;
        }
        let last = visible.len() - 1;
        let index = if target < last {
            target
        } else {
            last
        };
        self.selection = Some(visible[index]);
    }

    /// Whether a row's label starts with `needle`, ignoring case.
    pub fn row_matches_search(&self, selection: &Selection, needle: &str) -> (r: bool)
        ensures
            r == row_hit(self.sessions(), *selection, needle@),
    {
        let n = chars_of(needle);
        self.row_matches_chars(selection, &n)
    }

    fn row_matches_chars(&self, selection: &Selection, needle: &Vec<char>) -> (r: bool)
        ensures
            r == row_hit(self.sessions(), *selection, needle@),
    {
        let ss = &self.snapshot.sessions;
        match *selection {
            Selection::Session(i) => if i < ss.len() {
                matches_search(ss[i].name.as_str(), needle)
            } else {
                false
            },
            Selection::Window(i, j) => if i < ss.len() && j < ss[i].windows.len() {
                let label = window_tree_label(&ss[i].windows[j]);
                matches_search(label.as_str(), needle)
            } else {
                false
            },
            Selection::Pane(i, j, k) => if i < ss.len() && j < ss[i].windows.len() && k
                < ss[i].windows[j].panes.len() {
                let label = pane_label(k);
                matches_search(label.as_str(), needle)
            } else {
                false
            },
        }
    }

    /// Moves to the next (or previous) row whose label starts with the
    /// search, going round; with `include_current` the current row counts.
    pub fn search_match(&mut self, forward: bool, include_current: bool)
        ensures
            final(self)@ == (AppV { selection: final(self).selection, ..old(self)@ }),
            final(self).selection == searched(
                old(self).sessions(),
                old(self).filter@,
                old(self).search@,
                old(self).selection,
                forward,
                include_current,
            ),
            final(self).snapshot == old(self).snapshot,
            final(self).filter == old(self).filter,
            final(self).search == old(self).search,
    {
        if self.search.as_str().unicode_len() == 0 {
            return;
        }
        let rows = self.visible_rows();
        if rows.len() == 0 {
            self.selection = None;
            return;
        }
        let current = index_in(&rows, self.selection);
        let low = to_lowercase(self.search.as_str());
        let needle = chars_of(low.as_str());
        let start: usize = if include_current {
            0
        } else {
            1
        };
        match self.find_match(&rows, &needle, current, forward, start) {
            Some(index) => {
                self.selection = Some(rows[index]);
            },
            None => {},
        }
    }

    fn find_match(&self, rows: &Vec<Selection>, needle: &Vec<char>, current: usize, forward: bool, start: usize) -> (r: Option<usize>)
        requires
            rows@.len() > 0,
            current < rows@.len(),
            start <= 1,
        ensures
            opt_int(r) == search_from(self.sessions(), rows@, needle@, current as int, forward, start as int),
            r matches Some(i) ==> i < rows@.len(),
    {
        let len = rows.len();
        let ghost ss = self.sessions();
        let mut offset: usize = start;
        loop
            invariant
                len == rows@.len(),
                len > 0,
                0 <= current < len,
                ss == self.sessions(),
                start <= offset <= len,
                search_from(ss, rows@, needle@, current as int, forward, start as int)
                    == search_from(ss, rows@, needle@, current as int, forward, offset as int),
            decreases len - offset,
        {
            let index = if forward {
                proof {
                    lemma_forward_pos(current as int, len as int, offset as int);
                }
                if current < len - offset {
                    current + offset
                } else {
                    current - (len - offset)
                }
            } else {
                proof {
                    lemma_backward_pos(current as int, len as int, offset as int);
                }
                if offset == len {
                    current
                } else if current >= offset {
                    current - offset
                } else {
                    current + (len - offset)
                }
            };
            assert(index as int == search_pos(current as int, len as int, forward, offset as int));
            if self.row_matches_chars(&rows[index], needle) {
                return Some(index);
            }
            if offset == len {
                assert(search_from(ss, rows@, needle@, current as int, forward, offset + 1) is None);
                return None;
            }
            offset += 1;
        }
    }
}

/// What attaching to a row means: a window with several panes attaches to
/// its first pane.
pub open spec fn target_of(ss: Seq<SessionV>, sel: Selection) -> Option<TargetV> {
    if !valid_selection(ss, sel) {
        None
    } else {
        match sel {
            Selection::Session(i) => Some(TargetV::Session(ss[i as int].id)),
            Selection::Window(i, j) => {
                let w = ss[i as int].windows[j as int];
                if w.panes.len() > 1 {
                    Some(TargetV::Pane(ss[i as int].id, w.id, w.panes[0].id))
                } else {
                    Some(TargetV::Window(ss[i as int].id, w.id))
                }
            },
            Selection::Pane(i, j, k) => {
                let w = ss[i as int].windows[j as int];
                Some(TargetV::Pane(ss[i as int].id, w.id, w.panes[k as int].id))
            },
        }
    }
}

/// The window that stands for a session: the one tmux remembers for it,
/// else its active window, else its first.
pub open spec fn base_window(s: SessionV, last: Option<KeyV>) -> Option<int> {
    let remembered = match last {
        Some(t) => if t.session_id == s.id {
            match t.window_id {
                Some(wid) => window_index(s, wid),
                None => None,
            }
        } else {
            None
        },
        None => None,
    };
    match remembered {
        Some(j) => Some(j),
        None => or_first(active_window(s), s.windows.len()),
    }
}

/// The pane that stands for a window: its active pane, else its first.
pub open spec fn base_pane(w: WindowV) -> Option<int> {
    or_first(active_pane(w), w.panes.len())
}

/// The pane that a row stands for.
pub open spec fn pane_id_of(ss: Seq<SessionV>, sel: Selection, last: Option<KeyV>) -> Option<Seq<char>> {
    if !valid_selection(ss, sel) {
        None
    } else {
        match sel {
            Selection::Pane(i, j, k) => Some(ss[i as int].windows[j as int].panes[k as int].id),
            Selection::Window(i, j) => {
                let w = ss[i as int].windows[j as int];
                if w.panes.len() > 0 {
                    Some(w.panes[0].id)
                } else {
                    None
                }
            },
            Selection::Session(i) => match base_window(ss[i as int], last) {
                None => None,
                Some(j) => {
                    let w = ss[i as int].windows[j];
                    match base_pane(w) {
                        None => None,
                        Some(k) => Some(w.panes[k].id),
                    }
                },
            },
        }
    }
}

/// Session, window and pane ids of the pane that pasting next to a row
/// aims at.
pub open spec fn destination_of(ss: Seq<SessionV>, sel: Selection, last: Option<KeyV>) -> Option<(Seq<char>, Seq<char>, Seq<char>)> {
    if !valid_selection(ss, sel) {
        None
    } else {
        match sel {
            Selection::Session(i) => match base_window(ss[i as int], last) {
                None => None,
                Some(j) => {
                    let w = ss[i as int].windows[j];
                    match base_pane(w) {
                        None => None,
                        Some(k) => Some((ss[i as int].id, w.id, w.panes[k].id)),
                    }
                },
            },
            Selection::Window(i, j) => {
                let w = ss[i as int].windows[j as int];
                match base_pane(w) {
                    None => None,
                    Some(k) => Some((ss[i as int].id, w.id, w.panes[k].id)),
                }
            },
            Selection::Pane(i, j, k) => {
                let w = ss[i as int].windows[j as int];
                Some((ss[i as int].id, w.id, w.panes[k as int].id))
            },
        }
    }
}

/// What is remembered when attaching from a row: a session row remembers
/// the window that stands for it.
pub open spec fn last_target_of(ss: Seq<SessionV>, sel: Selection, last: Option<KeyV>) -> Option<TargetV> {
    match sel {
        Selection::Session(i) => if (i as int) < ss.len() {
            match base_window(ss[i as int], last) {
                None => None,
                Some(j) => Some(TargetV::Window(ss[i as int].id, ss[i as int].windows[j].id)),
            }
        } else {
            None
        },
        _ => target_of(ss, sel),
    }
}

/// What `x` cuts: a window or a pane, never a session.
pub open spec fn cut_of(ss: Seq<SessionV>, sel: Selection) -> Option<CutV> {
    if !valid_selection(ss, sel) {
        None
    } else {
        match sel {
            Selection::Session(_) => None,
            Selection::Window(i, j) => {
                let w = ss[i as int].windows[j as int];
                Some(CutV::Window(ss[i as int].id, w.id, w.name))
            },
            Selection::Pane(i, j, k) => {
                let w = ss[i as int].windows[j as int];
                Some(CutV::Pane(w.id, w.panes[k as int].id, pane_label_spec(k as nat)))
            },
        }
    }
}

/// Where `p` (or, with `peer`, `P`) pastes, following the hierarchy of
/// `o` and `O`.
pub open spec fn paste_of(ss: Seq<SessionV>, sel: Option<Selection>, last: Option<KeyV>, peer: bool) -> Option<PasteV> {
    match sel {
        None => None,
        Some(sel) => {
            let as_pane = match destination_of(ss, sel, last) {
                Some(d) => Some(PasteV::Pane(d.0, d.1, d.2)),
                None => None,
            };
            match sel {
                Selection::Session(i) => if peer {
                    Some(PasteV::Session)
                } else if (i as int) < ss.len() {
                    Some(PasteV::Window(ss[i as int].id))
                } else {
                    None
                },
                Selection::Window(i, _) => if peer {
                    if (i as int) < ss.len() {
                        Some(PasteV::Window(ss[i as int].id))
                    } else {
                        None
                    }
                } else {
                    as_pane
                },
                Selection::Pane(_, _, _) => as_pane,
            }
        },
    }
}

/// What `o` creates: a window in a selected session, a pane next to a
/// selected window or pane.
pub open spec fn child_create_of(ss: Seq<SessionV>, sel: Option<Selection>, last: Option<KeyV>) -> Option<CreateV> {
    match sel {
        None => None,
        Some(Selection::Session(i)) => if (i as int) < ss.len() {
            Some(CreateV::NewWindow(ss[i as int].id))
        } else {
            None
        },
        Some(sel) => if pane_id_of(ss, sel, last) is Some {
            Some(CreateV::NewPane)
        } else {
            None
        },
    }
}

/// What `O` creates: a session beside a session (or with nothing selected),
/// a window beside a window, a pane beside a pane.
pub open spec fn peer_create_of(ss: Seq<SessionV>, sel: Option<Selection>, last: Option<KeyV>) -> Option<CreateV> {
    match sel {
        None => Some(CreateV::NewSession),
        Some(Selection::Session(_)) => Some(CreateV::NewSession),
        Some(Selection::Window(i, _)) => if (i as int) < ss.len() {
            Some(CreateV::NewWindow(ss[i as int].id))
        } else {
            None
        },
        Some(sel) => if pane_id_of(ss, sel, last) is Some {
            Some(CreateV::NewPane)
        } else {
            None
        },
    }
}

pub open spec fn opt_target(t: Option<TargetKind>) -> Option<TargetV> {
    match t {
        Some(t) => Some(t@),
        None => None,
    }
}

pub(crate) fn base_pane_exec(w: &Window) -> (r: Option<usize>)
    ensures
        opt_int(r) == base_pane(w@),
        r matches Some(k) ==> k < w.panes.len(),
{
    match find_active_pane(w) {
        Some(k) => Some(k),
        None => if w.panes.len() > 0 {
            Some(0)
        } else {
            None
        },
    }
}

impl App {
    /// The window that stands for a session.
    pub fn base_window_for_session(&self, session: &Session) -> (r: Option<usize>)
        ensures
            opt_int(r) == base_window(session@, opt_last(self.last_target)),
            r matches Some(j) ==> j < session.windows.len(),
    {
        let remembered = match &self.last_target {
            Some(t) => if t.session_id == session.id {
                match &t.window_id {
                    Some(wid) => find_window(session, wid.as_str()),
                    None => None,
                }
            } else {
                None
            },
            None => None,
        };
        match remembered {
            Some(j) => Some(j),
            None => match find_active_window(session) {
                Some(j) => Some(j),
                None => if session.windows.len() > 0 {
                    Some(0)
                } else {
                    None
                },
            },
        }
    }

    /// What attaching to the selected row means.
    pub fn selected_target(&self) -> (r: Option<TargetKind>)
        ensures
            opt_target(r) == match self.selection {
                Some(sel) => target_of(self.sessions(), sel),
                None => None,
            },
    {
        let ss = &self.snapshot.sessions;
        match self.selection {
            None => None,
            Some(Selection::Session(i)) => if i < ss.len() {
                Some(TargetKind::Session(ss[i].id.clone()))
            } else {
                None
            },
            Some(Selection::Window(i, j)) => if i < ss.len() && j < ss[i].windows.len() {
                let w = &ss[i].windows[j];
                if w.panes.len() > 1 {
                    Some(
                        TargetKind::Pane {
                            session_id: ss[i].id.clone(),
                            window_id: w.id.clone(),
                            pane_id: w.panes[0].id.clone(),
                        },
                    )
                } else {
                    Some(TargetKind::Window { session_id: ss[i].id.clone(), window_id: w.id.clone() })
                }
            } else {
                None
            },
            Some(Selection::Pane(i, j, k)) => if i < ss.len() && j < ss[i].windows.len() && k
                < ss[i].windows[j].panes.len() {
                let w = &ss[i].windows[j];
                Some(
                    TargetKind::Pane {
                        session_id: ss[i].id.clone(),
                        window_id: w.id.clone(),
                        pane_id: w.panes[k].id.clone(),
                    },
                )
            } else {
                None
            },
        }
    }

    /// The pane that the selected row stands for.
    pub fn selected_pane_id(&self) -> (r: Option<String>)
        ensures
            opt_seq_of(r) == match self.selection {
                Some(sel) => pane_id_of(self.sessions(), sel, opt_last(self.last_target)),
                None => None,
            },
    {
        let ss = &self.snapshot.sessions;
        match self.selection {
            None => None,
            Some(Selection::Pane(i, j, k)) => if i < ss.len() && j < ss[i].windows.len() && k
                < ss[i].windows[j].panes.len() {
                Some(ss[i].windows[j].panes[k].id.clone())
            } else {
                None
            },
            Some(Selection::Window(i, j)) => if i < ss.len() && j < ss[i].windows.len() {
                let w = &ss[i].windows[j];
                if w.panes.len() > 0 {
                    Some(w.panes[0].id.clone())
                } else {
                    None
                }
            } else {
                None
            },
            Some(Selection::Session(i)) => if i < ss.len() {
                match self.base_window_for_session(&ss[i]) {
                    None => None,
                    Some(j) => {
                        let w = &ss[i].windows[j];
                        match base_pane_exec(w) {
                            None => None,
                            Some(k) => Some(w.panes[k].id.clone()),
                        }
                    },
                }
            } else {
                None
            },
        }
    }

    /// The session, window and pane that pasting next to the selected row
    /// aims at.
    pub fn selected_pane_destination(&self) -> (r: Option<(String, String, String)>)
        ensures
            opt_triple(r) == match self.selection {
                Some(sel) => destination_of(self.sessions(), sel, opt_last(self.last_target)),
                None => None,
            },
    {
        let ss = &self.snapshot.sessions;
        match self.selection {
            None => None,
            Some(Selection::Session(i)) => if i < ss.len() {
                match self.base_window_for_session(&ss[i]) {
                    None => None,
                    Some(j) => {
                        let w = &ss[i].windows[j];
                        match base_pane_exec(w) {
                            None => None,
                            Some(k) => Some((ss[i].id.clone(), w.id.clone(), w.panes[k].id.clone())),
                        }
                    },
                }
            } else {
                None
            },
            Some(Selection::Window(i, j)) => if i < ss.len() && j < ss[i].windows.len() {
                let w = &ss[i].windows[j];
                match base_pane_exec(w) {
                    None => None,
                    Some(k) => Some((ss[i].id.clone(), w.id.clone(), w.panes[k].id.clone())),
                }
            } else {
                None
            },
            Some(Selection::Pane(i, j, k)) => if i < ss.len() && j < ss[i].windows.len() && k
                < ss[i].windows[j].panes.len() {
                let w = &ss[i].windows[j];
                Some((ss[i].id.clone(), w.id.clone(), w.panes[k].id.clone()))
            } else {
                None
            },
        }
    }

    /// The target to remember when attaching from the selected row.
    pub fn last_target_for_selection(&self) -> (r: Option<TargetKind>)
        ensures
            opt_target(r) == match self.selection {
                Some(sel) => last_target_of(self.sessions(), sel, opt_last(self.last_target)),
                None => None,
            },
    {
        let ss = &self.snapshot.sessions;
        match self.selection {
            Some(Selection::Session(i)) => if i < ss.len() {
                match self.base_window_for_session(&ss[i]) {
                    None => None,
                    Some(j) => Some(
                        TargetKind::Window {
                            session_id: ss[i].id.clone(),
                            window_id: ss[i].windows[j].id.clone(),
                        },
                    ),
                }
            } else {
                None
            },
            _ => self.selected_target(),
        }
    }

    /// What `x` cuts from the selected row.
    pub fn cut_target_for_selection(&self) -> (r: Option<CutTarget>)
        ensures
            opt_cut(r) == match self.selection {
                Some(sel) => cut_of(self.sessions(), sel),
                None => None,
            },
    {
        let ss = &self.snapshot.sessions;
        match self.selection {
            None => None,
            Some(Selection::Session(_)) => None,
            Some(Selection::Window(i, j)) => if i < ss.len() && j < ss[i].windows.len() {
                let w = &ss[i].windows[j];
                Some(
                    CutTarget::Window {
                        session_id: ss[i].id.clone(),
                        window_id: w.id.clone(),
                        name: w.name.clone(),
                    },
                )
            } else {
                None
            },
            Some(Selection::Pane(i, j, k)) => if i < ss.len() && j < ss[i].windows.len() && k
                < ss[i].windows[j].panes.len() {
                let w = &ss[i].windows[j];
                Some(CutTarget::Pane { window_id: w.id.clone(), pane_id: w.panes[k].id.clone(), name: pane_label(k) })
            } else {
                None
            },
        }
    }

    /// Where `p` (or, with `peer`, `P`) pastes.
    pub fn paste_intent(&self, peer: bool) -> (r: Option<PasteIntent>)
        ensures
            opt_paste(r) == paste_of(self.sessions(), self.selection, opt_last(self.last_target), peer),
    {
        let ss = &self.snapshot.sessions;
        match self.selection {
            None => None,
            Some(Selection::Session(i)) => if peer {
                Some(PasteIntent::Session)
            } else if i < ss.len() {
                Some(PasteIntent::Window { session_id: ss[i].id.clone() })
            } else {
                None
            },
            Some(Selection::Window(i, _)) => if peer {
                if i < ss.len() {
                    Some(PasteIntent::Window { session_id: ss[i].id.clone() })
                } else {
                    None
                }
            } else {
                self.paste_to_pane()
            },
            Some(Selection::Pane(_, _, _)) => self.paste_to_pane(),
        }
    }

    fn paste_to_pane(&self) -> (r: Option<PasteIntent>)
        requires
            self.selection is Some,
        ensures
            opt_paste(r) == match destination_of(self.sessions(), self.selection->0, opt_last(self.last_target)) {
                Some(d) => Some(PasteV::Pane(d.0, d.1, d.2)),
                None => None,
            },
    {
        match self.selected_pane_destination() {
            Some((session_id, window_id, pane_id)) => Some(PasteIntent::Pane { session_id, window_id, pane_id }),
            None => None,
        }
    }

    /// What `o` creates.
    pub fn child_create_intent(&self) -> (r: Option<CreateIntent>)
        ensures
            opt_create(r) == child_create_of(self.sessions(), self.selection, opt_last(self.last_target)),
    {
        let ss = &self.snapshot.sessions;
        match self.selection {
            None => None,
            Some(Selection::Session(i)) => if i < ss.len() {
                Some(CreateIntent::NewWindow { session_id: ss[i].id.clone() })
            } else {
                None
            },
            Some(_) => match self.selected_pane_id() {
                Some(_) => Some(CreateIntent::NewPane),
                None => None,
            },
        }
    }

    /// What `O` creates.
    pub fn peer_create_intent(&self) -> (r: Option<CreateIntent>)
        ensures
            opt_create(r) == peer_create_of(self.sessions(), self.selection, opt_last(self.last_target)),
    {
        let ss = &self.snapshot.sessions;
        match self.selection {
            None => Some(CreateIntent::NewSession),
            Some(Selection::Session(_)) => Some(CreateIntent::NewSession),
            Some(Selection::Window(i, _)) => if i < ss.len() {
                Some(CreateIntent::NewWindow { session_id: ss[i].id.clone() })
            } else {
                None
            },
            Some(_) => match self.selected_pane_id() {
                Some(_) => Some(CreateIntent::NewPane),
                None => None,
            },
        }
    }
}

pub open spec fn opt_seq_of(o: Option<String>) -> Option<Seq<char>> {
    match o {
        Some(s) => Some(s@),
        None => None,
    }
}

pub open spec fn opt_triple(o: Option<(String, String, String)>) -> Option<(Seq<char>, Seq<char>, Seq<char>)> {
    match o {
        Some(t) => Some((t.0@, t.1@, t.2@)),
        None => None,
    }
}

pub open spec fn opt_cut(o: Option<CutTarget>) -> Option<CutV> {
    match o {
        Some(c) => Some(c@),
        None => None,
    }
}

pub open spec fn opt_paste(o: Option<PasteIntent>) -> Option<PasteV> {
    match o {
        Some(p) => Some(p@),
        None => None,
    }
}

pub open spec fn opt_create(o: Option<CreateIntent>) -> Option<CreateV> {
    match o {
        Some(c) => Some(c@),
        None => None,
    }
}

/// The first window with id `wid` among the first `n` sessions.
pub open spec fn window_anywhere(ss: Seq<SessionV>, wid: Seq<char>, n: int) -> Option<WindowV>
    decreases n,
{
    if n <= 0 {
        None
    } else {
        match window_anywhere(ss, wid, n - 1) {
            Some(w) => Some(w),
            None => match window_index(ss[n - 1], wid) {
                Some(j) => Some(ss[n - 1].windows[j]),
                None => None,
            },
        }
    }
}

pub open spec fn session_of_row(sel: Selection) -> int {
    match sel {
        Selection::Session(i) => i as int,
        Selection::Window(i, _) => i as int,
        Selection::Pane(i, _, _) => i as int,
    }
}

/// The name a session is renamed to: the typed name, else the name of its
/// active (or first) window where that is not blank, else `session`.
pub open spec fn session_name_for(ss: Seq<SessionV>, sel: Option<Selection>, value: Seq<char>) -> Seq<char> {
    if value.len() > 0 {
        value
    } else {
        match sel {
            Some(sel) if 0 <= session_of_row(sel) < ss.len() => {
                let s = ss[session_of_row(sel)];
                match or_first(active_window(s), s.windows.len()) {
                    Some(j) => if trim(s.windows[j].name).len() > 0 {
                        s.windows[j].name
                    } else {
                        "session"@
                    },
                    None => "session"@,
                }
            },
            _ => "session"@,
        }
    }
}

/// The name a window is renamed to: the typed name, else the command of its
/// active (or first) pane where that is not blank, else `window`.
pub open spec fn window_name_for(ss: Seq<SessionV>, wid: Seq<char>, value: Seq<char>) -> Seq<char> {
    if value.len() > 0 {
        value
    } else {
        match window_anywhere(ss, wid, ss.len() as int) {
            Some(w) => match base_pane(w) {
                Some(k) => if trim(w.panes[k].current_command).len() > 0 {
                    w.panes[k].current_command
                } else {
                    "window"@
                },
                None => "window"@,
            },
            None => "window"@,
        }
    }
}

impl App {
    pub fn default_session_name(&self, value: &str) -> (r: String)
        ensures
            r@ == session_name_for(self.sessions(), self.selection, value@),
    {
        if value.unicode_len() > 0 {
            return str_to_string(value);
        }
        let ss = &self.snapshot.sessions;
        let i = match self.selection {
            Some(Selection::Session(i)) => i,
            Some(Selection::Window(i, _)) => i,
            Some(Selection::Pane(i, _, _)) => i,
            None => return str_to_string("session"),
        };
        if i >= ss.len() {
            return str_to_string("session");
        }
        let s = &ss[i];
        let j = match find_active_window(s) {
            Some(j) => j,
            None => if s.windows.len() > 0 {
                0
            } else {
                return str_to_string("session");
            },
        };
        let name = &s.windows[j].name;
        if trim_string(name.as_str()).as_str().unicode_len() > 0 {
            name.clone()
        } else {
            str_to_string("session")
        }
    }

    pub fn default_window_name(&self, window_id: &str, value: &str) -> (r: String)
        ensures
            r@ == window_name_for(self.sessions(), window_id@, value@),
    {
        if value.unicode_len() > 0 {
            return str_to_string(value);
        }
        let ss = &self.snapshot.sessions;
        let ghost sv = self.sessions();
        let found = find_window_anywhere(ss, window_id);
        match found {
            None => {
                str_to_string("window")
            },
            Some((i, j)) => {
                proof {
                    assert(window_anywhere(sv, window_id@, i + 1) == Some(sv[i as int].windows[j as int]));
                    lemma_window_anywhere_stays(sv, window_id@, i + 1, sv.len() as int);
                }
                let w = &ss[i].windows[j];
                match base_pane_exec(w) {
                    None => str_to_string("window"),
                    Some(k) => {
                        let c = &w.panes[k].current_command;
                        if trim_string(c.as_str()).as_str().unicode_len() > 0 {
                            c.clone()
                        } else {
                            str_to_string("window")
                        }
                    },
                }
            },
        }
    }
}

/// Where the first window with id `wid` stands: its session and its index.
fn find_window_anywhere(ss: &Vec<Session>, wid: &str) -> (r: Option<(usize, usize)>)
    ensures
        match r {
            None => window_anywhere(session_views(ss@), wid@, ss@.len() as int) is None,
            Some((i, j)) => i < ss@.len() && j < ss@[i as int].windows@.len()
                && window_anywhere(session_views(ss@), wid@, i + 1) == Some(session_views(ss@)[i as int].windows[j as int]),
        },
{
    let ghost sv = session_views(ss@);
    let mut n: usize = 0;
    while n < ss.len()
        invariant
            0 <= n <= ss.len(),
            sv == session_views(ss@),
            window_anywhere(sv, wid@, n as int) is None,
        decreases ss.len() - n,
    {
        match find_window(&ss[n], wid) {
            Some(j) => {
                return Some((n, j));
            },
            None => {},
        }
        n += 1;
    }
    None
}

proof fn lemma_window_anywhere_stays(ss: Seq<SessionV>, wid: Seq<char>, a: int, b: int)
    requires
        0 <= a <= b,
        window_anywhere(ss, wid, a) is Some,
    ensures
        window_anywhere(ss, wid, b) == window_anywhere(ss, wid, a),
    decreases b - a,
{
    if b > a {
        lemma_window_anywhere_stays(ss, wid, a, b - 1);
    }
}

} // verus!
