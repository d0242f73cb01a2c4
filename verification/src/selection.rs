//! Finding rows by tmux ids, and choosing a selection again after the
//! snapshot or the filter changed.
use vstd::prelude::*;

use crate::app::{
    App, AppV, KeyV, Selection, SelectionKey, active_pane, active_window, attached_session,
    last_target_key, lemma_position, lemma_position_is, lemma_position_none, opt_seq, or_first,
    pane_index, position, session_index, shows_panes, shows_windows, valid_selection, window_index,
};
use crate::rows::{all_valid, visible};
use crate::tmux::{LastTarget, PaneV, Session, SessionV, Window, WindowV, session_views};

verus! {

pub open spec fn opt_int(o: Option<usize>) -> Option<int> {
    match o {
        Some(i) => Some(i as int),
        None => None,
    }
}

pub fn find_session(ss: &Vec<Session>, id: &str) -> (r: Option<usize>)
    ensures
        opt_int(r) == session_index(session_views(ss@), id@),
        r matches Some(i) ==> i < ss.len(),
{
    let ghost sv = session_views(ss@);
    let ghost p = |s: SessionV| s.id == id@;
    let idv = crate::text::str_to_string(id);
    let mut k: usize = 0;
    while k < ss.len()
        invariant
            idv@ == id@,
            p == (|s: SessionV| s.id == id@),
            0 <= k <= ss.len(),
            sv == session_views(ss@),
            forall|m: int| 0 <= m < k ==> !p(#[trigger] sv[m]),
        decreases ss.len() - k,
    {
        if ss[k].id == idv {
            proof {
                lemma_position_is(sv, p, k as int);
            }
            return Some(k);
        }
        k += 1;
    }
    proof {
        lemma_position_none(sv, p);
    }
    None
}

pub fn find_attached(ss: &Vec<Session>) -> (r: Option<usize>)
    ensures
        opt_int(r) == attached_session(session_views(ss@)),
        r matches Some(i) ==> i < ss.len(),
{
    let ghost sv = session_views(ss@);
    let ghost p = |s: SessionV| s.attached;
    let mut k: usize = 0;
    while k < ss.len()
        invariant
            p == (|s: SessionV| s.attached),
            0 <= k <= ss.len(),
            sv == session_views(ss@),
            forall|m: int| 0 <= m < k ==> !p(#[trigger] sv[m]),
        decreases ss.len() - k,
    {
        if ss[k].attached {
            proof {
                lemma_position_is(sv, p, k as int);
            }
            return Some(k);
        }
        k += 1;
    }
    proof {
        lemma_position_none(sv, p);
    }
    None
}

pub fn find_window(s: &Session, id: &str) -> (r: Option<usize>)
    ensures
        opt_int(r) == window_index(s@, id@),
        r matches Some(i) ==> i < s.windows.len(),
{
    let ghost wv = s@.windows;
    let ghost p = |w: WindowV| w.id == id@;
    let idv = crate::text::str_to_string(id);
    let mut k: usize = 0;
    while k < s.windows.len()
        invariant
            idv@ == id@,
            p == (|w: WindowV| w.id == id@),
            0 <= k <= s.windows.len(),
            wv == s@.windows,
            forall|m: int| 0 <= m < k ==> !p(#[trigger] wv[m]),
        decreases s.windows.len() - k,
    {
        if s.windows[k].id == idv {
            proof {
                lemma_position_is(wv, p, k as int);
            }
            return Some(k);
        }
        k += 1;
    }
    proof {
        lemma_position_none(wv, p);
    }
    None
}

pub fn find_active_window(s: &Session) -> (r: Option<usize>)
    ensures
        opt_int(r) == active_window(s@),
        r matches Some(i) ==> i < s.windows.len(),
{
    let ghost wv = s@.windows;
    let ghost p = |w: WindowV| w.active;
    let mut k: usize = 0;
    while k < s.windows.len()
        invariant
            p == (|w: WindowV| w.active),
            0 <= k <= s.windows.len(),
            wv == s@.windows,
            forall|m: int| 0 <= m < k ==> !p(#[trigger] wv[m]),
        decreases s.windows.len() - k,
    {
        if s.windows[k].active {
            proof {
                lemma_position_is(wv, p, k as int);
            }
            return Some(k);
        }
        k += 1;
    }
    proof {
        lemma_position_none(wv, p);
    }
    None
}

pub fn find_pane(w: &Window, id: &str) -> (r: Option<usize>)
    ensures
        opt_int(r) == pane_index(w@, id@),
        r matches Some(i) ==> i < w.panes.len(),
{
    let ghost pv = w@.panes;
    let ghost p = |q: PaneV| q.id == id@;
    let idv = crate::text::str_to_string(id);
    let mut k: usize = 0;
    while k < w.panes.len()
        invariant
            idv@ == id@,
            p == (|q: PaneV| q.id == id@),
            0 <= k <= w.panes.len(),
            pv == w@.panes,
            forall|m: int| 0 <= m < k ==> !p(#[trigger] pv[m]),
        decreases w.panes.len() - k,
    {
        if w.panes[k].id == idv {
            proof {
                lemma_position_is(pv, p, k as int);
            }
            return Some(k);
        }
        k += 1;
    }
    proof {
        lemma_position_none(pv, p);
    }
    None
}

pub fn find_active_pane(w: &Window) -> (r: Option<usize>)
    ensures
        opt_int(r) == active_pane(w@),
        r matches Some(i) ==> i < w.panes.len(),
{
    let ghost pv = w@.panes;
    let ghost p = |q: PaneV| q.active;
    let mut k: usize = 0;
    while k < w.panes.len()
        invariant
            p == (|q: PaneV| q.active),
            0 <= k <= w.panes.len(),
            pv == w@.panes,
            forall|m: int| 0 <= m < k ==> !p(#[trigger] pv[m]),
        decreases w.panes.len() - k,
    {
        if w.panes[k].active {
            proof {
                lemma_position_is(pv, p, k as int);
            }
            return Some(k);
        }
        k += 1;
    }
    proof {
        lemma_position_none(pv, p);
    }
    None
}

pub(crate) fn or_first_exec(o: Option<usize>, len: usize) -> (r: Option<usize>)
    ensures
        opt_int(r) == or_first(opt_int(o), len as nat),
        r matches Some(i) ==> (o matches Some(j) && i == j) || (o is None && i == 0 && len > 0),
{
    match o {
        Some(i) => Some(i),
        None => if len > 0 {
            Some(0)
        } else {
            None
        },
    }
}

/// The row for a window, or for one of its panes, found by ids: with `pid`
/// empty the active pane; the first pane stands on the window's row.
pub open spec fn sel_for_ids(ss: Seq<SessionV>, sid: Seq<char>, wid: Seq<char>, pid: Seq<char>) -> Option<Selection> {
    match session_index(ss, sid) {
        None => None,
        Some(i) => {
            let s = ss[i];
            match window_index(s, wid) {
                None => None,
                Some(j) => {
                    let w = s.windows[j];
                    if shows_panes(w) {
                        let k = or_first(
                            if pid.len() == 0 {
                                active_pane(w)
                            } else {
                                pane_index(w, pid)
                            },
                            w.panes.len(),
                        );
                        match k {
                            None => None,
                            Some(k) => if k == 0 {
                                Some(Selection::Window(i as usize, j as usize))
                            } else {
                                Some(Selection::Pane(i as usize, j as usize, k as usize))
                            },
                        }
                    } else if shows_windows(s) {
                        Some(Selection::Window(i as usize, j as usize))
                    } else {
                        Some(Selection::Session(i as usize))
                    }
                },
            }
        },
    }
}

pub open spec fn sel_for_session(ss: Seq<SessionV>, sid: Seq<char>) -> Option<Selection> {
    match session_index(ss, sid) {
        Some(i) => Some(Selection::Session(i as usize)),
        None => None,
    }
}

pub open spec fn pane_or_empty(p: Option<Seq<char>>) -> Seq<char> {
    match p {
        Some(p) => p,
        None => Seq::<char>::empty(),
    }
}

pub open spec fn sel_from_last_target(ss: Seq<SessionV>, t: KeyV) -> Option<Selection> {
    match t.window_id {
        Some(w) => sel_for_ids(ss, t.session_id, w, pane_or_empty(t.pane_id)),
        None => sel_for_session(ss, t.session_id),
    }
}

/// The row that a remembered key names now.
pub open spec fn sel_from_key(ss: Seq<SessionV>, k: KeyV) -> Option<Selection> {
    match k.window_id {
        Some(w) => if k.pane_id is None {
            match session_index(ss, k.session_id) {
                None => None,
                Some(i) => match window_index(ss[i], w) {
                    None => None,
                    Some(j) => if shows_windows(ss[i]) {
                        Some(Selection::Window(i as usize, j as usize))
                    } else {
                        sel_for_ids(ss, k.session_id, w, Seq::<char>::empty())
                    },
                },
            }
        } else {
            sel_for_ids(ss, k.session_id, w, pane_or_empty(k.pane_id))
        },
        None => sel_for_session(ss, k.session_id),
    }
}

/// The ids of a row.
pub open spec fn key_of(ss: Seq<SessionV>, sel: Selection) -> Option<KeyV> {
    if !valid_selection(ss, sel) {
        None
    } else {
        match sel {
            Selection::Session(i) => Some(KeyV { session_id: ss[i as int].id, window_id: None, pane_id: None }),
            Selection::Window(i, j) => Some(
                KeyV {
                    session_id: ss[i as int].id,
                    window_id: Some(ss[i as int].windows[j as int].id),
                    pane_id: None,
                },
            ),
            Selection::Pane(i, j, k) => Some(
                KeyV {
                    session_id: ss[i as int].id,
                    window_id: Some(ss[i as int].windows[j as int].id),
                    pane_id: Some(ss[i as int].windows[j as int].panes[k as int].id),
                },
            ),
        }
    }
}

pub open spec fn opt_key(k: Option<SelectionKey>) -> Option<KeyV> {
    match k {
        Some(k) => Some(k@),
        None => None,
    }
}

impl App {
    pub fn selection_for_ids(&self, session_id: &str, window_id: &str, pane_id: &str) -> (r: Option<Selection>)
        ensures
            r == sel_for_ids(self.sessions(), session_id@, window_id@, pane_id@),
    {
        let ss = &self.snapshot.sessions;
        let i = match find_session(ss, session_id) {
            Some(i) => i,
            None => return None,
        };
        let s = &ss[i];
        let j = match find_window(s, window_id) {
            Some(j) => j,
            None => return None,
        };
        let w = &s.windows[j];
        if self.should_show_panes(s, w) {
            let found = if pane_id.unicode_len() == 0 {
                find_active_pane(w)
            } else {
                find_pane(w, pane_id)
            };
            let k = match or_first_exec(found, w.panes.len()) {
                Some(k) => k,
                None => return None,
            };
            if k == 0 {
                return Some(Selection::Window(i, j));
            }
            return Some(Selection::Pane(i, j, k));
        }
        if self.should_show_windows(s) {
            return Some(Selection::Window(i, j));
        }
        Some(Selection::Session(i))
    }

    pub fn selection_for_window(&self, session_id: &str, window_id: &str) -> (r: Option<Selection>)
        ensures
            r == sel_for_ids(self.sessions(), session_id@, window_id@, Seq::<char>::empty()),
    {
        proof {
            reveal_strlit("");
        }
        self.selection_for_ids(session_id, window_id, "")
    }

    pub fn selection_for_session(&self, session_id: &str) -> (r: Option<Selection>)
        ensures
            r == sel_for_session(self.sessions(), session_id@),
    {
        match find_session(&self.snapshot.sessions, session_id) {
            Some(i) => Some(Selection::Session(i)),
            None => None,
        }
    }

    pub fn selection_from_last_target(&self, target: &LastTarget) -> (r: Option<Selection>)
        ensures
            r == sel_from_last_target(self.sessions(), last_target_key(*target)),
    {
        match &target.window_id {
            Some(window_id) => {
                let pane = match &target.pane_id {
                    Some(p) => p.as_str(),
                    None => "",
                };
                proof {
                    reveal_strlit("");
                }
                self.selection_for_ids(target.session_id.as_str(), window_id.as_str(), pane)
            },
            None => self.selection_for_session(target.session_id.as_str()),
        }
    }

    /// The ids of the selected row.
    pub fn selection_key(&self) -> (r: Option<SelectionKey>)
        ensures
            opt_key(r) == match self.selection {
                Some(sel) => key_of(self.sessions(), sel),
                None => None,
            },
    {
        let ss = &self.snapshot.sessions;
        match self.selection {
            None => None,
            Some(Selection::Session(i)) => {
                if i < ss.len() {
                    Some(SelectionKey { session_id: ss[i].id.clone(), window_id: None, pane_id: None })
                } else {
                    None
                }
            },
            Some(Selection::Window(i, j)) => {
                if i < ss.len() && j < ss[i].windows.len() {
                    Some(
                        SelectionKey {
                            session_id: ss[i].id.clone(),
                            window_id: Some(ss[i].windows[j].id.clone()),
                            pane_id: None,
                        },
                    )
                } else {
                    None
                }
            },
            Some(Selection::Pane(i, j, k)) => {
                if i < ss.len() && j < ss[i].windows.len() && k < ss[i].windows[j].panes.len() {
                    Some(
                        SelectionKey {
                            session_id: ss[i].id.clone(),
                            window_id: Some(ss[i].windows[j].id.clone()),
                            pane_id: Some(ss[i].windows[j].panes[k].id.clone()),
                        },
                    )
                } else {
                    None
                }
            },
        }
    }

    /// The row that a remembered selection names now.
    pub fn selection_from_key(&self, key: &SelectionKey) -> (r: Option<Selection>)
        ensures
            r == sel_from_key(self.sessions(), key@),
    {
        proof {
            reveal_strlit("");
        }
        if let Some(window_id) = &key.window_id {
            if key.pane_id.is_none() {
                let ss = &self.snapshot.sessions;
                let i = match find_session(ss, key.session_id.as_str()) {
                    Some(i) => i,
                    None => return None,
                };
                let s = &ss[i];
                let j = match find_window(s, window_id.as_str()) {
                    Some(j) => j,
                    None => return None,
                };
                if self.should_show_windows(s) {
                    return Some(Selection::Window(i, j));
                }
            }
            let pane = match &key.pane_id {
                Some(p) => p.as_str(),
                None => "",
            };
            return self.selection_for_ids(key.session_id.as_str(), window_id.as_str(), pane);
        }
        self.selection_for_session(key.session_id.as_str())
    }
}

/// The row of pane `k` of window `j`: the first pane stands on its window's row.
pub open spec fn pane_row(i: int, j: int, k: int) -> Selection {
    if k == 0 {
        Selection::Window(i as usize, j as usize)
    } else {
        Selection::Pane(i as usize, j as usize, k as usize)
    }
}

/// The pane to select in a window: the remembered one, else the active
/// one, else the first.
pub open spec fn pane_choice(w: WindowV, pid: Option<Seq<char>>) -> Option<int> {
    let by_id = match pid {
        Some(p) => pane_index(w, p),
        None => None,
    };
    match by_id {
        Some(k) => Some(k),
        None => or_first(active_pane(w), w.panes.len()),
    }
}

/// The choice by the remembered window, where it still exists: `Some` when
/// it decides, `None` when the next rule decides.
pub open spec fn previous_by_window(ss: Seq<SessionV>, i: int, key: KeyV, wid: Seq<char>) -> Option<Option<Selection>> {
    let s = ss[i];
    match window_index(s, wid) {
        None => None,
        Some(j) => {
            let w = s.windows[j];
            if key.pane_id is None && shows_windows(s) {
                Some(Some(Selection::Window(i as usize, j as usize)))
            } else if shows_panes(w) {
                Some(
                    match pane_choice(w, key.pane_id) {
                        None => None,
                        Some(k) => Some(pane_row(i, j, k)),
                    },
                )
            } else if shows_windows(s) {
                Some(Some(Selection::Window(i as usize, j as usize)))
            } else {
                None
            }
        },
    }
}

/// The choice by the session's active window.
pub open spec fn previous_by_active(ss: Seq<SessionV>, i: int) -> Option<Option<Selection>> {
    let s = ss[i];
    match or_first(active_window(s), s.windows.len()) {
        None => None,
        Some(j) => {
            let w = s.windows[j];
            if shows_panes(w) {
                Some(
                    match or_first(active_pane(w), w.panes.len()) {
                        None => None,
                        Some(k) => Some(pane_row(i, j, k)),
                    },
                )
            } else if shows_windows(s) {
                Some(Some(Selection::Window(i as usize, j as usize)))
            } else {
                None
            }
        },
    }
}

/// A row in the session of a remembered selection: the remembered window
/// (or pane) if it is still there, else the session's active window, else
/// the session itself.
pub open spec fn sel_in_previous_session(ss: Seq<SessionV>, key: KeyV) -> Option<Selection> {
    match session_index(ss, key.session_id) {
        None => None,
        Some(i) => match key.window_id {
            None => Some(Selection::Session(i as usize)),
            Some(wid) => match previous_by_window(ss, i, key, wid) {
                Some(x) => x,
                None => match previous_by_active(ss, i) {
                    Some(x) => x,
                    None => Some(Selection::Session(i as usize)),
                },
            },
        },
    }
}

pub open spec fn is_session_row(sel: Selection) -> bool {
    sel is Session
}

/// The nearest session row to `start`, looking `offset` rows away and
/// further, the earlier row first at each distance.
pub open spec fn adjacent_from(vis: Seq<Selection>, start: int, offset: int) -> Option<Selection>
    decreases vis.len() - offset,
{
    if offset >= vis.len() || offset < 0 {
        None
    } else if offset <= start && start - offset < vis.len() && is_session_row(vis[start - offset]) {
        Some(vis[start - offset])
    } else if offset > 0 && start + offset < vis.len() && is_session_row(vis[start + offset]) {
        Some(vis[start + offset])
    } else {
        adjacent_from(vis, start, offset + 1)
    }
}

/// The session row nearest to where the selection was.
pub open spec fn adjacent(vis: Seq<Selection>, prev: Option<usize>) -> Option<Selection> {
    let last = if vis.len() > 0 {
        vis.len() - 1
    } else {
        0
    };
    let start = match prev {
        Some(i) => if i < last {
            i as int
        } else {
            last
        },
        None => 0,
    };
    adjacent_from(vis, start, 0)
}

/// The selection to start from: the target tmux remembers, else the
/// attached session, else the first session; with nothing remembered, the
/// active window (or pane) of that session.
pub open spec fn preferred(ss: Seq<SessionV>, last: Option<KeyV>) -> Option<Selection> {
    let remembered = match last {
        Some(t) => match sel_from_last_target(ss, t) {
            Some(sel) => Some(sel),
            None => match attached_session(ss) {
                Some(i) => Some(Selection::Session(i as usize)),
                None => if ss.len() > 0 {
                    Some(Selection::Session(0))
                } else {
                    None
                },
            },
        },
        None => None,
    };
    match remembered {
        Some(sel) => Some(sel),
        None => match or_first(attached_session(ss), ss.len()) {
            None => None,
            Some(i) => {
                let s = ss[i];
                match or_first(active_window(s), s.windows.len()) {
                    Some(j) => {
                        let w = s.windows[j];
                        if shows_windows(s) {
                            Some(Selection::Window(i as usize, j as usize))
                        } else if shows_panes(w) {
                            match or_first(active_pane(w), w.panes.len()) {
                                None => None,
                                Some(k) => Some(Selection::Pane(i as usize, j as usize, k as usize)),
                            }
                        } else {
                            Some(Selection::Session(i as usize))
                        }
                    },
                    None => Some(Selection::Session(i as usize)),
                }
            },
        },
    }
}

pub open spec fn visible_choice(vis: Seq<Selection>, c: Option<Selection>) -> bool {
    c matches Some(x) && vis.contains(x)
}

/// The selection after the rows changed, given the key and the row index
/// of the previous selection: the same item if it is still visible, else a
/// row in its session, else the nearest session row, else the row at the
/// same position, else the preferred row, else the first row.
pub open spec fn reconciled(
    ss: Seq<SessionV>,
    filter: Seq<char>,
    last: Option<KeyV>,
    prev_key: Option<KeyV>,
    prev_index: Option<usize>,
) -> Option<Selection> {
    let vis = visible(ss, filter);
    if vis.len() == 0 {
        None
    } else {
        let a = match prev_key {
            Some(k) => sel_from_key(ss, k),
            None => None,
        };
        let b = match prev_key {
            Some(k) => sel_in_previous_session(ss, k),
            None => None,
        };
        let c = if prev_key is Some {
            adjacent(vis, prev_index)
        } else {
            None
        };
        if visible_choice(vis, a) {
            a
        } else if visible_choice(vis, b) {
            b
        } else if visible_choice(vis, c) {
            c
        } else {
            match prev_index {
                Some(idx) => Some(
                    if (idx as int) < vis.len() {
                        vis[idx as int]
                    } else {
                        vis.last()
                    },
                ),
                None => {
                    let d = preferred(ss, last);
                    if visible_choice(vis, d) {
                        d
                    } else {
                        Some(vis[0])
                    }
                },
            }
        }
    }
}

pub open spec fn opt_last(t: Option<LastTarget>) -> Option<KeyV> {
    match t {
        Some(t) => Some(last_target_key(t)),
        None => None,
    }
}

pub fn rows_contain(rows: &Vec<Selection>, sel: Selection) -> (r: bool)
    ensures
        r == rows@.contains(sel),
{
    let mut k: usize = 0;
    while k < rows.len()
        invariant
            0 <= k <= rows.len(),
            forall|m: int| 0 <= m < k ==> rows@[m] != sel,
        decreases rows.len() - k,
    {
        if rows[k] == sel {
            assert(rows@[k as int] == sel);
            return true;
        }
        k += 1;
    }
    false
}

fn visible_pick(rows: &Vec<Selection>, c: Option<Selection>) -> (r: bool)
    ensures
        r == visible_choice(rows@, c),
{
    match c {
        Some(x) => rows_contain(rows, x),
        None => false,
    }
}

impl App {
    /// A row in the session of a remembered selection.
    pub fn selection_in_previous_session(&self, key: &SelectionKey) -> (r: Option<Selection>)
        ensures
            r == sel_in_previous_session(self.sessions(), key@),
    {
        let ghost ss = self.sessions();
        let sessions = &self.snapshot.sessions;
        let i = match find_session(sessions, key.session_id.as_str()) {
            Some(i) => i,
            None => return None,
        };
        let s = &sessions[i];
        if let Some(window_id) = &key.window_id {
            if let Some(j) = find_window(s, window_id.as_str()) {
                let w = &s.windows[j];
                if key.pane_id.is_none() && self.should_show_windows(s) {
                    return Some(Selection::Window(i, j));
                }
                if self.should_show_panes(s, w) {
                    let by_id = match &key.pane_id {
                        Some(p) => find_pane(w, p.as_str()),
                        None => None,
                    };
                    let k = match by_id {
                        Some(k) => Some(k),
                        None => or_first_exec(find_active_pane(w), w.panes.len()),
                    };
                    let k = match k {
                        Some(k) => k,
                        None => return None,
                    };
                    if k == 0 {
                        return Some(Selection::Window(i, j));
                    }
                    return Some(Selection::Pane(i, j, k));
                }
                if self.should_show_windows(s) {
                    return Some(Selection::Window(i, j));
                }
            }
            if let Some(j) = or_first_exec(find_active_window(s), s.windows.len()) {
                let w = &s.windows[j];
                if self.should_show_panes(s, w) {
                    let k = match or_first_exec(find_active_pane(w), w.panes.len()) {
                        Some(k) => k,
                        None => return None,
                    };
                    if k == 0 {
                        return Some(Selection::Window(i, j));
                    }
                    return Some(Selection::Pane(i, j, k));
                }
                if self.should_show_windows(s) {
                    return Some(Selection::Window(i, j));
                }
            }
        }
        Some(Selection::Session(i))
    }

    /// The session row nearest to the previous row position.
    pub fn selection_adjacent_to_removed_session(&self, previous_index: Option<usize>, visible: &Vec<Selection>) -> (r: Option<Selection>)
        ensures
            r == adjacent(visible@, previous_index),
    {
        let last = if visible.len() > 0 {
            visible.len() - 1
        } else {
            0
        };
        let start = match previous_index {
            Some(i) => if i < last {
                i
            } else {
                last
            },
            None => 0,
        };
        let mut offset: usize = 0;
        while offset < visible.len()
            invariant
                0 <= offset <= visible.len(),
                start as int == match previous_index {
                    Some(i) => if i < last {
                        i as int
                    } else {
                        last as int
                    },
                    None => 0,
                },
                last as int == if visible@.len() > 0 {
                    visible@.len() - 1
                } else {
                    0
                },
                adjacent(visible@, previous_index) == adjacent_from(visible@, start as int, offset as int),
            decreases visible.len() - offset,
        {
            if offset <= start && start - offset < visible.len() {
                let cand = visible[start - offset];
                if let Selection::Session(_) = cand {
                    return Some(cand);
                }
            }
            if offset > 0 && start < visible.len() && offset < visible.len() - start {
                let cand = visible[start + offset];
                if let Selection::Session(_) = cand {
                    return Some(cand);
                }
            }
            offset += 1;
        }
        None
    }

    /// The row to start from when nothing else decides.
    pub fn preferred_selection(&self) -> (r: Option<Selection>)
        ensures
            r == preferred(self.sessions(), opt_last(self.last_target)),
    {
        let ss = &self.snapshot.sessions;
        if let Some(target) = &self.last_target {
            if let Some(sel) = self.selection_from_last_target(target) {
                return Some(sel);
            }
            if let Some(i) = find_attached(ss) {
                return Some(Selection::Session(i));
            }
            if ss.len() > 0 {
                return Some(Selection::Session(0));
            }
        }
        let i = match or_first_exec(find_attached(ss), ss.len()) {
            Some(i) => i,
            None => return None,
        };
        let s = &ss[i];
        if let Some(j) = or_first_exec(find_active_window(s), s.windows.len()) {
            let w = &s.windows[j];
            if self.should_show_windows(s) {
                return Some(Selection::Window(i, j));
            }
            if self.should_show_panes(s, w) {
                let k = match or_first_exec(find_active_pane(w), w.panes.len()) {
                    Some(k) => k,
                    None => return None,
                };
                return Some(Selection::Pane(i, j, k));
            }
        }
        Some(Selection::Session(i))
    }

    /// Chooses the selection again after the rows changed.
    pub fn reconcile_selection(&mut self, previous_selection: Option<&SelectionKey>, previous_index: Option<usize>)
        ensures
            final(self)@ == (AppV { selection: final(self).selection, ..old(self)@ }),
            final(self).selection == reconciled(
                old(self).sessions(),
                old(self).filter@,
                opt_last(old(self).last_target),
                match previous_selection {
                    Some(k) => Some(k@),
                    None => None,
                },
                previous_index,
            ),
            final(self).snapshot == old(self).snapshot,
            final(self).filter == old(self).filter,
            final(self).last_target == old(self).last_target,
            final(self).mode == old(self).mode,
            final(self).search == old(self).search,
            final(self).input == old(self).input,
            final(self).status == old(self).status,
            final(self).preview == old(self).preview,
            final(self).cut_target == old(self).cut_target,
            final(self).count_prefix == old(self).count_prefix,
            final(self).pending_g == old(self).pending_g,
            final(self).should_quit == old(self).should_quit,
            final(self).attach_target == old(self).attach_target,
            final(self).focus == old(self).focus,
            final(self).tmux == old(self).tmux,
            final(self).pinned_pane == old(self).pinned_pane,
            final(self).caffeinated_targets == old(self).caffeinated_targets,
            final(self).pending == old(self).pending,
    {
        let visible = self.visible_rows();
        if visible.len() == 0 {
            self.selection = None;
            return;
        }
        let a = match previous_selection {
            Some(k) => self.selection_from_key(k),
            None => None,
        };
        if visible_pick(&visible, a) {
            self.selection = a;
            return;
        }
        let b = match previous_selection {
            Some(k) => self.selection_in_previous_session(k),
            None => None,
        };
        if visible_pick(&visible, b) {
            self.selection = b;
            return;
        }
        let c = if previous_selection.is_some() {
            self.selection_adjacent_to_removed_session(previous_index, &visible)
        } else {
            None
        };
        if visible_pick(&visible, c) {
            self.selection = c;
            return;
        }
        if let Some(index) = previous_index {
            let sel = if index < visible.len() {
                visible[index]
            } else {
                visible[visible.len() - 1]
            };
            self.selection = Some(sel);
            return;
        }
        let d = self.preferred_selection();
        if visible_pick(&visible, d) {
            self.selection = d;
        } else {
            self.selection = Some(visible[0]);
        }
    }
}

/// After the rows change, the selection is one of the visible rows, and
/// there is none exactly when no row is visible.
pub proof fn lemma_reconciled_visible(
    ss: Seq<SessionV>,
    filter: Seq<char>,
    last: Option<KeyV>,
    prev_key: Option<KeyV>,
    prev_index: Option<usize>,
)
    ensures
        ({
            let vis = visible(ss, filter);
            let r = reconciled(ss, filter, last, prev_key, prev_index);
            &&& (r is None <==> vis.len() == 0)
            &&& (r matches Some(x) ==> vis.contains(x))
        }),
{
    let vis = visible(ss, filter);
    if vis.len() > 0 {
        assert(vis.contains(vis[0]));
        assert(vis.contains(vis.last()));
        match prev_index {
            Some(idx) => {
                if (idx as int) < vis.len() {
                    assert(vis.contains(vis[idx as int]));
                }
            },
            None => {},
        }
    }
}

/// Sessions have distinct ids, and so do the windows of a session and the
/// panes of a window.
pub open spec fn unique_ids(ss: Seq<SessionV>) -> bool {
    &&& forall|a: int, b: int| 0 <= a < b < ss.len() ==> #[trigger] ss[a].id != #[trigger] ss[b].id
    &&& forall|i: int, a: int, b: int|
        0 <= i < ss.len() && 0 <= a < b < ss[i].windows.len() ==> #[trigger] ss[i].windows[a].id
            != #[trigger] ss[i].windows[b].id
    &&& forall|i: int, j: int, a: int, b: int|
        0 <= i < ss.len() && 0 <= j < ss[i].windows.len() && 0 <= a < b < ss[i].windows[j].panes.len()
            ==> #[trigger] ss[i].windows[j].panes[a].id != #[trigger] ss[i].windows[j].panes[b].id
}

/// The ids of a visible row lead back to that row, where ids are unique
/// (and pane ids, as tmux gives them, are not empty).
pub proof fn lemma_key_round_trip(ss: Seq<SessionV>, filter: Seq<char>, x: Selection)
    requires
        crate::keys::bounded(ss),
        unique_ids(ss),
        forall|i: int, j: int, k: int|
            0 <= i < ss.len() && 0 <= j < ss[i].windows.len() && 0 <= k < ss[i].windows[j].panes.len()
                ==> #[trigger] ss[i].windows[j].panes[k].id.len() > 0,
        visible(ss, filter).contains(x),
    ensures
        key_of(ss, x) is Some,
        sel_from_key(ss, key_of(ss, x)->0) == Some(x),
{
    let v = visible(ss, filter);
    crate::rows::lemma_visible_shaped(ss, crate::text::lowercase(filter), ss.len() as int);
    let r = choose|r: int| 0 <= r < v.len() && v[r] == x;
    assert(crate::rows::shaped_row(ss, v[r]));
    match x {
        Selection::Session(i) => {
            let id = ss[i as int].id;
            lemma_position_is(ss, |t: SessionV| t.id == id, i as int);
        },
        Selection::Window(i, j) => {
            let id = ss[i as int].id;
            let wid = ss[i as int].windows[j as int].id;
            lemma_position_is(ss, |t: SessionV| t.id == id, i as int);
            lemma_position_is(ss[i as int].windows, |t: WindowV| t.id == wid, j as int);
        },
        Selection::Pane(i, j, k) => {
            let id = ss[i as int].id;
            let w = ss[i as int].windows[j as int];
            lemma_position_is(ss, |t: SessionV| t.id == id, i as int);
            lemma_position_is(ss[i as int].windows, |t: WindowV| t.id == w.id, j as int);
            lemma_position_is(w.panes, |t: PaneV| t.id == w.panes[k as int].id, k as int);
            assert(w.panes[k as int].id.len() > 0);
        },
    }
}

} // verus!
