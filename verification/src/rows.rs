//! The rows of the tree that a filter leaves visible, and the labels that the
//! filter and the search match against.
use vstd::prelude::*;

use crate::app::{App, Selection, shows_panes, shows_windows, valid_selection};
use crate::text::{
    chars_of, contains, contains_chars, decimal, decimal_string, lowercase, push_str, starts_with,
    starts_with_chars, to_lowercase,
};
use crate::tmux::{PaneV, SessionV, Window, WindowV};

verus! {

/// The label of the pane at `pane_idx`: panes count from one in each window.
pub open spec fn pane_label_spec(pane_idx: nat) -> Seq<char> {
    decimal(pane_idx + 1)
}

/// The tree label of a window: its name, with ` 1` for its first pane when
/// it has several.
pub open spec fn window_label(w: WindowV) -> Seq<char> {
    if w.panes.len() > 1 {
        w.name + " 1"@
    } else {
        w.name
    }
}

pub fn pane_label(pane_idx: usize) -> (r: String)
    requires
        pane_idx < usize::MAX,
    ensures
        r@ == pane_label_spec(pane_idx as nat),
{
    decimal_string((pane_idx + 1) as u64)
}

pub fn window_tree_label(window: &Window) -> (r: String)
    ensures
        r@ == window_label(window@),
{
    if window.panes.len() > 1 {
        let mut s = window.name.clone();
        push_str(&mut s, " 1");
        s
    } else {
        window.name.clone()
    }
}

/// A filter matches text that holds it, ignoring case; an empty filter
/// matches everything. `needle` is the lower-cased filter.
pub open spec fn filter_match(hay: Seq<char>, needle: Seq<char>) -> bool {
    needle.len() == 0 || contains(lowercase(hay), needle)
}

/// A search matches text that starts with it, ignoring case.
pub open spec fn search_match(hay: Seq<char>, needle: Seq<char>) -> bool {
    needle.len() == 0 || starts_with(lowercase(hay), needle)
}

pub fn matches_filter(haystack: &str, needle: &Vec<char>) -> (r: bool)
    ensures
        r == filter_match(haystack@, needle@),
{
    if needle.len() == 0 {
        return true;
    }
    let low = to_lowercase(haystack);
    contains_chars(&chars_of(low.as_str()), needle)
}

pub fn matches_search(haystack: &str, needle: &Vec<char>) -> (r: bool)
    ensures
        r == search_match(haystack@, needle@),
{
    if needle.len() == 0 {
        return true;
    }
    let low = to_lowercase(haystack);
    starts_with_chars(&chars_of(low.as_str()), needle)
}

pub open spec fn session_hit(s: SessionV, needle: Seq<char>) -> bool {
    filter_match(s.name, needle)
}

pub open spec fn window_hit(w: WindowV, needle: Seq<char>) -> bool {
    filter_match(window_label(w), needle)
}

pub open spec fn pane_hit(p: PaneV, k: nat, needle: Seq<char>) -> bool {
    filter_match(pane_label_spec(k), needle) || filter_match(p.current_command, needle) || filter_match(
        p.current_path,
        needle,
    )
}

/// Rows for panes `1..k` of window `j` of session `i`: the first pane is
/// shown on the window's own row.
pub open spec fn pane_rows(ss: Seq<SessionV>, needle: Seq<char>, i: int, j: int, k: int) -> Seq<Selection>
    decreases k,
{
    if k <= 1 {
        seq![]
    } else {
        let s = ss[i];
        let w = s.windows[j];
        pane_rows(ss, needle, i, j, k - 1) + if shows_panes(w) && (session_hit(s, needle) || window_hit(
            w,
            needle,
        ) || pane_hit(w.panes[k - 1], (k - 1) as nat, needle)) {
            seq![Selection::Pane(i as usize, j as usize, (k - 1) as usize)]
        } else {
            seq![]
        }
    }
}

/// The rows of window `j` of session `i`: its own row, then its panes.
pub open spec fn window_entry(ss: Seq<SessionV>, needle: Seq<char>, i: int, j: int) -> Seq<Selection> {
    let s = ss[i];
    let w = s.windows[j];
    (if shows_windows(s) && (session_hit(s, needle) || window_hit(w, needle)) {
        seq![Selection::Window(i as usize, j as usize)]
    } else {
        seq![]
    }) + pane_rows(ss, needle, i, j, w.panes.len() as int)
}

/// The rows of the first `m` windows of session `i`.
pub open spec fn window_rows(ss: Seq<SessionV>, needle: Seq<char>, i: int, m: int) -> Seq<Selection>
    decreases m,
{
    if m <= 0 {
        seq![]
    } else {
        window_rows(ss, needle, i, m - 1) + window_entry(ss, needle, i, m - 1)
    }
}

/// The rows of session `i`: its own row, then its windows.
pub open spec fn session_entry(ss: Seq<SessionV>, needle: Seq<char>, i: int) -> Seq<Selection> {
    (if session_hit(ss[i], needle) {
        seq![Selection::Session(i as usize)]
    } else {
        seq![]
    }) + window_rows(ss, needle, i, ss[i].windows.len() as int)
}

/// The rows of the first `n` sessions.
pub open spec fn session_rows(ss: Seq<SessionV>, needle: Seq<char>, n: int) -> Seq<Selection>
    decreases n,
{
    if n <= 0 {
        seq![]
    } else {
        session_rows(ss, needle, n - 1) + session_entry(ss, needle, n - 1)
    }
}

/// The visible rows of the tree under a filter.
pub open spec fn visible(ss: Seq<SessionV>, filter: Seq<char>) -> Seq<Selection> {
    session_rows(ss, lowercase(filter), ss.len() as int)
}

pub open spec fn all_valid(ss: Seq<SessionV>, rows: Seq<Selection>) -> bool {
    forall|r: int| 0 <= r < rows.len() ==> valid_selection(ss, #[trigger] rows[r])
}

proof fn lemma_pane_rows_valid(ss: Seq<SessionV>, needle: Seq<char>, i: int, j: int, k: int)
    requires
        0 <= i < ss.len(),
        0 <= j < ss[i].windows.len(),
        k <= ss[i].windows[j].panes.len(),
        i < usize::MAX && j < usize::MAX,
    ensures
        all_valid(ss, pane_rows(ss, needle, i, j, k)),
    decreases k,
{
    if k > 1 {
        lemma_pane_rows_valid(ss, needle, i, j, k - 1);
        let a = pane_rows(ss, needle, i, j, k - 1);
        let r = pane_rows(ss, needle, i, j, k);
        assert forall|x: int| 0 <= x < r.len() implies valid_selection(ss, #[trigger] r[x]) by {
            if x < a.len() {
                assert(r[x] == a[x]);
            }
        }
    }
}

proof fn lemma_window_rows_valid(ss: Seq<SessionV>, needle: Seq<char>, i: int, m: int)
    requires
        0 <= i < ss.len(),
        m <= ss[i].windows.len(),
        i < usize::MAX,
        ss[i].windows.len() <= usize::MAX,
    ensures
        all_valid(ss, window_rows(ss, needle, i, m)),
    decreases m,
{
    if m > 0 {
        lemma_window_rows_valid(ss, needle, i, m - 1);
        lemma_pane_rows_valid(ss, needle, i, m - 1, ss[i].windows[m - 1].panes.len() as int);
        let a = window_rows(ss, needle, i, m - 1);
        let e = window_entry(ss, needle, i, m - 1);
        let r = window_rows(ss, needle, i, m);
        let head = if shows_windows(ss[i]) && (session_hit(ss[i], needle) || window_hit(
            ss[i].windows[m - 1],
            needle,
        )) {
            seq![Selection::Window(i as usize, (m - 1) as usize)]
        } else {
            seq![]
        };
        let pr = pane_rows(ss, needle, i, m - 1, ss[i].windows[m - 1].panes.len() as int);
        assert(e == head + pr);
        assert forall|x: int| 0 <= x < r.len() implies valid_selection(ss, #[trigger] r[x]) by {
            if x < a.len() {
                assert(r[x] == a[x]);
            } else if x < a.len() + head.len() {
                assert(r[x] == head[x - a.len()]);
            } else {
                assert(r[x] == pr[x - a.len() - head.len()]);
            }
        }
    }
}

/// Every visible row names an existing session, window or pane.
pub proof fn lemma_visible_valid(ss: Seq<SessionV>, needle: Seq<char>, n: int)
    requires
        n <= ss.len(),
        ss.len() <= usize::MAX,
        forall|i: int| 0 <= i < ss.len() ==> ss[i].windows.len() <= usize::MAX,
    ensures
        all_valid(ss, session_rows(ss, needle, n)),
    decreases n,
{
    if n > 0 {
        lemma_visible_valid(ss, needle, n - 1);
        let i = n - 1;
        lemma_window_rows_valid(ss, needle, i, ss[i].windows.len() as int);
        let a = session_rows(ss, needle, n - 1);
        let head = if session_hit(ss[i], needle) {
            seq![Selection::Session(i as usize)]
        } else {
            seq![]
        };
        let wr = window_rows(ss, needle, i, ss[i].windows.len() as int);
        let r = session_rows(ss, needle, n);
        assert(r == a + (head + wr));
        assert forall|x: int| 0 <= x < r.len() implies valid_selection(ss, #[trigger] r[x]) by {
            if x < a.len() {
                assert(r[x] == a[x]);
            } else if x < a.len() + head.len() {
                assert(r[x] == head[x - a.len()]);
            } else {
                assert(r[x] == wr[x - a.len() - head.len()]);
            }
        }
    }
}

/// A row as the tree shows it: an existing item, a window row only where
/// its session lists windows, and a pane row only for a later pane of a
/// window that lists panes.
pub open spec fn shaped_row(ss: Seq<SessionV>, r: Selection) -> bool {
    &&& valid_selection(ss, r)
    &&& match r {
        Selection::Session(_) => true,
        Selection::Window(i, _) => shows_windows(ss[i as int]),
        Selection::Pane(i, j, k) => k >= 1 && shows_panes(ss[i as int].windows[j as int]),
    }
}

pub open spec fn all_shaped(ss: Seq<SessionV>, rows: Seq<Selection>) -> bool {
    forall|r: int| 0 <= r < rows.len() ==> shaped_row(ss, #[trigger] rows[r])
}

proof fn lemma_concat_shaped(ss: Seq<SessionV>, a: Seq<Selection>, b: Seq<Selection>)
    requires
        all_shaped(ss, a),
        all_shaped(ss, b),
    ensures
        all_shaped(ss, a + b),
{
    assert forall|x: int| 0 <= x < (a + b).len() implies shaped_row(ss, #[trigger] (a + b)[x]) by {
        if x < a.len() {
            assert((a + b)[x] == a[x]);
        } else {
            assert((a + b)[x] == b[x - a.len()]);
        }
    }
}

proof fn lemma_pane_rows_shaped(ss: Seq<SessionV>, needle: Seq<char>, i: int, j: int, k: int)
    requires
        0 <= i < ss.len(),
        0 <= j < ss[i].windows.len(),
        k <= ss[i].windows[j].panes.len(),
        i <= usize::MAX && j <= usize::MAX && ss[i].windows[j].panes.len() <= usize::MAX,
    ensures
        all_shaped(ss, pane_rows(ss, needle, i, j, k)),
    decreases k,
{
    if k > 1 {
        lemma_pane_rows_shaped(ss, needle, i, j, k - 1);
        let s = ss[i];
        let w = s.windows[j];
        let tail = if shows_panes(w) && (session_hit(s, needle) || window_hit(w, needle) || pane_hit(
            w.panes[k - 1],
            (k - 1) as nat,
            needle,
        )) {
            seq![Selection::Pane(i as usize, j as usize, (k - 1) as usize)]
        } else {
            seq![]
        };
        assert(all_shaped(ss, tail));
        lemma_concat_shaped(ss, pane_rows(ss, needle, i, j, k - 1), tail);
    }
}

proof fn lemma_window_rows_shaped(ss: Seq<SessionV>, needle: Seq<char>, i: int, m: int)
    requires
        0 <= i < ss.len(),
        m <= ss[i].windows.len(),
        i <= usize::MAX,
        ss[i].windows.len() <= usize::MAX,
        forall|j: int| 0 <= j < ss[i].windows.len() ==> #[trigger] ss[i].windows[j].panes.len() <= usize::MAX,
    ensures
        all_shaped(ss, window_rows(ss, needle, i, m)),
    decreases m,
{
    if m > 0 {
        lemma_window_rows_shaped(ss, needle, i, m - 1);
        let s = ss[i];
        let w = s.windows[m - 1];
        lemma_pane_rows_shaped(ss, needle, i, m - 1, w.panes.len() as int);
        let head = if shows_windows(s) && (session_hit(s, needle) || window_hit(w, needle)) {
            seq![Selection::Window(i as usize, (m - 1) as usize)]
        } else {
            seq![]
        };
        assert(all_shaped(ss, head));
        lemma_concat_shaped(ss, head, pane_rows(ss, needle, i, m - 1, w.panes.len() as int));
        assert(window_entry(ss, needle, i, m - 1) == head + pane_rows(ss, needle, i, m - 1, w.panes.len() as int));
        lemma_concat_shaped(ss, window_rows(ss, needle, i, m - 1), window_entry(ss, needle, i, m - 1));
    }
}

/// Every visible row has the shape of the tree: window rows only where the
/// session lists windows, pane rows only for later panes of split windows.
pub proof fn lemma_visible_shaped(ss: Seq<SessionV>, needle: Seq<char>, n: int)
    requires
        n <= ss.len(),
        crate::keys::bounded(ss),
    ensures
        all_shaped(ss, session_rows(ss, needle, n)),
    decreases n,
{
    if n > 0 {
        lemma_visible_shaped(ss, needle, n - 1);
        let i = n - 1;
        assert(ss[i].windows.len() <= usize::MAX);
        assert forall|j: int| 0 <= j < ss[i].windows.len() implies #[trigger] ss[i].windows[j].panes.len()
            <= usize::MAX by {
            assert(ss[i].windows[j].panes.len() <= usize::MAX);
        }
        lemma_window_rows_shaped(ss, needle, i, ss[i].windows.len() as int);
        let head = if session_hit(ss[i], needle) {
            seq![Selection::Session(i as usize)]
        } else {
            seq![]
        };
        assert(all_shaped(ss, head));
        let wr = window_rows(ss, needle, i, ss[i].windows.len() as int);
        lemma_concat_shaped(ss, head, wr);
        assert(session_entry(ss, needle, i) == head + wr);
        lemma_concat_shaped(ss, session_rows(ss, needle, n - 1), session_entry(ss, needle, i));
    }
}

/// The filter keeps the row of pane `k` of window `j` of session `i` when
/// the session, the window or the pane itself matches.
spec fn pane_shown(ss: Seq<SessionV>, needle: Seq<char>, i: int, j: int, k: int) -> bool {
    let s = ss[i];
    let w = s.windows[j];
    session_hit(s, needle) || window_hit(w, needle) || pane_hit(w.panes[k], k as nat, needle)
}

/// Every row of `rows` is one that the filter keeps: a matching session;
/// a window of a session that lists windows, whose session or window
/// matches; a later pane of a split window whose session, window or pane
/// matches.
spec fn row_earned(ss: Seq<SessionV>, needle: Seq<char>, r: Selection) -> bool {
    match r {
        Selection::Session(i) => session_hit(ss[i as int], needle),
        Selection::Window(i, j) => shows_windows(ss[i as int]) && (session_hit(ss[i as int], needle) || window_hit(
            ss[i as int].windows[j as int],
            needle,
        )),
        Selection::Pane(i, j, k) => 1 <= k && shows_panes(ss[i as int].windows[j as int]) && pane_shown(
            ss,
            needle,
            i as int,
            j as int,
            k as int,
        ),
    }
}

spec fn pane_rows_earned(ss: Seq<SessionV>, needle: Seq<char>, rows: Seq<Selection>) -> bool {
    forall|x: int| 0 <= x < rows.len() ==> row_earned(ss, needle, #[trigger] rows[x])
}

proof fn lemma_earned_concat(ss: Seq<SessionV>, needle: Seq<char>, a: Seq<Selection>, b: Seq<Selection>)
    requires
        pane_rows_earned(ss, needle, a),
        pane_rows_earned(ss, needle, b),
    ensures
        pane_rows_earned(ss, needle, a + b),
{
    let r = a + b;
    assert forall|x: int| 0 <= x < r.len() implies row_earned(ss, needle, #[trigger] r[x]) by {
        if x < a.len() {
            assert(r[x] == a[x]);
        } else {
            assert(r[x] == b[x - a.len()]);
        }
    }
}

proof fn lemma_pane_rows_earned(ss: Seq<SessionV>, needle: Seq<char>, i: int, j: int, m: int)
    requires
        0 <= i < ss.len(),
        0 <= j < ss[i].windows.len(),
        m <= ss[i].windows[j].panes.len() <= usize::MAX,
        i < usize::MAX && j < usize::MAX,
    ensures
        pane_rows_earned(ss, needle, pane_rows(ss, needle, i, j, m)),
    decreases m,
{
    if m > 1 {
        lemma_pane_rows_earned(ss, needle, i, j, m - 1);
        let s = ss[i];
        let w = s.windows[j];
        let tail = if shows_panes(w) && (session_hit(s, needle) || window_hit(w, needle) || pane_hit(
            w.panes[m - 1],
            (m - 1) as nat,
            needle,
        )) {
            seq![Selection::Pane(i as usize, j as usize, (m - 1) as usize)]
        } else {
            seq![]
        };
        assert(pane_shown(ss, needle, i, j, m - 1) == (session_hit(s, needle) || window_hit(w, needle) || pane_hit(
            w.panes[m - 1],
            (m - 1) as nat,
            needle,
        )));
        assert(pane_rows_earned(ss, needle, tail));
        lemma_earned_concat(ss, needle, pane_rows(ss, needle, i, j, m - 1), tail);
    }
}

proof fn lemma_window_rows_earned(ss: Seq<SessionV>, needle: Seq<char>, i: int, m: int)
    requires
        0 <= i < ss.len(),
        m <= ss[i].windows.len(),
        i < usize::MAX,
        ss[i].windows.len() <= usize::MAX,
        forall|y: int| 0 <= y < ss[i].windows.len() ==> #[trigger] ss[i].windows[y].panes.len() <= usize::MAX,
    ensures
        pane_rows_earned(ss, needle, window_rows(ss, needle, i, m)),
    decreases m,
{
    if m > 0 {
        lemma_window_rows_earned(ss, needle, i, m - 1);
        lemma_pane_rows_earned(ss, needle, i, m - 1, ss[i].windows[m - 1].panes.len() as int);
        let head = if shows_windows(ss[i]) && (session_hit(ss[i], needle) || window_hit(
            ss[i].windows[m - 1],
            needle,
        )) {
            seq![Selection::Window(i as usize, (m - 1) as usize)]
        } else {
            seq![]
        };
        let pr = pane_rows(ss, needle, i, m - 1, ss[i].windows[m - 1].panes.len() as int);
        assert(window_entry(ss, needle, i, m - 1) == head + pr);
        assert(pane_rows_earned(ss, needle, head));
        lemma_earned_concat(ss, needle, head, pr);
        lemma_earned_concat(ss, needle, window_rows(ss, needle, i, m - 1), head + pr);
    }
}

proof fn lemma_session_rows_earned(ss: Seq<SessionV>, needle: Seq<char>, n: int)
    requires
        n <= ss.len(),
        ss.len() <= usize::MAX,
        forall|i: int| 0 <= i < ss.len() ==> ss[i].windows.len() <= usize::MAX,
        forall|i: int, y: int|
            0 <= i < ss.len() && 0 <= y < ss[i].windows.len() ==> #[trigger] ss[i].windows[y].panes.len() <= usize::MAX,
    ensures
        pane_rows_earned(ss, needle, session_rows(ss, needle, n)),
    decreases n,
{
    if n > 0 {
        let i = n - 1;
        lemma_session_rows_earned(ss, needle, n - 1);
        lemma_window_rows_earned(ss, needle, i, ss[i].windows.len() as int);
        let head = if session_hit(ss[i], needle) {
            seq![Selection::Session(i as usize)]
        } else {
            seq![]
        };
        let wr = window_rows(ss, needle, i, ss[i].windows.len() as int);
        assert(session_entry(ss, needle, i) == head + wr);
        assert(pane_rows_earned(ss, needle, head));
        lemma_earned_concat(ss, needle, head, wr);
        lemma_earned_concat(ss, needle, session_rows(ss, needle, n - 1), head + wr);
    }
}

proof fn lemma_contains_concat(a: Seq<Selection>, b: Seq<Selection>, x: Selection)
    requires
        a.contains(x) || b.contains(x),
    ensures
        (a + b).contains(x),
{
    if a.contains(x) {
        let k = choose|k: int| 0 <= k < a.len() && a[k] == x;
        assert((a + b)[k] == x);
    } else {
        let k = choose|k: int| 0 <= k < b.len() && b[k] == x;
        assert((a + b)[a.len() + k] == x);
    }
}

proof fn lemma_pane_rows_keep(ss: Seq<SessionV>, needle: Seq<char>, i: usize, j: usize, k: usize, m: int)
    requires
        (i as int) < ss.len(),
        (j as int) < ss[i as int].windows.len(),
        1 <= k,
        (k as int) < m <= ss[i as int].windows[j as int].panes.len(),
        pane_shown(ss, needle, i as int, j as int, k as int),
    ensures
        pane_rows(ss, needle, i as int, j as int, m).contains(Selection::Pane(i, j, k)),
    decreases m,
{
    let s = ss[i as int];
    let w = s.windows[j as int];
    let tail = if shows_panes(w) && (session_hit(s, needle) || window_hit(w, needle) || pane_hit(
        w.panes[m - 1],
        (m - 1) as nat,
        needle,
    )) {
        seq![Selection::Pane(i, j, (m - 1) as usize)]
    } else {
        seq![]
    };
    assert(pane_rows(ss, needle, i as int, j as int, m) == pane_rows(ss, needle, i as int, j as int, m - 1) + tail);
    if m == k + 1 {
        assert(tail[0] == Selection::Pane(i, j, k));
        lemma_contains_concat(pane_rows(ss, needle, i as int, j as int, m - 1), tail, Selection::Pane(i, j, k));
    } else {
        lemma_pane_rows_keep(ss, needle, i, j, k, m - 1);
        lemma_contains_concat(pane_rows(ss, needle, i as int, j as int, m - 1), tail, Selection::Pane(i, j, k));
    }
}

proof fn lemma_window_rows_keep(ss: Seq<SessionV>, needle: Seq<char>, i: usize, j: usize, k: usize, m: int)
    requires
        (i as int) < ss.len(),
        (j as int) < m <= ss[i as int].windows.len(),
        1 <= k < ss[i as int].windows[j as int].panes.len(),
        pane_shown(ss, needle, i as int, j as int, k as int),
    ensures
        window_rows(ss, needle, i as int, m).contains(Selection::Pane(i, j, k)),
    decreases m,
{
    let x = Selection::Pane(i, j, k);
    if m == j + 1 {
        let w = ss[i as int].windows[j as int];
        lemma_pane_rows_keep(ss, needle, i, j, k, w.panes.len() as int);
        let head = if shows_windows(ss[i as int]) && (session_hit(ss[i as int], needle) || window_hit(w, needle)) {
            seq![Selection::Window(i, j)]
        } else {
            seq![]
        };
        assert(window_entry(ss, needle, i as int, j as int) == head + pane_rows(ss, needle, i as int, j as int, w.panes.len() as int));
        lemma_contains_concat(head, pane_rows(ss, needle, i as int, j as int, w.panes.len() as int), x);
    } else {
        lemma_window_rows_keep(ss, needle, i, j, k, m - 1);
    }
    lemma_contains_concat(window_rows(ss, needle, i as int, m - 1), window_entry(ss, needle, i as int, m - 1), x);
}

proof fn lemma_session_rows_keep(ss: Seq<SessionV>, needle: Seq<char>, i: usize, j: usize, k: usize, n: int)
    requires
        (i as int) < n <= ss.len(),
        (j as int) < ss[i as int].windows.len(),
        1 <= k < ss[i as int].windows[j as int].panes.len(),
        pane_shown(ss, needle, i as int, j as int, k as int),
    ensures
        session_rows(ss, needle, n).contains(Selection::Pane(i, j, k)),
    decreases n,
{
    let x = Selection::Pane(i, j, k);
    if n == i + 1 {
        lemma_window_rows_keep(ss, needle, i, j, k, ss[i as int].windows.len() as int);
        let head = if session_hit(ss[i as int], needle) {
            seq![Selection::Session(i)]
        } else {
            seq![]
        };
        let wr = window_rows(ss, needle, i as int, ss[i as int].windows.len() as int);
        assert(session_entry(ss, needle, i as int) == head + wr);
        lemma_contains_concat(head, wr, x);
    } else {
        lemma_session_rows_keep(ss, needle, i, j, k, n - 1);
    }
    lemma_contains_concat(session_rows(ss, needle, n - 1), session_entry(ss, needle, n - 1), x);
}

/// A later pane of a split window stays on screen under any filter that
/// its current command (or its path, or its label) holds, ignoring case.
pub proof fn lemma_filter_keeps_matching_pane(ss: Seq<SessionV>, filter: Seq<char>, i: usize, j: usize, k: usize)
    requires
        (i as int) < ss.len(),
        (j as int) < ss[i as int].windows.len(),
        1 <= k < ss[i as int].windows[j as int].panes.len(),
        ({
            let p = ss[i as int].windows[j as int].panes[k as int];
            let needle = lowercase(filter);
            ||| contains(lowercase(p.current_command), needle)
            ||| contains(lowercase(p.current_path), needle)
            ||| contains(lowercase(decimal((k + 1) as nat)), needle)
        }),
    ensures
        visible(ss, filter).contains(Selection::Pane(i, j, k)),
{
    lemma_session_rows_keep(ss, lowercase(filter), i, j, k, ss.len() as int);
}

/// Under a filter, the row of pane `k` of a window is on screen exactly when
/// it is a later pane (not the first, which the window's row stands for) and
/// the lower-cased filter is empty or occurs, ignoring case, in the
/// session's name, the window's label (its name and ` 1`), the pane's
/// current command, its path, or its label (its number from one).
pub proof fn lemma_filter_pane_row(ss: Seq<SessionV>, filter: Seq<char>, i: usize, j: usize, k: usize)
    requires
        (i as int) < ss.len(),
        (j as int) < ss[i as int].windows.len(),
        (k as int) < ss[i as int].windows[j as int].panes.len(),
        ss.len() <= usize::MAX,
        forall|x: int| 0 <= x < ss.len() ==> ss[x].windows.len() <= usize::MAX,
        forall|x: int, y: int|
            0 <= x < ss.len() && 0 <= y < ss[x].windows.len() ==> #[trigger] ss[x].windows[y].panes.len() <= usize::MAX,
    ensures
        ({
            let s = ss[i as int];
            let w = s.windows[j as int];
            let p = w.panes[k as int];
            let needle = lowercase(filter);
            visible(ss, filter).contains(Selection::Pane(i, j, k)) <==> (1 <= k && {
                ||| needle.len() == 0
                ||| contains(lowercase(s.name), needle)
                ||| contains(lowercase(w.name + " 1"@), needle)
                ||| contains(lowercase(p.current_command), needle)
                ||| contains(lowercase(p.current_path), needle)
                ||| contains(lowercase(decimal((k + 1) as nat)), needle)
            })
        }),
{
    let needle = lowercase(filter);
    let w = ss[i as int].windows[j as int];
    if 1 <= k {
        assert(window_label(w) == w.name + " 1"@);
    }
    if 1 <= k && pane_shown(ss, needle, i as int, j as int, k as int) {
        lemma_session_rows_keep(ss, needle, i, j, k, ss.len() as int);
    }
    if visible(ss, filter).contains(Selection::Pane(i, j, k)) {
        lemma_session_rows_earned(ss, needle, ss.len() as int);
        let r = visible(ss, filter);
        let x = choose|x: int| 0 <= x < r.len() && r[x] == Selection::Pane(i, j, k);
        assert(r[x] == Selection::Pane(i, j, k));
    }
}

proof fn lemma_session_rows_keep_entry(ss: Seq<SessionV>, needle: Seq<char>, i: int, n: int, x: Selection)
    requires
        0 <= i < n <= ss.len(),
        session_entry(ss, needle, i).contains(x),
    ensures
        session_rows(ss, needle, n).contains(x),
    decreases n,
{
    if i < n - 1 {
        lemma_session_rows_keep_entry(ss, needle, i, n - 1, x);
    }
    lemma_contains_concat(session_rows(ss, needle, n - 1), session_entry(ss, needle, n - 1), x);
}

proof fn lemma_window_rows_keep_entry(ss: Seq<SessionV>, needle: Seq<char>, i: int, j: int, m: int, x: Selection)
    requires
        0 <= i < ss.len(),
        0 <= j < m <= ss[i].windows.len(),
        window_entry(ss, needle, i, j).contains(x),
    ensures
        window_rows(ss, needle, i, m).contains(x),
    decreases m,
{
    if j < m - 1 {
        lemma_window_rows_keep_entry(ss, needle, i, j, m - 1, x);
    }
    lemma_contains_concat(window_rows(ss, needle, i, m - 1), window_entry(ss, needle, i, m - 1), x);
}

/// Under a filter, a session's row is on screen exactly when the
/// lower-cased filter is empty or occurs in the session's name, ignoring
/// case.
pub proof fn lemma_filter_session_row(ss: Seq<SessionV>, filter: Seq<char>, i: usize)
    requires
        (i as int) < ss.len(),
        ss.len() <= usize::MAX,
        forall|x: int| 0 <= x < ss.len() ==> ss[x].windows.len() <= usize::MAX,
        forall|x: int, y: int|
            0 <= x < ss.len() && 0 <= y < ss[x].windows.len() ==> #[trigger] ss[x].windows[y].panes.len() <= usize::MAX,
    ensures
        ({
            let needle = lowercase(filter);
            visible(ss, filter).contains(Selection::Session(i)) <==> (needle.len() == 0 || contains(
                lowercase(ss[i as int].name),
                needle,
            ))
        }),
{
    let needle = lowercase(filter);
    let x = Selection::Session(i);
    if session_hit(ss[i as int], needle) {
        let head = seq![x];
        let wr = window_rows(ss, needle, i as int, ss[i as int].windows.len() as int);
        assert(session_entry(ss, needle, i as int) == head + wr);
        assert(head[0] == x);
        lemma_contains_concat(head, wr, x);
        lemma_session_rows_keep_entry(ss, needle, i as int, ss.len() as int, x);
    }
    if visible(ss, filter).contains(x) {
        lemma_session_rows_earned(ss, needle, ss.len() as int);
        let r = visible(ss, filter);
        let p = choose|p: int| 0 <= p < r.len() && r[p] == x;
        assert(row_earned(ss, needle, r[p]));
    }
}

/// Under a filter, a window's row is on screen exactly when its session
/// lists windows (it has several, or one of them is split) and the
/// lower-cased filter is empty or occurs, ignoring case, in the session's
/// name or in the window's label (its name, and ` 1` when it is split).
pub proof fn lemma_filter_window_row(ss: Seq<SessionV>, filter: Seq<char>, i: usize, j: usize)
    requires
        (i as int) < ss.len(),
        (j as int) < ss[i as int].windows.len(),
        ss.len() <= usize::MAX,
        forall|x: int| 0 <= x < ss.len() ==> ss[x].windows.len() <= usize::MAX,
        forall|x: int, y: int|
            0 <= x < ss.len() && 0 <= y < ss[x].windows.len() ==> #[trigger] ss[x].windows[y].panes.len() <= usize::MAX,
    ensures
        ({
            let s = ss[i as int];
            let w = s.windows[j as int];
            let needle = lowercase(filter);
            let label = if w.panes.len() > 1 { w.name + " 1"@ } else { w.name };
            let listed = s.windows.len() > 1 || exists|y: int| 0 <= y < s.windows.len() && #[trigger] s.windows[y].panes.len() > 1;
            visible(ss, filter).contains(Selection::Window(i, j)) <==> (listed && {
                ||| needle.len() == 0
                ||| contains(lowercase(s.name), needle)
                ||| contains(lowercase(label), needle)
            })
        }),
{
    let needle = lowercase(filter);
    let x = Selection::Window(i, j);
    let s = ss[i as int];
    let w = s.windows[j as int];
    if shows_windows(s) && (session_hit(s, needle) || window_hit(w, needle)) {
        let head = seq![x];
        let pr = pane_rows(ss, needle, i as int, j as int, w.panes.len() as int);
        assert(window_entry(ss, needle, i as int, j as int) == head + pr);
        assert(head[0] == x);
        lemma_contains_concat(head, pr, x);
        lemma_window_rows_keep_entry(ss, needle, i as int, j as int, s.windows.len() as int, x);
        let sh = if session_hit(s, needle) {
            seq![Selection::Session(i)]
        } else {
            seq![]
        };
        let wr = window_rows(ss, needle, i as int, s.windows.len() as int);
        assert(session_entry(ss, needle, i as int) == sh + wr);
        lemma_contains_concat(sh, wr, x);
        lemma_session_rows_keep_entry(ss, needle, i as int, ss.len() as int, x);
    }
    if visible(ss, filter).contains(x) {
        lemma_session_rows_earned(ss, needle, ss.len() as int);
        let r = visible(ss, filter);
        let p = choose|p: int| 0 <= p < r.len() && r[p] == x;
        assert(row_earned(ss, needle, r[p]));
    }
}

/// With no filter every session has a row.
pub proof fn lemma_no_filter_shows_sessions(ss: Seq<SessionV>, n: int, i: int)
    requires
        0 <= i < n <= ss.len(),
        ss.len() <= usize::MAX,
    ensures
        session_rows(ss, Seq::<char>::empty(), n).contains(Selection::Session(i as usize)),
    decreases n,
{
    let e = Seq::<char>::empty();
    if i < n - 1 {
        lemma_no_filter_shows_sessions(ss, n - 1, i);
        let a = session_rows(ss, e, n - 1);
        let k = choose|k: int| 0 <= k < a.len() && a[k] == Selection::Session(i as usize);
        assert(session_rows(ss, e, n)[k] == a[k]);
    } else {
        let a = session_rows(ss, e, n - 1);
        assert(session_hit(ss[i], e));
        assert(session_rows(ss, e, n)[a.len() as int] == Selection::Session(i as usize));
    }
}

impl App {
    pub fn should_show_windows(&self, session: &crate::tmux::Session) -> (r: bool)
        ensures
            r == shows_windows(session@),
    {
        if session.windows.len() > 1 {
            return true;
        }
        let mut j: usize = 0;
        while j < session.windows.len()
            invariant
                0 <= j <= session.windows.len(),
                forall|m: int| 0 <= m < j ==> (#[trigger] session@.windows[m]).panes.len() <= 1,
            decreases session.windows.len() - j,
        {
            if session.windows[j].panes.len() > 1 {
                assert(session@.windows[j as int].panes.len() > 1);
                return true;
            }
            j += 1;
        }
        false
    }

    pub fn should_show_panes(&self, _session: &crate::tmux::Session, window: &Window) -> (r: bool)
        ensures
            r == shows_panes(window@),
    {
        window.panes.len() > 1
    }

    /// The rows that the filter leaves visible, in tree order.
    pub fn visible_rows(&self) -> (r: Vec<Selection>)
        ensures
            r@ == visible(self.sessions(), self.filter@),
            all_valid(self.sessions(), r@),
            crate::text::is_ascii_text(self.filter@) ==> r@ == session_rows(
                self.sessions(),
                self.filter@.map_values(|c: char| crate::text::ascii_lower(c)),
                self.sessions().len() as int,
            ),
            self.filter@.len() == 0 ==> r@ == session_rows(
                self.sessions(),
                Seq::<char>::empty(),
                self.sessions().len() as int,
            ),
    {
        let low = to_lowercase(self.filter.as_str());
        assert(self.filter@.len() == 0 ==> low@ =~= Seq::<char>::empty());
        let needle = chars_of(low.as_str());
        let ghost n = needle@;
        let ghost sv = self.sessions();
        let ss = &self.snapshot.sessions;
        let mut rows: Vec<Selection> = Vec::new();
        let mut i: usize = 0;
        while i < ss.len()
            invariant
                0 <= i <= ss.len(),
                sv == crate::tmux::session_views(ss@),
                n == needle@,
                rows@ == session_rows(sv, n, i as int),
                forall|m: int| 0 <= m < i ==> (#[trigger] sv[m]).windows.len() <= usize::MAX,
            decreases ss.len() - i,
        {
            let s = &ss[i];
            let s_hit = matches_filter(s.name.as_str(), &needle);
            let ghost before_session = rows@;
            if s_hit {
                rows.push(Selection::Session(i));
            }
            let ghost head = rows@;
            let show_w = self.should_show_windows(s);
            let mut j: usize = 0;
            while j < s.windows.len()
                invariant
                    0 <= i < ss.len(),
                    s == &ss@[i as int],
                    sv == crate::tmux::session_views(ss@),
                    n == needle@,
                    s_hit == session_hit(sv[i as int], n),
                    show_w == shows_windows(sv[i as int]),
                    0 <= j <= s.windows.len(),
                    rows@ == head + window_rows(sv, n, i as int, j as int),
                decreases s.windows.len() - j,
            {
                let w = &s.windows[j];
                let label = window_tree_label(w);
                let w_hit = matches_filter(label.as_str(), &needle);
                let ghost before_window = rows@;
                if show_w && (s_hit || w_hit) {
                    rows.push(Selection::Window(i, j));
                }
                let ghost whead = rows@;
                let show_p = w.panes.len() > 1;
                let mut k: usize = 1;
                while k < w.panes.len()
                    invariant
                        0 <= i < ss.len(),
                        s == &ss@[i as int],
                        0 <= j < s.windows.len(),
                        w == &s.windows@[j as int],
                        sv == crate::tmux::session_views(ss@),
                        n == needle@,
                        s_hit == session_hit(sv[i as int], n),
                        w_hit == window_hit(sv[i as int].windows[j as int], n),
                        show_p == shows_panes(sv[i as int].windows[j as int]),
                        1 <= k,
                        k <= w.panes.len() || (w.panes.len() == 0 && k == 1),
                        rows@ == whead + pane_rows(sv, n, i as int, j as int, k as int),
                    decreases w.panes.len() - k,
                {
                    let p = &w.panes[k];
                    let plabel = pane_label(k);
                    let p_hit = matches_filter(plabel.as_str(), &needle) || matches_filter(
                        p.current_command.as_str(),
                        &needle,
                    ) || matches_filter(p.current_path.as_str(), &needle);
                    let ghost pre = rows@;
                    if show_p && (s_hit || w_hit || p_hit) {
                        rows.push(Selection::Pane(i, j, k));
                    }
                    assert(rows@ =~= whead + pane_rows(sv, n, i as int, j as int, k + 1));
                    k += 1;
                }
                assert(sv[i as int].windows[j as int].panes.len() == w.panes.len());
                if w.panes.len() == 0 {
                    assert(pane_rows(sv, n, i as int, j as int, 1) =~= seq![]);
                    assert(pane_rows(sv, n, i as int, j as int, 0) =~= seq![]);
                }
                assert(pane_rows(sv, n, i as int, j as int, k as int) == pane_rows(
                    sv,
                    n,
                    i as int,
                    j as int,
                    w.panes.len() as int,
                ));
                assert(rows@ =~= head + window_rows(sv, n, i as int, j + 1));
                j += 1;
            }
            assert(rows@ =~= session_rows(sv, n, i + 1));
            assert(sv[i as int].windows.len() == s.windows.len());
            i += 1;
        }
        proof {
            crate::rows::lemma_visible_valid(sv, n, sv.len() as int);
        }
        rows
    }
}

} // verus!
