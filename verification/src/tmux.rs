//! The model of a tmux server's sessions, windows and panes, and the parsing
//! of tmux's tab-separated listings into it.
use vstd::prelude::*;

use crate::text::{chars_of, lines, lines_of, split_chars, split_on, string_of, views};

verus! {

/// All sessions of a tmux server, ordered by name.
#[derive(Clone, Debug)]
pub struct Snapshot {
    pub sessions: Vec<Session>,
}

#[derive(Clone, Debug)]
pub struct Session {
    pub id: String,
    pub name: String,
    pub attached: bool,
    pub windows: Vec<Window>,
}

#[derive(Clone, Debug)]
pub struct Window {
    pub id: String,
    pub name: String,
    pub active: bool,
    pub session_id: String,
    pub panes: Vec<Pane>,
}

#[derive(Clone, Debug)]
pub struct Pane {
    pub id: String,
    pub current_command: String,
    pub current_path: String,
    pub active: bool,
    pub zoomed: bool,
    pub window_id: String,
}

/// Where an attach lands.
#[derive(Clone, Debug, PartialEq, Eq)]
pub enum TargetKind {
    Session(String),
    Window { session_id: String, window_id: String },
    Pane { session_id: String, window_id: String, pane_id: String },
}

/// The target that tmux remembers in the `@tmuxtui-*` options.
#[derive(Clone, Debug, PartialEq, Eq)]
pub struct LastTarget {
    pub session_id: String,
    pub window_id: Option<String>,
    pub pane_id: Option<String>,
}

pub struct PaneV {
    pub id: Seq<char>,
    pub current_command: Seq<char>,
    pub current_path: Seq<char>,
    pub active: bool,
    pub zoomed: bool,
    pub window_id: Seq<char>,
}

pub struct WindowV {
    pub id: Seq<char>,
    pub name: Seq<char>,
    pub active: bool,
    pub session_id: Seq<char>,
    pub panes: Seq<PaneV>,
}

pub struct SessionV {
    pub id: Seq<char>,
    pub name: Seq<char>,
    pub attached: bool,
    pub windows: Seq<WindowV>,
}

impl View for Pane {
    type V = PaneV;

    open spec fn view(&self) -> PaneV {
        PaneV {
            id: self.id@,
            current_command: self.current_command@,
            current_path: self.current_path@,
            active: self.active,
            zoomed: self.zoomed,
            window_id: self.window_id@,
        }
    }
}

pub open spec fn pane_views(panes: Seq<Pane>) -> Seq<PaneV> {
    panes.map_values(|p: Pane| p@)
}

impl View for Window {
    type V = WindowV;

    open spec fn view(&self) -> WindowV {
        WindowV {
            id: self.id@,
            name: self.name@,
            active: self.active,
            session_id: self.session_id@,
            panes: pane_views(self.panes@),
        }
    }
}

pub open spec fn window_views(windows: Seq<Window>) -> Seq<WindowV> {
    windows.map_values(|w: Window| w@)
}

impl View for Session {
    type V = SessionV;

    open spec fn view(&self) -> SessionV {
        SessionV {
            id: self.id@,
            name: self.name@,
            attached: self.attached,
            windows: window_views(self.windows@),
        }
    }
}

pub open spec fn session_views(sessions: Seq<Session>) -> Seq<SessionV> {
    sessions.map_values(|s: Session| s@)
}

impl View for Snapshot {
    type V = Seq<SessionV>;

    open spec fn view(&self) -> Seq<SessionV> {
        session_views(self.sessions@)
    }
}

/// A tmux flag column reads `1` when set.
pub open spec fn flag(field: Seq<char>) -> bool {
    field == seq!['1']
}

fn flag_exec(field: &Vec<char>) -> (b: bool)
    ensures
        b == flag(field@),
{
    let r = field.len() == 1 && field[0] == '1';
    proof {
        if field@.len() == 1 && field@[0] == '1' {
            assert(field@ =~= seq!['1']);
        }
    }
    r
}

/// A `list-sessions` row: id, name, attached flag.
pub open spec fn session_row(line: Seq<char>) -> Option<SessionV> {
    let f = split_on(line, '\t');
    if f.len() >= 3 {
        Some(SessionV { id: f[0], name: f[1], attached: flag(f[2]), windows: seq![] })
    } else {
        None
    }
}

/// A `list-windows` row: session id, window id, name, active flag.
pub open spec fn window_row(line: Seq<char>) -> Option<WindowV> {
    let f = split_on(line, '\t');
    if f.len() >= 4 {
        Some(WindowV { session_id: f[0], id: f[1], name: f[2], active: flag(f[3]), panes: seq![] })
    } else {
        None
    }
}

/// A `list-panes` row: window id, pane id, title (unused), command, path,
/// active flag, zoomed flag.
pub open spec fn pane_row(line: Seq<char>) -> Option<PaneV> {
    let f = split_on(line, '\t');
    if f.len() >= 7 {
        Some(
            PaneV {
                window_id: f[0],
                id: f[1],
                current_command: f[3],
                current_path: f[4],
                active: flag(f[5]),
                zoomed: flag(f[6]),
            },
        )
    } else {
        None
    }
}

pub open spec fn parsed_sessions(raw: Seq<char>) -> Seq<SessionV> {
    lines(raw).filter_map(|l: Seq<char>| session_row(l))
}

pub open spec fn parsed_windows(raw: Seq<char>) -> Seq<WindowV> {
    lines(raw).filter_map(|l: Seq<char>| window_row(l))
}

pub open spec fn parsed_panes(raw: Seq<char>) -> Seq<PaneV> {
    lines(raw).filter_map(|l: Seq<char>| pane_row(l))
}

fn session_from_line(line: &Vec<char>) -> (r: Option<Session>)
    ensures
        match r {
            Some(s) => session_row(line@) == Some(s@),
            None => session_row(line@) is None,
        },
{
    let f = split_chars(line, '\t');
    if f.len() >= 3 {
        let s = Session {
            id: string_of(&f[0]),
            name: string_of(&f[1]),
            attached: flag_exec(&f[2]),
            windows: Vec::new(),
        };
        assert(window_views(s.windows@) =~= seq![]);
        Some(s)
    } else {
        None
    }
}

fn window_from_line(line: &Vec<char>) -> (r: Option<Window>)
    ensures
        match r {
            Some(w) => window_row(line@) == Some(w@),
            None => window_row(line@) is None,
        },
{
    let f = split_chars(line, '\t');
    if f.len() >= 4 {
        let w = Window {
            session_id: string_of(&f[0]),
            id: string_of(&f[1]),
            name: string_of(&f[2]),
            active: flag_exec(&f[3]),
            panes: Vec::new(),
        };
        assert(pane_views(w.panes@) =~= seq![]);
        Some(w)
    } else {
        None
    }
}

fn pane_from_line(line: &Vec<char>) -> (r: Option<Pane>)
    ensures
        match r {
            Some(p) => pane_row(line@) == Some(p@),
            None => pane_row(line@) is None,
        },
{
    let f = split_chars(line, '\t');
    if f.len() >= 7 {
        Some(
            Pane {
                window_id: string_of(&f[0]),
                id: string_of(&f[1]),
                current_command: string_of(&f[3]),
                current_path: string_of(&f[4]),
                active: flag_exec(&f[5]),
                zoomed: flag_exec(&f[6]),
            },
        )
    } else {
        None
    }
}

/// Parses `list-sessions` output; rows with too few columns are skipped.
pub fn parse_sessions(raw: &str) -> (r: Vec<Session>)
    ensures
        session_views(r@) == parsed_sessions(raw@),
{
    let ls = lines_of(raw);
    let ghost lv = views(ls@);
    let mut out: Vec<Session> = Vec::new();
    let mut i: usize = 0;
    while i < ls.len()
        invariant
            0 <= i <= ls.len(),
            lv == views(ls@),
            lv == lines(raw@),
            session_views(out@) == lv.take(i as int).filter_map(|l: Seq<char>| session_row(l)),
        decreases ls.len() - i,
    {
        let row = session_from_line(&ls[i]);
        assert(lv.take(i + 1).drop_last() =~= lv.take(i as int));
        assert(lv.take(i + 1).last() == ls@[i as int]@);
        match row {
            Some(s) => {
                let ghost prev = out@;
                out.push(s);
                assert(session_views(out@) =~= session_views(prev) + seq![s@]);
            },
            None => {},
        }
        i += 1;
    }
    assert(lv.take(ls.len() as int) =~= lv);
    out
}

/// Parses `list-windows` output; rows with too few columns are skipped.
pub fn parse_windows(raw: &str) -> (r: Vec<Window>)
    ensures
        window_views(r@) == parsed_windows(raw@),
{
    let ls = lines_of(raw);
    let ghost lv = views(ls@);
    let mut out: Vec<Window> = Vec::new();
    let mut i: usize = 0;
    while i < ls.len()
        invariant
            0 <= i <= ls.len(),
            lv == views(ls@),
            lv == lines(raw@),
            window_views(out@) == lv.take(i as int).filter_map(|l: Seq<char>| window_row(l)),
        decreases ls.len() - i,
    {
        let row = window_from_line(&ls[i]);
        assert(lv.take(i + 1).drop_last() =~= lv.take(i as int));
        assert(lv.take(i + 1).last() == ls@[i as int]@);
        match row {
            Some(w) => {
                let ghost prev = out@;
                out.push(w);
                assert(window_views(out@) =~= window_views(prev) + seq![w@]);
            },
            None => {},
        }
        i += 1;
    }
    assert(lv.take(ls.len() as int) =~= lv);
    out
}

/// Parses `list-panes` output; rows with too few columns are skipped.
pub fn parse_panes(raw: &str) -> (r: Vec<Pane>)
    ensures
        pane_views(r@) == parsed_panes(raw@),
{
    let ls = lines_of(raw);
    let ghost lv = views(ls@);
    let mut out: Vec<Pane> = Vec::new();
    let mut i: usize = 0;
    while i < ls.len()
        invariant
            0 <= i <= ls.len(),
            lv == views(ls@),
            lv == lines(raw@),
            pane_views(out@) == lv.take(i as int).filter_map(|l: Seq<char>| pane_row(l)),
        decreases ls.len() - i,
    {
        let row = pane_from_line(&ls[i]);
        assert(lv.take(i + 1).drop_last() =~= lv.take(i as int));
        assert(lv.take(i + 1).last() == ls@[i as int]@);
        match row {
            Some(p) => {
                let ghost prev = out@;
                out.push(p);
                assert(pane_views(out@) =~= pane_views(prev) + seq![p@]);
            },
            None => {},
        }
        i += 1;
    }
    assert(lv.take(ls.len() as int) =~= lv);
    out
}

/// `id` first occurs as a window id at index `j` of `ws`.
pub open spec fn first_window_with(ws: Seq<WindowV>, j: int, id: Seq<char>) -> bool {
    0 <= j < ws.len() && ws[j].id == id && forall|k: int| 0 <= k < j ==> ws[k].id != id
}

/// `id` first occurs as a session id at index `i` of `ss`.
pub open spec fn first_session_with(ss: Seq<SessionV>, i: int, id: Seq<char>) -> bool {
    0 <= i < ss.len() && ss[i].id == id && forall|k: int| 0 <= k < i ==> ss[k].id != id
}

/// The panes of `ps` that belong to window `j` of `ws`: those whose window id
/// first occurs there, in listing order.
pub open spec fn panes_of(ws: Seq<WindowV>, j: int, ps: Seq<PaneV>) -> Seq<PaneV> {
    ps.filter_map(|p: PaneV| if first_window_with(ws, j, p.window_id) { Some(p) } else { None })
}

/// The windows of `ws` that belong to session `i` of `ss`, in listing order.
pub open spec fn windows_of(ss: Seq<SessionV>, i: int, ws: Seq<WindowV>) -> Seq<WindowV> {
    ws.filter_map(|w: WindowV| if first_session_with(ss, i, w.session_id) { Some(w) } else { None })
}

/// Every window with its panes attached.
pub open spec fn with_panes(ws: Seq<WindowV>, ps: Seq<PaneV>) -> Seq<WindowV> {
    Seq::new(
        ws.len(),
        |j: int|
            WindowV {
                id: ws[j].id,
                name: ws[j].name,
                active: ws[j].active,
                session_id: ws[j].session_id,
                panes: panes_of(ws, j, ps),
            },
    )
}

/// Every session with its windows attached.
pub open spec fn with_windows(ss: Seq<SessionV>, ws: Seq<WindowV>) -> Seq<SessionV> {
    Seq::new(
        ss.len(),
        |i: int|
            SessionV {
                id: ss[i].id,
                name: ss[i].name,
                attached: ss[i].attached,
                windows: windows_of(ss, i, ws),
            },
    )
}

/// `a` sorts before or equal to `b`, comparing characters in order as
/// `String`'s `Ord` does.
pub open spec fn name_le(a: Seq<char>, b: Seq<char>) -> bool
    decreases a.len(),
{
    if a.len() == 0 {
        true
    } else if b.len() == 0 {
        false
    } else if a[0] != b[0] {
        a[0] < b[0]
    } else {
        name_le(a.drop_first(), b.drop_first())
    }
}

/// Inserts `x` into `s` after every element whose name is not greater.
pub open spec fn insert_by_name(s: Seq<SessionV>, x: SessionV) -> Seq<SessionV>
    decreases s.len(),
{
    if s.len() == 0 || name_le(s.last().name, x.name) {
        s.push(x)
    } else {
        insert_by_name(s.drop_last(), x).push(s.last())
    }
}

/// The stable sort of `s` by name.
pub open spec fn sort_by_name(s: Seq<SessionV>) -> Seq<SessionV>
    decreases s.len(),
{
    if s.len() == 0 {
        s
    } else {
        insert_by_name(sort_by_name(s.drop_last()), s.last())
    }
}

/// The snapshot that three listings describe.
pub open spec fn assembled(sessions: Seq<char>, windows: Seq<char>, panes: Seq<char>) -> Seq<SessionV> {
    sort_by_name(
        with_windows(
            parsed_sessions(sessions),
            with_panes(parsed_windows(windows), parsed_panes(panes)),
        ),
    )
}

/// Sessions whose names never decrease from one to the next.
pub open spec fn sorted_by_name(s: Seq<SessionV>) -> bool {
    forall|i: int| 0 <= i < s.len() - 1 ==> name_le(#[trigger] s[i].name, s[i + 1].name)
}

pub proof fn lemma_name_le_total(a: Seq<char>, b: Seq<char>)
    ensures
        name_le(a, b) || name_le(b, a),
    decreases a.len(),
{
    if a.len() > 0 && b.len() > 0 && a[0] == b[0] {
        lemma_name_le_total(a.drop_first(), b.drop_first());
    }
}

proof fn lemma_insert_last(s: Seq<SessionV>, x: SessionV)
    ensures
        insert_by_name(s, x).len() == s.len() + 1,
        insert_by_name(s, x).last() == x || (s.len() > 0 && insert_by_name(s, x).last() == s.last()),
    decreases s.len(),
{
    if !(s.len() == 0 || name_le(s.last().name, x.name)) {
        lemma_insert_last(s.drop_last(), x);
    }
}

proof fn lemma_insert_sorted(s: Seq<SessionV>, x: SessionV)
    requires
        sorted_by_name(s),
    ensures
        sorted_by_name(insert_by_name(s, x)),
    decreases s.len(),
{
    let r = insert_by_name(s, x);
    if s.len() == 0 || name_le(s.last().name, x.name) {
        assert forall|i: int| 0 <= i < r.len() - 1 implies name_le(#[trigger] r[i].name, r[i + 1].name) by {
            if i < s.len() - 1 {
                assert(r[i] == s[i] && r[i + 1] == s[i + 1]);
            }
        }
    } else {
        let t = s.drop_last();
        assert(sorted_by_name(t)) by {
            assert forall|i: int| 0 <= i < t.len() - 1 implies name_le(#[trigger] t[i].name, t[i + 1].name) by {
                assert(t[i] == s[i] && t[i + 1] == s[i + 1]);
            }
        }
        lemma_insert_sorted(t, x);
        lemma_insert_last(t, x);
        lemma_name_le_total(s.last().name, x.name);
        let q = insert_by_name(t, x);
        assert(r == q.push(s.last()));
        if t.len() > 0 {
            assert(name_le(s[t.len() - 1].name, s[t.len() as int].name));
        }
        assert(name_le(q.last().name, s.last().name));
        assert forall|i: int| 0 <= i < r.len() - 1 implies name_le(#[trigger] r[i].name, r[i + 1].name) by {
            if i < q.len() - 1 {
                assert(r[i] == q[i] && r[i + 1] == q[i + 1]);
            } else {
                assert(r[i] == q.last());
            }
        }
    }
}

proof fn lemma_insert_keeps(s: Seq<SessionV>, x: SessionV)
    ensures
        insert_by_name(s, x).to_multiset() =~= s.to_multiset().insert(x),
    decreases s.len(),
{
    if s.len() == 0 || name_le(s.last().name, x.name) {
        vstd::seq_lib::to_multiset_build(s, x);
    } else {
        let t = s.drop_last();
        lemma_insert_keeps(t, x);
        vstd::seq_lib::to_multiset_build(insert_by_name(t, x), s.last());
        vstd::seq_lib::to_multiset_build(t, s.last());
        assert(t.push(s.last()) =~= s);
    }
}

/// Sorting keeps every session: the snapshot lists each listed session
/// exactly as often as tmux listed it.
pub proof fn lemma_sort_keeps_sessions(s: Seq<SessionV>)
    ensures
        sort_by_name(s).to_multiset() =~= s.to_multiset(),
    decreases s.len(),
{
    if s.len() > 0 {
        let t = s.drop_last();
        lemma_sort_keeps_sessions(t);
        lemma_insert_keeps(sort_by_name(t), s.last());
        vstd::seq_lib::to_multiset_build(t, s.last());
        assert(t.push(s.last()) =~= s);
    }
}

/// The sort by name leaves the sessions in name order.
pub proof fn lemma_sort_sorted(s: Seq<SessionV>)
    ensures
        sorted_by_name(sort_by_name(s)),
        sort_by_name(s).len() == s.len(),
    decreases s.len(),
{
    if s.len() > 0 {
        lemma_sort_sorted(s.drop_last());
        lemma_insert_sorted(sort_by_name(s.drop_last()), s.last());
        lemma_insert_last(sort_by_name(s.drop_last()), s.last());
    }
}

/// Whether `a` sorts before or equal to `b`.
pub fn name_le_exec(a: &Vec<char>, b: &Vec<char>) -> (r: bool)
    ensures
        r == name_le(a@, b@),
{
    let mut i: usize = 0;
    assert(a@.skip(0) =~= a@ && b@.skip(0) =~= b@);
    assert(a@.take(0) =~= b@.take(0));
    while i < a.len() && i < b.len() && a[i] == b[i]
        invariant
            0 <= i <= a.len(),
            i <= b.len(),
            a@.take(i as int) == b@.take(i as int),
            name_le(a@, b@) == name_le(a@.skip(i as int), b@.skip(i as int)),
        decreases a.len() - i,
    {
        proof {
            let sa = a@.skip(i as int);
            let sb = b@.skip(i as int);
            assert(sa.drop_first() =~= a@.skip(i + 1));
            assert(sb.drop_first() =~= b@.skip(i + 1));
            assert(a@.take(i + 1) =~= a@.take(i as int).push(a@[i as int]));
            assert(b@.take(i + 1) =~= b@.take(i as int).push(b@[i as int]));
        }
        i += 1;
    }
    if i == a.len() {
        true
    } else if i == b.len() {
        false
    } else {
        a[i] < b[i]
    }
}

proof fn lemma_insert_at(s: Seq<SessionV>, x: SessionV, k: int)
    requires
        0 <= k <= s.len(),
        forall|m: int| k <= m < s.len() ==> !name_le(#[trigger] s[m].name, x.name),
        k == 0 || name_le(s[k - 1].name, x.name),
    ensures
        insert_by_name(s, x) == s.take(k).push(x) + s.skip(k),
    decreases s.len() - k,
{
    if k == s.len() {
        assert(s.take(k) =~= s);
        assert(s.skip(k) =~= seq![]);
        assert(s.push(x) =~= s.take(k).push(x) + s.skip(k));
    } else {
        let t = s.drop_last();
        lemma_insert_at(t, x, k);
        assert(t.take(k) =~= s.take(k));
        assert(s.skip(k) =~= t.skip(k).push(s.last()));
        assert(insert_by_name(s, x) == insert_by_name(t, x).push(s.last()));
        assert((t.take(k).push(x) + t.skip(k)).push(s.last()) =~= s.take(k).push(x) + s.skip(k));
    }
}

fn insert_session(v: &mut Vec<Session>, x: Session)
    ensures
        session_views(final(v)@) == insert_by_name(session_views(old(v)@), x@),
{
    let xn = chars_of(x.name.as_str());
    let mut k = v.len();
    while k > 0 && !name_le_exec(&chars_of(v[k - 1].name.as_str()), &xn)
        invariant
            0 <= k <= v.len(),
            v@ == old(v)@,
            xn@ == x.name@,
            forall|m: int| k <= m < v.len() ==> !name_le(#[trigger] v@[m].name@, x.name@),
        decreases k,
    {
        k -= 1;
    }
    let ghost s = session_views(v@);
    proof {
        assert forall|m: int| k <= m < s.len() implies !name_le(#[trigger] s[m].name, x@.name) by {
            assert(s[m].name == v@[m].name@);
        }
        lemma_insert_at(s, x@, k as int);
    }
    let ghost pre = v@;
    v.insert(k, x);
    assert(session_views(v@) =~= s.take(k as int).push(x@) + s.skip(k as int)) by {
        assert(v@ =~= pre.take(k as int).push(x) + pre.skip(k as int));
    }
}

/// Stably sorts sessions by name.
pub fn sort_sessions(input: Vec<Session>) -> (r: Vec<Session>)
    ensures
        session_views(r@) == sort_by_name(session_views(input@)),
{
    let mut out: Vec<Session> = Vec::new();
    let mut rest = input;
    let ghost all = session_views(rest@);
    let ghost n = rest.len();
    let mut i: usize = 0;
    while rest.len() > 0
        invariant
            i + rest.len() == n,
            all.len() == n,
            session_views(rest@) == all.skip(i as int),
            session_views(out@) == sort_by_name(all.take(i as int)),
        decreases rest.len(),
    {
        let ghost pre = rest@;
        let x = rest.remove(0);
        proof {
            assert(session_views(pre)[0] == x@);
            assert(all.skip(i as int)[0] == all[i as int]);
            assert(all.take(i + 1).drop_last() =~= all.take(i as int));
            assert(session_views(rest@) =~= all.skip(i + 1)) by {
                assert(rest@ =~= pre.subrange(1, pre.len() as int));
                assert forall|m: int| 0 <= m < rest@.len() implies session_views(rest@)[m] == all.skip(i + 1)[m] by {
                    assert(session_views(pre)[m + 1] == all.skip(i as int)[m + 1]);
                }
            }
        }
        insert_session(&mut out, x);
        i += 1;
    }
    assert(all.take(n as int) =~= all);
    out
}

impl Pane {
    /// A field-by-field copy.
    pub fn duplicate(&self) -> (r: Pane)
        ensures
            r@ == self@,
    {
        Pane {
            id: self.id.clone(),
            current_command: self.current_command.clone(),
            current_path: self.current_path.clone(),
            active: self.active,
            zoomed: self.zoomed,
            window_id: self.window_id.clone(),
        }
    }
}

impl Window {
    /// A field-by-field copy, panes included.
    pub fn duplicate(&self) -> (r: Window)
        ensures
            r@ == self@,
    {
        let mut panes: Vec<Pane> = Vec::new();
        let mut k: usize = 0;
        while k < self.panes.len()
            invariant
                0 <= k <= self.panes.len(),
                pane_views(panes@) == pane_views(self.panes@).take(k as int),
            decreases self.panes.len() - k,
        {
            let p = self.panes[k].duplicate();
            let ghost pre = panes@;
            panes.push(p);
            assert(pane_views(panes@) =~= pane_views(self.panes@).take(k + 1)) by {
                assert(pane_views(panes@) =~= pane_views(pre).push(p@));
            }
            k += 1;
        }
        assert(pane_views(self.panes@).take(k as int) =~= pane_views(self.panes@));
        Window {
            id: self.id.clone(),
            name: self.name.clone(),
            active: self.active,
            session_id: self.session_id.clone(),
            panes,
        }
    }
}

fn window_owner(ws: &Vec<Window>, id: &String) -> (r: Option<usize>)
    ensures
        match r {
            Some(j) => first_window_with(window_views(ws@), j as int, id@),
            None => forall|j: int| !first_window_with(window_views(ws@), j, id@),
        },
{
    let ghost wv = window_views(ws@);
    let mut k: usize = 0;
    while k < ws.len()
        invariant
            0 <= k <= ws.len(),
            wv == window_views(ws@),
            forall|m: int| 0 <= m < k ==> wv[m].id != id@,
        decreases ws.len() - k,
    {
        if ws[k].id == *id {
            return Some(k);
        }
        k += 1;
    }
    None
}

fn session_owner(ss: &Vec<Session>, id: &String) -> (r: Option<usize>)
    ensures
        match r {
            Some(i) => first_session_with(session_views(ss@), i as int, id@),
            None => forall|i: int| !first_session_with(session_views(ss@), i, id@),
        },
{
    let ghost sv = session_views(ss@);
    let mut k: usize = 0;
    while k < ss.len()
        invariant
            0 <= k <= ss.len(),
            sv == session_views(ss@),
            forall|m: int| 0 <= m < k ==> sv[m].id != id@,
        decreases ss.len() - k,
    {
        if ss[k].id == *id {
            return Some(k);
        }
        k += 1;
    }
    None
}

fn attach_panes(ws: &Vec<Window>, ps: &Vec<Pane>) -> (r: Vec<Window>)
    ensures
        window_views(r@) == with_panes(window_views(ws@), pane_views(ps@)),
{
    let ghost wv = window_views(ws@);
    let ghost pv = pane_views(ps@);
    let mut out: Vec<Window> = Vec::new();
    let mut j: usize = 0;
    while j < ws.len()
        invariant
            0 <= j <= ws.len(),
            wv == window_views(ws@),
            pv == pane_views(ps@),
            window_views(out@) == with_panes(wv, pv).take(j as int),
        decreases ws.len() - j,
    {
        let mut panes: Vec<Pane> = Vec::new();
        let mut q: usize = 0;
        while q < ps.len()
            invariant
                0 <= j < ws.len(),
                0 <= q <= ps.len(),
                wv == window_views(ws@),
                pv == pane_views(ps@),
                pane_views(panes@) == pv.take(q as int).filter_map(
                    |p: PaneV|
                        if first_window_with(wv, j as int, p.window_id) {
                            Some(p)
                        } else {
                            None
                        },
                ),
            decreases ps.len() - q,
        {
            let owner = window_owner(ws, &ps[q].window_id);
            assert(pv.take(q + 1).drop_last() =~= pv.take(q as int));
            assert(pv.take(q + 1).last() == ps@[q as int]@);
            if owner == Some(j) {
                let p = ps[q].duplicate();
                let ghost pre = panes@;
                panes.push(p);
                assert(pane_views(panes@) =~= pane_views(pre) + seq![p@]);
            } else {
                proof {
                    if first_window_with(wv, j as int, pv[q as int].window_id) {
                        match owner {
                            Some(o) => {
                                if (o as int) < j {
                                    assert(wv[o as int].id != pv[q as int].window_id);
                                } else {
                                    assert(wv[j as int].id != pv[q as int].window_id);
                                }
                            },
                            None => {},
                        }
                    }
                }
            }
            q += 1;
        }
        assert(pv.take(ps.len() as int) =~= pv);
        let w = Window {
            id: ws[j].id.clone(),
            name: ws[j].name.clone(),
            active: ws[j].active,
            session_id: ws[j].session_id.clone(),
            panes,
        };
        let ghost pre = out@;
        out.push(w);
        assert(window_views(out@) =~= with_panes(wv, pv).take(j + 1)) by {
            assert(window_views(out@) =~= window_views(pre).push(w@));
        }
        j += 1;
    }
    assert(with_panes(wv, pv).take(ws.len() as int) =~= with_panes(wv, pv));
    out
}

fn attach_windows(ss: &Vec<Session>, ws: &Vec<Window>) -> (r: Vec<Session>)
    ensures
        session_views(r@) == with_windows(session_views(ss@), window_views(ws@)),
{
    let ghost sv = session_views(ss@);
    let ghost wv = window_views(ws@);
    let mut out: Vec<Session> = Vec::new();
    let mut i: usize = 0;
    while i < ss.len()
        invariant
            0 <= i <= ss.len(),
            sv == session_views(ss@),
            wv == window_views(ws@),
            session_views(out@) == with_windows(sv, wv).take(i as int),
        decreases ss.len() - i,
    {
        let mut windows: Vec<Window> = Vec::new();
        let mut q: usize = 0;
        while q < ws.len()
            invariant
                0 <= i < ss.len(),
                0 <= q <= ws.len(),
                sv == session_views(ss@),
                wv == window_views(ws@),
                window_views(windows@) == wv.take(q as int).filter_map(
                    |w: WindowV|
                        if first_session_with(sv, i as int, w.session_id) {
                            Some(w)
                        } else {
                            None
                        },
                ),
            decreases ws.len() - q,
        {
            let owner = session_owner(ss, &ws[q].session_id);
            assert(wv.take(q + 1).drop_last() =~= wv.take(q as int));
            assert(wv.take(q + 1).last() == ws@[q as int]@);
            if owner == Some(i) {
                let w = ws[q].duplicate();
                let ghost pre = windows@;
                windows.push(w);
                assert(window_views(windows@) =~= window_views(pre) + seq![w@]);
            } else {
                proof {
                    if first_session_with(sv, i as int, wv[q as int].session_id) {
                        match owner {
                            Some(o) => {
                                if (o as int) < i {
                                    assert(sv[o as int].id != wv[q as int].session_id);
                                } else {
                                    assert(sv[i as int].id != wv[q as int].session_id);
                                }
                            },
                            None => {},
                        }
                    }
                }
            }
            q += 1;
        }
        assert(wv.take(ws.len() as int) =~= wv);
        let s = Session {
            id: ss[i].id.clone(),
            name: ss[i].name.clone(),
            attached: ss[i].attached,
            windows,
        };
        let ghost pre = out@;
        out.push(s);
        assert(session_views(out@) =~= with_windows(sv, wv).take(i + 1)) by {
            assert(session_views(out@) =~= session_views(pre).push(s@));
        }
        i += 1;
    }
    assert(with_windows(sv, wv).take(ss.len() as int) =~= with_windows(sv, wv));
    out
}

/// Builds the snapshot that the three tmux listings describe: each pane goes
/// to the first window with its window id, each window to the first session
/// with its session id, and the sessions are sorted by name.
pub fn assemble_snapshot(sessions_raw: &str, windows_raw: &str, panes_raw: &str) -> (r: Snapshot)
    ensures
        r@ == assembled(sessions_raw@, windows_raw@, panes_raw@),
{
    let sessions = parse_sessions(sessions_raw);
    let windows = parse_windows(windows_raw);
    let panes = parse_panes(panes_raw);
    let windows = attach_panes(&windows, &panes);
    let sessions = attach_windows(&sessions, &windows);
    Snapshot { sessions: sort_sessions(sessions) }
}

pub enum TargetV {
    Session(Seq<char>),
    Window(Seq<char>, Seq<char>),
    Pane(Seq<char>, Seq<char>, Seq<char>),
}

impl View for TargetKind {
    type V = TargetV;

    open spec fn view(&self) -> TargetV {
        match self {
            TargetKind::Session(s) => TargetV::Session(s@),
            TargetKind::Window { session_id, window_id } => TargetV::Window(session_id@, window_id@),
            TargetKind::Pane { session_id, window_id, pane_id } => TargetV::Pane(
                session_id@,
                window_id@,
                pane_id@,
            ),
        }
    }
}

impl TargetKind {
    /// A field-by-field copy.
    pub fn duplicate(&self) -> (r: TargetKind)
        ensures
            r@ == self@,
    {
        match self {
            TargetKind::Session(s) => TargetKind::Session(s.clone()),
            TargetKind::Window { session_id, window_id } => TargetKind::Window {
                session_id: session_id.clone(),
                window_id: window_id.clone(),
            },
            TargetKind::Pane { session_id, window_id, pane_id } => TargetKind::Pane {
                session_id: session_id.clone(),
                window_id: window_id.clone(),
                pane_id: pane_id.clone(),
            },
        }
    }
}

} // verus!
