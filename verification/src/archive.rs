//! Archives of pane contents: the file name and the text of an archive.
use vstd::prelude::*;

use crate::text::{chars_of, push_str, str_to_string, string_of_range};

verus! {

pub open spec fn name_char(c: char) -> char {
    if ('a' <= c <= 'z') || ('A' <= c <= 'Z') || ('0' <= c <= '9') || c == '-' || c == '_' {
        c
    } else {
        '-'
    }
}

pub open spec fn first_kept(s: Seq<char>) -> int
    decreases s.len(),
{
    if s.len() > 0 && s[0] == '-' {
        1 + first_kept(s.drop_first())
    } else {
        0
    }
}

pub open spec fn last_kept(s: Seq<char>) -> int
    decreases s.len(),
{
    if s.len() > 0 && s.last() == '-' {
        last_kept(s.drop_last())
    } else {
        s.len() as int
    }
}

/// `s` without the dashes at either end.
pub open spec fn trim_dashes(s: Seq<char>) -> Seq<char> {
    let a = first_kept(s);
    if a >= s.len() {
        Seq::<char>::empty()
    } else {
        s.subrange(a, last_kept(s))
    }
}

/// The part of an archive's file name that comes from its name: letters,
/// digits, `-` and `_` kept and anything else made `-`, without dashes at
/// either end, at most 80 characters, and `archive` where nothing is left.
pub open spec fn archive_label(name: Seq<char>) -> Seq<char> {
    let t = trim_dashes(name.map_values(|c: char| name_char(c)));
    let cut = if t.len() > 80 { t.take(80) } else { t };
    if cut.len() == 0 {
        "archive"@
    } else {
        cut
    }
}

proof fn lemma_first_kept(s: Seq<char>)
    ensures
        0 <= first_kept(s) <= s.len(),
        forall|i: int| 0 <= i < first_kept(s) ==> s[i] == '-',
        first_kept(s) < s.len() ==> s[first_kept(s)] != '-',
    decreases s.len(),
{
    if s.len() > 0 && s[0] == '-' {
        lemma_first_kept(s.drop_first());
        assert forall|i: int| 0 <= i < first_kept(s) implies s[i] == '-' by {
            if i > 0 {
                assert(s[i] == s.drop_first()[i - 1]);
            }
        }
    }
}

proof fn lemma_last_kept(s: Seq<char>)
    ensures
        0 <= last_kept(s) <= s.len(),
        forall|i: int| last_kept(s) <= i < s.len() ==> s[i] == '-',
        last_kept(s) > 0 ==> s[last_kept(s) - 1] != '-',
    decreases s.len(),
{
    if s.len() > 0 && s.last() == '-' {
        lemma_last_kept(s.drop_last());
        assert forall|i: int| last_kept(s) <= i < s.len() implies s[i] == '-' by {
            if i < s.len() - 1 {
                assert(s[i] == s.drop_last()[i]);
            }
        }
        if last_kept(s) > 0 {
            assert(s[last_kept(s) - 1] == s.drop_last()[last_kept(s) - 1]);
        }
    }
}

proof fn lemma_kept_order(s: Seq<char>)
    requires
        first_kept(s) < s.len(),
    ensures
        first_kept(s) < last_kept(s),
{
    lemma_first_kept(s);
    lemma_last_kept(s);
    if last_kept(s) <= first_kept(s) {
        assert(s[first_kept(s)] == '-');
    }
}

/// The name part of an archive's file name.
pub fn archive_name(name: &str) -> (r: String)
    ensures
        r@ == archive_label(name@),
{
    let v = chars_of(name);
    let ghost mapped = name@.map_values(|c: char| name_char(c));
    let mut clean: Vec<char> = Vec::new();
    let mut k: usize = 0;
    while k < v.len()
        invariant
            0 <= k <= v.len(),
            v@ == name@,
            mapped == name@.map_values(|c: char| name_char(c)),
            clean@ =~= mapped.take(k as int),
        decreases v.len() - k,
    {
        let c = v[k];
        let kept = if ('a' <= c && c <= 'z') || ('A' <= c && c <= 'Z') || ('0' <= c && c <= '9') || c == '-'
            || c == '_' {
            c
        } else {
            '-'
        };
        clean.push(kept);
        k += 1;
    }
    assert(clean@ =~= mapped);
    proof {
        lemma_first_kept(mapped);
        lemma_last_kept(mapped);
    }
    let mut a: usize = 0;
    while a < clean.len() && clean[a] == '-'
        invariant
            0 <= a <= clean.len(),
            clean@ == mapped,
            a <= first_kept(mapped),
            0 <= first_kept(mapped) <= mapped.len(),
            forall|i: int| 0 <= i < first_kept(mapped) ==> mapped[i] == '-',
            first_kept(mapped) < mapped.len() ==> mapped[first_kept(mapped)] != '-',
        decreases clean.len() - a,
    {
        a += 1;
    }
    if a >= clean.len() {
        return str_to_string("archive");
    }
    proof {
        lemma_kept_order(mapped);
    }
    let mut b: usize = clean.len();
    while b > a && clean[b - 1] == '-'
        invariant
            a < clean.len(),
            a == first_kept(mapped),
            a < last_kept(mapped) <= b <= clean.len(),
            clean@ == mapped,
            forall|i: int| last_kept(mapped) <= i < mapped.len() ==> mapped[i] == '-',
            last_kept(mapped) > 0 ==> mapped[last_kept(mapped) - 1] != '-',
        decreases b,
    {
        b -= 1;
    }
    let end = if b - a > 80 {
        a + 80
    } else {
        b
    };
    let t = string_of_range(&clean, a, end);
    assert(t@ =~= if trim_dashes(mapped).len() > 80 {
        trim_dashes(mapped).take(80)
    } else {
        trim_dashes(mapped)
    });
    t
}

/// The file name of an archive made at `stamp`, the time in seconds since
/// the epoch written in decimal.
pub open spec fn archive_file(stamp: Seq<char>, name: Seq<char>) -> Seq<char> {
    stamp + "-"@ + archive_label(name) + ".txt"@
}

pub fn archive_file_name(stamp: &str, name: &str) -> (r: String)
    ensures
        r@ == archive_file(stamp@, name@),
{
    let mut s = str_to_string(stamp);
    push_str(&mut s, "-");
    push_str(&mut s, archive_name(name).as_str());
    push_str(&mut s, ".txt");
    s
}

/// A pane to archive: the label it is listed under, and its id.
pub struct ArchiveEntry {
    pub label: String,
    pub pane_id: String,
}

impl View for ArchiveEntry {
    type V = (Seq<char>, Seq<char>);

    open spec fn view(&self) -> (Seq<char>, Seq<char>) {
        (self.label@, self.pane_id@)
    }
}

pub open spec fn entry_views(v: Seq<ArchiveEntry>) -> Seq<(Seq<char>, Seq<char>)> {
    v.map_values(|e: ArchiveEntry| e@)
}

/// One pane in an archive: its label, its id and what it showed.
pub struct ArchivedPane {
    pub label: String,
    pub pane_id: String,
    pub contents: String,
}

impl View for ArchivedPane {
    type V = (Seq<char>, Seq<char>, Seq<char>);

    open spec fn view(&self) -> (Seq<char>, Seq<char>, Seq<char>) {
        (self.label@, self.pane_id@, self.contents@)
    }
}

pub open spec fn archived_views(v: Seq<ArchivedPane>) -> Seq<(Seq<char>, Seq<char>, Seq<char>)> {
    v.map_values(|p: ArchivedPane| p@)
}

pub open spec fn section(p: (Seq<char>, Seq<char>, Seq<char>)) -> Seq<char> {
    "\n--- "@ + p.0 + " "@ + p.1 + " ---\n"@ + p.2 + "\n"@
}

pub open spec fn sections(panes: Seq<(Seq<char>, Seq<char>, Seq<char>)>) -> Seq<char>
    decreases panes.len(),
{
    if panes.len() == 0 {
        Seq::<char>::empty()
    } else {
        sections(panes.drop_last()) + section(panes.last())
    }
}

/// The text of an archive: a header with its name and time, then each
/// pane under a line with its label and id.
pub open spec fn archive_body(name: Seq<char>, stamp: Seq<char>, panes: Seq<(Seq<char>, Seq<char>, Seq<char>)>) -> Seq<char> {
    "archive: "@ + name + "\n"@ + "created: "@ + stamp + "\n"@ + sections(panes)
}

pub fn archive_text(name: &str, stamp: &str, panes: &Vec<ArchivedPane>) -> (r: String)
    ensures
        r@ == archive_body(name@, stamp@, archived_views(panes@)),
{
    let ghost pv = archived_views(panes@);
    let mut s = str_to_string("archive: ");
    push_str(&mut s, name);
    push_str(&mut s, "\n");
    push_str(&mut s, "created: ");
    push_str(&mut s, stamp);
    push_str(&mut s, "\n");
    let ghost head = s@;
    let mut k: usize = 0;
    while k < panes.len()
        invariant
            0 <= k <= panes.len(),
            pv == archived_views(panes@),
            head == "archive: "@ + name@ + "\n"@ + "created: "@ + stamp@ + "\n"@,
            s@ == head + sections(pv.take(k as int)),
        decreases panes.len() - k,
    {
        let p = &panes[k];
        let ghost before = s@;
        push_str(&mut s, "\n--- ");
        push_str(&mut s, p.label.as_str());
        push_str(&mut s, " ");
        push_str(&mut s, p.pane_id.as_str());
        push_str(&mut s, " ---\n");
        push_str(&mut s, p.contents.as_str());
        push_str(&mut s, "\n");
        assert(pv.take(k as int + 1).drop_last() =~= pv.take(k as int));
        assert(s@ =~= before + section(pv[k as int]));
        k += 1;
    }
    assert(pv.take(panes.len() as int) =~= pv);
    s
}

} // verus!
