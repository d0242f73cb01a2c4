//! The settings file and the tmux configuration file that the program keeps
//! in its configuration directory.
use vstd::prelude::*;

use crate::text::{
    chars_eq, chars_of, decimal, decimal_string, is_space, lines, lines_of, parse_u8,
    parse_u8_chars, push_str, split_on, str_to_string, string_of_range, trim, trim_bounds,
    trim_end, trim_start, views,
};

verus! {

pub const DEFAULT_SHOW_HINTS: bool = false;

pub const DEFAULT_SHOW_STATUS: bool = true;

pub const DEFAULT_SIDEBAR_PERCENT: u8 = 12;

pub const DEFAULT_SIDEBAR_AUTO: bool = false;

#[derive(Clone, Copy, Debug)]
pub struct Settings {
    pub show_hints: bool,
    pub show_status: bool,
    pub sidebar_percent: u8,
    pub sidebar_auto: bool,
}

pub open spec fn default_settings() -> Settings {
    Settings {
        show_hints: DEFAULT_SHOW_HINTS,
        show_status: DEFAULT_SHOW_STATUS,
        sidebar_percent: DEFAULT_SIDEBAR_PERCENT,
        sidebar_auto: DEFAULT_SIDEBAR_AUTO,
    }
}

impl Default for Settings {
    fn default() -> (r: Self)
        ensures
            r == default_settings(),
    {
        Settings {
            show_hints: DEFAULT_SHOW_HINTS,
            show_status: DEFAULT_SHOW_STATUS,
            sidebar_percent: DEFAULT_SIDEBAR_PERCENT,
            sidebar_auto: DEFAULT_SIDEBAR_AUTO,
        }
    }
}

/// The two parts of `s` around its first `c`.
pub open spec fn split_once(s: Seq<char>, c: char) -> Option<(Seq<char>, Seq<char>)>
    decreases s.len(),
{
    if s.len() == 0 {
        None
    } else if s[0] == c {
        Some((Seq::<char>::empty(), s.drop_first()))
    } else {
        match split_once(s.drop_first(), c) {
            Some(parts) => Some((seq![s[0]] + parts.0, parts.1)),
            None => None,
        }
    }
}

/// The settings after one line of the settings file: `key=value`, keys and
/// values trimmed, flags true only for `true`, the percentage capped at 100;
/// other lines change nothing.
pub open spec fn apply_setting_line(s: Settings, line: Seq<char>) -> Settings {
    let t = trim(line);
    match split_once(t, '=') {
        None => s,
        Some(kv) => {
            let key = trim(kv.0);
            let value = trim(kv.1);
            let on = value == "true"@;
            if key == "show_hints"@ {
                Settings { show_hints: on, ..s }
            } else if key == "show_status"@ {
                Settings { show_status: on, ..s }
            } else if key == "sidebar_percent"@ {
                match parse_u8(value) {
                    Some(p) => Settings { sidebar_percent: if p <= 100 { p } else { 100 }, ..s },
                    None => s,
                }
            } else if key == "sidebar_auto"@ {
                Settings { sidebar_auto: on, ..s }
            } else {
                s
            }
        },
    }
}

/// The settings after the given lines, starting from the defaults.
pub open spec fn settings_after(ls: Seq<Seq<char>>) -> Settings
    decreases ls.len(),
{
    if ls.len() == 0 {
        default_settings()
    } else {
        apply_setting_line(settings_after(ls.drop_last()), ls.last())
    }
}

/// The settings that a settings file holds.
pub open spec fn settings_from_text(contents: Seq<char>) -> Settings {
    settings_after(lines(contents))
}

pub open spec fn bool_text(b: bool) -> Seq<char> {
    if b {
        "true"@
    } else {
        "false"@
    }
}

/// The settings file for `s`.
pub open spec fn settings_text(s: Settings) -> Seq<char> {
    "show_hints="@ + bool_text(s.show_hints) + "\n"@ + "show_status="@ + bool_text(s.show_status)
        + "\n"@ + "sidebar_percent="@ + decimal(s.sidebar_percent as nat) + "\n"@
        + "sidebar_auto="@ + bool_text(s.sidebar_auto) + "\n"@
}

fn split_once_exec(v: &Vec<char>, c: char) -> (r: Option<usize>)
    ensures
        match r {
            Some(i) => i < v.len() && split_once(v@, c) == Some(
                (v@.take(i as int), v@.skip(i + 1)),
            ),
            None => split_once(v@, c) is None,
        },
{
    let mut i: usize = 0;
    while i < v.len()
        invariant
            0 <= i <= v.len(),
            forall|m: int| 0 <= m < i ==> v@[m] != c,
        decreases v.len() - i,
    {
        if v[i] == c {
            proof {
                lemma_split_once_at(v@, c, i as int);
            }
            return Some(i);
        }
        i += 1;
    }
    proof {
        lemma_split_once_none(v@, c);
    }
    None
}

proof fn lemma_split_once_at(s: Seq<char>, c: char, i: int)
    requires
        0 <= i < s.len(),
        s[i] == c,
        forall|m: int| 0 <= m < i ==> s[m] != c,
    ensures
        split_once(s, c) == Some((s.take(i), s.skip(i + 1))),
    decreases i,
{
    if i == 0 {
        assert(s.take(0) =~= Seq::<char>::empty());
        assert(s.skip(1) =~= s.drop_first());
    } else {
        let t = s.drop_first();
        assert forall|m: int| 0 <= m < i - 1 implies t[m] != c by {
            assert(t[m] == s[m + 1]);
        }
        lemma_split_once_at(t, c, i - 1);
        assert(seq![s[0]] + t.take(i - 1) =~= s.take(i));
        assert(t.skip(i) =~= s.skip(i + 1));
    }
}

proof fn lemma_split_once_none(s: Seq<char>, c: char)
    requires
        forall|m: int| 0 <= m < s.len() ==> s[m] != c,
    ensures
        split_once(s, c) is None,
    decreases s.len(),
{
    if s.len() > 0 {
        let t = s.drop_first();
        assert forall|m: int| 0 <= m < t.len() implies t[m] != c by {
            assert(t[m] == s[m + 1]);
        }
        lemma_split_once_none(t, c);
    }
}

fn trimmed_range(v: &Vec<char>, from: usize, to: usize) -> (r: Vec<char>)
    requires
        from <= to <= v.len(),
    ensures
        r@ == trim(v@.subrange(from as int, to as int)),
{
    let mut piece: Vec<char> = Vec::new();
    let mut i = from;
    while i < to
        invariant
            from <= i <= to <= v.len(),
            piece@ == v@.subrange(from as int, i as int),
        decreases to - i,
    {
        piece.push(v[i]);
        assert(v@.subrange(from as int, i + 1) =~= v@.subrange(from as int, i as int).push(v@[i as int]));
        i += 1;
    }
    let (a, b) = trim_bounds(&piece);
    let mut out: Vec<char> = Vec::new();
    let mut k = a;
    while k < b
        invariant
            a <= k <= b <= piece.len(),
            out@ == piece@.subrange(a as int, k as int),
        decreases b - k,
    {
        out.push(piece[k]);
        assert(piece@.subrange(a as int, k + 1) =~= piece@.subrange(a as int, k as int).push(piece@[k as int]));
        k += 1;
    }
    out
}

fn apply_line(s: Settings, line: &Vec<char>) -> (r: Settings)
    ensures
        r == apply_setting_line(s, line@),
{
    let t = trimmed_range(line, 0, line.len());
    assert(line@.subrange(0, line@.len() as int) =~= line@);
    match split_once_exec(&t, '=') {
        None => s,
        Some(i) => {
            let key = trimmed_range(&t, 0, i);
            let value = trimmed_range(&t, i + 1, t.len());
            assert(t@.subrange(0, i as int) =~= t@.take(i as int));
            assert(t@.subrange(i + 1, t@.len() as int) =~= t@.skip(i + 1));
            let on = chars_eq(&value, &chars_of("true"));
            if chars_eq(&key, &chars_of("show_hints")) {
                Settings { show_hints: on, ..s }
            } else if chars_eq(&key, &chars_of("show_status")) {
                Settings { show_status: on, ..s }
            } else if chars_eq(&key, &chars_of("sidebar_percent")) {
                match parse_u8_chars(&value) {
                    Some(p) => Settings { sidebar_percent: if p <= 100 { p } else { 100 }, ..s },
                    None => s,
                }
            } else if chars_eq(&key, &chars_of("sidebar_auto")) {
                Settings { sidebar_auto: on, ..s }
            } else {
                s
            }
        },
    }
}

/// Reads a settings file: unknown keys and malformed lines are skipped.
pub fn read_settings(contents: &str) -> (r: Settings)
    ensures
        r == settings_from_text(contents@),
        r.sidebar_percent <= 100,
{
    let ls = lines_of(contents);
    let ghost lv = views(ls@);
    let mut s = Settings::default();
    let mut i: usize = 0;
    while i < ls.len()
        invariant
            0 <= i <= ls.len(),
            lv == views(ls@),
            lv == lines(contents@),
            s == settings_after(lv.take(i as int)),
            s.sidebar_percent <= 100,
        decreases ls.len() - i,
    {
        assert(lv.take(i + 1).drop_last() =~= lv.take(i as int));
        assert(lv.take(i + 1).last() == ls@[i as int]@);
        s = apply_line(s, &ls[i]);
        i += 1;
    }
    assert(lv.take(ls.len() as int) =~= lv);
    s
}

fn bool_string(b: bool) -> (r: &'static str)
    ensures
        r@ == bool_text(b),
{
    if b {
        "true"
    } else {
        "false"
    }
}

/// Writes the settings file for `settings`.
pub fn render_settings(settings: &Settings) -> (r: String)
    ensures
        r@ == settings_text(*settings),
{
    let mut out = str_to_string("show_hints=");
    push_str(&mut out, bool_string(settings.show_hints));
    push_str(&mut out, "\n");
    push_str(&mut out, "show_status=");
    push_str(&mut out, bool_string(settings.show_status));
    push_str(&mut out, "\n");
    push_str(&mut out, "sidebar_percent=");
    let digits = decimal_string(settings.sidebar_percent as u64);
    push_str(&mut out, digits.as_str());
    push_str(&mut out, "\n");
    push_str(&mut out, "sidebar_auto=");
    push_str(&mut out, bool_string(settings.sidebar_auto));
    push_str(&mut out, "\n");
    out
}

proof fn lemma_split_no_sep(a: Seq<char>, sep: char)
    requires
        forall|i: int| 0 <= i < a.len() ==> a[i] != sep,
    ensures
        split_on(a, sep) == seq![a],
    decreases a.len(),
{
    if a.len() > 0 {
        let t = a.drop_last();
        assert forall|i: int| 0 <= i < t.len() implies t[i] != sep by {
            assert(t[i] == a[i]);
        }
        lemma_split_no_sep(t, sep);
        assert(t.push(a.last()) =~= a);
        assert(seq![t].update(0, a) =~= seq![a]);
    } else {
        assert(a =~= Seq::<char>::empty());
    }
}

proof fn lemma_split_after(a: Seq<char>, rest: Seq<char>, sep: char)
    requires
        forall|i: int| 0 <= i < a.len() ==> a[i] != sep,
    ensures
        split_on(a + seq![sep] + rest, sep) == seq![a] + split_on(rest, sep),
    decreases rest.len(),
{
    let whole = a + seq![sep] + rest;
    if rest.len() == 0 {
        assert(whole.drop_last() =~= a);
        lemma_split_no_sep(a, sep);
        assert(split_on(whole, sep) =~= seq![a] + split_on(rest, sep));
    } else {
        lemma_split_after(a, rest.drop_last(), sep);
        assert(whole.drop_last() =~= a + seq![sep] + rest.drop_last());
        crate::text::lemma_split_on_nonempty(rest.drop_last(), sep);
        let prev = split_on(rest.drop_last(), sep);
        if rest.last() == sep {
            assert((seq![a] + prev).push(Seq::<char>::empty()) =~= seq![a] + prev.push(
                Seq::<char>::empty(),
            ));
        } else {
            let q = seq![a] + prev;
            assert(q.update(q.len() - 1, q.last().push(rest.last())) =~= seq![a] + prev.update(
                prev.len() - 1,
                prev.last().push(rest.last()),
            ));
        }
    }
}

proof fn lemma_split_once_after(a: Seq<char>, b: Seq<char>, c: char)
    requires
        forall|i: int| 0 <= i < a.len() ==> a[i] != c,
    ensures
        split_once(a + seq![c] + b, c) == Some((a, b)),
{
    let s = a + seq![c] + b;
    assert(s[a.len() as int] == c);
    assert forall|m: int| 0 <= m < a.len() implies s[m] != c by {
        assert(s[m] == a[m]);
    }
    lemma_split_once_at(s, c, a.len() as int);
    assert(s.take(a.len() as int) =~= a);
    assert(s.skip(a.len() as int + 1) =~= b);
}

proof fn lemma_trim_plain(s: Seq<char>)
    requires
        s.len() > 0,
        !is_space(s[0]),
        !is_space(s.last()),
    ensures
        trim(s) == s,
{
    assert(trim_start(s) == s);
    assert(trim_end(s) == s);
}

/// Whether `v` can stand as a value in the settings file unchanged.
spec fn plain_value(v: Seq<char>) -> bool {
    &&& v.len() > 0
    &&& !is_space(v[0])
    &&& !is_space(v.last())
    &&& forall|i: int| 0 <= i < v.len() ==> v[i] != '\n' && v[i] != '='
    &&& v.last() != '\r'
}

proof fn lemma_apply_kv(s: Settings, key: Seq<char>, value: Seq<char>)
    requires
        plain_value(key),
        plain_value(value),
    ensures
        ({
            let on = value == "true"@;
            apply_setting_line(s, key + seq!['='] + value) == if key == "show_hints"@ {
                Settings { show_hints: on, ..s }
            } else if key == "show_status"@ {
                Settings { show_status: on, ..s }
            } else if key == "sidebar_percent"@ {
                match parse_u8(value) {
                    Some(p) => Settings { sidebar_percent: if p <= 100 { p } else { 100 }, ..s },
                    None => s,
                }
            } else if key == "sidebar_auto"@ {
                Settings { sidebar_auto: on, ..s }
            } else {
                s
            }
        }),
{
    let line = key + seq!['='] + value;
    assert(line[0] == key[0]);
    assert(line.last() == value.last());
    lemma_trim_plain(line);
    lemma_split_once_after(key, value, '=');
    lemma_trim_plain(key);
    lemma_trim_plain(value);
}

proof fn lemma_bool_plain(b: bool)
    ensures
        plain_value(bool_text(b)),
        (bool_text(b) == "true"@) == b,
{
    reveal_strlit("true");
    reveal_strlit("false");
    if !b {
        assert("false"@.len() != "true"@.len());
    }
}

proof fn lemma_decimal_plain(n: nat)
    ensures
        plain_value(decimal(n)),
{
    crate::text::lemma_decimal_digits(n);
    let d = decimal(n);
    assert(crate::text::is_digit(d[0]));
    assert(crate::text::is_digit(d.last()));
    assert forall|i: int| 0 <= i < d.len() implies d[i] != '\n' && d[i] != '=' by {
        assert(crate::text::is_digit(d[i]));
    }
}

proof fn lemma_line_no_newline(k: Seq<char>, v: Seq<char>)
    requires
        plain_value(k),
        plain_value(v),
    ensures
        forall|i: int| 0 <= i < (k + seq!['='] + v).len() ==> (k + seq!['='] + v)[i] != '\n',
        (k + seq!['='] + v).last() == v.last(),
{
    let l = k + seq!['='] + v;
    assert forall|i: int| 0 <= i < l.len() implies l[i] != '\n' by {
        if i > k.len() {
            assert(l[i] == v[i - k.len() - 1]);
        } else if i < k.len() {
            assert(l[i] == k[i]);
        }
    }
}

/// The four lines of a settings file.
#[verifier::rlimit(40)]
proof fn lemma_settings_lines(s: Settings)
    ensures
        lines(settings_text(s)) == seq![
            "show_hints"@ + seq!['='] + bool_text(s.show_hints),
            "show_status"@ + seq!['='] + bool_text(s.show_status),
            "sidebar_percent"@ + seq!['='] + decimal(s.sidebar_percent as nat),
            "sidebar_auto"@ + seq!['='] + bool_text(s.sidebar_auto),
        ],
{
    reveal_strlit("show_hints=");
    reveal_strlit("show_status=");
    reveal_strlit("sidebar_percent=");
    reveal_strlit("sidebar_auto=");
    reveal_strlit("show_hints");
    reveal_strlit("show_status");
    reveal_strlit("sidebar_percent");
    reveal_strlit("sidebar_auto");
    reveal_strlit("\n");
    lemma_bool_plain(s.show_hints);
    lemma_bool_plain(s.show_status);
    lemma_bool_plain(s.sidebar_auto);
    lemma_decimal_plain(s.sidebar_percent as nat);
    let k1 = "show_hints"@;
    let k2 = "show_status"@;
    let k3 = "sidebar_percent"@;
    let k4 = "sidebar_auto"@;
    let v1 = bool_text(s.show_hints);
    let v2 = bool_text(s.show_status);
    let v3 = decimal(s.sidebar_percent as nat);
    let v4 = bool_text(s.sidebar_auto);
    let l1 = k1 + seq!['='] + v1;
    let l2 = k2 + seq!['='] + v2;
    let l3 = k3 + seq!['='] + v3;
    let l4 = k4 + seq!['='] + v4;
    let nl = seq!['\n'];
    let e = Seq::<char>::empty();
    assert(settings_text(s) =~= l1 + nl + (l2 + nl + (l3 + nl + (l4 + nl + e))));
    lemma_line_no_newline(k1, v1);
    lemma_line_no_newline(k2, v2);
    lemma_line_no_newline(k3, v3);
    lemma_line_no_newline(k4, v4);
    lemma_split_after(l4, e, '\n');
    lemma_split_after(l3, l4 + nl + e, '\n');
    lemma_split_after(l2, l3 + nl + (l4 + nl + e), '\n');
    lemma_split_after(l1, l2 + nl + (l3 + nl + (l4 + nl + e)), '\n');
    assert(split_on(e, '\n') =~= seq![e]);
    let parts = split_on(settings_text(s), '\n');
    assert(parts =~= seq![l1, l2, l3, l4, e]);
    assert(l1.last() == v1.last() && l2.last() == v2.last());
    assert(l3.last() == v3.last() && l4.last() == v4.last());
    assert(lines(settings_text(s)) =~= seq![l1, l2, l3, l4]);
}

/// Reading back the settings file that was written for `s` gives `s`, for
/// every percentage that the settings can hold.
pub proof fn lemma_settings_round_trip(s: Settings)
    requires
        s.sidebar_percent <= 100,
    ensures
        settings_from_text(settings_text(s)) == s,
{
    reveal_strlit("show_hints");
    reveal_strlit("show_status");
    reveal_strlit("sidebar_percent");
    reveal_strlit("sidebar_auto");
    lemma_settings_lines(s);
    lemma_bool_plain(s.show_hints);
    lemma_bool_plain(s.show_status);
    lemma_bool_plain(s.sidebar_auto);
    lemma_decimal_plain(s.sidebar_percent as nat);
    crate::text::lemma_parse_decimal_u8(s.sidebar_percent);
    let k1 = "show_hints"@;
    let k2 = "show_status"@;
    let k3 = "sidebar_percent"@;
    let k4 = "sidebar_auto"@;
    let v1 = bool_text(s.show_hints);
    let v2 = bool_text(s.show_status);
    let v3 = decimal(s.sidebar_percent as nat);
    let v4 = bool_text(s.sidebar_auto);
    let l1 = k1 + seq!['='] + v1;
    let l2 = k2 + seq!['='] + v2;
    let l3 = k3 + seq!['='] + v3;
    let l4 = k4 + seq!['='] + v4;
    assert(plain_value(k1) && plain_value(k2) && plain_value(k3) && plain_value(k4));
    assert(k2 != k1 && k3 != k1 && k3 != k2 && k4 != k1 && k4 != k2 && k4 != k3) by {
        assert(k1.len() == 10 && k2.len() == 11 && k3.len() == 15 && k4.len() == 12);
    }
    let ls = lines(settings_text(s));
    let s0 = default_settings();
    lemma_apply_kv(s0, k1, v1);
    let s1 = apply_setting_line(s0, l1);
    assert(s1 == Settings { show_hints: s.show_hints, ..s0 });
    lemma_apply_kv(s1, k2, v2);
    let s2 = apply_setting_line(s1, l2);
    assert(s2 == Settings { show_status: s.show_status, ..s1 });
    lemma_apply_kv(s2, k3, v3);
    let s3 = apply_setting_line(s2, l3);
    assert(s3 == Settings { sidebar_percent: s.sidebar_percent, ..s2 });
    lemma_apply_kv(s3, k4, v4);
    let s4 = apply_setting_line(s3, l4);
    assert(s4 == Settings { sidebar_auto: s.sidebar_auto, ..s3 });
    assert(ls.drop_last().drop_last().drop_last().drop_last() =~= Seq::<Seq<char>>::empty());
    assert(ls.drop_last().drop_last().drop_last() =~= seq![l1]);
    assert(ls.drop_last().drop_last() =~= seq![l1, l2]);
    assert(ls.drop_last() =~= seq![l1, l2, l3]);
    assert(seq![l1].drop_last() =~= Seq::<Seq<char>>::empty());
    assert(seq![l1, l2].drop_last() =~= seq![l1]);
    assert(seq![l1, l2, l3].drop_last() =~= seq![l1, l2]);
    assert(settings_after(Seq::<Seq<char>>::empty()) == s0);
    assert(seq![l1].last() == l1);
    assert(settings_after(seq![l1]) == apply_setting_line(settings_after(seq![l1].drop_last()), l1));
    assert(settings_after(seq![l1]) == s1);
    assert(settings_after(seq![l1, l2]) == s2);
    assert(settings_after(seq![l1, l2, l3]) == s3);
}

/// The opening of the managed tmux configuration: prefix, input and
/// terminal options.
pub const TMUX_CONF_HEAD: &'static str = r##"set -g prefix C-g
unbind C-b
bind C-g send-prefix

set -g mouse on
set -g mode-keys vi
set -sg escape-time 10
set -g focus-events on
set -g history-limit 50000
set -g base-index 1
setw -g pane-base-index 1
set -g renumber-windows on
setw -g automatic-rename on
setw -g automatic-rename-format "#{pane_current_command}"
setw -g aggressive-resize on
set -g detach-on-destroy on
set -g set-clipboard on
set -g default-terminal "screen-256color"
set -s terminal-features "xterm*:clipboard:ccolour:cstyle:focus:title:RGB,screen*:title:RGB,tmux-256color:RGB,rxvt*:ignorefkeys"
set -g update-environment "DISPLAY KRB5CCNAME SSH_ASKPASS SSH_AUTH_SOCK SSH_AGENT_PID SSH_CONNECTION WINDOWID XAUTHORITY NVIM"
"##;

/// The status line when it is shown.
pub const TMUX_STATUS_ON: &'static str = r##"set -g status on
set -g status-position bottom
set -g status-justify left
set -g status-left-length 80
set -g status-right-length 120
set -g status-left "#S | #{window_name} | #{pane_current_command}"
set -g status-right "#{pane_current_path} | %H:%M"
"##;

/// The status line when it is hidden.
pub const TMUX_STATUS_OFF: &'static str = "set -g status off\n";

/// The closing of the managed tmux configuration: pane navigation, copy mode
/// and the detach binding that records the live target.
pub const TMUX_CONF_TAIL: &'static str = r##"bind -n C-h if-shell 'tmux display-message -p "#{m:#{pane_current_command},*vim}" | grep -q 1' 'send-keys C-h' 'select-pane -L'
bind -n C-j if-shell 'tmux display-message -p "#{m:#{pane_current_command},*vim}" | grep -q 1' 'send-keys C-j' 'select-pane -D'
bind -n C-k if-shell 'tmux display-message -p "#{m:#{pane_current_command},*vim}" | grep -q 1' 'send-keys C-k' 'select-pane -U'
bind -n C-l if-shell 'tmux display-message -p "#{m:#{pane_current_command},*vim}" | grep -q 1' 'send-keys C-l' 'select-pane -R'
unbind -T copy-mode-vi MouseDragEnd1Pane
bind -T copy-mode-vi MouseDragEnd1Pane send-keys -X copy-pipe-and-cancel "pbcopy"
bind -T copy-mode-vi Enter send-keys -X copy-pipe-and-cancel "pbcopy"
bind -T copy-mode-vi y send-keys -X copy-pipe-and-cancel "pbcopy"
bind -n C-q run-shell "tmux set-option -gq @tmuxtui-session '#{session_id}'; tmux set-option -gq @tmuxtui-window '#{window_id}'; tmux set-option -gq @tmuxtui-pane '#{pane_id}'; tmux detach-client"
"##;

/// The managed tmux configuration for `s`.
pub open spec fn tmux_conf_text(s: Settings) -> Seq<char> {
    TMUX_CONF_HEAD@ + (if s.show_status {
        TMUX_STATUS_ON@
    } else {
        TMUX_STATUS_OFF@
    }) + TMUX_CONF_TAIL@
}

/// Writes the managed tmux configuration for `settings`.
pub fn render_tmux_conf(settings: &Settings) -> (r: String)
    ensures
        r@ == tmux_conf_text(*settings),
{
    let mut out = str_to_string(TMUX_CONF_HEAD);
    if settings.show_status {
        push_str(&mut out, TMUX_STATUS_ON);
    } else {
        push_str(&mut out, TMUX_STATUS_OFF);
    }
    push_str(&mut out, TMUX_CONF_TAIL);
    out
}

/// A file that is to hold the given text.
pub struct FileWrite {
    pub path: String,
    pub contents: String,
}

/// `base` joined with `name` as a path, as `Path::join` computes it.
pub uninterp spec fn joined_path(base: Seq<char>, name: Seq<char>) -> Seq<char>;

/// Calls `Path::join`. The result is a function of the two paths; where
/// `name` is relative it is `base` and `name` with a separator between them.
#[verifier::external_body]
pub fn join_path(base: &str, name: &str) -> (r: String)
    ensures
        r@ == joined_path(base@, name@),
{
    std::path::Path::new(base).join(name).to_string_lossy().into_owned()
}

/// The directory part of a path, as `Path::parent` gives it.
pub uninterp spec fn parent_path(path: Seq<char>) -> Option<Seq<char>>;

/// Calls `Path::parent`. The result is a function of the path; it is `None`
/// for a root or an empty path.
#[verifier::external_body]
pub fn path_parent(path: &str) -> (r: Option<String>)
    ensures
        match r {
            Some(p) => parent_path(path@) == Some(p@),
            None => parent_path(path@) is None,
        },
{
    std::path::Path::new(path).parent().map(|p| p.to_string_lossy().into_owned())
}

/// Where archives go: an `archive` directory beside the configuration.
pub open spec fn archive_dir_of(tmux_conf: Seq<char>) -> Seq<char> {
    match parent_path(tmux_conf) {
        Some(dir) => joined_path(dir, "archive"@),
        None => "archive"@,
    }
}

/// The settings file and the tmux configuration that the program manages.
#[derive(Debug)]
pub struct ManagedConfig {
    pub(crate) tmux_conf: String,
    pub(crate) settings_path: String,
    pub(crate) settings: Settings,
}

impl Clone for ManagedConfig {
    fn clone(&self) -> (r: Self)
        ensures
            r.settings_spec() == self.settings_spec(),
            r.tmux_conf_spec() == self.tmux_conf_spec(),
            r.settings_path_spec() == self.settings_path_spec(),
    {
        proof {
            use_type_invariant(self);
        }
        ManagedConfig {
            tmux_conf: self.tmux_conf.clone(),
            settings_path: self.settings_path.clone(),
            settings: self.settings,
        }
    }
}

impl ManagedConfig {
    /// The percentage of the sidebar never exceeds 100.
    #[verifier::type_invariant]
    spec fn percent_in_range(self) -> bool {
        self.settings.sidebar_percent <= 100
    }

    pub closed spec fn settings_spec(&self) -> Settings {
        self.settings
    }

    pub closed spec fn tmux_conf_spec(&self) -> Seq<char> {
        self.tmux_conf@
    }

    pub closed spec fn settings_path_spec(&self) -> Seq<char> {
        self.settings_path@
    }

    /// The configuration kept in `config_dir`, with the settings read from
    /// `stored` (the settings file's contents, `None` where there is none).
    pub fn from_dir(config_dir: &str, stored: Option<&str>) -> (r: ManagedConfig)
        ensures
            r.tmux_conf_spec() == joined_path(config_dir@, "tmux.conf"@),
            r.settings_path_spec() == joined_path(config_dir@, "settings.conf"@),
            r.settings_spec() == match stored {
                Some(text) => settings_from_text(text@),
                None => default_settings(),
            },
    {
        let settings = match stored {
            Some(text) => read_settings(text),
            None => Settings::default(),
        };
        assert(settings.sidebar_percent <= 100);
        ManagedConfig {
            tmux_conf: join_path(config_dir, "tmux.conf"),
            settings_path: join_path(config_dir, "settings.conf"),
            settings,
        }
    }

    pub fn settings(&self) -> (r: &Settings)
        ensures
            *r == self.settings_spec(),
            r.sidebar_percent <= 100,
    {
        proof {
            use_type_invariant(self);
        }
        &self.settings
    }

    /// The path of the managed tmux configuration.
    pub fn tmux_conf(&self) -> (r: &String)
        ensures
            r@ == self.tmux_conf_spec(),
    {
        &self.tmux_conf
    }

    /// The directory that archives go to: `archive` beside the tmux
    /// configuration.
    pub fn archive_dir(&self) -> (r: String)
        ensures
            r@ == archive_dir_of(self.tmux_conf_spec()),
    {
        match path_parent(self.tmux_conf.as_str()) {
            Some(dir) => join_path(dir.as_str(), "archive"),
            None => str_to_string("archive"),
        }
    }

    /// The two files that hold the current settings.
    pub fn sync_files(&self) -> (r: Vec<FileWrite>)
        ensures
            r@.len() == 2,
            r@[0].path@ == self.settings_path_spec(),
            r@[0].contents@ == settings_text(self.settings_spec()),
            r@[1].path@ == self.tmux_conf_spec(),
            r@[1].contents@ == tmux_conf_text(self.settings_spec()),
            settings_from_text(r@[0].contents@) == self.settings_spec(),
    {
        proof {
            use_type_invariant(self);
            lemma_settings_round_trip(self.settings);
        }
        let mut v = Vec::new();
        v.push(FileWrite { path: self.settings_path.clone(), contents: render_settings(&self.settings) });
        v.push(FileWrite { path: self.tmux_conf.clone(), contents: render_tmux_conf(&self.settings) });
        v
    }

    /// Sets whether footer hints show; returns the files to write.
    pub fn set_show_hints(&mut self, show_hints: bool) -> (r: Vec<FileWrite>)
        ensures
            final(self).settings_spec() == (Settings { show_hints, ..old(self).settings_spec() }),
            final(self).tmux_conf_spec() == old(self).tmux_conf_spec(),
            final(self).settings_path_spec() == old(self).settings_path_spec(),
            r@.len() == 2,
            r@[0].path@ == final(self).settings_path_spec(),
            r@[0].contents@ == settings_text(final(self).settings_spec()),
            r@[1].path@ == final(self).tmux_conf_spec(),
            r@[1].contents@ == tmux_conf_text(final(self).settings_spec()),
            settings_from_text(r@[0].contents@) == final(self).settings_spec(),
    {
        proof {
            use_type_invariant(&*self);
        }
        self.settings.show_hints = show_hints;
        self.sync_files()
    }

    /// Sets whether tmux shows its status line; returns the files to write.
    pub fn set_show_status(&mut self, show_status: bool) -> (r: Vec<FileWrite>)
        ensures
            final(self).settings_spec() == (Settings { show_status, ..old(self).settings_spec() }),
            final(self).tmux_conf_spec() == old(self).tmux_conf_spec(),
            final(self).settings_path_spec() == old(self).settings_path_spec(),
            r@.len() == 2,
            r@[0].path@ == final(self).settings_path_spec(),
            r@[0].contents@ == settings_text(final(self).settings_spec()),
            r@[1].path@ == final(self).tmux_conf_spec(),
            r@[1].contents@ == tmux_conf_text(final(self).settings_spec()),
            settings_from_text(r@[0].contents@) == final(self).settings_spec(),
    {
        proof {
            use_type_invariant(&*self);
        }
        self.settings.show_status = show_status;
        self.sync_files()
    }

    /// Sets a fixed sidebar width, capped at 100 percent, and turns the
    /// automatic width off; returns the files to write.
    pub fn set_sidebar_percent(&mut self, sidebar_percent: u8) -> (r: Vec<FileWrite>)
        ensures
            final(self).settings_spec() == (Settings {
                sidebar_percent: if sidebar_percent <= 100 { sidebar_percent } else { 100 },
                sidebar_auto: false,
                ..old(self).settings_spec()
            }),
            final(self).tmux_conf_spec() == old(self).tmux_conf_spec(),
            final(self).settings_path_spec() == old(self).settings_path_spec(),
            r@.len() == 2,
            r@[0].path@ == final(self).settings_path_spec(),
            r@[0].contents@ == settings_text(final(self).settings_spec()),
            r@[1].path@ == final(self).tmux_conf_spec(),
            r@[1].contents@ == tmux_conf_text(final(self).settings_spec()),
            settings_from_text(r@[0].contents@) == final(self).settings_spec(),
    {
        proof {
            use_type_invariant(&*self);
        }
        self.settings.sidebar_percent = if sidebar_percent <= 100 { sidebar_percent } else { 100 };
        self.settings.sidebar_auto = false;
        self.sync_files()
    }

    /// Turns the automatic sidebar width on; returns the files to write.
    pub fn set_sidebar_auto(&mut self) -> (r: Vec<FileWrite>)
        ensures
            final(self).settings_spec() == (Settings { sidebar_auto: true, ..old(self).settings_spec() }),
            final(self).tmux_conf_spec() == old(self).tmux_conf_spec(),
            final(self).settings_path_spec() == old(self).settings_path_spec(),
            r@.len() == 2,
            r@[0].path@ == final(self).settings_path_spec(),
            r@[0].contents@ == settings_text(final(self).settings_spec()),
            r@[1].path@ == final(self).tmux_conf_spec(),
            r@[1].contents@ == tmux_conf_text(final(self).settings_spec()),
            settings_from_text(r@[0].contents@) == final(self).settings_spec(),
    {
        proof {
            use_type_invariant(&*self);
        }
        self.settings.sidebar_auto = true;
        self.sync_files()
    }
}

} // verus!
