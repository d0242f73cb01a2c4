//! The operations on a tmux server, each a job: a small state machine that
//! names the next tmux command (or file write) to perform and takes its reply,
//! until it finishes with an outcome.
use vstd::prelude::*;

use crate::archive::{
    ArchiveEntry, ArchivedPane, archive_body, archive_file, archive_file_name, archive_text, archived_views,
    entry_views,
};
use crate::managed_config::{
    FileWrite, ManagedConfig, Settings, archive_dir_of, join_path, joined_path, settings_text,
    tmux_conf_text,
};
use crate::text::{
    chars_eq, chars_of, contains, contains_chars, split_chars, split_on, str_to_string, trim,
    trim_string, views,
};
use crate::tmux::{LastTarget, SessionV, Snapshot, TargetKind, TargetV, assemble_snapshot, assembled};

verus! {

/// One thing for the driver to do.
pub enum Effect {
    /// Run `tmux` with these arguments and report its standard output, or
    /// its standard error when it fails. `lenient` marks a command whose
    /// failure for want of a running server counts as empty output.
    Run { args: Vec<String>, lenient: bool },
    /// Run `tmux` with these arguments on the terminal; it succeeds when
    /// tmux exits with status 0 or 1.
    Attach { args: Vec<String> },
    /// Write a file.
    Write(FileWrite),
    /// Create a directory and its parents, where they are missing.
    MakeDir(String),
    /// Report the time: whole seconds since the epoch, in decimal.
    Clock,
}

/// How an effect went.
pub enum Reply {
    Output(String),
    Failure(String),
}

/// What a job ends with.
pub enum Outcome {
    Done,
    Text(String),
    Snapshot(Snapshot),
    Target(Option<LastTarget>),
    Value(Option<String>),
    Failed(String),
}

pub enum Step {
    Perform(Effect),
    Finish(Outcome),
}

/// What a command-list job gives back when all its effects succeeded.
#[derive(Clone, Copy, Debug, PartialEq, Eq)]
pub enum Finish {
    Done,
    Trimmed,
    Raw,
}

pub enum EffectV {
    Run(Seq<Seq<char>>, bool),
    Attach(Seq<Seq<char>>),
    Write(Seq<char>, Seq<char>),
    MakeDir(Seq<char>),
    Clock,
}

pub enum ReplyV {
    Output(Seq<char>),
    Failure(Seq<char>),
}

pub enum OutcomeV {
    Done,
    Text(Seq<char>),
    Snapshot(Seq<SessionV>),
    Target(Option<(Seq<char>, Option<Seq<char>>, Option<Seq<char>>)>),
    Value(Option<Seq<char>>),
    Failed(Seq<char>),
}

pub enum StepV {
    Perform(EffectV),
    Finish(OutcomeV),
}

pub open spec fn string_views(v: Seq<String>) -> Seq<Seq<char>> {
    v.map_values(|s: String| s@)
}

impl View for Effect {
    type V = EffectV;

    open spec fn view(&self) -> EffectV {
        match self {
            Effect::Run { args, lenient } => EffectV::Run(string_views(args@), *lenient),
            Effect::Attach { args } => EffectV::Attach(string_views(args@)),
            Effect::Write(w) => EffectV::Write(w.path@, w.contents@),
            Effect::MakeDir(d) => EffectV::MakeDir(d@),
            Effect::Clock => EffectV::Clock,
        }
    }
}

impl View for Reply {
    type V = ReplyV;

    open spec fn view(&self) -> ReplyV {
        match self {
            Reply::Output(s) => ReplyV::Output(s@),
            Reply::Failure(s) => ReplyV::Failure(s@),
        }
    }
}

pub open spec fn target_view(t: Option<LastTarget>) -> Option<(Seq<char>, Option<Seq<char>>, Option<Seq<char>>)> {
    match t {
        Some(t) => Some(
            (
                t.session_id@,
                match t.window_id {
                    Some(w) => Some(w@),
                    None => None,
                },
                match t.pane_id {
                    Some(p) => Some(p@),
                    None => None,
                },
            ),
        ),
        None => None,
    }
}

impl View for Outcome {
    type V = OutcomeV;

    open spec fn view(&self) -> OutcomeV {
        match self {
            Outcome::Done => OutcomeV::Done,
            Outcome::Text(s) => OutcomeV::Text(s@),
            Outcome::Snapshot(s) => OutcomeV::Snapshot(s@),
            Outcome::Target(t) => OutcomeV::Target(target_view(*t)),
            Outcome::Value(v) => OutcomeV::Value(
                match v {
                    Some(s) => Some(s@),
                    None => None,
                },
            ),
            Outcome::Failed(s) => OutcomeV::Failed(s@),
        }
    }
}

impl View for Step {
    type V = StepV;

    open spec fn view(&self) -> StepV {
        match self {
            Step::Perform(e) => StepV::Perform(e@),
            Step::Finish(o) => StepV::Finish(o@),
        }
    }
}

/// A tmux failure that only says that no server runs.
pub open spec fn no_server(message: Seq<char>) -> bool {
    contains(message, "no server running"@) || contains(message, "failed to connect to server"@)
}

/// Whether a failure message says that no server runs.
pub fn is_no_server_error(message: &str) -> (r: bool)
    ensures
        r == no_server(message@),
{
    let m = chars_of(message);
    contains_chars(&m, &chars_of("no server running")) || contains_chars(
        &m,
        &chars_of("failed to connect to server"),
    )
}

/// The value of a tmux user option as `show-options -gqv` reports it: the
/// trimmed output, where it is not empty.
pub open spec fn option_value(reply: ReplyV) -> Option<Seq<char>> {
    match reply {
        ReplyV::Output(o) => if trim(o).len() > 0 {
            Some(trim(o))
        } else {
            None
        },
        ReplyV::Failure(_) => None,
    }
}

pub open spec fn show_option_args(option: Seq<char>) -> Seq<Seq<char>> {
    seq!["show-options"@, "-gqv"@, option]
}

pub open spec fn set_option_args(option: Seq<char>, value: Seq<char>) -> Seq<Seq<char>> {
    seq!["set-option"@, "-gq"@, option, value]
}

pub open spec fn display_args(target: Seq<char>, format: Seq<char>) -> Seq<Seq<char>> {
    seq!["display-message"@, "-p"@, "-t"@, target, format]
}

pub open spec fn list_sessions_args() -> Seq<Seq<char>> {
    seq!["list-sessions"@, "-F"@, "#{session_id}\t#{session_name}\t#{session_attached}"@]
}

pub open spec fn list_windows_args() -> Seq<Seq<char>> {
    seq![
        "list-windows"@,
        "-a"@,
        "-F"@,
        "#{session_id}\t#{window_id}\t#{window_name}\t#{window_active}"@,
    ]
}

pub open spec fn list_panes_args() -> Seq<Seq<char>> {
    seq![
        "list-panes"@,
        "-a"@,
        "-F"@,
        "#{window_id}\t#{pane_id}\t#{pane_title}\t#{pane_current_command}\t#{pane_current_path}\t#{pane_active}\t#{window_zoomed_flag}"@,
    ]
}

pub open spec fn new_window_args(session_id: Seq<char>, path: Seq<char>, name: Seq<char>) -> Seq<
    Seq<char>,
> {
    seq!["new-window"@, "-P"@, "-F"@, "#{window_id}"@, "-d"@, "-t"@, session_id, "-c"@, path] + if name.len()
        > 0 {
        seq!["-n"@, name]
    } else {
        seq![]
    }
}

pub open spec fn new_session_with_window_args() -> Seq<Seq<char>> {
    seq!["new-session"@, "-P"@, "-F"@, "#{session_id}\t#{window_id}"@, "-d"@]
}

pub open spec fn move_window_args(window_id: Seq<char>, session_id: Seq<char>) -> Seq<Seq<char>> {
    seq!["move-window"@, "-s"@, window_id, "-t"@, session_id + ":"@]
}

pub open spec fn break_pane_args(pane_id: Seq<char>, session_id: Seq<char>) -> Seq<Seq<char>> {
    seq![
        "break-pane"@,
        "-d"@,
        "-P"@,
        "-F"@,
        "#{window_id}"@,
        "-s"@,
        pane_id,
        "-t"@,
        session_id + ":"@,
    ]
}

pub open spec fn kill_window_args(window_id: Seq<char>) -> Seq<Seq<char>> {
    seq!["kill-window"@, "-t"@, window_id]
}

pub open spec fn join_pane_args(pane_id: Seq<char>, target_pane_id: Seq<char>) -> Seq<Seq<char>> {
    seq!["join-pane"@, "-h"@, "-f"@, "-s"@, pane_id, "-t"@, target_pane_id]
}

pub open spec fn attach_session_args(session_id: Seq<char>) -> Seq<Seq<char>> {
    seq!["attach-session"@, "-t"@, session_id]
}

pub open spec fn str_views(v: Seq<&str>) -> Seq<Seq<char>> {
    v.map_values(|s: &str| s@)
}

/// Owned copies of the given words.
pub fn argv(parts: &[&str]) -> (r: Vec<String>)
    ensures
        string_views(r@) == str_views(parts@),
{
    let mut out: Vec<String> = Vec::new();
    let mut i: usize = 0;
    while i < parts.len()
        invariant
            0 <= i <= parts.len(),
            string_views(out@) == str_views(parts@).take(i as int),
        decreases parts.len() - i,
    {
        let s = str_to_string(parts[i]);
        let ghost pre = out@;
        out.push(s);
        assert(string_views(out@) =~= str_views(parts@).take(i + 1)) by {
            assert(string_views(out@) =~= string_views(pre).push(s@));
        }
        i += 1;
    }
    assert(str_views(parts@).take(parts@.len() as int) =~= str_views(parts@));
    out
}

impl Effect {
    /// A field-by-field copy.
    pub fn duplicate(&self) -> (r: Effect)
        ensures
            r@ == self@,
    {
        match self {
            Effect::Run { args, lenient } => Effect::Run { args: copy_strings(args), lenient: *lenient },
            Effect::Attach { args } => Effect::Attach { args: copy_strings(args) },
            Effect::Write(w) => Effect::Write(
                FileWrite { path: w.path.clone(), contents: w.contents.clone() },
            ),
            Effect::MakeDir(d) => Effect::MakeDir(d.clone()),
            Effect::Clock => Effect::Clock,
        }
    }
}

pub fn copy_strings(v: &Vec<String>) -> (r: Vec<String>)
    ensures
        string_views(r@) == string_views(v@),
{
    let mut out: Vec<String> = Vec::new();
    let mut i: usize = 0;
    while i < v.len()
        invariant
            0 <= i <= v.len(),
            string_views(out@) == string_views(v@).take(i as int),
        decreases v.len() - i,
    {
        let s = v[i].clone();
        let ghost pre = out@;
        out.push(s);
        assert(string_views(out@) =~= string_views(v@).take(i + 1)) by {
            assert(string_views(out@) =~= string_views(pre).push(s@));
        }
        i += 1;
    }
    assert(string_views(v@).take(v@.len() as int) =~= string_views(v@));
    out
}

/// The kind of a job, with what it was started with.
pub enum JobKind {
    /// Effects performed in order until one fails.
    Script { effects: Vec<Effect>, finish: Finish },
    Snapshot,
    NewWindow { session_id: String, base_pane_id: Option<String>, name: String },
    /// Moves a window (or, with `pane`, a pane) into a session of its own.
    IntoNewSession { pane: bool, id: String },
    LastTarget,
    PinnedPane,
    EnsureReady { conf: String },
    Attach { target: TargetKind },
    /// Captures the whole history of each pane and writes it to a new file
    /// in `dir`; ends with the file's path.
    Archive { dir: String, name: String, entries: Vec<ArchiveEntry> },
}

/// A running operation: its kind, how far it got, and what it has learnt.
pub struct Job {
    pub kind: JobKind,
    pub stage: usize,
    pub held: Vec<String>,
}

pub enum JobKindV {
    Script(Seq<EffectV>, Finish),
    Snapshot,
    NewWindow(Seq<char>, Option<Seq<char>>, Seq<char>),
    IntoNewSession(bool, Seq<char>),
    LastTarget,
    PinnedPane,
    EnsureReady(Seq<char>),
    Attach(TargetV),
    Archive(Seq<char>, Seq<char>, Seq<(Seq<char>, Seq<char>)>),
}

pub struct JobV {
    pub kind: JobKindV,
    pub stage: nat,
    pub held: Seq<Seq<char>>,
}

pub open spec fn effect_views(v: Seq<Effect>) -> Seq<EffectV> {
    v.map_values(|e: Effect| e@)
}

pub open spec fn opt_view(o: Option<String>) -> Option<Seq<char>> {
    match o {
        Some(s) => Some(s@),
        None => None,
    }
}

impl View for JobKind {
    type V = JobKindV;

    open spec fn view(&self) -> JobKindV {
        match self {
            JobKind::Script { effects, finish } => JobKindV::Script(effect_views(effects@), *finish),
            JobKind::Snapshot => JobKindV::Snapshot,
            JobKind::NewWindow { session_id, base_pane_id, name } => JobKindV::NewWindow(
                session_id@,
                opt_view(*base_pane_id),
                name@,
            ),
            JobKind::IntoNewSession { pane, id } => JobKindV::IntoNewSession(*pane, id@),
            JobKind::LastTarget => JobKindV::LastTarget,
            JobKind::PinnedPane => JobKindV::PinnedPane,
            JobKind::EnsureReady { conf } => JobKindV::EnsureReady(conf@),
            JobKind::Attach { target } => JobKindV::Attach(target@),
            JobKind::Archive { dir, name, entries } => JobKindV::Archive(dir@, name@, entry_views(entries@)),
        }
    }
}

impl View for Job {
    type V = JobV;

    open spec fn view(&self) -> JobV {
        JobV { kind: self.kind@, stage: self.stage as nat, held: string_views(self.held@) }
    }
}

pub open spec fn run(args: Seq<Seq<char>>) -> StepV {
    StepV::Perform(EffectV::Run(args, false))
}

pub open spec fn fail(message: Seq<char>) -> StepV {
    StepV::Finish(OutcomeV::Failed(trim(message)))
}

pub open spec fn finished_twice() -> StepV {
    StepV::Finish(OutcomeV::Failed("job already finished"@))
}

/// The output of a reply, where a lenient command that failed for want of a
/// server counts as having printed nothing.
pub open spec fn output_of(r: ReplyV, lenient: bool) -> Option<Seq<char>> {
    match r {
        ReplyV::Output(o) => Some(o),
        ReplyV::Failure(m) => if lenient && no_server(m) {
            Some(Seq::<char>::empty())
        } else {
            None
        },
    }
}

pub open spec fn failure_of(r: ReplyV) -> Seq<char> {
    match r {
        ReplyV::Output(_) => Seq::<char>::empty(),
        ReplyV::Failure(m) => m,
    }
}

pub open spec fn is_lenient(e: EffectV) -> bool {
    match e {
        EffectV::Run(_, l) => l,
        _ => false,
    }
}

pub open spec fn finish_outcome(f: Finish, o: Seq<char>) -> OutcomeV {
    match f {
        Finish::Done => OutcomeV::Done,
        Finish::Trimmed => OutcomeV::Text(trim(o)),
        Finish::Raw => OutcomeV::Text(o),
    }
}

/// The first step of a job.
pub open spec fn job_start(j: JobV) -> StepV {
    match j.kind {
        JobKindV::Script(effs, f) => if effs.len() == 0 {
            StepV::Finish(finish_outcome(f, Seq::<char>::empty()))
        } else {
            StepV::Perform(effs[0])
        },
        JobKindV::Snapshot => StepV::Perform(EffectV::Run(list_sessions_args(), true)),
        JobKindV::NewWindow(sid, base, _) => run(
            display_args(
                match base {
                    Some(p) => p,
                    None => sid,
                },
                "#{pane_current_path}"@,
            ),
        ),
        JobKindV::IntoNewSession(_, _) => run(new_session_with_window_args()),
        JobKindV::LastTarget => run(show_option_args("@tmuxtui-session"@)),
        JobKindV::PinnedPane => run(show_option_args("@tmuxtui-pinned-pane"@)),
        JobKindV::EnsureReady(conf) => run(seq!["-f"@, conf, "start-server"@]),
        JobKindV::Attach(_) => run(show_option_args("@tmuxtui-pinned-pane"@)),
        JobKindV::Archive(dir, _, _) => StepV::Perform(EffectV::MakeDir(dir)),
    }
}

pub open spec fn script_resume(stage: nat, held: Seq<Seq<char>>, effs: Seq<EffectV>, f: Finish, r: ReplyV) -> (nat, Seq<Seq<char>>, StepV) {
    let k = stage;
    if k >= effs.len() {
        (stage, held, finished_twice())
    } else {
        match output_of(r, is_lenient(effs[k as int])) {
            None => (stage, held, fail(failure_of(r))),
            Some(o) => if k + 1 < effs.len() {
                (k + 1, held, StepV::Perform(effs[(k + 1) as int]))
            } else {
                (k + 1, held, StepV::Finish(finish_outcome(f, o)))
            },
        }
    }
}

pub open spec fn snapshot_resume(stage: nat, held: Seq<Seq<char>>, r: ReplyV) -> (nat, Seq<Seq<char>>, StepV) {
    match output_of(r, true) {
        None => (stage, held, fail(failure_of(r))),
        Some(o) => if stage == 0 {
            (1, seq![o], StepV::Perform(EffectV::Run(list_windows_args(), true)))
        } else if stage == 1 && held.len() == 1 {
            (
                2, held.push(o),
                StepV::Perform(EffectV::Run(list_panes_args(), true)),
            )
        } else if stage == 2 && held.len() == 2 {
            (
                3, held,
                StepV::Finish(OutcomeV::Snapshot(assembled(held[0], held[1], o))),
            )
        } else {
            (stage, held, finished_twice())
        },
    }
}

pub open spec fn new_window_resume(stage: nat, held: Seq<Seq<char>>, sid: Seq<char>, name: Seq<char>, r: ReplyV) -> (nat, Seq<Seq<char>>, StepV) {
    match r {
        ReplyV::Failure(m) => (stage, held, fail(m)),
        ReplyV::Output(o) => if stage == 0 {
            (1, held, run(new_window_args(sid, trim(o), name)))
        } else if stage == 1 {
            (2, held, StepV::Finish(OutcomeV::Text(trim(o))))
        } else {
            (stage, held, finished_twice())
        },
    }
}

pub open spec fn into_new_session_resume(stage: nat, held: Seq<Seq<char>>, pane: bool, id: Seq<char>, r: ReplyV) -> (nat, Seq<Seq<char>>, StepV) {
    match r {
        ReplyV::Failure(m) => (stage, held, fail(m)),
        ReplyV::Output(o) => if stage == 0 {
            let parts = split_on(trim(o), '\t');
            if parts.len() < 2 {
                (stage, held, StepV::Finish(OutcomeV::Failed("missing created window id"@)))
            } else {
                (
                    1, seq![parts[0], parts[1]],
                    run(
                        if pane {
                            break_pane_args(id, parts[0])
                        } else {
                            move_window_args(id, parts[0])
                        },
                    ),
                )
            }
        } else if stage == 1 && held.len() == 2 {
            (2, held, run(kill_window_args(held[1])))
        } else if stage == 2 && held.len() == 2 {
            (3, held, StepV::Finish(OutcomeV::Text(held[0])))
        } else {
            (stage, held, finished_twice())
        },
    }
}

pub open spec fn held_option(s: Seq<char>) -> Option<Seq<char>> {
    if s.len() > 0 {
        Some(s)
    } else {
        None
    }
}

pub open spec fn last_target_resume(stage: nat, held: Seq<Seq<char>>, r: ReplyV) -> (nat, Seq<Seq<char>>, StepV) {
    let v = option_value(r);
    if stage == 0 {
        match v {
            None => (3, held, StepV::Finish(OutcomeV::Target(None))),
            Some(sid) => (
                1, seq![sid],
                run(show_option_args("@tmuxtui-window"@)),
            ),
        }
    } else if stage == 1 && held.len() == 1 {
        (
            2,
            held.push(
                match v {
                    Some(w) => w,
                    None => Seq::<char>::empty(),
                },
            ),
            run(show_option_args("@tmuxtui-pane"@)),
        )
    } else if stage == 2 && held.len() == 2 {
        (
            3, held,
            StepV::Finish(OutcomeV::Target(Some((held[0], held_option(held[1]), v)))),
        )
    } else {
        (stage, held, finished_twice())
    }
}

pub open spec fn pinned_pane_resume(stage: nat, held: Seq<Seq<char>>, r: ReplyV) -> (nat, Seq<Seq<char>>, StepV) {
    if stage == 0 {
        (1, held, StepV::Finish(OutcomeV::Value(option_value(r))))
    } else {
        (stage, held, finished_twice())
    }
}

pub open spec fn ensure_ready_resume(stage: nat, held: Seq<Seq<char>>, conf: Seq<char>, r: ReplyV) -> (nat, Seq<Seq<char>>, StepV) {
    let show_pane = run(show_option_args("@tmuxtui-pane"@));
    if stage == 0 {
        match r {
            ReplyV::Failure(m) => (stage, held, fail(m)),
            ReplyV::Output(_) => (
                1, held,
                StepV::Perform(EffectV::Run(seq!["source-file"@, conf], true)),
            ),
        }
    } else if stage == 1 {
        match output_of(r, true) {
            None => (stage, held, fail(failure_of(r))),
            Some(_) => (2, held, run(show_option_args("@tmuxtui-pinned-pane"@))),
        }
    } else if stage == 2 {
        match option_value(r) {
            None => (4, held, show_pane),
            Some(p) => (3, seq![p], run(display_args(p, "#{window_id}"@))),
        }
    } else if stage == 3 {
        match r {
            ReplyV::Output(_) => (4, held, show_pane),
            ReplyV::Failure(_) => (
                5, held,
                run(set_option_args("@tmuxtui-pinned-pane"@, Seq::<char>::empty())),
            ),
        }
    } else if stage == 5 {
        match r {
            ReplyV::Failure(m) => (stage, held, fail(m)),
            ReplyV::Output(_) => (4, held, show_pane),
        }
    } else if stage == 4 {
        match option_value(r) {
            None => (8, held, StepV::Finish(OutcomeV::Done)),
            Some(p) => (6, seq![p], run(display_args(p, "#{window_id}"@))),
        }
    } else if stage == 6 {
        match r {
            ReplyV::Output(_) => (8, held, StepV::Finish(OutcomeV::Done)),
            ReplyV::Failure(_) => (
                7, held,
                run(set_option_args("@tmuxtui-pane"@, Seq::<char>::empty())),
            ),
        }
    } else if stage == 7 {
        match r {
            ReplyV::Failure(m) => (stage, held, fail(m)),
            ReplyV::Output(_) => (8, held, StepV::Finish(OutcomeV::Done)),
        }
    } else {
        (stage, held, finished_twice())
    }
}

/// Where attaching goes once a pinned pane has been dealt with: select the
/// window (and pane), then attach to the session.
pub open spec fn attach_select(held: Seq<Seq<char>>, t: TargetV) -> (nat, Seq<Seq<char>>, StepV) {
    match t {
        TargetV::Session(sid) => (
            9, held,
            StepV::Perform(EffectV::Attach(attach_session_args(sid))),
        ),
        TargetV::Window(_, wid) => (7, held, run(seq!["select-window"@, "-t"@, wid])),
        TargetV::Pane(_, wid, _) => (7, held, run(seq!["select-window"@, "-t"@, wid])),
    }
}

pub open spec fn attach_resume(stage: nat, held: Seq<Seq<char>>, t: TargetV, r: ReplyV) -> (nat, Seq<Seq<char>>, StepV) {
    if stage == 0 {
        match option_value(r) {
            None => attach_select(held, t),
            Some(pin) => match t {
                TargetV::Session(sid) => (
                    1, seq![pin],
                    run(display_args(sid, "#{pane_id}"@)),
                ),
                TargetV::Window(_, wid) => (
                    2, seq![pin, wid],
                    run(display_args(wid, "#{pane_id}"@)),
                ),
                TargetV::Pane(_, wid, pid) => (
                    3, seq![pin, wid, pid],
                    run(display_args(pin, "#{window_id}"@)),
                ),
            },
        }
    } else if stage == 1 && held.len() == 1 {
        match r {
            ReplyV::Failure(m) => (stage, held, fail(m)),
            ReplyV::Output(o) => (
                10, held.push(trim(o)),
                run(display_args(trim(o), "#{window_id}"@)),
            ),
        }
    } else if stage == 10 && held.len() == 2 {
        match r {
            ReplyV::Failure(m) => (stage, held, fail(m)),
            ReplyV::Output(o) => (
                3, seq![held[0], trim(o), held[1]],
                run(display_args(held[0], "#{window_id}"@)),
            ),
        }
    } else if stage == 2 && held.len() == 2 {
        match r {
            ReplyV::Failure(m) => (stage, held, fail(m)),
            ReplyV::Output(o) => (
                3, held.push(trim(o)),
                run(display_args(held[0], "#{window_id}"@)),
            ),
        }
    } else if stage == 3 && held.len() == 3 {
        match r {
            ReplyV::Failure(_) => (
                4, held,
                run(set_option_args("@tmuxtui-pinned-pane"@, Seq::<char>::empty())),
            ),
            ReplyV::Output(o) => if trim(o) == held[1] {
                attach_select(held, t)
            } else {
                (5, held, run(join_pane_args(held[0], held[2])))
            },
        }
    } else if stage == 4 || stage == 5 {
        match r {
            ReplyV::Failure(m) => (stage, held, fail(m)),
            ReplyV::Output(_) => attach_select(held, t),
        }
    } else if stage == 7 {
        match r {
            ReplyV::Failure(m) => (stage, held, fail(m)),
            ReplyV::Output(_) => match t {
                TargetV::Pane(sid, _, pid) => (
                    8, held,
                    run(seq!["select-pane"@, "-t"@, pid]),
                ),
                TargetV::Window(sid, _) => (
                    9, held,
                    StepV::Perform(EffectV::Attach(attach_session_args(sid))),
                ),
                TargetV::Session(sid) => (
                    9, held,
                    StepV::Perform(EffectV::Attach(attach_session_args(sid))),
                ),
            },
        }
    } else if stage == 8 {
        match r {
            ReplyV::Failure(m) => (stage, held, fail(m)),
            ReplyV::Output(_) => match t {
                TargetV::Pane(sid, _, _) => (
                    9, held,
                    StepV::Perform(EffectV::Attach(attach_session_args(sid))),
                ),
                _ => (stage, held, finished_twice()),
            },
        }
    } else if stage == 9 {
        match r {
            ReplyV::Failure(m) => (11, held, fail(m)),
            ReplyV::Output(_) => (11, held, StepV::Finish(OutcomeV::Done)),
        }
    } else {
        (stage, held, finished_twice())
    }
}

pub open spec fn capture_full_args(pane_id: Seq<char>) -> Seq<Seq<char>> {
    seq!["capture-pane"@, "-J"@, "-p"@, "-t"@, pane_id, "-S"@, "-"@]
}

/// The panes with what each showed.
pub open spec fn archived_from(entries: Seq<(Seq<char>, Seq<char>)>, contents: Seq<Seq<char>>) -> Seq<
    (Seq<char>, Seq<char>, Seq<char>),
> {
    Seq::new(contents.len(), |i: int| (entries[i].0, entries[i].1, contents[i]))
}

pub open spec fn archive_path(dir: Seq<char>, stamp: Seq<char>, name: Seq<char>) -> Seq<char> {
    joined_path(dir, archive_file(stamp, name))
}

/// An archive job: it creates the directory, asks for the time, captures
/// each pane in turn, writes the file and ends with its path. `held` keeps
/// the time, then each capture, then the path (and, once finished, one
/// more empty entry).
pub open spec fn archive_resume(
    stage: nat,
    held: Seq<Seq<char>>,
    dir: Seq<char>,
    name: Seq<char>,
    entries: Seq<(Seq<char>, Seq<char>)>,
    r: ReplyV,
) -> (nat, Seq<Seq<char>>, StepV) {
    let n = entries.len();
    match r {
        ReplyV::Failure(m) => (stage, held, fail(m)),
        ReplyV::Output(o) => if stage == 0 {
            (1, held, StepV::Perform(EffectV::Clock))
        } else if stage == 1 {
            let stamp = trim(o);
            if n == 0 {
                let path = archive_path(dir, stamp, name);
                (
                    2,
                    seq![stamp, path],
                    StepV::Perform(EffectV::Write(path, archive_body(name, stamp, seq![]))),
                )
            } else {
                (2, seq![stamp], run(capture_full_args(entries[0].1)))
            }
        } else if 2 <= stage < 2 + n && stage < usize::MAX && held.len() == stage - 1 {
            let h = held.push(o);
            let k = stage - 2;
            if k + 1 < n {
                (stage + 1, h, run(capture_full_args(entries[k + 1].1)))
            } else {
                let path = archive_path(dir, h[0], name);
                (
                    stage + 1,
                    h.push(path),
                    StepV::Perform(EffectV::Write(path, archive_body(name, h[0], archived_from(entries, h.drop_first())))),
                )
            }
        } else if stage == 2 + n && held.len() == n + 2 {
            (stage, held.push(Seq::<char>::empty()), StepV::Finish(OutcomeV::Text(held.last())))
        } else {
            (stage, held, finished_twice())
        },
    }
}

/// The state and step after a job receives the reply to its last effect.
pub open spec fn job_resume(j: JobV, r: ReplyV) -> (JobV, StepV) {
    let next = match j.kind {
        JobKindV::Script(effs, f) => script_resume(j.stage, j.held, effs, f, r),
        JobKindV::Snapshot => snapshot_resume(j.stage, j.held, r),
        JobKindV::NewWindow(sid, _, name) => new_window_resume(j.stage, j.held, sid, name, r),
        JobKindV::IntoNewSession(pane, id) => into_new_session_resume(j.stage, j.held, pane, id, r),
        JobKindV::LastTarget => last_target_resume(j.stage, j.held, r),
        JobKindV::PinnedPane => pinned_pane_resume(j.stage, j.held, r),
        JobKindV::EnsureReady(conf) => ensure_ready_resume(j.stage, j.held, conf, r),
        JobKindV::Attach(t) => attach_resume(j.stage, j.held, t, r),
        JobKindV::Archive(dir, name, entries) => archive_resume(j.stage, j.held, dir, name, entries, r),
    };
    (JobV { kind: j.kind, stage: next.0, held: next.1 }, next.2)
}

fn run_args(args: Vec<String>) -> (r: Step)
    ensures
        r@ == run(string_views(args@)),
{
    Step::Perform(Effect::Run { args, lenient: false })
}

fn run_lenient(args: Vec<String>) -> (r: Step)
    ensures
        r@ == StepV::Perform(EffectV::Run(string_views(args@), true)),
{
    Step::Perform(Effect::Run { args, lenient: true })
}

fn fail_with(message: &String) -> (r: Step)
    ensures
        r@ == fail(message@),
{
    Step::Finish(Outcome::Failed(trim_string(message.as_str())))
}

fn capture_full(pane_id: &str) -> (r: Vec<String>)
    ensures
        string_views(r@) == capture_full_args(pane_id@),
{
    let args = argv(&["capture-pane", "-J", "-p", "-t", pane_id, "-S", "-"]);
    assert(str_views(seq!["capture-pane", "-J", "-p", "-t", pane_id, "-S", "-"]) =~= capture_full_args(pane_id@));
    args
}

fn archive_write(dir: &String, name: &String, stamp: &String, panes: &Vec<ArchivedPane>) -> (r: (String, Effect))
    ensures
        r.0@ == archive_path(dir@, stamp@, name@),
        r.1@ == EffectV::Write(archive_path(dir@, stamp@, name@), archive_body(name@, stamp@, archived_views(panes@))),
{
    let file = archive_file_name(stamp.as_str(), name.as_str());
    let path = join_path(dir.as_str(), file.as_str());
    let text = archive_text(name.as_str(), stamp.as_str(), panes);
    (path.clone(), Effect::Write(FileWrite { path, contents: text }))
}

fn archive_next(
    stage: usize,
    held: &Vec<String>,
    dir: &String,
    name: &String,
    entries: &Vec<ArchiveEntry>,
    reply: Reply,
) -> (r: (usize, Vec<String>, Step))
    ensures
        (r.0 as nat, string_views(r.1@), r.2@) == archive_resume(
            stage as nat,
            string_views(held@),
            dir@,
            name@,
            entry_views(entries@),
            reply@,
        ),
{
    let n = entries.len();
    let ghost ev = entry_views(entries@);
    match reply {
        Reply::Failure(m) => (stage, copy_strings(held), fail_with(&m)),
        Reply::Output(o) => {
            if stage == 0 {
                (1, copy_strings(held), Step::Perform(Effect::Clock))
            } else if stage == 1 {
                let stamp = trim_string(o.as_str());
                if n == 0 {
                    let none: Vec<ArchivedPane> = Vec::new();
                    assert(archived_views(none@) =~= seq![]);
                    let (path, write) = archive_write(dir, name, &stamp, &none);
                    (2, held2(stamp, path), Step::Perform(write))
                } else {
                    let args = capture_full(entries[0].pane_id.as_str());
                    (2, held1(stamp), run_args(args))
                }
            } else if stage >= 2 && stage - 2 < n && stage < usize::MAX && held.len() == stage - 1 {
                let ghost hv = string_views(held@).push(o@);
                let mut h = copy_strings(held);
                h.push(o);
                assert(string_views(h@) =~= hv);
                let k = stage - 2;
                if k + 1 < n {
                    let args = capture_full(entries[k + 1].pane_id.as_str());
                    (stage + 1, h, run_args(args))
                } else {
                    let ghost want = archived_from(ev, hv.drop_first());
                    let mut panes: Vec<ArchivedPane> = Vec::new();
                    let mut i: usize = 0;
                    while i < n
                        invariant
                            0 <= i <= n,
                            n == entries.len(),
                            ev == entry_views(entries@),
                            h@.len() == n + 1,
                            string_views(h@) == hv,
                            want == archived_from(ev, hv.drop_first()),
                            archived_views(panes@) =~= want.take(i as int),
                        decreases n - i,
                    {
                        let ghost pre = panes@;
                        panes.push(
                            ArchivedPane {
                                label: entries[i].label.clone(),
                                pane_id: entries[i].pane_id.clone(),
                                contents: h[i + 1].clone(),
                            },
                        );
                        assert(archived_views(panes@) =~= archived_views(pre).push(want[i as int]));
                        i += 1;
                    }
                    assert(want.take(n as int) =~= want);
                    let (path, write) = archive_write(dir, name, &h[0], &panes);
                    let ghost hp = string_views(h@).push(path@);
                    h.push(path);
                    assert(string_views(h@) =~= hp);
                    (stage + 1, h, Step::Perform(write))
                }
            } else if stage >= 2 && stage - 2 == n && held.len() >= 2 && held.len() - 2 == n {
                let ghost hv = string_views(held@);
                let last = held[held.len() - 1].clone();
                let mut h = copy_strings(held);
                h.push(String::new());
                assert(string_views(h@) =~= hv.push(Seq::<char>::empty()));
                (stage, h, Step::Finish(Outcome::Text(last)))
            } else {
                (stage, copy_strings(held), already_finished())
            }
        },
    }
}

fn already_finished() -> (r: Step)
    ensures
        r@ == finished_twice(),
{
    Step::Finish(Outcome::Failed(str_to_string("job already finished")))
}

fn output_of_exec(r: &Reply, lenient: bool) -> (o: Option<String>)
    ensures
        opt_view(o) == output_of(r@, lenient),
{
    match r {
        Reply::Output(o) => Some(o.clone()),
        Reply::Failure(m) => if lenient && is_no_server_error(m.as_str()) {
            Some(String::new())
        } else {
            None
        },
    }
}

fn failure_message(r: &Reply) -> (m: String)
    ensures
        m@ == failure_of(r@),
{
    match r {
        Reply::Output(_) => String::new(),
        Reply::Failure(m) => m.clone(),
    }
}

fn option_value_exec(r: &Reply) -> (v: Option<String>)
    ensures
        opt_view(v) == option_value(r@),
{
    match r {
        Reply::Output(o) => {
            let t = trim_string(o.as_str());
            if t.as_str().unicode_len() > 0 {
                Some(t)
            } else {
                None
            }
        },
        Reply::Failure(_) => None,
    }
}

fn held1(a: String) -> (r: Vec<String>)
    ensures
        string_views(r@) == seq![a@],
{
    let mut v = Vec::new();
    v.push(a);
    assert(string_views(v@) =~= seq![a@]);
    v
}

fn held2(a: String, b: String) -> (r: Vec<String>)
    ensures
        string_views(r@) == seq![a@, b@],
{
    let mut v = Vec::new();
    v.push(a);
    v.push(b);
    assert(string_views(v@) =~= seq![a@, b@]);
    v
}

fn held3(a: String, b: String, c: String) -> (r: Vec<String>)
    ensures
        string_views(r@) == seq![a@, b@, c@],
{
    let mut v = Vec::new();
    v.push(a);
    v.push(b);
    v.push(c);
    assert(string_views(v@) =~= seq![a@, b@, c@]);
    v
}

fn display(target: &str, format: &str) -> (r: Vec<String>)
    ensures
        string_views(r@) == display_args(target@, format@),
{
    let r = argv(&["display-message", "-p", "-t", target, format]);
    assert(str_views(seq!["display-message", "-p", "-t", target, format]) =~= display_args(
        target@,
        format@,
    ));
    r
}

fn show_option(option: &str) -> (r: Vec<String>)
    ensures
        string_views(r@) == show_option_args(option@),
{
    let r = argv(&["show-options", "-gqv", option]);
    assert(str_views(seq!["show-options", "-gqv", option]) =~= show_option_args(option@));
    r
}

fn set_option(option: &str, value: &str) -> (r: Vec<String>)
    ensures
        string_views(r@) == set_option_args(option@, value@),
{
    let r = argv(&["set-option", "-gq", option, value]);
    assert(str_views(seq!["set-option", "-gq", option, value]) =~= set_option_args(option@, value@));
    r
}

fn clear_option(option: &str) -> (r: Vec<String>)
    ensures
        string_views(r@) == set_option_args(option@, Seq::<char>::empty()),
{
    let mut r = argv(&["set-option", "-gq", option]);
    let ghost pre = r@;
    r.push(String::new());
    assert(string_views(r@) =~= string_views(pre).push(Seq::<char>::empty()));
    assert(str_views(seq!["set-option", "-gq", option]) =~= seq!["set-option"@, "-gq"@, option@]);
    r
}

fn with_colon(s: &str) -> (r: String)
    ensures
        r@ == s@ + ":"@,
{
    let mut r = str_to_string(s);
    crate::text::push_str(&mut r, ":");
    r
}

fn two_words(a: &str, b: &str) -> (r: Vec<String>)
    ensures
        string_views(r@) == seq![a@, b@],
{
    let r = argv(&[a, b]);
    assert(str_views(seq![a, b]) =~= seq![a@, b@]);
    r
}

fn three_words(a: &str, b: &str, c: &str) -> (r: Vec<String>)
    ensures
        string_views(r@) == seq![a@, b@, c@],
{
    let r = argv(&[a, b, c]);
    assert(str_views(seq![a, b, c]) =~= seq![a@, b@, c@]);
    r
}

fn script_next(stage: usize, held: &Vec<String>, effects: &Vec<Effect>, finish: Finish, reply: Reply) -> (r: (usize, Vec<String>, Step))
    ensures
        (r.0 as nat, string_views(r.1@), r.2@) == script_resume(
            stage as nat,
            string_views(held@),
            effect_views(effects@),
            finish,
            reply@,
        ),
{
    let ghost effs = effect_views(effects@);
    if stage >= effects.len() {
        return (stage, copy_strings(held), already_finished());
    }
    let lenient = match &effects[stage] {
        Effect::Run { lenient, .. } => *lenient,
        _ => false,
    };
    assert(lenient == is_lenient(effs[stage as int]));
    match output_of_exec(&reply, lenient) {
        None => (stage, copy_strings(held), fail_with(&failure_message(&reply))),
        Some(o) => {
            if stage + 1 < effects.len() {
                let e = effects[stage + 1].duplicate();
                (stage + 1, copy_strings(held), Step::Perform(e))
            } else {
                let out = match finish {
                    Finish::Done => Outcome::Done,
                    Finish::Trimmed => Outcome::Text(trim_string(o.as_str())),
                    Finish::Raw => Outcome::Text(o),
                };
                (stage + 1, copy_strings(held), Step::Finish(out))
            }
        },
    }
}

fn snapshot_next(stage: usize, held: &Vec<String>, reply: Reply) -> (r: (usize, Vec<String>, Step))
    ensures
        (r.0 as nat, string_views(r.1@), r.2@) == snapshot_resume(
            stage as nat,
            string_views(held@),
            reply@,
        ),
{
    match output_of_exec(&reply, true) {
        None => (stage, copy_strings(held), fail_with(&failure_message(&reply))),
        Some(o) => {
            if stage == 0 {
                let args = argv(
                    &[
                        "list-windows",
                        "-a",
                        "-F",
                        "#{session_id}\t#{window_id}\t#{window_name}\t#{window_active}",
                    ],
                );
                assert(str_views(
                    seq![
                        "list-windows",
                        "-a",
                        "-F",
                        "#{session_id}\t#{window_id}\t#{window_name}\t#{window_active}",
                    ],
                ) =~= list_windows_args());
                (1, held1(o), run_lenient(args))
            } else if stage == 1 && held.len() == 1 {
                let args = argv(
                    &[
                        "list-panes",
                        "-a",
                        "-F",
                        "#{window_id}\t#{pane_id}\t#{pane_title}\t#{pane_current_command}\t#{pane_current_path}\t#{pane_active}\t#{window_zoomed_flag}",
                    ],
                );
                assert(str_views(
                    seq![
                        "list-panes",
                        "-a",
                        "-F",
                        "#{window_id}\t#{pane_id}\t#{pane_title}\t#{pane_current_command}\t#{pane_current_path}\t#{pane_active}\t#{window_zoomed_flag}",
                    ],
                ) =~= list_panes_args());
                let h = held2(held[0].clone(), o);
                assert(string_views(h@) =~= string_views(held@).push(o@));
                (2, h, run_lenient(args))
            } else if stage == 2 && held.len() == 2 {
                let snap = assemble_snapshot(held[0].as_str(), held[1].as_str(), o.as_str());
                (3, copy_strings(held), Step::Finish(Outcome::Snapshot(snap)))
            } else {
                (stage, copy_strings(held), already_finished())
            }
        },
    }
}

fn new_window_call(session_id: &str, path: &str, name: &str) -> (r: Vec<String>)
    ensures
        string_views(r@) == new_window_args(session_id@, path@, name@),
{
    let mut args = argv(&["new-window", "-P", "-F", "#{window_id}", "-d", "-t", session_id, "-c", path]);
    let ghost base = str_views(
        seq!["new-window", "-P", "-F", "#{window_id}", "-d", "-t", session_id, "-c", path],
    );
    assert(base =~= seq!["new-window"@, "-P"@, "-F"@, "#{window_id}"@, "-d"@, "-t"@, session_id@, "-c"@, path@]);
    if name.unicode_len() > 0 {
        let ghost pre = args@;
        args.push(str_to_string("-n"));
        args.push(str_to_string(name));
        assert(string_views(args@) =~= string_views(pre) + seq!["-n"@, name@]);
    } else {
        assert(base =~= base + seq![]);
    }
    args
}

fn new_window_next(stage: usize, held: &Vec<String>, session_id: &String, name: &String, reply: Reply) -> (r: (usize, Vec<String>, Step))
    ensures
        (r.0 as nat, string_views(r.1@), r.2@) == new_window_resume(
            stage as nat,
            string_views(held@),
            session_id@,
            name@,
            reply@,
        ),
{
    match reply {
        Reply::Failure(m) => (stage, copy_strings(held), fail_with(&m)),
        Reply::Output(o) => {
            if stage == 0 {
                let path = trim_string(o.as_str());
                (1, copy_strings(held), run_args(new_window_call(session_id.as_str(), path.as_str(), name.as_str())))
            } else if stage == 1 {
                (2, copy_strings(held), Step::Finish(Outcome::Text(trim_string(o.as_str()))))
            } else {
                (stage, copy_strings(held), already_finished())
            }
        },
    }
}

fn into_new_session_next(stage: usize, held: &Vec<String>, pane: bool, id: &String, reply: Reply) -> (r: (usize, Vec<String>, Step))
    ensures
        (r.0 as nat, string_views(r.1@), r.2@) == into_new_session_resume(
            stage as nat,
            string_views(held@),
            pane,
            id@,
            reply@,
        ),
{
    match reply {
        Reply::Failure(m) => (stage, copy_strings(held), fail_with(&m)),
        Reply::Output(o) => {
            if stage == 0 {
                let t = trim_string(o.as_str());
                let parts = split_chars(&chars_of(t.as_str()), '\t');
                if parts.len() < 2 {
                    (stage, copy_strings(held), Step::Finish(Outcome::Failed(str_to_string("missing created window id"))))
                } else {
                    let session_id = crate::text::string_of(&parts[0]);
                    let dummy = crate::text::string_of(&parts[1]);
                    let target = with_colon(session_id.as_str());
                    let ids = id.as_str();
                    let ts = target.as_str();
                    let args = if pane {
                        let a = argv(&["break-pane", "-d", "-P", "-F", "#{window_id}", "-s", ids, "-t", ts]);
                        assert(str_views(seq!["break-pane", "-d", "-P", "-F", "#{window_id}", "-s", ids, "-t", ts]) =~= break_pane_args(id@, session_id@));
                        a
                    } else {
                        let a = argv(&["move-window", "-s", ids, "-t", ts]);
                        assert(str_views(seq!["move-window", "-s", ids, "-t", ts]) =~= move_window_args(id@, session_id@));
                        a
                    };
                    (1, held2(session_id, dummy), run_args(args))
                }
            } else if stage == 1 && held.len() == 2 {
                let dummy = held[1].as_str();
                let args = argv(&["kill-window", "-t", dummy]);
                assert(str_views(seq!["kill-window", "-t", dummy]) =~= kill_window_args(held@[1]@));
                (2, copy_strings(held), run_args(args))
            } else if stage == 2 && held.len() == 2 {
                (3, copy_strings(held), Step::Finish(Outcome::Text(held[0].clone())))
            } else {
                (stage, copy_strings(held), already_finished())
            }
        },
    }
}

fn last_target_next(stage: usize, held: &Vec<String>, reply: Reply) -> (r: (usize, Vec<String>, Step))
    ensures
        (r.0 as nat, string_views(r.1@), r.2@) == last_target_resume(
            stage as nat,
            string_views(held@),
            reply@,
        ),
{
    let v = option_value_exec(&reply);
    if stage == 0 {
        match v {
            None => (3, copy_strings(held), Step::Finish(Outcome::Target(None))),
            Some(sid) => (1, held1(sid), run_args(show_option("@tmuxtui-window"))),
        }
    } else if stage == 1 && held.len() == 1 {
        let w = match v {
            Some(w) => w,
            None => String::new(),
        };
        let h = held2(held[0].clone(), w);
        assert(string_views(h@) =~= string_views(held@).push(h@[1]@));
        (2, h, run_args(show_option("@tmuxtui-pane")))
    } else if stage == 2 && held.len() == 2 {
        let window_id = if held[1].as_str().unicode_len() > 0 {
            Some(held[1].clone())
        } else {
            None
        };
        let t = LastTarget { session_id: held[0].clone(), window_id, pane_id: v };
        (3, copy_strings(held), Step::Finish(Outcome::Target(Some(t))))
    } else {
        (stage, copy_strings(held), already_finished())
    }
}

fn pinned_pane_next(stage: usize, held: &Vec<String>, reply: Reply) -> (r: (usize, Vec<String>, Step))
    ensures
        (r.0 as nat, string_views(r.1@), r.2@) == pinned_pane_resume(
            stage as nat,
            string_views(held@),
            reply@,
        ),
{
    if stage == 0 {
        (1, copy_strings(held), Step::Finish(Outcome::Value(option_value_exec(&reply))))
    } else {
        (stage, copy_strings(held), already_finished())
    }
}

fn ensure_ready_next(stage: usize, held: &Vec<String>, conf: &String, reply: Reply) -> (r: (usize, Vec<String>, Step))
    ensures
        (r.0 as nat, string_views(r.1@), r.2@) == ensure_ready_resume(
            stage as nat,
            string_views(held@),
            conf@,
            reply@,
        ),
{
    if stage == 0 {
        match reply {
            Reply::Failure(m) => (stage, copy_strings(held), fail_with(&m)),
            Reply::Output(_) => (1, copy_strings(held), run_lenient(two_words("source-file", conf.as_str()))),
        }
    } else if stage == 1 {
        match output_of_exec(&reply, true) {
            None => (stage, copy_strings(held), fail_with(&failure_message(&reply))),
            Some(_) => (2, copy_strings(held), run_args(show_option("@tmuxtui-pinned-pane"))),
        }
    } else if stage == 2 {
        match option_value_exec(&reply) {
            None => (4, copy_strings(held), run_args(show_option("@tmuxtui-pane"))),
            Some(p) => {
                let args = display(p.as_str(), "#{window_id}");
                (3, held1(p), run_args(args))
            },
        }
    } else if stage == 3 {
        match reply {
            Reply::Output(_) => (4, copy_strings(held), run_args(show_option("@tmuxtui-pane"))),
            Reply::Failure(_) => (5, copy_strings(held), run_args(clear_option("@tmuxtui-pinned-pane"))),
        }
    } else if stage == 5 {
        match reply {
            Reply::Failure(m) => (stage, copy_strings(held), fail_with(&m)),
            Reply::Output(_) => (4, copy_strings(held), run_args(show_option("@tmuxtui-pane"))),
        }
    } else if stage == 4 {
        match option_value_exec(&reply) {
            None => (8, copy_strings(held), Step::Finish(Outcome::Done)),
            Some(p) => {
                let args = display(p.as_str(), "#{window_id}");
                (6, held1(p), run_args(args))
            },
        }
    } else if stage == 6 {
        match reply {
            Reply::Output(_) => (8, copy_strings(held), Step::Finish(Outcome::Done)),
            Reply::Failure(_) => (7, copy_strings(held), run_args(clear_option("@tmuxtui-pane"))),
        }
    } else if stage == 7 {
        match reply {
            Reply::Failure(m) => (stage, copy_strings(held), fail_with(&m)),
            Reply::Output(_) => (8, copy_strings(held), Step::Finish(Outcome::Done)),
        }
    } else {
        (stage, copy_strings(held), already_finished())
    }
}

fn attach_call(session_id: &String) -> (r: Step)
    ensures
        r@ == StepV::Perform(EffectV::Attach(attach_session_args(session_id@))),
{
    let args = two_words("attach-session", "-t");
    let ghost pre = args@;
    let mut args = args;
    args.push(session_id.clone());
    assert(string_views(args@) =~= attach_session_args(session_id@)) by {
        assert(string_views(args@) =~= string_views(pre).push(session_id@));
    }
    Step::Perform(Effect::Attach { args })
}

fn attach_select_next(held: &Vec<String>, target: &TargetKind) -> (r: (usize, Vec<String>, Step))
    ensures
        (r.0 as nat, string_views(r.1@), r.2@) == attach_select(string_views(held@), target@),
{
    match target {
        TargetKind::Session(sid) => (9, copy_strings(held), attach_call(sid)),
        TargetKind::Window { window_id, .. } => (
            7,
            copy_strings(held),
            run_args(three_words("select-window", "-t", window_id.as_str())),
        ),
        TargetKind::Pane { window_id, .. } => (
            7,
            copy_strings(held),
            run_args(three_words("select-window", "-t", window_id.as_str())),
        ),
    }
}

fn attach_next(stage: usize, held: &Vec<String>, target: &TargetKind, reply: Reply) -> (r: (usize, Vec<String>, Step))
    ensures
        (r.0 as nat, string_views(r.1@), r.2@) == attach_resume(
            stage as nat,
            string_views(held@),
            target@,
            reply@,
        ),
{
    let ghost hv = string_views(held@);
    if stage == 0 {
        match option_value_exec(&reply) {
            None => attach_select_next(held, target),
            Some(pin) => match target {
                TargetKind::Session(sid) => {
                    let args = display(sid.as_str(), "#{pane_id}");
                    (1, held1(pin), run_args(args))
                },
                TargetKind::Window { window_id, .. } => {
                    let args = display(window_id.as_str(), "#{pane_id}");
                    (2, held2(pin, window_id.clone()), run_args(args))
                },
                TargetKind::Pane { window_id, pane_id, .. } => {
                    let args = display(pin.as_str(), "#{window_id}");
                    (3, held3(pin, window_id.clone(), pane_id.clone()), run_args(args))
                },
            },
        }
    } else if stage == 1 && held.len() == 1 {
        match reply {
            Reply::Failure(m) => (stage, copy_strings(held), fail_with(&m)),
            Reply::Output(o) => {
                let tp = trim_string(o.as_str());
                let args = display(tp.as_str(), "#{window_id}");
                let h = held2(held[0].clone(), tp);
                assert(string_views(h@) =~= hv.push(trim(o@)));
                (10, h, run_args(args))
            },
        }
    } else if stage == 10 && held.len() == 2 {
        match reply {
            Reply::Failure(m) => (stage, copy_strings(held), fail_with(&m)),
            Reply::Output(o) => {
                let tw = trim_string(o.as_str());
                let args = display(held[0].as_str(), "#{window_id}");
                (3, held3(held[0].clone(), tw, held[1].clone()), run_args(args))
            },
        }
    } else if stage == 2 && held.len() == 2 {
        match reply {
            Reply::Failure(m) => (stage, copy_strings(held), fail_with(&m)),
            Reply::Output(o) => {
                let tp = trim_string(o.as_str());
                let args = display(held[0].as_str(), "#{window_id}");
                let h = held3(held[0].clone(), held[1].clone(), tp);
                assert(string_views(h@) =~= hv.push(trim(o@)));
                (3, h, run_args(args))
            },
        }
    } else if stage == 3 && held.len() == 3 {
        match reply {
            Reply::Failure(_) => (4, copy_strings(held), run_args(clear_option("@tmuxtui-pinned-pane"))),
            Reply::Output(o) => {
                let pw = trim_string(o.as_str());
                if pw == held[1] {
                    attach_select_next(held, target)
                } else {
                    let a = held[0].as_str();
                    let b = held[2].as_str();
                    let args = argv(&["join-pane", "-h", "-f", "-s", a, "-t", b]);
                    assert(str_views(seq!["join-pane", "-h", "-f", "-s", a, "-t", b]) =~= join_pane_args(hv[0], hv[2]));
                    (5, copy_strings(held), run_args(args))
                }
            },
        }
    } else if stage == 4 || stage == 5 {
        match reply {
            Reply::Failure(m) => (stage, copy_strings(held), fail_with(&m)),
            Reply::Output(_) => attach_select_next(held, target),
        }
    } else if stage == 7 {
        match reply {
            Reply::Failure(m) => (stage, copy_strings(held), fail_with(&m)),
            Reply::Output(_) => match target {
                TargetKind::Pane { pane_id, .. } => (
                    8,
                    copy_strings(held),
                    run_args(three_words("select-pane", "-t", pane_id.as_str())),
                ),
                TargetKind::Window { session_id, .. } => (9, copy_strings(held), attach_call(session_id)),
                TargetKind::Session(session_id) => (9, copy_strings(held), attach_call(session_id)),
            },
        }
    } else if stage == 8 {
        match reply {
            Reply::Failure(m) => (stage, copy_strings(held), fail_with(&m)),
            Reply::Output(_) => match target {
                TargetKind::Pane { session_id, .. } => (9, copy_strings(held), attach_call(session_id)),
                _ => (stage, copy_strings(held), already_finished()),
            },
        }
    } else if stage == 9 {
        match reply {
            Reply::Failure(m) => (11, copy_strings(held), fail_with(&m)),
            Reply::Output(_) => (11, copy_strings(held), Step::Finish(Outcome::Done)),
        }
    } else {
        (stage, copy_strings(held), already_finished())
    }
}

impl Job {
    fn fresh(kind: JobKind) -> (r: Job)
        ensures
            r@ == (JobV { kind: kind@, stage: 0, held: seq![] }),
    {
        let j = Job { kind, stage: 0, held: Vec::new() };
        assert(string_views(j.held@) =~= seq![]);
        j
    }

    /// The job's first step.
    pub fn start(&self) -> (r: Step)
        ensures
            r@ == job_start(self@),
    {
        match &self.kind {
            JobKind::Script { effects, finish } => {
                if effects.len() == 0 {
                    match finish {
                        Finish::Done => Step::Finish(Outcome::Done),
                        Finish::Trimmed => {
                            proof {
                                reveal_strlit("");
                                crate::text::lemma_trim_empty();
                            }
                            Step::Finish(Outcome::Text(String::new()))
                        },
                        Finish::Raw => Step::Finish(Outcome::Text(String::new())),
                    }
                } else {
                    Step::Perform(effects[0].duplicate())
                }
            },
            JobKind::Snapshot => {
                let args = argv(
                    &["list-sessions", "-F", "#{session_id}\t#{session_name}\t#{session_attached}"],
                );
                assert(str_views(
                    seq!["list-sessions", "-F", "#{session_id}\t#{session_name}\t#{session_attached}"],
                ) =~= list_sessions_args());
                run_lenient(args)
            },
            JobKind::NewWindow { session_id, base_pane_id, .. } => {
                let target = match base_pane_id {
                    Some(p) => p.as_str(),
                    None => session_id.as_str(),
                };
                run_args(display(target, "#{pane_current_path}"))
            },
            JobKind::IntoNewSession { .. } => {
                let args = argv(&["new-session", "-P", "-F", "#{session_id}\t#{window_id}", "-d"]);
                assert(str_views(seq!["new-session", "-P", "-F", "#{session_id}\t#{window_id}", "-d"])
                    =~= new_session_with_window_args());
                run_args(args)
            },
            JobKind::LastTarget => run_args(show_option("@tmuxtui-session")),
            JobKind::PinnedPane => run_args(show_option("@tmuxtui-pinned-pane")),
            JobKind::EnsureReady { conf } => run_args(three_words("-f", conf.as_str(), "start-server")),
            JobKind::Attach { .. } => run_args(show_option("@tmuxtui-pinned-pane")),
            JobKind::Archive { dir, .. } => Step::Perform(Effect::MakeDir(dir.clone())),
        }
    }

    /// Takes the reply to the job's last effect and gives its next step.
    pub fn resume(&mut self, reply: Reply) -> (r: Step)
        ensures
            (final(self)@, r@) == job_resume(old(self)@, reply@),
    {
        let next = match &self.kind {
            JobKind::Script { effects, finish } => script_next(self.stage, &self.held, effects, *finish, reply),
            JobKind::Snapshot => snapshot_next(self.stage, &self.held, reply),
            JobKind::NewWindow { session_id, name, .. } => new_window_next(self.stage, &self.held, session_id, name, reply),
            JobKind::IntoNewSession { pane, id } => into_new_session_next(self.stage, &self.held, *pane, id, reply),
            JobKind::LastTarget => last_target_next(self.stage, &self.held, reply),
            JobKind::PinnedPane => pinned_pane_next(self.stage, &self.held, reply),
            JobKind::EnsureReady { conf } => ensure_ready_next(self.stage, &self.held, conf, reply),
            JobKind::Attach { target } => attach_next(self.stage, &self.held, target, reply),
            JobKind::Archive { dir, name, entries } => archive_next(self.stage, &self.held, dir, name, entries, reply),
        };
        let (stage, held, step) = next;
        self.stage = stage;
        self.held = held;
        step
    }
}

/// A job that performs `effs` in order.
pub open spec fn script(effs: Seq<EffectV>, f: Finish) -> JobV {
    JobV { kind: JobKindV::Script(effs, f), stage: 0, held: seq![] }
}

/// A job that runs one tmux command.
pub open spec fn one_command(args: Seq<Seq<char>>, f: Finish) -> JobV {
    script(seq![EffectV::Run(args, false)], f)
}

pub open spec fn fresh(kind: JobKindV) -> JobV {
    JobV { kind, stage: 0, held: seq![] }
}

pub open spec fn create_session_args(name: Seq<char>) -> Seq<Seq<char>> {
    seq!["new-session"@, "-P"@, "-F"@, "#{session_id}"@, "-d"@] + if name.len() > 0 {
        seq!["-s"@, name]
    } else {
        seq![]
    }
}

pub open spec fn split_pane_args(pane_id: Seq<char>, vertical: bool) -> Seq<Seq<char>> {
    seq![
        "split-window"@,
        "-P"@,
        "-F"@,
        "#{pane_id}"@,
        "-t"@,
        pane_id,
        "-c"@,
        "#{pane_current_path}"@,
        if vertical {
            "-h"@
        } else {
            "-v"@
        },
    ]
}

/// The effects that write two files.
pub open spec fn writes(files: Seq<FileWrite>) -> Seq<EffectV> {
    files.map_values(|w: FileWrite| EffectV::Write(w.path@, w.contents@))
}

fn one(args: Vec<String>, finish: Finish) -> (r: Job)
    ensures
        r@ == one_command(string_views(args@), finish),
{
    let mut effects = Vec::new();
    effects.push(Effect::Run { args, lenient: false });
    let ghost e = effects@;
    assert(effect_views(effects@) =~= seq![EffectV::Run(string_views(args@), false)]);
    Job::fresh(JobKind::Script { effects, finish })
}

fn write_effects(files: Vec<FileWrite>) -> (r: Vec<Effect>)
    ensures
        effect_views(r@) == writes(files@),
{
    let ghost fv = files@;
    let n = files.len();
    let mut files = files;
    let mut out: Vec<Effect> = Vec::new();
    let mut i: usize = 0;
    while files.len() > 0
        invariant
            n == fv.len(),
            i + files.len() == n,
            files@ == fv.skip(i as int),
            effect_views(out@) == writes(fv.take(i as int)),
        decreases files.len(),
    {
        let ghost pre_files = files@;
        let w = files.remove(0);
        assert(w == fv[i as int]);
        assert(files@ =~= fv.skip(i + 1)) by {
            assert(files@ =~= pre_files.subrange(1, pre_files.len() as int));
        }
        let ghost pre = out@;
        let e = Effect::Write(w);
        out.push(e);
        assert(effect_views(out@) =~= writes(fv.take(i + 1))) by {
            assert(effect_views(out@) =~= effect_views(pre).push(e@));
            assert(fv.take(i + 1) =~= fv.take(i as int).push(fv[i as int]));
        }
        i += 1;
    }
    assert(fv.take(fv.len() as int) =~= fv);
    out
}

/// Controls the tmux server through the managed configuration.
#[derive(Clone, Debug)]
pub struct Tmux {
    managed: ManagedConfig,
}

impl Tmux {
    pub closed spec fn settings_spec(&self) -> Settings {
        self.managed.settings_spec()
    }

    pub closed spec fn conf_spec(&self) -> Seq<char> {
        self.managed.tmux_conf_spec()
    }

    pub closed spec fn settings_path_spec(&self) -> Seq<char> {
        self.managed.settings_path_spec()
    }

    pub fn new(managed: ManagedConfig) -> (r: Tmux)
        ensures
            r.settings_spec() == managed.settings_spec(),
            r.conf_spec() == managed.tmux_conf_spec(),
            r.settings_path_spec() == managed.settings_path_spec(),
    {
        Tmux { managed }
    }

    /// Starts the server with the managed configuration, reloads it, and
    /// clears a pinned pane or remembered pane that no longer exists.
    pub fn ensure_ready(&self) -> (r: Job)
        ensures
            r@ == fresh(JobKindV::EnsureReady(self.conf_spec())),
    {
        Job::fresh(JobKind::EnsureReady { conf: self.managed.tmux_conf().clone() })
    }

    pub fn show_hints(&self) -> (r: bool)
        ensures
            r == self.settings_spec().show_hints,
    {
        self.managed.settings().show_hints
    }

    pub fn sidebar_percent(&self) -> (r: u8)
        ensures
            r == self.settings_spec().sidebar_percent,
            r <= 100,
    {
        self.managed.settings().sidebar_percent
    }

    pub fn sidebar_auto(&self) -> (r: bool)
        ensures
            r == self.settings_spec().sidebar_auto,
    {
        self.managed.settings().sidebar_auto
    }

    /// Lists sessions, windows and panes and assembles them.
    pub fn snapshot(&self) -> (r: Job)
        ensures
            r@ == fresh(JobKindV::Snapshot),
    {
        Job::fresh(JobKind::Snapshot)
    }

    /// The last 120 lines of a pane.
    pub fn capture_pane(&self, pane_id: &str) -> (r: Job)
        ensures
            r@ == one_command(
                seq!["capture-pane"@, "-J"@, "-p"@, "-t"@, pane_id@, "-S"@, "-120"@],
                Finish::Raw,
            ),
    {
        let args = argv(&["capture-pane", "-J", "-p", "-t", pane_id, "-S", "-120"]);
        assert(str_views(seq!["capture-pane", "-J", "-p", "-t", pane_id, "-S", "-120"]) =~= seq![
            "capture-pane"@,
            "-J"@,
            "-p"@,
            "-t"@,
            pane_id@,
            "-S"@,
            "-120"@,
        ]);
        one(args, Finish::Raw)
    }

    /// The whole history of a pane.
    pub fn capture_full_pane(&self, pane_id: &str) -> (r: Job)
        ensures
            r@ == one_command(seq!["capture-pane"@, "-J"@, "-p"@, "-t"@, pane_id@, "-S"@, "-"@], Finish::Raw),
    {
        let args = argv(&["capture-pane", "-J", "-p", "-t", pane_id, "-S", "-"]);
        assert(str_views(seq!["capture-pane", "-J", "-p", "-t", pane_id, "-S", "-"]) =~= seq![
            "capture-pane"@,
            "-J"@,
            "-p"@,
            "-t"@,
            pane_id@,
            "-S"@,
            "-"@,
        ]);
        one(args, Finish::Raw)
    }

    /// Where archives go: beside the managed configuration.
    pub fn archive_dir(&self) -> (r: String)
        ensures
            r@ == archive_dir_of(self.conf_spec()),
    {
        self.managed.archive_dir()
    }

    /// Archives the given panes under `name`: their whole history goes to a
    /// new file in the archive directory, named by the time and `name`.
    pub fn archive_panes(&self, name: &str, entries: Vec<ArchiveEntry>) -> (r: Job)
        ensures
            r@ == fresh(JobKindV::Archive(archive_dir_of(self.conf_spec()), name@, entry_views(entries@))),
    {
        let dir = self.managed.archive_dir();
        Job::fresh(JobKind::Archive { dir, name: str_to_string(name), entries })
    }

    /// Creates a detached session (named by tmux when `name` is empty); ends
    /// with its id.
    pub fn create_session(&self, name: &str) -> (r: Job)
        ensures
            r@ == one_command(create_session_args(name@), Finish::Trimmed),
    {
        let mut args = argv(&["new-session", "-P", "-F", "#{session_id}", "-d"]);
        let ghost base = str_views(seq!["new-session", "-P", "-F", "#{session_id}", "-d"]);
        assert(base =~= seq!["new-session"@, "-P"@, "-F"@, "#{session_id}"@, "-d"@]);
        if name.unicode_len() > 0 {
            let ghost pre = args@;
            args.push(str_to_string("-s"));
            args.push(str_to_string(name));
            assert(string_views(args@) =~= string_views(pre) + seq!["-s"@, name@]);
        } else {
            assert(base =~= base + seq![]);
        }
        one(args, Finish::Trimmed)
    }

    pub fn rename_session(&self, session_id: &str, name: &str) -> (r: Job)
        ensures
            r@ == one_command(seq!["rename-session"@, "-t"@, session_id@, name@], Finish::Done),
    {
        let args = argv(&["rename-session", "-t", session_id, name]);
        assert(str_views(seq!["rename-session", "-t", session_id, name]) =~= seq![
            "rename-session"@,
            "-t"@,
            session_id@,
            name@,
        ]);
        one(args, Finish::Done)
    }

    pub fn kill_session(&self, session_id: &str) -> (r: Job)
        ensures
            r@ == one_command(seq!["kill-session"@, "-t"@, session_id@], Finish::Done),
    {
        one(three_words("kill-session", "-t", session_id), Finish::Done)
    }

    /// Creates a detached window in a session, starting in the directory of
    /// `base_pane_id` (or of the session's active pane), named `name` unless
    /// it is empty; ends with the window's id.
    pub fn new_window(&self, session_id: &str, base_pane_id: Option<&str>, name: &str) -> (r: Job)
        ensures
            r@ == fresh(
                JobKindV::NewWindow(
                    session_id@,
                    match base_pane_id {
                        Some(p) => Some(p@),
                        None => None,
                    },
                    name@,
                ),
            ),
    {
        let base = match base_pane_id {
            Some(p) => Some(str_to_string(p)),
            None => None,
        };
        Job::fresh(
            JobKind::NewWindow {
                session_id: str_to_string(session_id),
                base_pane_id: base,
                name: str_to_string(name),
            },
        )
    }

    pub fn rename_window(&self, window_id: &str, name: &str) -> (r: Job)
        ensures
            r@ == one_command(seq!["rename-window"@, "-t"@, window_id@, name@], Finish::Done),
    {
        let args = argv(&["rename-window", "-t", window_id, name]);
        assert(str_views(seq!["rename-window", "-t", window_id, name]) =~= seq![
            "rename-window"@,
            "-t"@,
            window_id@,
            name@,
        ]);
        one(args, Finish::Done)
    }

    pub fn kill_window(&self, window_id: &str) -> (r: Job)
        ensures
            r@ == one_command(kill_window_args(window_id@), Finish::Done),
    {
        one(three_words("kill-window", "-t", window_id), Finish::Done)
    }

    pub fn move_window_to_session(&self, window_id: &str, session_id: &str) -> (r: Job)
        ensures
            r@ == one_command(move_window_args(window_id@, session_id@), Finish::Done),
    {
        let target = with_colon(session_id);
        let ts = target.as_str();
        let args = argv(&["move-window", "-s", window_id, "-t", ts]);
        assert(str_views(seq!["move-window", "-s", window_id, "-t", ts]) =~= move_window_args(
            window_id@,
            session_id@,
        ));
        one(args, Finish::Done)
    }

    /// Moves a window into a new session of its own; ends with the session's
    /// id.
    pub fn move_window_to_new_session(&self, window_id: &str) -> (r: Job)
        ensures
            r@ == fresh(JobKindV::IntoNewSession(false, window_id@)),
    {
        Job::fresh(JobKind::IntoNewSession { pane: false, id: str_to_string(window_id) })
    }

    /// Splits a pane, side by side when `vertical`, in its current
    /// directory; ends with the new pane's id.
    pub fn split_pane(&self, pane_id: &str, vertical: bool) -> (r: Job)
        ensures
            r@ == one_command(split_pane_args(pane_id@, vertical), Finish::Trimmed),
    {
        let dir = if vertical {
            "-h"
        } else {
            "-v"
        };
        let args = argv(
            &["split-window", "-P", "-F", "#{pane_id}", "-t", pane_id, "-c", "#{pane_current_path}", dir],
        );
        assert(str_views(
            seq!["split-window", "-P", "-F", "#{pane_id}", "-t", pane_id, "-c", "#{pane_current_path}", dir],
        ) =~= split_pane_args(pane_id@, vertical));
        one(args, Finish::Trimmed)
    }

    pub fn rename_pane(&self, pane_id: &str, name: &str) -> (r: Job)
        ensures
            r@ == one_command(seq!["select-pane"@, "-t"@, pane_id@, "-T"@, name@], Finish::Done),
    {
        let args = argv(&["select-pane", "-t", pane_id, "-T", name]);
        assert(str_views(seq!["select-pane", "-t", pane_id, "-T", name]) =~= seq![
            "select-pane"@,
            "-t"@,
            pane_id@,
            "-T"@,
            name@,
        ]);
        one(args, Finish::Done)
    }

    pub fn kill_pane(&self, pane_id: &str) -> (r: Job)
        ensures
            r@ == one_command(seq!["kill-pane"@, "-t"@, pane_id@], Finish::Done),
    {
        one(three_words("kill-pane", "-t", pane_id), Finish::Done)
    }

    /// Joins a pane to the right of another pane, across the full height.
    pub fn move_pane_to_window(&self, pane_id: &str, target_pane_id: &str) -> (r: Job)
        ensures
            r@ == one_command(join_pane_args(pane_id@, target_pane_id@), Finish::Done),
    {
        let args = argv(&["join-pane", "-h", "-f", "-s", pane_id, "-t", target_pane_id]);
        assert(str_views(seq!["join-pane", "-h", "-f", "-s", pane_id, "-t", target_pane_id])
            =~= join_pane_args(pane_id@, target_pane_id@));
        one(args, Finish::Done)
    }

    /// Breaks a pane out into a new window of a session; ends with the
    /// window's id.
    pub fn move_pane_to_new_window(&self, pane_id: &str, session_id: &str) -> (r: Job)
        ensures
            r@ == one_command(break_pane_args(pane_id@, session_id@), Finish::Trimmed),
    {
        let target = with_colon(session_id);
        let ts = target.as_str();
        let args = argv(&["break-pane", "-d", "-P", "-F", "#{window_id}", "-s", pane_id, "-t", ts]);
        assert(str_views(seq!["break-pane", "-d", "-P", "-F", "#{window_id}", "-s", pane_id, "-t", ts])
            =~= break_pane_args(pane_id@, session_id@));
        one(args, Finish::Trimmed)
    }

    /// Moves a pane into a new session of its own; ends with the session's
    /// id.
    pub fn move_pane_to_new_session(&self, pane_id: &str) -> (r: Job)
        ensures
            r@ == fresh(JobKindV::IntoNewSession(true, pane_id@)),
    {
        Job::fresh(JobKind::IntoNewSession { pane: true, id: str_to_string(pane_id) })
    }

    pub fn toggle_zoom(&self, pane_id: &str) -> (r: Job)
        ensures
            r@ == one_command(seq!["resize-pane"@, "-t"@, pane_id@, "-Z"@], Finish::Done),
    {
        let args = argv(&["resize-pane", "-t", pane_id, "-Z"]);
        assert(str_views(seq!["resize-pane", "-t", pane_id, "-Z"]) =~= seq![
            "resize-pane"@,
            "-t"@,
            pane_id@,
            "-Z"@,
        ]);
        one(args, Finish::Done)
    }

    /// Types a command into a pane that attaches (or creates) a nested
    /// `tmuxtui` session.
    pub fn attach_remote_tmux(&self, pane_id: &str) -> (r: Job)
        ensures
            r@ == one_command(
                seq!["send-keys"@, "-t"@, pane_id@, "tmux new-session -A -s tmuxtui"@, "C-m"@],
                Finish::Done,
            ),
    {
        let args = argv(&["send-keys", "-t", pane_id, "tmux new-session -A -s tmuxtui", "C-m"]);
        assert(str_views(seq!["send-keys", "-t", pane_id, "tmux new-session -A -s tmuxtui", "C-m"])
            =~= seq!["send-keys"@, "-t"@, pane_id@, "tmux new-session -A -s tmuxtui"@, "C-m"@]);
        one(args, Finish::Done)
    }

    /// Attaches to a target, first joining a pinned pane to the target
    /// window when it is elsewhere.
    pub fn attach(&self, target: &TargetKind) -> (r: Job)
        ensures
            r@ == fresh(JobKindV::Attach(target@)),
    {
        Job::fresh(JobKind::Attach { target: target.duplicate() })
    }

    /// Sets whether footer hints show, writes both files and reloads the
    /// configuration.
    pub fn set_show_hints(&mut self, show_hints: bool) -> (r: Job)
        ensures
            final(self).settings_spec() == (Settings { show_hints, ..old(self).settings_spec() }),
            final(self).conf_spec() == old(self).conf_spec(),
            final(self).settings_path_spec() == old(self).settings_path_spec(),
            r@ == script(
                seq![
                    EffectV::Write(final(self).settings_path_spec(), settings_text(final(self).settings_spec())),
                    EffectV::Write(final(self).conf_spec(), tmux_conf_text(final(self).settings_spec())),
                    EffectV::Run(seq!["source-file"@, final(self).conf_spec()], true),
                ],
                Finish::Done,
            ),
    {
        let files = self.managed.set_show_hints(show_hints);
        self.reload_after(files)
    }

    /// Sets whether tmux shows its status line, writes both files and
    /// reloads the configuration.
    pub fn set_show_status(&mut self, show_status: bool) -> (r: Job)
        ensures
            final(self).settings_spec() == (Settings { show_status, ..old(self).settings_spec() }),
            final(self).conf_spec() == old(self).conf_spec(),
            final(self).settings_path_spec() == old(self).settings_path_spec(),
            r@ == script(
                seq![
                    EffectV::Write(final(self).settings_path_spec(), settings_text(final(self).settings_spec())),
                    EffectV::Write(final(self).conf_spec(), tmux_conf_text(final(self).settings_spec())),
                    EffectV::Run(seq!["source-file"@, final(self).conf_spec()], true),
                ],
                Finish::Done,
            ),
    {
        let files = self.managed.set_show_status(show_status);
        self.reload_after(files)
    }

    fn reload_after(&self, files: Vec<FileWrite>) -> (r: Job)
        requires
            files@.len() == 2,
        ensures
            r@ == script(
                seq![
                    EffectV::Write(files@[0].path@, files@[0].contents@),
                    EffectV::Write(files@[1].path@, files@[1].contents@),
                    EffectV::Run(seq!["source-file"@, self.conf_spec()], true),
                ],
                Finish::Done,
            ),
    {
        let ghost fv = files@;
        let mut effects = write_effects(files);
        let ghost pre = effects@;
        let reload = Effect::Run { args: two_words("source-file", self.managed.tmux_conf().as_str()), lenient: true };
        effects.push(reload);
        assert(effect_views(effects@) =~= seq![
            EffectV::Write(fv[0].path@, fv[0].contents@),
            EffectV::Write(fv[1].path@, fv[1].contents@),
            EffectV::Run(seq!["source-file"@, self.conf_spec()], true),
        ]) by {
            assert(effect_views(effects@) =~= effect_views(pre).push(reload@));
        }
        Job::fresh(JobKind::Script { effects, finish: Finish::Done })
    }

    /// Sets a fixed sidebar width and writes both files.
    pub fn set_sidebar_percent(&mut self, sidebar_percent: u8) -> (r: Job)
        ensures
            final(self).settings_spec() == (Settings {
                sidebar_percent: if sidebar_percent <= 100 { sidebar_percent } else { 100 },
                sidebar_auto: false,
                ..old(self).settings_spec()
            }),
            final(self).conf_spec() == old(self).conf_spec(),
            final(self).settings_path_spec() == old(self).settings_path_spec(),
            r@ == script(
                seq![
                    EffectV::Write(final(self).settings_path_spec(), settings_text(final(self).settings_spec())),
                    EffectV::Write(final(self).conf_spec(), tmux_conf_text(final(self).settings_spec())),
                ],
                Finish::Done,
            ),
    {
        let files = self.managed.set_sidebar_percent(sidebar_percent);
        let ghost fv = files@;
        let effects = write_effects(files);
        assert(effect_views(effects@) =~= seq![
            EffectV::Write(fv[0].path@, fv[0].contents@),
            EffectV::Write(fv[1].path@, fv[1].contents@),
        ]);
        Job::fresh(JobKind::Script { effects, finish: Finish::Done })
    }

    /// Records a target in the `@tmuxtui-*` options, clearing the parts it
    /// does not have.
    pub fn set_last_target(&self, target: &TargetKind) -> (r: Job)
        ensures
            r@ == script(
                ({
                    let (s, w, p) = match target@ {
                        TargetV::Session(s) => (s, Seq::<char>::empty(), Seq::<char>::empty()),
                        TargetV::Window(s, w) => (s, w, Seq::<char>::empty()),
                        TargetV::Pane(s, w, p) => (s, w, p),
                    };
                    seq![
                        EffectV::Run(set_option_args("@tmuxtui-session"@, s), false),
                        EffectV::Run(set_option_args("@tmuxtui-window"@, w), false),
                        EffectV::Run(set_option_args("@tmuxtui-pane"@, p), false),
                    ]
                }),
                Finish::Done,
            ),
    {
        let (s, w, p) = match target {
            TargetKind::Session(s) => (s.clone(), String::new(), String::new()),
            TargetKind::Window { session_id, window_id } => (session_id.clone(), window_id.clone(), String::new()),
            TargetKind::Pane { session_id, window_id, pane_id } => (session_id.clone(), window_id.clone(), pane_id.clone()),
        };
        let e1 = Effect::Run { args: set_option("@tmuxtui-session", s.as_str()), lenient: false };
        let e2 = Effect::Run { args: set_option("@tmuxtui-window", w.as_str()), lenient: false };
        let e3 = Effect::Run { args: set_option("@tmuxtui-pane", p.as_str()), lenient: false };
        let mut effects = Vec::new();
        effects.push(e1);
        effects.push(e2);
        effects.push(e3);
        assert(effect_views(effects@) =~= seq![e1@, e2@, e3@]);
        Job::fresh(JobKind::Script { effects, finish: Finish::Done })
    }

    /// Pins a pane, or clears the pin.
    pub fn set_pinned_pane(&self, pane_id: Option<&str>) -> (r: Job)
        ensures
            r@ == one_command(
                set_option_args(
                    "@tmuxtui-pinned-pane"@,
                    match pane_id {
                        Some(p) => p@,
                        None => Seq::<char>::empty(),
                    },
                ),
                Finish::Done,
            ),
    {
        match pane_id {
            Some(p) => one(set_option("@tmuxtui-pinned-pane", p), Finish::Done),
            None => one(clear_option("@tmuxtui-pinned-pane"), Finish::Done),
        }
    }

    /// Reads the pinned pane.
    pub fn pinned_pane(&self) -> (r: Job)
        ensures
            r@ == fresh(JobKindV::PinnedPane),
    {
        Job::fresh(JobKind::PinnedPane)
    }

    /// Reads the remembered target.
    pub fn last_target(&self) -> (r: Job)
        ensures
            r@ == fresh(JobKindV::LastTarget),
    {
        Job::fresh(JobKind::LastTarget)
    }
}

} // verus!
