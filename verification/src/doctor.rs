//! Reports on pruned worktrees and on where things are kept: the notice in the client, and the lines
//! that the doctor prints.

use vstd::prelude::*;
use crate::ids::RepoId;
use crate::keys::{expand_path, expanded, join_path, path_under};
use crate::text::{chars_of, decimal, decimal_string, join, joined, opt_text, owned, texts};
use crate::wire::DaemonMsg;

verus! {

/// What was skipped: names, and how many uncommitted changes each has.
pub open spec fn skips(skipped: Seq<(String, usize)>) -> Seq<(Seq<char>, nat)> {
    Seq::new(skipped.len(), |i: int| (skipped[i].0@, skipped[i].1 as nat))
}

/// What a skipped worktree is noted as.
pub open spec fn skip_note(s: (Seq<char>, nat)) -> Seq<char> {
    s.0 + ": "@ + decimal(s.1) + " uncommitted"@
}

/// The part of the summary on pruned worktrees.
pub open spec fn pruned_part(pruned: Seq<Seq<char>>) -> Seq<char> {
    "pruned "@ + decimal(pruned.len()) + " ("@ + joined(pruned, ", "@) + ")"@
}

/// The part of the summary on skipped worktrees.
pub open spec fn skipped_part(skipped: Seq<(Seq<char>, nat)>) -> Seq<char> {
    "skipped "@ + decimal(skipped.len()) + " ("@ + joined(
        Seq::new(skipped.len(), |i: int| skip_note(skipped[i])),
        ", "@,
    ) + ")"@
}

/// The summary of a run of the doctor.
pub open spec fn summary(pruned: Seq<Seq<char>>, skipped: Seq<(Seq<char>, nat)>) -> Seq<char> {
    if pruned.len() == 0 && skipped.len() == 0 {
        "doctor: no orphaned worktrees — nothing to prune"@
    } else if skipped.len() == 0 {
        "doctor: "@ + pruned_part(pruned)
    } else if pruned.len() == 0 {
        "doctor: "@ + skipped_part(skipped)
    } else {
        "doctor: "@ + pruned_part(pruned) + " · "@ + skipped_part(skipped)
    }
}

fn write_pruned(pruned: &Vec<String>) -> (out: String)
    ensures
        out@ == pruned_part(texts(pruned@)),
{
    let mut out = owned("pruned ");
    let n = decimal_string(pruned.len() as u64);
    out.append(n.as_str());
    out.append(" (");
    let names = join(pruned, ", ");
    out.append(names.as_str());
    out.append(")");
    out
}

fn write_skipped(skipped: &Vec<(String, usize)>) -> (out: String)
    ensures
        out@ == skipped_part(skips(skipped@)),
{
    let mut notes: Vec<String> = Vec::new();
    let mut i: usize = 0;
    let ghost s = skips(skipped@);
    let ghost all = Seq::new(s.len(), |i: int| skip_note(s[i]));
    while i < skipped.len()
        invariant
            i <= skipped@.len(),
            s == skips(skipped@),
            all == Seq::new(s.len(), |i: int| skip_note(s[i])),
            notes@.len() == i,
            texts(notes@) == all.take(i as int),
        decreases skipped@.len() - i,
    {
        let mut note = owned(skipped[i].0.as_str());
        note.append(": ");
        let n = decimal_string(skipped[i].1 as u64);
        note.append(n.as_str());
        note.append(" uncommitted");
        assert(note@ == skip_note(s[i as int]));
        notes.push(note);
        assert(texts(notes@) =~= all.take(i + 1));
        i = i + 1;
    }
    assert(texts(notes@) =~= all);
    let mut out = owned("skipped ");
    let n = decimal_string(skipped.len() as u64);
    out.append(n.as_str());
    out.append(" (");
    let list = join(&notes, ", ");
    out.append(list.as_str());
    out.append(")");
    out
}

/// One line on a run of the doctor, for the notice.
pub fn doctor_summary(pruned: &Vec<String>, skipped: &Vec<(String, usize)>) -> (out: String)
    ensures
        out@ == summary(texts(pruned@), skips(skipped@)),
{
    if pruned.len() == 0 && skipped.len() == 0 {
        return owned("doctor: no orphaned worktrees — nothing to prune");
    }
    let mut out = owned("doctor: ");
    if pruned.len() > 0 {
        let part = write_pruned(pruned);
        out.append(part.as_str());
        if skipped.len() > 0 {
            out.append(" · ");
        }
    }
    if skipped.len() > 0 {
        let part = write_skipped(skipped);
        out.append(part.as_str());
    }
    out
}

// --- the lines that are printed ---

/// The line on a pruned worktree.
pub open spec fn pruned_line(name: Seq<char>) -> Seq<char> {
    "pruned   "@ + name
}

/// The line on a skipped worktree.
pub open spec fn skipped_line(s: (Seq<char>, nat)) -> Seq<char> {
    "skipped  "@ + s.0 + "  ("@ + decimal(s.1) + (if s.1 == 1 {
        " uncommitted change)"@
    } else {
        " uncommitted changes)"@
    })
}

/// The lines of a report: one for each worktree, a blank one, and the totals.
pub open spec fn report_lines(
    pruned: Seq<Seq<char>>,
    skipped: Seq<(Seq<char>, nat)>,
) -> Seq<Seq<char>> {
    if pruned.len() == 0 && skipped.len() == 0 {
        seq!["No orphaned worktrees — nothing to prune."@]
    } else {
        Seq::new(pruned.len(), |i: int| pruned_line(pruned[i])) + Seq::new(
            skipped.len(),
            |i: int| skipped_line(skipped[i]),
        ) + seq![
            Seq::<char>::empty(),
            decimal(pruned.len()) + " pruned, "@ + decimal(skipped.len()) + " skipped."@,
        ]
    }
}

fn write_skipped_line(name: &str, dirty: usize) -> (out: String)
    ensures
        out@ == skipped_line((name@, dirty as nat)),
{
    let mut out = owned("skipped  ");
    out.append(name);
    out.append("  (");
    let n = decimal_string(dirty as u64);
    out.append(n.as_str());
    if dirty == 1 {
        out.append(" uncommitted change)");
    } else {
        out.append(" uncommitted changes)");
    }
    out
}

/// The lines of a report.
pub fn doctor_report(pruned: &Vec<String>, skipped: &Vec<(String, usize)>) -> (lines: Vec<String>)
    ensures
        texts(lines@) == report_lines(texts(pruned@), skips(skipped@)),
{
    let mut lines: Vec<String> = Vec::new();
    if pruned.len() == 0 && skipped.len() == 0 {
        lines.push(owned("No orphaned worktrees — nothing to prune."));
        assert(texts(lines@) =~= report_lines(texts(pruned@), skips(skipped@)));
        return lines;
    }
    let ghost p = texts(pruned@);
    let ghost s = skips(skipped@);
    let ghost first = Seq::new(p.len(), |i: int| pruned_line(p[i]));
    let ghost second = Seq::new(s.len(), |i: int| skipped_line(s[i]));
    let mut i: usize = 0;
    while i < pruned.len()
        invariant
            i <= pruned@.len(),
            p == texts(pruned@),
            first == Seq::new(p.len(), |i: int| pruned_line(p[i])),
            texts(lines@) == first.take(i as int),
        decreases pruned@.len() - i,
    {
        let ghost before = texts(lines@);
        let mut line = owned("pruned   ");
        line.append(pruned[i].as_str());
        lines.push(line);
        assert(texts(lines@) =~= before.push(line@));
        assert(texts(lines@) =~= first.take(i + 1));
        i = i + 1;
    }
    assert(texts(lines@) =~= first + second.take(0));
    let mut k: usize = 0;
    while k < skipped.len()
        invariant
            k <= skipped@.len(),
            s == skips(skipped@),
            second == Seq::new(s.len(), |i: int| skipped_line(s[i])),
            texts(lines@) == first + second.take(k as int),
        decreases skipped@.len() - k,
    {
        let ghost before = texts(lines@);
        let line = write_skipped_line(skipped[k].0.as_str(), skipped[k].1);
        assert(line@ == skipped_line(s[k as int]));
        lines.push(line);
        assert(texts(lines@) =~= before.push(line@));
        assert(texts(lines@) =~= first + second.take(k + 1));
        k = k + 1;
    }
    assert(second.take(s.len() as int) =~= second);
    let ghost before = texts(lines@);
    let blank = String::new();
    lines.push(blank);
    let mut total = decimal_string(pruned.len() as u64);
    total.append(" pruned, ");
    let n = decimal_string(skipped.len() as u64);
    total.append(n.as_str());
    total.append(" skipped.");
    lines.push(total);
    assert(blank@ =~= Seq::<char>::empty());
    assert(texts(lines@) =~= before.push(blank@).push(total@));
    assert(texts(lines@) =~= report_lines(p, s));
    lines
}

// --- where things are kept ---

/// Where the configuration file is looked for, given `$XDG_CONFIG_HOME` and the home directory.
pub open spec fn config_place(xdg: Option<Seq<char>>, home: Option<Seq<char>>) -> Seq<char> {
    match xdg {
        Some(dir) => if dir.len() > 0 {
            path_under(dir, "amux/config.toml"@)
        } else {
            expanded("~/.config/amux/config.toml"@, home)
        },
        None => expanded("~/.config/amux/config.toml"@, home),
    }
}

/// Where everything is kept that amux owns: the configured root, or the default.
pub open spec fn home_place(root: Option<Seq<char>>, home: Option<Seq<char>>) -> Seq<char> {
    match root {
        Some(r) => expanded(r, home),
        None => expanded("~/.amux"@, home),
    }
}

/// The lines on where things are kept, after a blank one: the configuration file that was loaded, if
/// there is one, and the amux home.
pub open spec fn place_lines(config: Option<Seq<char>>, home: Seq<char>) -> Seq<Seq<char>> {
    seq![
        Seq::<char>::empty(),
        "config   "@ + (match config {
            Some(path) => path,
            None => "none"@,
        }),
        "home     "@ + home,
    ]
}

/// Where to look for the configuration file. An empty `$XDG_CONFIG_HOME` counts as unset.
pub fn config_file(xdg: &Option<String>, home: &Option<String>) -> (path: String)
    ensures
        path@ == config_place(opt_text(*xdg), opt_text(*home)),
{
    if let Some(dir) = xdg {
        if chars_of(dir.as_str()).len() > 0 {
            return join_path(dir.as_str(), "amux/config.toml");
        }
    }
    expand_path("~/.config/amux/config.toml", home)
}

/// Where everything is kept that amux owns, for the `root` that was configured.
pub fn amux_home(root: &Option<String>, home: &Option<String>) -> (path: String)
    ensures
        path@ == home_place(opt_text(*root), opt_text(*home)),
{
    match root {
        Some(r) => expand_path(r.as_str(), home),
        None => expand_path("~/.amux", home),
    }
}

/// The lines on the configuration file that was loaded and on where the amux home is.
pub fn doctor_places(config: &Option<String>, home: &str) -> (lines: Vec<String>)
    ensures
        texts(lines@) == place_lines(opt_text(*config), home@),
{
    let mut lines: Vec<String> = Vec::new();
    let blank = String::new();
    let mut first = owned("config   ");
    match config {
        Some(path) => first.append(path.as_str()),
        None => first.append("none"),
    }
    let mut second = owned("home     ");
    second.append(home);
    assert(blank@ =~= Seq::<char>::empty());
    lines.push(blank);
    lines.push(first);
    lines.push(second);
    assert(texts(lines@) =~= place_lines(opt_text(*config), home@));
    lines
}

/// What the doctor does about a message.
pub enum DoctorStep {
    /// Print these lines and end.
    Report(Vec<String>),
    /// End with this error of the daemon.
    Fail(String),
    /// Wait for the next message.
    Wait,
}

/// Decide what a message means to a doctor that waits for the report on `repo`, with the
/// configuration file that was loaded and the amux home.
pub fn doctor_step(repo: RepoId, msg: DaemonMsg, config: &Option<String>, home: &str) -> (step:
    DoctorStep)
    ensures
        match (msg, step) {
            (
                DaemonMsg::DoctorReport { repo: r, pruned, skipped },
                DoctorStep::Report(lines),
            ) => r == repo && texts(lines@) == report_lines(texts(pruned@), skips(skipped@))
                + place_lines(opt_text(*config), home@),
            (DaemonMsg::DoctorReport { repo: r, .. }, DoctorStep::Wait) => r != repo,
            (DaemonMsg::DoctorReport { .. }, _) => false,
            (DaemonMsg::Error { message }, DoctorStep::Fail(text)) => text@ == message@,
            (DaemonMsg::Error { .. }, _) => false,
            (_, DoctorStep::Wait) => true,
            _ => false,
        },
{
    match msg {
        DaemonMsg::DoctorReport { repo: r, pruned, skipped } => if r == repo {
            let mut lines = doctor_report(&pruned, &skipped);
            let mut places = doctor_places(config, home);
            let ghost (a, b) = (texts(lines@), texts(places@));
            lines.append(&mut places);
            assert(texts(lines@) =~= a + b);
            DoctorStep::Report(lines)
        } else {
            DoctorStep::Wait
        },
        DaemonMsg::Error { message } => DoctorStep::Fail(message),
        _ => DoctorStep::Wait,
    }
}

} // verus!
