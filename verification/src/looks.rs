//! What is drawn says what there is to know: which agent waits, what is unread or open, where the
//! focus is, and what is being typed.

use vstd::prelude::*;
use crate::frame::SpanView;
use crate::geometry::Rect;
use crate::ids::{RepoId, TerminalId};
use crate::pane::Placement;
use crate::render::{
    agent_count, hidden_hint, last_agent, least_x, most_right, repo_label, repo_name, shadow_of,
    sidebar_title, unread_count, Content,
};
use crate::selection::highlighted;
use crate::sidebar::Row;
use crate::state::{
    minis_end_at_the_right_edge, minis_lie_side_by_side, minis_stay_in_band, AppView, Field, Focus,
    InputMode,
};
use crate::table::lookup;
use crate::text::decimal;
use crate::theme::{state_color, Color};
use crate::time::age_text;
use crate::wire::{AgentInfo, RepoInfo};

verus! {

/// Whether `part` stands somewhere in `text`.
pub open spec fn shows(text: Seq<char>, part: Seq<char>) -> bool {
    exists|p: int|
        0 <= p && p + part.len() <= text.len() && #[trigger] text.subrange(p, p + part.len()) == part
}

proof fn a_part_is_shown(a: Seq<char>, part: Seq<char>, b: Seq<char>)
    ensures
        shows(a + part + b, part),
{
    let text = a + part + b;
    let p = a.len() as int;
    assert(text.subrange(p, p + part.len()) =~= part);
}

// --- the status line ---

/// A question is asked in the daemon's words, in red.
pub proof fn questions_are_asked(v: AppView)
    requires
        v.input == InputMode::Confirming,
    ensures
        shows(v.status_text(), v.confirm_msg),
        v.status_style().bg == Some(Color::Red),
{
    reveal_strlit(" ");
    a_part_is_shown(" "@, v.confirm_msg, " — delete anyway? y/n"@);
}

/// In a prompt, what was typed is shown, and a block stands right behind the field that is being
/// edited and behind no other.
pub proof fn what_is_typed_is_shown(v: AppView)
    ensures
        v.input == InputMode::Creating && v.create_field == Field::Branch ==> {
            &&& shows(v.status_text(), v.create_buf + "\u{2588}"@ + "  task: "@ + v.task_buf + "  ("@)
            &&& shows(v.status_text(), v.create_label())
        },
        v.input == InputMode::Creating && v.create_field == Field::Task ==> shows(
            v.status_text(),
            v.create_buf + "  task: "@ + v.task_buf + "\u{2588}"@,
        ),
        v.input == InputMode::CreatingRepo && v.create_field == Field::Dir ==> shows(
            v.status_text(),
            v.dir_buf + "\u{2588}"@ + "  branch: "@ + v.create_buf + "  ("@,
        ),
        v.input == InputMode::CreatingRepo && v.create_field == Field::Branch ==> shows(
            v.status_text(),
            v.dir_buf + "  branch: "@ + v.create_buf + "\u{2588}"@,
        ),
        v.input == InputMode::CreatingHead ==> shows(v.status_text(), v.dir_buf + "\u{2588}"@),
        v.input != InputMode::Normal && v.input != InputMode::Confirming ==> v.status_style().bg
            == Some(v.theme.focus),
{
    reveal_strlit("\u{2588}");
    reveal_strlit("");
    reveal_strlit("  (");
    reveal_strlit("  (tab switch \u{b7} enter create \u{b7} task optional)");
    reveal_strlit("  (tab switch \u{b7} enter next/create)");
    reveal_strlit("\u{2588}  (enter create \u{b7} esc cancel)");
    if v.input == InputMode::Creating {
        let head = " new agent in "@ + v.create_label() + " — branch: "@;
        let hint = "  (tab switch \u{b7} enter create \u{b7} task optional)"@;
        if v.create_field == Field::Branch {
            let part = v.create_buf + "\u{2588}"@ + "  task: "@ + v.task_buf + "  ("@;
            assert(head + part + hint.skip(3) =~= v.status_text());
            a_part_is_shown(head, part, hint.skip(3));
            let tail = " — branch: "@ + part + hint.skip(3);
            assert(" new agent in "@ + v.create_label() + tail =~= v.status_text());
            a_part_is_shown(" new agent in "@, v.create_label(), tail);
        }
        if v.create_field == Field::Task {
            let part = v.create_buf + "  task: "@ + v.task_buf + "\u{2588}"@;
            assert(head + part + hint =~= v.status_text());
            a_part_is_shown(head, part, hint);
        }
    }
    if v.input == InputMode::CreatingRepo {
        let head = " new agent — dir: "@;
        let hint = "  (tab switch \u{b7} enter next/create)"@;
        if v.create_field == Field::Dir {
            let part = v.dir_buf + "\u{2588}"@ + "  branch: "@ + v.create_buf + "  ("@;
            assert(head + part + hint.skip(3) =~= v.status_text());
            a_part_is_shown(head, part, hint.skip(3));
        }
        if v.create_field == Field::Branch {
            let part = v.dir_buf + "  branch: "@ + v.create_buf + "\u{2588}"@;
            assert(head + part + hint =~= v.status_text());
            a_part_is_shown(head, part, hint);
        }
    }
    if v.input == InputMode::CreatingHead {
        let head = " new HEAD session \u{2014} dir: "@;
        let hint = "\u{2588}  (enter create \u{b7} esc cancel)"@;
        let part = v.dir_buf + "\u{2588}"@;
        assert(head + part + hint.skip(1) =~= v.status_text());
        a_part_is_shown(head, part, hint.skip(1));
    }
}

/// Outside prompts and modes an error is shown, in red, before any notice; a notice in green.
pub proof fn errors_come_before_notices(v: AppView)
    requires
        v.input == InputMode::Normal,
        v.scroll is None,
        !v.resize_mode,
        !v.prefix,
    ensures
        v.status.len() > 0 ==> shows(v.status_text(), v.status) && v.status_style().bg == Some(
            Color::Red,
        ),
        v.status.len() == 0 && v.info.len() > 0 ==> shows(v.status_text(), v.info)
            && v.status_style().bg == Some(Color::Green),
        v.status.len() == 0 && v.info.len() == 0 ==> v.status_style().bg is None,
{
    a_part_is_shown(" \u{26a0} "@, v.status, " \u{b7} (press any key to dismiss)"@);
    a_part_is_shown(" \u{2713} "@, v.info, " \u{b7} (press any key to dismiss)"@);
}

/// Scrolled back, the line says how far back of how much; scroll and resize mode are yellow.
pub proof fn modes_are_named(v: AppView)
    requires
        v.input == InputMode::Normal,
    ensures
        v.scroll matches Some(s) ==> {
            &&& shows(
                v.status_text(),
                " SCROLL \u{2191}"@ + decimal(s.offset as nat) + "/"@ + decimal(s.available as nat),
            )
            &&& v.status_style().bg == Some(Color::Yellow)
        },
        v.scroll is None && v.resize_mode ==> v.status_style().bg == Some(Color::Yellow),
        v.scroll is None && !v.resize_mode && v.prefix ==> v.status_style().bg == Some(
            v.theme.focus,
        ),
{
    if let Some(s) = v.scroll {
        let part = " SCROLL \u{2191}"@ + decimal(s.offset as nat) + "/"@ + decimal(
            s.available as nat,
        );
        let hint = " — j/k line \u{b7} ^u/^d half \u{b7} PgUp/PgDn page \u{b7} g/G top/bottom \u{b7} q done"@;
        assert(Seq::<char>::empty() + part + hint =~= v.status_text());
        a_part_is_shown(Seq::<char>::empty(), part, hint);
    }
}

// --- the lines of the sidebar ---

/// The text of a line.
pub open spec fn line_text(line: Seq<SpanView>) -> Seq<char>
    decreases line.len(),
{
    if line.len() == 0 {
        Seq::empty()
    } else {
        line_text(line.drop_last()) + line.last().text
    }
}

/// Where there is room, an agent's line fills its width exactly: the cursor's mark in the first cell,
/// the bar of an unread agent in the second, its glyph in the fourth, a star in the sixth where it is
/// open, its name from the seventh on, and its age at the end.
pub proof fn agent_lines_fill_their_width(
    v: AppView,
    row: Row,
    a: AgentInfo,
    name: Seq<char>,
    width: int,
    k: int,
)
    requires
        width >= 8 + age_text(v.now, a.last_opened).len(),
    ensures
        ({
            let text = line_text(v.agent_line(row, a, name, width, false));
            let age = age_text(v.now, a.last_opened);
            &&& text.len() == width
            &&& (text[0] == '\u{25b8}') == (v.sidebar_sel == Some(row))
            &&& (text[1] == '\u{258c}') == a.unread
            &&& !v.super_held && !v.prefix ==> text[3] == a.glyph
            &&& (text[5] == '*') == (v.active_agent == Some(a.id) || v.minis.contains(a.id))
            &&& 6 <= k < width - age.len() - 1 && k - 6 < name.len() ==> text[k] == name[k - 6]
            &&& 6 <= k < width - age.len() - 1 && k - 6 >= name.len() ==> text[k] == ' '
            &&& text[width - age.len() - 1] == ' '
            &&& text.subrange(width - age.len(), width) == age
        }),
{
    let line = v.agent_line(row, a, name, width, false);
    let age = age_text(v.now, a.last_opened);
    assert(line.len() == 6);
    let t1 = line.drop_last();
    let t2 = t1.drop_last();
    let t3 = t2.drop_last();
    let t4 = t3.drop_last();
    let t5 = t4.drop_last();
    assert(t5.drop_last() =~= Seq::<SpanView>::empty());
    assert(line_text(t5.drop_last()) =~= Seq::<char>::empty());
    assert(line_text(t5) =~= line[0].text);
    assert(line_text(t4) =~= line[0].text + line[1].text);
    assert(line_text(t3) == line_text(t4) + line[2].text);
    assert(line_text(t2) == line_text(t3) + line[3].text);
    assert(line_text(t1) == line_text(t2) + line[4].text);
    assert(line_text(line) == line_text(t1) + line[5].text);
    let text = line_text(line);
    assert(line[5].text.len() == 1 + age.len());
    assert(text.subrange(width - age.len(), width) =~= age);
}

/// The name of an agent that is unread, or that the cursor is on, stands out; its glyph has the
/// colour of its state.
pub proof fn unread_agents_stand_out(v: AppView, row: Row, a: AgentInfo, name: Seq<char>, width: int)
    ensures
        ({
            let line = v.agent_line(row, a, name, width, false);
            &&& line[4].style.bold == (a.unread || v.sidebar_sel == Some(row))
            &&& !v.super_held && !v.prefix ==> line[2].style.fg == Some(state_color(a.state))
        }),
{
}

/// An agent's row is drawn from what is known of that agent: under its repository with its name, in
/// the recent block with the name of its repository before it.
pub proof fn rows_are_drawn_from_their_agent(v: AppView, i: int, recent: nat, width: int)
    requires
        0 <= i < v.agents.len(),
        forall|k: int| i < k < v.agents.len() ==> (#[trigger] v.agents[k]).id != v.agents[i].id,
    ensures
        ({
            let a = v.agents[i];
            &&& v.row_line(Row::Agent(a.id), recent, width, false) == v.agent_line(
                Row::Agent(a.id),
                a,
                a.name@,
                width,
                false,
            )
            &&& v.row_line(Row::Recent(a.id), recent, width, false) == v.agent_line(
                Row::Recent(a.id),
                a,
                repo_label(v.repos, a.repo) + seq!['/'] + a.name@,
                width,
                false,
            )
        }),
{
    the_last_agent_is_found(v.agents, i, v.agents.len() as int);
}

pub(crate) proof fn the_last_agent_is_found(agents: Seq<AgentInfo>, i: int, n: int)
    requires
        0 <= i < n <= agents.len(),
        forall|k: int| i < k < agents.len() ==> (#[trigger] agents[k]).id != agents[i].id,
    ensures
        last_agent(agents, agents[i].id, n) == Some(i),
    decreases n,
{
    if n - 1 > i {
        the_last_agent_is_found(agents, i, n - 1);
    }
}

proof fn the_repository_is_named(repos: Seq<RepoInfo>, r: int, n: int)
    requires
        0 <= r < n <= repos.len(),
        forall|k: int| r < k < repos.len() ==> (#[trigger] repos[k]).id != repos[r].id,
    ensures
        repo_name(repos, repos[r].id, n) == Some(repos[r].name@),
    decreases n,
{
    if n - 1 > r {
        the_repository_is_named(repos, r, n - 1);
    }
}

/// A repository's row shows its name and how many agents it has.
pub proof fn repositories_show_name_and_count(v: AppView, r: int, width: int)
    requires
        0 <= r < v.repos.len(),
        forall|k: int| r < k < v.repos.len() ==> (#[trigger] v.repos[k]).id != v.repos[r].id,
    ensures
        ({
            let line = v.repo_line(v.repos[r].id, width, false);
            let n = agent_count(v.agents, v.repos[r].id, v.agents.len() as int);
            &&& line.len() == 3
            &&& line[1].text == v.repos[r].name@ + seq![' ']
            &&& line[1].style.reversed == (v.sidebar_sel == Some(Row::Repo(v.repos[r].id)))
            &&& line[2].text == seq!['('] + decimal(n) + seq![')']
            &&& (line[0].text[0] == '\u{25b8}') == (v.sidebar_sel == Some(Row::Repo(v.repos[r].id)))
        }),
{
    the_repository_is_named(v.repos, r, v.repos.len() as int);
    assert(v.repos[r].name@.push(' ') =~= v.repos[r].name@ + seq![' ']);
}

/// Counts count: one more agent of a repository, or one more that is unread, is one more counted.
pub proof fn counts_count(agents: Seq<AgentInfo>, a: AgentInfo, repo: RepoId)
    ensures
        agent_count(agents.push(a), repo, agents.len() as int + 1) == agent_count(
            agents,
            repo,
            agents.len() as int,
        ) + if a.repo == repo {
            1nat
        } else {
            0nat
        },
        unread_count(agents.push(a), agents.len() as int + 1) == unread_count(agents, agents.len() as int)
            + if a.unread {
            1nat
        } else {
            0nat
        },
        agent_count(agents, repo, 0) == 0,
        unread_count(agents, 0) == 0,
{
    counts_look_at_what_is_there(agents, agents.push(a), repo, agents.len() as int);
}

proof fn counts_look_at_what_is_there(
    a: Seq<AgentInfo>,
    b: Seq<AgentInfo>,
    repo: RepoId,
    n: int,
)
    requires
        n <= a.len(),
        n <= b.len(),
        forall|i: int| 0 <= i < n ==> a[i] == b[i],
    ensures
        agent_count(a, repo, n) == agent_count(b, repo, n),
        unread_count(a, n) == unread_count(b, n),
    decreases n,
{
    if n > 0 {
        counts_look_at_what_is_there(a, b, repo, n - 1);
        assert(a[n - 1] == b[n - 1]);
    }
}

/// The title of the full sidebar says how many agents are unread, if any, and how many rows are out
/// of view above and below.
pub proof fn the_title_says_what_is_hidden(unread: nat, above: nat, below: nat)
    ensures
        ({
            let title = sidebar_title(false, unread, hidden_hint(false, above, below));
            &&& unread > 0 ==> shows(title, decimal(unread) + " unread "@)
            &&& above > 0 ==> shows(title, seq!['\u{2191}'] + decimal(above))
            &&& below > 0 ==> shows(title, seq!['\u{2193}'] + decimal(below))
            &&& above == 0 && below == 0 && unread == 0 ==> title == " agents "@
        }),
{
    let hint = hidden_hint(false, above, below);
    let title = sidebar_title(false, unread, hint);
    let head = if unread == 0 {
        " agents "@
    } else {
        " agents · "@ + decimal(unread) + " unread "@
    };
    assert(title =~= head + hint);
    if unread > 0 {
        let part = decimal(unread) + " unread "@;
        assert(title =~= " agents · "@ + part + hint);
        a_part_is_shown(" agents · "@, part, hint);
    }
    if above > 0 {
        let part = seq!['\u{2191}'] + decimal(above);
        let tail = if below == 0 {
            seq![' ']
        } else {
            seq!['\u{2193}'] + decimal(below) + seq![' ']
        };
        assert(title =~= head + part + tail);
        a_part_is_shown(head, part, tail);
    }
    if below > 0 {
        let part = seq!['\u{2193}'] + decimal(below);
        let front = if above == 0 {
            head
        } else {
            head + (seq!['\u{2191}'] + decimal(above))
        };
        assert(title =~= front + part + seq![' ']);
        a_part_is_shown(front, part, seq![' ']);
    }
    assert(head + Seq::<char>::empty() =~= head);
}

// --- windows ---

/// Each pane is drawn at its place. The focused one, while the focus is in the panes, has the bold
/// border of the focus, and no other has; the cells of the selection are marked in its own pane
/// alone; and what is shown of a terminal is its own screen.
pub proof fn panes_are_drawn_in_place(v: AppView, area: Rect, i: int)
    requires
        0 <= i < v.tree.layout(area).len(),
    ensures
        ({
            let p = v.tree.layout(area)[i];
            let f = v.pane_frames(area)[i];
            &&& v.pane_frames(area).len() == v.tree.layout(area).len()
            &&& f.rect == p.rect
            &&& f.border.bold == (p.focused && v.focus == Focus::Panes)
            &&& p.focused && v.focus == Focus::Panes ==> f.border.fg == Some(v.theme.focus)
            &&& v.selection is Some && p.payload == Some((v.selection->0).terminal) ==> f.highlight
                == highlighted(v.selection->0)
            &&& v.selection is None || p.payload != Some((v.selection->0).terminal)
                ==> f.highlight.len() == 0
            &&& p.payload matches Some(t) ==> f.content == if v.screen_for(t) is Some {
                Content::Screen(t)
            } else {
                Content::Waiting
            }
            &&& p.payload is None ==> f.content == Content::Waiting
        }),
{
}

/// The title of a pane names the branch of the agent that it belongs to: after the agent's glyph, in
/// the colour of its state, for the agent's own terminal; as a shell, in the colour of shells, for any
/// other. A pane that is scrolled back says how far.
pub proof fn panes_are_titled_by_their_agent(
    v: AppView,
    p: Placement<TerminalId>,
    t: TerminalId,
    k: int,
)
    requires
        p.payload == Some(t),
        0 <= k < v.agents.len(),
        lookup(v.terminals, t) == Some(v.agents[k].id),
        forall|m: int| k < m < v.agents.len() ==> (#[trigger] v.agents[m]).id != v.agents[k].id,
    ensures
        ({
            let f = v.pane_frame(p);
            let a = v.agents[k];
            let branch = match a.branch {
                Some(b) => b@,
                None => "HEAD"@,
            };
            let back = if v.scroll is Some && (v.scroll->0).terminal == t {
                seq!['\u{2191}'] + decimal((v.scroll->0).offset as nat) + seq![' ']
            } else {
                Seq::empty()
            };
            &&& a.primary_terminal == t ==> f.title == seq![' ', a.glyph, ' '] + branch + seq![' ']
                + back
            &&& a.primary_terminal != t ==> f.title == " sh \u{b7} "@ + branch + seq![' '] + back
            &&& !(p.focused && v.focus == Focus::Panes) ==> f.border.fg == Some(
                if a.primary_terminal == t {
                    state_color(a.state)
                } else {
                    v.theme.shell
                },
            )
        }),
{
    the_last_agent_is_found(v.agents, k, v.agents.len() as int);
}

/// A mini is drawn in its own window, under the glyph and the branch of its agent; the focused one,
/// and no other, has the border of the focus. A shrunk one shows its status and no screen, any other
/// the screen of its agent's terminal.
pub proof fn minis_are_drawn_in_place(v: AppView, band: Rect, i: int, k: int)
    requires
        0 <= i < v.minis.len() <= usize::MAX,
        0 <= k < v.agents.len(),
        v.minis[i] == v.agents[k].id,
        forall|m: int| k < m < v.agents.len() ==> (#[trigger] v.agents[m]).id != v.agents[k].id,
    ensures
        ({
            let f = v.mini_frames(band)[i];
            let a = v.agents[k];
            let branch = match a.branch {
                Some(b) => b@,
                None => "HEAD"@,
            };
            &&& v.mini_frames(band).len() == v.minis.len()
            &&& f.rect == v.mini_rects(band)[i]
            &&& f.title == seq![' ', a.glyph, ' '] + branch + seq![' ']
            &&& f.border.bold == (v.focus == Focus::Mini(i as usize))
            &&& v.minimized.contains(v.minis[i]) ==> f.window is None && f.status is Some && (
            f.status->0)[0].text == (if a.unread {
                seq!['\u{258c}']
            } else {
                seq![' ']
            })
            &&& !v.minimized.contains(v.minis[i]) ==> f.status is None && f.window == Some(
                v.content_for(v.mini_terminal(i)),
            )
        }),
{
    the_last_agent_is_found(v.agents, k, v.agents.len() as int);
}

/// The minis lie over the bottom of the main area, over no more than half of it and at most fourteen
/// rows; one column and one row are left free for their shadow. Hidden, or without any, they take no
/// room.
pub proof fn minis_lie_over_the_bottom(v: AppView)
    requires
        v.area.fits(),
        v.area.height >= 6,
        v.area.width >= 1,
    ensures
        v.minis.len() == 0 || v.minis_hidden ==> v.minis_band() is None,
        v.minis.len() > 0 && !v.minis_hidden ==> {
            &&& v.minis_band() matches Some(band) && band.x == v.area.x && band.width
                == v.area.width - 1 && band.y + band.height == v.area.y + v.area.height - 1
                && band.height <= 14 && 2 * band.height <= v.area.height && (band.height == 14 || 2
                * band.height + 2 > v.area.height)
        },
{
}

/// A mini takes half the band's width, but never less than forty-four columns nor more than eighty; a
/// shrunk one takes twelve.
pub proof fn minis_have_their_width(v: AppView, band: Rect, i: int)
    requires
        0 <= i < v.minis.len(),
        band.fits(),
        v.minis_total(band, v.minis.len() as int) <= band.width,
    ensures
        v.minimized.contains(v.minis[i]) ==> v.mini_rects(band)[i].width == 12,
        !v.minimized.contains(v.minis[i]) ==> {
            let w = v.mini_rects(band)[i].width;
            &&& 44 <= w <= 80
            &&& 88 <= band.width <= 160 ==> w == band.width / 2
            &&& band.width < 88 ==> w == 44
            &&& band.width > 160 ==> w == 80
        },
{
    minis_end_at_the_right_edge(v, band, i);
}

proof fn shadow_bounds(rects: Seq<Rect>, n: int, i: int)
    requires
        1 <= n <= rects.len(),
        0 <= i < n,
    ensures
        least_x(rects, n) <= rects[i].x,
        most_right(rects, n) >= rects[i].spec_right(),
        exists|k: int| 0 <= k < n && least_x(rects, n) == (#[trigger] rects[k]).x,
        exists|k: int| 0 <= k < n && most_right(rects, n) == (#[trigger] rects[k]).spec_right(),
    decreases n,
{
    if n > 1 {
        shadow_bounds(
            rects,
            n - 1,
            if i < n - 1 {
                i
            } else {
                0
            },
        );
        assert(least_x(rects, n) == least_x(rects, n - 1) || least_x(rects, n) == rects[n - 1].x);
        assert(most_right(rects, n) == most_right(rects, n - 1) || most_right(rects, n) == rects[n
            - 1].spec_right());
    } else {
        assert(rects[0].x == least_x(rects, n));
    }
}

/// The shadow runs along the whole group of minis: from its first column to the column behind its
/// last, below it.
pub proof fn the_shadow_spans_the_minis(rects: Seq<Rect>, band: Rect, i: int)
    requires
        0 <= i < rects.len(),
        band.fits(),
    ensures
        ({
            let s = shadow_of(rects, band)->0;
            &&& shadow_of(rects, band) is Some
            &&& s.left <= rects[i].x && rects[i].spec_right() <= s.right
            &&& exists|k: int| 0 <= k < rects.len() && s.left == (#[trigger] rects[k]).x
            &&& exists|k: int| 0 <= k < rects.len() && s.right == (#[trigger] rects[k]).spec_right()
            &&& s.top == band.y && s.bottom == band.y + band.height
        }),
{
    shadow_bounds(rects, rects.len() as int, i);
}

/// Minis that do not fit are cut at the right edge of the band: each has its full width, or reaches
/// to that edge with less. They begin at the left edge if together they are wider than the band.
pub proof fn minis_are_cut_at_the_right_edge(v: AppView, band: Rect, i: int)
    requires
        0 <= i < v.minis.len(),
        band.fits(),
    ensures
        ({
            let r = v.mini_rects(band)[i];
            let full = if v.minimized.contains(v.minis[i]) {
                12
            } else if band.width < 88 {
                44
            } else if band.width > 160 {
                80
            } else {
                band.width as int / 2
            };
            &&& r.width <= full
            &&& r.width < full ==> r.x + r.width == band.x + band.width
            &&& v.minis_total(band, v.minis.len() as int) >= band.width ==> v.mini_rects(band)[0].x
                == band.x
        }),
{
    minis_lie_side_by_side(v, band, i);
    minis_lie_side_by_side(v, band, 0);
    minis_stay_in_band(v, band, i);
}

} // verus!
