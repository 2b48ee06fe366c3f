use amux::base64::base64_encode;
use amux::client::{handshake_error, judge_hello, ConnectAction, ConnectState, FirstFrame, Handshake};
use amux::doctor::{
    amux_home, config_file, doctor_places, doctor_report, doctor_step, doctor_summary, DoctorStep,
};
use amux::frame::Line;
use amux::geometry::Rect;
use amux::ids::{AgentId, RepoId, TerminalId};
use amux::render::{BoxFrame, Content, MiniContent, PanesFrame};
use amux::sidebar::{
    clamp_top, digit_index, main_area, mini_width, overlay_digit, pane_size, recent_count,
    recent_ids, show_recent, sidebar_width, top_showing, Row, AGENT_UI_W_MIN, MAIN_W_MIN,
    MINI_W_MAX, MINI_W_MIN, RECENT_MAX, RECENT_MIN, SIDEBAR_W_FULL, SIDEBAR_W_MIN,
};
use amux::state::{App, Focus};
use amux::text::{cut_to, decimal_string, fit_to, join, repeated, strip_controls, trimmed};
use amux::theme::{Color, Profile, Theme};
use amux::time::{age_short, Moment};
use amux::wire::{AgentInfo, AgentState, AttentionKind, DaemonMsg, RepoInfo};
use std::hash::{BuildHasher, Hasher};

const NOW: Moment = Moment { secs: 1_700_000_000, nanos: 0 };

fn ago(secs: i64) -> Moment {
    Moment { secs: NOW.secs - secs, nanos: 0 }
}

fn random() -> u128 {
    let a = std::collections::hash_map::RandomState::new().build_hasher().finish();
    let b = std::collections::hash_map::RandomState::new().build_hasher().finish();
    ((a as u128) << 64) | b as u128
}

fn repo_id(path: &str) -> RepoId {
    RepoId(path.bytes().fold(7u128, |h, b| h * 131 + b as u128))
}

fn repo(path: &str, name: &str) -> RepoInfo {
    RepoInfo { id: repo_id(path), name: name.into(), path: path.into() }
}

fn new_app(cols: u16, rows: u16) -> App {
    let mut app = App::new(cols, rows);
    app.now = NOW;
    app
}

fn agent_with(state: AgentState, unread: bool) -> AgentInfo {
    AgentInfo {
        id: AgentId(random()),
        repo: repo_id("/r"),
        name: "a".into(),
        branch: Some("b".into()),
        state,
        glyph: '\u{25cb}',
        last_activity: NOW,
        last_opened: NOW,
        unread,
        primary_terminal: TerminalId(random()),
    }
}

fn app_with_agents(n: usize) -> (App, Vec<AgentId>) {
    let mut app = new_app(100, 40);
    app.repos = vec![repo("/r", "r")];
    app.agents = (0..n)
        .map(|i| {
            let mut a = agent_with(AgentState::Idle, false);
            a.last_opened = ago(i as i64);
            a
        })
        .collect();
    let ids = app.ordered_agent_ids();
    (app, ids)
}

fn app_with_two_repos(a: usize, b: usize) -> (App, Vec<AgentId>) {
    let mut app = new_app(100, 40);
    app.repos = vec![repo("/r", "r"), repo("/z", "z")];
    app.agents = (0..(a + b))
        .map(|i| {
            let mut agent = agent_with(AgentState::Idle, false);
            agent.name = format!("agent{i:02}");
            agent.repo = if i < a { repo_id("/r") } else { repo_id("/z") };
            agent.last_opened = ago(6 * 3600 * i as i64);
            agent
        })
        .collect();
    let ids = app.ordered_agent_ids();
    (app, ids)
}

fn line_text(line: &Line) -> String {
    line.spans.iter().map(|s| s.text.as_str()).collect()
}

/// The text of a box: its title, and its lines cut at its inner width.
fn box_text(b: &BoxFrame, width: u16) -> String {
    let mut out = b.title.clone();
    for l in &b.lines {
        let text: String = line_text(l).chars().take(width.saturating_sub(2) as usize).collect();
        out.push('\n');
        out.push_str(&text);
    }
    out
}

fn drawn(app: &App, width: u16, height: u16) -> String {
    let area = Rect::new(0, 0, width, height);
    box_text(&app.render_sidebar(area), width)
}

#[test]
fn base64_matches_known_vectors() {
    assert_eq!(base64_encode(b""), "");
    assert_eq!(base64_encode(b"f"), "Zg==");
    assert_eq!(base64_encode(b"fo"), "Zm8=");
    assert_eq!(base64_encode(b"foo"), "Zm9v");
    assert_eq!(base64_encode(b"hello"), "aGVsbG8=");
}

#[test]
fn base64_covers_its_alphabet() {
    let bytes: Vec<u8> = (0..16u8)
        .flat_map(|i| {
            let n = 4 * i as u32;
            let v = (n << 18) | ((n + 1) << 12) | ((n + 2) << 6) | (n + 3);
            [(v >> 16) as u8, (v >> 8) as u8, v as u8]
        })
        .collect();
    assert_eq!(
        base64_encode(&bytes),
        "ABCDEFGHIJKLMNOPQRSTUVWXYZabcdefghijklmnopqrstuvwxyz0123456789+/"
    );
}

#[test]
fn age_short_buckets() {
    assert_eq!(age_short(NOW, NOW), "0s");
    assert_eq!(age_short(NOW, ago(45)), "45s");
    assert_eq!(age_short(NOW, ago(12 * 60)), "12m");
    assert_eq!(age_short(NOW, ago(3 * 3600)), "3h");
    assert_eq!(age_short(NOW, ago(2 * 86400)), "2d");
}

#[test]
fn ages_change_unit_at_the_boundary() {
    for (secs, want) in [
        (59, "59s"),
        (60, "1m"),
        (3599, "59m"),
        (3600, "1h"),
        (86399, "23h"),
        (86400, "1d"),
        (-30, "0s"),
    ] {
        assert_eq!(age_short(NOW, ago(secs)), want);
    }
    // A second that is not over does not count.
    let half = Moment { secs: NOW.secs - 1, nanos: 500_000_000 };
    assert_eq!(age_short(NOW, half), "0s");
}

#[test]
fn sidebar_shows_last_opened_age() {
    let mut app = new_app(100, 40);
    app.repos = vec![repo("/r", "r")];
    let mut agent = agent_with(AgentState::Idle, false);
    agent.last_opened = ago(5 * 60);
    app.agents = vec![agent];
    let content = drawn(&app, 30, 8);
    assert!(content.contains("5m"), "age column renders, got: {content}");
}

#[test]
fn sidebar_shows_head_session_label() {
    let mut app = new_app(100, 40);
    app.repos = vec![repo("/r", "r")];
    let mut agent = agent_with(AgentState::Idle, false);
    agent.name = "HEAD".into();
    agent.branch = None;
    app.agents = vec![agent];
    let content = drawn(&app, 30, 8);
    assert!(content.contains("HEAD"), "HEAD session label renders, got: {content}");
}

#[test]
fn sidebar_border_uses_the_profile_focus_color() {
    let mut app = new_app(24, 6);
    app.theme = Theme::for_profile(Profile::Green);
    let fg = app.render_sidebar(Rect::new(0, 0, 24, 6)).border.fg;
    assert_eq!(
        fg,
        Some(Color::LightGreen),
        "the focused sidebar border should use the profile's focus color"
    );
}

#[test]
fn sidebar_width_minimizes_when_narrow() {
    let boundary = SIDEBAR_W_FULL + MAIN_W_MIN;
    assert_eq!(sidebar_width(boundary - 1), SIDEBAR_W_MIN);
    assert_eq!(sidebar_width(boundary), SIDEBAR_W_FULL);
    assert_eq!(sidebar_width(200), SIDEBAR_W_FULL);
}

#[test]
fn a_full_sidebar_never_squeezes_the_pane_below_a_usable_width() {
    for cols in 40u16..=220 {
        let pty = pane_size(main_area(cols, 40));
        if sidebar_width(cols) == SIDEBAR_W_FULL {
            assert!(
                pty.cols >= AGENT_UI_W_MIN,
                "{cols}-column terminal keeps the full sidebar but leaves the pane {} columns",
                pty.cols
            );
        }
    }
    assert_eq!(
        sidebar_width(80),
        SIDEBAR_W_MIN,
        "an 80-column terminal spends its width on the pane, not the sidebar"
    );
    assert!(
        pane_size(main_area(80, 24)).cols >= AGENT_UI_W_MIN,
        "…and that leaves the pane a usable width"
    );
}

#[test]
fn mini_width_scales_between_floor_and_cap() {
    assert_eq!(mini_width(50), MINI_W_MIN, "narrow → floor (half of 50 = 25 < 44)");
    assert_eq!(mini_width(88), MINI_W_MIN, "exactly at the floor boundary (44)");
    assert_eq!(mini_width(120), 60, "mid-range → half the available width");
    assert_eq!(mini_width(200), MINI_W_MAX, "wide → cap (half of 200 = 100 > 80)");
    assert_eq!(mini_width(160), MINI_W_MAX, "exactly at the cap boundary (80)");
}

#[test]
fn minimized_sidebar_truncates_names_and_drops_age() {
    let mut app = new_app(100, 40);
    app.repos = vec![repo("/r", "r")];
    let mut agent = agent_with(AgentState::Idle, false);
    agent.name = "apiserver".into();
    agent.last_opened = ago(5 * 60);
    app.agents = vec![agent];
    let content = drawn(&app, SIDEBAR_W_MIN, 8);
    assert!(content.contains("apis"), "a few name chars render, got: {content}");
    assert!(
        !content.contains("apiserver"),
        "the full name must be truncated on the rail, got: {content}"
    );
    assert!(
        !content.contains("5m"),
        "the age column is dropped on the rail, got: {content}"
    );
}

#[test]
fn clamp_top_never_scrolls_past_the_last_row() {
    let cases = [
        (0usize, 30usize, 10usize, 0usize),
        (5, 30, 10, 5),
        (25, 30, 10, 20),
        (99, 30, 10, 20),
        (5, 8, 10, 0),
        (5, 0, 10, 0),
        (5, 30, 0, 5),
    ];
    for (top, len, height, want) in cases {
        assert_eq!(clamp_top(top, len, height), want, "clamp_top({top}, {len}, {height})");
    }
}

#[test]
fn top_showing_pulls_the_view_the_minimum_distance() {
    let cases = [
        (0usize, 3usize, 10usize, 0usize),
        (0, 9, 10, 0),
        (0, 10, 10, 1),
        (0, 29, 10, 20),
        (20, 4, 10, 4),
        (20, 20, 10, 20),
        (7, 0, 10, 0),
        (0, 5, 0, 5),
    ];
    for (top, sel, height, want) in cases {
        assert_eq!(top_showing(top, sel, height), want, "top_showing({top}, {sel}, {height})");
    }
}

#[test]
fn a_short_sidebar_renders_the_selection_and_says_what_is_hidden() {
    let mut app = new_app(100, 12);
    app.repos = vec![repo("/r", "r")];
    app.agents = (0..30)
        .map(|i| {
            let mut a = agent_with(AgentState::Idle, false);
            a.name = format!("agent{i:02}");
            a.last_opened = ago(i);
            a
        })
        .collect();
    let ids = app.ordered_agent_ids();
    app.sidebar_sel = Some(Row::Agent(ids[25]));
    app.scroll_sel_into_view();

    let content = drawn(&app, SIDEBAR_W_FULL, 12);
    assert!(
        content.contains("agent25"),
        "the selected agent must be on screen, got: {content}"
    );
    assert!(
        !content.contains("agent00"),
        "the top of the list has scrolled off, got: {content}"
    );
    assert!(
        content.contains('\u{2191}'),
        "the title reports the rows hidden above, got: {content}"
    );
}

#[test]
fn a_selected_row_is_on_screen_even_below_an_attention_message() {
    let mut app = new_app(100, 12);
    app.repos = vec![repo("/r", "r")];
    app.agents = (0..30)
        .map(|i| {
            let mut a = agent_with(
                if i % 4 == 0 {
                    AgentState::NeedsAttention {
                        kind: AttentionKind::Permission,
                        message: Some(format!("waiting {i:02}")),
                    }
                } else {
                    AgentState::Idle
                },
                false,
            );
            a.name = format!("agent{i:02}");
            a.last_opened = ago(i);
            a
        })
        .collect();
    let ids = app.ordered_agent_ids();
    app.sidebar_sel = Some(Row::Agent(ids[14]));
    app.scroll_sel_into_view();

    let name = app
        .agents
        .iter()
        .find(|a| a.id == ids[14])
        .map(|a| a.name.clone())
        .unwrap();
    let content = drawn(&app, SIDEBAR_W_FULL, 12);
    assert!(
        content.contains(&name),
        "the selected row {name} must be visible, got: {content}"
    );
}

#[test]
fn recent_count_unions_the_floor_and_the_window() {
    let cases: &[(&[i64], usize)] = &[
        (&[48, 50, 52, 54, 56, 58, 60], RECENT_MIN),
        (&[48, 50], 2),
        (&[1, 2, 3, 4, 5, 6, 7, 8, 40, 44], 8),
        (&[1, 2, 3, 4, 5, 90], RECENT_MIN),
        (&[1, 23, 25, 30, 40, 50, 60], RECENT_MIN),
        (&[1, 1, 2, 2, 3, 3, 4, 4, 5, 5, 6, 6, 7, 7], RECENT_MAX),
        (&[1, 2, 3, 4, 5, 6, 7, 8, 9, 10], RECENT_MAX),
        (&[1, 2, 3, 4, 5, 6, 7, 8, 9], 9),
        (&[] as &[i64], 0),
    ];
    for (ages, want) in cases {
        let agents: Vec<AgentInfo> = ages
            .iter()
            .map(|&h| {
                let mut a = agent_with(AgentState::Idle, false);
                a.last_opened = ago(h * 3600);
                a
            })
            .collect();
        assert_eq!(recent_count(&agents, NOW), *want, "recent_count for ages {ages:?}");
    }
}

#[test]
fn the_window_ends_exactly_after_a_day() {
    let at = |secs: i64, nanos: u32| {
        let mut a = agent_with(AgentState::Idle, false);
        a.last_opened = Moment { secs: NOW.secs - secs, nanos };
        a
    };
    let mut agents: Vec<AgentInfo> = (0..5).map(|_| at(1, 0)).collect();
    agents.extend((0..3).map(|_| at(100_000, 0)));
    assert_eq!(recent_count(&agents, NOW), 5);
    agents.push(at(86_400, 0));
    assert_eq!(recent_count(&agents, NOW), 5, "a full day ago is outside");
    agents.push(at(86_400, 1));
    assert_eq!(recent_count(&agents, NOW), 6, "a nanosecond less is inside");
}

#[test]
fn recent_ids_take_the_newest_of_the_union() {
    let mut agents: Vec<AgentInfo> = (0..8)
        .map(|i| {
            let mut a = agent_with(AgentState::Idle, false);
            a.name = format!("a{i}");
            a.last_opened = if i < 3 { ago((i + 1) * 3600) } else { ago(i * 86400) };
            a
        })
        .collect();
    agents.reverse();
    let names: Vec<String> = recent_ids(&agents, NOW)
        .into_iter()
        .map(|id| agents.iter().find(|a| a.id == id).map(|a| a.name.clone()).unwrap())
        .collect();
    assert_eq!(
        names,
        vec!["a0", "a1", "a2", "a3", "a4"],
        "three inside the window, then the floor tops it up to {RECENT_MIN}"
    );
}

#[test]
fn recent_ids_are_global_mru() {
    let mut agents: Vec<AgentInfo> = (0..5)
        .map(|i| {
            let mut a = agent_with(AgentState::Idle, false);
            a.name = format!("a{i}");
            a.repo = if i % 2 == 0 { repo_id("/a") } else { repo_id("/b") };
            a.last_opened = ago(60 * i);
            a
        })
        .collect();
    agents[4].state =
        AgentState::NeedsAttention { kind: AttentionKind::Permission, message: None };
    let names = |ids: Vec<AgentId>| -> Vec<String> {
        ids.into_iter()
            .map(|id| agents.iter().find(|a| a.id == id).map(|a| a.name.clone()).unwrap())
            .collect()
    };
    assert_eq!(
        names(recent_ids(&agents, NOW)),
        vec!["a0", "a1", "a2", "a3", "a4"],
        "strict MRU: the long-idle blocked agent stays last"
    );
    assert!(recent_ids(&vec![], NOW).is_empty());
}

#[test]
fn activity_breaks_ties_of_recency() {
    let mut agents: Vec<AgentInfo> = (0..3).map(|_| agent_with(AgentState::Idle, false)).collect();
    agents[0].last_activity = ago(20);
    agents[1].last_activity = ago(10);
    agents[2].last_activity = ago(20);
    let ids: Vec<AgentId> = agents.iter().map(|a| a.id).collect();
    assert_eq!(recent_ids(&agents, NOW), vec![ids[1], ids[0], ids[2]]);
}

#[test]
fn show_recent_only_when_it_earns_its_rows() {
    let cases = [
        (2usize, 8usize, 5usize, 20usize, false, true),
        (1, 8, 5, 20, false, false),
        (2, 5, 5, 20, false, false),
        (2, 20, 20, 40, false, false),
        (2, 6, 5, 20, false, true),
        (2, 8, 5, 11, false, false),
        (2, 8, 5, 12, false, true),
        (2, 30, RECENT_MAX, 16, false, false),
        (2, 30, RECENT_MAX, 17, false, true),
        (2, 8, 5, 20, true, false),
    ];
    for (repos, agents, recent, height, minimized, want) in cases {
        assert_eq!(
            show_recent(repos, agents, recent, height, minimized),
            want,
            "show_recent({repos}, {agents}, {recent}, {height}, {minimized})"
        );
    }
}

#[test]
fn the_recent_block_leads_the_sidebar() {
    let (app, _ids) = app_with_two_repos(4, 4);
    let rows = app.sidebar_rows();
    let n = recent_ids(&app.agents, NOW).len();
    assert_eq!(n, RECENT_MIN, "four inside the window, floored up to five");
    let kinds: Vec<&str> = rows
        .iter()
        .take(n + 2)
        .map(|r| match r {
            Row::RecentHeader => "header",
            Row::Recent(_) => "recent",
            Row::Divider => "divider",
            Row::Repo(_) => "repo",
            _ => "other",
        })
        .collect();
    let mut want = vec!["header"];
    want.extend(vec!["recent"; n]);
    want.push("divider");
    assert_eq!(kinds, want, "rows were {rows:?}");
    assert!(matches!(rows[n + 2], Row::Repo(_)), "then the first repo group");
    assert!(
        rows.iter().any(|r| matches!(r, Row::Agent(_))),
        "the grouped roster is still there in full"
    );
    assert!(
        !Row::RecentHeader.selectable() && !Row::Divider.selectable(),
        "the block's chrome is not a cursor stop"
    );
}

#[test]
fn the_recent_block_renders_qualified_names() {
    let (app, _ids) = app_with_two_repos(4, 4);
    let content = drawn(&app, SIDEBAR_W_FULL, 24);
    assert!(content.contains("recent"), "the block's header, got: {content}");
    assert!(
        content.contains("r/agent") || content.contains("z/agent"),
        "recent rows name the repo, got: {content}"
    );

    let (single, _) = app_with_agents(8);
    let content = drawn(&single, SIDEBAR_W_FULL, 24);
    assert!(
        !content.contains("recent"),
        "one repo is already MRU — no block, got: {content}"
    );
}

#[test]
fn overlay_digit_and_digit_index_round_trip() {
    assert_eq!(overlay_digit(0), Some('1'));
    assert_eq!(overlay_digit(8), Some('9'));
    assert_eq!(overlay_digit(9), Some('0'));
    assert_eq!(overlay_digit(10), None);
    for i in 0..10 {
        let d = overlay_digit(i).unwrap();
        assert_eq!(digit_index(d), Some(i), "digit {d} maps back to index {i}");
    }
    assert_eq!(digit_index('a'), None);
}

#[test]
fn overlay_marks_previous_agent_with_dash() {
    let (mut app, ids) = app_with_agents(3);
    let _ = app.swap_to_agent(ids[0]);
    let _ = app.swap_to_agent(ids[1]);
    assert!(!drawn(&app, 30, 8).contains(" - "), "no marker while the overlay is off");
    app.super_held = true;
    assert!(
        drawn(&app, 30, 8).contains(" - "),
        "the previous agent's row is marked with - while the overlay is active"
    );
}

#[test]
fn overlay_covers_status_glyph_with_digit() {
    let (mut app, _ids) = app_with_agents(1);
    let glyph = app.agents[0].glyph;
    let off = drawn(&app, 30, 8);
    assert!(off.contains(glyph), "glyph shows when the overlay is off");

    app.super_held = true;
    let on = drawn(&app, 30, 8);
    assert!(
        !on.contains(glyph),
        "the digit covers the status glyph while the overlay is active"
    );
    assert!(
        on.matches('1').count() > off.matches('1').count(),
        "the shortcut digit renders in the overlay"
    );
}

// --- exact lines ---

#[test]
fn an_agent_line_has_its_columns() {
    let (mut app, ids) = app_with_agents(2);
    app.sidebar_sel = Some(Row::Agent(ids[0]));
    app.agents[0].unread = true;
    app.agents[0].name = "a very long name that does not fit".into();
    app.agents[0].last_opened = ago(125);
    app.agents[1].last_opened = ago(125);
    app.active_agent = Some(ids[1]);
    let b = app.render_sidebar(Rect::new(0, 0, 30, 10));
    assert_eq!(b.title, " agents · 1 unread ");
    let lines: Vec<String> = b.lines.iter().map(line_text).collect();
    assert_eq!(lines[0], "  \u{25be} r (2)");
    assert_eq!(lines[1], "\u{25b8}\u{258c} \u{25cb}  a very long name th 2m");
    assert_eq!(lines[2], "   \u{25cb} *a                   2m");
    assert_eq!(lines.len(), 3);
    assert!(lines[1..].iter().all(|l| l.chars().count() == 28));
    let name = &b.lines[1].spans[4];
    assert!(name.style.bold && !b.lines[2].spans[4].style.bold);
    assert_eq!(b.lines[2].spans[2].style.fg, Some(Color::Gray));
    assert_eq!(b.lines[2].spans[5].style.fg, Some(Color::DarkGray));
}

#[test]
fn the_rail_has_room_for_little() {
    let (mut app, ids) = app_with_agents(3);
    app.area = main_area(80, 6);
    app.agents[0].unread = true;
    app.repos[0].name = "repository".into();
    app.agents[0].name = "apiserver".into();
    app.sidebar_sel = Some(Row::Repo(repo_id("/r")));
    let b = app.render_sidebar(Rect::new(0, 0, 12, 5));
    assert_eq!(b.title, " 1 \u{2193}");
    let lines: Vec<String> = b.lines.iter().map(line_text).collect();
    assert_eq!(
        lines,
        vec!["\u{25b8}\u{25be} reposi".to_string(), " \u{258c} \u{25cb} apise".into(), "   \u{25cb} a    ".into()]
    );
    assert!(b.lines[0].spans[1].style.reversed);
    app.sidebar_sel = Some(Row::Agent(ids[2]));
    app.scroll_sel_into_view();
    app.agents[0].unread = false;
    assert_eq!(app.render_sidebar(Rect::new(0, 0, 12, 5)).title, "\u{2191}");
}

#[test]
fn hidden_rows_are_counted_both_ways() {
    let (mut app, _ids) = app_with_agents(30);
    app.sidebar_top = 4;
    let b = app.render_sidebar(Rect::new(0, 0, 30, 12));
    assert_eq!(b.title, " agents \u{2191}4\u{2193}17 ");
    assert_eq!(b.lines.len(), 10);
    app.sidebar_top = 99;
    assert_eq!(app.render_sidebar(Rect::new(0, 0, 30, 12)).title, " agents \u{2191}21 ");
    app.sidebar_top = 0;
    assert_eq!(app.render_sidebar(Rect::new(0, 0, 30, 12)).title, " agents \u{2193}21 ");
}

#[test]
fn empty_sidebars_say_so() {
    let mut app = new_app(100, 40);
    let b = app.render_sidebar(Rect::new(0, 0, 30, 12));
    assert_eq!(b.lines.iter().map(line_text).collect::<Vec<_>>(), vec![" no repos yet…"]);
    app.repos = vec![repo("/r", "r")];
    let b = app.render_sidebar(Rect::new(0, 0, 30, 12));
    assert_eq!(
        b.lines.iter().map(line_text).collect::<Vec<_>>(),
        vec!["  \u{25be} r (0)", "      no agents — press n"]
    );
    app.focus = Focus::Panes;
    assert_eq!(
        app.render_sidebar(Rect::new(0, 0, 30, 12)).border.fg,
        Some(Color::DarkGray)
    );
}

#[test]
fn a_waiting_agent_shows_its_message() {
    let (mut app, ids) = app_with_agents(2);
    app.agents[1].state = AgentState::NeedsAttention {
        kind: AttentionKind::Question,
        message: Some("which one?".into()),
    };
    let rows = app.sidebar_rows();
    assert_eq!(
        rows,
        vec![
            Row::Repo(repo_id("/r")),
            Row::Agent(ids[1]),
            Row::Attention(ids[1]),
            Row::Agent(ids[0]),
        ],
        "the waiting agent comes first"
    );
    let b = app.render_sidebar(Rect::new(0, 0, 30, 12));
    assert_eq!(line_text(&b.lines[2]), "       which one?");
    assert!(b.lines[2].spans[0].style.dim);
}

#[test]
fn repos_are_listed_by_name() {
    let mut app = new_app(100, 40);
    app.repos = vec![repo("/3", "zeta"), repo("/2", "alpha"), repo("/1", "alpha"), repo("/4", "Zeta")];
    let order: Vec<Row> = app
        .sidebar_rows()
        .into_iter()
        .filter(|r| matches!(r, Row::Repo(_)))
        .collect();
    assert_eq!(
        order,
        vec![
            Row::Repo(repo_id("/4")),
            Row::Repo(repo_id("/1")),
            Row::Repo(repo_id("/2")),
            Row::Repo(repo_id("/3")),
        ]
    );
}

#[test]
fn the_recent_block_has_a_header_and_a_rule() {
    let (app, _ids) = app_with_two_repos(4, 4);
    let b = app.render_sidebar(Rect::new(0, 0, 30, 24));
    assert_eq!(line_text(&b.lines[0]), "  \u{25be} recent (5)");
    assert_eq!(line_text(&b.lines[1]), "   \u{25cb}  r/agent00           0s");
    let rule: String = "\u{2500}".repeat(26);
    assert_eq!(line_text(&b.lines[6]), format!(" {rule} "));
}

// --- windows ---

#[test]
fn panes_are_drawn_with_their_titles() {
    let (mut app, ids) = app_with_agents(2);
    match app.render_panes(Rect::new(0, 0, 60, 10)) {
        PanesFrame::Empty(b) => {
            assert_eq!(b.title, " no panes ");
            assert_eq!(line_text(&b.lines[1]), "  Select an agent (Enter) to open it here.");
        }
        PanesFrame::Tiled(_) => panic!("no panes expected"),
    }
    app.fresh = vec![TerminalId(1)];
    app.activate(ids[0]);
    app.split(amux::geometry::Axis::LeftRight);
    app.on_scroll_view(TerminalId(1), 4, 9, b"x");
    let area = app.area;
    let PanesFrame::Tiled(frames) = app.render_panes(area) else {
        panic!("panes expected")
    };
    assert_eq!(frames[0].title, " \u{25cb} b ");
    assert_eq!(frames[1].title, " sh \u{b7} b \u{2191}4 ");
    assert_eq!(frames[0].border.fg, Some(Color::Gray));
    assert_eq!(frames[1].border.fg, Some(Color::Cyan));
    assert!(frames[1].border.bold);
    assert_eq!(frames[1].content, Content::Screen(TerminalId(1)));
    app.focus = Focus::Sidebar;
    let PanesFrame::Tiled(frames) = app.render_panes(area) else {
        panic!("panes expected")
    };
    assert_eq!(frames[1].border.fg, Some(Color::Blue), "a shell in the secondary colour");
    app.tree.split(amux::geometry::Axis::TopBottom);
    let PanesFrame::Tiled(frames) = app.render_panes(area) else {
        panic!("panes expected")
    };
    assert_eq!(frames[2].title, " empty ");
    assert_eq!(frames[2].content, Content::Waiting);
}

#[test]
fn minis_are_drawn_with_a_shadow() {
    let (mut app, ids) = app_with_agents(3);
    app.open_mini(ids[0]);
    app.open_mini(ids[1]);
    app.minimized = vec![ids[0]];
    app.agents.iter_mut().find(|a| a.id == ids[0]).unwrap().unread = true;
    let band = app.regions().1.unwrap();
    assert_eq!(band, Rect::new(30, 24, 69, 14));
    let f = app.render_minis(band);
    let s = f.shadow.unwrap();
    assert_eq!((s.left, s.right, s.top, s.bottom), (43, 99, 24, 38));
    assert_eq!(f.minis[0].rect, Rect::new(43, 24, 12, 14));
    assert_eq!(f.minis[1].rect, Rect::new(55, 24, 44, 14));
    assert_eq!(f.minis[1].title, " \u{25cb} b ");
    assert_eq!(f.minis[1].border.fg, Some(Color::Cyan));
    match &f.minis[0].content {
        MiniContent::Status(l) => assert_eq!(line_text(l), "\u{258c} \u{25cb}"),
        MiniContent::Window(_) => panic!("a minimized mini shows its status"),
    }
    match &f.minis[1].content {
        MiniContent::Window(c) => {
            assert_eq!(*c, Content::Screen(app.mini_terminal(1).unwrap()))
        }
        MiniContent::Status(_) => panic!("a window expected"),
    }
}

#[test]
fn the_status_line_says_what_keys_do() {
    let mut app = new_app(100, 40);
    assert!(app.render_status().text.starts_with(" n new \u{b7} enter open"));
    app.focus = Focus::Panes;
    assert!(app.render_status().text.starts_with(" ctrl+hjkl move"));
    app.focus = Focus::Mini(0);
    assert!(app.render_status().text.starts_with(" mini \u{b7} ctrl+hjkl"));
    app.info = "done".into();
    let s = app.render_status();
    assert_eq!(s.text, " \u{2713} done \u{b7} (press any key to dismiss)");
    assert_eq!((s.style.fg, s.style.bg), (Some(Color::Black), Some(Color::Green)));
    app.prefix = true;
    assert!(app.render_status().text.starts_with(" Ctrl+B — % / \" split"));
    assert_eq!(app.render_status().style.bg, Some(Color::Cyan));
    app.resize_mode = true;
    assert_eq!(
        app.render_status().text,
        " RESIZE — hjkl nudge \u{b7} HJKL snap \u{b7} esc done"
    );
    assert_eq!(app.render_status().style.bg, Some(Color::Yellow));
}

// --- reports and the handshake ---

#[test]
fn doctor_reports_are_worded() {
    assert_eq!(
        doctor_summary(&vec![], &vec![]),
        "doctor: no orphaned worktrees — nothing to prune"
    );
    let pruned = vec!["x".to_string(), "y".to_string()];
    let skipped = vec![("z".to_string(), 3usize)];
    assert_eq!(
        doctor_summary(&pruned, &skipped),
        "doctor: pruned 2 (x, y) · skipped 1 (z: 3 uncommitted)"
    );
    assert_eq!(doctor_summary(&vec![], &skipped), "doctor: skipped 1 (z: 3 uncommitted)");
    assert_eq!(
        doctor_report(&pruned, &vec![("z".to_string(), 1), ("w".to_string(), 12)]),
        vec![
            "pruned   x",
            "pruned   y",
            "skipped  z  (1 uncommitted change)",
            "skipped  w  (12 uncommitted changes)",
            "",
            "2 pruned, 2 skipped.",
        ]
    );
    assert_eq!(
        doctor_report(&vec![], &vec![]),
        vec!["No orphaned worktrees — nothing to prune."]
    );
}

#[test]
fn the_doctor_waits_for_its_own_report() {
    let report = |r: &str| DaemonMsg::DoctorReport {
        repo: repo_id(r),
        pruned: vec!["x".into()],
        skipped: vec![],
    };
    let step = |msg| doctor_step(repo_id("/r"), msg, &Some("/c/amux/config.toml".into()), "/data");
    match step(report("/r")) {
        DoctorStep::Report(lines) => assert_eq!(
            lines,
            vec![
                "pruned   x",
                "",
                "1 pruned, 0 skipped.",
                "",
                "config   /c/amux/config.toml",
                "home     /data",
            ]
        ),
        _ => panic!("a report expected"),
    }
    assert!(matches!(step(report("/q")), DoctorStep::Wait));
    assert!(matches!(step(DaemonMsg::Active(None)), DoctorStep::Wait));
    match step(DaemonMsg::Error { message: "no".into() }) {
        DoctorStep::Fail(m) => assert_eq!(m, "no"),
        _ => panic!("a failure expected"),
    }
}

#[test]
fn the_doctor_tells_where_things_are() {
    let home = Some("/home/me".to_string());
    assert_eq!(config_file(&Some("/x".into()), &home), "/x/amux/config.toml");
    assert_eq!(config_file(&Some("".into()), &home), "/home/me/.config/amux/config.toml");
    assert_eq!(config_file(&None, &home), "/home/me/.config/amux/config.toml");
    assert_eq!(amux_home(&None, &home), "/home/me/.amux");
    assert_eq!(amux_home(&Some("~/somewhere-else/.amux".into()), &home), "/home/me/somewhere-else/.amux");
    assert_eq!(amux_home(&Some("/big/disk".into()), &home), "/big/disk");
    assert_eq!(
        doctor_places(&None, "/home/me/.amux"),
        vec!["", "config   none", "home     /home/me/.amux"]
    );
}

#[test]
fn the_first_frame_is_judged() {
    let hello = |v| FirstFrame::Message(DaemonMsg::Hello { proto_version: v });
    assert_eq!(judge_hello(3, hello(3)), Handshake::Ready);
    assert_eq!(judge_hello(3, hello(2)), Handshake::WrongVersion { theirs: 2, ours: 3 });
    let rejected =
        judge_hello(3, FirstFrame::Message(DaemonMsg::Error { message: "old".into() }));
    assert_eq!(rejected, Handshake::Rejected("old".into()));
    assert_eq!(
        handshake_error(&rejected).as_deref(),
        Some("daemon rejected connection: old")
    );
    let odd = judge_hello(3, FirstFrame::Message(DaemonMsg::Minis(vec![])));
    assert_eq!(odd, Handshake::Unexpected);
    assert_eq!(
        handshake_error(&odd).as_deref(),
        Some("unexpected first frame from daemon: ")
    );
    assert_eq!(judge_hello(3, FirstFrame::Unreadable), Handshake::Unreadable);
    assert_eq!(judge_hello(3, FirstFrame::Closed), Handshake::Closed);
    assert_eq!(
        handshake_error(&Handshake::Closed).as_deref(),
        Some("daemon closed the connection during handshake")
    );
    assert_eq!(handshake_error(&Handshake::Ready), None);
}

#[test]
fn a_running_daemon_is_reused_and_a_new_one_gets_time() {
    assert_eq!(ConnectState::Start.action(), ConnectAction::Handshake);
    assert_eq!(ConnectState::Start.next(true), ConnectState::Connected);
    let mut s = ConnectState::Start.next(false);
    assert_eq!(s.action(), ConnectAction::Spawn);
    assert_eq!(s.next(false), ConnectState::Failed);
    s = s.next(true);
    let mut tries = 0;
    while s.action() == (ConnectAction::WaitAndHandshake { millis: 20 }) {
        tries += 1;
        assert_eq!(s.next(true), ConnectState::Connected);
        s = s.next(false);
    }
    assert_eq!(tries, 100);
    assert_eq!(s.action(), ConnectAction::GiveUp);
}

// --- text ---

#[test]
fn text_is_cut_padded_and_joined() {
    assert_eq!(fit_to("añb", 2), "añ");
    assert_eq!(fit_to("ab", 4), "ab  ");
    assert_eq!(cut_to("漢字x", 2), "漢字");
    assert_eq!(repeated('\u{2500}', 3), "\u{2500}\u{2500}\u{2500}");
    assert_eq!(join(&vec!["a".into(), "b".into(), "c".into()], ", "), "a, b, c");
    assert_eq!(join(&vec![], ", "), "");
    assert_eq!(decimal_string(0), "0");
    assert_eq!(decimal_string(u64::MAX), u64::MAX.to_string());
    assert_eq!(strip_controls("a\u{85}b\tc"), "abc");
}

#[test]
fn trimming_and_classes_agree_with_the_standard_library() {
    for s in ["", "  ", " a b ", "\u{3000}x\u{a0}", "\t\n\u{b}\u{c}\r x\u{85}\u{2028}", "x\u{200b}"] {
        assert_eq!(trimmed(s), s.trim(), "{s:?}");
    }
    for n in 0..=0x10ffffu32 {
        if let Some(c) = char::from_u32(n) {
            assert_eq!(amux::text::is_whitespace(c), c.is_whitespace(), "{n:x}");
            assert_eq!(amux::text::is_control(c), c.is_control(), "{n:x}");
        }
    }
}

#[test]
fn paths_are_expanded_as_the_standard_library_joins_them() {
    for home in ["/home/me", "/home/me/", "", "/"] {
        for rest in ["x", "", "/etc", "a/b/"] {
            let got = amux::keys::expand_path(&format!("~/{rest}"), &Some(home.to_string()));
            let want = std::path::Path::new(home).join(rest);
            assert_eq!(got, want.to_str().unwrap(), "{home:?} {rest:?}");
        }
    }
    assert_eq!(amux::keys::expand_path("~", &Some("/h".into())), "/h");
    assert_eq!(amux::keys::expand_path("~", &None), "~");
    assert_eq!(amux::keys::expand_path("~x/y", &Some("/h".into())), "~x/y");
    assert_eq!(amux::keys::expand_path("~/y", &None), "~/y");
    assert_eq!(amux::keys::expand_path("/a", &Some("/h".into())), "/a");
}
