use amux::emulator::Emulator;
use amux::geometry::{Axis, Dir, Rect, Size};
use amux::ids::{AgentId, RepoId, TerminalId};
use amux::input::{
    Event, KeyCode, KeyEvent, KeyModifiers, MouseButton, MouseEvent, MouseEventKind,
};
use amux::mouse::encode_wheel;
use amux::pane::Layout;
use amux::ratio::HALF;
use amux::render::PanesFrame;
use amux::selection::{token_selection, Selection};
use amux::sidebar::{main_area, recent_ids, Row};
use amux::state::{App, Field, Flow, Focus, InputMode};
use amux::time::Moment;
use amux::wire::{Action, AgentInfo, AgentState, AttentionKind, ClientMsg, DaemonMsg, RepoInfo};
use std::hash::{BuildHasher, Hasher};

const NOW: Moment = Moment { secs: 1_700_000_000, nanos: 0 };

fn ago(secs: i64) -> Moment {
    Moment { secs: NOW.secs - secs, nanos: 0 }
}

fn random() -> u128 {
    let a = std::collections::hash_map::RandomState::new().build_hasher().finish();
    let b = std::collections::hash_map::RandomState::new().build_hasher().finish();
    ((a as u128) << 64) | b as u128
}

fn new_terminal() -> TerminalId {
    TerminalId(random())
}

fn new_agent() -> AgentId {
    AgentId(random())
}

fn repo_id(path: &str) -> RepoId {
    RepoId(path.bytes().fold(7u128, |h, b| h * 131 + b as u128))
}

fn repo(path: &str, name: &str) -> RepoInfo {
    RepoInfo { id: repo_id(path), name: name.into(), path: path.into() }
}

fn key(code: KeyCode) -> KeyEvent {
    KeyEvent::new(code, KeyModifiers::none())
}

fn ctrl(c: char) -> KeyEvent {
    KeyEvent::new(KeyCode::Char(c), KeyModifiers { control: true, ..KeyModifiers::none() })
}

fn cmd(c: char) -> KeyEvent {
    KeyEvent::new(KeyCode::Char(c), KeyModifiers { super_key: true, ..KeyModifiers::none() })
}

fn mouse(kind: MouseEventKind, column: u16, row: u16) -> MouseEvent {
    MouseEvent { kind, column, row }
}

fn new_app(cols: u16, rows: u16) -> App {
    let mut app = App::new(cols, rows);
    app.now = NOW;
    app.fresh = (0..8).map(|_| new_terminal()).collect();
    app
}

fn agent_with(state: AgentState, unread: bool) -> AgentInfo {
    AgentInfo {
        id: new_agent(),
        repo: repo_id("/r"),
        name: "a".into(),
        branch: Some("b".into()),
        state,
        glyph: '\u{25cb}',
        last_activity: NOW,
        last_opened: NOW,
        unread,
        primary_terminal: new_terminal(),
    }
}

fn agent_info(primary: TerminalId) -> AgentInfo {
    let mut a = agent_with(AgentState::Working, false);
    a.primary_terminal = primary;
    a
}

fn app_with_agents(n: usize) -> (App, Vec<AgentId>) {
    let mut app = new_app(100, 40);
    app.repos = vec![repo("/r", "r")];
    app.agents = (0..n)
        .map(|i| {
            let mut a = agent_with(AgentState::Idle, false);
            a.last_opened = ago(i as i64);
            a
        })
        .collect();
    let ids = app.ordered_agent_ids();
    (app, ids)
}

fn app_with_two_repos(a: usize, b: usize) -> (App, Vec<AgentId>) {
    let mut app = new_app(100, 40);
    app.repos = vec![repo("/r", "r"), repo("/z", "z")];
    app.agents = (0..(a + b))
        .map(|i| {
            let mut agent = agent_with(AgentState::Idle, false);
            agent.name = format!("agent{i:02}");
            agent.repo = if i < a { repo_id("/r") } else { repo_id("/z") };
            agent.last_opened = ago(6 * 3600 * i as i64);
            agent
        })
        .collect();
    let ids = app.ordered_agent_ids();
    (app, ids)
}

/// What the client sent to the daemon since it was last asked.
fn sent(app: &mut App) -> Vec<ClientMsg> {
    app.outbox
        .actions
        .drain(..)
        .filter_map(|a| match a {
            Action::Send(m) => Some(m),
            Action::Emit(_) => None,
        })
        .collect()
}

/// What the client wrote to the outer terminal since it was last asked.
fn emitted(app: &mut App) -> Vec<String> {
    app.outbox
        .actions
        .drain(..)
        .filter_map(|a| match a {
            Action::Emit(s) => Some(s),
            Action::Send(_) => None,
        })
        .collect()
}

fn screen(rows: u16, cols: u16, bytes: &[u8]) -> Emulator {
    Emulator::new(rows, cols).fed(bytes)
}

fn contents(e: &Emulator) -> String {
    e.vt.parser.screen().contents()
}

fn output(terminal: TerminalId, byte: u8) -> DaemonMsg {
    DaemonMsg::Output { terminal, bytes: vec![byte] }
}

/// The loop of the client over bursts that are waiting: it draws at the start and once after each
/// burst, and stops without drawing when it ends.
fn drawn(app: &mut App, bursts: Vec<(Vec<DaemonMsg>, Vec<Event>, bool)>) -> usize {
    let mut renders = 1;
    for (msgs, events, ended) in bursts {
        let msgs = msgs.into_iter().map(Some).collect();
        let events = events.into_iter().map(Some).collect();
        match app.handle_burst(msgs, events, ended) {
            Flow::Quit => return renders,
            Flow::Continue => renders += 1,
        }
    }
    renders
}

#[test]
fn output_burst_coalesces_into_one_render() {
    let mut app = new_app(100, 40);
    let t = new_terminal();
    let burst = vec![output(t, b'a'), output(t, b'b'), output(t, b'c')];
    let n = drawn(&mut app, vec![(burst, vec![], false), (vec![], vec![], true)]);
    assert_eq!(n, 2, "the 3-frame burst should coalesce into one render (plus the initial frame)");
}

#[test]
fn single_event_renders_once() {
    let mut app = new_app(100, 40);
    let t = new_terminal();
    let n = drawn(&mut app, vec![(vec![output(t, b'x')], vec![], false), (vec![], vec![], true)]);
    assert_eq!(n, 2, "initial frame + one render for the single event");
}

#[test]
fn quit_key_stops_without_trailing_render() {
    let mut app = new_app(100, 40);
    assert_eq!(app.handle_event(Some(Event::Key(ctrl('q')))), Flow::Quit);
    let n = drawn(&mut app, vec![(vec![], vec![Event::Key(ctrl('q'))], false)]);
    assert_eq!(n, 1, "only the initial frame; quit short-circuits before any batch render");
}

#[test]
fn quit_while_draining_events_stops_without_trailing_render() {
    let mut app = new_app(100, 40);
    let n = drawn(&mut app, vec![(vec![], vec![Event::Other, Event::Key(ctrl('q'))], false)]);
    assert_eq!(n, 1, "a quit drained from the event stream stops the loop with no batch render");
}

#[test]
fn paste_sends_one_wrapped_input_frame() {
    let mut app = new_app(100, 40);
    let t = new_terminal();
    let e = screen(24, 80, b"\x1b[?2004h");
    assert!(e.bracketed_paste(), "child requested bracketed paste");
    app.parsers.set(t, e);
    app.tree.open(t);
    app.focus = Focus::Panes;

    app.on_paste("multi\nline");

    assert_eq!(
        sent(&mut app),
        vec![ClientMsg::Input {
            terminal: t,
            bytes: b"\x1b[200~multi\rline\x1b[201~".to_vec()
        }]
    );
}

/// A pane with a served window in it, as if the daemon had just answered a scroll request.
fn scrolled_app(offset: usize, available: usize) -> (App, TerminalId) {
    let mut app = new_app(100, 40);
    let t = new_terminal();
    app.tree.open(t);
    app.terminals.set(t, new_agent());
    app.parsers.set(t, Emulator::new(4, 20));
    app.attached.set(t, Size { cols: 20, rows: 4 });
    app.on_scroll_view(t, offset, available, b"served window");
    (app, t)
}

#[test]
fn scroll_keys_send_relative_steps() {
    let (mut app, t) = scrolled_app(10, 500);
    assert!(app.scroll.is_some(), "precondition: scrolled back");

    for (pressed, expected) in [
        (key(KeyCode::Char('k')), 1),
        (key(KeyCode::Char('j')), -1),
        (ctrl('u'), 2),
        (ctrl('d'), -2),
        (key(KeyCode::PageUp), 4),
        (key(KeyCode::PageDown), -4),
        (key(KeyCode::Char('g')), i32::MAX),
        (key(KeyCode::Char('G')), i32::MIN),
    ] {
        app.key_scroll(pressed, t);
        assert_eq!(
            sent(&mut app),
            vec![ClientMsg::Scroll { terminal: t, lines: expected }],
            "for {pressed:?}"
        );
    }
}

#[test]
fn leaving_scroll_mode_resets_the_daemons_position() {
    let (mut app, t) = scrolled_app(10, 500);
    app.key_scroll(key(KeyCode::Char('q')), t);
    assert!(app.scroll.is_none(), "back to live immediately");
    assert_eq!(
        sent(&mut app),
        vec![ClientMsg::Scroll { terminal: t, lines: i32::MIN }],
        "and the daemon is told we are live again"
    );
}

#[test]
fn a_scrolled_pane_renders_the_served_window() {
    let mut app = new_app(100, 40);
    let t = new_terminal();
    app.tree.open(t);
    app.terminals.set(t, new_agent());
    app.parsers.set(t, screen(4, 20, b"live output"));
    app.attached.set(t, Size { cols: 20, rows: 4 });

    assert!(
        contents(app.screen_for(t).unwrap()).contains("live output"),
        "live until scrolled"
    );
    app.on_scroll_view(t, 7, 500, b"ancient history");
    let shown = contents(app.screen_for(t).unwrap());
    assert!(
        shown.contains("ancient history") && !shown.contains("live output"),
        "a scrolled pane shows the daemon's window, got: {shown:?}"
    );
}

#[test]
fn the_status_bar_shows_served_depth() {
    let (app, _t) = scrolled_app(12, 3400);
    let content = app.render_status().text;
    assert!(
        content.contains("\u{2191}12/3400"),
        "the indicator shows position and depth, got: {content}"
    );
}

#[test]
fn each_agent_keeps_its_own_workspace() {
    let mut app = new_app(100, 40);
    let (pa, pb) = (new_terminal(), new_terminal());
    let a = agent_info(pa);
    let b = agent_info(pb);
    let (ida, idb) = (a.id, b.id);
    app.agents = vec![a, b];

    let _ = app.swap_to_agent(ida);
    assert_eq!(app.tree.payloads(), vec![pa]);
    let sh = new_terminal();
    app.terminals.set(sh, ida);
    app.tree.split(Axis::LeftRight);
    app.tree.open(sh);
    assert_eq!(app.tree.payloads().len(), 2);

    let _ = app.swap_to_agent(idb);
    assert_eq!(app.tree.payloads(), vec![pb]);
    assert!(!app.tree.payloads().contains(&pa));

    let _ = app.swap_to_agent(ida);
    let payloads = app.tree.payloads();
    assert_eq!(payloads.len(), 2);
    assert!(payloads.contains(&pa) && payloads.contains(&sh));
}

#[test]
fn minis_form_a_navigable_bottom_row() {
    let mut app = new_app(100, 40);
    let t = new_terminal();
    app.tree.open(t);
    app.active_agent = Some(new_agent());
    app.focus = Focus::Panes;
    app.minis = vec![new_agent(), new_agent()];

    app.navigate(Dir::Down);
    assert_eq!(app.focus, Focus::Mini(0));
    app.navigate(Dir::Right);
    assert_eq!(app.focus, Focus::Mini(1));
    app.navigate(Dir::Up);
    assert_eq!(app.focus, Focus::Panes);
    app.navigate(Dir::Right);
    assert_eq!(app.focus, Focus::Mini(0));
    app.navigate(Dir::Left);
    assert_eq!(app.focus, Focus::Panes);

    let (_, minis_area) = app.regions();
    let band = minis_area.unwrap();
    let rects = app.mini_rects(band);
    assert_eq!(rects.len(), 2);
    assert_eq!(rects[0].x + rects[0].width, rects[1].x);
    assert_eq!(rects[1].x + rects[1].width, band.x + band.width);

    assert_eq!(app.mini_at(rects[1].x + 1, rects[1].y + 1).map(|(i, _)| i), Some(1));
    assert_eq!(app.mini_at(app.area.x + 1, app.area.y), None);
}

#[test]
fn selection_extracts_pane_text() {
    let mut app = new_app(100, 40);
    let t = new_terminal();
    app.tree.open(t);
    app.parsers.set(t, screen(6, 20, b"alpha\r\nbravo\r\ncharlie\r\n"));
    let inner = Rect::new(1, 1, 18, 6);
    app.selection = Some(Selection {
        terminal: t,
        inner,
        anchor: (1, 1),
        head: (1 + 4, 1 + 1),
        active: true,
    });
    assert_eq!(app.selection_text().unwrap(), "alpha\nbravo");
}

#[test]
fn a_selection_in_a_scrolled_pane_is_read_off_the_window_shown() {
    let mut app = new_app(100, 40);
    let t = new_terminal();
    app.tree.open(t);
    let (_, inner) = app.pane_at(40, 10).expect("a pane");
    app.parsers.set(t, screen(6, 40, b"live words here"));
    app.attached.set(t, Size { cols: 40, rows: 6 });
    app.on_scroll_view(t, 7, 90, b"older lines there");
    app.selection = Some(Selection {
        terminal: t,
        inner,
        anchor: (inner.x, inner.y),
        head: (inner.x + 10, inner.y),
        active: true,
    });
    assert_eq!(app.selection_text().as_deref(), Some("older lines"));

    let press = mouse(MouseEventKind::Down(MouseButton::Left), inner.x + 7, inner.y);
    app.tick = 1_000_000_000;
    app.on_mouse(press);
    app.tick = 1_200_000_000;
    app.on_mouse(press);
    assert_eq!(app.selection_text().as_deref(), Some("lines"), "a double-click reads it too");
}

#[test]
fn token_selection_maps_the_word_to_screen_cells() {
    let mut app = new_app(100, 40);
    let t = new_terminal();
    app.tree.open(t);
    app.parsers.set(t, screen(6, 40, b"run /home/awong/foo.rs now\r\n"));
    let inner = Rect::new(1, 1, 40, 6);
    let e = app.parsers.get(t).unwrap();
    let sel = token_selection(e, t, inner, 11, 1).expect("a token under the cursor");
    assert_eq!((sel.anchor, sel.head), ((5, 1), (22, 1)));
    assert!(sel.is_active());
    app.selection = Some(sel);
    assert_eq!(app.selection_text().unwrap(), "/home/awong/foo.rs");
    assert!(token_selection(app.parsers.get(t).unwrap(), t, inner, 4, 1).is_none());
}

#[test]
fn double_click_commits_a_token_a_single_click_does_not() {
    let mut app = new_app(100, 40);
    let t = new_terminal();
    app.tree.open(t);
    app.parsers.set(t, screen(6, 40, b"hello world\r\n"));

    let (_, inner) = app.pane_at(40, 10).expect("mouse is over the pane");
    let (col, row) = (inner.x + 2, inner.y);
    let press = mouse(MouseEventKind::Down(MouseButton::Left), col, row);

    app.tick = 1_000_000_000;
    app.on_mouse(press);
    assert!(
        app.selection.is_some_and(|s| !s.is_active()),
        "a single click is not a committed selection"
    );

    app.tick = 1_200_000_000;
    app.on_mouse(press);
    let sel = app.selection.expect("double-click made a selection");
    assert!(sel.is_active(), "double-click commits a selection");
    assert_eq!(app.selection_text().unwrap(), "hello");
}

#[test]
fn two_slow_clicks_are_no_double_click() {
    let mut app = new_app(100, 40);
    let t = new_terminal();
    app.tree.open(t);
    app.parsers.set(t, screen(6, 40, b"hello world\r\n"));
    let press = mouse(MouseEventKind::Down(MouseButton::Left), 33, 1);
    app.tick = 5;
    app.on_mouse(press);
    app.tick = 5 + 400_000_001;
    app.on_mouse(press);
    assert!(app.selection.is_some_and(|s| !s.is_active()));
    // Within the window of the second press, a third one completes a double-click.
    app.tick += 400_000_000;
    app.on_mouse(press);
    assert_eq!(app.selection_text().as_deref(), Some("hello"));
    assert!(app.last_click.is_none(), "consumed, so a fourth press starts over");
    // On a blank, a double-click selects nothing.
    let blank = mouse(MouseEventKind::Down(MouseButton::Left), 36, 1);
    app.on_mouse(blank);
    app.on_mouse(blank);
    assert!(app.selection.is_none());
}

#[test]
fn mouse_wheel_forwards_to_apps_and_scrolls_others() {
    let mut app = new_app(100, 40);
    let t = new_terminal();
    app.tree.open(t);
    app.terminals.set(t, new_agent());
    let mut bytes = Vec::new();
    for i in 0..30 {
        bytes.extend_from_slice(format!("line {i}\r\n").as_bytes());
    }
    app.parsers.set(t, screen(4, 20, &bytes));
    app.attached.set(t, Size { cols: 20, rows: 4 });

    let (hit, _inner) = app.pane_at(40, 10).expect("mouse is over the pane");
    assert_eq!(hit, t);

    assert!(!app.app_wants_mouse(t));
    app.wheel_scroll(t, true);
    assert_eq!(sent(&mut app), vec![ClientMsg::Scroll { terminal: t, lines: 3 }]);

    app.on_scroll_view(t, 2, 500, b"window");
    app.wheel_scroll(t, false);
    assert!(app.scroll.is_none(), "back to live");
    assert_eq!(sent(&mut app), vec![ClientMsg::Scroll { terminal: t, lines: i32::MIN }]);

    app.wheel_scroll(t, false);
    assert_eq!(sent(&mut app), vec![], "nothing sent when live");

    app.on_daemon(DaemonMsg::Output { terminal: t, bytes: b"\x1b[?1000h\x1b[?1006h".to_vec() });
    assert!(app.app_wants_mouse(t));
    let encoding = app.parsers.get(t).unwrap().mouse_encoding();
    let bytes = encode_wheel(encoding, true, 35, 5, Rect::new(31, 1, 18, 2));
    let s = String::from_utf8(bytes).unwrap();
    assert!(
        s.starts_with("\u{1b}[<64;") && s.ends_with('M'),
        "SGR wheel-up report: {s:?}"
    );
    assert_eq!(s, "\u{1b}[<64;5;2M");

    // Through the mouse, the report goes to the program, counted from its own corner.
    app.on_mouse(mouse(MouseEventKind::ScrollDown, 40, 10));
    assert_eq!(
        sent(&mut app),
        vec![ClientMsg::Input { terminal: t, bytes: b"\x1b[<65;10;10M".to_vec() }]
    );
    // A program that did not ask for the long form gets three bytes, each capped.
    app.on_daemon(DaemonMsg::Output { terminal: t, bytes: b"\x1b[?1006l".to_vec() });
    app.on_mouse(mouse(MouseEventKind::ScrollUp, 40, 10));
    assert_eq!(
        sent(&mut app),
        vec![ClientMsg::Input { terminal: t, bytes: vec![0x1b, b'[', b'M', 96, 42, 42] }]
    );
    let far = encode_wheel(
        app.parsers.get(t).unwrap().mouse_encoding(),
        true,
        400,
        5,
        Rect::new(0, 0, 500, 500),
    );
    assert_eq!(far, vec![0x1b, b'[', b'M', 96, 255, 38]);
}

#[test]
fn a_pane_with_no_history_never_captures_keys() {
    let mut app = new_app(100, 40);
    let t = new_terminal();
    app.tree.open(t);
    app.terminals.set(t, new_agent());
    app.parsers.set(t, Emulator::new(4, 20));
    app.attached.set(t, Size { cols: 20, rows: 4 });

    app.wheel_scroll(t, true);
    assert!(
        app.scroll.is_none(),
        "asking is not entering: keys still belong to the pane while we wait"
    );
    assert!(!sent(&mut app).is_empty(), "the request went out");

    app.on_scroll_view(t, 0, 0, b"");
    assert!(app.scroll.is_none(), "still not in scroll mode");
    assert!(!app.info.is_empty(), "and it says why nothing happened");
}

#[test]
fn left_press_starts_selection_even_when_pane_app_tracks_mouse() {
    let mut app = new_app(100, 40);
    let t = new_terminal();
    app.tree.open(t);
    app.parsers.set(t, screen(24, 80, b"\x1b[?1049h\x1b[?1000h\x1b[?1006h"));

    assert!(app.pane_at(40, 10).is_some(), "the click must land on the pane");
    assert!(
        app.parsers.get(t).unwrap().alternate_screen() && app.app_wants_mouse(t),
        "precondition: an alt-screen, mouse-tracking pane",
    );

    app.on_mouse(mouse(MouseEventKind::Down(MouseButton::Left), 40, 10));

    let sel = app
        .selection
        .expect("a left-press must start a selection even in a mouse-tracking pane");
    assert_eq!(sel.terminal, t);
}

#[test]
fn bare_click_does_not_copy() {
    let mut app = new_app(100, 40);
    let t = new_terminal();
    app.tree.open(t);
    app.parsers.set(t, screen(24, 80, b"hello world\r\n"));

    assert!(
        app.pane_at(31, 1).is_some(),
        "precondition: the click must land inside a pane"
    );
    app.on_mouse(mouse(MouseEventKind::Down(MouseButton::Left), 31, 1));
    app.on_mouse(mouse(MouseEventKind::Up(MouseButton::Left), 31, 1));

    assert!(
        app.info.is_empty(),
        "a no-drag click must not copy (unexpected banner: {:?})",
        app.info
    );
    assert!(emitted(&mut app).is_empty());
}

#[test]
fn a_drag_copies_what_it_covers() {
    let mut app = new_app(100, 40);
    let t = new_terminal();
    app.tree.open(t);
    app.parsers.set(t, screen(24, 80, b"hello world\r\n"));
    app.on_mouse(mouse(MouseEventKind::Down(MouseButton::Left), 31, 1));
    app.on_mouse(mouse(MouseEventKind::Drag(MouseButton::Left), 35, 1));
    app.on_mouse(mouse(MouseEventKind::Up(MouseButton::Left), 35, 1));
    assert_eq!(app.info, "copied 5 chars to clipboard");
    assert_eq!(emitted(&mut app), vec!["\u{1b}]52;c;aGVsbG8=\u{7}".to_string()]);
    // A drag over blanks copies nothing.
    app.info = String::new();
    app.on_mouse(mouse(MouseEventKind::Down(MouseButton::Left), 31, 5));
    app.on_mouse(mouse(MouseEventKind::Drag(MouseButton::Left), 40, 6));
    app.on_mouse(mouse(MouseEventKind::Up(MouseButton::Left), 40, 6));
    assert_eq!(app.info, "");
    assert!(emitted(&mut app).is_empty());
}

#[test]
fn a_drag_stays_in_its_pane() {
    let mut app = new_app(100, 40);
    let t = new_terminal();
    app.tree.open(t);
    app.parsers.set(t, screen(37, 68, b"hello\r\n"));
    let (_, inner) = app.pane_at(33, 1).unwrap();
    assert_eq!(inner, Rect::new(31, 1, 68, 37));
    app.on_mouse(mouse(MouseEventKind::Down(MouseButton::Left), 33, 1));
    for (col, row, want) in [(0, 0, (31, 1)), (99, 39, (98, 37)), (50, 20, (50, 20))] {
        app.on_mouse(mouse(MouseEventKind::Drag(MouseButton::Left), col, row));
        assert_eq!(app.selection.unwrap().head, want);
    }
}

#[test]
fn a_burst_is_told_its_ids_in_advance() {
    let (mut app, ids) = app_with_agents(2);
    app.fresh.clear();
    let primary = app.agents.iter().find(|a| a.id == ids[1]).unwrap().primary_terminal;
    let burst = || {
        vec![
            Some(DaemonMsg::Layouts(vec![
                (ids[1], half_blank(primary)),
                (ids[0], Layout::Leaf { terminal: None }),
            ])),
            Some(DaemonMsg::Active(Some(ids[1]))),
        ]
    };
    let keys = || vec![Some(Event::Key(ctrl('b'))), Some(Event::Key(key(KeyCode::Char('%'))))];
    assert_eq!(app.ids_wanted(), 1);
    assert_eq!(app.ids_wanted_by(&burst(), &keys()), 5);
    app.fresh = (0..5).map(|_| new_terminal()).collect();
    assert_eq!(app.handle_burst(burst(), keys(), false), Flow::Continue);
    // The blank pane of the layout got one, and the split another.
    assert_eq!(app.tree.payloads().len(), 3);
    assert_eq!(app.fresh.len(), 3);
    assert_eq!(app.ids_wanted(), 2, "the other layout still waits");
}

#[test]
fn peeking_hides_the_minis_and_shows_them_again() {
    let (mut app, ids) = app_with_agents(2);
    app.activate(ids[0]);
    app.open_mini(ids[1]);
    app.focus = Focus::Panes;
    let before = app.attached.items.len();
    let peek = |app: &mut App| {
        app.on_key(ctrl('b'));
        app.on_key(key(KeyCode::Char('z')));
    };
    peek(&mut app);
    assert!(app.minis_hidden && app.attached.items.len() == before - 1);
    peek(&mut app);
    assert!(!app.minis_hidden && app.attached.items.len() == before);
    assert_eq!(app.focus, Focus::Panes);
}

#[test]
fn fresh_left_press_clears_a_prior_selection() {
    let mut app = new_app(100, 40);
    let t = new_terminal();
    app.selection = Some(Selection {
        terminal: t,
        inner: Rect::new(31, 1, 40, 20),
        anchor: (31, 1),
        head: (35, 1),
        active: true,
    });
    assert!(
        app.selection.is_some_and(|s| s.is_active()),
        "precondition: a live active selection"
    );

    app.on_mouse(mouse(MouseEventKind::Down(MouseButton::Left), 5, 5));

    assert!(
        app.selection.is_none(),
        "a fresh left-press must clear a stale selection so its Up can't re-copy"
    );
}

#[test]
fn left_click_in_sidebar_focuses_it() {
    let mut app = new_app(100, 40);
    app.focus = Focus::Panes;
    let sel = app.sidebar_sel;
    app.on_mouse(mouse(MouseEventKind::Down(MouseButton::Left), 5, 5));
    assert_eq!(
        app.focus,
        Focus::Sidebar,
        "a left-click in the sidebar column must focus the sidebar"
    );
    assert_eq!(app.sidebar_sel, sel, "focusing by click must not change the sidebar's selection");
}

#[test]
fn left_click_on_status_bar_below_sidebar_does_not_focus_it() {
    let mut app = new_app(100, 40);
    app.focus = Focus::Panes;
    app.on_mouse(mouse(MouseEventKind::Down(MouseButton::Left), 5, 39));
    assert_eq!(
        app.focus,
        Focus::Panes,
        "a click on the status-bar row must not focus the sidebar"
    );
}

#[test]
fn single_cell_drag_counts_as_a_drag() {
    let mut app = new_app(100, 40);
    let t = new_terminal();
    app.tree.open(t);
    app.parsers.set(t, screen(24, 80, b"hello\r\n"));
    assert!(app.pane_at(31, 1).is_some(), "precondition: the gesture lands on the pane");

    app.on_mouse(mouse(MouseEventKind::Down(MouseButton::Left), 31, 1));
    app.on_mouse(mouse(MouseEventKind::Drag(MouseButton::Left), 31, 1));

    let sel = app.selection.expect("the drag keeps the selection");
    assert_eq!(sel.anchor, sel.head, "the pointer never left the cell");
    assert!(
        sel.is_active(),
        "a drag within one cell still counts as a drag (so its one character copies)"
    );
}

#[test]
fn reaching_the_live_view_by_key_stays_in_scroll_mode() {
    let (mut app, t) = scrolled_app(10, 500);
    app.on_scroll_view(t, 0, 500, b"the live screen");
    assert!(
        app.scroll.is_some(),
        "still in scroll mode at the bottom; only q/Esc/Enter leave"
    );
    assert_eq!(app.scroll.as_ref().unwrap().offset, 0);
}

#[test]
fn a_reply_for_another_pane_is_ignored() {
    let (mut app, t) = scrolled_app(10, 500);
    let other = new_terminal();
    app.on_scroll_view(other, 0, 0, b"");
    assert!(
        app.scroll.as_ref().is_some_and(|s| s.terminal == t),
        "the other pane's empty history must not close this pane's window"
    );
}

#[test]
fn a_window_for_another_pane_does_not_replace_the_one_shown() {
    let (mut app, t) = scrolled_app(10, 500);
    let other = new_terminal();
    app.parsers.set(other, Emulator::new(4, 20));
    app.attached.set(other, Size { cols: 20, rows: 4 });
    let before = contents(app.screen_for(t).unwrap());
    app.on_scroll_view(other, 3, 40, b"another window");
    let s = app.scroll.as_ref().expect("still scrolled back");
    assert_eq!((s.terminal, s.offset, s.available), (t, 10, 500));
    assert_eq!(contents(app.screen_for(t).unwrap()), before);
}

#[test]
fn detaching_a_scrolled_pane_drops_its_window() {
    let (mut app, ids) = app_with_agents(2);
    app.activate(ids[0]);
    let terminal = app.tree.focused_payload().expect("a pane for the agent");
    app.on_scroll_view(terminal, 12, 500, b"old history");
    assert!(app.scroll.is_some(), "precondition: scrolled back");

    app.activate(ids[1]);
    assert!(
        app.scroll.is_none(),
        "the window went with the pane, so returning shows live output"
    );
}

#[test]
fn a_scrolled_pane_holds_still_while_output_arrives() {
    let mut app = new_app(100, 40);
    let t = new_terminal();
    app.parsers.set(t, Emulator::new(4, 20));
    app.attached.set(t, Size { cols: 20, rows: 4 });
    app.on_scroll_view(t, 10, 500, b"an old window");

    let before = contents(app.screen_for(t).unwrap());
    for i in 0..20 {
        let bytes = format!("new line {i}\r\n").into_bytes();
        app.on_daemon(DaemonMsg::Output { terminal: t, bytes });
    }
    assert_eq!(
        before,
        contents(app.screen_for(t).unwrap()),
        "the served window is a still frame; new output must not move it"
    );
    assert!(
        contents(app.parsers.get(t).unwrap()).contains("new line 19"),
        "while the live screen behind it took the output"
    );
}

#[test]
fn ctrl_jk_jump_between_unread_agents_in_the_sidebar() {
    let mut app = new_app(100, 40);
    app.repos = vec![repo("/r", "r")];
    let s0 = agent_with(
        AgentState::NeedsAttention { kind: AttentionKind::Question, message: None },
        false,
    );
    let mut s1 = agent_with(AgentState::Working, true);
    let mut s2 = agent_with(AgentState::Idle, false);
    let mut s3 = agent_with(AgentState::Exited { code: Some(0) }, true);
    s1.last_opened = NOW;
    s2.last_opened = ago(60);
    s3.last_opened = ago(120);
    let (id0, id1, id2, id3) = (s0.id, s1.id, s2.id, s3.id);
    app.agents = vec![s2, s0, s3, s1];

    let order: Vec<AgentId> = app
        .sidebar_rows()
        .into_iter()
        .filter_map(|r| match r {
            Row::Agent(id) => Some(id),
            _ => None,
        })
        .collect();
    assert_eq!(order, vec![id0, id1, id2, id3], "sidebar order precondition");

    app.sidebar_sel = Some(Row::Agent(id0));
    app.jump_unread(true);
    assert_eq!(app.sidebar_sel, Some(Row::Agent(id1)));
    app.jump_unread(true);
    assert_eq!(app.sidebar_sel, Some(Row::Agent(id3)));
    app.jump_unread(true);
    assert_eq!(app.sidebar_sel, Some(Row::Agent(id3)), "no wrap past the last unread");

    app.jump_unread(false);
    assert_eq!(app.sidebar_sel, Some(Row::Agent(id1)));
    app.jump_unread(false);
    assert_eq!(app.sidebar_sel, Some(Row::Agent(id1)), "no wrap above the first unread");

    app.sidebar_sel = Some(Row::Repo(repo_id("/r")));
    app.jump_unread(true);
    assert_eq!(app.sidebar_sel, Some(Row::Agent(id1)));
}

#[test]
fn paging_keys_walk_a_sidebar_taller_than_the_terminal() {
    let (mut app, ids) = app_with_agents(30);
    app.area = main_area(100, 12);
    app.focus = Focus::Sidebar;
    app.sidebar_sel = Some(Row::Agent(ids[0]));
    app.scroll_sel_into_view();
    let page = app.sidebar_page();
    assert_eq!(page, 9, "9 rows of sidebar body in a 12-row terminal");

    let sel_index = |app: &App| {
        let rows = app.sidebar_rows();
        app.sidebar_sel
            .and_then(|s| rows.iter().position(|&r| r == s))
            .expect("a selection")
    };

    app.on_key(key(KeyCode::PageDown));
    assert_eq!(sel_index(&app), 1 + page, "PageDown moves a full page");
    assert!(
        app.sidebar_top > 0 && sel_index(&app) < app.sidebar_top + page,
        "the view followed: top {}, selection {}",
        app.sidebar_top,
        sel_index(&app)
    );

    app.on_key(ctrl('d'));
    assert_eq!(sel_index(&app), 1 + page + page / 2, "Ctrl+d is half a page");

    app.on_key(key(KeyCode::Char('G')));
    let rows = app.sidebar_rows();
    assert_eq!(sel_index(&app), rows.len() - 1, "G goes to the last row");
    assert_eq!(app.sidebar_top, rows.len() - page, "…and the view shows the final screenful");

    app.on_key(key(KeyCode::Char('g')));
    assert_eq!(sel_index(&app), 0, "g goes back to the first row");
    assert_eq!(app.sidebar_top, 0);
}

#[test]
fn a_wheel_over_the_sidebar_scrolls_the_view_only() {
    let (mut app, ids) = app_with_agents(30);
    app.area = main_area(100, 12);
    app.focus = Focus::Sidebar;
    app.sidebar_sel = Some(Row::Agent(ids[0]));

    app.on_mouse(mouse(MouseEventKind::ScrollDown, 2, 4));
    assert_eq!(app.sidebar_top, 3, "three rows per notch");
    assert_eq!(app.sidebar_sel, Some(Row::Agent(ids[0])), "the selection stays put");

    let _ = app.render_sidebar(Rect::new(0, 0, 30, 12));
    assert_eq!(app.sidebar_top, 3);

    app.on_key(key(KeyCode::Char('j')));
    assert_eq!(app.sidebar_top, 2, "moving the selection pulls the view to it");

    app.on_mouse(mouse(MouseEventKind::ScrollUp, 2, 4));
    assert_eq!(app.sidebar_top, 0, "already at the top: nothing to scroll");
}

#[test]
fn moving_the_cursor_skips_the_trailer_rows() {
    let mut app = new_app(100, 40);
    app.repos = vec![repo("/r", "r"), repo("/z", "z")];
    let mut blocked = agent_with(
        AgentState::NeedsAttention {
            kind: AttentionKind::Permission,
            message: Some("may I".into()),
        },
        false,
    );
    blocked.name = "blocked".into();
    let mut idle = agent_with(AgentState::Idle, false);
    idle.name = "idle".into();
    app.agents = vec![blocked, idle];
    app.focus = Focus::Sidebar;
    app.ensure_sidebar_sel();

    let rows = app.sidebar_rows();
    assert!(
        rows.iter().any(|r| matches!(r, Row::Attention(_)))
            && rows.iter().any(|r| matches!(r, Row::EmptyRepo(_))),
        "expected both trailer rows, got {rows:?}"
    );

    let mut seen = vec![app.sidebar_sel.unwrap()];
    for _ in 0..rows.len() {
        app.on_key(key(KeyCode::Char('j')));
        seen.push(app.sidebar_sel.unwrap());
    }
    for _ in 0..rows.len() {
        app.on_key(key(KeyCode::Char('k')));
        seen.push(app.sidebar_sel.unwrap());
    }
    assert!(
        seen.iter().all(|r| r.selectable()),
        "the cursor landed on a trailer row: {seen:?}"
    );
    let stops: Vec<Row> = rows.into_iter().filter(|r| r.selectable()).collect();
    for stop in stops {
        assert!(seen.contains(&stop), "{stop:?} was never reachable");
    }
}

#[test]
fn jumping_unread_covers_the_recent_block_without_repeating_an_agent() {
    let (mut app, _ids) = app_with_two_repos(4, 4);
    app.focus = Focus::Sidebar;
    let recent_unread = app.agents.iter().find(|a| a.name == "agent01").unwrap().id;
    let grouped_unread = app.agents.iter().find(|a| a.name == "agent05").unwrap().id;
    for a in app.agents.iter_mut() {
        a.unread = a.id == recent_unread || a.id == grouped_unread;
    }
    let rows = app.sidebar_rows();
    assert!(
        rows.contains(&Row::Recent(recent_unread)) && rows.contains(&Row::Agent(recent_unread)),
        "the unread agent must appear twice for this test to mean anything"
    );

    app.sidebar_sel = Some(Row::RecentHeader);
    let mut visited = Vec::new();
    for _ in 0..6 {
        app.on_key(ctrl('j'));
        let sel = app.sidebar_sel.unwrap();
        if visited.last() != Some(&sel) {
            visited.push(sel);
        }
    }
    assert_eq!(
        visited,
        vec![Row::Recent(recent_unread), Row::Agent(grouped_unread)],
        "down: the block's row, then the other repo's — and no second visit to agent01"
    );

    let mut back = Vec::new();
    for _ in 0..6 {
        app.on_key(ctrl('k'));
        let sel = app.sidebar_sel.unwrap();
        if back.last() != Some(&sel) {
            back.push(sel);
        }
    }
    assert_eq!(
        back,
        vec![Row::Agent(recent_unread)],
        "up: the nearest of the agent's two rows, then no further"
    );
}

#[test]
fn the_cursor_starts_on_the_newest_recent_agent() {
    let (reference, _ids) = app_with_two_repos(4, 4);
    let mut app = new_app(100, 40);

    app.on_daemon(DaemonMsg::Repos(reference.repos.clone()));
    assert!(
        matches!(app.sidebar_sel, Some(Row::Repo(_))),
        "with no agents yet, a repo header is all there is"
    );
    app.on_daemon(DaemonMsg::Agents(reference.agents.clone()));

    let newest = recent_ids(&app.agents, NOW)[0];
    assert_eq!(
        app.sidebar_sel,
        Some(Row::Recent(newest)),
        "the cursor moved to the top of the recent block"
    );
    assert_eq!(app.sidebar_top, 0, "and the view is at the top");

    app.on_key(key(KeyCode::Char('j')));
    app.on_key(key(KeyCode::Char('j')));
    let chosen = app.sidebar_sel;
    app.on_daemon(DaemonMsg::Agents(reference.agents.clone()));
    assert_eq!(app.sidebar_sel, chosen, "a refresh must not steal the cursor");
}

#[test]
fn a_recent_row_is_actionable() {
    let (mut app, _ids) = app_with_two_repos(4, 4);
    let rows = app.sidebar_rows();
    let Row::Recent(id) = rows[1] else {
        panic!("row 1 is a recent row, got {:?}", rows[1])
    };
    app.sidebar_sel = Some(rows[1]);
    assert_eq!(app.selected_agent(), Some(id));
    assert_eq!(
        app.selected_repo(),
        app.agents.iter().find(|a| a.id == id).map(|a| a.repo)
    );
}

#[test]
fn digits_number_the_recent_block_first_and_never_twice() {
    let (app, _ids) = app_with_two_repos(4, 4);
    let recent = recent_ids(&app.agents, NOW);
    let ordered = app.ordered_agent_ids();
    assert_eq!(
        ordered[..recent.len()],
        recent[..],
        "the first digits are the recent block"
    );
    let mut seen = std::collections::HashSet::new();
    for id in &ordered {
        assert!(seen.insert(*id), "agent numbered twice");
    }
    assert_eq!(ordered.len(), app.agents.len(), "every agent gets a number");
    assert_eq!(app.numbered_agent('1'), Some(recent[0]));
}

#[test]
fn cmd_digit_opens_the_labelled_agent() {
    let (mut app, ids) = app_with_agents(3);
    app.on_key(cmd('2'));
    assert_eq!(app.active_agent, Some(ids[1]), "the agent opens in the main area");
    assert!(matches!(app.focus, Focus::Panes), "focus moves into the session");
}

#[test]
fn cmd_digit_past_last_agent_is_a_consumed_noop() {
    let (mut app, _ids) = app_with_agents(2);
    let flow = app.on_key(cmd('9'));
    assert!(matches!(flow, Flow::Continue));
    assert_eq!(app.active_agent, None, "out-of-range digit opened nothing");
    assert!(sent(&mut app).is_empty());
}

#[test]
fn ctrl_b_prefix_then_digit_opens() {
    let (mut app, ids) = app_with_agents(3);
    app.on_key(ctrl('b'));
    assert!(app.prefix, "Ctrl+B arms the prefix");
    assert!(
        app.numeric_overlay_active(),
        "the overlay is up while the prefix is armed"
    );
    app.on_key(key(KeyCode::Char('3')));
    assert!(!app.prefix, "the digit disarms the prefix");
    assert_eq!(app.active_agent, Some(ids[2]), "the agent opens in the main area");
    assert!(matches!(app.focus, Focus::Panes));
}

#[test]
fn ctrl_b_prefix_non_digit_does_not_open() {
    let (mut app, _ids) = app_with_agents(3);
    app.on_key(ctrl('b'));
    app.on_key(key(KeyCode::Esc));
    assert!(!app.prefix);
    assert_eq!(app.active_agent, None, "Esc after the prefix opened nothing");
}

fn half_blank(primary: TerminalId) -> Layout {
    Layout::Split {
        axis: Axis::LeftRight,
        ratio: HALF,
        first: Box::new(Layout::Leaf { terminal: Some(primary) }),
        second: Box::new(Layout::Leaf { terminal: None }),
    }
}

#[test]
fn restoring_a_saved_layout_respawns_its_shells() {
    let (mut app, ids) = app_with_agents(1);
    let id = ids[0];
    let primary = app.agents.iter().find(|a| a.id == id).unwrap().primary_terminal;
    app.saved_layouts.set(id, half_blank(primary));

    app.activate(id);

    let payloads = app.tree.payloads();
    assert_eq!(payloads.len(), 2, "the split geometry is restored");
    assert!(payloads.contains(&primary), "the primary kept its terminal");
    let refilled = *payloads.iter().find(|t| **t != primary).unwrap();
    assert_eq!(
        app.terminals.get(refilled),
        Some(&id),
        "the new terminal is registered to this agent"
    );

    let spawn = sent(&mut app).into_iter().find_map(|m| match m {
        ClientMsg::SpawnShell { terminal, like } => Some((terminal, like)),
        _ => None,
    });
    assert_eq!(
        spawn,
        Some((refilled, primary)),
        "a SpawnShell must go out for the refilled pane"
    );
}

#[test]
fn a_restored_split_renders_as_two_live_panes() {
    let (mut app, ids) = app_with_agents(1);
    let id = ids[0];
    let primary = app.agents.iter().find(|a| a.id == id).unwrap().primary_terminal;
    app.saved_layouts.set(id, half_blank(primary));
    app.activate(id);

    let content: String = match app.render_panes(Rect::new(0, 0, 60, 10)) {
        PanesFrame::Tiled(frames) => frames.iter().map(|f| f.title.as_str()).collect(),
        PanesFrame::Empty(_) => panic!("panes expected"),
    };
    assert!(
        !content.contains("empty"),
        "no dead placeholder pane should survive the restore, got: {content}"
    );
    assert!(
        content.contains("sh \u{b7}"),
        "the refilled pane renders as a shell, got: {content}"
    );
}

#[test]
fn switching_back_to_a_live_tree_does_not_respawn_its_pending_pane() {
    let (mut app, ids) = app_with_agents(2);
    app.activate(ids[0]);
    app.tree.split(Axis::LeftRight);
    assert!(app.tree.focused_payload().is_none(), "pane is pending");

    app.activate(ids[1]);
    app.activate(ids[0]);

    let spawns = sent(&mut app)
        .into_iter()
        .filter(|m| matches!(m, ClientMsg::SpawnShell { .. }))
        .count();
    assert_eq!(spawns, 0, "a pending pane must not be refilled");
}

fn run_create_form(keys: &str, tab_at: Option<usize>) -> Option<ClientMsg> {
    let (mut app, ids) = app_with_agents(1);
    app.focus = Focus::Sidebar;
    app.sidebar_sel = Some(Row::Agent(ids[0]));
    app.on_key(key(KeyCode::Char('n')));
    assert_eq!(app.input, InputMode::Creating, "`n` opens the create form");

    for (i, c) in keys.chars().enumerate() {
        if tab_at == Some(i) {
            app.on_key(key(KeyCode::Tab));
        }
        app.on_key(key(KeyCode::Char(c)));
    }
    app.on_key(key(KeyCode::Enter));
    sent(&mut app).into_iter().next()
}

#[test]
fn create_form_dispatches_branch_and_task() {
    let msg = run_create_form("fix-xdo it", Some(5));
    assert_eq!(
        msg,
        Some(ClientMsg::CreateAgent {
            repo: repo_id("/r"),
            branch: "fix-x".into(),
            prompt: Some("do it".into()),
        })
    );
}

#[test]
fn create_form_without_a_task_sends_no_prompt() {
    let msg = run_create_form("fix-x", None);
    assert_eq!(
        msg,
        Some(ClientMsg::CreateAgent {
            repo: repo_id("/r"),
            branch: "fix-x".into(),
            prompt: None,
        })
    );
}

#[test]
fn create_form_still_requires_a_branch() {
    let msg = run_create_form("do it", Some(0));
    assert_eq!(msg, None, "no branch, no agent");
}

#[test]
fn create_form_renders_both_fields() {
    let mut app = new_app(100, 40);
    app.repos = vec![repo("/r", "r")];
    app.input = InputMode::Creating;
    app.create_repo = Some(repo_id("/r"));
    app.create_field = Field::Branch;
    app.create_buf = "fix-x".into();
    app.task_buf = "do it".into();

    let content = app.render_status().text;
    assert!(
        content.contains("branch: fix-x") && content.contains("task: do it"),
        "both fields render, got: {content}"
    );
    assert_eq!(
        content,
        " new agent in r — branch: fix-x\u{2588}  task: do it  (tab switch \u{b7} enter create \u{b7} task optional)"
    );
}

fn run_sidebar(keys: &[KeyCode]) -> (App, Option<ClientMsg>) {
    let (mut app, ids) = app_with_agents(1);
    app.home = Some("/home/me".into());
    app.focus = Focus::Sidebar;
    app.sidebar_sel = Some(Row::Agent(ids[0]));
    for k in keys {
        app.on_key(key(*k));
    }
    let msg = sent(&mut app).into_iter().next();
    (app, msg)
}

fn chars(s: &str) -> Vec<KeyCode> {
    s.chars().map(KeyCode::Char).collect()
}

#[test]
fn lowercase_h_opens_head_in_the_selected_repo() {
    let (app, msg) = run_sidebar(&[KeyCode::Char('h')]);
    assert_eq!(app.input, InputMode::Normal, "`h` opens no prompt");
    assert_eq!(msg, Some(ClientMsg::CreateHeadAgent { repo: repo_id("/r") }));
}

#[test]
fn uppercase_h_prompts_for_a_dir_then_creates_head_there() {
    let mut keys = vec![KeyCode::Char('H')];
    keys.extend(chars("/repos/other"));
    keys.push(KeyCode::Enter);
    let (app, msg) = run_sidebar(&keys);
    assert_eq!(app.input, InputMode::Normal, "Enter closes the prompt");
    assert_eq!(
        msg,
        Some(ClientMsg::CreateHeadAgentAt { path: "/repos/other".into() }),
        "the typed path goes out as a by-path HEAD session — not the selected repo"
    );
}

#[test]
fn head_prompt_expands_tilde_and_cancels_when_empty() {
    let mut keys = vec![KeyCode::Char('H')];
    keys.extend(chars("~/x"));
    keys.push(KeyCode::Enter);
    let (_, msg) = run_sidebar(&keys);
    let home = std::path::Path::new("/home/me").join("x").to_str().unwrap().to_string();
    assert_eq!(msg, Some(ClientMsg::CreateHeadAgentAt { path: home }));

    let (app, msg) = run_sidebar(&[KeyCode::Char('H'), KeyCode::Enter]);
    assert_eq!(msg, None, "an empty dir creates nothing");
    assert_eq!(app.input, InputMode::Normal);

    let (app, msg) = run_sidebar(&[KeyCode::Char('H'), KeyCode::Char('x'), KeyCode::Esc]);
    assert_eq!(msg, None, "Esc creates nothing");
    assert_eq!(app.input, InputMode::Normal);
}

#[test]
fn head_prompt_renders_its_single_field() {
    let mut app = new_app(100, 40);
    app.input = InputMode::CreatingHead;
    app.create_field = Field::Dir;
    app.dir_buf = "~/Repos/amux".into();

    let content = app.render_status().text;
    assert!(
        content.contains("HEAD session") && content.contains("dir: ~/Repos/amux"),
        "the HEAD prompt renders its field, got: {content}"
    );
    assert!(
        !content.contains("branch"),
        "a HEAD session has no branch field, got: {content}"
    );
}

#[test]
fn bare_digit_is_not_a_shortcut() {
    let (mut app, _ids) = app_with_agents(3);
    app.on_key(key(KeyCode::Char('1')));
    assert_eq!(
        app.active_agent, None,
        "a bare digit opened nothing — it is not a shortcut"
    );
}

#[test]
fn prev_agent_tracks_last_active_and_pingpongs() {
    let (mut app, ids) = app_with_agents(3);
    assert_eq!(app.prev_active_agent, None, "no previous until a second agent");
    let _ = app.swap_to_agent(ids[0]);
    assert_eq!(app.prev_active_agent, None, "the first activation leaves no previous");
    let _ = app.swap_to_agent(ids[1]);
    assert_eq!(
        app.prev_active_agent,
        Some(ids[0]),
        "leaving agent 0 makes it the previous"
    );
    let _ = app.swap_to_agent(ids[2]);
    assert_eq!(app.prev_active_agent, Some(ids[1]));
    let _ = app.swap_to_agent(ids[2]);
    assert_eq!(
        app.prev_active_agent,
        Some(ids[1]),
        "re-opening the active agent leaves the target alone"
    );
    let _ = app.swap_to_agent(ids[1]);
    assert_eq!(app.prev_active_agent, Some(ids[2]), "ping-pong back");
}

#[test]
fn ctrl_b_dash_opens_previous_agent_and_toggles() {
    let (mut app, ids) = app_with_agents(3);
    let _ = app.swap_to_agent(ids[0]);
    let _ = app.swap_to_agent(ids[1]);
    app.on_key(ctrl('b'));
    app.on_key(key(KeyCode::Char('-')));
    assert_eq!(app.active_agent, Some(ids[0]), "opens the previous agent");
    assert!(matches!(app.focus, Focus::Panes), "focus is in the session");
    assert_eq!(
        app.prev_active_agent,
        Some(ids[1]),
        "the one we left becomes the target"
    );
    app.on_key(ctrl('b'));
    app.on_key(key(KeyCode::Char('-')));
    assert_eq!(app.active_agent, Some(ids[1]), "a second press bounces back");
}

#[test]
fn ctrl_b_dash_is_noop_without_previous() {
    let (mut app, ids) = app_with_agents(2);
    let _ = app.swap_to_agent(ids[0]);
    app.on_key(ctrl('b'));
    app.on_key(key(KeyCode::Char('-')));
    assert_eq!(app.active_agent, Some(ids[0]), "still on the only agent opened");
}

#[test]
fn agent_removal_clears_previous_target() {
    let (mut app, ids) = app_with_agents(2);
    let _ = app.swap_to_agent(ids[0]);
    let _ = app.swap_to_agent(ids[1]);
    app.on_daemon(DaemonMsg::AgentRemoved { id: ids[0] });
    assert_eq!(app.prev_active_agent, None);
    assert_eq!(app.previous_agent(), None, "no target left to jump to");
}

#[test]
fn daemon_previous_seeds_the_jump_target() {
    let (mut app, ids) = app_with_agents(2);
    let _ = app.swap_to_agent(ids[1]);
    assert_eq!(
        app.prev_active_agent, None,
        "restoring the active agent from nothing leaves no previous"
    );
    app.on_daemon(DaemonMsg::Previous(Some(ids[0])));
    assert_eq!(
        app.prev_active_agent,
        Some(ids[0]),
        "seed the jump target from the daemon's persisted previous"
    );
    app.on_key(ctrl('b'));
    app.on_key(key(KeyCode::Char('-')));
    assert_eq!(
        app.active_agent,
        Some(ids[0]),
        "Ctrl+B - jumps to the seeded previous immediately after a restart"
    );
}

/// A pane whose text is too long for its width, so the terminal wrapped it.
fn app_with_wrapped_text(text: &str, cols: u16, rows: u16) -> (App, TerminalId, Rect) {
    let mut app = new_app(100, 40);
    let t = new_terminal();
    app.tree.open(t);
    app.terminals.set(t, new_agent());
    app.parsers.set(t, screen(rows, cols, text.as_bytes()));
    (app, t, Rect::new(0, 0, cols, rows))
}

#[test]
fn a_double_clicked_url_survives_wrapping() {
    let url = "https://example.com/a/very/long/path/x?q=1";
    let (mut app, t, inner) = app_with_wrapped_text(&format!("see {url} ok"), 20, 6);
    let wrapped: Vec<bool> = (0..3).map(|y| app.parsers.get(t).unwrap().row_wrapped(y)).collect();
    assert_eq!(wrapped, vec![true, true, false], "the text must wrap");
    for (col, row) in [(8u16, 0u16), (4, 1), (2, 2)] {
        let sel = token_selection(app.parsers.get(t).unwrap(), t, inner, col, row)
            .unwrap_or_else(|| panic!("a token at ({col},{row})"));
        app.selection = Some(Selection { active: true, ..sel });
        assert_eq!(
            app.selection_text().as_deref(),
            Some(url),
            "double-click at ({col},{row})"
        );
    }

    let sel = token_selection(app.parsers.get(t).unwrap(), t, inner, 8, 2).expect("the `ok` token");
    app.selection = Some(Selection { active: true, ..sel });
    assert_eq!(app.selection_text().as_deref(), Some("ok"));
}

#[test]
fn dragging_across_a_wrap_copies_one_line() {
    let url = "https://example.com/a/very/long/path/x?q=1";
    let (mut app, t, inner) = app_with_wrapped_text(&format!("see {url} ok"), 20, 6);
    app.selection = Some(Selection {
        terminal: t,
        inner,
        anchor: (0, 0),
        head: (8, 2),
        active: true,
    });
    assert_eq!(
        app.selection_text().as_deref(),
        Some(&format!("see {url} ok")[..]),
        "wrapped rows join with nothing between them"
    );

    let (mut app, t, inner) = app_with_wrapped_text("alpha\r\nbeta\r\n", 20, 6);
    app.selection = Some(Selection {
        terminal: t,
        inner,
        anchor: (0, 0),
        head: (3, 1),
        active: true,
    });
    assert_eq!(app.selection_text().as_deref(), Some("alpha\nbeta"));
}

// --- more of what keys, messages and the mouse do ---

#[test]
fn keys_reach_the_focused_pane() {
    let (mut app, ids) = app_with_agents(1);
    app.activate(ids[0]);
    let t = app.tree.focused_payload().unwrap();
    sent(&mut app);
    app.on_key(key(KeyCode::Up));
    app.on_key(key(KeyCode::Char('x')));
    assert_eq!(
        sent(&mut app),
        vec![
            ClientMsg::Input { terminal: t, bytes: b"\x1b[A".to_vec() },
            ClientMsg::Input { terminal: t, bytes: b"x".to_vec() },
        ]
    );
    // The program asks for application cursor keys.
    app.on_daemon(DaemonMsg::Output { terminal: t, bytes: b"\x1b[?1h".to_vec() });
    app.on_key(key(KeyCode::Up));
    assert_eq!(
        sent(&mut app),
        vec![ClientMsg::Input { terminal: t, bytes: b"\x1bOA".to_vec() }]
    );
}

#[test]
fn keys_reach_the_focused_mini() {
    let (mut app, ids) = app_with_agents(2);
    app.open_mini(ids[1]);
    assert_eq!(app.focus, Focus::Mini(0));
    let t = app.mini_terminal(0).unwrap();
    sent(&mut app);
    app.on_key(key(KeyCode::Char('y')));
    assert_eq!(
        sent(&mut app),
        vec![ClientMsg::Input { terminal: t, bytes: b"y".to_vec() }]
    );
    // Hidden, the minis give the focus back to where it came from.
    app.on_key(ctrl('b'));
    app.on_key(key(KeyCode::Char('z')));
    assert_eq!(app.focus, Focus::Sidebar);
    assert!(sent(&mut app).contains(&ClientMsg::Detach { terminal: t }));
    app.on_key(ctrl('b'));
    app.on_key(key(KeyCode::Char('z')));
    assert!(sent(&mut app).iter().any(|m| matches!(m, ClientMsg::Attach { .. })));
}

#[test]
fn minis_can_be_minimized_promoted_and_closed() {
    let (mut app, ids) = app_with_agents(3);
    app.open_mini(ids[0]);
    app.open_mini(ids[1]);
    assert_eq!(app.minis, vec![ids[0], ids[1]]);
    app.on_key(ctrl('b'));
    app.on_key(key(KeyCode::Char('-')));
    assert_eq!(app.minimized, vec![ids[1]]);
    let band = app.regions().1.unwrap();
    assert_eq!(app.mini_rects(band)[1].width, 12);
    app.on_key(ctrl('b'));
    app.on_key(key(KeyCode::Char('-')));
    assert!(app.minimized.is_empty());
    app.on_key(ctrl('b'));
    app.on_key(key(KeyCode::Enter));
    assert_eq!(app.active_agent, Some(ids[1]));
    assert_eq!(app.minis, vec![ids[0]]);
    // The agent in the main area cannot be a mini as well.
    app.open_mini(ids[1]);
    assert_eq!(app.minis, vec![ids[0]]);
    app.open_mini(ids[0]);
    app.on_key(ctrl('b'));
    app.on_key(key(KeyCode::Char('x')));
    assert!(app.minis.is_empty());
    assert_eq!(app.focus, Focus::Panes);
}

#[test]
fn a_split_asks_for_a_shell_and_closing_it_ends_it() {
    let (mut app, ids) = app_with_agents(1);
    app.activate(ids[0]);
    let primary = app.tree.focused_payload().unwrap();
    let fresh = app.fresh[0];
    sent(&mut app);
    app.on_key(ctrl('b'));
    app.on_key(key(KeyCode::Char('%')));
    let msgs = sent(&mut app);
    assert!(msgs.contains(&ClientMsg::SpawnShell { terminal: fresh, like: primary }));
    assert_eq!(app.tree.payloads(), vec![primary, fresh]);
    // Both panes are attached at the size of their insides: 70 columns of area, split in halves.
    assert_eq!(app.attached.get(primary), Some(&Size { cols: 33, rows: 37 }));
    assert_eq!(app.attached.get(fresh), Some(&Size { cols: 33, rows: 37 }));

    app.on_key(ctrl('b'));
    app.on_key(key(KeyCode::Char('x')));
    let msgs = sent(&mut app);
    assert_eq!(msgs[0], ClientMsg::CloseTerminal { terminal: fresh });
    assert_eq!(app.tree.payloads(), vec![primary]);
    assert!(app.terminals.get(fresh).is_none() && app.parsers.get(fresh).is_none());

    // Closing the primary only stops viewing it.
    app.on_key(ctrl('b'));
    app.on_key(key(KeyCode::Char('x')));
    let msgs = sent(&mut app);
    assert!(!msgs.iter().any(|m| matches!(m, ClientMsg::CloseTerminal { .. })));
    assert!(msgs.contains(&ClientMsg::Detach { terminal: primary }));
    assert_eq!(app.focus, Focus::Sidebar);
}

#[test]
fn without_a_fresh_id_nothing_is_split() {
    let (mut app, ids) = app_with_agents(1);
    app.activate(ids[0]);
    app.fresh.clear();
    app.split(Axis::TopBottom);
    assert_eq!(app.tree.payloads().len(), 1);
}

#[test]
fn resize_mode_moves_the_boundary() {
    let (mut app, ids) = app_with_agents(1);
    app.activate(ids[0]);
    app.split(Axis::LeftRight);
    let left = app.tree.payloads()[0];
    app.on_key(ctrl('b'));
    app.on_key(key(KeyCode::Char('r')));
    assert!(app.resize_mode);
    app.on_key(key(KeyCode::Left));
    // 0.45 of 70 columns is 31.5, which rounds up to 32, less the borders.
    assert_eq!(app.attached.get(left), Some(&Size { cols: 30, rows: 37 }));
    app.on_key(key(KeyCode::Char('L')));
    assert_eq!(app.attached.get(left), Some(&Size { cols: 33, rows: 37 }));
    app.on_key(key(KeyCode::Esc));
    assert!(!app.resize_mode);
    // A capital after the prefix snaps at once and stays in the mode.
    app.on_key(ctrl('b'));
    app.on_key(key(KeyCode::Char('H')));
    assert!(app.resize_mode);
    assert_eq!(app.attached.get(left), Some(&Size { cols: 21, rows: 37 }));
}

#[test]
fn reconciling_twice_attaches_nothing_new() {
    let (mut app, ids) = app_with_agents(2);
    app.activate(ids[0]);
    app.split(Axis::TopBottom);
    app.open_mini(ids[1]);
    sent(&mut app);
    app.reconcile();
    let msgs = sent(&mut app);
    assert!(
        !msgs
            .iter()
            .any(|m| matches!(m, ClientMsg::Attach { .. } | ClientMsg::Detach { .. })),
        "{msgs:?}"
    );
    assert_eq!(msgs.len(), 4);
    assert!(matches!(msgs[0], ClientMsg::SetLayout { .. }));
    assert_eq!(msgs[1], ClientMsg::SetMinis(vec![ids[1]]));
    assert_eq!(msgs[2], ClientMsg::SetActive(Some(ids[0])));
    assert_eq!(msgs[3], ClientMsg::SetPrevious(None));
}

#[test]
fn a_resize_reserves_a_scrolled_window() {
    let (mut app, ids) = app_with_agents(1);
    app.activate(ids[0]);
    let t = app.tree.focused_payload().unwrap();
    app.on_scroll_view(t, 5, 50, b"old");
    sent(&mut app);
    app.handle_event(Some(Event::Resize(120, 50)));
    let msgs = sent(&mut app);
    assert_eq!(
        msgs[0],
        ClientMsg::Attach { terminal: t, size: Size { cols: 88, rows: 47 } }
    );
    assert_eq!(msgs[1], ClientMsg::Scroll { terminal: t, lines: 0 });
}

#[test]
fn a_snapshot_starts_a_fresh_screen() {
    let (mut app, ids) = app_with_agents(1);
    app.activate(ids[0]);
    let t = app.tree.focused_payload().unwrap();
    app.on_daemon(DaemonMsg::Output { terminal: t, bytes: b"old".to_vec() });
    assert!(contents(app.screen_for(t).unwrap()).contains("old"));
    app.on_daemon(DaemonMsg::OutputSnapshot { terminal: t, bytes: b"new".to_vec() });
    assert_eq!(contents(app.screen_for(t).unwrap()), "new");
    // A snapshot for a terminal that is not attached is not kept.
    let other = new_terminal();
    app.on_daemon(DaemonMsg::OutputSnapshot { terminal: other, bytes: b"x".to_vec() });
    assert!(app.screen_for(other).is_none());
}

#[test]
fn passthrough_hands_movement_to_the_program() {
    let (mut app, ids) = app_with_agents(1);
    app.activate(ids[0]);
    let t = app.tree.focused_payload().unwrap();
    app.on_daemon(DaemonMsg::TerminalApp { terminal: t, passthrough: true });
    sent(&mut app);
    app.on_key(ctrl('h'));
    assert_eq!(sent(&mut app), vec![ClientMsg::Input { terminal: t, bytes: vec![8] }]);
    assert_eq!(app.focus, Focus::Panes);
    // At its edge, the program hands movement back.
    app.on_daemon(DaemonMsg::Navigate { dir: Dir::Left });
    assert_eq!(app.focus, Focus::Sidebar);
    app.on_key(ctrl('l'));
    assert_eq!(app.focus, Focus::Panes);
}

#[test]
fn removing_an_agent_clears_everything_of_it() {
    let (mut app, ids) = app_with_agents(3);
    app.activate(ids[0]);
    app.split(Axis::LeftRight);
    app.activate(ids[1]);
    app.open_mini(ids[0]);
    app.sidebar_sel = Some(Row::Agent(ids[0]));
    app.on_daemon(DaemonMsg::AgentRemoved { id: ids[0] });
    assert!(app.agents.iter().all(|a| a.id != ids[0]));
    assert!(app.trees.get(ids[0]).is_none());
    assert!(app.minis.is_empty());
    assert_eq!(app.prev_active_agent, None);
    assert!(app.terminals.items.iter().all(|(_, a)| *a != ids[0]));
    assert_ne!(app.focus, Focus::Mini(0));
    assert_ne!(app.sidebar_sel, Some(Row::Agent(ids[0])));
    assert_eq!(app.active_agent, Some(ids[1]));
}

#[test]
fn an_exit_closes_the_pane() {
    let (mut app, ids) = app_with_agents(1);
    app.activate(ids[0]);
    let t = app.tree.focused_payload().unwrap();
    app.on_scroll_view(t, 3, 9, b"x");
    app.on_daemon(DaemonMsg::TerminalExited { terminal: t });
    assert!(app.tree.is_empty() && app.scroll.is_none());
    assert_eq!(app.focus, Focus::Sidebar);
    assert!(app.attached.get(t).is_none() && app.parsers.get(t).is_none());
}

#[test]
fn agents_change_as_the_daemon_says() {
    let (mut app, ids) = app_with_agents(2);
    app.now = Moment { secs: NOW.secs + 7, nanos: 5 };
    app.on_daemon(DaemonMsg::StateChanged {
        id: ids[1],
        state: AgentState::Working,
        glyph: '\u{25cf}',
    });
    app.on_daemon(DaemonMsg::UnreadChanged { id: ids[1], unread: true });
    app.on_daemon(DaemonMsg::OpenedChanged { id: ids[1], at: ago(-60) });
    let a = app.agents.iter().find(|a| a.id == ids[1]).unwrap();
    assert_eq!((&a.state, a.glyph, a.unread), (&AgentState::Working, '\u{25cf}', true));
    assert_eq!((a.last_activity, a.last_opened), (app.now, ago(-60)));
    // Nothing happens for an agent that is not there.
    let before = app.agents.clone();
    app.on_daemon(DaemonMsg::UnreadChanged { id: new_agent(), unread: true });
    assert_eq!(app.agents, before);
}

#[test]
fn a_new_agent_gets_the_cursor_and_a_repo_comes_once() {
    let (mut app, _ids) = app_with_agents(2);
    let a = agent_with(AgentState::Starting, false);
    let id = a.id;
    app.on_daemon(DaemonMsg::AgentAdded(a));
    assert_eq!(app.sidebar_sel, Some(Row::Agent(id)));
    app.on_daemon(DaemonMsg::RepoAdded(repo("/r", "again")));
    app.on_daemon(DaemonMsg::RepoAdded(repo("/q", "q")));
    let names: Vec<&str> = app.repos.iter().map(|r| r.name.as_str()).collect();
    assert_eq!(names, vec!["r", "q"]);
    assert_eq!(app.sidebar_sel, Some(Row::Agent(id)), "a placed cursor stays");
}

#[test]
fn restored_minis_are_live_and_not_active() {
    let (mut app, ids) = app_with_agents(3);
    app.activate(ids[0]);
    let ghost = new_agent();
    app.on_daemon(DaemonMsg::Minis(vec![ids[2], ghost, ids[0], ids[1]]));
    assert_eq!(app.minis, vec![ids[2], ids[1]]);
}

#[test]
fn the_active_agent_is_restored_with_its_layout() {
    let (mut app, ids) = app_with_agents(2);
    let primary = app.agents.iter().find(|a| a.id == ids[1]).unwrap().primary_terminal;
    app.on_daemon(DaemonMsg::Layouts(vec![
        (ids[1], Layout::Leaf { terminal: None }),
        (ids[1], half_blank(primary)),
    ]));
    assert_eq!(app.ids_wanted(), 2);
    app.on_daemon(DaemonMsg::Active(Some(ids[1])));
    assert_eq!(app.active_agent, Some(ids[1]));
    assert_eq!(app.tree.payloads().len(), 2);
    assert_eq!(app.ids_wanted(), 1);
    // An agent that is gone is not restored.
    app.on_daemon(DaemonMsg::Active(Some(new_agent())));
    assert_eq!(app.active_agent, Some(ids[1]));
    app.on_daemon(DaemonMsg::Previous(Some(new_agent())));
    assert_eq!(app.prev_active_agent, None);
}

#[test]
fn a_restart_brings_the_same_panes_back() {
    let (mut app, ids) = app_with_agents(1);
    app.activate(ids[0]);
    app.split(Axis::LeftRight);
    app.split(Axis::TopBottom);
    app.on_key(ctrl('b'));
    app.on_key(key(KeyCode::Char('H')));
    let saved = sent(&mut app)
        .into_iter()
        .filter_map(|m| match m {
            ClientMsg::SetLayout { agent, layout } => Some((agent, layout.unwrap())),
            _ => None,
        })
        .last()
        .unwrap();

    let mut again = new_app(100, 40);
    again.on_daemon(DaemonMsg::Repos(app.repos.clone()));
    again.on_daemon(DaemonMsg::Agents(app.agents.clone()));
    again.on_daemon(DaemonMsg::Layouts(vec![saved]));
    again.on_daemon(DaemonMsg::Active(Some(ids[0])));
    assert_eq!(again.tree.payloads(), app.tree.payloads());
    assert_eq!(again.tree.to_layout(), app.tree.to_layout());
    assert_eq!(again.attached.items.len(), 3);
}

#[test]
fn deleting_asks_when_the_daemon_wants_it() {
    let (mut app, ids) = app_with_agents(1);
    app.focus = Focus::Sidebar;
    app.sidebar_sel = Some(Row::Agent(ids[0]));
    app.on_key(key(KeyCode::Char('d')));
    assert_eq!(sent(&mut app), vec![ClientMsg::DeleteAgent { id: ids[0], force: false }]);
    for (answer, want) in [
        (KeyCode::Char('n'), vec![]),
        (KeyCode::Char('y'), vec![ClientMsg::DeleteAgent { id: ids[0], force: true }]),
        (KeyCode::Char('Y'), vec![ClientMsg::DeleteAgent { id: ids[0], force: true }]),
    ] {
        app.on_daemon(DaemonMsg::DeleteNeedsConfirm { id: ids[0], message: "dirty".into() });
        assert_eq!(app.input, InputMode::Confirming);
        assert_eq!(app.render_status().text, " dirty — delete anyway? y/n");
        app.on_key(key(answer));
        assert_eq!(sent(&mut app), want);
        assert_eq!(app.input, InputMode::Normal);
        assert_eq!(app.confirm_id, None);
    }
}

#[test]
fn the_repo_prompt_takes_two_fields() {
    let mut keys = vec![KeyCode::Char('N')];
    keys.extend(chars("/src/x"));
    keys.push(KeyCode::Enter);
    keys.extend(chars("fix"));
    keys.push(KeyCode::Backspace);
    keys.push(KeyCode::Enter);
    let (app, msg) = run_sidebar(&keys);
    assert_eq!(
        msg,
        Some(ClientMsg::CreateAgentAt { path: "/src/x".into(), branch: "fi".into() })
    );
    assert_eq!(app.input, InputMode::Normal);
    // Without a branch nothing is sent, and the prompt stays.
    let mut keys = vec![KeyCode::Char('N')];
    keys.extend(chars("/src/x"));
    keys.push(KeyCode::Enter);
    keys.push(KeyCode::Enter);
    let (app, msg) = run_sidebar(&keys);
    assert_eq!((app.input, msg), (InputMode::CreatingRepo, None));
}

#[test]
fn a_paste_into_a_prompt_loses_its_control_characters() {
    let (mut app, ids) = app_with_agents(1);
    app.focus = Focus::Sidebar;
    app.sidebar_sel = Some(Row::Agent(ids[0]));
    app.on_key(key(KeyCode::Char('n')));
    app.on_paste("fix\n-\u{1b}it\u{7f}");
    assert_eq!(app.create_buf, "fix-it");
    app.on_key(key(KeyCode::Tab));
    app.handle_event(Some(Event::Paste("do\r\nit".into())));
    assert_eq!(app.task_buf, "doit");
    // Modes that take keys for something else take no text.
    app.input = InputMode::Normal;
    app.prefix = true;
    app.on_paste("x");
    assert!(sent(&mut app).is_empty());
}

#[test]
fn scroll_mode_begins_by_key_where_there_is_history() {
    let (mut app, ids) = app_with_agents(1);
    app.activate(ids[0]);
    let t = app.tree.focused_payload().unwrap();
    sent(&mut app);
    app.on_key(ctrl('b'));
    app.on_key(key(KeyCode::Char('[')));
    assert_eq!(sent(&mut app), vec![ClientMsg::Scroll { terminal: t, lines: 1 }]);
    app.on_daemon(DaemonMsg::Output { terminal: t, bytes: b"\x1b[?1049h".to_vec() });
    app.on_key(ctrl('b'));
    app.on_key(key(KeyCode::Char('[')));
    assert!(sent(&mut app).is_empty());
    assert_eq!(app.info, "no scrollback here — this pane runs a full-screen app");
}

#[test]
fn a_control_key_after_the_prefix_goes_through() {
    let (mut app, ids) = app_with_agents(1);
    app.activate(ids[0]);
    let t = app.tree.focused_payload().unwrap();
    sent(&mut app);
    app.on_key(ctrl('b'));
    app.on_key(ctrl('b'));
    assert_eq!(sent(&mut app), vec![ClientMsg::Input { terminal: t, bytes: vec![2] }]);
}

#[test]
fn control_keys_after_the_prefix_are_no_commands() {
    let (mut app, ids) = app_with_agents(1);
    app.activate(ids[0]);
    let t = app.tree.focused_payload().unwrap();
    for (c, byte) in [('r', 0x12), ('x', 0x18), ('z', 0x1a), ('[', 0x1b), ('h', 0x08)] {
        sent(&mut app);
        app.on_key(ctrl('b'));
        app.on_key(ctrl(c));
        assert_eq!(
            sent(&mut app),
            vec![ClientMsg::Input { terminal: t, bytes: vec![byte] }],
            "Ctrl+{c}"
        );
        assert!(!app.resize_mode && !app.minis_hidden && app.scroll.is_none());
        assert_eq!(app.tree.focused_payload(), Some(t), "the pane stays");
    }
    // The same letters without Ctrl are commands.
    app.on_key(ctrl('b'));
    app.on_key(key(KeyCode::Char('r')));
    assert!(app.resize_mode);
    assert_eq!(sent(&mut app), vec![]);
}

#[test]
fn the_next_unread_agent_opens_going_round() {
    let (mut app, ids) = app_with_agents(3);
    app.on_key(ctrl('b'));
    app.on_key(key(KeyCode::Tab));
    assert_eq!(app.info, "no unread agents");
    for a in app.agents.iter_mut() {
        a.unread = a.id == ids[0] || a.id == ids[2];
    }
    app.sidebar_sel = Some(Row::Agent(ids[0]));
    app.jump_next_unread();
    assert_eq!(app.active_agent, Some(ids[2]));
    app.jump_next_unread();
    assert_eq!(app.active_agent, Some(ids[0]));
}

#[test]
fn the_viewed_agent_is_reported_once() {
    let (mut app, ids) = app_with_agents(1);
    app.activate(ids[0]);
    sent(&mut app);
    app.sync_focus();
    app.sync_focus();
    assert_eq!(sent(&mut app), vec![ClientMsg::Focus { agent: Some(ids[0]) }]);
    app.on_key(ctrl('h'));
    app.sync_focus();
    assert_eq!(sent(&mut app), vec![ClientMsg::Focus { agent: None }]);
}

#[test]
fn a_super_key_shows_the_numbers_while_held() {
    let (mut app, _ids) = app_with_agents(1);
    let mut k = key(KeyCode::Super);
    assert_eq!(app.handle_event(Some(Event::Key(k))), Flow::Continue);
    assert!(app.super_held);
    k.kind = amux::input::KeyEventKind::Release;
    app.handle_event(Some(Event::Key(k)));
    assert!(!app.super_held);
    // A release of any other key is no input.
    let mut q = ctrl('q');
    q.kind = amux::input::KeyEventKind::Release;
    assert_eq!(app.handle_event(Some(Event::Key(q))), Flow::Continue);
    assert_eq!(app.handle_event(None), Flow::Quit);
    assert_eq!(app.handle_daemon(None), Flow::Quit);
}

#[test]
fn sidebar_keys_ask_the_daemon() {
    for (k, want) in [
        ('r', true),
        ('P', true),
        ('m', true),
    ] {
        let (mut app, ids) = app_with_agents(2);
        app.focus = Focus::Sidebar;
        app.sidebar_sel = Some(Row::Agent(ids[1]));
        app.on_key(key(KeyCode::Char(k)));
        let msgs = sent(&mut app);
        assert_eq!(!msgs.is_empty(), want, "{k}");
        match k {
            'r' => assert_eq!(msgs, vec![ClientMsg::ResumeAgent { id: ids[1] }]),
            'P' => assert_eq!(msgs, vec![ClientMsg::DoctorRepo { repo: repo_id("/r") }]),
            _ => assert_eq!(app.minis, vec![ids[1]]),
        }
    }
    let (mut app, _ids) = app_with_agents(1);
    app.focus = Focus::Sidebar;
    assert_eq!(app.on_key(key(KeyCode::Char('q'))), Flow::Quit);
}

#[test]
fn a_click_over_a_mini_focuses_it_and_the_wheel_scrolls_it() {
    let (mut app, ids) = app_with_agents(2);
    app.activate(ids[0]);
    app.open_mini(ids[1]);
    app.focus = Focus::Panes;
    let t = app.mini_terminal(0).unwrap();
    let band = app.regions().1.unwrap();
    let r = app.mini_rects(band)[0];
    sent(&mut app);
    app.on_mouse(mouse(MouseEventKind::ScrollUp, r.x + 1, r.y + 1));
    assert_eq!(sent(&mut app), vec![ClientMsg::Scroll { terminal: t, lines: 3 }]);
    app.on_mouse(mouse(MouseEventKind::Down(MouseButton::Left), r.x + 1, r.y + 1));
    assert_eq!((app.focus, app.focus_return), (Focus::Mini(0), Focus::Panes));
    // A minimized mini has nothing to scroll.
    app.minimized = vec![ids[1]];
    let r = app.mini_rects(band)[0];
    app.on_mouse(mouse(MouseEventKind::ScrollUp, r.x + 1, r.y + 1));
    assert!(sent(&mut app).is_empty());
}

#[test]
fn an_error_shows_until_the_next_key() {
    let (mut app, _ids) = app_with_agents(1);
    app.on_daemon(DaemonMsg::Error { message: "broken".into() });
    assert_eq!(
        app.render_status().text,
        " \u{26a0} broken \u{b7} (press any key to dismiss)"
    );
    app.on_key(key(KeyCode::Char('z')));
    assert_eq!(app.status, "");
    app.on_daemon(DaemonMsg::DoctorReport {
        repo: repo_id("/r"),
        pruned: vec!["x".into()],
        skipped: vec![],
    });
    assert_eq!(app.info, "doctor: pruned 1 (x)");
}

#[test]
fn a_tiny_emulator_takes_no_bytes_it_cannot_hold() {
    // A glyph needs as many columns as it takes cells; what stands around it is shown.
    assert_eq!(contents(&screen(2, 1, "漢".as_bytes())), "");
    assert_eq!(contents(&screen(3, 1, "a漢b".as_bytes())), "ab");
    assert_eq!(contents(&screen(2, 2, "漢".as_bytes())), "漢");
    assert_eq!(contents(&screen(24, 2, "漢字".as_bytes())), "漢字");
    for cols in [1, 2] {
        assert_eq!(contents(&screen(2, cols, "\u{17d8}".as_bytes())), "");
        assert_eq!(contents(&screen(4, cols, "a\u{17d8}b".as_bytes())), "ab");
        assert_eq!(contents(&screen(2, cols, b"a")), "a");
    }
    assert_eq!(contents(&screen(2, 3, "漢".as_bytes())), "漢");
    assert_eq!(contents(&screen(2, 3, "a\u{17d8}b".as_bytes())), "a\n\u{17d8}b");
    // Text that wraps in narrow and low screens.
    for (rows, cols) in [(2, 1), (2, 2), (2, 3), (3, 1)] {
        let e = screen(rows, cols, b"the quick brown fox\tjumps\x1b[5@\x1b[9P\x1b[2J\x1b[Hx");
        assert_eq!(contents(&e), "x");
    }
    // Half of a wide glyph would be cut off: it is blanked.
    let cut = screen(3, 4, "ab漢".as_bytes()).resized(3, 3).fed(b"\r\x1b[Kx");
    assert_eq!(contents(&cut), "x");
    let grown = screen(3, 4, "ab漢".as_bytes()).resized(4, 6).fed(b"\r\x1b[Kx");
    assert_eq!(contents(&grown), "x");
}

#[test]
fn a_narrower_screen_keeps_what_fits() {
    for (text, cols, kept) in [
        ("漢 and text", 79, "漢 and text"),
        ("漢字語", 4, "漢字"),
        ("漢字語", 2, "漢"),
        ("漢字語", 3, "漢"),
        ("ab漢cd", 3, "ab"),
        ("漢字語", 1, ""),
        ("│é─●", 3, "│é─"),
        ("abcd", 1, "a"),
    ] {
        let e = screen(24, 80, text.as_bytes()).resized(24, cols);
        assert_eq!(contents(&e), kept, "{text} {cols}");
        assert_eq!(e.vt.parser.screen().size(), (24, cols));
    }
    // A row that is dropped as a whole does not count.
    let e = screen(4, 8, "one\r\ntwo\r\n漢字".as_bytes());
    assert_eq!(contents(&e.resized(2, 3)), "one\ntwo");
    // What is not shown is looked after as well.
    let on_main = "ab漢\x1b[?1049hfull";
    for (cols, full, main) in [(4, "full", "ab漢"), (3, "ful", "ab")] {
        let e = screen(3, 8, on_main.as_bytes()).resized(3, cols);
        assert_eq!(contents(&e), full);
        let e = e.fed(b"\x1b[?1049l");
        assert_eq!(contents(&e), main);
        assert_eq!(contents(&e.fed(b"\x1b[1;3H\x1b[Kx")), "abx");
    }
    let on_alternate = "ab\x1b[?47h\x1b[1;1Hab漢\x1b[?47l";
    let e = screen(3, 8, on_alternate.as_bytes()).resized(3, 3);
    assert_eq!(contents(&e), "ab");
    assert_eq!(contents(&e.fed(b"\x1b[?47h\x1b[1;3Hx")), "abx");
    // What was unfinished goes on.
    let e = screen(3, 8, "ab漢\x1b[3".as_bytes()).resized(3, 3).fed(b"1mz");
    assert_eq!(contents(&e), "abz");
    assert_eq!(e.vt.parser.screen().cell(0, 2).unwrap().fgcolor(), vt100::Color::Idx(1));
    let e = screen(3, 8, b"ab\xe6\xbc\xa2\xe5\xad").resized(3, 3).fed(b"\x97");
    assert_eq!(contents(&e), "ab\n字");
    let e = screen(3, 8, "ab漢\x1b]0;a ti".as_bytes()).resized(3, 3).fed(b"tle\x07z");
    assert_eq!(contents(&e), "abz");
}

#[test]
fn resizing_does_what_the_terminal_does_but_for_halves() {
    let mut seed: u64 = 11;
    let mut next = move |n: usize| {
        seed = seed.wrapping_mul(6_364_136_223_846_793_005).wrapping_add(1_442_695_040_888_963_407);
        (seed >> 33) as usize % n
    };
    let pieces: Vec<&str> = vec![
        "a", "some text", "漢", "漢字語", "é", "e\u{301}", "\r", "\n", "\x1b[H", "\x1b[2;2H", "\x1b[3;7H",
        "\x1b[2@", "\x1b[P", "\x1b[K", "\x1b[1J", "\x1b[2;3r", "\x1b[?6h", "\x1b[?6l", "\x1b[?47h",
        "\x1b[?47l", "\x1b[?1h", "\x1b[?2004h", "\x1b[?1000h", "\x1b[7m", "\x1b[42m", "\x1b7", "\x1b8",
    ];
    let mut halves = 0;
    for _ in 0..1500 {
        let (rows, cols) = (2 + next(4) as u16, 4 + next(6) as u16);
        let mut raw = vt100::Parser::new(rows, cols, 0);
        let mut e = Emulator::new(rows, cols);
        for _ in 0..12 {
            let piece = pieces[next(pieces.len())].as_bytes();
            raw.process(piece);
            e = e.fed(piece);
        }
        let (rows, cols) = (1 + next(6) as u16, 1 + next(9) as u16);
        raw.screen_mut().set_size(rows, cols);
        e = e.resized(rows, cols);
        for _ in 0..2 {
            let (a, b) = (raw.screen(), e.vt.parser.screen());
            assert_eq!(a.size(), b.size());
            assert_eq!(a.cursor_position(), b.cursor_position());
            assert_eq!(a.alternate_screen(), b.alternate_screen());
            assert_eq!(a.input_mode_formatted(), b.input_mode_formatted());
            for row in 0..rows {
                assert_eq!(a.row_wrapped(row), b.row_wrapped(row));
                for col in 0..cols {
                    let (x, y) = (a.cell(row, col).unwrap(), b.cell(row, col).unwrap());
                    if x.is_wide() && col == cols - 1 {
                        assert_eq!(y.contents(), "");
                        halves += 1;
                    } else {
                        assert_eq!(x, y, "{row} {col}");
                    }
                }
            }
            let other: &[u8] = if a.alternate_screen() { b"\x1b[?47l" } else { b"\x1b[?47h" };
            raw.process(other);
            e = e.fed(other);
        }
    }
    assert!(halves > 50, "{halves}");
}

#[test]
fn small_emulators_take_every_glyph_that_fits() {
    let mut wide = 0;
    for n in (0x80..0x1_0000).chain(0x1_f000..0x1_fc00) {
        let Some(c) = char::from_u32(n) else { continue };
        let text = format!("{c}");
        let roomy = screen(2, 5, text.as_bytes());
        let cells = roomy.vt.parser.screen().cursor_position().1;
        for cols in 1..=2u16 {
            for rows in 1..=2u16 {
                let e = screen(rows, cols, text.as_bytes());
                if cells <= cols && c != '\u{17d8}' {
                    assert_eq!(contents(&e), contents(&roomy), "{n:x} {rows}x{cols}");
                } else {
                    assert_eq!(contents(&e), "", "{n:x} {rows}x{cols}");
                    wide += 1;
                }
            }
        }
    }
    assert!(wide > 10_000, "{wide}");
}

#[test]
fn tabs_stay_in_range_on_the_widest_screens() {
    for rows in [1, 2] {
        let e = screen(rows, 65535, b"\x1b[65521G\ta\x1b[65531G\tb");
        let at = |col| e.cell(0, col).unwrap();
        assert_eq!((at(65528), at(65530)), ("a".to_string(), "b".to_string()));
    }
}

#[test]
fn emulators_go_on_whatever_is_done_to_them() {
    let mut seed: u64 = 7;
    let mut next = move |n: usize| {
        seed = seed.wrapping_mul(6_364_136_223_846_793_005).wrapping_add(1_442_695_040_888_963_407);
        (seed >> 33) as usize % n
    };
    let pieces: Vec<&[u8]> = vec![
        b"a", b"text to wrap", "漢".as_bytes(), "漢字語".as_bytes(), "x\u{17d8}y".as_bytes(),
        "e\u{301}".as_bytes(), "\u{301}".as_bytes(), b"\xe6", b"\xbc", b"\xa2", b"\xc3",
        b"\xa9\x1b\xe6", b"\xf0\x9f", b"\xff", b"\t", b"\x08", b"\r", b"\n", b"\x1bM", b"\x1b7",
        b"\x1b8", b"\x1bc", b"\x1b[H", b"\x1b[2;2H", b"\x1b[9;9H", b"\x1b[@", b"\x1b[3@", b"\x1b[P",
        b"\x1b[2P", b"\x1b[X", b"\x1b[3X", b"\x1b[J", b"\x1b[1J", b"\x1b[2J", b"\x1b[K", b"\x1b[1K",
        b"\x1b[2K", b"\x1b[L", b"\x1b[9M", b"\x1b[S", b"\x1b[T", b"\x1b[2;3r", b"\x1b[r", b"\x1b[?6h",
        b"\x1b[?6l", b"\x1b[?47h", b"\x1b[?47l", b"\x1b[?1049h", b"\x1b[?1049l", b"\x1b[9C",
        b"\x1b[2D", b"\x1b[2G", b"\x1b[4d", b"\x1b]0;a title", b"\x07", b"\x1bPq", b"\x1b\\", b"\x1b",
        b"[", b"1;2", b"\x18", b"\x1b(B",
    ];
    for _ in 0..40 {
        let mut e = Emulator::new(2, 5);
        for _ in 0..400 {
            if next(6) == 0 {
                let (rows, cols) = (1 + next(4) as u16, 1 + next(7) as u16);
                e = e.resized(rows, cols);
                assert_eq!(e.vt.parser.screen().size(), (rows, cols));
            }
            let mut bytes = pieces[next(pieces.len())].to_vec();
            for _ in 0..next(3) {
                bytes.extend_from_slice(pieces[next(pieces.len())]);
            }
            e = e.fed(&bytes);
        }
        let (_, cols) = e.vt.parser.screen().size();
        let end = e.fed(b"\x18\x1bc").resized(2, cols).fed(b"z");
        assert_eq!(contents(&end), "z");
    }
}

#[test]
fn output_goes_on_after_a_wide_glyph_and_a_narrower_screen() {
    let mut app = new_app(100, 40);
    let t = new_terminal();
    app.parsers.set(t, screen(24, 80, "a 漢 glyph".as_bytes()));
    app.attached.set(t, Size { cols: 80, rows: 24 });
    let e = app.parsers.take(t).unwrap().resized(24, 79);
    app.parsers.set(t, e);
    app.on_daemon(DaemonMsg::Output { terminal: t, bytes: "next 字".into() });
    assert_eq!(contents(app.parsers.get(t).unwrap()), "a 漢 glyphnext 字");
    let e = app.parsers.get(t).unwrap();
    assert_eq!(e.vt.parser.screen().size(), (24, 79));
}

#[test]
fn a_mended_screen_keeps_what_the_program_asked_for() {
    let modes = "\x1b[1;10H漢\x1b[?1h\x1b[?2004h\x1b[?1002h\x1b[?1006h\x1b[?1049h";
    let old = screen(5, 20, modes.as_bytes());
    for rows in [5, 1] {
        let new = screen(5, 20, modes.as_bytes()).resized(rows, 10);
        assert_eq!(contents(&new), "");
        assert!(new.application_cursor() && new.bracketed_paste() && new.alternate_screen());
        assert_eq!(new.mouse_mode(), old.mouse_mode());
        assert_eq!(new.mouse_encoding(), old.mouse_encoding());
    }
    let main = screen(5, 20, "\x1b[1;10H漢".as_bytes()).resized(5, 10);
    assert_eq!(contents(&main), "");
    assert!(!main.application_cursor() && !main.bracketed_paste() && !main.alternate_screen());
}

#[test]
fn a_screen_of_one_row_shows_what_fits() {
    assert_eq!(contents(&screen(1, 10, b"abc")), "abc");
    assert_eq!(contents(&screen(1, 3, b"abcdef")), "abc", "what would wrap is lost");
    assert_eq!(contents(&screen(1, 3, b"abcdef\rxy")), "xyc");
    // Escape sequences still work at the end of the row.
    assert_eq!(contents(&screen(1, 3, b"abcdef\x1b[1;31m\x1b[2K\r\x1b]0;title\x07ok")), "ok");
    assert_eq!(contents(&screen(1, 3, b"abc\x1b]0;a title\x1b\\\x1b(B\x1b7\rx\x1b8d")), "xbc");
    assert_eq!(contents(&screen(1, 3, b"abcd\x1b\x1b[2K\rok")), "ok");
    assert_eq!(contents(&screen(1, 5, "漢字語".as_bytes())), "漢字");
    assert_eq!(contents(&screen(1, 80, "│ é 漢 ❯ x".as_bytes())), "│ é 漢 ❯ x");
    assert_eq!(contents(&screen(1, 3, "ab\u{e9}漢".as_bytes())), "ab\u{e9}");
    assert_eq!(contents(&screen(1, 4, "ab漢e\u{301}".as_bytes())), "ab漢\u{301}");
    // A sequence or a glyph may come in any number of pieces.
    for bytes in ["abc\x1b[1;31m\x1b[2K\r\x1b]0;a ✳ title\x07ok", "é漢\x1bP1;2q...\x1b\\\r│"] {
        let at_once = screen(1, 3, bytes.as_bytes());
        let mut one_by_one = Emulator::new(1, 3);
        for b in bytes.bytes() {
            one_by_one = one_by_one.fed(&[b]);
        }
        assert_eq!(contents(&one_by_one), contents(&at_once));
    }
    assert_eq!(contents(&screen(1, 3, "é漢\x1bP1;2q...\x1b\\\r│".as_bytes())), "│漢");
    // A new line scrolls the row away, as it does in a higher screen.
    assert_eq!(contents(&screen(1, 10, b"one\r\ntwo")), "two");
    assert_eq!(contents(&screen(1, 10, b"one\x1bMtwo\x1b[3L\x1b[2M\x1b[S\x1b[T\x1b[1;1r")), "");
    // Whatever is thrown at it, in whatever pieces, it goes on.
    let noise: Vec<u8> = (0..4096u32).map(|i| (i.wrapping_mul(2_654_435_761) >> 11) as u8).collect();
    for cols in [1, 2, 3, 7] {
        for size in [1, 2, 5, 64, 4096] {
            let mut e = Emulator::new(1, cols);
            for piece in noise.chunks(size) {
                e = e.fed(piece);
            }
            let e = e.fed(b"\x18\x1bc\rz");
            assert_eq!(contents(&e), "z", "{cols} {size}");
        }
    }
}

#[test]
fn reconciling_tells_the_daemon_what_changed() {
    let (mut app, ids) = app_with_agents(3);
    let primary = |app: &App, id| app.agents.iter().find(|a| a.id == id).unwrap().primary_terminal;
    let (t0, t1) = (primary(&app, ids[0]), primary(&app, ids[1]));
    let attached = |msgs: &Vec<ClientMsg>| -> Vec<TerminalId> {
        msgs.iter()
            .filter_map(|m| match m {
                ClientMsg::Attach { terminal, .. } => Some(*terminal),
                _ => None,
            })
            .collect()
    };
    let detached = |msgs: &Vec<ClientMsg>| -> Vec<TerminalId> {
        msgs.iter()
            .filter_map(|m| match m {
                ClientMsg::Detach { terminal } => Some(*terminal),
                _ => None,
            })
            .collect()
    };
    app.activate(ids[0]);
    let msgs = sent(&mut app);
    assert_eq!((attached(&msgs), detached(&msgs)), (vec![t0], vec![]));
    app.on_scroll_view(t0, 4, 90, b"old");
    app.reconcile();
    let msgs = sent(&mut app);
    assert_eq!((attached(&msgs), detached(&msgs)), (vec![], vec![]));
    app.on_resize(120, 40);
    let msgs = sent(&mut app);
    assert_eq!((attached(&msgs), detached(&msgs)), (vec![t0], vec![]), "another size");
    app.activate(ids[1]);
    let msgs = sent(&mut app);
    assert_eq!((attached(&msgs), detached(&msgs)), (vec![t1], vec![t0]));
    assert!(app.parsers.get(t0).is_none() && app.scroll.is_none());
}

#[test]
fn a_removed_agent_takes_its_terminals_along() {
    let (mut app, ids) = app_with_agents(2);
    app.activate(ids[0]);
    app.split(Axis::LeftRight);
    let its = app.tree.payloads();
    assert_eq!(its.len(), 2);
    for t in &its {
        app.on_daemon(DaemonMsg::TerminalApp { terminal: *t, passthrough: true });
    }
    app.on_scroll_view(its[1], 4, 90, b"old");
    app.on_daemon(DaemonMsg::AgentRemoved { id: ids[0] });
    assert!(app.tree.is_empty());
    for t in &its {
        assert!(app.terminals.get(*t).is_none() && app.parsers.get(*t).is_none());
        assert!(app.attached.get(*t).is_none() && app.passthrough.get(*t).is_none());
    }
    assert!(app.scroll.is_none());
    assert!(app.terminals.items.iter().all(|(_, owner)| *owner != ids[0]));

    // The panes of an agent that is not on screen go as well.
    let (mut app, ids) = app_with_agents(2);
    app.activate(ids[0]);
    app.split(Axis::TopBottom);
    let its = app.tree.payloads();
    app.activate(ids[1]);
    app.on_daemon(DaemonMsg::AgentRemoved { id: ids[0] });
    assert!(app.trees.get(ids[0]).is_none());
    assert!(its.iter().all(|t| app.terminals.get(*t).is_none()));
    assert_eq!(app.tree.payloads().len(), 1, "those of the other agent stay");
}
