use amux::emulator::Emulator;
use amux::geometry::Rect;
use amux::ids::TerminalId;
use amux::links::{cell_width, mark_links, pane_links, urls_in_line};
use amux::selection::{
    clamp_to, copy_to_clipboard, highlight_selection, is_token_char, ordered, token_span, Selection,
};
use ratatui::buffer::{Buffer, CellDiffOption};
use ratatui::style::{Modifier, Style};
use ratatui::{backend::TestBackend, Terminal};
use std::num::NonZeroU16;
use tui_term::widget::PseudoTerminal;

fn screen(text: &str, cols: u16, rows: u16) -> (Emulator, Rect) {
    (Emulator::new(rows, cols).fed(text.as_bytes()), Rect::new(0, 0, cols, rows))
}

fn cells(s: &str) -> Vec<String> {
    s.chars().map(|c| c.to_string()).collect()
}

/// The screen drawn into a buffer, with or without the marks of its links.
fn draw(e: &Emulator, inner: Rect, mark: bool) -> Buffer {
    let mut term = Terminal::new(TestBackend::new(inner.width, inner.height)).unwrap();
    term.draw(|f| {
        let area = ratatui::layout::Rect::new(inner.x, inner.y, inner.width, inner.height);
        f.render_widget(PseudoTerminal::new(e.vt.parser.screen()), area);
        if mark {
            for m in mark_links(e, inner) {
                if let Some(cell) = f.buffer_mut().cell_mut((m.x, m.y)) {
                    let symbol = format!("{}{}{}", m.before, cell.symbol(), m.after);
                    let width = NonZeroU16::new(cell_width(cell.symbol())).unwrap();
                    cell.set_symbol(&symbol);
                    cell.set_diff_option(CellDiffOption::ForcedWidth(width));
                }
            }
        }
    })
    .unwrap();
    term.backend().buffer().clone()
}

#[test]
fn token_span_grabs_words_paths_and_flags() {
    let row = cells("/home/awong/foo.rs --all a");
    assert_eq!(token_span(&row, 6), Some((0, 17)));
    assert_eq!(token_span(&row, 0), Some((0, 17)));
    assert_eq!(token_span(&row, 18), None);
    assert_eq!(token_span(&row, 21), Some((19, 23)));
    assert_eq!(token_span(&row, 25), Some((25, 25)));

    let q = cells("https://h/x?a=1&b=2%20c#f end");
    assert_eq!(token_span(&q, 0), Some((0, 24)));
    assert_eq!(token_span(&q, 24), Some((0, 24)));
    assert_eq!(token_span(&q, 25), None, "the space still ends it");
    let prose = cells("a,b;c");
    assert_eq!(token_span(&prose, 0), Some((0, 0)));
    assert_eq!(token_span(&prose, 2), Some((2, 2)));

    let paren = cells("foo.baz()");
    assert_eq!(token_span(&paren, 0), Some((0, 6)));
    assert_eq!(token_span(&paren, 7), None);

    let gapped = vec!["a".to_string(), String::new(), "b".to_string()];
    assert_eq!(token_span(&gapped, 0), Some((0, 0)));
    assert_eq!(token_span(&gapped, 1), None);
    assert_eq!(token_span(&gapped, 9), None);
}

#[test]
fn letters_of_any_script_belong_to_tokens() {
    assert!(is_token_char("é") && is_token_char("漢") && is_token_char("٣"));
    assert!(is_token_char("e\u{301}") == "e\u{301}".chars().all(char::is_alphanumeric));
    assert!(!is_token_char("") && !is_token_char(" ") && !is_token_char("("));
}

#[test]
fn click_paints_no_highlight_but_a_drag_does() {
    let inner = Rect::new(1, 1, 10, 3);
    let t = TerminalId(1);
    let any_reversed = |b: &Buffer| {
        (0..b.area.height).any(|dy| {
            (0..b.area.width).any(|dx| {
                b.cell((b.area.x + dx, b.area.y + dy))
                    .is_some_and(|c| c.style().add_modifier.contains(Modifier::REVERSED))
            })
        })
    };

    let paints = |sel: Selection| {
        let mut buf = Buffer::empty(ratatui::layout::Rect::new(0, 0, 12, 5));
        for (y, c0, c1) in highlight_selection(&sel) {
            for x in c0..=c1 {
                if let Some(cell) = buf.cell_mut((x, y)) {
                    cell.set_style(Style::default().add_modifier(Modifier::REVERSED));
                }
            }
        }
        any_reversed(&buf)
    };

    assert!(
        !paints(Selection { terminal: t, inner, anchor: (2, 2), head: (2, 2), active: false }),
        "a no-drag click must not paint a highlight"
    );
    assert!(
        paints(Selection { terminal: t, inner, anchor: (2, 2), head: (2, 2), active: true }),
        "a single-cell drag must paint its one cell"
    );
    assert!(
        paints(Selection { terminal: t, inner, anchor: (2, 2), head: (5, 2), active: true }),
        "a drag selection must paint its span"
    );
}

#[test]
fn a_selection_covers_whole_rows_between_its_ends() {
    let inner = Rect::new(10, 5, 20, 8);
    let sel = Selection {
        terminal: TerminalId(1),
        inner,
        anchor: (14, 8),
        head: (12, 6),
        active: true,
    };
    assert_eq!(highlight_selection(&sel), vec![(6, 12, 29), (7, 10, 29), (8, 10, 14)]);
}

#[test]
fn points_are_put_in_reading_order() {
    assert_eq!(ordered((5, 1), (2, 2)), ((5, 1), (2, 2)));
    assert_eq!(ordered((2, 2), (5, 1)), ((5, 1), (2, 2)));
    assert_eq!(ordered((5, 1), (2, 1)), ((2, 1), (5, 1)));
}

#[test]
fn points_are_brought_into_the_pane() {
    let inner = Rect::new(10, 5, 20, 8);
    assert_eq!(clamp_to(inner, 0, 0), (10, 5));
    assert_eq!(clamp_to(inner, 99, 99), (29, 12));
    assert_eq!(clamp_to(inner, 15, 7), (15, 7));
    assert_eq!(clamp_to(Rect::new(3, 4, 0, 0), 9, 9), (3, 4));
}

#[test]
fn the_clipboard_sequence_carries_base64() {
    assert_eq!(copy_to_clipboard("hé"), "\u{1b}]52;c;aMOp\u{7}");
}

/// The printable text of a cell's symbol, without the link sequences.
fn strip_osc8(symbol: &str) -> String {
    let mut out = String::new();
    let mut rest = symbol;
    while let Some(i) = rest.find("\x1b]8;") {
        out.push_str(&rest[..i]);
        let after = &rest[i..];
        match after.find("\x1b\\") {
            Some(j) => rest = &after[j + 2..],
            None => return out,
        }
    }
    out.push_str(rest);
    out
}

#[test]
fn urls_in_line_finds_schemes_and_trims_trailing_punctuation() {
    let cases: &[(&str, &[&str])] = &[
        ("see https://example.com/x ok", &["https://example.com/x"]),
        ("http://a.b and https://c.d/e", &["http://a.b", "https://c.d/e"]),
        ("go to https://example.com/x.", &["https://example.com/x"]),
        ("(see https://example.com/x)", &["https://example.com/x"]),
        ("\"https://example.com/x\",", &["https://example.com/x"]),
        ("https://e.com/a)b end", &["https://e.com/a)b"]),
        ("https://e.com/x?a=1&b=2#f", &["https://e.com/x?a=1&b=2#f"]),
        ("no links here", &[]),
        ("ftp://unsupported.example", &[]),
        ("say https:// alone", &[]),
        ("", &[]),
    ];
    for (line, want) in cases {
        let got: Vec<&str> = urls_in_line(line).into_iter().map(|r| &line[r]).collect();
        assert_eq!(got, *want, "urls_in_line({line:?})");
    }
}

#[test]
fn url_ranges_count_bytes() {
    for (line, want) in [
        ("漢字 https://e.com/é. x", vec!["https://e.com/é"]),
        ("🦀http://a", vec!["http://a"]),
        ("http://http://x", vec!["http://http://x"]),
        ("http://. http://b", vec!["http://b"]),
        ("https://a\u{3000}b", vec!["https://a"]),
    ] {
        let got: Vec<&str> = urls_in_line(line).into_iter().map(|r| &line[r]).collect();
        assert_eq!(got, want, "urls_in_line({line:?})");
    }
}

#[test]
fn a_wrapped_url_maps_to_one_run_per_row() {
    let url = "https://example.com/a/very/long/path/x?q=1";
    let (e, inner) = screen(&format!("see {url} ok"), 20, 6);
    let links = pane_links(&e, inner.width, inner.height);

    assert_eq!(links.len(), 1, "one link, got {links:?}");
    let link = &links[0];
    assert_eq!(link.url, url);
    assert_eq!(
        link.runs,
        vec![(0u16, 4u16, 19u16), (1, 0, 19), (2, 0, 5)],
        "runs were {:?}",
        link.runs
    );
    let covered: String = link
        .runs
        .iter()
        .flat_map(|&(y, x0, x1)| (x0..=x1).map(move |x| (y, x)))
        .map(|(y, x)| e.cell(y, x).unwrap_or_default())
        .collect();
    assert_eq!(covered, url, "the runs cover exactly the URL");
}

#[test]
fn a_wrapped_url_renders_as_one_osc8_hyperlink() {
    let url = "https://example.com/a/very/long/path/x?q=1";
    let (e, inner) = screen(&format!("see {url} ok"), 20, 6);
    let buf = draw(&e, inner, true);
    let opens: Vec<String> = buf
        .content()
        .iter()
        .map(|c| c.symbol().to_string())
        .filter(|sym| sym.contains("\x1b]8;"))
        .collect();
    assert_eq!(opens.len(), 6, "three rows, each opening and closing a run: {opens:?}");
    let carrying = opens.iter().filter(|s| s.contains(url)).count();
    assert_eq!(carrying, 3, "each row's opener names the full URL: {opens:?}");
    assert!(
        opens.iter().filter(|s| s.contains("id=")).count() >= 3,
        "runs share an id: {opens:?}"
    );
    let row0: String = (0..20).map(|x| strip_osc8(buf[(x, 0)].symbol())).collect();
    assert_eq!(row0, "see https://example.", "the row still reads as its own text");
}

#[test]
fn separate_links_get_separate_ids() {
    let (e, inner) = screen("a https://one.example/x b https://two.example/y", 60, 4);
    let links = pane_links(&e, inner.width, inner.height);
    assert_eq!(links.len(), 2, "got {links:?}");
    assert_eq!(links[0].url, "https://one.example/x");
    assert_eq!(links[1].url, "https://two.example/y");

    let buf = draw(&e, inner, true);
    let ids: Vec<String> = buf
        .content()
        .iter()
        .filter_map(|c| {
            let sym = c.symbol();
            sym.find("id=")
                .map(|i| sym[i..].split(';').next().unwrap_or_default().to_string())
        })
        .collect();
    assert_eq!(ids, vec!["id=0", "id=1"], "one id per link: {ids:?}");
}

#[test]
fn a_pane_without_links_is_untouched() {
    let (e, inner) = screen("just some ordinary output\r\nno urls\r\n", 20, 5);
    assert_eq!(draw(&e, inner, false), draw(&e, inner, true));
}

#[test]
fn marks_carry_the_exact_sequences() {
    let (e, _) = screen("http://a b", 20, 4);
    let marks = mark_links(&e, Rect::new(7, 3, 20, 4));
    assert_eq!(marks.len(), 2);
    assert_eq!((marks[0].x, marks[0].y), (7, 3));
    assert_eq!(marks[0].before, "\x1b]8;id=0;http://a\x1b\\");
    assert_eq!(marks[0].after, "");
    assert_eq!((marks[1].x, marks[1].y), (14, 3));
    assert_eq!(marks[1].before, "");
    assert_eq!(marks[1].after, "\x1b]8;;\x1b\\");
}

#[test]
fn a_wide_glyph_does_not_shift_a_run() {
    let (e, inner) = screen("漢 http://a", 20, 4);
    let links = pane_links(&e, inner.width, inner.height);
    assert_eq!(links[0].runs, vec![(0, 3, 10)]);
}

#[test]
fn wide_glyphs_take_two_cells() {
    assert_eq!(cell_width("漢"), 2);
    assert_eq!(cell_width("🙂"), 2);
    assert_eq!(cell_width("a"), 1);
    assert_eq!(cell_width(""), 1);
    assert_eq!(cell_width("\x1b]8;;\x1b\\漢"), 1);
}

#[test]
fn no_url_is_missed_or_cut_short() {
    for (line, want) in [
        ("http://a.,http://b", vec!["http://a.,http://b"]),
        ("see (https://a/b_(c)), then http://d?!", vec!["https://a/b_(c", "http://d"]),
        ("http://... https://x", vec!["https://x"]),
        ("https://", vec![]),
        ("http://https://y", vec!["http://https://y"]),
    ] {
        let got: Vec<&str> = urls_in_line(line).into_iter().map(|r| &line[r]).collect();
        assert_eq!(got, want, "{line:?}");
        let found = urls_in_line(line);
        for (at, _) in line.match_indices("http") {
            let body = line[at..].find("//").map_or(at, |i| at + i + 2);
            let rest = line[body..].split(char::is_whitespace).next().unwrap();
            let bare = rest.chars().all(|c| ".,;:!?'\")]}>".contains(c));
            assert!(bare || found.iter().any(|r| r.contains(&at)), "{line:?} {at}");
        }
        for r in found {
            let after = line[r.end..].split(char::is_whitespace).next().unwrap();
            assert!(after.chars().all(|c| ".,;:!?'\")]}>".contains(c)), "{line:?}");
        }
    }
}
