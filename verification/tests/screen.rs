//! The screen of a session, coordinates, and sizes.
use hosttui::app::TestStatus;
use hosttui::model::Host;
use hosttui::probe::{Probe, ProbeReply};
use hosttui::scene::Rect;
use hosttui::screen::{ScreenPos, Selection};
use hosttui::sizes::format_size;
use hosttui::terminal_widget::{
    is_selected, Cell, CellColor, PaintColor, TerminalScreen, TerminalView,
};
use hosttui::ui::{frame_to_screen, frame_to_screen_clamped, session_inner_rect};

fn pos(row: u16, col: u16) -> ScreenPos {
    ScreenPos { row, col }
}

fn rect(x: u16, y: u16, width: u16, height: u16) -> Rect {
    Rect { x, y, width, height }
}

fn cell(contents: &str) -> Cell {
    Cell {
        contents: contents.into(),
        fg: CellColor::Default,
        bg: CellColor::Idx(4),
        bold: false,
        italic: false,
        underline: false,
        inverse: false,
    }
}

#[test]
fn a_selection_is_normalized() {
    let down = Selection { anchor: pos(1, 5), end: pos(3, 2) };
    let up = Selection { anchor: pos(3, 2), end: pos(1, 5) };
    assert_eq!(down.normalized(), (pos(1, 5), pos(3, 3)));
    assert_eq!(up.normalized(), (pos(1, 5), pos(3, 3)));
    let back = Selection { anchor: pos(1, 5), end: pos(1, 2) };
    assert_eq!(back.normalized(), (pos(1, 2), pos(1, 6)));
}

#[test]
fn a_selection_covers_whole_rows_between_its_ends() {
    let (start, end) = (pos(1, 5), pos(3, 2));
    assert!(!is_selected(0, 9, &start, &end));
    assert!(!is_selected(1, 4, &start, &end));
    assert!(is_selected(1, 5, &start, &end));
    assert!(is_selected(2, 0, &start, &end));
    assert!(is_selected(3, 1, &start, &end));
    assert!(!is_selected(3, 2, &start, &end));
    assert!(!is_selected(4, 0, &start, &end));
    assert!(is_selected(1, 3, &pos(1, 2), &pos(1, 4)));
    assert!(!is_selected(1, 4, &pos(1, 2), &pos(1, 4)));
}

#[test]
fn a_screen_is_drawn_as_far_as_both_reach() {
    let mut marked = cell("x");
    marked.bold = true;
    marked.inverse = true;
    marked.fg = CellColor::Rgb(1, 2, 3);
    let screen = TerminalScreen {
        rows: 2,
        cols: 2,
        cells: vec![vec![Some(cell("a")), Some(cell(""))], vec![None, Some(marked)]],
    };
    let paints = TerminalView::new(&screen)
        .with_selection(Some((pos(0, 0), pos(0, 1))))
        .render(rect(3, 4, 10, 10));
    assert_eq!(paints.len(), 3);

    assert_eq!((paints[0].x, paints[0].y), (3, 4));
    assert_eq!(paints[0].symbol, "a");
    assert!(paints[0].reversed);
    assert_eq!(paints[0].fg, PaintColor::Reset);
    assert_eq!(paints[0].bg, PaintColor::Indexed(4));

    assert_eq!((paints[1].x, paints[1].y), (4, 4));
    assert_eq!(paints[1].symbol, " ");
    assert!(!paints[1].reversed);

    assert_eq!((paints[2].x, paints[2].y), (4, 5));
    assert!(paints[2].bold && paints[2].reversed);
    assert_eq!(paints[2].fg, PaintColor::Rgb(1, 2, 3));

    assert_eq!(TerminalView::new(&screen).render(rect(0, 0, 1, 1)).len(), 1);
    assert!(!TerminalView::new(&screen).render(rect(0, 0, 1, 1))[0].reversed);
}

#[test]
fn the_screen_of_a_session_is_inside_its_border() {
    assert_eq!(session_inner_rect(80, 24, false), rect(1, 1, 78, 22));
    assert_eq!(session_inner_rect(80, 24, true), rect(1, 1, 78, 21));
    assert_eq!(session_inner_rect(1, 2, true), rect(1, 1, 0, 0));
    assert_eq!(session_inner_rect(80, 24, true), rect(0, 0, 80, 23).inner());
}

#[test]
fn coordinates_are_found_or_clamped() {
    let inner = rect(1, 1, 10, 5);
    assert_eq!(frame_to_screen(1, 1, inner), Some(pos(0, 0)));
    assert_eq!(frame_to_screen(10, 5, inner), Some(pos(4, 9)));
    assert_eq!(frame_to_screen(0, 1, inner), None);
    assert_eq!(frame_to_screen(11, 5, inner), None);
    assert_eq!(frame_to_screen(10, 6, inner), None);
    assert_eq!(frame_to_screen_clamped(3, 2, inner), pos(1, 2));
    assert_eq!(frame_to_screen_clamped(0, 0, inner), pos(0, 0));
    assert_eq!(frame_to_screen_clamped(99, 99, inner), pos(4, 9));
    assert_eq!(frame_to_screen_clamped(99, 99, rect(1, 1, 0, 0)), pos(0, 0));
}

fn floating(bytes: u64) -> String {
    const KB: u64 = 1024;
    const MB: u64 = 1024 * KB;
    const GB: u64 = 1024 * MB;
    if bytes >= GB {
        format!("{:.1} GB", bytes as f64 / GB as f64)
    } else if bytes >= MB {
        format!("{:.1} MB", bytes as f64 / MB as f64)
    } else if bytes >= KB {
        format!("{:.1} KB", bytes as f64 / KB as f64)
    } else {
        format!("{bytes} B")
    }
}

#[test]
fn sizes_have_one_decimal() {
    assert_eq!(format_size(0), "0 B");
    assert_eq!(format_size(1023), "1023 B");
    assert_eq!(format_size(1024), "1.0 KB");
    assert_eq!(format_size(1280), "1.2 KB");
    assert_eq!(format_size(1792), "1.8 KB");
    assert_eq!(format_size(5 * 1024 * 1024 / 2), "2.5 MB");
    assert_eq!(format_size(3 << 30), "3.0 GB");
    assert_eq!(format_size(u64::MAX), "17179869184.0 GB");
}

#[test]
fn sizes_agree_with_double_precision() {
    let mut bytes: u64 = 1;
    for i in 0..20000u64 {
        bytes = bytes.wrapping_mul(6364136223846793005).wrapping_add(1442695040888963407);
        let n = bytes >> (i % 64);
        assert_eq!(format_size(n), floating(n), "{n}");
        let tie = (n % 1000) * 1024 + 51 * (n % 21);
        assert_eq!(format_size(tie), floating(tie), "{tie}");
    }
    for shift in 10..64 {
        for d in 0..40u64 {
            let n = (1u64 << shift).wrapping_add(d * (1u64 << shift) / 20);
            assert_eq!(format_size(n), floating(n), "{n}");
        }
    }
}

fn host() -> Host {
    Host {
        alias: "web".into(),
        hostname: "example.org".into(),
        user: "me".into(),
        port: 2222,
        identity_file: None,
        group: None,
        extra: vec![],
        details: String::new(),
        last_accessed: String::new(),
    }
}

fn told(status: Option<TestStatus>) -> (bool, String) {
    match status {
        Some(TestStatus::Done { success, message }) => (success, message),
        other => panic!("{other:?}"),
    }
}

#[test]
fn one_open_address_is_enough() {
    let (mut probe, address) = Probe::new(&host());
    assert_eq!(address, "example.org:2222");
    assert!(probe.step(ProbeReply::Refused("refused".into())).is_none());
    assert_eq!(told(probe.step(ProbeReply::Connected)), (true, "Port 2222 is open".into()));
}

#[test]
fn the_last_error_is_told() {
    let (mut probe, _) = Probe::new(&host());
    assert!(probe.step(ProbeReply::Refused("first".into())).is_none());
    assert!(probe.step(ProbeReply::Refused("second".into())).is_none());
    assert_eq!(told(probe.step(ProbeReply::NoMore)), (false, "second".into()));

    let (mut probe, _) = Probe::new(&host());
    assert_eq!(told(probe.step(ProbeReply::NoMore)), (false, "No addresses found".into()));

    let (mut probe, _) = Probe::new(&host());
    assert_eq!(told(probe.step(ProbeReply::Unresolved("no name".into()))), (false, "no name".into()));
}
