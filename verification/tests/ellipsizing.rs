use ellipsize::content::{Content, FontId, Horizontal, LineHeight, Vertical};
use ellipsize::ellipsize::ellipsize;
use ellipsize::layout::{BoundingBox, Extent, LaidOutLine, Layout};
use ellipsize::ui::{App, Message};

fn chars(s: &str) -> Vec<char> {
    s.chars().collect()
}

fn text(v: Vec<char>) -> String {
    v.into_iter().collect()
}

fn line(start: usize, end: usize, top: u64, bottom: u64) -> LaidOutLine {
    LaidOutLine {
        start,
        end,
        top,
        bottom,
    }
}

fn bounds(width: u64, height: Extent) -> BoundingBox {
    BoundingBox {
        width: Extent::Finite(width),
        height,
    }
}

#[test]
fn fits_single_line() {
    let content = Content::new(chars("Hello world"), None);
    let layout = Layout {
        lines: vec![line(0, 11, 0, 21)],
        height: 21,
    };
    let out = ellipsize(&content, &layout, &bounds(200, Extent::Finite(100)));
    assert_eq!(text(out), "Hello world");
}

#[test]
fn overflow_keeps_first_line_with_ellipsis() {
    let s = "A very long sentence that wraps across many lines of text";
    let content = Content::new(chars(s), None);
    // Wrapped at a narrow width: "A very", "long sentence", and the rest.
    let layout = Layout {
        lines: vec![
            line(0, 6, 0, 21),
            line(7, 20, 21, 42),
            line(21, 37, 42, 63),
            line(38, 58, 63, 84),
        ],
        height: 84,
    };
    let out = ellipsize(&content, &layout, &bounds(50, Extent::Finite(25)));
    assert_eq!(text(out), "A very\u{2026}");
}

#[test]
fn two_lines_fit_third_is_cut() {
    let content = Content::new(chars("One two three"), None);
    let layout = Layout {
        lines: vec![line(0, 3, 0, 21), line(4, 7, 21, 42), line(8, 13, 42, 63)],
        height: 63,
    };
    let out = ellipsize(&content, &layout, &bounds(40, Extent::Finite(50)));
    assert_eq!(text(out), "One\ntwo\u{2026}");
}

#[test]
fn exactly_two_lines_fit_without_ellipsis() {
    let content = Content::new(chars("One two"), None);
    let layout = Layout {
        lines: vec![line(0, 3, 0, 21), line(4, 7, 21, 42)],
        height: 42,
    };
    let out = ellipsize(&content, &layout, &bounds(40, Extent::Finite(50)));
    assert_eq!(text(out), "One\ntwo");
}

#[test]
fn nothing_fits_gives_empty_text() {
    let content = Content::new(chars("Hello world"), None);
    let layout = Layout {
        lines: vec![line(0, 11, 0, 21)],
        height: 21,
    };
    let out = ellipsize(&content, &layout, &bounds(200, Extent::Finite(0)));
    assert_eq!(text(out), "");
}

#[test]
fn unbounded_height_returns_wrapped_text() {
    let content = Content::new(chars("One two three"), None);
    let layout = Layout {
        lines: vec![line(0, 3, 0, 21), line(4, 7, 21, 42), line(8, 13, 42, 63)],
        height: 63,
    };
    let out = ellipsize(&content, &layout, &bounds(40, Extent::Unbounded));
    assert_eq!(text(out), "One\ntwo\nthree");
}

#[test]
fn bottom_edge_on_the_boundary_still_fits() {
    let content = Content::new(chars("One two three"), None);
    let layout = Layout {
        lines: vec![line(0, 3, 0, 21), line(4, 7, 21, 42), line(8, 13, 42, 63)],
        height: 63,
    };
    // The second row's bottom edge equals the budget exactly: it is included
    // and is not the ellipsis trigger.
    let out = ellipsize(&content, &layout, &bounds(40, Extent::Finite(42)));
    assert_eq!(text(out), "One\ntwo\u{2026}");
}

#[test]
fn empty_content_gives_empty_text() {
    let content = Content::new(chars(""), None);
    let layout = Layout {
        lines: vec![line(0, 0, 0, 21)],
        height: 21,
    };
    let out = ellipsize(&content, &layout, &bounds(200, Extent::Finite(5)));
    assert_eq!(text(out), "");
    let out_fits = ellipsize(&content, &layout, &bounds(200, Extent::Finite(100)));
    assert_eq!(text(out_fits), "");
}

#[test]
fn gathered_text_ending_with_ellipsis_is_kept_as_is() {
    let content = Content::new(chars("One\u{2026} two"), None);
    let layout = Layout {
        lines: vec![line(0, 4, 0, 21), line(5, 8, 21, 42)],
        height: 42,
    };
    let out = ellipsize(&content, &layout, &bounds(40, Extent::Finite(25)));
    assert_eq!(text(out), "One\u{2026}");
}

#[test]
fn overflowing_block_whose_rows_all_fit_gets_no_ellipsis() {
    // The measured block height exceeds the budget although every row's
    // bottom edge stays within it: the walk runs out of rows and appends
    // no ellipsis.
    let content = Content::new(chars("One two"), None);
    let layout = Layout {
        lines: vec![line(0, 3, 0, 21), line(4, 7, 21, 42)],
        height: 50,
    };
    let out = ellipsize(&content, &layout, &bounds(40, Extent::Finite(45)));
    assert_eq!(text(out), "One\ntwo");
}

#[test]
fn empty_leading_row_is_not_followed_by_a_break() {
    // A row without glyphs carries an empty span; nothing is gathered for
    // it, so no line break precedes the first row with text.
    let content = Content::new(chars("ab cd"), None);
    let layout = Layout {
        lines: vec![line(0, 0, 0, 21), line(0, 2, 21, 42), line(3, 5, 42, 63)],
        height: 63,
    };
    let out = ellipsize(&content, &layout, &bounds(40, Extent::Finite(50)));
    assert_eq!(text(out), "ab\u{2026}");
}

#[test]
fn first_row_already_overflowing_gives_empty_text() {
    let content = Content::new(chars("Hello world"), None);
    let layout = Layout {
        lines: vec![line(0, 11, 0, 21)],
        height: 21,
    };
    let out = ellipsize(&content, &layout, &bounds(200, Extent::Finite(10)));
    assert_eq!(text(out), "");
}

#[test]
fn lower_budget_never_shows_more_rows() {
    let content = Content::new(chars("One two three"), None);
    let layout = Layout {
        lines: vec![line(0, 3, 0, 21), line(4, 7, 21, 42), line(8, 13, 42, 63)],
        height: 63,
    };
    let mut previous_rows = usize::MAX;
    for h in [63u64, 42, 41, 21, 20, 0] {
        let out = text(ellipsize(&content, &layout, &bounds(40, Extent::Finite(h))));
        let rows = if out.is_empty() {
            0
        } else {
            out.split('\n').count()
        };
        assert!(rows <= previous_rows);
        previous_rows = rows;
    }
}

#[test]
fn ellipsizing_twice_gives_the_same_text() {
    let content = Content::new(chars("One two three"), None);
    let layout = Layout {
        lines: vec![line(0, 3, 0, 21), line(4, 7, 21, 42), line(8, 13, 42, 63)],
        height: 63,
    };
    for height in [Extent::Finite(100), Extent::Finite(42), Extent::Finite(0), Extent::Unbounded] {
        let b = bounds(40, height);
        let first = text(ellipsize(&content, &layout, &b));
        let second = text(ellipsize(&content, &layout, &b));
        assert_eq!(first, second);
    }
}

#[test]
fn content_defaults() {
    let c = Content::new(chars("abc"), None);
    assert_eq!(text(c.text), "abc");
    assert_eq!(c.size, 14);
    assert_eq!(c.max_size, None);
    assert_eq!(c.font, None);
    assert_eq!(c.line_height, LineHeight::Relative(150));
    assert_eq!(c.horizontal_alignment, Horizontal::Left);
    assert_eq!(c.vertical_alignment, Vertical::Center);
}

#[test]
fn content_builders_set_their_field() {
    let b = BoundingBox {
        width: Extent::Finite(300),
        height: Extent::Finite(200),
    };
    let c = Content::new(chars("abc"), Some(b))
        .font(FontId(7))
        .size(18)
        .line_height(LineHeight::Absolute(24))
        .align_x(Horizontal::Right)
        .align_y(Vertical::Bottom);
    assert_eq!(c.font, Some(FontId(7)));
    assert_eq!(c.size, 18);
    assert_eq!(c.line_height, LineHeight::Absolute(24));
    assert_eq!(c.horizontal_alignment, Horizontal::Right);
    assert_eq!(c.vertical_alignment, Vertical::Bottom);
    assert_eq!(c.max_size, Some(b));
    let centered = c.center();
    assert_eq!(centered.horizontal_alignment, Horizontal::Center);
    assert_eq!(centered.vertical_alignment, Vertical::Center);
}

#[test]
fn toggle_message_sets_the_flag() {
    let mut app = App::default();
    assert!(app.ellipsize);
    app.update(Message::ToggleEllipsize(false));
    assert!(!app.ellipsize);
    app.update(Message::ToggleEllipsize(true));
    assert!(app.ellipsize);
}
