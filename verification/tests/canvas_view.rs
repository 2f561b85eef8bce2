use novel_reader::banner::{banner_lines, render_banner};
use novel_reader::canvas::{compose_canvas, effective_width, visible_rows};
use novel_reader::content::Content;
use novel_reader::text::wrap_line_to;

fn sample_content() -> Content {
    let paragraphs = vec!["A".to_string(), "B".to_string(), "C".to_string()];
    Content::new("Some Novel", "12", "The Fall", paragraphs)
}

#[test]
fn composing_twice_is_byte_identical() {
    let content = sample_content();
    let first = compose_canvas(&content, 40);
    let second = compose_canvas(&content, 40);
    assert_eq!(first, second);
}

#[test]
fn canvas_has_the_fixed_shape() {
    let content = sample_content();
    let canvas = compose_canvas(&content, 40);
    assert_eq!(canvas.len(), 100);
    for row in &canvas {
        assert_eq!(row.chars().count(), 40);
    }
}

#[test]
fn empty_paragraphs_still_compose() {
    let content = Content::new("Some Novel", "1", "", Vec::new());
    let canvas = compose_canvas(&content, 30);
    assert_eq!(canvas.len(), 100);
    let window = visible_rows(&canvas, 0, 20);
    assert_eq!(window.len(), 20);
}

#[test]
fn gutter_numbers_every_line() {
    let content = sample_content();
    let canvas = compose_canvas(&content, 40);
    assert!(canvas[0].starts_with("   1 "));
    assert!(canvas[10].starts_with("  11 "));
    assert!(canvas[99].starts_with(" 100 "));
}

#[test]
fn panels_carry_their_titles() {
    let content = sample_content();
    let canvas = compose_canvas(&content, 40);
    assert!(canvas[0].contains("CHAPTER NUMBER"));
    assert!(canvas[7].contains("CHAPTER NAME"));
    assert!(canvas[14].contains("CONTENT"));
}

#[test]
fn paragraphs_appear_blank_line_separated() {
    let content = sample_content();
    let canvas = compose_canvas(&content, 40);
    assert!(canvas[15].contains('A'));
    assert!(canvas[17].contains('B'));
    assert!(canvas[19].contains('C'));
    // between them, a blank content row (past the line-number gutter)
    assert!(!canvas[16].chars().skip(5).any(|c| c.is_alphanumeric()));
}

#[test]
fn banner_renders_as_a_real_glyph_block() {
    let lines = banner_lines("1");
    // a block-glyph rendering spans several lines and is not the input
    assert!(lines.len() > 1);
    assert!(lines.concat() != "1");
    let empty = banner_lines("");
    assert_eq!(empty, vec![""]);
}

#[test]
fn wide_banner_lines_wrap_into_the_panel_instead_of_truncating() {
    let content = Content::new("N", "8888888888", "x", Vec::new());
    let canvas = compose_canvas(&content, 20);
    // panel inner width is 20 - 5 (gutter) - 2 (borders) = 13
    let banner = render_banner("8888888888");
    let first = banner.lines().next().unwrap();
    let wrapped = wrap_line_to(first, 13);
    assert!(wrapped.len() >= 2);
    let fit = |s: &str| {
        let mut out: String = s.chars().take(13).collect();
        while out.chars().count() < 13 {
            out.push(' ');
        }
        out
    };
    // the first banner row flows on into the second panel row
    assert_eq!(canvas[1], format!("   2 \u{2502}{}\u{2502}", fit(&wrapped[0])));
    assert_eq!(canvas[2], format!("   3 \u{2502}{}\u{2502}", fit(&wrapped[1])));
}

#[test]
fn effective_width_gives_up_a_scrollbar_column() {
    assert_eq!(effective_width(80, 100), 79);
    assert_eq!(effective_width(80, 120), 79);
    assert_eq!(effective_width(80, 24), 80);
    assert_eq!(effective_width(0, 120), 0);
}

#[test]
fn visible_rows_window_the_canvas() {
    let content = sample_content();
    let canvas = compose_canvas(&content, 40);
    let window = visible_rows(&canvas, 20, 20);
    assert_eq!(window.len(), 20);
    assert_eq!(window[0], canvas[20]);
    assert_eq!(window[19], canvas[39]);
    let tail = visible_rows(&canvas, 90, 20);
    assert_eq!(tail.len(), 10);
    let past = visible_rows(&canvas, 200, 20);
    assert!(past.is_empty());
}
