//! The virtual canvas compositor: a pure layout of the reading view into
//! one tall off-screen buffer — a line-number gutter on the left and, to
//! its right, two bordered banner panels stacked over a bordered content
//! panel that fills the rest. Composition is a function of the content
//! model and the width alone, so redrawing never drifts.
use vstd::prelude::*;
use crate::banner::render_banner;
use crate::banner::spec_banner_text;
use crate::content::Content;
use crate::content::join_paragraphs;
use crate::content::spec_paragraph_text;
use crate::text::chars_to_string;
use crate::text::decimal_digits;
use crate::text::spec_decimal;
use crate::text::spec_lines;
use crate::text::split_lines;
use crate::text::wrap_line;
use crate::text::wrap_line_to;

verus! {

/// Height of the virtual canvas: comfortably past any realistic terminal.
pub const SCROLLVIEW_HEIGHT: u16 = 100;

/// Width of the line-number gutter: four digit columns and a space.
pub const GUTTER_WIDTH: u16 = 5;

/// Height of each of the two banner panels.
pub const BANNER_PANEL_HEIGHT: u16 = 7;

/// `n` copies of the character `f`.
pub open spec fn spec_repeat(f: char, n: int) -> Seq<char> {
    Seq::new(
        if n < 0 {
            0
        } else {
            n as nat
        },
        |i: int| f,
    )
}

/// `line` fitted into exactly `w` columns: cut off when too long, padded
/// with `f` when too short.
pub open spec fn spec_fit(line: Seq<char>, w: int, f: char) -> Seq<char> {
    if line.len() >= w {
        line.take(w)
    } else {
        line + spec_repeat(f, w - line.len())
    }
}

/// Fits `line` into exactly `w` columns, padding with `f`.
pub fn fit_line(line: &str, w: usize, f: char) -> (r: Vec<char>)
    ensures
        r@ == spec_fit(line@, w as int, f),
        r@.len() == w,
{
    let n = line.unicode_len();
    let keep = if n >= w {
        w
    } else {
        n
    };
    let mut out: Vec<char> = Vec::new();
    let mut i: usize = 0;
    while i < keep
        invariant
            keep <= n == line@.len(),
            0 <= i <= keep,
            out@ == line@.take(i as int),
        decreases keep - i,
    {
        out.push(line.get_char(i));
        proof {
            assert(out@ =~= line@.take(i + 1 as int));
        }
        i = i + 1;
    }
    proof {
        assert(out@ =~= line@.take(keep as int) + spec_repeat(f, 0));
    }
    while out.len() < w
        invariant
            keep <= n == line@.len(),
            keep <= out@.len(),
            out@.len() <= w || out@.len() == keep,
            keep == w || keep == n,
            out@ == line@.take(keep as int) + spec_repeat(f, out@.len() - keep),
        decreases w - out@.len(),
    {
        out.push(f);
        proof {
            assert(out@ =~= line@.take(keep as int) + spec_repeat(f, out@.len() - keep));
        }
    }
    proof {
        if n >= w {
            assert(out@ =~= line@.take(w as int));
        } else {
            assert(line@.take(n as int) =~= line@);
        }
    }
    out
}

/// One cell of the line-number gutter: the number right-aligned in four
/// columns, then a space.
pub open spec fn spec_gutter_cell(n: int) -> Seq<char> {
    let d = spec_decimal(n);
    if d.len() < 4 {
        spec_repeat(' ', 4 - d.len()) + d + seq![' ']
    } else {
        d + seq![' ']
    }
}

/// Decimal length of the line numbers that fit a gutter cell.
pub proof fn lemma_decimal_len(n: int)
    requires
        0 <= n < 10000,
    ensures
        spec_decimal(n).len() == (if n < 10 {
            1int
        } else if n < 100 {
            2int
        } else if n < 1000 {
            3int
        } else {
            4int
        }),
    decreases n,
{
    if n >= 10 {
        lemma_decimal_len(n / 10);
    }
}

/// A gutter cell is exactly `GUTTER_WIDTH` columns wide.
pub proof fn lemma_gutter_cell_len(n: int)
    requires
        0 <= n < 10000,
    ensures
        spec_gutter_cell(n).len() == GUTTER_WIDTH as int,
{
    lemma_decimal_len(n);
}

/// Builds one gutter cell.
pub fn gutter_cell(n: u16) -> (r: Vec<char>)
    requires
        n < 10000,
    ensures
        r@ == spec_gutter_cell(n as int),
{
    let mut d = decimal_digits(n);
    let mut out: Vec<char> = Vec::new();
    proof {
        lemma_decimal_len(n as int);
    }
    let pad = if d.len() < 4 {
        4 - d.len()
    } else {
        0
    };
    let mut i: usize = 0;
    while i < pad
        invariant
            0 <= i <= pad,
            out@ == spec_repeat(' ', i as int),
        decreases pad - i,
    {
        out.push(' ');
        proof {
            assert(out@ =~= spec_repeat(' ', i + 1 as int));
        }
        i = i + 1;
    }
    out.append(&mut d);
    out.push(' ');
    proof {
        assert(out@ =~= spec_gutter_cell(n as int));
    }
    out
}

/// Row `i` of a bordered panel of width `w` and height `h`: a top border
/// carrying the title, a bottom border, and between them the content
/// lines, each framed and fitted; rows past the content are blank.
pub open spec fn spec_panel_row(
    title: Seq<char>,
    lines: Seq<Seq<char>>,
    w: int,
    h: int,
    i: int,
) -> Seq<char> {
    if i == 0 {
        seq!['\u{250c}'] + spec_fit(title, w - 2, '\u{2500}') + seq!['\u{2510}']
    } else if i == h - 1 {
        seq!['\u{2514}'] + spec_repeat('\u{2500}', w - 2) + seq!['\u{2518}']
    } else {
        let line = if 0 <= i - 1 < lines.len() {
            lines[i - 1]
        } else {
            Seq::empty()
        };
        seq!['\u{2502}'] + spec_fit(line, w - 2, ' ') + seq!['\u{2502}']
    }
}

/// A bordered panel: `h` rows of width `w`.
pub open spec fn spec_panel(title: Seq<char>, lines: Seq<Seq<char>>, w: int, h: int) -> Seq<
    Seq<char>,
> {
    Seq::new(
        if h < 0 {
            0
        } else {
            h as nat
        },
        |i: int| spec_panel_row(title, lines, w, h, i),
    )
}

/// Builds a bordered, titled panel of exactly `h` rows by `w` columns
/// around the given content lines.
pub fn panel(title: &str, lines: &Vec<String>, w: usize, h: usize) -> (r: Vec<String>)
    requires
        w >= 2,
        h >= 2,
    ensures
        r.deep_view() == spec_panel(title@, lines.deep_view(), w as int, h as int),
{
    let ghost gtitle = title@;
    let ghost glines = lines.deep_view();
    let ghost gw = w as int;
    let ghost gh = h as int;
    let mut rows: Vec<String> = Vec::new();
    let mut top: Vec<char> = Vec::new();
    top.push('\u{250c}');
    let mut tfill = fit_line(title, w - 2, '\u{2500}');
    top.append(&mut tfill);
    top.push('\u{2510}');
    rows.push(chars_to_string(&top));
    proof {
        assert(top@ =~= spec_panel_row(gtitle, glines, gw, gh, 0));
        assert(rows.deep_view() =~= spec_panel(gtitle, glines, gw, gh).take(1));
    }
    let mut i: usize = 1;
    while i < h - 1
        invariant
            w >= 2,
            h >= 2,
            1 <= i <= h - 1,
            gtitle == title@,
            glines == lines.deep_view(),
            gw == w as int,
            gh == h as int,
            glines.len() == lines.len(),
            rows.deep_view() == spec_panel(gtitle, glines, gw, gh).take(i as int),
        decreases h - 1 - i,
    {
        let mut row: Vec<char> = Vec::new();
        row.push('\u{2502}');
        let mut body = if i - 1 < lines.len() {
            proof {
                assert(lines.deep_view()[i - 1 as int] == lines@[i - 1 as int]@);
            }
            fit_line(lines[i - 1].as_str(), w - 2, ' ')
        } else {
            proof {
                reveal_strlit("");
                assert(""@ =~= Seq::<char>::empty());
            }
            fit_line("", w - 2, ' ')
        };
        row.append(&mut body);
        row.push('\u{2502}');
        let ghost old_deep = rows.deep_view();
        rows.push(chars_to_string(&row));
        proof {
            assert(rows.deep_view() =~= old_deep.push(row@));
            assert(row@ =~= spec_panel_row(gtitle, glines, gw, gh, i as int));
            assert(rows.deep_view() =~= spec_panel(gtitle, glines, gw, gh).take(i + 1 as int));
        }
        i = i + 1;
    }
    let mut bottom: Vec<char> = Vec::new();
    bottom.push('\u{2514}');
    proof {
        reveal_strlit("");
        assert(""@ =~= Seq::<char>::empty());
    }
    let mut bfill = fit_line("", w - 2, '\u{2500}');
    bottom.append(&mut bfill);
    bottom.push('\u{2518}');
    let ghost old_deep = rows.deep_view();
    rows.push(chars_to_string(&bottom));
    proof {
        assert(Seq::<char>::empty() + spec_repeat('\u{2500}', gw - 2) =~= spec_repeat(
            '\u{2500}',
            gw - 2,
        ));
        assert(rows.deep_view() =~= old_deep.push(bottom@));
        assert(bottom@ =~= spec_panel_row(gtitle, glines, gw, gh, gh - 1));
        assert(rows.deep_view() =~= spec_panel(gtitle, glines, gw, gh));
    }
    rows
}

/// The greedy wrap of each line of `s`, in order: text with newlines,
/// wrapped to width `w`.
pub open spec fn wrap_all(lines: Seq<Seq<char>>, w: int) -> Seq<Seq<char>>
    decreases lines.len(),
{
    if lines.len() == 0 {
        Seq::empty()
    } else {
        wrap_all(lines.drop_last(), w) + wrap_line(lines.last(), w)
    }
}

/// The wrapped form of a whole text: split at newlines, each line wrapped.
pub open spec fn spec_wrap_text(s: Seq<char>, w: int) -> Seq<Seq<char>> {
    wrap_all(spec_lines(s), w)
}

/// Wraps a text with newlines to width `w`, keeping line order.
pub fn wrap_text(s: &str, w: usize) -> (r: Vec<String>)
    requires
        w >= 1,
    ensures
        r.deep_view() == spec_wrap_text(s@, w as int),
{
    let lines = split_lines(s);
    let mut out: Vec<String> = Vec::new();
    let mut i: usize = 0;
    while i < lines.len()
        invariant
            w >= 1,
            0 <= i <= lines.len(),
            lines.deep_view().len() == lines.len(),
            lines.deep_view() == spec_lines(s@),
            out.deep_view() == wrap_all(lines.deep_view().take(i as int), w as int),
        decreases lines.len() - i,
    {
        proof {
            assert(lines.deep_view()[i as int] == lines@[i as int]@);
        }
        let mut pieces = wrap_line_to(lines[i].as_str(), w);
        let ghost old_deep = out.deep_view();
        let ghost pieces_deep = pieces.deep_view();
        out.append(&mut pieces);
        proof {
            assert(out.deep_view() =~= old_deep + pieces_deep);
            let pre = lines.deep_view().take(i as int);
            let post = lines.deep_view().take(i + 1 as int);
            assert(post.drop_last() =~= pre);
            assert(post.last() == lines.deep_view()[i as int]);
        }
        i = i + 1;
    }
    proof {
        assert(lines.deep_view().take(lines.deep_view().len() as int) =~= lines.deep_view());
    }
    out
}

/// The whole virtual canvas composed from a content model at a given
/// width: `SCROLLVIEW_HEIGHT` rows, each a gutter cell followed by the row
/// of the panel stack — the chapter-number and chapter-name banner blocks,
/// then the paragraph text joined with blank lines, every panel body
/// wrapped to the panel's inner width, the content panel filling the rest.
pub open spec fn spec_compose(
    chapter_number: Seq<char>,
    chapter_name: Seq<char>,
    paragraphs: Seq<Seq<char>>,
    width: int,
) -> Seq<Seq<char>> {
    let w = width - GUTTER_WIDTH as int;
    let hb = BANNER_PANEL_HEIGHT as int;
    let p1 = spec_panel(
        "CHAPTER NUMBER"@,
        spec_wrap_text(spec_banner_text(chapter_number), w - 2),
        w,
        hb,
    );
    let p2 = spec_panel(
        "CHAPTER NAME"@,
        spec_wrap_text(spec_banner_text(chapter_name), w - 2),
        w,
        hb,
    );
    let p3 = spec_panel(
        "CONTENT"@,
        spec_wrap_text(spec_paragraph_text(paragraphs), w - 2),
        w,
        SCROLLVIEW_HEIGHT as int - 2 * hb,
    );
    Seq::new(
        SCROLLVIEW_HEIGHT as nat,
        |i: int|
            spec_gutter_cell(i + 1) + (if i < hb {
                p1[i]
            } else if i < 2 * hb {
                p2[i - hb]
            } else {
                p3[i - 2 * hb]
            }),
    )
}

/// Every canvas row is exactly `width` columns wide.
pub proof fn lemma_compose_row_len(
    chapter_number: Seq<char>,
    chapter_name: Seq<char>,
    paragraphs: Seq<Seq<char>>,
    width: int,
    i: int,
)
    requires
        width >= GUTTER_WIDTH as int + 2,
        0 <= i < SCROLLVIEW_HEIGHT as int,
    ensures
        spec_compose(chapter_number, chapter_name, paragraphs, width)[i].len() == width,
{
    lemma_gutter_cell_len(i + 1);
}

/// Composes the virtual canvas for a content model at the given width.
/// Composition reads nothing but its arguments: the same model and width
/// always give the identical canvas.
pub fn compose_canvas(content: &Content, width: u16) -> (r: Vec<String>)
    requires
        width >= GUTTER_WIDTH + 4,
    ensures
        r.deep_view() == spec_compose(
            content.chapter_number@,
            content.chapter_name@,
            content.paragraphs.deep_view(),
            width as int,
        ),
        r@.len() == SCROLLVIEW_HEIGHT as int,
        forall|i: int|
            0 <= i < r.deep_view().len() ==> (#[trigger] r.deep_view()[i]).len() == width as int,
{
    let ghost gnum = content.chapter_number@;
    let ghost gname = content.chapter_name@;
    let ghost gparas = content.paragraphs.deep_view();
    let ghost gwidth = width as int;
    let w = (width - GUTTER_WIDTH) as usize;
    let hb = BANNER_PANEL_HEIGHT as usize;
    let nb_block = render_banner(content.chapter_number.as_str());
    let nb = wrap_text(nb_block.as_str(), w - 2);
    let p1 = panel("CHAPTER NUMBER", &nb, w, hb);
    let cb_block = render_banner(content.chapter_name.as_str());
    let cb = wrap_text(cb_block.as_str(), w - 2);
    let p2 = panel("CHAPTER NAME", &cb, w, hb);
    let text = join_paragraphs(&content.paragraphs);
    let wrapped = wrap_text(text.as_str(), w - 2);
    let p3 = panel("CONTENT", &wrapped, w, (SCROLLVIEW_HEIGHT as usize) - 2 * hb);
    let ghost target = spec_compose(gnum, gname, gparas, gwidth);
    proof {
        assert(p1.deep_view().len() == p1@.len());
        assert(p2.deep_view().len() == p2@.len());
        assert(p3.deep_view().len() == p3@.len());
    }
    let mut rows: Vec<String> = Vec::new();
    let mut i: usize = 0;
    while i < SCROLLVIEW_HEIGHT as usize
        invariant
            0 <= i <= SCROLLVIEW_HEIGHT as usize,
            target == spec_compose(gnum, gname, gparas, gwidth),
            p1.deep_view() == spec_panel(
                "CHAPTER NUMBER"@,
                spec_wrap_text(spec_banner_text(gnum), gwidth - GUTTER_WIDTH as int - 2),
                gwidth - GUTTER_WIDTH as int,
                BANNER_PANEL_HEIGHT as int,
            ),
            p2.deep_view() == spec_panel(
                "CHAPTER NAME"@,
                spec_wrap_text(spec_banner_text(gname), gwidth - GUTTER_WIDTH as int - 2),
                gwidth - GUTTER_WIDTH as int,
                BANNER_PANEL_HEIGHT as int,
            ),
            p3.deep_view() == spec_panel(
                "CONTENT"@,
                spec_wrap_text(spec_paragraph_text(gparas), gwidth - GUTTER_WIDTH as int - 2),
                gwidth - GUTTER_WIDTH as int,
                SCROLLVIEW_HEIGHT as int - 2 * BANNER_PANEL_HEIGHT as int,
            ),
            p1.len() == BANNER_PANEL_HEIGHT as usize,
            p2.len() == BANNER_PANEL_HEIGHT as usize,
            p3.len() == SCROLLVIEW_HEIGHT as usize - 2 * BANNER_PANEL_HEIGHT as usize,
            rows.deep_view() == target.take(i as int),
        decreases SCROLLVIEW_HEIGHT as usize - i,
    {
        let g = gutter_cell((i as u16) + 1);
        let gs = chars_to_string(&g);
        let hb2 = BANNER_PANEL_HEIGHT as usize;
        let prow: &String = if i < hb2 {
            proof {
                assert(p1.deep_view()[i as int] == p1@[i as int]@);
            }
            &p1[i]
        } else if i < 2 * hb2 {
            proof {
                assert(p2.deep_view()[i - hb2 as int] == p2@[i - hb2 as int]@);
            }
            &p2[i - hb2]
        } else {
            proof {
                assert(p3.deep_view()[i - 2 * hb2 as int] == p3@[i - 2 * hb2 as int]@);
            }
            &p3[i - 2 * hb2]
        };
        let row = gs.concat(prow.as_str());
        let ghost old_deep = rows.deep_view();
        rows.push(row);
        proof {
            assert(rows.deep_view() =~= old_deep.push(row@));
            assert(row@ =~= target[i as int]);
            assert(rows.deep_view() =~= target.take(i + 1 as int));
        }
        i = i + 1;
    }
    proof {
        assert(rows.deep_view() =~= target);
        assert forall|k: int| 0 <= k < rows.deep_view().len() implies (#[trigger] rows.deep_view()[
            k
        ]).len() == width as int by {
            lemma_compose_row_len(gnum, gname, gparas, gwidth, k);
        }
    }
    rows
}

/// Law: compositing is deterministic — two canvases composed from the same
/// immutable content model at the same width are identical, row for row.
pub proof fn lemma_compose_deterministic(
    first: Seq<Seq<char>>,
    second: Seq<Seq<char>>,
    chapter_number: Seq<char>,
    chapter_name: Seq<char>,
    paragraphs: Seq<Seq<char>>,
    width: int,
)
    requires
        first == spec_compose(chapter_number, chapter_name, paragraphs, width),
        second == spec_compose(chapter_number, chapter_name, paragraphs, width),
    ensures
        first == second,
{
}

/// The width the canvas is composed at: one column is given up to the
/// scrollbar when the terminal is at least as tall as the canvas.
pub fn effective_width(term_width: u16, term_height: u16) -> (r: u16)
    ensures
        r == (if term_height >= SCROLLVIEW_HEIGHT && term_width > 0 {
            term_width - 1
        } else {
            term_width as int
        }),
{
    if term_height >= SCROLLVIEW_HEIGHT && term_width > 0 {
        term_width - 1
    } else {
        term_width
    }
}

/// The window of the canvas a viewport at `offset` shows: `height` rows
/// from `offset` on, cut short at the canvas end.
pub fn visible_rows(canvas: &Vec<String>, offset: u16, height: u16) -> (r: Vec<String>)
    ensures
        r.deep_view() == canvas.deep_view().subrange(
            if offset as int <= canvas@.len() {
                offset as int
            } else {
                canvas@.len() as int
            },
            if offset as int + height as int <= canvas@.len() {
                offset as int + height
            } else {
                canvas@.len() as int
            },
        ),
{
    let start = if (offset as usize) <= canvas.len() {
        offset as usize
    } else {
        canvas.len()
    };
    let end = if offset as usize <= canvas.len() && height as usize <= canvas.len() - start {
        start + height as usize
    } else {
        canvas.len()
    };
    let mut out: Vec<String> = Vec::new();
    let mut i = start;
    while i < end
        invariant
            start <= i <= end <= canvas@.len(),
            canvas.deep_view().len() == canvas@.len(),
            out.deep_view() == canvas.deep_view().subrange(start as int, i as int),
        decreases end - i,
    {
        proof {
            assert(canvas.deep_view()[i as int] == canvas@[i as int]@);
        }
        let ghost old_deep = out.deep_view();
        out.push(canvas[i].clone());
        proof {
            assert(out.deep_view() =~= old_deep.push(canvas.deep_view()[i as int]));
            assert(out.deep_view() =~= canvas.deep_view().subrange(start as int, i + 1 as int));
        }
        i = i + 1;
    }
    out
}

} // verus!
