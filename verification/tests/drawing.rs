//! Colors, glyphs, the terminal grid and searching in it, with a real terminal emulator behind.

use alacritty_terminal::event::VoidListener;
use alacritty_terminal::grid::{Dimensions, Scroll};
use alacritty_terminal::index::{Column, Line};
use alacritty_terminal::term::{Config, Term};
use alacritty_terminal::vte::ansi::{Color, CursorShape as Shape, NamedColor as Name, Processor};
use harness_terminal::canvas::{blank, paint_grid, paste, Marking};
use harness_terminal::color::{
    cell_color, color256, color_key, Accent, CellColor, Colors, NamedColor, PaletteColor, Theme,
};
use harness_terminal::fonts::{
    font_path, italic_candidate, italic_sibling, pick_usable, read_valid_font, usable_mono_font,
    SECOND_MONO, SYSTEM_ITALIC, SYSTEM_MONO,
};
use harness_terminal::glyph::{compose, Dot, Face, GlyphCache, Raster};
use harness_terminal::grid::{
    draw_grid, link_spans, Cell, CursorShape, Find, Grid, Pen, Selected, UrlSpan, BOLD, FOCUS_BG,
    HIT_BG, INVERSE,
};
use harness_terminal::lettering::{draw_text, text_width, text_widths};
use harness_terminal::paint::{
    argb, argb_to_rgb, fill_rect, filled_round_top, stamp, Framebuffer, Rgb,
};
use harness_terminal::search::{
    all_matches, collect_fleet_matches, count_matches, find, line_text, match_width,
    visible_signature, FleetMatch,
};

/// The size of a terminal.
struct Size {
    lines: usize,
    cols: usize,
}

impl Dimensions for Size {
    fn total_lines(&self) -> usize {
        self.lines
    }

    fn screen_lines(&self) -> usize {
        self.lines
    }

    fn columns(&self) -> usize {
        self.cols
    }
}

fn terminal(lines: usize, cols: usize) -> Term<VoidListener> {
    Term::new(Config::default(), &Size { lines, cols }, VoidListener)
}

fn feed(t: &mut Term<VoidListener>, bytes: &[u8]) {
    let mut p: Processor = Processor::new();
    p.advance(t, bytes);
}

fn name_of(n: Name) -> NamedColor {
    match n {
        Name::Black => NamedColor::Black,
        Name::Red => NamedColor::Red,
        Name::Green => NamedColor::Green,
        Name::Yellow => NamedColor::Yellow,
        Name::Blue => NamedColor::Blue,
        Name::Magenta => NamedColor::Magenta,
        Name::Cyan => NamedColor::Cyan,
        Name::White => NamedColor::White,
        Name::Background => NamedColor::Background,
        Name::DimRed => NamedColor::DimRed,
        _ => NamedColor::Foreground,
    }
}

fn color_of(c: Color) -> CellColor {
    match c {
        Color::Named(n) => CellColor::Named(name_of(n)),
        Color::Indexed(i) => CellColor::Indexed(i),
        Color::Spec(s) => CellColor::Spec {
            r: s.r,
            g: s.g,
            b: s.b,
        },
    }
}

/// The grid of a terminal as plain values.
fn shot(t: &Term<VoidListener>) -> Grid {
    let g = t.grid();
    let mut lines = Vec::new();
    let mut l = g.topmost_line().0;
    while l <= g.bottommost_line().0 {
        let mut row = Vec::new();
        for c in 0..g.columns() {
            let cell = &g[Line(l)][Column(c)];
            row.push(Cell {
                c: cell.c,
                flags: cell.flags.bits(),
                fg: color_of(cell.fg),
                bg: color_of(cell.bg),
            });
        }
        lines.push(row);
        l += 1;
    }
    Grid {
        cols: g.columns(),
        rows: g.screen_lines(),
        offset: g.display_offset(),
        lines,
        cursor_line: g.cursor.point.line.0,
        cursor_col: g.cursor.point.column.0,
        shape: match t.cursor_style().shape {
            Shape::Block => CursorShape::Block,
            Shape::Underline => CursorShape::Underline,
            Shape::Beam => CursorShape::Beam,
            Shape::HollowBlock => CursorShape::HollowBlock,
            Shape::Hidden => CursorShape::Hidden,
        },
    }
}

/// A face whose letters are small boxes with soft edges. Its width differs from letter to letter.
struct Boxes;

impl Face for Boxes {
    fn raster(&self, ch: char, px: u32) -> Raster {
        let mut dots = Vec::new();
        let cover = [0, 60, 115, 255, 115, 60];
        if ch != ' ' {
            for y in 3..9 {
                for x in 1..6 {
                    dots.push(Dot {
                        x,
                        y,
                        cover: cover[x as usize],
                    });
                }
            }
        }
        Raster {
            w: if ch == 'i' { 4 } else { 7 },
            h: px,
            dots,
        }
    }
}

fn cache() -> GlyphCache<Boxes> {
    GlyphCache::new(Boxes, None)
}

fn drawn(t: &Term<VoidListener>, copy: Option<(i32, usize)>) -> Framebuffer {
    let g = shot(t);
    let mut fb = Framebuffer::new(g.cols * 9, g.rows * 18);
    draw_grid(
        &mut fb,
        &g,
        9,
        18,
        12,
        &mut cache(),
        &Colors::default(),
        None,
        &[],
        None,
        copy,
        &no_links(&g),
    );
    fb
}

fn no_links(g: &Grid) -> Vec<Vec<Option<UrlSpan>>> {
    vec![vec![None; g.cols]; g.rows]
}

fn rgb_at(fb: &Framebuffer, x: usize, y: usize) -> Rgb {
    argb_to_rgb(fb.get(x, y))
}

#[test]
fn argb_packing() {
    assert_eq!(argb(255, 10, 20, 30), 0xff0a141e);
}

/// The default theme (a modern Tokyo Night-inspired dark palette) is what renders when no
/// `[theme]` block is configured; a config theme still overrides individual entries.
#[test]
fn default_theme_matches_built_in_colors() {
    let c = Colors::default();
    assert_eq!(c.fg, (0xc0, 0xca, 0xf5));
    assert_eq!(c.bg, (0x1a, 0x1b, 0x26));
    assert_eq!(c.selection, (0x33, 0x46, 0x7c));
    assert_eq!(c.copy_cursor, (0x9e, 0xce, 0x6a));
    assert_eq!(c.ansi[1], (0xf7, 0x76, 0x8e)); // red
    assert_eq!(c.ansi[9], (0xff, 0x7a, 0x93)); // bright red
    assert_eq!(c.ansi[15], (0xc0, 0xca, 0xf5)); // bright white
    let named = PaletteColor::Named {
        bright: false,
        index: 2,
    };
    assert_eq!(named.to_rgb(&c), (0x9e, 0xce, 0x6a)); // green
    let named_bright = PaletteColor::Named {
        bright: true,
        index: 2,
    };
    assert_eq!(named_bright.to_rgb(&c), (0xb9, 0xf2, 0x7c)); // bright green
}

/// A configured theme overrides foreground/background and individual ANSI entries; unset ones
/// keep the built-in defaults, and the unknown/Dim specials fold to the themed fg.
#[test]
fn theme_overrides_resolve() {
    let mut ansi = [None; 16];
    ansi[1] = Some([200, 0, 0]);
    let t = Theme {
        foreground: Some([240, 240, 240]),
        background: Some([5, 5, 5]),
        ansi: Some(ansi),
        ..Theme::default()
    };
    let c = Colors::from(&t);
    assert_eq!(c.fg, (240, 240, 240));
    assert_eq!(c.bg, (5, 5, 5));
    assert_eq!(c.ansi[1], (200, 0, 0)); // overridden
    assert_eq!(c.ansi[2], (0x9e, 0xce, 0x6a)); // untouched built-in green

    // Dim red folds to the themed foreground.
    let dim = cell_color(&CellColor::Named(NamedColor::DimRed), &c);
    assert_eq!(dim.to_rgb(&c), (240, 240, 240));
}

#[test]
fn framebuffer_bounds() {
    let mut b = Framebuffer::new(4, 3);
    b.set(2, 1, argb(255, 1, 2, 3));
    assert_eq!(b.pixels[1 * 4 + 2], argb(255, 1, 2, 3));
    b.set(99, 99, 7); // out of bounds: ignored, no panic
    assert_eq!(b.pixels.len(), 12);
}

#[test]
fn color256_map() {
    assert_eq!(color256(0, &Colors::default()), (0x15, 0x16, 0x1e));
    assert_eq!(color256(15, &Colors::default()), (0xc0, 0xca, 0xf5));
}

/// Each named preset resolves to a distinct background and first ANSI color; unknown/blank
/// names fall back to the built-in default.
#[test]
fn named_presets_resolve_and_unknown_falls_back() {
    let defaults = Colors::default();
    let gruv = Colors::preset("gruvbox-dark");
    let nord = Colors::preset("nord");
    let solar = Colors::preset("solarized-dark");
    assert_ne!(gruv.bg, defaults.bg);
    assert_ne!(nord.bg, defaults.bg);
    assert_ne!(solar.bg, defaults.bg);
    // Distinct palettes are mutually different (not all silently defaulting).
    assert_ne!(gruv.ansi[1], nord.ansi[1]);
    // Case/whitespace-insensitive, and unknown names fall back to the default.
    assert_eq!(Colors::preset("Nord"), nord);
    assert_eq!(Colors::preset("  "), defaults);
    assert_eq!(Colors::preset("made-up"), defaults);
    // tokyo-night is the built-in default.
    assert_eq!(Colors::preset("tokyo-night"), defaults);
}

/// A `[theme]` preset layers: preset supplies the palette, and a field-level override wins for
/// just that entry (the rest stay from the preset, not the built-in default).
#[test]
fn preset_layers_with_field_override() {
    let t = Theme {
        preset: Some("gruvbox-dark".into()),
        background: Some([10, 20, 30]),
        ..Theme::default()
    };
    let c = Colors::from(&t);
    // Override wins for bg…
    assert_eq!(c.bg, (10, 20, 30));
    // …but the rest come from the gruvbox preset (fg + red), not the built-in tokyo-night.
    assert_eq!(c.fg, (0xeb, 0xdb, 0xb2));
    assert_eq!(c.ansi[1], (0xcc, 0x24, 0x1d));
}

/// From a terminal that was fed colors and text to pixels: something is drawn, and it is green
/// where a green letter was written.
#[test]
fn renders_colored_text_from_term() {
    let mut term = terminal(24, 80);
    feed(
        &mut term,
        b"\x1b[32mAAA\x1b[0m\r\n\x1b[31mMMM\x1b[0m",
    );
    let fb = drawn(&term, None);
    let non_blank = fb.pixels.iter().filter(|&&p| p != 0x0000_0000).count();
    assert!(non_blank > 50, "expected glyph pixels, got {non_blank}");
    let has_green = fb.pixels.iter().any(|&p| {
        let r = (p >> 16) & 0xff;
        let g = (p >> 8) & 0xff;
        let b = p & 0xff;
        g > 100 && r < 100 && b < 100
    });
    assert!(has_green, "expected a green glyph pixel");
}

/// Far more lines than the screen holds are fed, so that the earlier ones scroll off; the view is
/// then scrolled up, and what it shows is drawn.
#[test]
fn renders_scrollback_when_scrolled() {
    let mut term = terminal(8, 40);
    let mut buf = Vec::new();
    for i in 0..30 {
        buf.extend_from_slice(format!("\r\nLINE{i:02}").as_bytes());
    }
    feed(&mut term, &buf);
    assert!(
        term.grid().display_offset() == 0,
        "live view should be at bottom"
    );
    assert!(
        term.grid().history_size() > 0,
        "expected history to accumulate"
    );
    let live = drawn(&term, None);
    term.grid_mut().scroll_display(Scroll::Delta(4));
    assert!(
        term.grid().display_offset() > 0,
        "display_offset should rise after scroll"
    );
    let fb = drawn(&term, None);
    let non_blank = fb.pixels.iter().filter(|&&p| p != 0x0000_0000).count();
    assert!(
        non_blank > 20,
        "expected scrollback glyphs when scrolled, got {non_blank}"
    );
    // The cursor of the live screen is not part of what is scrolled to.
    assert_ne!(live.pixels, fb.pixels);
}

/// Search: find a query string across history, case-insensitively, and report its line+col.
#[test]
fn finds_text_in_scrollback() {
    let mut term = terminal(6, 40);
    let mut buf = Vec::new();
    for i in 0..10 {
        buf.extend_from_slice(format!("\r\nrow {i} needle").as_bytes());
    }
    feed(&mut term, &buf);
    let g = shot(&term);
    // needle appears on every line; starting from the top of history the first hit is the
    // topmost history line (a negative absolute line, since history sits above line 0).
    let hit = find(&g, "NEEDLE", term.grid().topmost_line().0).expect("should find a match");
    assert!(
        hit.0 < 0,
        "first hit should be in history (negative line), got {}",
        hit.0
    );
    assert!(hit.2 > 0, "match should have a column and width");
}

/// SGR inverse: feed text with the inverse attribute; the cell bg should become the colored fg
/// (green from the SGR before it), proving inverse swaps bg to the original fg color.
#[test]
fn sgr_inverse_swaps_fg_bg() {
    let mut term = terminal(2, 40);
    feed(&mut term, b"\x1b[32m\x1b[7mX");
    let fb = drawn(&term, None);
    // Cell (0,0) bg should be green-ish (the original fg became the bg).
    let cell0 = fb.pixels[0];
    let r = (cell0 >> 16) & 0xff;
    let g = (cell0 >> 8) & 0xff;
    let b = cell0 & 0xff;
    assert!(
        g > 180 && r < 220 && b < 180,
        "inverse cell bg should be green, got rgb({r},{g},{b})"
    );
}

/// Cursor shapes: force the emulator to a beam cursor and assert the glyph cell is drawn plus a
/// vertical bar on the left edge (i.e. the beam is distinct from a full block fill).
#[test]
fn beam_cursor_draws_vbar_not_block() {
    let mut term = terminal(1, 5);
    feed(&mut term, b"\x1b[5 q"); // beam cursor
    let fb = drawn(&term, None);
    let cell_x = 0;
    // Left-edge column (x=0) of the cursor cell should be non-black (beam top-to-bottom).
    let left_edge_filled = (0..18).any(|py| fb.pixels[py * fb.width + cell_x] != 0);
    assert!(
        left_edge_filled,
        "beam cursor should draw a vertical bar at cell's left edge"
    );
    // The bottom-right corner must be background — a block cursor would fill it with the cursor
    // fg color. The background is the theme bg, not black.
    let corner = fb.pixels[17 * fb.width + (9 - 1)] & 0x00ff_ffff;
    let bg = Colors::default().bg;
    let bg_rgb = (bg.0 as u32) << 16 | (bg.1 as u32) << 8 | bg.2 as u32;
    assert_eq!(
        corner, bg_rgb,
        "beam cursor must not fill the cell to its bottom-right corner"
    );
    assert_ne!(rgb_at(&fb, 0, 9), bg, "the bar is drawn in another color");
}

/// Copy-mode read cursor: drawing with a `copy` point fills exactly that cell with the bright
/// green block cursor color (so the user can see where selection starts).
#[test]
fn copy_cursor_draws_green_block() {
    let mut term = terminal(2, 6);
    feed(&mut term, b"abc\r\n123");
    // Copy cursor at grid (line 0, col 1) = the "b" cell.
    let fb = drawn(&term, Some((0, 1)));
    // Center pixel of cell (line 0, col 1) should be the copy-cursor green (0x9ece6a).
    let px = fb.pixels[13]; // center pixel (row 0, col 1) framebuffer index
    let (r, gg, b) = ((px >> 16) & 0xff, (px >> 8) & 0xff, px & 0xff);
    assert!(
        gg > 180 && r < 220 && b < 180,
        "copy cursor should paint the target cell green, got rgb({r},{gg},{b})"
    );
}

/// Match counting: a query present multiple times across history counts all non-overlapping
/// occurrences (used for the "N matches" search indicator).
#[test]
fn counts_all_matches_across_history() {
    let mut term = terminal(4, 40);
    // Two "fix" on one line, one on another, none on the last.
    feed(&mut term, b"fix foo fix\r\nno match here\r\nfix again");
    let g = shot(&term);
    assert_eq!(
        count_matches(&g, "fix"),
        3,
        "expected 3 total non-overlapping matches"
    );
    assert_eq!(count_matches(&g, "zzz"), 0);
    assert_eq!(count_matches(&g, ""), 0);
}

/// all_matches returns every occurrence with correct (line, col, width) so draw_grid can
/// highlight them all; line/col are grid-relative display coordinates.
#[test]
fn all_matches_lists_every_occurrence() {
    let mut term = terminal(4, 40);
    feed(&mut term, b"fix foo fix\r\nno match here\r\nfix again");
    let g = shot(&term);
    // First line (row 0): two matches at cols 0 and 8. Third line (row 2): one at col 0.
    let hits = all_matches(&g, "fix");
    assert_eq!(hits.len(), 3);
    assert_eq!(hits[0], (0, 0, 3));
    assert_eq!(hits[1], (0, 8, 3));
    assert_eq!(hits[2], (2, 0, 3));
    assert!(all_matches(&g, "zzz").is_empty());
}

/// The least a font file holds: a table directory, a head, the metrics' header and the number of
/// glyphs.
fn tiny_font() -> Vec<u8> {
    let mut head = vec![0, 1, 0, 0, 0, 1, 0, 0, 0, 0, 0, 0, 0x5f, 0x0f, 0x3c, 0xf5, 0, 0];
    head.extend_from_slice(&[0x03, 0xe8]);
    head.extend_from_slice(&[0; 34]);
    let mut hhea = vec![0, 1, 0, 0, 0x03, 0x20, 0xff, 0x38];
    hhea.extend_from_slice(&[0; 26]);
    hhea.extend_from_slice(&[0, 1]);
    let maxp = vec![0, 0, 0x50, 0, 0, 1];
    let tables: [(&[u8], Vec<u8>); 3] = [(b"head", head), (b"hhea", hhea), (b"maxp", maxp)];
    let mut out = vec![0, 1, 0, 0, 0, 3, 0, 0, 0, 0, 0, 0];
    let mut at: u32 = 12 + 3 * 16;
    for (tag, data) in &tables {
        out.extend_from_slice(tag);
        out.extend_from_slice(&[0; 4]);
        out.extend_from_slice(&at.to_be_bytes());
        out.extend_from_slice(&(data.len() as u32).to_be_bytes());
        at += data.len() as u32;
    }
    for (_, data) in &tables {
        out.extend_from_slice(data);
    }
    out
}

/// A font that can be read is accepted.
#[test]
fn read_valid_font_accepts_a_real_mono_font() {
    let data = tiny_font();
    assert!(!data.is_empty());
    assert!(read_valid_font(&Some(data)), "a real font must validate");
}

/// A nonexistent path and a corrupt file both fail validation, so a bad configured `font_path`
/// degrades to the fallback chain instead of panicking on launch.
#[test]
fn read_valid_font_rejects_missing_and_corrupt() {
    assert!(!read_valid_font(&None));
    assert!(!read_valid_font(&Some(
        b"this is definitely not a valid font".to_vec()
    )));
}

/// The idle-wake signature must change when a pane redraws the screen IN PLACE (no new
/// scrollback) — e.g. a vim cursor move or homegrown spinner — because `history_len` stays flat
/// for those. Also asserts an identical grid yields an identical signature (no spurious wakes) and
/// that color changes are seen.
#[test]
fn visible_signature_tracks_in_place_redraws_without_scrollback() {
    let mut term = terminal(4, 40);
    // A prompt, then a carriage-return overwrite of the SAME line (like a spinner/progress row).
    feed(&mut term, b"$ waiting\rwaiting for agent...");
    let s0 = visible_signature(&shot(&term));
    // No scrollback was created — the same-line rewrite didn't push history.
    assert_eq!(term.grid().history_size(), 0);
    assert_eq!(visible_signature(&shot(&term)), s0);

    // A genuinely different in-place update (the spinner advances) MUST change the signature,
    // even though history still hasn't grown.
    feed(&mut term, b"\rwaiting for agent  .");
    assert_eq!(term.grid().history_size(), 0);
    let s2 = visible_signature(&shot(&term));
    assert_ne!(s2, s0, "in-place change without scrollback must be seen");

    // A color-only change (same chars, SGR color) is also detected.
    feed(&mut term, b"\x1b[31mwaiting for agent  .\x1b[0m");
    assert_ne!(visible_signature(&shot(&term)), s2);
}

/// Fleet search spans multiple sessions and is sorted by tab then line.
#[test]
fn fleet_search_crosses_tabs_sorted_by_tab_then_line() {
    // Two tabs: tab 0 has "fix" on two lines, tab 1 on one line — out of sorted order at the
    // line level so we can prove the primary sort is BY TAB.
    let mut t0 = terminal(4, 40);
    feed(&mut t0, b"fix first\r\nno match\r\nfix third");
    let mut t1 = terminal(4, 40);
    feed(&mut t1, b"only fix here");
    let terms = vec![shot(&t0), shot(&t1)];

    let hits = collect_fleet_matches(&terms, "fix");
    // 2 (tab 0) + 1 (tab 1) = 3 matches.
    assert_eq!(hits.len(), 3);
    // Sorted by tab first: both tab-0 hits (lines 0, 2 in line order) then the tab-1 hit.
    assert_eq!(
        hits[0],
        FleetMatch {
            tab: 0,
            line: 0,
            col: 0
        }
    );
    assert_eq!(
        hits[1],
        FleetMatch {
            tab: 0,
            line: 2,
            col: 0
        }
    );
    assert_eq!(
        hits[2],
        FleetMatch {
            tab: 1,
            line: 0,
            col: 5
        }
    );
    // Case-insensitive: uppercase query still matches lowercase text (the search lowercases it).
    assert_eq!(collect_fleet_matches(&terms, "FIX").len(), 3);
    // A query in no tab matches nothing.
    assert!(collect_fleet_matches(&terms, "zzz").is_empty());
}

/// Matches are counted in cells, also behind characters that grow when made small.
#[test]
fn matches_are_counted_in_cells() {
    let mut term = terminal(2, 20);
    feed(&mut term, "İ fix".as_bytes());
    let g = shot(&term);
    assert_eq!(all_matches(&g, "fix"), vec![(0, 2, 3)]);
    assert_eq!(match_width("FIX"), 3);
    assert_eq!(find(&g, "fix", 0), Some((0, 2, 3)));
    assert_eq!(find(&g, "fix", 1), None);
    assert_eq!(line_text(&g, 0)[2], 'f');
}

/// Matches do not overlap.
#[test]
fn matches_do_not_overlap() {
    let mut term = terminal(1, 20);
    feed(&mut term, b"aaaaa");
    let hits = all_matches(&shot(&term), "aa");
    assert_eq!(hits, vec![(0, 0, 2), (0, 2, 2)]);
}

/// The palette of 256 colors: the cube, then the grays.
#[test]
fn the_cube_and_the_grays() {
    let c = Colors::default();
    assert_eq!(color256(16, &c), (0, 0, 0));
    assert_eq!(color256(231, &c), (255, 255, 255));
    assert_eq!(color256(196, &c), (255, 0, 0));
    assert_eq!(color256(232, &c), (8, 8, 8));
    assert_eq!(color256(255, &c), (238, 238, 238));
}

/// A theme that leaves everything open gives the built-in palette; what it names wins.
#[test]
fn a_theme_is_laid_over_the_built_in_one() {
    assert_eq!(Colors::from(&Theme::default()), Colors::default());
    let t = Theme {
        preset: Some("dracula".to_string()),
        cursor: Some([1, 2, 3]),
        accents: vec![Accent {
            engine: "x".to_string(),
            color: (9, 9, 9),
        }],
        ..Theme::default()
    };
    let c = Colors::from(&t);
    assert_eq!(c.cursor, (1, 2, 3));
    assert_eq!(c.bg, Colors::preset("dracula").bg);
    assert_eq!(c.accents.len(), 1);
}

/// Two colors that differ have different numbers.
#[test]
fn color_numbers_tell_colors_apart() {
    let all = [
        CellColor::Named(NamedColor::Red),
        CellColor::Named(NamedColor::BrightRed),
        CellColor::Indexed(1),
        CellColor::Spec { r: 0, g: 0, b: 1 },
        CellColor::Spec { r: 0, g: 1, b: 0 },
    ];
    for (i, a) in all.iter().enumerate() {
        for (j, b) in all.iter().enumerate() {
            assert_eq!(i == j, color_key(a) == color_key(b));
        }
    }
}

/// What is outside a framebuffer reads as nothing, and packing and splitting are inverse.
#[test]
fn pixels_come_back() {
    let mut fb = Framebuffer::new(2, 2);
    fb.set(1, 1, argb(255, 7, 8, 9));
    assert_eq!(argb_to_rgb(fb.get(1, 1)), (7, 8, 9));
    assert_eq!(fb.get(2, 0), 0);
}

#[test]
fn rectangles_are_clipped_to_the_window() {
    let mut fb = Framebuffer::new(4, 4);
    fill_rect(&mut fb, 2, 2, 100, 100, (1, 1, 1));
    let n = fb.pixels.iter().filter(|&&p| p == argb(255, 1, 1, 1)).count();
    assert_eq!(n, 4);
    fill_rect(&mut fb, usize::MAX, 0, usize::MAX, 9, (2, 2, 2));
    assert_eq!(fb.pixels.iter().filter(|&&p| p == argb(255, 2, 2, 2)).count(), 0);
}

/// A raised tab is round above and square below, and stays in its box.
#[test]
fn raised_tabs_are_round_above() {
    let mut fb = Framebuffer::new(20, 12);
    filled_round_top(&mut fb, 2, 2, 12, 8, 4, (5, 5, 5));
    let on = argb(255, 5, 5, 5);
    assert_ne!(fb.get(2, 2), on);
    assert_eq!(fb.get(8, 2), on);
    for x in 2..14 {
        assert_eq!(fb.get(x, 9), on);
    }
    for y in 0..12 {
        for x in 0..20 {
            if !(2..14).contains(&x) || !(2..10).contains(&y) {
                assert_eq!(fb.get(x, y), 0);
            }
        }
    }
}

/// Coverage blends: full is the color itself, none leaves what was there.
#[test]
fn coverage_blends() {
    let mut fb = blank(3, 1, (0, 0, 0));
    stamp(&mut fb, 0, 1, 3, 1, &vec![0, 128, 255], (200, 100, 50));
    assert_eq!(rgb_at(&fb, 0, 0), (0, 0, 0));
    assert_eq!(rgb_at(&fb, 2, 0), (200, 100, 50));
    let mid = rgb_at(&fb, 1, 0);
    assert!(mid.0 > 95 && mid.0 < 105 && mid.1 < 55 && mid.2 < 30, "{mid:?}");
}

/// A bold letter is one pixel thicker to the right and nowhere lighter.
#[test]
fn bold_thickens_to_the_right() {
    let r = Raster {
        w: 3,
        h: 1,
        dots: vec![
            Dot {
                x: 0,
                y: 0,
                cover: 90,
            },
            Dot {
                x: 0,
                y: 0,
                cover: 40,
            },
            Dot {
                x: 9,
                y: 9,
                cover: 40,
            },
        ],
    };
    assert_eq!(compose(&r, false).alpha, vec![90, 0, 0]);
    assert_eq!(compose(&r, true).alpha, vec![90, 90, 0]);
    let mut c = cache();
    let (w, h, a) = c.glyph('i', 12, false);
    assert_eq!((w, h, a.len()), (4, 12, 48));
    let upright = c.glyph_styled('a', 12, true, false);
    assert_eq!(upright, c.glyph_styled('a', 12, true, true));
    assert_ne!(upright, c.glyph('a', 12, false));
}

/// The width of a text is that of its parts.
#[test]
fn widths_add_up() {
    let mut c = cache();
    assert_eq!(text_width(&mut c, "ii", 12), 8);
    assert_eq!(text_width(&mut c, "aiia", 12), 22);
    assert_eq!(
        text_widths(&mut c, &vec!["i".to_string(), "a".to_string()], 12),
        vec![4, 7]
    );
    let mut fb = blank(40, 20, (0, 0, 0));
    assert_eq!(draw_text(&mut fb, &mut c, "ai", 3, 14, 12, (255, 255, 255)), 11);
    assert!(fb.pixels.iter().any(|&p| p == argb(255, 255, 255, 255)));
}

fn plain(c: char) -> Cell {
    Cell {
        c,
        flags: 0,
        fg: CellColor::Named(NamedColor::Foreground),
        bg: CellColor::Named(NamedColor::Background),
    }
}

fn page(cells: Vec<Cell>) -> Grid {
    Grid {
        cols: cells.len(),
        rows: 1,
        offset: 0,
        lines: vec![cells],
        cursor_line: 0,
        cursor_col: 999,
        shape: CursorShape::Hidden,
    }
}

fn marked(g: &Grid, hit: Option<Find>, all: &[Find], sel: Option<&Selected>) -> Framebuffer {
    let mut fb = Framebuffer::new(g.cols * 9, g.rows * 18);
    draw_grid(
        &mut fb,
        g,
        9,
        18,
        12,
        &mut cache(),
        &Colors::default(),
        hit,
        all,
        sel,
        None,
        &no_links(g),
    );
    fb
}

/// The match in focus stands out from the others, and both from the rest.
#[test]
fn matches_stand_out() {
    let g = page(vec![plain('a'); 4]);
    let fb = marked(&g, Some((0, 1, 1)), &[(0, 1, 1), (0, 2, 1)], None);
    assert_eq!(rgb_at(&fb, 0, 0), Colors::default().bg);
    assert_eq!(rgb_at(&fb, 9, 0), FOCUS_BG);
    assert_eq!(rgb_at(&fb, 18, 0), HIT_BG);
}

/// Inner lines of a selection belong to it from edge to edge, those of a block do not.
#[test]
fn selections_cover_their_lines() {
    let mut g = page(vec![plain(' '); 3]);
    g.rows = 3;
    g.lines = vec![vec![plain(' '); 3], vec![plain(' '); 3], vec![plain(' '); 3]];
    let mut s = Selected {
        start_line: 0,
        start_col: 1,
        end_line: 2,
        end_col: 1,
        is_block: false,
    };
    let on = Colors::default().selection;
    let fb = marked(&g, None, &[], Some(&s));
    let seen = |fb: &Framebuffer, row: usize, col: usize| rgb_at(fb, col * 9, row * 18) == on;
    assert!(!seen(&fb, 0, 0) && seen(&fb, 0, 1) && seen(&fb, 0, 2));
    assert!(seen(&fb, 1, 0) && seen(&fb, 1, 2));
    assert!(seen(&fb, 2, 0) && seen(&fb, 2, 1) && !seen(&fb, 2, 2));
    s.is_block = true;
    let fb = marked(&g, None, &[], Some(&s));
    assert!(!seen(&fb, 1, 0) && seen(&fb, 1, 1) && !seen(&fb, 1, 2));
}

/// Styles are told by their bits: bold is thicker, inverse swaps the colors.
#[test]
fn styles_are_told_by_their_bits() {
    let mut bold = plain('a');
    bold.flags = BOLD;
    let mut inverse = plain(' ');
    inverse.flags = INVERSE;
    let fb = marked(&page(vec![plain('a'), bold, inverse]), None, &[], None);
    let count = |x0: usize| {
        let mut n = 0;
        for y in 0..18 {
            for x in x0..x0 + 9 {
                if rgb_at(&fb, x, y) != Colors::default().bg {
                    n += 1;
                }
            }
        }
        n
    };
    assert!(count(9) > count(0));
    assert_eq!(rgb_at(&fb, 18, 0), Colors::default().fg);
}

/// Each link of a row is listed once.
#[test]
fn links_are_listed_once() {
    let a = UrlSpan { start: 1, end: 4 };
    let b = UrlSpan { start: 6, end: 9 };
    let hits = vec![None, Some(a), Some(a), None, Some(b), Some(a)];
    assert_eq!(link_spans(&hits), vec![a, b]);
}

/// The grid leaves the bars above and below it alone.
#[test]
fn the_grid_leaves_the_bars_alone() {
    let g = page(vec![plain('a'); 2]);
    let mut fb = blank(18, 40, (7, 7, 7));
    let marks = Marking {
        hit: None,
        all: Vec::new(),
        sel: None,
        copy: None,
        links: no_links(&g),
    };
    let pen = Pen {
        cell_w: 9,
        cell_h: 18,
        font_px: 12,
    };
    paint_grid(&mut fb, &mut cache(), &g, &marks, &Colors::default(), pen, 10, 12);
    for x in 0..18 {
        assert_eq!(rgb_at(&fb, x, 9), (7, 7, 7));
        assert_eq!(rgb_at(&fb, x, 28), (7, 7, 7));
        assert_eq!(rgb_at(&fb, x, 10), Colors::default().bg);
    }
    let mut under = blank(2, 3, (0, 0, 0));
    paste(&mut under, &blank(2, 1, (1, 1, 1)), 1);
    assert_eq!(rgb_at(&under, 0, 0), (0, 0, 0));
    assert_eq!(rgb_at(&under, 0, 1), (1, 1, 1));
    assert_eq!(rgb_at(&under, 0, 2), (0, 0, 0));
}

/// The configured font comes first, then the environment's, then the system's own; one that cannot
/// be read gives way.
#[test]
fn fonts_fall_back() {
    assert_eq!(font_path(Some("/a.ttf"), Some("/b.ttf")), "/a.ttf");
    assert_eq!(font_path(None, Some("/b.ttf")), "/b.ttf");
    assert_eq!(font_path(None, Some("")), SYSTEM_MONO);
    assert_eq!(font_path(None, None), SYSTEM_MONO);
    assert_eq!(pick_usable("/a.ttf", true, true, true).as_deref(), Some("/a.ttf"));
    assert_eq!(pick_usable("/a.ttf", false, true, true).as_deref(), Some(SYSTEM_MONO));
    assert_eq!(pick_usable("/a.ttf", false, false, true).as_deref(), Some(SECOND_MONO));
    assert_eq!(pick_usable("/a.ttf", false, false, false), None);
    assert_eq!(
        usable_mono_font("/a.ttf", &Some(b"nothing".to_vec()), &Some(tiny_font()), &None).as_deref(),
        Some(SYSTEM_MONO)
    );
}

/// The italic face stands beside the upright one.
#[test]
fn italic_faces_stand_beside() {
    assert_eq!(italic_sibling("/f", "Mono", Some("ttf"), true), "/f/Mono-Italic.ttf");
    assert_eq!(italic_sibling("/f", "Mono", Some("ttf"), false), "/f/MonoItalic.ttf");
    assert_eq!(italic_sibling("/f", "Mono", Some(""), true), "/f/Mono-Italic.");
    assert_eq!(italic_sibling("/f", "Mono", None, true), "/f/Mono-Italic");
    assert_eq!(
        italic_candidate(SYSTEM_MONO, "/System/Library/Fonts", "SFNSMono", Some("ttf"), false, false)
            .as_deref(),
        Some(SYSTEM_ITALIC)
    );
    assert_eq!(
        italic_candidate("/f/Mono.ttf", "/f", "Mono", Some("ttf"), false, true).as_deref(),
        Some("/f/MonoItalic.ttf")
    );
    assert_eq!(
        italic_candidate("/f/Mono.ttf", "/f", "Mono", Some("ttf"), false, false),
        None
    );
}

/// The first match found from the top is the first of all matches, and none is missed.
#[test]
fn the_first_match_is_the_first_of_all() {
    let mut term = terminal(3, 20);
    feed(&mut term, b"ab\r\nxaba\r\nab\r\n\r\nbab");
    let g = shot(&term);
    let all = all_matches(&g, "ab");
    assert_eq!(find(&g, "ab", term.grid().topmost_line().0), Some(all[0]));
    assert_eq!(count_matches(&g, "ab"), all.len());
    assert_eq!(all.len(), 4);
    assert_eq!(all, vec![(-2, 0, 2), (-1, 1, 2), (0, 0, 2), (2, 1, 2)]);
}

/// A scrolled view shows the same wherever the cursor stands.
#[test]
fn a_scrolled_view_hides_the_cursor() {
    let mut g = page(vec![plain(' '); 3]);
    g.lines.push(vec![plain(' '); 3]);
    g.offset = 1;
    g.shape = CursorShape::Block;
    g.cursor_col = 0;
    let a = marked(&g, None, &[], None);
    g.cursor_col = 2;
    let b = marked(&g, None, &[], None);
    assert_eq!(a.pixels, b.pixels);
    g.offset = 0;
    assert_ne!(marked(&g, None, &[], None).pixels, a.pixels);
}

/// Each glyph is kept by its style, its character and its size.
#[test]
fn glyphs_are_kept_apart() {
    let mut c = cache();
    assert_eq!(c.glyph('a', 12, false).1, 12);
    assert_eq!(c.glyph('a', 13, false).1, 13);
    assert_eq!(c.glyph('a', 12, false).1, 12);
    assert_eq!(c.glyph('i', 12, false).0, 4);
}

/// The lowest row of a raised tab is whole, however large its radius is.
#[test]
fn raised_tabs_are_square_below() {
    for r in 0..6 {
        let mut fb = Framebuffer::new(4, 2);
        filled_round_top(&mut fb, 0, 0, 4, 2, r, (1, 2, 3));
        assert_eq!(fb.pixels[4..8], [0xff01_0203; 4]);
    }
}

/// Bars that leave no room leave nothing to paint.
#[test]
fn bars_may_leave_no_room() {
    let g = page(vec![plain('a'); 2]);
    let marks = Marking {
        hit: None,
        all: Vec::new(),
        sel: None,
        copy: None,
        links: no_links(&g),
    };
    let pen = || Pen {
        cell_w: 9,
        cell_h: 18,
        font_px: 12,
    };
    for (top, bottom) in [(30, 20), (41, 0), (0, usize::MAX)] {
        let mut fb = blank(18, 40, (7, 7, 7));
        paint_grid(&mut fb, &mut cache(), &g, &marks, &Colors::default(), pen(), top, bottom);
        assert_eq!(fb.pixels, blank(18, 40, (7, 7, 7)).pixels);
    }
}

/// From each line on, the search finds the first of all matches that stands there or below; the case
/// of the query makes no difference, and an empty one finds nothing.
#[test]
fn the_search_finds_the_first_of_all() {
    let mut term = terminal(4, 20);
    feed(&mut term, b"fix one\r\nnone\r\nFIX two fix\r\n\r\nlast fIx\r\nend\r\n");
    let g = shot(&term);
    let top = term.grid().topmost_line().0;
    let all = all_matches(&g, "fix");
    assert_eq!(all.len(), 4);
    for start in top..8 {
        let first = all.iter().find(|m| m.0 >= start).copied();
        assert_eq!(find(&g, "fix", start), first);
        assert_eq!(find(&g, "FiX", start), first);
        assert_eq!(find(&g, "", start), None);
    }
    assert_eq!(all_matches(&g, "FIX"), all);
    assert!(all_matches(&g, "").is_empty());
    let mut term = terminal(4, 20);
    feed(&mut term, b"FIX ONE\r\nNONE\r\nfix TWO FIX\r\n\r\nLAST FiX\r\nEND\r\n");
    assert_eq!(all_matches(&shot(&term), "fix"), all);
}

/// A text changes only its own box, makes what it changes opaque, and takes the width that was
/// measured, also where it is clipped; a line break takes no width and draws nothing.
#[test]
fn text_keeps_to_its_box() {
    let mut c = cache();
    for (text, x0, y0) in [("ai", 3, 14), ("a\ni", 3, 14), ("aaaaaaaa", 25, 9), ("\n", 2, 14)] {
        let mut fb = Framebuffer::new(30, 20);
        let w = draw_text(&mut fb, &mut c, text, x0, y0, 12, (255, 255, 255));
        assert_eq!(w, text_width(&mut c, text, 12));
        assert_eq!((fb.width, fb.height, fb.pixels.len()), (30, 20, 600));
        for y in 0..20 {
            for x in 0..30 {
                let p = fb.get(x, y);
                if p != 0 {
                    assert!(x0 <= x && x < x0 + w && y < y0, "{text:?} {x} {y}");
                    assert_eq!(p >> 24, 255);
                }
            }
        }
    }
    let mut one = Framebuffer::new(30, 20);
    let mut two = Framebuffer::new(30, 20);
    draw_text(&mut one, &mut c, "ai", 3, 14, 12, (9, 9, 9));
    draw_text(&mut two, &mut c, "a\ni", 3, 14, 12, (9, 9, 9));
    assert_eq!(one.pixels, two.pixels);
}

/// A bold glyph has the box of the plain one, and each of its pixels is the larger of the plain pixel
/// and its left neighbor, whichever of the two is made first; asking again gives the same.
#[test]
fn bold_comes_from_plain() {
    for first in [false, true] {
        for italic in [false, true] {
            let mut c = cache();
            let one = c.glyph_styled('a', 12, first, italic);
            let two = c.glyph_styled('a', 12, !first, italic);
            let (plain, bold) = if first { (&two, &one) } else { (&one, &two) };
            let (w, h) = (plain.0 as usize, plain.1 as usize);
            assert!(w >= 1);
            assert_eq!((bold.0 as usize, bold.1 as usize), (w, h));
            assert_eq!((plain.2.len(), bold.2.len()), (w * h, w * h));
            for y in 0..h {
                assert_eq!(bold.2[y * w], plain.2[y * w]);
                for x in 1..w {
                    let i = y * w + x;
                    assert_eq!(bold.2[i], plain.2[i].max(plain.2[i - 1]));
                }
            }
            assert_eq!(c.glyph_styled('a', 12, first, italic), one);
            assert_eq!(c.glyph_styled('a', 12, !first, italic), two);
        }
    }
}

/// No glyph is narrower than a pixel, and a box too large to be held has no rows.
#[test]
fn glyphs_are_at_least_a_pixel_wide() {
    let dots = || {
        vec![Dot {
            x: 0,
            y: 0,
            cover: 7,
        }]
    };
    let thin = compose(
        &Raster {
            w: 0,
            h: 2,
            dots: dots(),
        },
        true,
    );
    assert_eq!((thin.w, thin.h, thin.alpha), (1, 2, vec![7, 0]));
    let huge = compose(
        &Raster {
            w: u32::MAX,
            h: 2,
            dots: dots(),
        },
        false,
    );
    assert_eq!((huge.w, huge.h, huge.alpha.len()), (1, 0, 0));
}
