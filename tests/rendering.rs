use ascii_art::frame::{RasterFrame, Rgb};
use ascii_art::geometry::{compute_target_size, GeometryError, TerminalGeometry};
use ascii_art::pixel::{heat_glyph, quantize};
use ascii_art::render::{render_cells, render_frame, Cell, RenderConfig, RenderError, RenderedFrame};

fn config(colorize: bool, resize: bool, blocks: bool) -> RenderConfig {
    RenderConfig {
        colorize,
        resize,
        true_color_blocks: blocks,
        frame_delay_ms: 0,
        loop_animation: false,
    }
}

fn frame(width: u32, height: u32, pixels: &[[u8; 4]]) -> RasterFrame {
    let bytes: Vec<u8> = pixels.iter().flat_map(|p| p.iter().copied()).collect();
    RasterFrame::from_rgba(width, height, bytes).expect("four bytes per pixel")
}

fn rows_text(out: &RenderedFrame) -> Vec<String> {
    let mut rows = Vec::new();
    for y in 0..out.height as usize {
        let mut row = String::new();
        for x in 0..out.width as usize {
            let cell = out.cells[y * out.width as usize + x];
            for _ in 0..out.cell_width {
                row.push(cell.glyph);
            }
        }
        rows.push(row);
    }
    rows
}

const WHITE: [u8; 4] = [255, 255, 255, 255];
const BLACK: [u8; 4] = [0, 0, 0, 255];

#[test]
fn quantize_grey_levels() {
    assert_eq!(quantize(0, 0, 0), 0);
    assert_eq!(quantize(16, 16, 16), 1);
    assert_eq!(quantize(15, 15, 15), 0);
    assert_eq!(quantize(128, 128, 128), 8);
    assert_eq!(quantize(255, 255, 255), 15);
    for v in 0..=255u8 {
        assert_eq!(quantize(v, v, v), v / 16);
    }
}

#[test]
fn quantize_averages_channels() {
    // (255 + 0 + 0) / 3 = 85, bucket 5
    assert_eq!(quantize(255, 0, 0), 5);
    // (10 + 20 + 30) / 3 = 20, bucket 1
    assert_eq!(quantize(10, 20, 30), 1);
}

#[test]
fn heat_map_ends() {
    assert_eq!(heat_glyph(0), ' ');
    assert_eq!(heat_glyph(1), '.');
    assert_eq!(heat_glyph(15), '█');
}

#[test]
fn target_size_fails_without_columns_or_rows() {
    let zero_cols = TerminalGeometry { columns: 0, rows: 24 };
    let zero_rows = TerminalGeometry { columns: 80, rows: 0 };
    assert_eq!(
        compute_target_size(zero_cols, 100, 50, 1),
        Err(GeometryError { columns: 0, rows: 24 })
    );
    assert_eq!(
        compute_target_size(zero_rows, 100, 50, 1),
        Err(GeometryError { columns: 80, rows: 0 })
    );
}

#[test]
fn target_size_height_binds() {
    let g = TerminalGeometry { columns: 80, rows: 24 };
    assert_eq!(compute_target_size(g, 100, 50, 1), Ok((48, 24)));
}

#[test]
fn target_size_width_binds() {
    let g = TerminalGeometry { columns: 80, rows: 24 };
    assert_eq!(compute_target_size(g, 160, 40, 1), Ok((80, 20)));
}

#[test]
fn target_size_wide_cells() {
    let g = TerminalGeometry { columns: 90, rows: 30 };
    assert_eq!(compute_target_size(g, 10, 10, 3), Ok((30, 30)));
    assert_eq!(compute_target_size(g, 40, 10, 3), Ok((30, 7)));
}

#[test]
fn target_size_never_below_one() {
    let narrow = TerminalGeometry { columns: 2, rows: 1 };
    assert_eq!(compute_target_size(narrow, 1000, 1, 3), Ok((1, 1)));
    let g = TerminalGeometry { columns: 80, rows: 24 };
    assert_eq!(compute_target_size(g, 10000, 1, 1), Ok((80, 1)));
    assert_eq!(compute_target_size(g, 1, 10000, 1), Ok((1, 24)));
}

#[test]
fn target_size_narrower_than_one_glyph() {
    // 2 / 3 = 0 usable columns: the width binds, and both sides floor to one.
    let g = TerminalGeometry { columns: 2, rows: 5 };
    assert_eq!(compute_target_size(g, 1, 10, 3), Ok((1, 1)));
    assert_eq!(compute_target_size(g, 10, 1, 3), Ok((1, 1)));
    // One glyph fits: the height binds for a tall image.
    let g = TerminalGeometry { columns: 3, rows: 5 };
    assert_eq!(compute_target_size(g, 1, 10, 3), Ok((1, 5)));
}

#[test]
fn resized_render_in_narrow_terminal() {
    let f = frame(1, 10, &[WHITE; 10]);
    let g = TerminalGeometry { columns: 2, rows: 5 };
    let out = render_frame(&f, config(false, true, true), g).unwrap();
    assert_eq!((out.width, out.height), (1, 1));
}

#[test]
fn target_size_keeps_aspect_within_rounding() {
    for cols in [1u16, 7, 80, 211] {
        for rows in [1u16, 5, 24, 60] {
            for (w, h) in [(1u32, 1u32), (640, 480), (17, 300), (1920, 1080)] {
                let g = TerminalGeometry { columns: cols, rows };
                let (tw, th) = compute_target_size(g, w, h, 1).unwrap();
                assert!(tw >= 1 && th >= 1);
                assert!(tw <= cols as u32 && th <= rows as u32);
                let diff = (tw as i64 * h as i64 - th as i64 * w as i64).abs();
                assert!(diff < w.max(h) as i64);
            }
        }
    }
}

#[test]
fn plain_render_of_two_by_two() {
    let f = frame(2, 2, &[WHITE, BLACK, WHITE, BLACK]);
    let out = render_cells(&f, config(false, false, false));
    assert_eq!(out.width, 2);
    assert_eq!(out.height, 2);
    assert_eq!(out.cell_width, 1);
    assert_eq!(rows_text(&out), vec!["█ ".to_string(), "█ ".to_string()]);
    assert!(out.cells.iter().all(|c| c.color.is_none()));
}

#[test]
fn colored_render_uses_literal_pixel_colour() {
    let f = frame(2, 2, &[WHITE, BLACK, WHITE, BLACK]);
    let out = render_cells(&f, config(true, false, false));
    assert_eq!(rows_text(&out), vec!["█ ".to_string(), "█ ".to_string()]);
    let white = Some(Rgb { r: 255, g: 255, b: 255 });
    let black = Some(Rgb { r: 0, g: 0, b: 0 });
    let colors: Vec<Option<Rgb>> = out.cells.iter().map(|c| c.color).collect();
    assert_eq!(colors, vec![white, black, white, black]);
}

#[test]
fn colored_render_keeps_colour_not_bucket() {
    let f = frame(1, 1, &[[200, 10, 30, 0]]);
    let out = render_cells(&f, config(true, false, false));
    // (200 + 10 + 30) / 3 = 80, bucket 5
    assert_eq!(
        out.cells,
        vec![Cell { glyph: '+', color: Some(Rgb { r: 200, g: 10, b: 30 }) }]
    );
}

#[test]
fn block_render_is_three_wide() {
    let f = frame(2, 1, &[[1, 2, 3, 255], [250, 251, 252, 255]]);
    let out = render_cells(&f, config(true, false, true));
    assert_eq!(out.cell_width, 3);
    assert_eq!(rows_text(&out), vec!["██████".to_string()]);
    assert_eq!(out.cells[0].color, Some(Rgb { r: 1, g: 2, b: 3 }));
    assert_eq!(out.cells[1].color, Some(Rgb { r: 250, g: 251, b: 252 }));
}

#[test]
fn render_twice_is_identical() {
    let f = frame(2, 2, &[WHITE, BLACK, [10, 200, 60, 255], [90, 90, 90, 255]]);
    let g = TerminalGeometry { columns: 80, rows: 24 };
    let c = config(true, false, false);
    let a = render_frame(&f, c, g).unwrap();
    let b = render_frame(&f, c, g).unwrap();
    assert_eq!(a.width, b.width);
    assert_eq!(a.height, b.height);
    assert_eq!(a.cell_width, b.cell_width);
    assert_eq!(a.cells, b.cells);
}

#[test]
fn empty_frame_renders_nothing() {
    let f = frame(0, 0, &[]);
    let out = render_cells(&f, config(false, false, false));
    assert!(out.cells.is_empty());
}

#[test]
fn resized_render_fits_terminal() {
    let f = frame(4, 4, &[WHITE; 16]);
    let g = TerminalGeometry { columns: 2, rows: 2 };
    let out = render_frame(&f, config(false, true, false), g).unwrap();
    assert_eq!((out.width, out.height), (2, 2));
    assert_eq!(rows_text(&out), vec!["██".to_string(), "██".to_string()]);
}

#[test]
fn resized_render_scales_up() {
    let f = frame(1, 1, &[BLACK]);
    let g = TerminalGeometry { columns: 9, rows: 3 };
    let out = render_frame(&f, config(false, true, true), g).unwrap();
    assert_eq!((out.width, out.height), (3, 3));
    assert_eq!(out.cells.len(), 9);
}

#[test]
fn resized_render_rejects_degenerate_terminal() {
    let f = frame(1, 1, &[BLACK]);
    let g = TerminalGeometry { columns: 0, rows: 3 };
    assert_eq!(
        render_frame(&f, config(false, true, false), g).err(),
        Some(RenderError::Geometry(GeometryError { columns: 0, rows: 3 }))
    );
    let unresized = render_frame(&f, config(false, false, false), g).unwrap();
    assert_eq!(unresized.cells.len(), 1);
}

#[test]
fn frame_rejects_wrong_buffer_length() {
    assert!(RasterFrame::from_rgba(2, 2, vec![0; 15]).is_none());
    assert!(RasterFrame::from_rgba(2, 2, vec![0; 16]).is_some());
}
