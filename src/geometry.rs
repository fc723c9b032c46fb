//! Terminal geometry and the fitting of a raster into it.
use vstd::prelude::*;

verus! {

/// Size of the terminal, in character cells.
#[derive(Clone, Copy, Debug, PartialEq, Eq, Structural)]
pub struct TerminalGeometry {
    pub columns: u16,
    pub rows: u16,
}

/// The terminal has no columns or no rows, so no aspect ratio can be fitted into it.
#[derive(Clone, Copy, Debug, PartialEq, Eq, Structural)]
pub struct GeometryError {
    pub columns: u16,
    pub rows: u16,
}

/// `n`, or 1 where `n` is 0.
pub open spec fn at_least_one(n: nat) -> nat {
    if n == 0 { 1 } else { n }
}

/// `a / b` rounded down, taken as 0 where `b` is 0.
pub open spec fn div_or_zero(a: nat, b: nat) -> nat {
    if b == 0 { 0 } else { a / b }
}

/// Usable glyph columns: the terminal's columns divided by the glyph cell width,
/// rounded down (0 where the terminal is narrower than one glyph).
pub open spec fn usable_columns(columns: nat, cell_width: nat) -> nat {
    columns / cell_width
}

/// The source is taller, relative to the usable grid, than it is wide: its
/// height-to-rows ratio exceeds its width-to-columns ratio.
pub open spec fn height_binds(columns: nat, rows: nat, img_w: nat, img_h: nat) -> bool {
    img_h * columns > img_w * rows
}

/// Target raster size for an image of `img_w` by `img_h` pixels in a terminal of
/// `columns` by `rows` cells whose glyphs are `cell_width` cells wide. The binding
/// dimension fills its axis exactly; the other is scaled in proportion, rounded
/// down. Both results are then raised to at least one.
pub open spec fn target_size(columns: nat, rows: nat, img_w: nat, img_h: nat, cell_width: nat) -> (
    nat,
    nat,
) {
    let uc = usable_columns(columns, cell_width);
    if height_binds(uc, rows, img_w, img_h) {
        (at_least_one(div_or_zero(rows * img_w, img_h)), rows)
    } else {
        (at_least_one(uc), at_least_one(div_or_zero(uc * img_h, img_w)))
    }
}

/// Absolute value.
pub open spec fn abs(x: int) -> nat {
    if x < 0 { (-x) as nat } else { x as nat }
}

proof fn lemma_div_bounded(x: nat, y: nat, c: nat)
    requires
        c > 0,
        x <= y * c,
    ensures
        x / c <= y,
{
    vstd::arithmetic::div_mod::lemma_div_is_ordered(x as int, (y * c) as int, c as int);
    vstd::arithmetic::div_mod::lemma_div_by_multiple(y as int, c as int);
}

/// Computes the raster size that fits an image of `img_w` by `img_h` pixels into
/// the terminal, preserving its aspect ratio. `glyph_cell_width` is the number of
/// terminal columns that one glyph takes: 1 for heat-map glyphs, 3 for wide
/// colour blocks. Fails exactly when the terminal has no columns or no rows.
pub fn compute_target_size(
    geometry: TerminalGeometry,
    img_w: u32,
    img_h: u32,
    glyph_cell_width: u32,
) -> (r: Result<(u32, u32), GeometryError>)
    requires
        glyph_cell_width >= 1,
    ensures
        r is Err <==> geometry.columns == 0 || geometry.rows == 0,
        r is Err ==> r->Err_0 == (GeometryError { columns: geometry.columns, rows: geometry.rows }),
        r matches Ok(t) ==> (t.0 as nat, t.1 as nat) == target_size(
            geometry.columns as nat,
            geometry.rows as nat,
            img_w as nat,
            img_h as nat,
            glyph_cell_width as nat,
        ),
{
    if geometry.columns == 0 || geometry.rows == 0 {
        return Err(GeometryError { columns: geometry.columns, rows: geometry.rows });
    }
    let uc: u64 = geometry.columns as u64 / glyph_cell_width as u64;
    let ur: u64 = geometry.rows as u64;
    let w: u64 = img_w as u64;
    let h: u64 = img_h as u64;
    assert(uc <= 0xffff);
    assert(h * uc <= 0xffff_ffff * 0xffff) by (nonlinear_arith)
        requires h <= 0xffff_ffff, uc <= 0xffff;
    assert(w * ur <= 0xffff_ffff * 0xffff) by (nonlinear_arith)
        requires w <= 0xffff_ffff, ur <= 0xffff;
    if h * uc > w * ur {
        proof {
            assert(ur * w == w * ur) by (nonlinear_arith);
            assert(uc * h == h * uc) by (nonlinear_arith);
            lemma_div_bounded((ur * w) as nat, uc as nat, h as nat);
        }
        let scaled: u64 = (ur * w) / h;
        let tw: u64 = if scaled == 0 { 1 } else { scaled };
        Ok((tw as u32, ur as u32))
    } else {
        let scaled: u64 = if w == 0 { 0 } else {
            proof {
                assert(uc * h == h * uc) by (nonlinear_arith);
                lemma_div_bounded((uc * h) as nat, ur as nat, w as nat);
            }
            (uc * h) / w
        };
        let th: u64 = if scaled == 0 { 1 } else { scaled };
        let tw: u64 = if uc == 0 { 1 } else { uc };
        Ok((tw as u32, th as u32))
    }
}

/// A positive value divided by `d`, rounded down and raised to at least one, is
/// within one unit of the exact quotient.
proof fn lemma_floor_close(x: nat, d: nat)
    requires
        x >= 1,
        d > 0,
    ensures
        abs(at_least_one(x / d) * d - x) < d,
{
    vstd::arithmetic::div_mod::lemma_fundamental_div_mod(x as int, d as int);
    let q = x / d;
    assert(x == d * q + x % d);
    if q >= 1 {
        assert(q * d == d * q) by (nonlinear_arith);
    } else {
        assert(d * q == 0) by (nonlinear_arith)
            requires
                q == 0,
        ;
        assert(x < d);
    }
}

/// For a terminal with at least one column and one row, the target size is at
/// least one by one, fits the usable glyph grid (taken as one column wide where
/// the terminal is narrower than one glyph), and fills that grid along one axis.
/// Where the terminal holds at least one glyph across and the source has pixels,
/// it keeps the source's aspect ratio to within one unit of rounding in the
/// scaled dimension.
pub proof fn lemma_target_size_fits(
    columns: nat,
    rows: nat,
    img_w: nat,
    img_h: nat,
    cell_width: nat,
)
    requires
        columns > 0,
        rows > 0,
        cell_width >= 1,
    ensures
        ({
            let (tw, th) = target_size(columns, rows, img_w, img_h, cell_width);
            let uc = usable_columns(columns, cell_width);
            &&& tw >= 1
            &&& th >= 1
            &&& tw <= at_least_one(uc)
            &&& th <= rows
            &&& tw == at_least_one(uc) || th == rows
            &&& uc >= 1 && img_w >= 1 && img_h >= 1 ==> {
                ||| tw == uc && abs(th * img_w - tw * img_h) < img_w
                ||| th == rows && abs(tw * img_h - th * img_w) < img_h
            }
        }),
{
    let uc = usable_columns(columns, cell_width);
    if height_binds(uc, rows, img_w, img_h) {
        assert(rows * img_w <= uc * img_h) by (nonlinear_arith)
            requires
                img_h * uc > img_w * rows,
        ;
        lemma_div_bounded(rows * img_w, uc, img_h);
        if img_w >= 1 {
            assert(rows * img_w >= 1) by (nonlinear_arith)
                requires
                    rows >= 1,
                    img_w >= 1,
            ;
            lemma_floor_close(rows * img_w, img_h);
            assert(img_w * rows == rows * img_w) by (nonlinear_arith);
        }
    } else if img_w > 0 && uc > 0 {
        assert(uc * img_h <= rows * img_w) by (nonlinear_arith)
            requires
                img_h * uc <= img_w * rows,
        ;
        lemma_div_bounded(uc * img_h, rows, img_w);
        if img_h >= 1 {
            assert(uc * img_h >= 1) by (nonlinear_arith)
                requires
                    uc >= 1,
                    img_h >= 1,
            ;
            lemma_floor_close(uc * img_h, img_w);
        }
    }
}

} // verus!
