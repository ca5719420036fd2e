//! What holds of the glyphs of a font: which cells they come from, and how large
//! they are.

use crate::font::{
    are_bounds, cell_char, cell_glyph, ink_bounds, inked, is_letter, lemma_bounds_unique,
    sheet_glyphs, GlyphMap,
};
use crate::pixels::Image;
use vstd::prelude::*;

verus! {

/// Whether a cell of a sheet gives a character its glyph: it stands for the
/// character, is wanted, and holds some ink.
pub open spec fn gives(
    sheet: Image,
    cell_w: u32,
    cell_h: u32,
    first_row: int,
    letters: bool,
    n: int,
    key: u32,
) -> bool {
    &&& cell_char(n) as u32 == key
    &&& if letters {
        is_letter(cell_char(n))
    } else {
        cell_char(n) != '\0'
    }
    &&& cell_glyph(sheet, cell_w, cell_h, first_row, n) is Some
}

/// A character has a glyph where a cell that stands for it holds ink, and the glyph
/// is that of the last such cell. It lies in the column and the row of that cell.
pub proof fn glyphs_come_from_their_cells(
    sheet: Image,
    cell_w: u32,
    cell_h: u32,
    first_row: int,
    letters: bool,
    from: int,
    n: int,
    key: u32,
    m: int,
)
    requires
        0 <= from <= n <= 256,
        0 <= first_row <= 16,
        from - 1 <= m < n,
        m >= from ==> gives(sheet, cell_w, cell_h, first_row, letters, m, key),
        forall|k: int|
            m < k < n ==> !#[trigger] gives(sheet, cell_w, cell_h, first_row, letters, k, key),
    ensures
        ({
            let glyphs = sheet_glyphs(sheet, cell_w, cell_h, first_row, letters, from, n);
            &&& glyphs.contains_key(key) <==> m >= from
            &&& m >= from ==> {
                let glyph = glyphs[key];
                &&& glyph.col == m % 16
                &&& glyph.row == first_row + m / 16
                &&& Some(glyph) == cell_glyph(sheet, cell_w, cell_h, first_row, m)
            }
        }),
    decreases n - from,
{
    if n > from {
        if m == n - 1 {
            assert(gives(sheet, cell_w, cell_h, first_row, letters, n - 1, key));
        } else {
            assert(!gives(sheet, cell_w, cell_h, first_row, letters, n - 1, key));
            glyphs_come_from_their_cells(
                sheet,
                cell_w,
                cell_h,
                first_row,
                letters,
                from,
                n - 1,
                key,
                m,
            );
        }
    }
}

/// A glyph is as wide as its ink reaches from the left edge of its cell, and as
/// high as from its first row of ink to its last: there is ink in its last column,
/// in its first row and in its last row, and none beyond.
pub proof fn glyphs_are_as_large_as_their_ink(
    sheet: Image,
    cell_w: u32,
    cell_h: u32,
    first_row: int,
    n: int,
    bounds: Option<(u32, u32, u32)>,
)
    requires
        0 <= n,
        are_bounds(
            sheet.rgba@,
            sheet.width as int,
            n % 16 * cell_w,
            n / 16 * cell_h,
            cell_w as int,
            cell_h as int,
            bounds,
        ),
    ensures
        match cell_glyph(sheet, cell_w, cell_h, first_row, n) {
            None => forall|dx: int, dy: int|
                0 <= dx < cell_w && 0 <= dy < cell_h ==> !#[trigger] inked(
                    sheet.rgba@,
                    sheet.width as int,
                    n % 16 * cell_w,
                    n / 16 * cell_h,
                    dx,
                    dy,
                ),
            Some(glyph) => {
                let ink = |dx: int, dy: int|
                    inked(
                        sheet.rgba@,
                        sheet.width as int,
                        n % 16 * cell_w,
                        n / 16 * cell_h,
                        dx,
                        dy,
                    );
                &&& glyph.width <= cell_w
                &&& glyph.y_offset + glyph.height <= cell_h
                &&& forall|dx: int, dy: int|
                    0 <= dx < cell_w && 0 <= dy < cell_h && #[trigger] ink(dx, dy) ==> dx
                        < glyph.width && glyph.y_offset <= dy < glyph.y_offset + glyph.height
                &&& exists|dy: int| 0 <= dy < cell_h && #[trigger] ink(glyph.width - 1, dy)
                &&& exists|dx: int| 0 <= dx < cell_w && #[trigger] ink(dx, glyph.y_offset as int)
                &&& exists|dx: int|
                    0 <= dx < cell_w && #[trigger] ink(dx, glyph.y_offset + glyph.height - 1)
            },
        },
{
    let (rgba, stride) = (sheet.rgba@, sheet.width as int);
    let (x0, y0) = (n % 16 * cell_w, n / 16 * cell_h);
    let found = ink_bounds(rgba, stride, x0, y0, cell_w as int, cell_h as int);
    lemma_bounds_unique(rgba, stride, x0, y0, cell_w as int, cell_h as int, found, bounds);
    if let Some((width, top, height)) = bounds {
        let ink = |dx: int, dy: int| inked(rgba, stride, x0, y0, dx, dy);
        let dy = choose|dy: int|
            0 <= dy < cell_h && #[trigger] inked(rgba, stride, x0, y0, width - 1, dy);
        assert(ink(width - 1, dy));
        let dx = choose|dx: int|
            0 <= dx < cell_w && #[trigger] inked(rgba, stride, x0, y0, dx, top as int);
        assert(ink(dx, top as int));
        let ex = choose|dx: int|
            0 <= dx < cell_w && #[trigger] inked(rgba, stride, x0, y0, dx, top + height - 1);
        assert(ink(ex, top + height - 1));
    }
}

/// A font has a space half a cell wide, whatever its sheet shows; it has alternate
/// letters only from a sheet as wide as its own, and their pixels lie below those
/// of the plain sheet.
pub proof fn fonts_are_made_of_their_sheets(map: GlyphMap, ascii: Image, sga: Option<Image>, k: int)
    requires
        map.of_sheets(ascii, sga),
        ascii.wf(),
    ensures
        ({
            let space = map.glyphs@[' ' as u32];
            &&& map.glyphs@.contains_key(' ' as u32)
            &&& space.width == ascii.width / 16 / 2
            &&& space.height == ascii.height / 16
            &&& space.col == 0 && space.row == 2 && space.y_offset == 0
        }),
        map.cell_w == ascii.width / 16 && map.cell_h == ascii.height / 16,
        map.tex_w == ascii.width,
        0 <= k < ascii.rgba@.len() ==> map.pixels@[k] == ascii.rgba@[k],
        (sga is None || sga.unwrap().width != ascii.width) ==> map.sga_glyphs@.len() == 0
            && map.pixels@.len() == ascii.rgba@.len(),
        (sga matches Some(s) ==> s.width == ascii.width && 0 <= k < s.rgba@.len()
            ==> map.pixels@[4 * (ascii.width * ascii.height) + k] == s.rgba@[k]),
{
    assert(ascii.rgba@.len() == 4 * (ascii.width * ascii.height)) by (nonlinear_arith)
        requires
            ascii.rgba@.len() == ascii.width * ascii.height * 4,
    ;
}

} // verus!
