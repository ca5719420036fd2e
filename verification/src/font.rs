//! The bitmap font: a sheet of sixteen by sixteen cells, and an optional sheet
//! of alternate letters stacked below it.

use crate::decode::decode_image;
use crate::pixels::{byte_at, Image};
use std::collections::HashMap;
use vstd::prelude::*;

verus! {

/// The columns of a sheet.
pub const GRID_COLS: u32 = 16;

/// The rows of a sheet.
pub const GRID_ROWS: u32 = 16;

/// The character of each cell, row by row; NUL where a cell holds none.
pub const ASCII_CHARS: [[char; 16]; 16] = [
    [
        '\u{0000}', '\u{0000}', '\u{0000}', '\u{0000}',
        '\u{0000}', '\u{0000}', '\u{0000}', '\u{0000}',
        '\u{0000}', '\u{0000}', '\u{0000}', '\u{0000}',
        '\u{0000}', '\u{0000}', '\u{0000}', '\u{0000}',
    ],
    [
        '\u{0000}', '\u{0000}', '\u{0000}', '\u{0000}',
        '\u{0000}', '\u{0000}', '\u{0000}', '\u{0000}',
        '\u{0000}', '\u{0000}', '\u{0000}', '\u{0000}',
        '\u{0000}', '\u{0000}', '\u{0000}', '\u{0000}',
    ],
    [
        '\u{0020}', '\u{0021}', '\u{0022}', '\u{0023}',
        '\u{0024}', '\u{0025}', '\u{0026}', '\u{0027}',
        '\u{0028}', '\u{0029}', '\u{002a}', '\u{002b}',
        '\u{002c}', '\u{002d}', '\u{002e}', '\u{002f}',
    ],
    [
        '\u{0030}', '\u{0031}', '\u{0032}', '\u{0033}',
        '\u{0034}', '\u{0035}', '\u{0036}', '\u{0037}',
        '\u{0038}', '\u{0039}', '\u{003a}', '\u{003b}',
        '\u{003c}', '\u{003d}', '\u{003e}', '\u{003f}',
    ],
    [
        '\u{0040}', '\u{0041}', '\u{0042}', '\u{0043}',
        '\u{0044}', '\u{0045}', '\u{0046}', '\u{0047}',
        '\u{0048}', '\u{0049}', '\u{004a}', '\u{004b}',
        '\u{004c}', '\u{004d}', '\u{004e}', '\u{004f}',
    ],
    [
        '\u{0050}', '\u{0051}', '\u{0052}', '\u{0053}',
        '\u{0054}', '\u{0055}', '\u{0056}', '\u{0057}',
        '\u{0058}', '\u{0059}', '\u{005a}', '\u{005b}',
        '\u{005c}', '\u{005d}', '\u{005e}', '\u{005f}',
    ],
    [
        '\u{0060}', '\u{0061}', '\u{0062}', '\u{0063}',
        '\u{0064}', '\u{0065}', '\u{0066}', '\u{0067}',
        '\u{0068}', '\u{0069}', '\u{006a}', '\u{006b}',
        '\u{006c}', '\u{006d}', '\u{006e}', '\u{006f}',
    ],
    [
        '\u{0070}', '\u{0071}', '\u{0072}', '\u{0073}',
        '\u{0074}', '\u{0075}', '\u{0076}', '\u{0077}',
        '\u{0078}', '\u{0079}', '\u{007a}', '\u{007b}',
        '\u{007c}', '\u{007d}', '\u{007e}', '\u{0000}',
    ],
    [
        '\u{0000}', '\u{0000}', '\u{0000}', '\u{0000}',
        '\u{0000}', '\u{0000}', '\u{0000}', '\u{0000}',
        '\u{0000}', '\u{0000}', '\u{0000}', '\u{0000}',
        '\u{0000}', '\u{0000}', '\u{0000}', '\u{0000}',
    ],
    [
        '\u{0000}', '\u{0000}', '\u{0000}', '\u{0000}',
        '\u{0000}', '\u{0000}', '\u{0000}', '\u{0000}',
        '\u{0000}', '\u{0000}', '\u{0000}', '\u{0000}',
        '\u{00a3}', '\u{0000}', '\u{0000}', '\u{0192}',
    ],
    [
        '\u{0000}', '\u{0000}', '\u{0000}', '\u{0000}',
        '\u{0000}', '\u{0000}', '\u{00aa}', '\u{00ba}',
        '\u{0000}', '\u{0000}', '\u{00ac}', '\u{0000}',
        '\u{0000}', '\u{0000}', '\u{00ab}', '\u{00bb}',
    ],
    [
        '\u{2591}', '\u{2592}', '\u{2593}', '\u{2502}',
        '\u{2524}', '\u{2561}', '\u{2562}', '\u{2556}',
        '\u{2555}', '\u{2563}', '\u{2551}', '\u{2557}',
        '\u{255d}', '\u{255c}', '\u{255b}', '\u{2510}',
    ],
    [
        '\u{2514}', '\u{2534}', '\u{252c}', '\u{251c}',
        '\u{2500}', '\u{253c}', '\u{255e}', '\u{255f}',
        '\u{255a}', '\u{2554}', '\u{2569}', '\u{2566}',
        '\u{2560}', '\u{2550}', '\u{256c}', '\u{2567}',
    ],
    [
        '\u{2568}', '\u{2564}', '\u{2565}', '\u{2559}',
        '\u{2558}', '\u{2552}', '\u{2553}', '\u{256b}',
        '\u{256a}', '\u{2518}', '\u{250c}', '\u{2588}',
        '\u{2584}', '\u{258c}', '\u{2590}', '\u{2580}',
    ],
    [
        '\u{0000}', '\u{0000}', '\u{0000}', '\u{0000}',
        '\u{0000}', '\u{0000}', '\u{0000}', '\u{0000}',
        '\u{0000}', '\u{0000}', '\u{0000}', '\u{0000}',
        '\u{0000}', '\u{2205}', '\u{2208}', '\u{0000}',
    ],
    [
        '\u{2261}', '\u{00b1}', '\u{2265}', '\u{2264}',
        '\u{2320}', '\u{2321}', '\u{00f7}', '\u{2248}',
        '\u{00b0}', '\u{2219}', '\u{0000}', '\u{221a}',
        '\u{207f}', '\u{00b2}', '\u{25a0}', '\u{0000}',
    ],
];

/// Where a glyph is on the sheet: its cell, how many pixels of the cell's width
/// it takes, and the rows that it covers.
#[derive(Clone, Copy, Debug, PartialEq, Eq, Structural)]
pub struct GlyphInfo {
    pub col: u32,
    pub row: u32,
    pub width: u32,
    pub y_offset: u32,
    pub height: u32,
}

/// Whether the pixel at column `dx`, row `dy` of the cell that starts at `x0`,
/// `y0` is not clear.
pub open spec fn inked(rgba: Seq<u8>, stride: int, x0: int, y0: int, dx: int, dy: int) -> bool {
    rgba[byte_at(stride, x0 + dx, y0 + dy, 3)] > 0
}

/// Whether `bounds` are the width from the left edge, the first row and the
/// height of what is inked in a cell; nothing for a clear cell.
pub open spec fn are_bounds(
    rgba: Seq<u8>,
    stride: int,
    x0: int,
    y0: int,
    cell_w: int,
    cell_h: int,
    bounds: Option<(u32, u32, u32)>,
) -> bool {
    match bounds {
        None => forall|dx: int, dy: int|
            #![trigger inked(rgba, stride, x0, y0, dx, dy)]
            0 <= dx < cell_w && 0 <= dy < cell_h ==> !inked(rgba, stride, x0, y0, dx, dy),
        Some((width, top, height)) => {
            &&& 0 < width <= cell_w
            &&& 0 < height && top + height <= cell_h
            &&& forall|dx: int, dy: int|
                #![trigger inked(rgba, stride, x0, y0, dx, dy)]
                0 <= dx < cell_w && 0 <= dy < cell_h && inked(rgba, stride, x0, y0, dx, dy)
                    ==> dx < width && top <= dy < top + height
            &&& exists|dy: int|
                0 <= dy < cell_h && #[trigger] inked(rgba, stride, x0, y0, width - 1, dy)
            &&& exists|dx: int|
                0 <= dx < cell_w && #[trigger] inked(rgba, stride, x0, y0, dx, top as int)
            &&& exists|dx: int|
                0 <= dx < cell_w && #[trigger] inked(
                    rgba,
                    stride,
                    x0,
                    y0,
                    dx,
                    top + height - 1,
                )
        },
    }
}

/// The bounds of what is inked in a cell.
pub open spec fn ink_bounds(
    rgba: Seq<u8>,
    stride: int,
    x0: int,
    y0: int,
    cell_w: int,
    cell_h: int,
) -> Option<(u32, u32, u32)> {
    choose|bounds: Option<(u32, u32, u32)>|
        are_bounds(rgba, stride, x0, y0, cell_w, cell_h, bounds)
}

/// A cell has one set of bounds.
pub(crate) proof fn lemma_bounds_unique(
    rgba: Seq<u8>,
    stride: int,
    x0: int,
    y0: int,
    cell_w: int,
    cell_h: int,
    a: Option<(u32, u32, u32)>,
    b: Option<(u32, u32, u32)>,
)
    requires
        are_bounds(rgba, stride, x0, y0, cell_w, cell_h, a),
        are_bounds(rgba, stride, x0, y0, cell_w, cell_h, b),
    ensures
        a == b,
{
}

/// The bounds of what is inked in the cell at `x0`, `y0`.
pub fn detect_glyph_bounds(
    img: &Image,
    x0: u32,
    y0: u32,
    cell_w: u32,
    cell_h: u32,
) -> (bounds: Option<(u32, u32, u32)>)
    requires
        img.wf(),
        cell_w > 0 && cell_h > 0 ==> x0 + cell_w <= img.width && y0 + cell_h <= img.height,
    ensures
        are_bounds(
            img.rgba@,
            img.width as int,
            x0 as int,
            y0 as int,
            cell_w as int,
            cell_h as int,
            bounds,
        ),
        bounds == ink_bounds(
            img.rgba@,
            img.width as int,
            x0 as int,
            y0 as int,
            cell_w as int,
            cell_h as int,
        ),
{
    let total: usize = img.rgba.len();
    let stride: usize = img.width as usize;
    let ghost (s, gx, gy) = (img.width as int, x0 as int, y0 as int);
    let ghost rgba = img.rgba@;
    let mut max_x: u32 = 0;
    let mut min_y: u32 = cell_h;
    let mut max_y: u32 = 0;
    let ghost mut right: (int, int) = (0, 0);
    let ghost mut top: int = 0;
    let ghost mut bottom: (int, int) = (0, 0);
    let mut dy: u32 = 0;
    while dy < cell_h
        invariant
            img.wf(),
            cell_w > 0 && cell_h > 0 ==> x0 + cell_w <= img.width && y0 + cell_h <= img.height,
            total == img.rgba@.len(),
            stride == img.width,
            s == img.width && gx == x0 && gy == y0 && rgba == img.rgba@,
            dy <= cell_h,
            max_x == 0 <==> min_y == cell_h,
            max_x == 0 <==> max_y == 0,
            max_x <= cell_w,
            max_y <= dy,
            max_x > 0 ==> min_y < max_y,
            min_y <= cell_h,
            forall|x: int, y: int|
                #![trigger inked(rgba, s, gx, gy, x, y)]
                0 <= x < cell_w && 0 <= y < dy && inked(rgba, s, gx, gy, x, y) ==> x < max_x
                    && min_y <= y < max_y,
            max_x > 0 ==> inked(rgba, s, gx, gy, right.0, right.1) && right.0 + 1 == max_x && 0
                <= right.1 < cell_h,
            max_x > 0 ==> inked(rgba, s, gx, gy, top, min_y as int) && 0 <= top < cell_w,
            max_x > 0 ==> inked(rgba, s, gx, gy, bottom.0, bottom.1) && bottom.1 + 1 == max_y && 0
                <= bottom.0 < cell_w,
        decreases cell_h - dy,
    {
        let mut dx: u32 = 0;
        while dx < cell_w
            invariant
                img.wf(),
                cell_w > 0 && cell_h > 0 ==> x0 + cell_w <= img.width && y0 + cell_h <= img.height,
                total == img.rgba@.len(),
                stride == img.width,
                s == img.width && gx == x0 && gy == y0 && rgba == img.rgba@,
                dy < cell_h,
                dx <= cell_w,
                max_x == 0 <==> min_y == cell_h,
                max_x == 0 <==> max_y == 0,
                max_x <= cell_w,
                max_y <= dy + 1,
                max_x > 0 ==> min_y < max_y,
                min_y <= cell_h,
                forall|x: int, y: int|
                    #![trigger inked(rgba, s, gx, gy, x, y)]
                    0 <= x < cell_w && 0 <= y <= dy && (y < dy || x < dx) && inked(
                        rgba,
                        s,
                        gx,
                        gy,
                        x,
                        y,
                    ) ==> x < max_x && min_y <= y < max_y,
                max_x > 0 ==> inked(rgba, s, gx, gy, right.0, right.1) && right.0 + 1 == max_x && 0
                    <= right.1 < cell_h,
                max_x > 0 ==> inked(rgba, s, gx, gy, top, min_y as int) && 0 <= top < cell_w,
                max_x > 0 ==> inked(rgba, s, gx, gy, bottom.0, bottom.1) && bottom.1 + 1 == max_y && 0
                    <= bottom.0 < cell_w,
            decreases cell_w - dx,
        {
            let ghost at = byte_at(s, x0 + dx, y0 + dy, 3);
            assert(0 <= (y0 + dy) * s && at < total) by (nonlinear_arith)
                requires
                    at == ((y0 + dy) * s + (x0 + dx)) * 4 + 3,
                    x0 + dx < s,
                    y0 + dy + 1 <= img.height,
                    0 <= x0 + dx,
                    0 <= y0 + dy,
                    total == s * img.height * 4,
            ;
            let row: usize = (y0 + dy) as usize * stride;
            let alpha: u8 = img.rgba[(row + (x0 + dx) as usize) * 4 + 3];
            if alpha > 0 {
                assert(inked(rgba, s, gx, gy, dx as int, dy as int));
                if dx + 1 > max_x {
                    max_x = dx + 1;
                    proof {
                        right = (dx as int, dy as int);
                    }
                }
                if dy < min_y {
                    min_y = dy;
                    proof {
                        top = dx as int;
                    }
                }
                if dy + 1 > max_y {
                    max_y = dy + 1;
                    proof {
                        bottom = (dx as int, dy as int);
                    }
                }
            }
            dx = dx + 1;
        }
        dy = dy + 1;
    }
    let bounds: Option<(u32, u32, u32)> = if max_x == 0 {
        None
    } else {
        Some((max_x, min_y, max_y - min_y))
    };
    proof {
        if let Some((width, first, height)) = bounds {
            assert(inked(rgba, s, gx, gy, width - 1, right.1));
            assert(inked(rgba, s, gx, gy, top, first as int));
            assert(inked(rgba, s, gx, gy, bottom.0, first + height - 1));
        }
        assert(are_bounds(rgba, s, gx, gy, cell_w as int, cell_h as int, bounds));
        lemma_bounds_unique(
            rgba,
            s,
            gx,
            gy,
            cell_w as int,
            cell_h as int,
            bounds,
            ink_bounds(rgba, s, gx, gy, cell_w as int, cell_h as int),
        );
    }
    bounds
}

/// Whether a character is a Latin letter.
pub open spec fn is_letter(ch: char) -> bool {
    ('a' <= ch && ch <= 'z') || ('A' <= ch && ch <= 'Z')
}

/// The character of the `n`th cell.
pub open spec fn cell_char(n: int) -> char {
    ASCII_CHARS@[n / 16]@[n % 16]
}

/// The glyph of the `n`th cell of a sheet, with its row counted from
/// `first_row`; nothing for a clear cell.
pub open spec fn cell_glyph(
    sheet: Image,
    cell_w: u32,
    cell_h: u32,
    first_row: int,
    n: int,
) -> Option<GlyphInfo> {
    match ink_bounds(
        sheet.rgba@,
        sheet.width as int,
        n % 16 * cell_w,
        n / 16 * cell_h,
        cell_w as int,
        cell_h as int,
    ) {
        Some((width, y_offset, height)) => Some(
            GlyphInfo {
                col: (n % 16) as u32,
                row: (first_row + n / 16) as u32,
                width,
                y_offset,
                height,
            },
        ),
        None => None,
    }
}

/// The glyphs of the cells from `from` to before `n`: those that hold a
/// character, or a letter where only `letters` count, and are not clear.
pub open spec fn sheet_glyphs(
    sheet: Image,
    cell_w: u32,
    cell_h: u32,
    first_row: int,
    letters: bool,
    from: int,
    n: int,
) -> Map<u32, GlyphInfo>
    decreases n - from,
{
    if n <= from {
        Map::empty()
    } else {
        let before = sheet_glyphs(sheet, cell_w, cell_h, first_row, letters, from, n - 1);
        let ch = cell_char(n - 1);
        let wanted = if letters {
            is_letter(ch)
        } else {
            ch != '\0'
        };
        match cell_glyph(sheet, cell_w, cell_h, first_row, n - 1) {
            Some(glyph) if wanted => before.insert(ch as u32, glyph),
            _ => before,
        }
    }
}

/// The space's glyph, which is half a cell wide.
pub open spec fn space_glyph(cell_w: u32, cell_h: u32) -> GlyphInfo {
    GlyphInfo { col: 0, row: 2, width: cell_w / 2, y_offset: 0, height: cell_h }
}

/// The font: where its glyphs are, and the texture of both sheets.
pub struct GlyphMap {
    /// By code point.
    pub glyphs: HashMap<u32, GlyphInfo>,
    /// The alternate letters, by the code point of the plain letter.
    pub sga_glyphs: HashMap<u32, GlyphInfo>,
    pub cell_w: u32,
    pub cell_h: u32,
    pub pixels: Vec<u8>,
    pub tex_w: u32,
    pub tex_h: u32,
}

/// Whether the alternate sheet is used with a plain sheet: only one of the
/// same width shares its cells.
pub open spec fn stacks(ascii: Image, sga: Option<Image>) -> bool {
    sga matches Some(s) && s.width == ascii.width
}

/// Whether two sheets can be stacked: the alternate one holds the letters' rows,
/// where the cells have any pixels, and both heights together can be counted.
pub open spec fn stackable(ascii: Image, sga: Option<Image>) -> bool {
    stacks(ascii, sga) ==> {
        &&& ascii.width / 16 > 0 ==> sga.unwrap().height >= 8 * (ascii.height / 16)
        &&& ascii.height + sga.unwrap().height <= u32::MAX
    }
}

impl GlyphMap {
    /// Whether this is the font of two sheets.
    pub open spec fn of_sheets(&self, ascii: Image, sga: Option<Image>) -> bool {
        let (w, h) = (ascii.width / 16, ascii.height / 16);
        &&& self.cell_w == w && self.cell_h == h
        &&& self.glyphs@ == sheet_glyphs(ascii, w, h, 0, false, 0, 256).insert(
            ' ' as u32,
            space_glyph(w, h),
        )
        &&& if stacks(ascii, sga) {
            &&& self.sga_glyphs@ == sheet_glyphs(sga.unwrap(), w, h, 16, true, 64, 128)
            &&& self.pixels@ == ascii.rgba@ + sga.unwrap().rgba@
            &&& (self.tex_w, self.tex_h) == (
                ascii.width,
                (ascii.height + sga.unwrap().height) as u32,
            )
        } else {
            &&& self.sga_glyphs@ == Map::<u32, GlyphInfo>::empty()
            &&& self.pixels@ == ascii.rgba@
            &&& (self.tex_w, self.tex_h) == (ascii.width, ascii.height)
        }
    }

    /// Whether this is the font of two image files that may be missing.
    pub open spec fn of_files(&self, ascii: Option<&Vec<u8>>, sga: Option<&Vec<u8>>) -> bool {
        exists|plain: Image, letters: Option<Image>|
            #![trigger self.of_sheets(plain, letters)]
            is_file(ascii, Some(plain)) && is_file(sga, letters) && stackable(plain, letters)
                && self.of_sheets(plain, letters)
    }

    /// The font of a plain sheet and, if it has the same width, a sheet of
    /// alternate letters.
    pub fn from_sheets(ascii: Image, sga: Option<Image>) -> (map: Self)
        requires
            ascii.wf(),
            sga matches Some(s) ==> s.wf(),
            stackable(ascii, sga),
        ensures
            map.of_sheets(ascii, sga),
    {
        let cell_w: u32 = ascii.width / GRID_COLS;
        let cell_h: u32 = ascii.height / GRID_ROWS;
        let mut glyphs = scan_sheet(&ascii, cell_w, cell_h, 0, false, 0, 256);
        glyphs.insert(
            ' ' as u32,
            GlyphInfo { col: 0, row: 2, width: cell_w / 2, y_offset: 0, height: cell_h },
        );
        let tex_w: u32 = ascii.width;
        if let Some(sheet) = sga {
            if sheet.width == tex_w {
                let sga_glyphs = scan_sheet(&sheet, cell_w, cell_h, 16, true, 64, 128);
                let tex_h: u32 = ascii.height + sheet.height;
                let mut pixels = ascii.rgba;
                let mut lower = sheet.rgba;
                pixels.append(&mut lower);
                return GlyphMap { glyphs, sga_glyphs, cell_w, cell_h, pixels, tex_w, tex_h };
            }
        }
        let tex_h: u32 = ascii.height;
        let sga_glyphs: HashMap<u32, GlyphInfo> = HashMap::new();
        assert(sga_glyphs@ =~= Map::empty());
        GlyphMap { glyphs, sga_glyphs, cell_w, cell_h, pixels: ascii.rgba, tex_w, tex_h }
    }

    /// The font of two image files, of which either may be missing. There is
    /// none without a readable plain sheet, and none for two sheets of one
    /// width that cannot be stacked.
    pub fn load(ascii: Option<&Vec<u8>>, sga: Option<&Vec<u8>>) -> (map: Option<Self>)
        ensures
            map matches Some(m) ==> m.of_files(ascii, sga),
            map is None ==> is_file(ascii, None) || exists|plain: Image, letters: Option<Image>|
                #![trigger stackable(plain, letters)]
                is_file(ascii, Some(plain)) && is_file(sga, letters) && !stackable(
                    plain,
                    letters,
                ),
    {
        let plain = match ascii {
            Some(bytes) => decode_image(bytes),
            None => None,
        };
        let letters = match sga {
            Some(bytes) => decode_image(bytes),
            None => None,
        };
        match plain {
            None => None,
            Some(sheet) => {
                let ghost (top, bottom) = (sheet, letters);
                if let Some(s) = &letters {
                    if s.width == sheet.width {
                        let rows: u32 = 8 * (sheet.height / GRID_ROWS);
                        let cell_w: u32 = sheet.width / GRID_COLS;
                        if (cell_w > 0 && s.height < rows) || s.height as u64 + sheet.height as u64
                            > u32::MAX as u64 {
                            assert(!stackable(sheet, letters));
                            return None;
                        }
                    }
                }
                assert(stackable(sheet, letters));
                assert(is_file(ascii, Some(top)) && is_file(sga, bottom));
                let map = GlyphMap::from_sheets(sheet, letters);
                assert(map.of_sheets(top, bottom) && stackable(top, bottom));
                assert(map.of_files(ascii, sga));
                Some(map)
            },
        }
    }

    /// The glyph that shows `ch`: the alternate one where it is asked for and
    /// there is one, else the plain one.
    pub open spec fn shown(&self, ch: char, sga: bool) -> Option<GlyphInfo> {
        let key = ch as u32;
        if sga && self.sga_glyphs@.contains_key(key) {
            Some(self.sga_glyphs@[key])
        } else if self.glyphs@.contains_key(key) {
            Some(self.glyphs@[key])
        } else {
            None
        }
    }

    /// The glyph that shows `ch`.
    pub fn glyph(&self, ch: char, sga: bool) -> (glyph: Option<GlyphInfo>)
        ensures
            glyph == self.shown(ch, sga),
    {
        let key: u32 = ch as u32;
        if sga {
            if let Some(g) = self.sga_glyphs.get(&key) {
                return Some(*g);
            }
        }
        match self.glyphs.get(&key) {
            Some(g) => Some(*g),
            None => None,
        }
    }

    /// The texture's bytes.
    pub fn raw_pixels(&self) -> (pixels: &Vec<u8>)
        ensures
            pixels@ == self.pixels@,
    {
        &self.pixels
    }

    /// The texture's width and height.
    pub fn dimensions(&self) -> (size: (u32, u32))
        ensures
            size == (self.tex_w, self.tex_h),
    {
        (self.tex_w, self.tex_h)
    }
}

/// Whether a file that may be missing decodes to `image`.
pub open spec fn is_file(bytes: Option<&Vec<u8>>, image: Option<Image>) -> bool {
    match bytes {
        Some(b) => crate::decode::is_decoded(b@, image),
        None => image is None,
    }
}

fn scan_sheet(
    sheet: &Image,
    cell_w: u32,
    cell_h: u32,
    first_row: u32,
    letters: bool,
    from: usize,
    end: usize,
) -> (glyphs: HashMap<u32, GlyphInfo>)
    requires
        sheet.wf(),
        16 * cell_w <= sheet.width,
        from <= end <= 256,
        end % 16 == 0,
        cell_w > 0 ==> end / 16 * cell_h <= sheet.height,
        end / 16 * cell_h <= u32::MAX,
        first_row <= 16,
    ensures
        glyphs@ == sheet_glyphs(
            *sheet,
            cell_w,
            cell_h,
            first_row as int,
            letters,
            from as int,
            end as int,
        ),
{
    let mut glyphs: HashMap<u32, GlyphInfo> = HashMap::new();
    assert(glyphs@ =~= Map::empty());
    let mut n: usize = from;
    while n < end
        invariant
            sheet.wf(),
            16 * cell_w <= sheet.width,
            from <= n <= end <= 256,
            end % 16 == 0,
            cell_w > 0 ==> end / 16 * cell_h <= sheet.height,
            end / 16 * cell_h <= u32::MAX,
            first_row <= 16,
            glyphs@ == sheet_glyphs(
                *sheet,
                cell_w,
                cell_h,
                first_row as int,
                letters,
                from as int,
                n as int,
            ),
        decreases end - n,
    {
        let row: usize = n / 16;
        let col: usize = n % 16;
        let line: [char; 16] = ASCII_CHARS[row];
        let ch: char = line[col];
        let wanted: bool = if letters {
            ('a' <= ch && ch <= 'z') || ('A' <= ch && ch <= 'Z')
        } else {
            ch != '\0'
        };
        if wanted {
            assert(col * cell_w + cell_w <= 16 * cell_w) by (nonlinear_arith)
                requires
                    col < 16,
                    0 <= cell_w,
            ;
            assert(0 <= row * cell_h && row * cell_h + cell_h <= end / 16 * cell_h)
                by (nonlinear_arith)
                requires
                    0 <= row,
                    row + 1 <= end / 16,
                    0 <= cell_h,
            ;
            assert(0 <= col * cell_w) by (nonlinear_arith)
                requires
                    0 <= col,
                    0 <= cell_w,
            ;
            let bounds = detect_glyph_bounds(
                sheet,
                col as u32 * cell_w,
                row as u32 * cell_h,
                cell_w,
                cell_h,
            );
            if let Some((width, y_offset, height)) = bounds {
                glyphs.insert(
                    ch as u32,
                    GlyphInfo {
                        col: col as u32,
                        row: first_row + row as u32,
                        width,
                        y_offset,
                        height,
                    },
                );
            }
        }
        n = n + 1;
    }
    glyphs
}

} // verus!
