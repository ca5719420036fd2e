//! The lines that show the borders of the chunk that the player is in.

use vstd::prelude::*;

verus! {

/// How many ends of lines there is room for.
pub const MAX_VERTICES: usize = 4096;

/// The colour of a line.
#[derive(Clone, Copy, Debug, PartialEq, Eq, Structural)]
pub enum BorderColor {
    Red,
    Blue,
    Yellow,
}

/// A corner of the block grid.
#[derive(Clone, Copy, Debug, PartialEq, Eq, Structural)]
pub struct GridPoint {
    pub x: i32,
    pub y: i32,
    pub z: i32,
}

/// A line between two corners of the block grid.
#[derive(Clone, Copy, Debug, PartialEq, Eq, Structural)]
pub struct BorderLine {
    pub from: GridPoint,
    pub to: GridPoint,
    pub color: BorderColor,
}

/// The first corner of the chunk of a block, along one axis.
pub open spec fn chunk_start(block: int) -> int {
    block / 16 * 16
}

/// An upright line.
pub open spec fn upright(x: int, z: int, min_y: i32, max_y: i32, color: BorderColor) -> BorderLine {
    BorderLine {
        from: GridPoint { x: x as i32, y: min_y, z: z as i32 },
        to: GridPoint { x: x as i32, y: max_y, z: z as i32 },
        color,
    }
}

/// A level line.
pub open spec fn level(x0: int, z0: int, x1: int, z1: int, y: int) -> BorderLine {
    BorderLine {
        from: GridPoint { x: x0 as i32, y: y as i32, z: z0 as i32 },
        to: GridPoint { x: x1 as i32, y: y as i32, z: z1 as i32 },
        color: BorderColor::Yellow,
    }
}

/// The upright lines at the corners.
pub open spec fn corner_lines(cx: int, cz: int, min_y: i32, max_y: i32) -> Seq<BorderLine> {
    seq![
        upright(cx, cz, min_y, max_y, BorderColor::Red),
        upright(cx, cz + 16, min_y, max_y, BorderColor::Red),
        upright(cx + 16, cz, min_y, max_y, BorderColor::Red),
        upright(cx + 16, cz + 16, min_y, max_y, BorderColor::Red),
    ]
}

/// The upright lines on the sides, up to `n` blocks from their start.
pub open spec fn side_lines(cx: int, cz: int, min_y: i32, max_y: i32, n: nat) -> Seq<BorderLine>
    decreases n,
{
    if n == 0 {
        Seq::empty()
    } else {
        side_lines(cx, cz, min_y, max_y, (n - 1) as nat) + seq![
            upright(cx + n, cz, min_y, max_y, BorderColor::Blue),
            upright(cx + n, cz + 16, min_y, max_y, BorderColor::Blue),
            upright(cx, cz + n, min_y, max_y, BorderColor::Blue),
            upright(cx + 16, cz + n, min_y, max_y, BorderColor::Blue),
        ]
    }
}

/// The level lines round the lower ends of the first `n` sections.
pub open spec fn section_lines(cx: int, cz: int, min_y: i32, n: nat) -> Seq<BorderLine>
    decreases n,
{
    if n == 0 {
        Seq::empty()
    } else {
        let y = min_y + (n - 1) * 16;
        section_lines(cx, cz, min_y, (n - 1) as nat) + seq![
            level(cx, cz, cx + 16, cz, y),
            level(cx, cz + 16, cx + 16, cz + 16, y),
            level(cx, cz, cx, cz + 16, y),
            level(cx + 16, cz, cx + 16, cz + 16, y),
        ]
    }
}

/// How many levels have lines: one at every section's lower end, and one at the
/// top.
pub open spec fn levels(min_y: i32, max_y: i32) -> int {
    if max_y - min_y <= -16 {
        0
    } else if max_y < min_y {
        1
    } else {
        (max_y - min_y) / 16 + 1
    }
}

/// All lines of the chunk that starts at `(cx, cz)`.
pub open spec fn chunk_lines(cx: int, cz: int, min_y: i32, max_y: i32) -> Seq<BorderLine> {
    corner_lines(cx, cz, min_y, max_y) + side_lines(cx, cz, min_y, max_y, 15) + section_lines(
        cx,
        cz,
        min_y,
        levels(min_y, max_y) as nat,
    )
}

fn upright_line(x: i32, z: i32, min_y: i32, max_y: i32, color: BorderColor) -> (line: BorderLine)
    ensures
        line == upright(x as int, z as int, min_y, max_y, color),
{
    BorderLine {
        from: GridPoint { x, y: min_y, z },
        to: GridPoint { x, y: max_y, z },
        color,
    }
}

fn level_line(x0: i32, z0: i32, x1: i32, z1: i32, y: i32) -> (line: BorderLine)
    ensures
        line == level(x0 as int, z0 as int, x1 as int, z1 as int, y as int),
{
    BorderLine {
        from: GridPoint { x: x0, y, z: z0 },
        to: GridPoint { x: x1, y, z: z1 },
        color: BorderColor::Yellow,
    }
}

fn push_sides(lines: &mut Vec<BorderLine>, cx: i32, cz: i32, min_y: i32, max_y: i32)
    requires
        cx <= i32::MAX - 16,
        cz <= i32::MAX - 16,
    ensures
        final(lines)@ == old(lines)@ + side_lines(cx as int, cz as int, min_y, max_y, 15),
{
    let ghost before = lines@;
    let mut d: i32 = 0;
    assert(lines@ =~= before + side_lines(cx as int, cz as int, min_y, max_y, 0));
    while d < 15
        invariant
            0 <= d <= 15,
            cx <= i32::MAX - 16,
            cz <= i32::MAX - 16,
            lines@ == before + side_lines(cx as int, cz as int, min_y, max_y, d as nat),
        decreases 15 - d,
    {
        d = d + 1;
        lines.push(upright_line(cx + d, cz, min_y, max_y, BorderColor::Blue));
        lines.push(upright_line(cx + d, cz + 16, min_y, max_y, BorderColor::Blue));
        lines.push(upright_line(cx, cz + d, min_y, max_y, BorderColor::Blue));
        lines.push(upright_line(cx + 16, cz + d, min_y, max_y, BorderColor::Blue));
        assert(lines@ =~= before + side_lines(cx as int, cz as int, min_y, max_y, d as nat));
    }
}

fn push_sections(lines: &mut Vec<BorderLine>, cx: i32, cz: i32, min_y: i32, max_y: i32)
    requires
        cx <= i32::MAX - 16,
        cz <= i32::MAX - 16,
        i32::MIN <= max_y - min_y <= i32::MAX,
    ensures
        final(lines)@ == old(lines)@ + section_lines(
            cx as int,
            cz as int,
            min_y,
            levels(min_y, max_y) as nat,
        ),
{
    let ghost before = lines@;
    let span: i32 = max_y - min_y;
    let count: i32 = if span <= -16 {
        0
    } else if span < 0 {
        1
    } else {
        span / 16 + 1
    };
    let mut n: i32 = 0;
    assert(lines@ =~= before + section_lines(cx as int, cz as int, min_y, 0));
    while n < count
        invariant
            0 <= n <= count,
            count == levels(min_y, max_y),
            cx <= i32::MAX - 16,
            cz <= i32::MAX - 16,
            i32::MIN <= max_y - min_y <= i32::MAX,
            lines@ == before + section_lines(cx as int, cz as int, min_y, n as nat),
        decreases count - n,
    {
        let y: i32 = min_y + n * 16;
        lines.push(level_line(cx, cz, cx + 16, cz, y));
        lines.push(level_line(cx, cz + 16, cx + 16, cz + 16, y));
        lines.push(level_line(cx, cz, cx, cz + 16, y));
        lines.push(level_line(cx + 16, cz, cx + 16, cz + 16, y));
        n = n + 1;
        assert(lines@ =~= before + section_lines(cx as int, cz as int, min_y, n as nat));
    }
}

/// The lines round the chunk of a block, as many as there is room for.
pub fn update_lines(block_x: i32, block_z: i32, min_y: i32, max_y: i32) -> (lines: Vec<BorderLine>)
    requires
        chunk_start(block_x as int) + 16 <= i32::MAX,
        chunk_start(block_z as int) + 16 <= i32::MAX,
        i32::MIN <= max_y - min_y <= i32::MAX,
    ensures
        ({
            let all = chunk_lines(
                chunk_start(block_x as int),
                chunk_start(block_z as int),
                min_y,
                max_y,
            );
            lines@ == if all.len() * 2 > 4096 {
                all.take(2048)
            } else {
                all
            }
        }),
{
    let cx: i32 = block_x.checked_div_euclid(16).unwrap() * 16;
    let cz: i32 = block_z.checked_div_euclid(16).unwrap() * 16;
    let mut lines: Vec<BorderLine> = Vec::new();
    lines.push(upright_line(cx, cz, min_y, max_y, BorderColor::Red));
    lines.push(upright_line(cx, cz + 16, min_y, max_y, BorderColor::Red));
    lines.push(upright_line(cx + 16, cz, min_y, max_y, BorderColor::Red));
    lines.push(upright_line(cx + 16, cz + 16, min_y, max_y, BorderColor::Red));
    assert(lines@ =~= corner_lines(cx as int, cz as int, min_y, max_y));
    push_sides(&mut lines, cx, cz, min_y, max_y);
    push_sections(&mut lines, cx, cz, min_y, max_y);
    if lines.len() > MAX_VERTICES / 2 {
        lines.truncate(MAX_VERTICES / 2);
    }
    lines
}

/// The chunk that is outlined holds the block.
pub proof fn chunk_holds_the_block(block: int)
    ensures
        chunk_start(block) <= block < chunk_start(block) + 16,
        chunk_start(block) % 16 == 0,
{
}

} // verus!
