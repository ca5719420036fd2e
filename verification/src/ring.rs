//! Ring buffers over chunk and chunk-section positions. A position maps to the
//! slot of its coordinates' remainders, so a window as wide as the ring maps to
//! distinct slots wherever it stands.

use vstd::prelude::*;

verus! {

/// The largest render distance, in chunks.
pub const MAX_RD: u32 = 64;

/// The width of a ring: a render distance on both sides of the centre.
pub const MAX_SIZE: usize = 129;

/// The height of a section ring.
pub const SIZE_Y: usize = 32;

/// The slots of a chunk ring.
pub const CHUNK_RING_SIZE: usize = 16641;

/// The slots of a section ring.
pub const SECTION_RING_SIZE: usize = 532512;

/// A chunk's column.
#[derive(Clone, Copy, PartialEq, Eq, Structural, Debug)]
pub struct ChunkPos {
    pub x: i32,
    pub z: i32,
}

/// A cube of a chunk's column.
#[derive(Clone, Copy, PartialEq, Eq, Structural, Debug)]
pub struct ChunkSectionPos {
    pub x: i32,
    pub y: i32,
    pub z: i32,
}

/// The slot of a column: row `x`, place `z`, both modulo the ring's width.
pub open spec fn chunk_slot(pos: ChunkPos) -> int {
    (pos.x as int % 129) * 129 + pos.z as int % 129
}

/// The slot of a section: its column's slot, then `y` modulo the height.
pub open spec fn section_slot(pos: ChunkSectionPos) -> int {
    ((pos.x as int % 129) * 129 + pos.z as int % 129) * 32 + pos.y as int % 32
}

/// Whether `value` lies within a render distance of `center`.
pub open spec fn near(value: int, center: int) -> bool {
    -64 <= value - center <= 64
}

/// Whether `pos` lies in the window around `center` that a ring can address.
pub open spec fn in_window(pos: ChunkPos, center: ChunkPos) -> bool {
    near(pos.x as int, center.x as int) && near(pos.z as int, center.z as int)
}

/// A ring of one value per chunk.
pub struct ChunkRing<T> {
    pub buf: Vec<T>,
}

impl<T> ChunkRing<T> {
    pub open spec fn wf(&self) -> bool {
        self.buf@.len() == CHUNK_RING_SIZE
    }

    /// A ring that holds `init` everywhere.
    pub fn new(init: T) -> (ring: Self) where T: Copy
        ensures
            ring.wf(),
            forall|i: int| 0 <= i < CHUNK_RING_SIZE ==> #[trigger] ring.buf@[i] == init,
    {
        let fill = |_x: usize, _z: usize| -> (value: T)
            ensures
                value == init,
            { init };
        Self::from_fn(fill)
    }

    /// A ring whose slot at row `x`, place `z` holds what `init` returns for
    /// the two.
    pub fn from_fn<F: Fn(usize, usize) -> T>(init: F) -> (ring: Self)
        requires
            forall|x: usize, z: usize|
                x < MAX_SIZE && z < MAX_SIZE ==> #[trigger] init.requires((x, z)),
        ensures
            ring.wf(),
            forall|x: usize, z: usize|
                #![trigger ring.buf@[x * 129 + z]]
                x < MAX_SIZE && z < MAX_SIZE ==> init.ensures((x, z), ring.buf@[x * 129 + z]),
            forall|i: int|
                #![trigger ring.buf@[i]]
                0 <= i < CHUNK_RING_SIZE ==> init.ensures(
                    ((i / 129) as usize, (i % 129) as usize),
                    ring.buf@[i],
                ),
    {
        let mut buf: Vec<T> = Vec::with_capacity(CHUNK_RING_SIZE);
        let mut x: usize = 0;
        while x < MAX_SIZE
            invariant
                x <= MAX_SIZE,
                buf@.len() == x * 129,
                forall|x: usize, z: usize|
                    x < MAX_SIZE && z < MAX_SIZE ==> #[trigger] init.requires((x, z)),
                forall|i: int|
                    #![trigger buf@[i]]
                    0 <= i < buf@.len() ==> init.ensures(
                        ((i / 129) as usize, (i % 129) as usize),
                        buf@[i],
                    ),
            decreases MAX_SIZE - x,
        {
            let mut z: usize = 0;
            while z < MAX_SIZE
                invariant
                    x < MAX_SIZE,
                    z <= MAX_SIZE,
                    buf@.len() == x * 129 + z,
                    forall|x: usize, z: usize|
                        x < MAX_SIZE && z < MAX_SIZE ==> #[trigger] init.requires((x, z)),
                    forall|i: int|
                        #![trigger buf@[i]]
                        0 <= i < buf@.len() ==> init.ensures(
                            ((i / 129) as usize, (i % 129) as usize),
                            buf@[i],
                        ),
                decreases MAX_SIZE - z,
            {
                let value = init(x, z);
                let ghost i = x * 129 + z;
                assert(i / 129 == x && i % 129 == z);
                buf.push(value);
                z = z + 1;
            }
            x = x + 1;
        }
        assert forall|x: usize, z: usize|
            #![trigger buf@[x * 129 + z]]
            x < MAX_SIZE && z < MAX_SIZE implies init.ensures((x, z), buf@[x * 129 + z]) by {
            let i = x * 129 + z;
            assert(i / 129 == x && i % 129 == z);
            assert(init.ensures(((i / 129) as usize, (i % 129) as usize), buf@[i]));
        }
        ChunkRing { buf }
    }

    /// The value at the slot of `pos`.
    pub fn get(&self, pos: ChunkPos) -> (value: &T)
        requires
            self.wf(),
        ensures
            *value == self.buf@[chunk_slot(pos)],
    {
        let x: usize = pos.x.checked_rem_euclid(129).unwrap() as usize;
        let z: usize = pos.z.checked_rem_euclid(129).unwrap() as usize;
        &self.buf[x * MAX_SIZE + z]
    }

    /// The value at the slot of `pos`, where `pos` lies in the window around
    /// `center`. A slot does not say which position wrote it, so beyond the
    /// window it would hold another position's value.
    pub fn get_in_range(&self, pos: ChunkPos, center: ChunkPos) -> (value: Option<&T>)
        requires
            self.wf(),
        ensures
            value is Some <==> in_window(pos, center),
            value matches Some(v) ==> *v == self.buf@[chunk_slot(pos)],
    {
        let dx: i64 = pos.x as i64 - center.x as i64;
        let dz: i64 = pos.z as i64 - center.z as i64;
        if -64 <= dx && dx <= 64 && -64 <= dz && dz <= 64 {
            Some(self.get(pos))
        } else {
            None
        }
    }
}

/// A ring of one value per chunk section.
pub struct SectionRing<T> {
    pub buf: Vec<T>,
}

impl<T> SectionRing<T> {
    pub open spec fn wf(&self) -> bool {
        self.buf@.len() == SECTION_RING_SIZE
    }

    /// A ring whose slot at row `x`, place `z`, height `y` holds what `init`
    /// returns for the three, given in that order.
    pub fn from_fn<F: Fn(usize, usize, usize) -> T>(init: F) -> (ring: Self)
        requires
            forall|x: usize, z: usize, y: usize|
                x < MAX_SIZE && z < MAX_SIZE && y < SIZE_Y ==> #[trigger] init.requires((x, z, y)),
        ensures
            ring.wf(),
            forall|i: int|
                #![trigger ring.buf@[i]]
                0 <= i < SECTION_RING_SIZE ==> init.ensures(
                    ((i / 32 / 129) as usize, (i / 32 % 129) as usize, (i % 32) as usize),
                    ring.buf@[i],
                ),
    {
        let mut buf: Vec<T> = Vec::with_capacity(SECTION_RING_SIZE);
        let mut x: usize = 0;
        while x < MAX_SIZE
            invariant
                x <= MAX_SIZE,
                buf@.len() == x * 129 * 32,
                forall|x: usize, z: usize, y: usize|
                    x < MAX_SIZE && z < MAX_SIZE && y < SIZE_Y ==> #[trigger] init.requires(
                        (x, z, y),
                    ),
                forall|i: int|
                    #![trigger buf@[i]]
                    0 <= i < buf@.len() ==> init.ensures(
                        ((i / 32 / 129) as usize, (i / 32 % 129) as usize, (i % 32) as usize),
                        buf@[i],
                    ),
            decreases MAX_SIZE - x,
        {
            let mut z: usize = 0;
            while z < MAX_SIZE
                invariant
                    x < MAX_SIZE,
                    z <= MAX_SIZE,
                    buf@.len() == (x * 129 + z) * 32,
                    forall|x: usize, z: usize, y: usize|
                        x < MAX_SIZE && z < MAX_SIZE && y < SIZE_Y ==> #[trigger] init.requires(
                            (x, z, y),
                        ),
                    forall|i: int|
                        #![trigger buf@[i]]
                        0 <= i < buf@.len() ==> init.ensures(
                            ((i / 32 / 129) as usize, (i / 32 % 129) as usize, (i % 32) as usize),
                            buf@[i],
                        ),
                decreases MAX_SIZE - z,
            {
                let mut y: usize = 0;
                while y < SIZE_Y
                    invariant
                        x < MAX_SIZE,
                        z < MAX_SIZE,
                        y <= SIZE_Y,
                        buf@.len() == (x * 129 + z) * 32 + y,
                        forall|x: usize, z: usize, y: usize|
                            x < MAX_SIZE && z < MAX_SIZE && y < SIZE_Y
                                ==> #[trigger] init.requires((x, z, y)),
                        forall|i: int|
                            #![trigger buf@[i]]
                            0 <= i < buf@.len() ==> init.ensures(
                                (
                                    (i / 32 / 129) as usize,
                                    (i / 32 % 129) as usize,
                                    (i % 32) as usize,
                                ),
                                buf@[i],
                            ),
                    decreases SIZE_Y - y,
                {
                    let value = init(x, z, y);
                    let ghost column = x * 129 + z;
                    let ghost i = column * 32 + y;
                    assert(i / 32 == column && i % 32 == y);
                    assert(column / 129 == x && column % 129 == z);
                    buf.push(value);
                    y = y + 1;
                }
                z = z + 1;
            }
            x = x + 1;
        }
        SectionRing { buf }
    }

    /// The value at the slot of `pos`.
    pub fn get(&self, pos: ChunkSectionPos) -> (value: &T)
        requires
            self.wf(),
        ensures
            *value == self.buf@[section_slot(pos)],
    {
        let x: usize = pos.x.checked_rem_euclid(129).unwrap() as usize;
        let z: usize = pos.z.checked_rem_euclid(129).unwrap() as usize;
        let y: usize = pos.y.checked_rem_euclid(32).unwrap() as usize;
        &self.buf[(x * MAX_SIZE + z) * SIZE_Y + y]
    }
}

/// Two columns share a slot exactly where both coordinates differ by a
/// multiple of the ring's width.
pub proof fn slots_alias_every_width(a: ChunkPos, b: ChunkPos)
    ensures
        chunk_slot(a) == chunk_slot(b) <==> (a.x - b.x) % 129 == 0 && (a.z - b.z) % 129 == 0,
        0 <= chunk_slot(a) < CHUNK_RING_SIZE,
{
}

/// Two columns of one window share a slot only if they are the same column.
pub proof fn window_slots_are_distinct(a: ChunkPos, b: ChunkPos, center: ChunkPos)
    requires
        in_window(a, center),
        in_window(b, center),
        chunk_slot(a) == chunk_slot(b),
    ensures
        a == b,
{
    slots_alias_every_width(a, b);
}

/// Every slot belongs to exactly one column of a window whose coordinates a
/// position can hold.
pub proof fn window_covers_every_slot(slot: int, center: ChunkPos)
    requires
        0 <= slot < CHUNK_RING_SIZE,
        i32::MIN + 64 <= center.x <= i32::MAX - 64,
        i32::MIN + 64 <= center.z <= i32::MAX - 64,
    ensures
        exists|pos: ChunkPos| in_window(pos, center) && #[trigger] chunk_slot(pos) == slot,
{
    let low_x = center.x - 64;
    let low_z = center.z - 64;
    let x = low_x + (slot / 129 - low_x) % 129;
    let z = low_z + (slot % 129 - low_z) % 129;
    let pos = ChunkPos { x: x as i32, z: z as i32 };
    assert(in_window(pos, center));
    assert(x % 129 == slot / 129);
    assert(z % 129 == slot % 129);
    assert(chunk_slot(pos) == slot);
}

/// Two sections share a slot exactly where their columns do and their heights
/// differ by a multiple of the ring's height.
pub proof fn section_slots_alias(a: ChunkSectionPos, b: ChunkSectionPos)
    ensures
        section_slot(a) == section_slot(b) <==> {
            &&& (a.x - b.x) % 129 == 0
            &&& (a.z - b.z) % 129 == 0
            &&& (a.y - b.y) % 32 == 0
        },
        0 <= section_slot(a) < SECTION_RING_SIZE,
{
}

} // verus!
