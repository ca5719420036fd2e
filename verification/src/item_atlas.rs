//! The atlas that item icons are drawn into once and then copied from: which
//! slot holds which item.

use crate::strings::same_text;
use vstd::prelude::*;
use vstd::set_lib::*;

verus! {

/// The smallest side of the atlas.
pub const MIN_ATLAS_PX: u32 = 512;

/// The largest side of the atlas.
pub const MAX_ATLAS_PX: u32 = 4096;

/// How many slots a side is meant to hold.
pub const SLOTS_PER_SIDE: u32 = 16;

/// Whether an item's icon changes from frame to frame.
pub fn is_animated_item(item_name: &str) -> (animated: bool)
    ensures
        animated == (item_name@ == "compass"@ || item_name@ == "recovery_compass"@ || item_name@
            == "clock"@),
{
    same_text(item_name, "compass") || same_text(item_name, "recovery_compass") || same_text(
        item_name,
        "clock",
    )
}

/// The side of an atlas for slots of a side.
pub open spec fn atlas_side(slot_px: u32) -> u32 {
    if slot_px <= 32 {
        512
    } else if slot_px <= 64 {
        1024
    } else if slot_px <= 128 {
        2048
    } else {
        4096
    }
}

/// The smallest power of two that holds the slots of a side, within the limits
/// of an atlas.
pub fn atlas_px_for_slot(slot_px: u32) -> (side: u32)
    requires
        slot_px <= 0x0800_0000,
    ensures
        side == atlas_side(slot_px),
{
    let needed: u32 = SLOTS_PER_SIDE * slot_px;
    let mut side: u32 = MIN_ATLAS_PX;
    while side < needed && side < MAX_ATLAS_PX
        invariant
            needed == 16 * slot_px,
            side == 512 || side == 1024 || side == 2048 || side == 4096,
            side > 512 ==> needed > side / 2,
        decreases 4096 - side,
    {
        side = side * 2;
    }
    side
}

/// An atlas for slots of up to 256 pixels holds 256 of them, and no atlas of half
/// the side that is allowed would.
pub proof fn atlas_holds_the_slots(slot_px: u32)
    requires
        1 <= slot_px <= 256,
    ensures
        16 * slot_px <= atlas_side(slot_px),
        atlas_side(slot_px) > 512 ==> 16 * slot_px > atlas_side(slot_px) / 2,
        atlas_side(slot_px) / slot_px >= 16,
{
    assert(atlas_side(slot_px) / slot_px >= 16) by (nonlinear_arith)
        requires
            16 * slot_px <= atlas_side(slot_px),
            slot_px >= 1,
    ;
}

/// What a slot holds when it is handed out.
#[derive(Clone, Copy, Debug, PartialEq, Eq, Structural)]
pub enum SlotState {
    /// Nothing was drawn into it yet.
    Empty,
    /// Another icon is still in it.
    Stale,
    /// It holds the icon that was asked for.
    Ready,
}

/// A slot of the atlas, by its column and row.
#[derive(Clone, Copy, Debug, PartialEq, Eq, Structural)]
pub struct Slot {
    pub x: u32,
    pub y: u32,
}

/// A slot and what is known of it.
#[derive(Clone, Copy, Debug, PartialEq, Eq, Structural)]
pub struct SlotInternal {
    pub x: u32,
    pub y: u32,
    /// Whether nothing was drawn into it yet.
    pub fresh: bool,
    /// Whether it is given back at the end of the frame.
    pub discard_after_frame: bool,
}

/// Names without repetition.
pub struct KeySet {
    pub keys: Vec<String>,
}

/// The names of a list.
pub open spec fn names(keys: Seq<String>) -> Seq<Seq<char>> {
    Seq::new(keys.len(), |i: int| keys[i]@)
}

impl KeySet {
    /// No name occurs twice.
    pub open spec fn wf(self) -> bool {
        names(self.keys@).no_duplicates()
    }

    /// The names.
    pub open spec fn view(self) -> Set<Seq<char>> {
        names(self.keys@).to_set()
    }

    /// No names.
    pub fn new() -> (set: KeySet)
        ensures
            set.wf(),
            set@ == Set::<Seq<char>>::empty(),
    {
        let set = KeySet { keys: Vec::new() };
        assert(set@ =~= Set::<Seq<char>>::empty());
        set
    }

    /// Whether a name is among them.
    pub fn contains(&self, key: &str) -> (found: bool)
        ensures
            found == self@.contains(key@),
    {
        let mut i: usize = 0;
        while i < self.keys.len()
            invariant
                i <= self.keys@.len(),
                forall|j: int| 0 <= j < i ==> (#[trigger] self.keys@[j])@ != key@,
            decreases self.keys@.len() - i,
        {
            if same_text(self.keys[i].as_str(), key) {
                assert(names(self.keys@)[i as int] == key@);
                return true;
            }
            i = i + 1;
        }
        false
    }

    /// Adds a name.
    pub fn insert(&mut self, key: &str)
        requires
            old(self).wf(),
        ensures
            final(self).wf(),
            final(self)@ == old(self)@.insert(key@),
    {
        let ghost before = names(self.keys@);
        if self.contains(key) {
            assert(self@ =~= self@.insert(key@));
        } else {
            self.keys.push(key.to_owned());
            let ghost after = names(self.keys@);
            assert(after =~= before.push(key@));
            assert(after.no_duplicates()) by {
                assert forall|i: int, j: int|
                    0 <= i < after.len() && 0 <= j < after.len() && i
                        != j implies after[i] != after[j] by {
                    if i == before.len() {
                        assert(before.to_set().contains(before[j]));
                    } else if j == before.len() {
                        assert(before.to_set().contains(before[i]));
                    }
                }
            }
            assert(after.to_set() =~= before.to_set().insert(key@)) by {
                assert forall|k: Seq<char>|
                    after.to_set().contains(k) == before.to_set().insert(key@).contains(k) by {
                    if before.contains(k) {
                        let i = choose|i: int| 0 <= i < before.len() && before[i] == k;
                        assert(after[i] == k);
                    }
                    if k == key@ {
                        assert(after[before.len() as int] == k);
                    }
                }
            }
        }
    }
}

/// Which slots are in use and what is known of them.
pub struct AtlasState {
    /// The slot of each name that has one.
    pub used: Map<Seq<char>, int>,
    /// The slots that nothing was drawn into yet.
    pub fresh: Seq<bool>,
    /// The slots that are given back at the end of the frame.
    pub discard: Seq<bool>,
}

/// Whether no name has a slot.
pub open spec fn is_free(s: AtlasState, i: int) -> bool {
    !exists|key: Seq<char>| #[trigger] s.used.dom().contains(key) && s.used[key] == i
}

/// The first free slot from `n` on, or how many slots there are.
pub open spec fn free_from(s: AtlasState, n: int) -> int
    decreases s.fresh.len() - n,
{
    if n >= s.fresh.len() {
        s.fresh.len() as int
    } else if is_free(s, n) {
        n
    } else {
        free_from(s, n + 1)
    }
}

/// A name asks for a slot: it keeps the one that it has, or takes the first free
/// one.
pub open spec fn allocation(s: AtlasState, key: Seq<char>, discard: bool) -> (
    AtlasState,
    Option<(int, SlotState)>,
) {
    if s.used.dom().contains(key) {
        let i = s.used[key];
        (
            AtlasState { discard: s.discard.update(i, s.discard[i] || discard), ..s },
            Some((i, SlotState::Ready)),
        )
    } else {
        let i = free_from(s, 0);
        if i >= s.fresh.len() {
            (s, None)
        } else {
            (
                AtlasState {
                    used: s.used.insert(key, i),
                    fresh: s.fresh.update(i, false),
                    discard: s.discard.update(i, discard),
                },
                Some(
                    (
                        i,
                        if s.fresh[i] {
                            SlotState::Empty
                        } else {
                            SlotState::Stale
                        },
                    ),
                ),
            )
        }
    }
}

/// What holds of every state of an atlas: each name has a slot of its own, which
/// is no longer fresh, and a free slot is not waiting to be given back.
pub open spec fn is_state(s: AtlasState) -> bool {
    &&& s.discard.len() == s.fresh.len()
    &&& s.used.dom().finite()
    &&& forall|key: Seq<char>| #[trigger]
        s.used.dom().contains(key) ==> 0 <= s.used[key] < s.fresh.len() && !s.fresh[s.used[key]]
    &&& forall|a: Seq<char>, b: Seq<char>|
        #![trigger s.used.dom().contains(a), s.used.dom().contains(b)]
        s.used.dom().contains(a) && s.used.dom().contains(b) && s.used[a] == s.used[b] ==> a == b
    &&& forall|i: int| 0 <= i < s.fresh.len() && is_free(s, i) ==> !#[trigger] s.discard[i]
}

/// The slots of some names are given back.
pub open spec fn given_back(s: AtlasState, freed: Set<Seq<char>>) -> AtlasState {
    AtlasState {
        used: s.used.remove_keys(freed),
        fresh: s.fresh,
        discard: Seq::new(
            s.discard.len(),
            |i: int|
                s.discard[i] && !exists|key: Seq<char>| #[trigger]
                    freed.contains(key) && s.used.dom().contains(key) && s.used[key] == i,
        ),
    }
}

/// The names that want a slot and have none.
pub open spec fn missing(s: AtlasState, keys: Set<Seq<char>>) -> Set<Seq<char>> {
    keys.difference(s.used.dom())
}

/// The names that have a slot and do not want it.
pub open spec fn spare(s: AtlasState, keys: Set<Seq<char>>) -> Set<Seq<char>> {
    s.used.dom().difference(keys)
}

/// Whether `freed` are names whose slots may be taken for `keys`: not wanted, and
/// no more of them than are missing, unless there are not enough.
pub open spec fn may_be_freed(
    s: AtlasState,
    keys: Set<Seq<char>>,
    freed: Set<Seq<char>>,
) -> bool {
    &&& freed.finite()
    &&& freed.subset_of(spare(s, keys))
    &&& freed.len() == if missing(s, keys).len() <= spare(s, keys).len() {
        missing(s, keys).len()
    } else {
        spare(s, keys).len()
    }
}

/// The names that wait to be given back.
pub open spec fn discarded(s: AtlasState) -> Set<Seq<char>> {
    s.used.dom().filter(|key: Seq<char>| s.discard[s.used[key]])
}

/// Hands out the slots of an atlas.
pub struct DynamicAtlasAllocator {
    pub slots: Vec<SlotInternal>,
    /// The names that have a slot, each with its slot.
    pub used_by_key: Vec<(String, usize)>,
    pub free: Vec<bool>,
    pub width: u32,
}

/// The names of a list of names and slots.
pub open spec fn used_names(used: Seq<(String, usize)>) -> Seq<Seq<char>> {
    Seq::new(used.len(), |i: int| used[i].0@)
}

/// The slot of each name of a list.
pub open spec fn used_map(used: Seq<(String, usize)>) -> Map<Seq<char>, int> {
    Map::new(
        |key: Seq<char>| used_names(used).to_set().contains(key),
        |key: Seq<char>| used[used_names(used).index_of(key)].1 as int,
    )
}

proof fn used_at(used: Seq<(String, usize)>, i: int)
    requires
        used_names(used).no_duplicates(),
        0 <= i < used.len(),
    ensures
        used_map(used).dom().contains(used[i].0@),
        used_map(used)[used[i].0@] == used[i].1,
{
    let all = used_names(used);
    assert(all[i] == used[i].0@);
    assert(all.contains(used[i].0@));
    let k = all.index_of(used[i].0@);
    assert(all[k] == all[i]);
}

proof fn used_somewhere(used: Seq<(String, usize)>, key: Seq<char>) -> (i: int)
    requires
        used_map(used).dom().contains(key),
    ensures
        0 <= i < used.len(),
        used[i].0@ == key,
        used_map(used)[key] == used[i].1,
{
    let all = used_names(used);
    let i = all.index_of(key);
    assert(all.contains(key));
    i
}

proof fn used_is_finite(used: Seq<(String, usize)>)
    requires
        used_names(used).no_duplicates(),
    ensures
        used_map(used).dom().finite(),
        used_map(used).dom().len() == used.len(),
{
    used_names(used).unique_seq_to_set();
    vstd::seq_lib::seq_to_set_is_finite(used_names(used));
    assert(used_map(used).dom() =~= used_names(used).to_set());
}

proof fn used_after_push(used: Seq<(String, usize)>, key: String, i: usize)
    requires
        used_names(used).no_duplicates(),
        !used_map(used).dom().contains(key@),
    ensures
        used_names(used.push((key, i))).no_duplicates(),
        used_map(used.push((key, i))) == used_map(used).insert(key@, i as int),
{
    let after = used.push((key, i));
    let (a, b) = (used_names(after), used_names(used));
    assert(a =~= b.push(key@));
    assert forall|x: int, y: int| 0 <= x < a.len() && 0 <= y < a.len() && x != y implies a[x]
        != a[y] by {
        if x == b.len() {
            assert(b.to_set().contains(b[y]));
        } else if y == b.len() {
            assert(b.to_set().contains(b[x]));
        }
    }
    assert forall|k: Seq<char>| used_map(after).dom().contains(k) == used_map(used).insert(
        key@,
        i as int,
    ).dom().contains(k) by {
        if used_map(used).dom().contains(k) {
            let x = used_somewhere(used, k);
            assert(a[x] == k);
        }
        if k == key@ {
            assert(a[used.len() as int] == k);
        }
        if used_map(after).dom().contains(k) {
            let x = used_somewhere(after, k);
            if x < used.len() {
                assert(b[x] == k);
            }
        }
    }
    assert forall|k: Seq<char>| used_map(after).dom().contains(k) implies used_map(after)[k]
        == used_map(used).insert(key@, i as int)[k] by {
        let x = used_somewhere(after, k);
        if x < used.len() {
            used_at(used, x);
            assert(b.to_set().contains(b[x]));
        }
    }
    assert(used_map(after) =~= used_map(used).insert(key@, i as int));
}

proof fn used_after_remove(used: Seq<(String, usize)>, i: int)
    requires
        used_names(used).no_duplicates(),
        0 <= i < used.len(),
    ensures
        used_names(used.remove(i)).no_duplicates(),
        used_map(used.remove(i)) == used_map(used).remove(used[i].0@),
{
    let after = used.remove(i);
    let (a, b) = (used_names(after), used_names(used));
    let key = used[i].0@;
    assert forall|x: int, y: int| 0 <= x < a.len() && 0 <= y < a.len() && x != y implies a[x]
        != a[y] by {
        let bx = if x < i {
            x
        } else {
            x + 1
        };
        let by_ = if y < i {
            y
        } else {
            y + 1
        };
        assert(a[x] == b[bx] && a[y] == b[by_]);
    }
    assert forall|k: Seq<char>| used_map(after).dom().contains(k) == used_map(used).remove(
        key,
    ).dom().contains(k) by {
        if used_map(used).dom().contains(k) && k != key {
            let x = used_somewhere(used, k);
            let ax = if x < i {
                x
            } else {
                x - 1
            };
            assert(a[ax] == k);
        }
        if used_map(after).dom().contains(k) {
            let x = used_somewhere(after, k);
            let bx = if x < i {
                x
            } else {
                x + 1
            };
            assert(b[bx] == k);
            assert(b[i] == key);
        }
    }
    assert forall|k: Seq<char>| used_map(after).dom().contains(k) implies used_map(after)[k]
        == used_map(used).remove(key)[k] by {
        let x = used_somewhere(after, k);
        let bx = if x < i {
            x
        } else {
            x + 1
        };
        used_at(used, bx);
    }
    assert(used_map(after) =~= used_map(used).remove(key));
}

proof fn same_names_same_free(s: AtlasState, t: AtlasState)
    requires
        s.used == t.used,
    ensures
        forall|i: int| is_free(s, i) == is_free(t, i),
{
    assert forall|i: int| is_free(s, i) == is_free(t, i) by {
        if !is_free(s, i) {
            let a = choose|a: Seq<char>| #[trigger] s.used.dom().contains(a) && s.used[a] == i;
            assert(t.used.dom().contains(a) && t.used[a] == i);
        }
        if !is_free(t, i) {
            let a = choose|a: Seq<char>| #[trigger] t.used.dom().contains(a) && t.used[a] == i;
            assert(s.used.dom().contains(a) && s.used[a] == i);
        }
    }
}

proof fn giving_back_one_more(s: AtlasState, freed: Set<Seq<char>>, key: Seq<char>)
    requires
        s.discard.len() == s.fresh.len(),
    ensures
        given_back(given_back(s, freed), set![key]) == given_back(s, freed.insert(key)),
{
    let (a, b) = (
        given_back(given_back(s, freed), set![key]),
        given_back(s, freed.insert(key)),
    );
    let one = given_back(s, freed);
    assert(a.used =~= b.used);
    assert forall|i: int| 0 <= i < s.discard.len() implies a.discard[i] == b.discard[i] by {
        if s.discard[i] && !b.discard[i] {
            let k = choose|k: Seq<char>| #[trigger]
                freed.insert(key).contains(k) && s.used.dom().contains(k) && s.used[k] == i;
            if freed.contains(k) {
                assert(!one.discard[i]);
            } else {
                assert(set![key].contains(k) && one.used.dom().contains(k) && one.used[k] == i);
            }
        }
        if s.discard[i] && !one.discard[i] {
            let k = choose|k: Seq<char>| #[trigger]
                freed.contains(k) && s.used.dom().contains(k) && s.used[k] == i;
            assert(freed.insert(key).contains(k));
        }
        if one.discard[i] && !a.discard[i] {
            let k = choose|k: Seq<char>| #[trigger]
                set![key].contains(k) && one.used.dom().contains(k) && one.used[k] == i;
            assert(freed.insert(key).contains(k));
        }
    }
    assert(a.discard =~= b.discard);
}

proof fn giving_back_none(s: AtlasState)
    ensures
        given_back(s, Set::empty()) == s,
{
    assert(given_back(s, Set::empty()).used =~= s.used);
    assert(given_back(s, Set::empty()).discard =~= s.discard);
}

impl DynamicAtlasAllocator {
    /// Which slots are in use and what is known of them.
    pub open spec fn view(self) -> AtlasState {
        AtlasState {
            used: used_map(self.used_by_key@),
            fresh: Seq::new(self.slots@.len(), |i: int| self.slots@[i].fresh),
            discard: Seq::new(self.slots@.len(), |i: int| self.slots@[i].discard_after_frame),
        }
    }

    /// The column and row of a slot.
    pub open spec fn position(self, i: int) -> Slot {
        Slot { x: (i % self.width as int) as u32, y: (i / self.width as int) as u32 }
    }

    /// The slots stand row by row, and the free ones are those without a name.
    pub open spec fn wf(self) -> bool {
        &&& is_state(self@)
        &&& used_names(self.used_by_key@).no_duplicates()
        &&& self.free@.len() == self.slots@.len()
        &&& forall|i: int|
            0 <= i < self.slots@.len() ==> (#[trigger] self.free@[i] <==> is_free(self@, i))
        &&& forall|i: int|
            0 <= i < self.slots@.len() ==> Slot { x: (#[trigger] self.slots@[i]).x, y: self.slots@[i].y }
                == self.position(i)
    }

    /// An atlas of free slots.
    pub fn new(width: u32, height: u32) -> (atlas: DynamicAtlasAllocator)
        requires
            width * height <= u32::MAX,
        ensures
            atlas.wf(),
            atlas.width == width,
            atlas.slots@.len() == width * height,
            atlas@.used == Map::<Seq<char>, int>::empty(),
            atlas@.fresh == Seq::new((width * height) as nat, |i: int| true),
            atlas@.discard == Seq::new((width * height) as nat, |i: int| false),
    {
        let mut slots: Vec<SlotInternal> = Vec::new();
        let mut free: Vec<bool> = Vec::new();
        let mut y: u32 = 0;
        assert(0 * width == 0);
        while y < height
            invariant
                y <= height,
                slots@.len() == y * width,
                free@.len() == slots@.len(),
                forall|i: int| 0 <= i < free@.len() ==> #[trigger] free@[i],
                forall|i: int|
                    0 <= i < slots@.len() ==> #[trigger] slots@[i] == (SlotInternal {
                        x: (i % width as int) as u32,
                        y: (i / width as int) as u32,
                        fresh: true,
                        discard_after_frame: false,
                    }),
            decreases height - y,
        {
            let mut x: u32 = 0;
            while x < width
                invariant
                    x <= width,
                    slots@.len() == y * width + x,
                    free@.len() == slots@.len(),
                    forall|i: int| 0 <= i < free@.len() ==> #[trigger] free@[i],
                    forall|i: int|
                        0 <= i < slots@.len() ==> #[trigger] slots@[i] == (SlotInternal {
                            x: (i % width as int) as u32,
                            y: (i / width as int) as u32,
                            fresh: true,
                            discard_after_frame: false,
                        }),
                decreases width - x,
            {
                proof {
                    vstd::arithmetic::div_mod::lemma_fundamental_div_mod_converse(
                        y * width + x,
                        width as int,
                        y as int,
                        x as int,
                    );
                }
                slots.push(SlotInternal { x, y, fresh: true, discard_after_frame: false });
                free.push(true);
                x = x + 1;
            }
            y = y + 1;
            assert(y * width == (y - 1) * width + width) by (nonlinear_arith);
        }
        assert(height * width == width * height) by (nonlinear_arith);
        let atlas = DynamicAtlasAllocator { slots, used_by_key: Vec::new(), free, width };
        assert(atlas@.used =~= Map::<Seq<char>, int>::empty());
        assert(atlas@.fresh =~= Seq::new((width * height) as nat, |i: int| true));
        assert(atlas@.discard =~= Seq::new((width * height) as nat, |i: int| false));
        atlas
    }

    /// The place of a name in the list of those that have a slot.
    fn find(&self, key: &str) -> (place: Option<usize>)
        requires
            used_names(self.used_by_key@).no_duplicates(),
        ensures
            match place {
                Some(i) => i < self.used_by_key@.len() && self.used_by_key@[i as int].0@ == key@
                    && self@.used.dom().contains(key@) && self@.used[key@]
                    == self.used_by_key@[i as int].1,
                None => !self@.used.dom().contains(key@),
            },
    {
        let mut i: usize = 0;
        while i < self.used_by_key.len()
            invariant
                i <= self.used_by_key@.len(),
                used_names(self.used_by_key@).no_duplicates(),
                forall|j: int| 0 <= j < i ==> (#[trigger] self.used_by_key@[j]).0@ != key@,
            decreases self.used_by_key@.len() - i,
        {
            if same_text(self.used_by_key[i].0.as_str(), key) {
                proof {
                    used_at(self.used_by_key@, i as int);
                }
                return Some(i);
            }
            i = i + 1;
        }
        proof {
            if self@.used.dom().contains(key@) {
                let x = used_somewhere(self.used_by_key@, key@);
            }
        }
        None
    }

    /// The first free slot, or how many slots there are.
    fn first_free(&self) -> (i: usize)
        requires
            self.wf(),
        ensures
            i == free_from(self@, 0),
            i <= self.slots@.len(),
            i < self.slots@.len() ==> self.free@[i as int],
    {
        let mut i: usize = 0;
        while i < self.free.len() && !self.free[i]
            invariant
                self.wf(),
                i <= self.free@.len(),
                free_from(self@, 0) == free_from(self@, i as int),
            decreases self.free@.len() - i,
        {
            i = i + 1;
        }
        i
    }

    /// Hands out the slot of a name, or a free one, if there is any.
    pub fn get_or_allocate(&mut self, key: &str, discard_after_frame: bool) -> (found: Option<
        (Slot, SlotState),
    >)
        requires
            old(self).wf(),
        ensures
            final(self).wf(),
            final(self).width == old(self).width,
            final(self)@ == allocation(old(self)@, key@, discard_after_frame).0,
            match allocation(old(self)@, key@, discard_after_frame).1 {
                Some((i, state)) => found == Some((old(self).position(i), state)),
                None => found is None,
            },
    {
        let ghost before = *self;
        let place = self.find(key);
        if let Some(p) = place {
            let i: usize = self.used_by_key[p].1;
            let mut s: SlotInternal = self.slots[i];
            s.discard_after_frame = s.discard_after_frame || discard_after_frame;
            self.slots.set(i, s);
            proof {
                let after = allocation(before@, key@, discard_after_frame).0;
                assert(self@.discard =~= after.discard);
                assert(self@.fresh =~= after.fresh);
                assert(self@ == after);
                same_names_same_free(before@, self@);
                assert(!is_free(self@, i as int)) by {
                    assert(self@.used.dom().contains(key@));
                }
            }
            return Some((Slot { x: s.x, y: s.y }, SlotState::Ready));
        }
        let i: usize = self.first_free();
        if i >= self.slots.len() {
            return None;
        }
        self.free.set(i, false);
        let mut s: SlotInternal = self.slots[i];
        let state = if s.fresh {
            SlotState::Empty
        } else {
            SlotState::Stale
        };
        s.fresh = false;
        s.discard_after_frame = discard_after_frame;
        self.slots.set(i, s);
        let name = key.to_owned();
        self.used_by_key.push((name, i));
        proof {
            used_after_push(before.used_by_key@, name, i);
            let after = allocation(before@, key@, discard_after_frame).0;
            assert(self@.discard =~= after.discard);
            assert(self@.fresh =~= after.fresh);
            assert(self@ == after);
            allocation_keeps_state(before@, key@, discard_after_frame);
            self.slot_was_taken(before, key@, i as int);
        }
        Some((Slot { x: s.x, y: s.y }, state))
    }

    /// Gives back the slot of the `p`th name.
    fn release(&mut self, p: usize)
        requires
            old(self).wf(),
            p < old(self).used_by_key@.len(),
        ensures
            final(self).wf(),
            final(self).width == old(self).width,
            final(self).used_by_key@ == old(self).used_by_key@.remove(p as int),
            final(self)@ == given_back(old(self)@, set![old(self).used_by_key@[p as int].0@]),
    {
        let ghost before = *self;
        let ghost key = before.used_by_key@[p as int].0@;
        proof {
            used_at(self.used_by_key@, p as int);
            used_after_remove(self.used_by_key@, p as int);
        }
        let (name, i): (String, usize) = self.used_by_key.remove(p);
        self.free.set(i, true);
        let mut s: SlotInternal = self.slots[i];
        s.discard_after_frame = false;
        self.slots.set(i, s);
        proof {
            let after = given_back(before@, set![key]);
            assert(self@.used =~= after.used);
            assert(self@.fresh =~= after.fresh);
            assert forall|k: int| 0 <= k < before.slots@.len() implies self@.discard[k]
                == after.discard[k] by {
                if k == i {
                    assert(set![key].contains(key));
                } else if before@.discard[k] && !after.discard[k] {
                    let a = choose|a: Seq<char>| #[trigger]
                        set![key].contains(a) && before@.used.dom().contains(a) && before@.used[a]
                            == k;
                }
            }
            assert(self@.discard =~= after.discard);
            giving_back_keeps_state(before@, set![key]);
            self.slot_was_released(before, key, i as int);
        }
    }

    proof fn slot_was_released(self, before: DynamicAtlasAllocator, key: Seq<char>, i: int)
        requires
            before.wf(),
            before@.used.dom().contains(key),
            before@.used[key] == i,
            self@.used == before@.used.remove(key),
            self.free@ == before.free@.update(i, true),
        ensures
            forall|k: int|
                0 <= k < before.slots@.len() ==> (#[trigger] self.free@[k] <==> is_free(self@, k)),
    {
        let (s, t) = (before@, self@);
        assert(t.used.dom() =~= s.used.dom().remove(key));
        assert forall|k: int| 0 <= k < s.fresh.len() implies is_free(t, k) == (is_free(s, k) || k
            == i) by {
            if !is_free(t, k) {
                let a = choose|a: Seq<char>| #[trigger] t.used.dom().contains(a) && t.used[a] == k;
                assert(s.used.dom().contains(a) && s.used[a] == k);
                assert(s.used.dom().contains(key));
            }
            if !is_free(s, k) && k != i {
                let a = choose|a: Seq<char>| #[trigger] s.used.dom().contains(a) && s.used[a] == k;
                assert(t.used.dom().contains(a) && t.used[a] == k);
            }
        }
        assert forall|k: int| 0 <= k < before.slots@.len() implies (#[trigger] self.free@[k]
            <==> is_free(t, k)) by {
            assert(before.free@[k] <==> is_free(s, k));
        }
    }

    /// How many of some names have no slot.
    fn count_missing(&self, keys: &KeySet) -> (count: usize)
        requires
            self.wf(),
            keys.wf(),
        ensures
            count == missing(self@, keys@).len(),
            missing(self@, keys@).finite(),
    {
        let ghost all = names(keys.keys@);
        let mut count: usize = 0;
        let mut i: usize = 0;
        let total: usize = keys.keys.len();
        assert(all.take(0).to_set().difference(self@.used.dom()) =~= Set::<Seq<char>>::empty());
        while i < total
            invariant
                self.wf(),
                keys.wf(),
                all == names(keys.keys@),
                total == keys.keys@.len(),
                i <= total,
                count <= i,
                all.take(i as int).to_set().difference(self@.used.dom()).finite(),
                count == all.take(i as int).to_set().difference(self@.used.dom()).len(),
            decreases total - i,
        {
            let place = self.find(keys.keys[i].as_str());
            proof {
                let (a, b) = (all.take(i as int), all.take(i + 1));
                let used = self@.used.dom();
                assert(b =~= a.push(all[i as int]));
                assert forall|k: Seq<char>| b.to_set().contains(k) == a.to_set().insert(
                    all[i as int],
                ).contains(k) by {
                    if a.contains(k) {
                        let x = choose|x: int| 0 <= x < a.len() && a[x] == k;
                        assert(b[x] == k);
                    }
                    if k == all[i as int] {
                        assert(b[i as int] == k);
                    }
                }
                assert(b.to_set() =~= a.to_set().insert(all[i as int]));
                if place is None {
                    assert(b.to_set().difference(used) =~= a.to_set().difference(used).insert(
                        all[i as int],
                    ));
                    assert(!a.to_set().contains(all[i as int]));
                } else {
                    assert(b.to_set().difference(used) =~= a.to_set().difference(used));
                }
            }
            if place.is_none() {
                count = count + 1;
            }
            i = i + 1;
        }
        assert(all.take(total as int) =~= all);
        count
    }

    /// Whether some names and those that have a slot fit together.
    pub fn has_space_for_all(&self, keys: &KeySet) -> (fits: bool)
        requires
            self.wf(),
            keys.wf(),
        ensures
            fits == (self@.used.dom().union(keys@).len() <= self.slots@.len()),
    {
        let count: usize = self.count_missing(keys);
        proof {
            let used = self@.used.dom();
            used_is_finite(self.used_by_key@);
            lemma_set_disjoint_lens(used, missing(self@, keys@));
            assert(used + missing(self@, keys@) =~= used.union(keys@));
        }
        let have: usize = self.used_by_key.len();
        let slots: usize = self.slots.len();
        have <= slots && count <= slots - have
    }

    /// Gives back slots that are not wanted, until all wanted names can have one,
    /// and says whether they can. Which slots are given back is left open.
    pub fn reclaim_space_for(&mut self, keys: &KeySet) -> (enough: bool)
        requires
            old(self).wf(),
            keys.wf(),
        ensures
            final(self).wf(),
            final(self).width == old(self).width,
            enough == (missing(old(self)@, keys@).len() <= spare(old(self)@, keys@).len()),
            exists|freed: Set<Seq<char>>| #[trigger]
                may_be_freed(old(self)@, keys@, freed) && final(self)@ == given_back(
                    old(self)@,
                    freed,
                ),
    {
        let ghost before = *self;
        let ghost mut freed = Set::<Seq<char>>::empty();
        let mut needed: usize = self.count_missing(keys);
        let ghost total = needed;
        let mut i: usize = 0;
        proof {
            giving_back_none(self@);
        }
        while i < self.used_by_key.len() && needed > 0
            invariant
                before.wf(),
                self.wf(),
                keys.wf(),
                self.width == before.width,
                i <= self.used_by_key@.len(),
                freed.finite(),
                freed.subset_of(spare(before@, keys@)),
                freed.len() + needed == total,
                self@ == given_back(before@, freed),
                forall|j: int|
                    0 <= j < i ==> keys@.contains((#[trigger] self.used_by_key@[j]).0@),
            decreases self.used_by_key@.len() - i,
        {
            let wanted: bool = keys.contains(self.used_by_key[i].0.as_str());
            if wanted {
                i = i + 1;
            } else {
                let ghost key = self.used_by_key@[i as int].0@;
                proof {
                    used_at(self.used_by_key@, i as int);
                    giving_back_one_more(before@, freed, key);
                }
                self.release(i);
                needed = needed - 1;
                proof {
                    freed = freed.insert(key);
                }
            }
        }
        proof {
            let left_over = spare(before@, keys@);
            used_is_finite(before.used_by_key@);
            lemma_len_subset(left_over, before@.used.dom());
            lemma_len_subset(freed, left_over);
            if needed > 0 {
                assert forall|k: Seq<char>| left_over.contains(k) implies freed.contains(k) by {
                    if !freed.contains(k) {
                        assert(self@.used.dom().contains(k));
                        let j = used_somewhere(self.used_by_key@, k);
                    }
                }
                assert(freed =~= left_over);
            }
            assert(may_be_freed(before@, keys@, freed));
        }
        needed == 0
    }

    /// Ends a frame: the slots that were wanted for it alone are given back.
    pub fn end_frame(&mut self)
        requires
            old(self).wf(),
        ensures
            final(self).wf(),
            final(self).width == old(self).width,
            final(self)@ == given_back(old(self)@, discarded(old(self)@)),
    {
        let ghost before = *self;
        let ghost mut freed = Set::<Seq<char>>::empty();
        let mut i: usize = 0;
        proof {
            giving_back_none(self@);
        }
        while i < self.used_by_key.len()
            invariant
                before.wf(),
                self.wf(),
                self.width == before.width,
                i <= self.used_by_key@.len(),
                freed.subset_of(discarded(before@)),
                self@ == given_back(before@, freed),
                forall|j: int|
                    0 <= j < i ==> !self@.discard[(#[trigger] self.used_by_key@[j]).1 as int],
            decreases self.used_by_key@.len() - i,
        {
            proof {
                used_at(self.used_by_key@, i as int);
            }
            let slot: usize = self.used_by_key[i].1;
            if self.slots[slot].discard_after_frame {
                let ghost key = self.used_by_key@[i as int].0@;
                let ghost was = *self;
                proof {
                    giving_back_one_more(before@, freed, key);
                    assert(self@.discard[slot as int]);
                    assert(before@.used[key] == slot);
                }
                self.release(i);
                proof {
                    freed = freed.insert(key);
                    assert forall|j: int| 0 <= j < i implies !self@.discard[(
                    #[trigger] self.used_by_key@[j]).1 as int] by {
                        assert(self.used_by_key@[j] == was.used_by_key@[j]);
                        used_at(was.used_by_key@, j);
                        assert(!was@.discard[was.used_by_key@[j].1 as int]);
                    }
                }
            } else {
                assert(!self@.discard[slot as int]);
                i = i + 1;
            }
        }
        proof {
            assert forall|k: Seq<char>| discarded(before@).contains(k) implies freed.contains(
                k,
            ) by {
                if !freed.contains(k) {
                    let at = before@.used[k];
                    assert(self@.used.dom().contains(k) && self@.used[k] == at);
                    let j = used_somewhere(self.used_by_key@, k);
                    assert(before@.discard[at]);
                    assert(!self@.discard[at]);
                    let other = choose|other: Seq<char>| #[trigger]
                        freed.contains(other) && before@.used.dom().contains(other)
                            && before@.used[other] == at;
                    assert(before@.used.dom().contains(other) && before@.used.dom().contains(k));
                }
            }
            assert(freed =~= discarded(before@));
        }
    }

    proof fn slot_was_taken(self, before: DynamicAtlasAllocator, key: Seq<char>, i: int)
        requires
            before.wf(),
            0 <= i < before.slots@.len(),
            is_free(before@, i),
            !before@.used.dom().contains(key),
            self@.used == before@.used.insert(key, i),
            self.free@ == before.free@.update(i, false),
        ensures
            forall|k: int|
                0 <= k < before.slots@.len() ==> (#[trigger] self.free@[k] <==> is_free(self@, k)),
    {
        let (s, t) = (before@, self@);
        assert(t.used.dom() =~= s.used.dom().insert(key));
        assert(t.used.dom().contains(key));
        assert forall|k: int| 0 <= k < s.fresh.len() implies is_free(t, k) == (is_free(s, k) && k
            != i) by {
            if !is_free(s, k) {
                let a = choose|a: Seq<char>| #[trigger] s.used.dom().contains(a) && s.used[a] == k;
                assert(t.used.dom().contains(a) && t.used[a] == k);
            }
            if k == i {
                assert(t.used.dom().contains(key) && t.used[key] == k);
            }
            if !is_free(t, k) {
                let a = choose|a: Seq<char>| #[trigger] t.used.dom().contains(a) && t.used[a] == k;
                if a != key {
                    assert(s.used.dom().contains(a) && s.used[a] == k);
                }
            }
        }
        assert forall|k: int| 0 <= k < before.slots@.len() implies (#[trigger] self.free@[k]
            <==> is_free(t, k)) by {
            assert(before.free@[k] <==> is_free(s, k));
        }
    }
}

/// What a name got it keeps: it is handed the same slot again, now ready.
pub proof fn second_request_is_ready(
    s: AtlasState,
    key: Seq<char>,
    discard: bool,
    discard_again: bool,
)
    requires
        is_state(s),
        allocation(s, key, discard).1 is Some,
    ensures
        ({
            let (t, first) = allocation(s, key, discard);
            allocation(t, key, discard_again).1 == Some((first->Some_0.0, SlotState::Ready))
        }),
{
}

/// Two names never have one slot.
pub proof fn names_do_not_share_slots(
    s: AtlasState,
    a: Seq<char>,
    b: Seq<char>,
    discard_a: bool,
    discard_b: bool,
)
    requires
        is_state(s),
        a != b,
        allocation(s, a, discard_a).1 is Some,
        allocation(allocation(s, a, discard_a).0, b, discard_b).1 is Some,
    ensures
        allocation(s, a, discard_a).1->Some_0.0 != allocation(
            allocation(s, a, discard_a).0,
            b,
            discard_b,
        ).1->Some_0.0,
{
    let t = allocation(s, a, discard_a).0;
    free_from_is_free(s, 0);
    free_from_is_free(t, 0);
    assert(t.used.dom().contains(a));
    let i = t.used[a];
    assert(!is_free(t, i));
    if t.used.dom().contains(b) && !s.used.dom().contains(a) {
        assert(s.used.dom().contains(b));
        assert(!is_free(s, s.used[b]));
    }
}

proof fn free_from_is_free(s: AtlasState, n: int)
    requires
        0 <= n <= s.fresh.len(),
    ensures
        n <= free_from(s, n) <= s.fresh.len(),
        free_from(s, n) < s.fresh.len() ==> is_free(s, free_from(s, n)),
        free_from(s, n) == s.fresh.len() ==> forall|i: int|
            n <= i < s.fresh.len() ==> !#[trigger] is_free(s, i),
    decreases s.fresh.len() - n,
{
    if n < s.fresh.len() && !is_free(s, n) {
        free_from_is_free(s, n + 1);
    }
}

proof fn taken_slots_have_names(used: Map<Seq<char>, int>, n: nat)
    requires
        used.dom().finite(),
        forall|i: int| 0 <= i < n ==> #[trigger] has_name(used, i),
    ensures
        used.dom().len() >= n,
    decreases n,
{
    if n > 0 {
        let last = n - 1;
        assert(has_name(used, last));
        let key = choose|key: Seq<char>| #[trigger] used.dom().contains(key) && used[key] == last;
        let rest = used.remove(key);
        assert forall|i: int| 0 <= i < n - 1 implies #[trigger] has_name(rest, i) by {
            assert(has_name(used, i));
            let k = choose|k: Seq<char>| #[trigger] used.dom().contains(k) && used[k] == i;
            assert(rest.dom().contains(k) && rest[k] == i);
        }
        assert(rest.dom() =~= used.dom().remove(key));
        taken_slots_have_names(rest, (n - 1) as nat);
    }
}

spec fn has_name(used: Map<Seq<char>, int>, i: int) -> bool {
    exists|key: Seq<char>| #[trigger] used.dom().contains(key) && used[key] == i
}

/// Where there is space for some names, each of them gets a slot, and there is
/// still space for all of them afterwards.
pub proof fn space_is_enough(
    s: AtlasState,
    keys: Set<Seq<char>>,
    key: Seq<char>,
    discard: bool,
)
    requires
        is_state(s),
        keys.finite(),
        s.used.dom().union(keys).len() <= s.fresh.len(),
        keys.contains(key),
    ensures
        allocation(s, key, discard).1 is Some,
        allocation(s, key, discard).0.used.dom().union(keys).len() <= s.fresh.len(),
{
    free_from_is_free(s, 0);
    let both = s.used.dom().union(keys);
    if !s.used.dom().contains(key) {
        if free_from(s, 0) == s.fresh.len() {
            assert forall|i: int| 0 <= i < s.fresh.len() implies #[trigger] has_name(
                s.used,
                i,
            ) by {
                assert(!is_free(s, i));
            }
            taken_slots_have_names(s.used, s.fresh.len());
            lemma_len_subset(s.used.dom().insert(key), both);
        }
        assert(allocation(s, key, discard).0.used.dom().union(keys) =~= both);
    }
}

/// Where enough slots were given back, there is space for all names that were
/// wanted, and none of them lost its slot.
pub proof fn reclaimed_space_is_enough(
    s: AtlasState,
    keys: Set<Seq<char>>,
    freed: Set<Seq<char>>,
)
    requires
        is_state(s),
        keys.finite(),
        may_be_freed(s, keys, freed),
        missing(s, keys).len() <= spare(s, keys).len(),
    ensures
        given_back(s, freed).used.dom().union(keys).len() <= s.fresh.len(),
        forall|key: Seq<char>|
            keys.contains(key) && s.used.dom().contains(key) ==> given_back(
                s,
                freed,
            ).used.dom().contains(key),
{
    let t = given_back(s, freed);
    let used = s.used.dom();
    assert(t.used.dom() =~= used.difference(freed));
    lemma_len_subset(t.used.dom(), used);
    assert(freed.subset_of(used));
    lemma_set_disjoint_lens(t.used.dom(), freed);
    assert(t.used.dom() + freed =~= used);
    let need = missing(s, keys);
    lemma_len_subset(need, keys);
    lemma_set_disjoint_lens(t.used.dom(), need);
    assert(t.used.dom() + need =~= t.used.dom().union(keys));
    used_fits(s.used, s.fresh.len());
}

proof fn used_fits(used: Map<Seq<char>, int>, n: nat)
    requires
        used.dom().finite(),
        forall|key: Seq<char>| #[trigger] used.dom().contains(key) ==> 0 <= used[key] < n,
        forall|a: Seq<char>, b: Seq<char>|
            #![trigger used.dom().contains(a), used.dom().contains(b)]
            used.dom().contains(a) && used.dom().contains(b) && used[a] == used[b] ==> a == b,
    ensures
        used.dom().len() <= n,
    decreases n,
{
    if n == 0 {
        if used.dom().len() > 0 {
            assert(used.dom().contains(used.dom().choose()));
        }
    } else {
        let last = n - 1;
        if exists|key: Seq<char>| #[trigger] used.dom().contains(key) && used[key] == last {
            let key = choose|key: Seq<char>| #[trigger]
                used.dom().contains(key) && used[key] == last;
            let rest = used.remove(key);
            assert(rest.dom() =~= used.dom().remove(key));
            assert forall|k: Seq<char>| #[trigger] rest.dom().contains(k) implies 0 <= rest[k]
                < n - 1 by {
                assert(used.dom().contains(k) && used.dom().contains(key));
            }
            assert forall|a: Seq<char>, b: Seq<char>|
                #![trigger rest.dom().contains(a), rest.dom().contains(b)]
                rest.dom().contains(a) && rest.dom().contains(b) && rest[a]
                    == rest[b] implies a == b by {
                assert(used.dom().contains(a) && used.dom().contains(b));
            }
            used_fits(rest, (n - 1) as nat);
        } else {
            used_fits(used, (n - 1) as nat);
        }
    }
}

/// After a frame no slot waits to be given back.
pub proof fn nothing_waits_after_a_frame(s: AtlasState, i: int)
    requires
        is_state(s),
        0 <= i < s.fresh.len(),
    ensures
        !given_back(s, discarded(s)).discard[i],
{
    if s.discard[i] {
        assert(!is_free(s, i));
        let key = choose|key: Seq<char>| #[trigger] s.used.dom().contains(key) && s.used[key] == i;
        assert(discarded(s).contains(key));
    }
}

/// A request keeps what holds of every state.
pub proof fn allocation_keeps_state(s: AtlasState, key: Seq<char>, discard: bool)
    requires
        is_state(s),
    ensures
        is_state(allocation(s, key, discard).0),
{
    let t = allocation(s, key, discard).0;
    free_from_is_free(s, 0);
    if s.used.dom().contains(key) {
        same_names_same_free(s, t);
        assert(!is_free(t, s.used[key]));
    } else if free_from(s, 0) < s.fresh.len() {
        let i = free_from(s, 0);
        assert(t.used.dom() =~= s.used.dom().insert(key));
        assert forall|a: Seq<char>, b: Seq<char>|
            #![trigger t.used.dom().contains(a), t.used.dom().contains(b)]
            t.used.dom().contains(a) && t.used.dom().contains(b) && t.used[a]
                == t.used[b] implies a == b by {
            if a == key && b != key {
                assert(s.used.dom().contains(b) && s.used[b] == i);
            }
            if b == key && a != key {
                assert(s.used.dom().contains(a) && s.used[a] == i);
            }
        }
        assert forall|k: int|
            0 <= k < t.fresh.len() && is_free(t, k) implies !#[trigger] t.discard[k] by {
            assert(t.used.dom().contains(key) && t.used[key] == i);
            if !is_free(s, k) {
                let a = choose|a: Seq<char>| #[trigger] s.used.dom().contains(a) && s.used[a] == k;
                assert(t.used.dom().contains(a) && t.used[a] == k);
            }
            assert(!s.discard[k]);
        }
    }
}

/// Giving slots back keeps what holds of every state.
pub proof fn giving_back_keeps_state(s: AtlasState, freed: Set<Seq<char>>)
    requires
        is_state(s),
    ensures
        is_state(given_back(s, freed)),
{
    let t = given_back(s, freed);
    assert(t.used.dom() =~= s.used.dom().difference(freed));
    assert forall|a: Seq<char>, b: Seq<char>|
        #![trigger t.used.dom().contains(a), t.used.dom().contains(b)]
        t.used.dom().contains(a) && t.used.dom().contains(b) && t.used[a]
            == t.used[b] implies a == b by {
        assert(s.used.dom().contains(a) && s.used.dom().contains(b));
    }
    assert forall|k: int|
        0 <= k < t.fresh.len() && is_free(t, k) implies !#[trigger] t.discard[k] by {
        if !is_free(s, k) {
            let a = choose|a: Seq<char>| #[trigger] s.used.dom().contains(a) && s.used[a] == k;
            if !freed.contains(a) {
                assert(t.used.dom().contains(a) && t.used[a] == k);
            }
        } else {
            assert(!s.discard[k]);
        }
    }
}

/// A frame that ends at once after another changes nothing.
pub proof fn ending_a_frame_twice_changes_nothing(s: AtlasState)
    requires
        is_state(s),
    ensures
        ({
            let t = given_back(s, discarded(s));
            given_back(t, discarded(t)) == t
        }),
{
    let t = given_back(s, discarded(s));
    assert forall|key: Seq<char>| !discarded(t).contains(key) by {
        if t.used.dom().contains(key) {
            nothing_waits_after_a_frame(s, t.used[key]);
        }
    }
    assert(discarded(t) =~= Set::empty());
    giving_back_none(t);
}

/// A step in the life of an atlas.
pub enum AtlasStep {
    /// A name asks for a slot.
    Request { key: Seq<char>, discard: bool },
    /// The slots of some names are taken for others.
    Reclaim { freed: Set<Seq<char>> },
    /// A frame ends.
    EndFrame,
}

/// The state after a step.
pub open spec fn stepped(s: AtlasState, step: AtlasStep) -> AtlasState {
    match step {
        AtlasStep::Request { key, discard } => allocation(s, key, discard).0,
        AtlasStep::Reclaim { freed } => given_back(s, freed),
        AtlasStep::EndFrame => given_back(s, discarded(s)),
    }
}

/// The state of an atlas of `slots` slots after the first `n` of its steps.
pub open spec fn lived(slots: nat, steps: Seq<AtlasStep>, n: nat) -> AtlasState
    decreases n,
{
    if n == 0 {
        AtlasState {
            used: Map::empty(),
            fresh: Seq::new(slots, |i: int| true),
            discard: Seq::new(slots, |i: int| false),
        }
    } else {
        stepped(lived(slots, steps, (n - 1) as nat), steps[n - 1])
    }
}

/// Whether step `j` asked that the slot of a name be given back, and the name has
/// had its slot from then until after step `n`.
pub open spec fn marked_by(
    slots: nat,
    steps: Seq<AtlasStep>,
    n: nat,
    key: Seq<char>,
    j: int,
) -> bool {
    &&& 0 <= j < n
    &&& steps[j] == (AtlasStep::Request { key, discard: true })
    &&& forall|m: nat|
        j < m <= n ==> (#[trigger] lived(slots, steps, m)).used.dom().contains(key)
}

/// Whether a request since, and with, the one that gave a name its slot asked that
/// the slot be given back.
pub open spec fn marked(slots: nat, steps: Seq<AtlasStep>, n: nat, key: Seq<char>) -> bool {
    exists|j: int| #[trigger] marked_by(slots, steps, n, key, j)
}

/// Every state that an atlas comes to is a state, with as many slots as at first.
pub proof fn states_are_kept(slots: nat, steps: Seq<AtlasStep>, n: nat)
    requires
        n <= steps.len(),
    ensures
        is_state(lived(slots, steps, n)),
        lived(slots, steps, n).fresh.len() == slots,
    decreases n,
{
    if n > 0 {
        let m = (n - 1) as nat;
        states_are_kept(slots, steps, m);
        let s = lived(slots, steps, m);
        match steps[m as int] {
            AtlasStep::Request { key, discard } => {
                allocation_keeps_state(s, key, discard);
                free_from_is_free(s, 0);
            },
            AtlasStep::Reclaim { freed } => {
                giving_back_keeps_state(s, freed);
            },
            AtlasStep::EndFrame => {
                giving_back_keeps_state(s, discarded(s));
            },
        }
    }
}

/// A name that has a slot waits for it to be given back where, and only where, a
/// request since the one that gave it the slot asked for that. Later requests
/// that do not ask for it change nothing.
pub proof fn waiting_names_were_marked(
    slots: nat,
    steps: Seq<AtlasStep>,
    n: nat,
    key: Seq<char>,
)
    requires
        n <= steps.len(),
    ensures
        discarded(lived(slots, steps, n)).contains(key) <==> marked(slots, steps, n, key),
    decreases n,
{
    if n > 0 {
        let m = (n - 1) as nat;
        let (s, t) = (lived(slots, steps, m), lived(slots, steps, n));
        states_are_kept(slots, steps, m);
        states_are_kept(slots, steps, n);
        waiting_names_were_marked(slots, steps, m, key);
        let asks = steps[m as int] == (AtlasStep::Request { key, discard: true });
        assert(discarded(t).contains(key) <==> t.used.dom().contains(key) && (asks || discarded(
            s,
        ).contains(key))) by {
            lemma_step_marks(s, steps[m as int], key);
        }
        if marked(slots, steps, n, key) {
            let j = choose|j: int| marked_by(slots, steps, n, key, j);
            assert(lived(slots, steps, n).used.dom().contains(key));
            if j < m {
                assert(marked_by(slots, steps, m, key, j));
            }
        }
        if t.used.dom().contains(key) && asks {
            assert(marked_by(slots, steps, n, key, m as int));
        } else if t.used.dom().contains(key) && marked(slots, steps, m, key) {
            let j = choose|j: int| marked_by(slots, steps, m, key, j);
            assert(marked_by(slots, steps, n, key, j));
        }
    }
}

/// After a step a name waits for its slot to be given back where it has one, and
/// the step asked for it or it waited before.
proof fn lemma_step_marks(s: AtlasState, step: AtlasStep, key: Seq<char>)
    requires
        is_state(s),
        is_state(stepped(s, step)),
    ensures
        ({
            let t = stepped(s, step);
            let asks = step == (AtlasStep::Request { key, discard: true });
            discarded(t).contains(key) <==> t.used.dom().contains(key) && (asks || discarded(
                s,
            ).contains(key))
        }),
{
    let t = stepped(s, step);
    free_from_is_free(s, 0);
    match step {
        AtlasStep::Request { key: asked, discard } => {
            if s.used.dom().contains(asked) {
                assert(s.used.dom().contains(key) && s.used[key] == s.used[asked] ==> key == asked);
            } else if s.used.dom().contains(key) {
                assert(!is_free(s, s.used[key]));
            }
        },
        AtlasStep::Reclaim { freed } => {
            if t.used.dom().contains(key) {
                lemma_kept_names_wait(s, freed, key);
            }
        },
        AtlasStep::EndFrame => {
            if t.used.dom().contains(key) {
                lemma_kept_names_wait(s, discarded(s), key);
            }
        },
    }
}

proof fn lemma_kept_names_wait(s: AtlasState, freed: Set<Seq<char>>, key: Seq<char>)
    requires
        is_state(s),
        given_back(s, freed).used.dom().contains(key),
    ensures
        given_back(s, freed).discard[s.used[key]] == s.discard[s.used[key]],
{
    let i = s.used[key];
    if s.discard[i] && !given_back(s, freed).discard[i] {
        let other = choose|other: Seq<char>| #[trigger]
            freed.contains(other) && s.used.dom().contains(other) && s.used[other] == i;
        assert(s.used.dom().contains(other) && s.used.dom().contains(key));
    }
}

/// The end of a frame takes the slots of exactly the names for which some request
/// since the one that gave them the slot asked that it be given back. Every other
/// name keeps its slot and finds it ready.
pub proof fn frames_free_the_marked_names(
    slots: nat,
    steps: Seq<AtlasStep>,
    n: nat,
    key: Seq<char>,
    discard: bool,
)
    requires
        n <= steps.len(),
        lived(slots, steps, n).used.dom().contains(key),
    ensures
        ({
            let s = lived(slots, steps, n);
            let t = stepped(s, AtlasStep::EndFrame);
            &&& t.used.dom().contains(key) <==> !marked(slots, steps, n, key)
            &&& !marked(slots, steps, n, key) ==> t.used[key] == s.used[key] && allocation(
                t,
                key,
                discard,
            ).1 == Some((s.used[key], SlotState::Ready))
        }),
{
    waiting_names_were_marked(slots, steps, n, key);
}

/// A slot that was handed out once is never handed out as empty again: whoever
/// gets it next finds another icon in it.
pub proof fn used_slots_are_never_empty_again(
    slots: nat,
    steps: Seq<AtlasStep>,
    n: nat,
    later: nat,
    key: Seq<char>,
    other: Seq<char>,
    discard: bool,
)
    requires
        n <= later <= steps.len(),
        lived(slots, steps, n).used.dom().contains(key),
        !lived(slots, steps, later).used.dom().contains(other),
        allocation(lived(slots, steps, later), other, discard).1 matches Some((i, _)) && i == lived(
            slots,
            steps,
            n,
        ).used[key],
    ensures
        allocation(lived(slots, steps, later), other, discard).1 == Some(
            (lived(slots, steps, n).used[key], SlotState::Stale),
        ),
{
    states_are_kept(slots, steps, n);
    states_are_kept(slots, steps, later);
    lemma_stays_drawn(slots, steps, n, later, lived(slots, steps, n).used[key]);
}

proof fn lemma_stays_drawn(slots: nat, steps: Seq<AtlasStep>, n: nat, later: nat, i: int)
    requires
        n <= later <= steps.len(),
        0 <= i < slots,
        !lived(slots, steps, n).fresh[i],
    ensures
        !lived(slots, steps, later).fresh[i],
    decreases later - n,
{
    if n < later {
        lemma_stays_drawn(slots, steps, n, (later - 1) as nat, i);
        states_are_kept(slots, steps, (later - 1) as nat);
        free_from_is_free(lived(slots, steps, (later - 1) as nat), 0);
    }
}

/// A rectangle of pixels.
#[derive(Clone, Copy, Debug, PartialEq, Eq, Structural)]
pub struct PixelRect {
    pub x: i32,
    pub y: i32,
    pub width: u32,
    pub height: u32,
}

/// The item atlas: the sizes, and the slots.
pub struct GuiItemAtlas {
    pub slot_px: u32,
    pub atlas_px: u32,
    pub allocator: DynamicAtlasAllocator,
}

impl GuiItemAtlas {
    /// The sizes belong together and the slots are those of the sizes.
    pub open spec fn wf(self) -> bool {
        &&& 1 <= self.slot_px <= 0x0800_0000
        &&& self.atlas_px == atlas_side(self.slot_px)
        &&& self.allocator.wf()
        &&& self.allocator.width == self.atlas_px / self.slot_px
        &&& self.allocator.slots@.len() == self.side() * self.side()
    }

    /// How many slots a side holds.
    pub open spec fn side(self) -> int {
        self.atlas_px as int / self.slot_px as int
    }

    /// Whether a slot is one of this atlas.
    pub open spec fn has_slot(self, slot: Slot) -> bool {
        slot.x < self.side() && slot.y < self.side()
    }

    /// Which slots are in use and what is known of them.
    pub open spec fn view(self) -> AtlasState {
        self.allocator@
    }

    /// An empty atlas for slots of a side.
    pub fn new(slot_px: u32) -> (atlas: GuiItemAtlas)
        requires
            1 <= slot_px <= 0x0800_0000,
        ensures
            atlas.wf(),
            atlas.slot_px == slot_px,
            atlas@.used == Map::<Seq<char>, int>::empty(),
            forall|i: int| 0 <= i < atlas@.fresh.len() ==> #[trigger] atlas@.fresh[i],
    {
        let atlas_px: u32 = atlas_px_for_slot(slot_px);
        let slots_per_side: u32 = atlas_px / slot_px;
        assert(slots_per_side <= 4096 && slots_per_side * slots_per_side <= u32::MAX)
            by (nonlinear_arith)
            requires
                slots_per_side == atlas_px / slot_px,
                slot_px >= 1,
                atlas_px <= 4096,
        ;
        GuiItemAtlas {
            slot_px,
            atlas_px,
            allocator: DynamicAtlasAllocator::new(slots_per_side, slots_per_side),
        }
    }

    /// The side of a slot.
    pub fn slot_px(&self) -> (side: u32)
        ensures
            side == self.slot_px,
    {
        self.slot_px
    }

    /// The side of the atlas.
    pub fn atlas_px(&self) -> (side: u32)
        ensures
            side == self.atlas_px,
    {
        self.atlas_px
    }

    /// Hands out the slot of an item, or a free one, if there is any.
    pub fn get_or_allocate(&mut self, item_name: &str, discard_after_frame: bool) -> (found: Option<
        (Slot, SlotState),
    >)
        requires
            old(self).wf(),
        ensures
            final(self).wf(),
            final(self).slot_px == old(self).slot_px,
            final(self)@ == allocation(old(self)@, item_name@, discard_after_frame).0,
            match allocation(old(self)@, item_name@, discard_after_frame).1 {
                Some((i, state)) => found == Some((old(self).allocator.position(i), state))
                    && old(self).has_slot(found->Some_0.0),
                None => found is None,
            },
    {
        proof {
            if self@.used.dom().contains(item_name@) {
                self.position_is_inside(self@.used[item_name@]);
            } else {
                free_from_is_free(self@, 0);
                if free_from(self@, 0) < self@.fresh.len() {
                    self.position_is_inside(free_from(self@, 0));
                }
            }
        }
        self.allocator.get_or_allocate(item_name, discard_after_frame)
    }

    /// Every slot has its column and row within the atlas.
    pub proof fn position_is_inside(self, i: int)
        requires
            self.wf(),
            0 <= i < self.allocator.slots@.len(),
        ensures
            self.has_slot(self.allocator.position(i)),
            self.allocator.position(i).x == i % self.side(),
            self.allocator.position(i).y == i / self.side(),
    {
        let side = self.side();
        let (a, p) = (self.atlas_px as int, self.slot_px as int);
        assert(0 <= side <= 4096) by (nonlinear_arith)
            requires
                side == a / p,
                p >= 1,
                0 <= a <= 4096,
        ;
        assert(side > 0) by (nonlinear_arith)
            requires
                0 <= side,
                0 <= i < side * side,
        ;
        assert(0 <= i % side < side && 0 <= i / side < side) by (nonlinear_arith)
            requires
                0 < side,
                0 <= i < side * side,
        ;
    }

    /// Whether some items and those that have a slot fit together.
    pub fn has_space_for_all(&self, keys: &KeySet) -> (fits: bool)
        requires
            self.wf(),
            keys.wf(),
        ensures
            fits == (self@.used.dom().union(keys@).len() <= self@.fresh.len()),
    {
        self.allocator.has_space_for_all(keys)
    }

    /// Gives back slots that are not wanted, until all wanted items can have one,
    /// and says whether they can. Which slots are given back is left open.
    pub fn reclaim_space_for(&mut self, keys: &KeySet) -> (enough: bool)
        requires
            old(self).wf(),
            keys.wf(),
        ensures
            final(self).wf(),
            final(self).slot_px == old(self).slot_px,
            enough == (missing(old(self)@, keys@).len() <= spare(old(self)@, keys@).len()),
            exists|freed: Set<Seq<char>>| #[trigger]
                may_be_freed(old(self)@, keys@, freed) && final(self)@ == given_back(
                    old(self)@,
                    freed,
                ),
    {
        let ghost before = *self;
        let enough: bool = self.allocator.reclaim_space_for(keys);
        proof {
            let freed = choose|freed: Set<Seq<char>>| #[trigger]
                may_be_freed(before@, keys@, freed) && self@ == given_back(before@, freed);
            assert(self@.fresh == given_back(before@, freed).fresh);
        }
        enough
    }

    /// Ends a frame: the slots that were wanted for it alone are given back.
    pub fn end_frame(&mut self)
        requires
            old(self).wf(),
        ensures
            final(self).wf(),
            final(self).slot_px == old(self).slot_px,
            final(self)@ == given_back(old(self)@, discarded(old(self)@)),
    {
        let ghost before = *self;
        self.allocator.end_frame();
        assert(self@.fresh == before@.fresh);
    }

    /// The upper left pixel of a slot, counted from the top.
    pub fn slot_origin_pixels(&self, slot: &Slot) -> (origin: (u32, u32))
        requires
            self.wf(),
            self.has_slot(*slot),
        ensures
            origin.0 == slot.x * self.slot_px,
            origin.1 == slot.y * self.slot_px,
            origin.0 + self.slot_px <= self.atlas_px,
            origin.1 + self.slot_px <= self.atlas_px,
    {
        proof {
            slot_lies_inside(self.atlas_px as int, self.slot_px as int, slot.x as int);
            slot_lies_inside(self.atlas_px as int, self.slot_px as int, slot.y as int);
        }
        (slot.x * self.slot_px, slot.y * self.slot_px)
    }

    /// The pixels of a slot, counted from the bottom.
    pub fn scissor_rect(&self, slot: &Slot) -> (rect: PixelRect)
        requires
            self.wf(),
            self.has_slot(*slot),
        ensures
            rect.x == slot.x * self.slot_px,
            rect.y == self.atlas_px - (slot.y + 1) * self.slot_px,
            rect.width == self.slot_px,
            rect.height == self.slot_px,
            rect.y >= 0,
    {
        proof {
            slot_lies_inside(self.atlas_px as int, self.slot_px as int, slot.x as int);
            slot_lies_inside(self.atlas_px as int, self.slot_px as int, slot.y as int);
        }
        let below: u32 = (slot.y + 1) * self.slot_px;
        PixelRect {
            x: (slot.x * self.slot_px) as i32,
            y: self.atlas_px as i32 - below as i32,
            width: self.slot_px,
            height: self.slot_px,
        }
    }
}

proof fn slot_lies_inside(atlas: int, slot: int, i: int)
    requires
        1 <= slot,
        0 <= atlas <= 4096,
        0 <= i < atlas / slot,
    ensures
        0 <= i * slot,
        (i + 1) * slot <= atlas,
        (i + 1) * slot == i * slot + slot,
{
    assert(0 <= i * slot && (i + 1) * slot <= atlas && (i + 1) * slot == i * slot + slot)
        by (nonlinear_arith)
        requires
            1 <= slot,
            0 <= atlas,
            0 <= i < atlas / slot,
    ;
}

/// Two slots of an atlas share no pixel.
pub proof fn slots_share_no_pixel(slot_px: u32, a: Slot, b: Slot)
    requires
        slot_px >= 1,
        a != b,
    ensures
        a.x * slot_px + slot_px <= b.x * slot_px || b.x * slot_px + slot_px <= a.x * slot_px
            || a.y * slot_px + slot_px <= b.y * slot_px || b.y * slot_px + slot_px <= a.y * slot_px,
{
    assert forall|u: int, v: int| u < v implies #[trigger] (u * slot_px) + slot_px <= #[trigger] (v
        * slot_px) by {
        assert(u * slot_px + slot_px <= v * slot_px) by (nonlinear_arith)
            requires
                u < v,
                slot_px >= 1,
        ;
    }
}

proof fn lemma_first_free(s: AtlasState, n: int)
    requires
        0 <= n <= s.fresh.len(),
    ensures
        n <= free_from(s, n) <= s.fresh.len(),
        free_from(s, n) < s.fresh.len() ==> is_free(s, free_from(s, n)),
        forall|i: int| n <= i < free_from(s, n) ==> !#[trigger] is_free(s, i),
    decreases s.fresh.len() - n,
{
    if n < s.fresh.len() && !is_free(s, n) {
        lemma_first_free(s, n + 1);
    }
}

/// Whether some name has a slot.
pub open spec fn is_taken(s: AtlasState, i: int) -> bool {
    exists|other: Seq<char>| #[trigger] s.used.dom().contains(other) && s.used[other] == i
}

/// A name without a slot gets the first one that nobody has: nothing is drawn in it
/// yet, or another's icon that is to be replaced. All others keep theirs. Where
/// every slot is taken it gets none, and nothing changes.
pub proof fn a_new_name_gets_the_first_free_slot(s: AtlasState, key: Seq<char>, discard: bool)
    requires
        is_state(s),
        !s.used.dom().contains(key),
    ensures
        ({
            let (after, got) = allocation(s, key, discard);
            match got {
                Some((i, state)) => {
                    &&& 0 <= i < s.fresh.len()
                    &&& forall|other: Seq<char>| #[trigger]
                        s.used.dom().contains(other) ==> s.used[other] != i
                    &&& forall|j: int| 0 <= j < i ==> #[trigger] is_taken(s, j)
                    &&& state == SlotState::Empty <==> s.fresh[i]
                    &&& state != SlotState::Ready
                    &&& after.used.dom().contains(key) && after.used[key] == i
                    &&& forall|other: Seq<char>| #[trigger]
                        s.used.dom().contains(other) ==> after.used.dom().contains(other)
                            && after.used[other] == s.used[other]
                    &&& after.discard[i] == discard
                    &&& !after.fresh[i]
                },
                None => {
                    &&& after == s
                    &&& forall|j: int| 0 <= j < s.fresh.len() ==> #[trigger] is_taken(s, j)
                },
            }
        }),
{
    lemma_first_free(s, 0);
    let i = free_from(s, 0);
    assert forall|j: int| 0 <= j < i implies #[trigger] is_taken(s, j) by {
        assert(!is_free(s, j));
    }
}

} // verus!
