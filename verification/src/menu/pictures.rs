//! The pictures of servers and friends that the menu shows.

use crate::overlay::Favicon;
use crate::server_list::{PingResults, PingState};
use vstd::prelude::*;

verus! {

/// The side of a friend's face.
pub const FACE_SIZE: u32 = 8;

/// A picture, as values.
pub struct PictureView {
    pub key: Seq<char>,
    pub rgba: Seq<u8>,
    pub size: int,
}

/// Pictures as values.
pub open spec fn picture_views(pictures: Seq<Favicon>) -> Seq<PictureView> {
    Seq::new(
        pictures.len(),
        |i: int|
            PictureView {
                key: pictures[i].key@,
                rgba: pictures[i].rgba@,
                size: pictures[i].size as int,
            },
    )
}

/// Whether `side` is the largest number whose square is at most `n`.
pub open spec fn is_floor_sqrt(n: int, side: int) -> bool {
    0 <= side && side * side <= n < (side + 1) * (side + 1)
}

/// The largest number whose square is at most `n`.
pub open spec fn floor_sqrt(n: int) -> int {
    choose|side: int| is_floor_sqrt(n, side)
}

proof fn floor_sqrt_is_unique(n: int, side: int)
    requires
        is_floor_sqrt(n, side),
    ensures
        floor_sqrt(n) == side,
{
    let other = floor_sqrt(n);
    assert(is_floor_sqrt(n, other));
    if other < side {
        assert((other + 1) * (other + 1) <= side * side) by (nonlinear_arith)
            requires
                0 <= other < side,
        ;
    } else if side < other {
        assert((side + 1) * (side + 1) <= other * other) by (nonlinear_arith)
            requires
                0 <= side < other,
        ;
    }
}

fn square(n: u64) -> (sq: u128)
    ensures
        sq == n * n,
{
    assert(n * n <= 0xFFFF_FFFF_FFFF_FFFF * 0xFFFF_FFFF_FFFF_FFFF) by (nonlinear_arith)
        requires
            0 <= n <= 0xFFFF_FFFF_FFFF_FFFF,
    ;
    let m: u128 = n as u128;
    m * m
}

/// The largest number whose square is at most `n`.
fn square_side(n: u64) -> (side: u32)
    ensures
        is_floor_sqrt(n as int, side as int),
        side == floor_sqrt(n as int),
{
    let mut side: u64 = 0;
    assert(0 * 0 <= n as int);
    while side < 0xFFFF_FFFF && square(side + 1) <= n as u128
        invariant
            side <= 0xFFFF_FFFF,
            side * side <= n,
        decreases 0xFFFF_FFFF - side,
    {
        side = side + 1;
    }
    assert(n < (side + 1) * (side + 1)) by {
        if side == 0xFFFF_FFFF {
            assert((side + 1) * (side + 1) == 0x1_0000_0000 * 0x1_0000_0000) by (nonlinear_arith)
                requires
                    side == 0xFFFF_FFFF,
            ;
        }
    }
    proof {
        floor_sqrt_is_unique(n as int, side as int);
    }
    side as u32
}

/// The icon of a server, where it has answered with one.
pub open spec fn icon_of(state: PingState) -> Option<Seq<u8>> {
    match state {
        PingState::Success { favicon_rgba: Some(rgba), .. } => Some(rgba@),
        _ => None,
    }
}

/// The icons of the first `n` servers that have answered with one, each a square
/// of as many whole pixels as there are bytes for.
pub open spec fn icons_of(entries: Seq<(String, PingState)>, n: nat) -> Seq<PictureView>
    decreases n,
{
    if n == 0 {
        Seq::empty()
    } else {
        let before = icons_of(entries, (n - 1) as nat);
        match icon_of(entries[n - 1].1) {
            Some(rgba) => before.push(
                PictureView {
                    key: entries[n - 1].0@,
                    rgba,
                    size: floor_sqrt(rgba.len() as int / 4),
                },
            ),
            None => before,
        }
    }
}

/// How many servers have answered with an icon.
pub fn favicon_count(results: &PingResults) -> (count: usize)
    ensures
        count == icons_of(results.entries@, results.entries@.len()).len(),
{
    let mut count: usize = 0;
    let mut i: usize = 0;
    while i < results.entries.len()
        invariant
            i <= results.entries@.len(),
            count <= i,
            count == icons_of(results.entries@, i as nat).len(),
        decreases results.entries@.len() - i,
    {
        if let PingState::Success { favicon_rgba: Some(_), .. } = &results.entries[i].1 {
            count = count + 1;
        }
        i = i + 1;
    }
    count
}

fn copy_bytes(bytes: &Vec<u8>) -> (copy: Vec<u8>)
    ensures
        copy@ == bytes@,
{
    let mut copy: Vec<u8> = Vec::new();
    let mut i: usize = 0;
    while i < bytes.len()
        invariant
            i <= bytes@.len(),
            copy@ == bytes@.take(i as int),
        decreases bytes@.len() - i,
    {
        copy.push(bytes[i]);
        i = i + 1;
        assert(copy@ =~= bytes@.take(i as int));
    }
    assert(copy@ =~= bytes@);
    copy
}

/// The icons of the servers that have answered with one.
pub fn collect_favicons(results: &PingResults) -> (icons: Vec<Favicon>)
    ensures
        picture_views(icons@) == icons_of(results.entries@, results.entries@.len()),
{
    let mut icons: Vec<Favicon> = Vec::new();
    let mut i: usize = 0;
    assert(picture_views(icons@) =~= icons_of(results.entries@, 0));
    while i < results.entries.len()
        invariant
            i <= results.entries@.len(),
            picture_views(icons@) == icons_of(results.entries@, i as nat),
        decreases results.entries@.len() - i,
    {
        if let PingState::Success { favicon_rgba: Some(rgba), .. } = &results.entries[i].1 {
            let total: usize = rgba.len();
            let icon = Favicon {
                key: results.entries[i].0.clone(),
                rgba: copy_bytes(rgba),
                size: square_side(total as u64 / 4),
            };
            let ghost before = icons@;
            let ghost view = PictureView {
                key: icon.key@,
                rgba: icon.rgba@,
                size: icon.size as int,
            };
            icons.push(icon);
            assert(picture_views(icons@) =~= picture_views(before).push(view));
        }
        i = i + 1;
    }
    icons
}

/// The faces of friends, by the friends' identifiers.
pub fn collect_faces(faces: &Vec<(String, Vec<u8>)>) -> (pictures: Vec<Favicon>)
    ensures
        picture_views(pictures@) == Seq::new(
            faces@.len(),
            |i: int| PictureView { key: faces@[i].0@, rgba: faces@[i].1@, size: 8 },
        ),
{
    let mut pictures: Vec<Favicon> = Vec::new();
    let mut i: usize = 0;
    while i < faces.len()
        invariant
            i <= faces@.len(),
            picture_views(pictures@) == Seq::new(
                i as nat,
                |k: int| PictureView { key: faces@[k].0@, rgba: faces@[k].1@, size: 8 },
            ),
        decreases faces@.len() - i,
    {
        let ghost before = pictures@;
        let picture = Favicon {
            key: faces[i].0.clone(),
            rgba: copy_bytes(&faces[i].1),
            size: FACE_SIZE,
        };
        let ghost view = PictureView {
            key: picture.key@,
            rgba: picture.rgba@,
            size: picture.size as int,
        };
        pictures.push(picture);
        i = i + 1;
        assert(picture_views(pictures@) =~= picture_views(before).push(view));
        assert(picture_views(pictures@) =~= Seq::new(
            i as nat,
            |k: int| PictureView { key: faces@[k].0@, rgba: faces@[k].1@, size: 8 },
        ));
    }
    pictures
}

/// A square icon of whole pixels is shown in its own size.
pub proof fn square_icons_keep_their_size(side: int)
    requires
        0 <= side,
    ensures
        floor_sqrt(side * side * 4 / 4) == side,
{
    assert(side * side < (side + 1) * (side + 1)) by (nonlinear_arith)
        requires
            0 <= side,
    ;
    floor_sqrt_is_unique(side * side, side);
}

/// Every server that answered with an icon has it shown under its own address, and
/// no other server has one.
pub proof fn icons_are_shown_under_their_address(entries: Seq<(String, PingState)>, n: nat, k: int)
    requires
        0 <= k < n <= entries.len(),
    ensures
        ({
            let all = icons_of(entries, n);
            let at = icons_of(entries, k as nat).len();
            match entries[k].1 {
                PingState::Success { favicon_rgba: Some(rgba), .. } => {
                    &&& at < all.len()
                    &&& all[at as int].key == entries[k].0@
                    &&& all[at as int].rgba == rgba@
                },
                _ => icons_of(entries, (k + 1) as nat).len() == at,
            }
        }),
    decreases n,
{
    if k < n - 1 {
        icons_are_shown_under_their_address(entries, (n - 1) as nat, k);
        let at = icons_of(entries, k as nat).len();
        if at < icons_of(entries, (n - 1) as nat).len() {
            assert(icons_of(entries, n)[at as int] == icons_of(entries, (n - 1) as nat)[at as int]);
        }
    }
}

} // verus!
