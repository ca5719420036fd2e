//! Images of four bytes per pixel, and the copies between them.

use vstd::arithmetic::div_mod::lemma_fundamental_div_mod_converse;
use vstd::prelude::*;

verus! {

/// An image: rows from the top, pixels from the left, red, green, blue and
/// alpha of each.
pub struct Image {
    pub width: u32,
    pub height: u32,
    pub rgba: Vec<u8>,
}

impl Image {
    pub open spec fn wf(&self) -> bool {
        self.rgba@.len() == self.width * self.height * 4
    }
}

/// The place of channel `c` of the pixel in column `x` of row `y`, in rows of
/// `stride` pixels.
pub open spec fn byte_at(stride: int, x: int, y: int, c: int) -> int {
    (y * stride + x) * 4 + c
}

/// `dst` with the pixel at byte `di` replaced by the pixel of `src` at byte
/// `si`, where both lie inside.
pub open spec fn with_pixel(dst: Seq<u8>, di: int, src: Seq<u8>, si: int) -> Seq<u8> {
    if si + 4 <= src.len() && di + 4 <= dst.len() {
        Seq::new(
            dst.len(),
            |k: int|
                if di <= k < di + 4 {
                    src[si + (k - di)]
                } else {
                    dst[k]
                },
        )
    } else {
        dst
    }
}

/// Where a block of pixels is copied: from the top left of an image with rows
/// of `src_stride` pixels to column `dx`, row `dy` of one with rows of
/// `dst_stride` pixels, `w` pixels per row.
pub struct Blit {
    pub dst_stride: int,
    pub src_stride: int,
    pub dx: int,
    pub dy: int,
    pub w: int,
}

impl Blit {
    /// The byte of the source that pixel `n` of the block starts at.
    pub open spec fn from(self, n: int) -> int {
        byte_at(self.src_stride, n % self.w, n / self.w, 0)
    }

    /// The byte of the destination that pixel `n` of the block starts at.
    pub open spec fn to(self, n: int) -> int {
        byte_at(self.dst_stride, self.dx + n % self.w, self.dy + n / self.w, 0)
    }

    /// `dst` after the first `n` pixels of the block were copied.
    pub open spec fn copied(self, dst: Seq<u8>, src: Seq<u8>, n: nat) -> Seq<u8>
        decreases n,
    {
        if n == 0 {
            dst
        } else {
            let m = (n - 1) as nat;
            with_pixel(self.copied(dst, src, m), self.to(m as int), src, self.from(m as int))
        }
    }
}

proof fn lemma_pixel_of(w: int, x: int, y: int)
    requires
        0 <= x < w,
        0 <= y,
    ensures
        (y * w + x) / w == y,
        (y * w + x) % w == x,
{
    lemma_fundamental_div_mod_converse(y * w + x, w, y, x);
}

/// Whether the places of the last pixel of a block, in both buffers, can be
/// counted in 32 bits.
pub open spec fn blit_counts(
    dst_stride: u32,
    src_stride: u32,
    dx: u32,
    dy: u32,
    w: u32,
    h: u32,
) -> bool {
    &&& ((h - 1) * src_stride + w - 1) * 4 <= u32::MAX
    &&& dy + h - 1 <= u32::MAX
    &&& ((dy + h - 1) * dst_stride + dx + w - 1) * 4 <= u32::MAX
}

/// Copies the block `w` pixels wide and `h` high at the top left of `src` to
/// column `dx`, row `dy` of `dst`. A pixel that lies outside either buffer is
/// left out.
pub fn blit_image(
    dst: &mut Vec<u8>,
    dst_stride: u32,
    src: &Vec<u8>,
    src_stride: u32,
    dx: u32,
    dy: u32,
    w: u32,
    h: u32,
)
    requires
        w > 0 && h > 0 ==> blit_counts(dst_stride, src_stride, dx, dy, w, h),
    ensures
        final(dst)@ == (Blit {
            dst_stride: dst_stride as int,
            src_stride: src_stride as int,
            dx: dx as int,
            dy: dy as int,
            w: w as int,
        }).copied(old(dst)@, src@, (w * h) as nat),
        final(dst)@.len() == old(dst)@.len(),
{
    let ghost blit = Blit {
        dst_stride: dst_stride as int,
        src_stride: src_stride as int,
        dx: dx as int,
        dy: dy as int,
        w: w as int,
    };
    let ghost before = dst@;
    let mut py: u32 = 0;
    assert(0 * w == 0);
    while py < h
        invariant
            py <= h,
            dst@ == blit.copied(before, src@, (py * w) as nat),
            dst@.len() == before.len(),
            blit == (Blit {
                dst_stride: dst_stride as int,
                src_stride: src_stride as int,
                dx: dx as int,
                dy: dy as int,
                w: w as int,
            }),
            w > 0 && h > 0 ==> blit_counts(dst_stride, src_stride, dx, dy, w, h),
        decreases h - py,
    {
        let mut px: u32 = 0;
        assert(py * w >= 0 && (py + 1) * w == py * w + w) by (nonlinear_arith)
            requires
                py >= 0,
                w >= 0,
        ;
        while px < w
            invariant
                py < h,
                px <= w,
                py * w >= 0,
                dst@ == blit.copied(before, src@, (py * w + px) as nat),
                dst@.len() == before.len(),
                blit == (Blit {
                    dst_stride: dst_stride as int,
                    src_stride: src_stride as int,
                    dx: dx as int,
                    dy: dy as int,
                    w: w as int,
                }),
                w > 0 && h > 0 ==> blit_counts(dst_stride, src_stride, dx, dy, w, h),
            decreases w - px,
        {
            let ghost n = py * w + px;
            proof {
                lemma_pixel_of(w as int, px as int, py as int);
                assert(py * src_stride <= (h - 1) * src_stride) by (nonlinear_arith)
                    requires
                        py <= h - 1,
                        0 <= src_stride,
                ;
                assert((dy + py) * dst_stride <= (dy + h - 1) * dst_stride) by (nonlinear_arith)
                    requires
                        py <= h - 1,
                        0 <= dst_stride,
                ;
                assert(0 <= py * src_stride && 0 <= (dy + py) * dst_stride) by (nonlinear_arith)
                    requires
                        0 <= py,
                        0 <= src_stride,
                        0 <= dst_stride,
                        0 <= dy,
                ;
            }
            let si: usize = ((py * src_stride + px) * 4) as usize;
            let di: usize = (((dy + py) * dst_stride + dx + px) * 4) as usize;
            assert(si == blit.from(n) && di == blit.to(n));
            if si <= src.len() && 4 <= src.len() - si && di <= dst.len() && 4 <= dst.len() - di {
                let ghost was = dst@;
                dst[di] = src[si];
                dst[di + 1] = src[si + 1];
                dst[di + 2] = src[si + 2];
                dst[di + 3] = src[si + 3];
                assert(dst@ =~= with_pixel(was, di as int, src@, si as int));
            }
            px = px + 1;
            assert((n + 1) as nat == (py * w + px) as nat);
        }
        py = py + 1;
    }
    assert(h * w == w * h) by (nonlinear_arith);
}

impl Blit {
    /// Whether byte `k` of the destination belongs to the first `n` pixels of
    /// the block.
    spec fn reaches(self, k: int, n: int) -> bool {
        exists|m: int| 0 <= m < n && #[trigger] self.to(m) <= k < self.to(m) + 4
    }
}

/// Different pixels of a block that fits into its rows go to different places.
proof fn lemma_targets_differ(b: Blit, m: int, n: int)
    requires
        0 <= m < n,
        0 < b.w,
        0 <= b.dx,
        0 <= b.dy,
        b.dx + b.w <= b.dst_stride,
    ensures
        b.to(m) + 4 <= b.to(n),
        0 <= b.to(m),
{
    let (my, mx) = (m / b.w, m % b.w);
    let (ny, nx) = (n / b.w, n % b.w);
    vstd::arithmetic::div_mod::lemma_fundamental_div_mod(m, b.w);
    vstd::arithmetic::div_mod::lemma_fundamental_div_mod(n, b.w);
    vstd::arithmetic::div_mod::lemma_mod_bound(m, b.w);
    vstd::arithmetic::div_mod::lemma_mod_bound(n, b.w);
    assert(my * b.w == b.w * my && ny * b.w == b.w * ny) by (nonlinear_arith);
    assert(0 <= my <= ny) by (nonlinear_arith)
        requires
            m == my * b.w + mx,
            n == ny * b.w + nx,
            0 <= mx < b.w,
            0 <= nx < b.w,
            0 <= m < n,
    ;
    let s = b.dst_stride;
    if my == ny {
        assert((b.dy + my) * s >= 0) by (nonlinear_arith)
            requires
                b.dy >= 0,
                my >= 0,
                s >= 0,
        ;
    } else {
        assert((b.dy + my) * s + s <= (b.dy + ny) * s && (b.dy + my) * s >= 0) by (nonlinear_arith)
            requires
                b.dy >= 0,
                0 <= my,
                my + 1 <= ny,
                s >= 0,
        ;
    }
}

proof fn lemma_copied(b: Blit, dst: Seq<u8>, src: Seq<u8>, n: nat)
    requires
        0 < b.w,
        0 <= b.dx,
        0 <= b.dy,
        b.dx + b.w <= b.dst_stride,
    ensures
        b.copied(dst, src, n).len() == dst.len(),
        forall|m: int, c: int|
            #![trigger b.copied(dst, src, n)[b.to(m) + c]]
            0 <= m < n && 0 <= c < 4 && b.from(m) + 4 <= src.len() && b.to(m) + 4 <= dst.len()
                ==> b.copied(dst, src, n)[b.to(m) + c] == src[b.from(m) + c],
        forall|k: int|
            0 <= k < dst.len() && !b.reaches(k, n as int) ==> #[trigger] b.copied(
                dst,
                src,
                n,
            )[k] == dst[k],
    decreases n,
{
    if n > 0 {
        let last = n - 1;
        lemma_copied(b, dst, src, last as nat);
        let was = b.copied(dst, src, last as nat);
        let now = b.copied(dst, src, n);
        assert(now == with_pixel(was, b.to(last), src, b.from(last)));
        assert(0 <= b.to(last)) by {
            lemma_targets_differ(b, last, last + 1);
        }
        assert forall|m: int, c: int|
            #![trigger now[b.to(m) + c]]
            0 <= m < n && 0 <= c < 4 && b.from(m) + 4 <= src.len() && b.to(m) + 4
                <= dst.len() implies now[b.to(m) + c] == src[b.from(m) + c] by {
            if m < last {
                lemma_targets_differ(b, m, last);
                assert(now[b.to(m) + c] == was[b.to(m) + c]);
            }
        }
        assert forall|k: int|
            0 <= k < dst.len() && !b.reaches(k, n as int) implies #[trigger] now[k] == dst[k] by {
            if b.to(last) <= k < b.to(last) + 4 {
                assert(b.reaches(k, n as int));
            }
            assert(!b.reaches(k, last)) by {
                if b.reaches(k, last) {
                    let m = choose|m: int|
                        0 <= m < last && #[trigger] b.to(m) <= k < b.to(m) + 4;
                    assert(b.reaches(k, n as int));
                }
            }
            assert(now[k] == was[k]);
        }
    }
}

/// Copying pixels does not change the length.
pub proof fn copied_keeps_length(b: Blit, dst: Seq<u8>, src: Seq<u8>, n: nat)
    ensures
        b.copied(dst, src, n).len() == dst.len(),
    decreases n,
{
    if n > 0 {
        copied_keeps_length(b, dst, src, (n - 1) as nat);
    }
}

/// Whether byte `k` of a buffer with rows of `stride` pixels lies in the block
/// at column `dx`, row `dy`, `w` pixels wide and `h` high.
pub open spec fn in_block(stride: int, dx: int, dy: int, w: int, h: int, k: int) -> bool {
    exists|x: int, y: int, c: int|
        0 <= x < w && 0 <= y < h && 0 <= c < 4 && k == #[trigger] byte_at(
            stride,
            dx + x,
            dy + y,
            c,
        )
}

/// A block that fits into its rows is copied pixel by pixel.
pub proof fn blit_copies_the_block(
    b: Blit,
    dst: Seq<u8>,
    src: Seq<u8>,
    h: nat,
    x: int,
    y: int,
    c: int,
)
    requires
        0 <= b.dx,
        0 <= b.dy,
        b.dx + b.w <= b.dst_stride,
        0 <= x < b.w,
        0 <= y < h,
        0 <= c < 4,
        byte_at(b.src_stride, x, y, 3) < src.len(),
        byte_at(b.dst_stride, b.dx + x, b.dy + y, 3) < dst.len(),
    ensures
        b.copied(dst, src, (b.w * h) as nat)[byte_at(b.dst_stride, b.dx + x, b.dy + y, c)]
            == src[byte_at(b.src_stride, x, y, c)],
{
    let n = y * b.w + x;
    lemma_pixel_of(b.w, x, y);
    assert(0 <= n < b.w * h) by (nonlinear_arith)
        requires
            n == y * b.w + x,
            0 <= x < b.w,
            0 <= y,
            y + 1 <= h,
    ;
    lemma_copied(b, dst, src, (b.w * h) as nat);
    assert(b.copied(dst, src, (b.w * h) as nat)[b.to(n) + c] == src[b.from(n) + c]);
}

/// What lies outside the block stays as it was.
pub proof fn blit_keeps_the_rest(b: Blit, dst: Seq<u8>, src: Seq<u8>, h: nat, k: int)
    requires
        0 <= b.dx,
        0 <= b.dy,
        0 <= b.w,
        b.dx + b.w <= b.dst_stride,
        0 <= k < dst.len(),
        !in_block(b.dst_stride, b.dx, b.dy, b.w, h as int, k),
    ensures
        b.copied(dst, src, (b.w * h) as nat).len() == dst.len(),
        b.copied(dst, src, (b.w * h) as nat)[k] == dst[k],
{
    let n = (b.w * h) as nat;
    if b.w == 0 {
        assert(b.w * h == 0) by (nonlinear_arith)
            requires
                b.w == 0,
        ;
    } else {
        lemma_copied(b, dst, src, n);
        assert(0 <= b.w * h) by (nonlinear_arith)
            requires
                0 <= b.w,
                0 <= h,
        ;
        if b.reaches(k, n as int) {
            let m = choose|m: int| 0 <= m < n && #[trigger] b.to(m) <= k < b.to(m) + 4;
            let (x, y, c) = (m % b.w, m / b.w, k - b.to(m));
            vstd::arithmetic::div_mod::lemma_fundamental_div_mod(m, b.w);
            vstd::arithmetic::div_mod::lemma_mod_bound(m, b.w);
            assert(0 <= y < h) by (nonlinear_arith)
                requires
                    m == b.w * y + x,
                    0 <= m < b.w * h,
                    0 <= x < b.w,
                    0 < b.w,
            ;
            assert(k == byte_at(b.dst_stride, b.dx + x, b.dy + y, c));
        }
    }
}

/// A copy of some bytes.
pub fn copy_bytes(bytes: &Vec<u8>) -> (copy: Vec<u8>)
    ensures
        copy@ == bytes@,
{
    let mut copy: Vec<u8> = Vec::with_capacity(bytes.len());
    let mut i: usize = 0;
    while i < bytes.len()
        invariant
            i <= bytes@.len(),
            copy@ == bytes@.subrange(0, i as int),
        decreases bytes@.len() - i,
    {
        copy.push(bytes[i]);
        i = i + 1;
        assert(copy@ =~= bytes@.subrange(0, i as int));
    }
    assert(copy@ =~= bytes@);
    copy
}

/// The smaller of two numbers.
pub open spec fn smaller(a: int, b: int) -> int {
    if a < b {
        a
    } else {
        b
    }
}

/// The top left of `image`, at most `max_w` pixels wide and `max_h` high.
pub fn crop(image: &Image, max_w: u32, max_h: u32) -> (cropped: Image)
    requires
        image.wf(),
    ensures
        cropped.wf(),
        cropped.width == smaller(max_w as int, image.width as int),
        cropped.height == smaller(max_h as int, image.height as int),
        forall|x: int, y: int, c: int|
            #![trigger cropped.rgba@[byte_at(cropped.width as int, x, y, c)]]
            0 <= x < cropped.width && 0 <= y < cropped.height && 0 <= c < 4
                ==> cropped.rgba@[byte_at(cropped.width as int, x, y, c)] == image.rgba@[byte_at(
                image.width as int,
                x,
                y,
                c,
            )],
{
    let width: u32 = if max_w < image.width { max_w } else { image.width };
    let height: u32 = if max_h < image.height { max_h } else { image.height };
    let total: usize = image.rgba.len();
    let mut rgba: Vec<u8> = Vec::new();
    let mut y: u32 = 0;
    let ghost fw = image.width as int;
    assert(0 * width * 4 == 0) by (nonlinear_arith);
    while y < height
        invariant
            image.wf(),
            total == image.rgba@.len(),
            fw == image.width,
            width <= image.width,
            height <= image.height,
            y <= height,
            rgba@.len() == y * width * 4,
            forall|x: int, v: int, c: int|
                #![trigger rgba@[byte_at(width as int, x, v, c)]]
                0 <= x < width && 0 <= v < y && 0 <= c < 4 ==> rgba@[byte_at(
                    width as int,
                    x,
                    v,
                    c,
                )] == image.rgba@[byte_at(fw, x, v, c)],
        decreases height - y,
    {
        let row_bytes: u64 = width as u64 * 4;
        let mut b: u64 = 0;
        let ghost start = rgba@;
        let ghost base = y * fw * 4;
        assert(0 <= base && base + fw * 4 <= image.rgba@.len()) by (nonlinear_arith)
            requires
                base == y * fw * 4,
                fw == image.width,
                y + 1 <= image.height,
                0 <= y,
                0 <= fw,
                image.rgba@.len() == image.width * image.height * 4,
        ;
        assert(rgba@ =~= start + image.rgba@.subrange(base, base + b));
        while b < row_bytes
            invariant
                image.wf(),
                total == image.rgba@.len(),
                y < height,
                width <= image.width,
                height <= image.height,
                fw == image.width,
                row_bytes == width * 4,
                b <= row_bytes,
                base == y * fw * 4,
                0 <= base,
                base + fw * 4 <= image.rgba@.len(),
                start.len() == y * width * 4,
                rgba@ == start + image.rgba@.subrange(base, base + b),
            decreases row_bytes - b,
        {
            assert(y as u64 * image.width as u64 <= u32::MAX as u64 * u32::MAX as u64)
                by (nonlinear_arith)
                requires
                    y <= u32::MAX,
                    image.width <= u32::MAX,
            ;
            let first: u64 = y as u64 * image.width as u64;
            assert(first * 4 == base);
            let from: usize = (first as usize) * 4 + b as usize;
            let value: u8 = image.rgba[from];
            rgba.push(value);
            b = b + 1;
            assert(rgba@ =~= start + image.rgba@.subrange(base, base + b));
        }
        proof {
            assert((y + 1) * width * 4 == y * width * 4 + width * 4) by (nonlinear_arith);
            assert forall|x: int, v: int, c: int|
                #![trigger rgba@[byte_at(width as int, x, v, c)]]
                0 <= x < width && 0 <= v < y + 1 && 0 <= c < 4 implies rgba@[byte_at(
                width as int,
                x,
                v,
                c,
            )] == image.rgba@[byte_at(fw, x, v, c)] by {
                let k = byte_at(width as int, x, v, c);
                if v < y {
                    assert(0 <= k < start.len()) by (nonlinear_arith)
                        requires
                            k == (v * width + x) * 4 + c,
                            0 <= x < width,
                            0 <= v,
                            v + 1 <= y,
                            0 <= c < 4,
                            start.len() == y * width * 4,
                    ;
                    assert(start[k] == image.rgba@[byte_at(fw, x, v, c)]);
                } else {
                    assert(k == start.len() + (x * 4 + c)) by (nonlinear_arith)
                        requires
                            k == (v * width + x) * 4 + c,
                            v == y,
                            start.len() == y * width * 4,
                    ;
                    assert(byte_at(fw, x, v, c) == base + (x * 4 + c)) by (nonlinear_arith)
                        requires
                            v == y,
                            base == y * fw * 4,
                            byte_at(fw, x, v, c) == (v * fw + x) * 4 + c,
                    ;
                }
            }
        }
        y = y + 1;
    }
    assert(height * width * 4 == width * height * 4) by (nonlinear_arith);
    Image { width, height, rgba }
}

/// Whether `out` is the pixel that a hat's pixel laid over a face's pixel gives:
/// the face's where the hat is clear, else the blend of the colours under the
/// larger of the two alphas.
pub open spec fn overlaid<F: Fn(u8, u8, u8) -> u8>(
    blend: F,
    face: Seq<u8>,
    hat: Seq<u8>,
    out: Seq<u8>,
) -> bool {
    if hat[3] == 0 {
        out == face
    } else {
        &&& out.len() == 4
        &&& blend.ensures((hat[0], face[0], hat[3]), out[0])
        &&& blend.ensures((hat[1], face[1], hat[3]), out[1])
        &&& blend.ensures((hat[2], face[2], hat[3]), out[2])
        &&& out[3] == if hat[3] > face[3] { hat[3] } else { face[3] }
    }
}

/// The four bytes of the pixel in column `x` of row `y`.
pub open spec fn pixel(rgba: Seq<u8>, stride: int, x: int, y: int) -> Seq<u8> {
    rgba.subrange(byte_at(stride, x, y, 0), byte_at(stride, x, y, 4))
}

/// Whether `out` is the face of a player skin: eight by eight pixels from
/// column 8, row 8, under the hat from column 40, row 8.
pub open spec fn is_face<F: Fn(u8, u8, u8) -> u8>(
    blend: F,
    rgba: Seq<u8>,
    stride: int,
    out: Seq<u8>,
) -> bool {
    &&& out.len() == 256
    &&& forall|x: int, y: int|
        #![trigger pixel(out, 8, x, y)]
        0 <= x < 8 && 0 <= y < 8 ==> overlaid(
            blend,
            pixel(rgba, stride, 8 + x, 8 + y),
            pixel(rgba, stride, 40 + x, 8 + y),
            pixel(out, 8, x, y),
        )
}

/// The face of a player skin, with the hat laid over it; nothing where the
/// skin is too small to hold them. Of `rgba` only the first 16 rows are read.
/// `blend` mixes a hat's channel over a face's
/// by the hat's alpha.
pub fn extract_face_8x8<F: Fn(u8, u8, u8) -> u8>(
    rgba: &Vec<u8>,
    sw: u32,
    sh: u32,
    blend: F,
) -> (face: Option<Vec<u8>>)
    requires
        sw < 48 || sh < 16 || 64 * sw <= rgba@.len(),
        forall|hat: u8, under: u8, alpha: u8| blend.requires((hat, under, alpha)),
    ensures
        face is Some <==> sw >= 48 && sh >= 16,
        face matches Some(out) ==> is_face(blend, rgba@, sw as int, out@),
{
    if sw < 48 || sh < 16 {
        return None;
    }
    let ghost s = sw as int;
    let total: usize = rgba.len();
    let mut out: Vec<u8> = Vec::new();
    let mut i: usize = 0;
    while i < 64
        invariant
            i <= 64,
            total == rgba@.len(),
            s == sw,
            48 <= s,
            16 * s * 4 <= rgba@.len(),
            out@.len() == i * 4,
            forall|hat: u8, under: u8, alpha: u8| blend.requires((hat, under, alpha)),
            forall|x: int, y: int|
                #![trigger pixel(out@, 8, x, y)]
                0 <= x < 8 && 0 <= y < 8 && y * 8 + x < i ==> overlaid(
                    blend,
                    pixel(rgba@, s, 8 + x, 8 + y),
                    pixel(rgba@, s, 40 + x, 8 + y),
                    pixel(out@, 8, x, y),
                ),
        decreases 64 - i,
    {
        let x: usize = i % 8;
        let y: usize = i / 8;
        let stride: usize = sw as usize;
        assert(0 <= (8 + y) * s && (8 + y) * s + s <= 16 * s) by (nonlinear_arith)
            requires
                0 <= y < 8,
                0 <= s,
        ;
        let row: usize = (8 + y) * stride;
        let under: usize = (row + 8 + x) * 4;
        let over: usize = (row + 40 + x) * 4;
        let ghost was = out@;
        let ghost below = pixel(rgba@, s, 8 + x, 8 + y);
        let ghost above = pixel(rgba@, s, 40 + x, 8 + y);
        assert(below =~= rgba@.subrange(under as int, under + 4));
        assert(above =~= rgba@.subrange(over as int, over + 4));
        let alpha: u8 = rgba[over + 3];
        if alpha > 0 {
            let red: u8 = blend(rgba[over], rgba[under], alpha);
            let green: u8 = blend(rgba[over + 1], rgba[under + 1], alpha);
            let blue: u8 = blend(rgba[over + 2], rgba[under + 2], alpha);
            out.push(red);
            out.push(green);
            out.push(blue);
            let solid: u8 = rgba[under + 3];
            out.push(if alpha > solid { alpha } else { solid });
        } else {
            out.push(rgba[under]);
            out.push(rgba[under + 1]);
            out.push(rgba[under + 2]);
            out.push(rgba[under + 3]);
        }
        proof {
            let new = out@.subrange(was.len() as int, was.len() as int + 4);
            assert(alpha == 0 ==> new =~= below);
            assert(overlaid(blend, below, above, new));
            assert forall|u: int, v: int|
                #![trigger pixel(out@, 8, u, v)]
                0 <= u < 8 && 0 <= v < 8 && v * 8 + u < i + 1 implies overlaid(
                blend,
                pixel(rgba@, s, 8 + u, 8 + v),
                pixel(rgba@, s, 40 + u, 8 + v),
                pixel(out@, 8, u, v),
            ) by {
                if v * 8 + u < i {
                    assert(pixel(out@, 8, u, v) =~= pixel(was, 8, u, v));
                } else {
                    assert(u == x && v == y);
                    assert(pixel(out@, 8, u, v) =~= new);
                }
            }
        }
        i = i + 1;
    }
    Some(out)
}

/// Where the hat is clear the face shows as it is: the eight by eight pixels of the
/// skin that begin eight to the right and eight down. Elsewhere the picture is as
/// opaque as the more opaque of the two.
pub proof fn a_bare_head_shows_the_face<F: Fn(u8, u8, u8) -> u8>(
    blend: F,
    rgba: Seq<u8>,
    stride: int,
    out: Seq<u8>,
    x: int,
    y: int,
)
    requires
        is_face(blend, rgba, stride, out),
        stride >= 48,
        rgba.len() >= 64 * stride,
        0 <= x < 8,
        0 <= y < 8,
    ensures
        ({
            let at = 4 * (8 * y + x);
            let face = 4 * ((8 + y) * stride + 8 + x);
            let hat = 4 * ((8 + y) * stride + 40 + x);
            &&& rgba[hat + 3] == 0 ==> out[at] == rgba[face] && out[at + 1] == rgba[face + 1]
                && out[at + 2] == rgba[face + 2] && out[at + 3] == rgba[face + 3]
            &&& rgba[hat + 3] != 0 ==> out[at + 3] == if rgba[hat + 3] > rgba[face + 3] {
                rgba[hat + 3]
            } else {
                rgba[face + 3]
            }
        }),
{
    let at = 4 * (8 * y + x);
    let face = 4 * ((8 + y) * stride + 8 + x);
    let hat = 4 * ((8 + y) * stride + 40 + x);
    assert((8 + y) * stride + 48 <= 16 * stride) by (nonlinear_arith)
        requires
            stride >= 48,
            0 <= y < 8,
    ;
    assert(0 <= (8 + y) * stride) by (nonlinear_arith)
        requires
            stride >= 48,
            0 <= y,
    ;
    let (p, q, r) = (
        pixel(rgba, stride, 8 + x, 8 + y),
        pixel(rgba, stride, 40 + x, 8 + y),
        pixel(out, 8, x, y),
    );
    assert(overlaid(blend, p, q, r));
    assert(q[3] == rgba[hat + 3] && p[3] == rgba[face + 3] && r[3] == out[at + 3]);
    assert(p[0] == rgba[face] && p[1] == rgba[face + 1] && p[2] == rgba[face + 2]);
    assert(r[0] == out[at] && r[1] == out[at + 1] && r[2] == out[at + 2]);
}

} // verus!
