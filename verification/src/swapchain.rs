//! What the images of a window are made like.

use vstd::prelude::*;

verus! {

/// The format that is wanted: blue, green, red and alpha, eight bits each, in the
/// sRGB encoding.
pub const B8G8R8A8_SRGB: u32 = 50;

/// The colour space that is wanted.
pub const SRGB_NONLINEAR: u32 = 0;

/// A format that a surface offers, by its numbers.
#[derive(Clone, Copy, Debug, PartialEq, Eq, Structural)]
pub struct SurfaceFormat {
    pub format: u32,
    pub color_space: u32,
}

/// Whether a format is the one that is wanted.
pub open spec fn is_wanted(f: SurfaceFormat) -> bool {
    f.format == B8G8R8A8_SRGB && f.color_space == SRGB_NONLINEAR
}

/// The format of the images: the one that is wanted, or else the first.
pub fn choose_format(formats: &Vec<SurfaceFormat>) -> (format: SurfaceFormat)
    requires
        formats@.len() > 0,
    ensures
        formats@.contains(format),
        is_wanted(format) || (format == formats@[0] && forall|i: int|
            0 <= i < formats@.len() ==> !is_wanted(#[trigger] formats@[i])),
{
    let mut i: usize = 0;
    while i < formats.len()
        invariant
            i <= formats@.len(),
            forall|k: int| 0 <= k < i ==> !is_wanted(#[trigger] formats@[k]),
        decreases formats@.len() - i,
    {
        let f: SurfaceFormat = formats[i];
        if f.format == B8G8R8A8_SRGB && f.color_space == SRGB_NONLINEAR {
            return f;
        }
        i = i + 1;
    }
    formats[0]
}

/// How images reach the display.
#[derive(Clone, Copy, Debug, PartialEq, Eq, Structural)]
pub enum PresentMode {
    Immediate,
    Mailbox,
    Fifo,
    FifoRelaxed,
}

/// How images reach the display: in step with it, or else by the first of two
/// ways that the surface offers, which of them first depending on the system.
pub open spec fn present_mode(vsync: bool, macos: bool, modes: Seq<PresentMode>) -> PresentMode {
    let (first, second) = if macos {
        (PresentMode::Immediate, PresentMode::Mailbox)
    } else {
        (PresentMode::Mailbox, PresentMode::Immediate)
    };
    if vsync {
        PresentMode::Fifo
    } else if modes.contains(first) {
        first
    } else if modes.contains(second) {
        second
    } else {
        PresentMode::Fifo
    }
}

fn offers(modes: &Vec<PresentMode>, mode: PresentMode) -> (found: bool)
    ensures
        found == modes@.contains(mode),
{
    let mut i: usize = 0;
    while i < modes.len()
        invariant
            i <= modes@.len(),
            forall|k: int| 0 <= k < i ==> #[trigger] modes@[k] != mode,
        decreases modes@.len() - i,
    {
        if modes[i] == mode {
            return true;
        }
        i = i + 1;
    }
    false
}

/// How images reach the display.
pub fn choose_present_mode(vsync: bool, macos: bool, modes: &Vec<PresentMode>) -> (mode:
    PresentMode)
    ensures
        mode == present_mode(vsync, macos, modes@),
{
    if vsync {
        return PresentMode::Fifo;
    }
    let (first, second) = if macos {
        (PresentMode::Immediate, PresentMode::Mailbox)
    } else {
        (PresentMode::Mailbox, PresentMode::Immediate)
    };
    if offers(modes, first) {
        first
    } else if offers(modes, second) {
        second
    } else {
        PresentMode::Fifo
    }
}

/// A width and a height.
#[derive(Clone, Copy, Debug, PartialEq, Eq, Structural)]
pub struct Extent {
    pub width: u32,
    pub height: u32,
}

/// What a surface allows.
#[derive(Clone, Copy, Debug, PartialEq, Eq, Structural)]
pub struct SurfaceCaps {
    pub current_extent: Extent,
    pub min_extent: Extent,
    pub max_extent: Extent,
    pub min_image_count: u32,
    /// 0 for no limit.
    pub max_image_count: u32,
}

/// A number, or the nearest one within limits.
pub open spec fn within(n: u32, low: u32, high: u32) -> u32 {
    if n < low {
        low
    } else if n > high {
        high
    } else {
        n
    }
}

/// A number, but at least 1.
pub open spec fn at_least_one(n: u32) -> u32 {
    if n < 1 {
        1
    } else {
        n
    }
}

/// The size of the images: the surface's own where it has one, else the window's
/// within the surface's limits; never empty.
pub open spec fn image_extent(caps: SurfaceCaps, width: u32, height: u32) -> Extent {
    if caps.current_extent.width != u32::MAX {
        Extent {
            width: at_least_one(caps.current_extent.width),
            height: at_least_one(caps.current_extent.height),
        }
    } else {
        Extent {
            width: at_least_one(within(width, caps.min_extent.width, caps.max_extent.width)),
            height: at_least_one(within(height, caps.min_extent.height, caps.max_extent.height)),
        }
    }
}

fn clamp(n: u32, low: u32, high: u32) -> (clamped: u32)
    ensures
        clamped == within(n, low, high),
{
    if n < low {
        low
    } else if n > high {
        high
    } else {
        n
    }
}

/// The size of the images.
pub fn choose_extent(caps: &SurfaceCaps, width: u32, height: u32) -> (extent: Extent)
    requires
        caps.current_extent.width == u32::MAX ==> {
            &&& caps.min_extent.width <= caps.max_extent.width
            &&& caps.min_extent.height <= caps.max_extent.height
        },
    ensures
        extent == image_extent(*caps, width, height),
        extent.width >= 1 && extent.height >= 1,
{
    let extent = if caps.current_extent.width != u32::MAX {
        caps.current_extent
    } else {
        Extent {
            width: clamp(width, caps.min_extent.width, caps.max_extent.width),
            height: clamp(height, caps.min_extent.height, caps.max_extent.height),
        }
    };
    Extent {
        width: if extent.width < 1 { 1 } else { extent.width },
        height: if extent.height < 1 { 1 } else { extent.height },
    }
}

/// How many images there are: one more than the surface needs, within its limit.
pub fn choose_image_count(caps: &SurfaceCaps) -> (count: u32)
    requires
        caps.min_image_count < u32::MAX,
    ensures
        count == if caps.max_image_count == 0 || caps.min_image_count < caps.max_image_count {
            (caps.min_image_count + 1) as u32
        } else {
            caps.max_image_count
        },
{
    let wanted: u32 = caps.min_image_count + 1;
    let limit: u32 = if caps.max_image_count == 0 { u32::MAX } else { caps.max_image_count };
    if wanted < limit {
        wanted
    } else {
        limit
    }
}

/// The queue families that share the images: both where they differ, else none.
pub fn sharing_families(graphics: u32, present: u32) -> (families: Vec<u32>)
    ensures
        families@ == if graphics != present {
            seq![graphics, present]
        } else {
            Seq::<u32>::empty()
        },
{
    let mut families: Vec<u32> = Vec::new();
    if graphics != present {
        families.push(graphics);
        families.push(present);
    }
    assert(families@ =~= if graphics != present {
        seq![graphics, present]
    } else {
        Seq::<u32>::empty()
    });
    families
}

/// What is chosen is what the surface allows: an offered way to the display or the
/// one that is always there, and a size within the limits where the surface leaves
/// it open.
pub proof fn choices_are_allowed(
    vsync: bool,
    macos: bool,
    modes: Seq<PresentMode>,
    caps: SurfaceCaps,
    width: u32,
    height: u32,
)
    requires
        1 <= caps.min_extent.width <= caps.max_extent.width,
        1 <= caps.min_extent.height <= caps.max_extent.height,
        caps.current_extent.width == u32::MAX,
    ensures
        present_mode(vsync, macos, modes) == PresentMode::Fifo || modes.contains(
            present_mode(vsync, macos, modes),
        ),
        ({
            let e = image_extent(caps, width, height);
            &&& caps.min_extent.width <= e.width <= caps.max_extent.width
            &&& caps.min_extent.height <= e.height <= caps.max_extent.height
        }),
{
}

/// A pass over the images.
#[derive(Clone, Copy, Debug, PartialEq, Eq, Structural)]
pub enum PassKind {
    /// The whole frame at once.
    Frame,
    /// The scene, before it is blurred.
    Scene,
    /// What comes over the blurred scene.
    Over,
}

/// What an image is laid out for.
#[derive(Clone, Copy, Debug, PartialEq, Eq, Structural)]
pub enum ColorLayout {
    Undefined,
    Attachment,
    Present,
}

/// How a pass treats the image: whether it starts from what is there, what it
/// expects the image to be laid out for and what it leaves it laid out for, and
/// whether its depths are kept.
#[derive(Clone, Copy, Debug, PartialEq, Eq, Structural)]
pub struct RenderPass {
    pub keeps_color: bool,
    pub initial: ColorLayout,
    pub last: ColorLayout,
    pub stores_depth: bool,
}

/// How a pass treats the image. Only the pass over the whole frame keeps its
/// depths, which are read after it.
pub open spec fn pass_of(kind: PassKind) -> RenderPass {
    match kind {
        PassKind::Frame => RenderPass {
            keeps_color: false,
            initial: ColorLayout::Undefined,
            last: ColorLayout::Present,
            stores_depth: true,
        },
        PassKind::Scene => RenderPass {
            keeps_color: false,
            initial: ColorLayout::Undefined,
            last: ColorLayout::Attachment,
            stores_depth: false,
        },
        PassKind::Over => RenderPass {
            keeps_color: true,
            initial: ColorLayout::Attachment,
            last: ColorLayout::Present,
            stores_depth: false,
        },
    }
}

/// How a pass treats the image.
pub fn render_pass(kind: PassKind) -> (pass: RenderPass)
    ensures
        pass == pass_of(kind),
{
    RenderPass {
        keeps_color: kind == PassKind::Over,
        initial: if kind == PassKind::Over {
            ColorLayout::Attachment
        } else {
            ColorLayout::Undefined
        },
        last: if kind == PassKind::Scene {
            ColorLayout::Attachment
        } else {
            ColorLayout::Present
        },
        stores_depth: kind == PassKind::Frame,
    }
}

/// Either way a frame ends ready for the display, what comes over the scene finds
/// it as the scene left it, and no pass keeps what is undefined.
pub proof fn passes_join()
    ensures
        pass_of(PassKind::Frame).last == ColorLayout::Present,
        pass_of(PassKind::Over).last == ColorLayout::Present,
        pass_of(PassKind::Scene).last == pass_of(PassKind::Over).initial,
        forall|kind: PassKind|
            (#[trigger] pass_of(kind)).keeps_color ==> pass_of(kind).initial
                != ColorLayout::Undefined,
{
}

/// With synchronisation the pictures wait for the screen. Without it they do not,
/// if the surface offers a mode that does not wait; of two such modes one is
/// preferred, on one system the one and elsewhere the other.
pub proof fn pictures_wait_only_where_they_must(vsync: bool, macos: bool, modes: Seq<PresentMode>)
    ensures
        ({
            let mode = present_mode(vsync, macos, modes);
            let at_once = modes.contains(PresentMode::Immediate);
            let newest = modes.contains(PresentMode::Mailbox);
            &&& mode == PresentMode::Fifo <==> vsync || (!at_once && !newest)
            &&& !vsync && macos && at_once ==> mode == PresentMode::Immediate
            &&& !vsync && !macos && newest ==> mode == PresentMode::Mailbox
            &&& !vsync && at_once && !newest ==> mode == PresentMode::Immediate
            &&& !vsync && newest && !at_once ==> mode == PresentMode::Mailbox
        }),
{
}

/// A surface that has a size of its own is drawn in that size, whatever was asked
/// for; elsewhere what was asked for is used where it is allowed.
pub proof fn pictures_have_the_size_of_the_surface(caps: SurfaceCaps, width: u32, height: u32)
    requires
        width >= 1,
        height >= 1,
    ensures
        ({
            let e = image_extent(caps, width, height);
            let own = caps.current_extent;
            &&& own.width != u32::MAX && own.width >= 1 && own.height >= 1 ==> e == own
            &&& own.width == u32::MAX && caps.min_extent.width <= width <= caps.max_extent.width
                ==> e.width == width
            &&& own.width == u32::MAX && caps.min_extent.height <= height <= caps.max_extent.height
                ==> e.height == height
        }),
{
}

} // verus!
