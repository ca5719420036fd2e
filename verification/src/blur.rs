//! Blurring what is behind a menu: the steps, and what state they leave the images
//! in.

use vstd::prelude::*;

verus! {

/// The size of the images that are blurred: half of the window's, but at least a
/// pixel.
pub open spec fn half(n: u32) -> u32 {
    if n / 2 < 1 {
        1
    } else {
        n / 2
    }
}

fn half_of(n: u32) -> (h: u32)
    ensures
        h == half(n),
        h >= 1,
{
    if n / 2 < 1 {
        1
    } else {
        n / 2
    }
}

/// The size of the images that are blurred.
#[derive(Clone, Copy, Debug, PartialEq, Eq, Structural)]
pub struct BlurSize {
    pub width: u32,
    pub height: u32,
}

impl BlurSize {
    /// The size for a window.
    pub open spec fn of(width: u32, height: u32) -> BlurSize {
        BlurSize { width: half(width), height: half(height) }
    }

    /// The size for a window.
    pub fn new(width: u32, height: u32) -> (size: BlurSize)
        ensures
            size == BlurSize::of(width, height),
            size.width >= 1 && size.height >= 1,
    {
        BlurSize { width: half_of(width), height: half_of(height) }
    }

    /// Follows a new window size, and says whether the images are made anew.
    pub fn resize(&mut self, width: u32, height: u32) -> (changed: bool)
        ensures
            *final(self) == BlurSize::of(width, height),
            changed == (*old(self) != BlurSize::of(width, height)),
    {
        let (w, h): (u32, u32) = (half_of(width), half_of(height));
        if w == self.width && h == self.height {
            return false;
        }
        self.width = w;
        self.height = h;
        true
    }
}

/// An image that takes part.
#[derive(Clone, Copy, Debug, PartialEq, Eq, Structural)]
pub enum BlurImage {
    /// What is blurred.
    Source,
    /// The image that holds the result.
    First,
    Second,
}

/// What an image is laid out for.
#[derive(Clone, Copy, Debug, PartialEq, Eq, Structural)]
pub enum ImageLayout {
    Undefined,
    ColorAttachment,
    TransferSrc,
    TransferDst,
    ShaderRead,
}

/// The direction of a blur.
#[derive(Clone, Copy, Debug, PartialEq, Eq, Structural)]
pub enum BlurAxis {
    Horizontal,
    Vertical,
}

/// A step of the blur.
#[derive(Clone, Copy, Debug, PartialEq, Eq, Structural)]
pub enum BlurStep {
    /// Lays an image out anew. From `Undefined` what it held is lost.
    Barrier { image: BlurImage, from: ImageLayout, to: ImageLayout },
    /// Copies one image into another, scaling it.
    Blit { from: BlurImage, to: BlurImage },
    /// Draws one image into another, blurred along an axis. What is drawn into
    /// is laid out for reading afterwards.
    Draw { read: BlurImage, write: BlurImage, axis: BlurAxis },
}

/// The steps before the blur: the source is copied into the first image and given
/// back.
pub open spec fn copy_steps() -> Seq<BlurStep> {
    seq![
        BlurStep::Barrier {
            image: BlurImage::Source,
            from: ImageLayout::ColorAttachment,
            to: ImageLayout::TransferSrc,
        },
        BlurStep::Barrier {
            image: BlurImage::First,
            from: ImageLayout::Undefined,
            to: ImageLayout::TransferDst,
        },
        BlurStep::Barrier {
            image: BlurImage::Second,
            from: ImageLayout::Undefined,
            to: ImageLayout::ShaderRead,
        },
        BlurStep::Blit { from: BlurImage::Source, to: BlurImage::First },
        BlurStep::Barrier {
            image: BlurImage::First,
            from: ImageLayout::TransferDst,
            to: ImageLayout::ShaderRead,
        },
        BlurStep::Barrier {
            image: BlurImage::Source,
            from: ImageLayout::TransferSrc,
            to: ImageLayout::ColorAttachment,
        },
    ]
}

/// All steps: after the copy, the first image is blurred into the second along one
/// axis and back along the other, a number of times.
pub open spec fn blur_steps(iterations: nat) -> Seq<BlurStep>
    decreases iterations,
{
    if iterations == 0 {
        copy_steps()
    } else {
        blur_steps((iterations - 1) as nat).push(
            BlurStep::Draw {
                read: BlurImage::First,
                write: BlurImage::Second,
                axis: BlurAxis::Horizontal,
            },
        ).push(
            BlurStep::Draw {
                read: BlurImage::Second,
                write: BlurImage::First,
                axis: BlurAxis::Vertical,
            },
        )
    }
}

/// All steps of a blur.
pub fn execute(iterations: u32) -> (steps: Vec<BlurStep>)
    ensures
        steps@ == blur_steps(iterations as nat),
{
    let mut steps: Vec<BlurStep> = Vec::new();
    steps.push(
        BlurStep::Barrier {
            image: BlurImage::Source,
            from: ImageLayout::ColorAttachment,
            to: ImageLayout::TransferSrc,
        },
    );
    steps.push(
        BlurStep::Barrier {
            image: BlurImage::First,
            from: ImageLayout::Undefined,
            to: ImageLayout::TransferDst,
        },
    );
    steps.push(
        BlurStep::Barrier {
            image: BlurImage::Second,
            from: ImageLayout::Undefined,
            to: ImageLayout::ShaderRead,
        },
    );
    steps.push(BlurStep::Blit { from: BlurImage::Source, to: BlurImage::First });
    steps.push(
        BlurStep::Barrier {
            image: BlurImage::First,
            from: ImageLayout::TransferDst,
            to: ImageLayout::ShaderRead,
        },
    );
    steps.push(
        BlurStep::Barrier {
            image: BlurImage::Source,
            from: ImageLayout::TransferSrc,
            to: ImageLayout::ColorAttachment,
        },
    );
    assert(steps@ =~= copy_steps());
    let mut i: u32 = 0;
    while i < iterations
        invariant
            i <= iterations,
            steps@ == blur_steps(i as nat),
        decreases iterations - i,
    {
        steps.push(
            BlurStep::Draw {
                read: BlurImage::First,
                write: BlurImage::Second,
                axis: BlurAxis::Horizontal,
            },
        );
        steps.push(
            BlurStep::Draw {
                read: BlurImage::Second,
                write: BlurImage::First,
                axis: BlurAxis::Vertical,
            },
        );
        i = i + 1;
    }
    steps
}

/// How the three images are laid out.
pub struct Layouts {
    pub source: ImageLayout,
    pub first: ImageLayout,
    pub second: ImageLayout,
}

/// How an image is laid out.
pub open spec fn layout_of(l: Layouts, image: BlurImage) -> ImageLayout {
    match image {
        BlurImage::Source => l.source,
        BlurImage::First => l.first,
        BlurImage::Second => l.second,
    }
}

/// One image laid out anew.
pub open spec fn laid_out(l: Layouts, image: BlurImage, to: ImageLayout) -> Layouts {
    match image {
        BlurImage::Source => Layouts { source: to, ..l },
        BlurImage::First => Layouts { first: to, ..l },
        BlurImage::Second => Layouts { second: to, ..l },
    }
}

/// How the images are laid out after a step, where the step is in order: a barrier
/// starts from the layout that the image has, or from nothing; a copy reads and
/// writes images that are laid out for it; a drawing reads an image that is laid
/// out for reading, and another than it writes.
pub open spec fn after_step(l: Layouts, step: BlurStep) -> Option<Layouts> {
    match step {
        BlurStep::Barrier { image, from, to } => if from == ImageLayout::Undefined || layout_of(
            l,
            image,
        ) == from {
            Some(laid_out(l, image, to))
        } else {
            None
        },
        BlurStep::Blit { from, to } => if layout_of(l, from) == ImageLayout::TransferSrc
            && layout_of(l, to) == ImageLayout::TransferDst {
            Some(l)
        } else {
            None
        },
        BlurStep::Draw { read, write, .. } => if layout_of(l, read) == ImageLayout::ShaderRead
            && read != write {
            Some(laid_out(l, write, ImageLayout::ShaderRead))
        } else {
            None
        },
    }
}

/// How the images are laid out after some steps, where all are in order.
pub open spec fn after_steps(l: Layouts, steps: Seq<BlurStep>) -> Option<Layouts>
    decreases steps.len(),
{
    if steps.len() == 0 {
        Some(l)
    } else {
        match after_steps(l, steps.drop_last()) {
            Some(m) => after_step(m, steps.last()),
            None => None,
        }
    }
}

proof fn after_push(l: Layouts, steps: Seq<BlurStep>, step: BlurStep)
    ensures
        after_steps(l, steps.push(step)) == match after_steps(l, steps) {
            Some(m) => after_step(m, step),
            None => None,
        },
{
    assert(steps.push(step).drop_last() =~= steps);
}

/// The steps of a blur are in order, whatever the two images held before: the
/// source is given back as it was taken, and the result can be read.
pub proof fn blur_is_in_order(first: ImageLayout, second: ImageLayout, iterations: nat)
    ensures
        after_steps(
            Layouts { source: ImageLayout::ColorAttachment, first, second },
            blur_steps(iterations),
        ) == Some(
            Layouts {
                source: ImageLayout::ColorAttachment,
                first: ImageLayout::ShaderRead,
                second: ImageLayout::ShaderRead,
            },
        ),
    decreases iterations,
{
    let start = Layouts { source: ImageLayout::ColorAttachment, first, second };
    if iterations == 0 {
        let c = copy_steps();
        let none = Seq::<BlurStep>::empty();
        after_push(start, none, c[0]);
        after_push(start, none.push(c[0]), c[1]);
        after_push(start, none.push(c[0]).push(c[1]), c[2]);
        after_push(start, none.push(c[0]).push(c[1]).push(c[2]), c[3]);
        after_push(start, none.push(c[0]).push(c[1]).push(c[2]).push(c[3]), c[4]);
        after_push(start, none.push(c[0]).push(c[1]).push(c[2]).push(c[3]).push(c[4]), c[5]);
        assert(c =~= none.push(c[0]).push(c[1]).push(c[2]).push(c[3]).push(c[4]).push(c[5]));
    } else {
        blur_is_in_order(first, second, (iterations - 1) as nat);
        let before = blur_steps((iterations - 1) as nat);
        let across = BlurStep::Draw {
            read: BlurImage::First,
            write: BlurImage::Second,
            axis: BlurAxis::Horizontal,
        };
        let down = BlurStep::Draw {
            read: BlurImage::Second,
            write: BlurImage::First,
            axis: BlurAxis::Vertical,
        };
        after_push(start, before, across);
        after_push(start, before.push(across), down);
    }
}

} // verus!
