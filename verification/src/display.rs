//! Display modes and the choice among them.
//!
//! The player wants the smallest mode that still holds a whole frame and
//! whose frame buffer can be written directly.

use vstd::prelude::*;

use crate::{FRAME_HEIGHT, FRAME_WIDTH};

verus! {

/// How the pixels of a mode can be reached.
#[derive(Clone, Copy, Debug, PartialEq, Eq, Structural)]
pub enum PixelFormat {
    /// The frame buffer is memory-mapped and takes 32-bit pixels.
    Supported,
    /// The mode can only be drawn through block transfers.
    BltOnly,
}

/// One mode that the graphics device offers.
///
/// The stride, the number of pixels from one row of the frame buffer to the
/// next, is never smaller than the width.
#[derive(Clone, Copy, Debug, PartialEq, Eq, Structural)]
pub struct DisplayMode {
    width: usize,
    height: usize,
    stride: usize,
    pixel_format: PixelFormat,
}

/// No offered mode is both directly writable and large enough for a frame.
#[derive(Clone, Copy, Debug, PartialEq, Eq, Structural)]
pub struct NoSuitableMode;

impl DisplayMode {
    #[verifier::type_invariant]
    closed spec fn stride_covers_width(self) -> bool {
        self.stride >= self.width
    }

    pub closed spec fn spec_width(&self) -> usize {
        self.width
    }

    pub closed spec fn spec_height(&self) -> usize {
        self.height
    }

    pub closed spec fn spec_stride(&self) -> usize {
        self.stride
    }

    pub closed spec fn spec_pixel_format(&self) -> PixelFormat {
        self.pixel_format
    }

    pub open spec fn spec_resolution(&self) -> (usize, usize) {
        (self.spec_width(), self.spec_height())
    }

    /// Number of visible pixels.
    pub open spec fn spec_area(&self) -> int {
        self.spec_width() * self.spec_height()
    }

    /// The invariant of every mode that executable code holds.
    pub open spec fn wf(&self) -> bool {
        self.spec_stride() >= self.spec_width()
    }

    /// Whether a frame can be shown in this mode: the frame buffer is
    /// directly writable and at least as large as a frame in both directions.
    pub open spec fn spec_is_adequate(&self) -> bool {
        &&& self.spec_pixel_format() != PixelFormat::BltOnly
        &&& self.spec_width() >= FRAME_WIDTH
        &&& self.spec_height() >= FRAME_HEIGHT
    }

    /// Builds a mode, unless the stride is smaller than the width.
    pub fn new(width: usize, height: usize, stride: usize, pixel_format: PixelFormat) -> (mode:
        Option<Self>)
        ensures
            mode is Some <==> stride >= width,
            mode matches Some(m) ==> {
                &&& m.spec_width() == width
                &&& m.spec_height() == height
                &&& m.spec_stride() == stride
                &&& m.spec_pixel_format() == pixel_format
                &&& m.wf()
            },
    {
        if stride >= width {
            Some(DisplayMode { width, height, stride, pixel_format })
        } else {
            None
        }
    }

    #[verifier::when_used_as_spec(spec_width)]
    pub fn width(&self) -> (width: usize)
        ensures
            width == self.spec_width(),
            self.wf(),
    {
        proof {
            use_type_invariant(self);
        }
        self.width
    }

    #[verifier::when_used_as_spec(spec_height)]
    pub fn height(&self) -> (height: usize)
        ensures
            height == self.spec_height(),
    {
        self.height
    }

    #[verifier::when_used_as_spec(spec_resolution)]
    pub fn resolution(&self) -> (resolution: (usize, usize))
        ensures
            resolution == self.spec_resolution(),
    {
        (self.width, self.height)
    }

    #[verifier::when_used_as_spec(spec_stride)]
    pub fn stride(&self) -> (stride: usize)
        ensures
            stride == self.spec_stride(),
            self.wf(),
    {
        proof {
            use_type_invariant(self);
        }
        self.stride
    }

    #[verifier::when_used_as_spec(spec_pixel_format)]
    pub fn pixel_format(&self) -> (pixel_format: PixelFormat)
        ensures
            pixel_format == self.spec_pixel_format(),
    {
        self.pixel_format
    }

    pub fn area(&self) -> (area: u128)
        ensures
            area == self.spec_area(),
    {
        let width = self.width as u128;
        let height = self.height as u128;
        assert(width * height <= 0xffff_ffff_ffff_ffff * 0xffff_ffff_ffff_ffff) by (nonlinear_arith)
            requires
                0 <= width <= 0xffff_ffff_ffff_ffff,
                0 <= height <= 0xffff_ffff_ffff_ffff,
        ;
        width * height
    }

    #[verifier::when_used_as_spec(spec_is_adequate)]
    pub fn is_adequate(&self) -> (adequate: bool)
        ensures
            adequate == self.spec_is_adequate(),
    {
        match self.pixel_format {
            PixelFormat::BltOnly => false,
            PixelFormat::Supported => self.width >= FRAME_WIDTH && self.height >= FRAME_HEIGHT,
        }
    }
}

/// Whether `chosen` is the mode to use among the first `count` of `modes`:
/// it is adequate, no adequate mode among them has fewer pixels, and every
/// adequate mode before it has more.
pub open spec fn is_selected_among(modes: Seq<DisplayMode>, count: int, chosen: int) -> bool {
    &&& 0 <= chosen < count <= modes.len()
    &&& modes[chosen].spec_is_adequate()
    &&& forall|j: int|
        0 <= j < count && (#[trigger] modes[j]).spec_is_adequate() ==> modes[chosen].spec_area()
            <= modes[j].spec_area()
    &&& forall|j: int|
        0 <= j < chosen && (#[trigger] modes[j]).spec_is_adequate() ==> modes[chosen].spec_area()
            < modes[j].spec_area()
}

/// Whether `chosen` is the index of the mode to use among `modes`: the first
/// of the adequate modes with the fewest pixels.
pub open spec fn is_selected(modes: Seq<DisplayMode>, chosen: int) -> bool {
    is_selected_among(modes, modes.len() as int, chosen)
}

/// Whether none of `modes` can show a frame.
pub open spec fn none_adequate(modes: Seq<DisplayMode>) -> bool {
    forall|j: int| 0 <= j < modes.len() ==> !(#[trigger] modes[j]).spec_is_adequate()
}

/// Picks the mode to play in and returns its index in `modes`.
///
/// Modes that are only reachable through block transfers, and modes smaller
/// than a frame, are passed over. Of the others the one with the fewest
/// pixels wins, the earliest of them where several are equally small.
pub fn select_mode(modes: &[DisplayMode]) -> (selection: Result<usize, NoSuitableMode>)
    ensures
        match selection {
            Ok(chosen) => is_selected(modes@, chosen as int),
            Err(_) => none_adequate(modes@),
        },
{
    let mut best: Option<usize> = None;
    let mut best_area: u128 = 0;
    let mut i: usize = 0;
    while i < modes.len()
        invariant
            i <= modes@.len(),
            match best {
                Some(chosen) => is_selected_among(modes@, i as int, chosen as int) && best_area
                    == modes@[chosen as int].spec_area(),
                None => forall|j: int| 0 <= j < i ==> !(#[trigger] modes@[j]).spec_is_adequate(),
            },
        decreases modes@.len() - i,
    {
        let mode = &modes[i];
        if mode.is_adequate() {
            let area = mode.area();
            let better = match best {
                Some(_) => area < best_area,
                None => true,
            };
            if better {
                best = Some(i);
                best_area = area;
            }
        }
        i += 1;
    }
    match best {
        Some(chosen) => Ok(chosen),
        None => Err(NoSuitableMode),
    }
}

/// Selection has no hidden state: whatever index the rule picks for a list of
/// modes, it picks the same one every time.
pub proof fn lemma_selection_is_deterministic(modes: Seq<DisplayMode>, first: int, second: int)
    requires
        is_selected(modes, first),
        is_selected(modes, second),
    ensures
        first == second,
{
    if first < second {
        assert(modes[first].spec_is_adequate());
        assert(modes[second].spec_area() < modes[first].spec_area());
        assert(modes[first].spec_area() <= modes[second].spec_area());
    } else if second < first {
        assert(modes[second].spec_is_adequate());
        assert(modes[first].spec_area() < modes[second].spec_area());
        assert(modes[second].spec_area() <= modes[first].spec_area());
    }
}

/// Success and failure of selection exclude each other: a list with a
/// selected mode has an adequate one, and the selected mode is never one that
/// only takes block transfers.
pub proof fn lemma_selected_is_adequate(modes: Seq<DisplayMode>, chosen: int)
    requires
        is_selected(modes, chosen),
    ensures
        !none_adequate(modes),
        modes[chosen].spec_pixel_format() != PixelFormat::BltOnly,
        modes[chosen].spec_width() >= FRAME_WIDTH,
        modes[chosen].spec_height() >= FRAME_HEIGHT,
{
    assert(modes[chosen].spec_is_adequate());
}

} // verus!
