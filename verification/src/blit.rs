//! Copying a grayscale frame into a 32-bit frame buffer.
//!
//! A frame is placed in the middle of the mode. Every source byte becomes one
//! destination pixel of four equal bytes. From the end of one frame row to the
//! start of the next the destination advances by the unused rest of the row,
//! `stride - width` pixels, plus twice the left margin.

use vstd::arithmetic::div_mod::{
    lemma_div_pos_is_pos,
    lemma_fundamental_div_mod,
    lemma_fundamental_div_mod_converse,
    lemma_mod_pos_bound,
};
use vstd::prelude::*;

use crate::display::DisplayMode;
use crate::{BYTES_PER_PIXEL, FRAME_HEIGHT, FRAME_SIZE, FRAME_WIDTH};

verus! {

/// Whether the mode is at least as large as a frame in both directions.
pub open spec fn spec_holds_frame(mode: DisplayMode) -> bool {
    mode.spec_width() >= FRAME_WIDTH && mode.spec_height() >= FRAME_HEIGHT
}

/// Pixels left of the frame.
pub open spec fn spec_x_offset(mode: DisplayMode) -> int {
    (mode.spec_width() - FRAME_WIDTH) / 2
}

/// Rows above the frame.
pub open spec fn spec_y_offset(mode: DisplayMode) -> int {
    (mode.spec_height() - FRAME_HEIGHT) / 2
}

/// Pixels between the end of one frame row and the start of the next.
pub open spec fn spec_row_skip(mode: DisplayMode) -> int {
    (mode.spec_stride() - mode.spec_width()) + spec_x_offset(mode) * 2
}

/// Pixels from the start of one frame row to the start of the next.
pub open spec fn spec_row_pitch(mode: DisplayMode) -> int {
    FRAME_WIDTH + spec_row_skip(mode)
}

/// Index of the pixel that takes the top left corner of the frame.
pub open spec fn spec_origin(mode: DisplayMode) -> int {
    spec_x_offset(mode) + spec_y_offset(mode) * mode.spec_stride()
}

/// Index of the destination pixel of the source pixel in column `x` of row
/// `y`.
pub open spec fn spec_target_pixel(mode: DisplayMode, x: int, y: int) -> int {
    spec_origin(mode) + y * spec_row_pitch(mode) + x
}

/// Index of byte `channel` of that destination pixel.
pub open spec fn spec_target_byte(mode: DisplayMode, x: int, y: int, channel: int) -> int {
    spec_target_pixel(mode, x, y) * BYTES_PER_PIXEL + channel
}

/// Bytes of frame buffer that a blit reaches: up to the end of the last
/// destination pixel.
pub open spec fn spec_required_len(mode: DisplayMode) -> int {
    (spec_target_pixel(mode, FRAME_WIDTH - 1, FRAME_HEIGHT - 1) + 1) * BYTES_PER_PIXEL
}

/// Whether a frame can be blitted in this mode into a frame buffer of
/// `surface_len` bytes.
pub open spec fn spec_can_blit(mode: DisplayMode, surface_len: int) -> bool {
    &&& mode.wf()
    &&& spec_holds_frame(mode)
    &&& spec_required_len(mode) <= surface_len
}

/// The source byte that ends up in byte `byte` of the frame buffer, if any:
/// its index in the frame.
pub open spec fn spec_source_of(mode: DisplayMode, byte: int) -> Option<int> {
    let offset = byte / (BYTES_PER_PIXEL as int) - spec_origin(mode);
    let row = offset / spec_row_pitch(mode);
    let column = offset % spec_row_pitch(mode);
    if offset >= 0 && row < FRAME_HEIGHT && column < FRAME_WIDTH {
        Some(row * FRAME_WIDTH + column)
    } else {
        None
    }
}

/// The frame buffer after a whole frame has been copied into it: a byte with a
/// source holds that source byte, every other byte is as before.
pub open spec fn spec_blitted(before: Seq<u8>, mode: DisplayMode, frame: Seq<u8>) -> Seq<u8> {
    Seq::new(
        before.len(),
        |byte: int|
            match spec_source_of(mode, byte) {
                Some(source) => frame[source],
                None => before[byte],
            },
    )
}

/// The frame buffer after the first `done` bytes of the frame have been
/// copied.
spec fn partly_blitted(before: Seq<u8>, mode: DisplayMode, frame: Seq<u8>, done: int) -> Seq<u8> {
    Seq::new(
        before.len(),
        |byte: int|
            match spec_source_of(mode, byte) {
                Some(source) if source < done => frame[source],
                _ => before[byte],
            },
    )
}

/// Rows of the frame do not overlap in the frame buffer, and the last
/// destination pixel is the highest one.
pub proof fn lemma_target_in_bounds(mode: DisplayMode, x: int, y: int, channel: int)
    requires
        mode.wf(),
        spec_holds_frame(mode),
        0 <= x < FRAME_WIDTH,
        0 <= y < FRAME_HEIGHT,
        0 <= channel < BYTES_PER_PIXEL,
    ensures
        spec_row_pitch(mode) >= FRAME_WIDTH,
        0 <= spec_origin(mode) <= spec_target_pixel(mode, x, y),
        0 <= spec_target_byte(mode, x, y, channel) < spec_required_len(mode),
        0 <= y * spec_row_pitch(mode) <= (FRAME_HEIGHT - 1) * spec_row_pitch(mode),
{
    let pitch = spec_row_pitch(mode);
    let y_offset = spec_y_offset(mode);
    let stride = mode.spec_stride() as int;
    assert(0 <= y_offset * stride) by (nonlinear_arith)
        requires
            0 <= y_offset,
            0 <= stride,
    ;
    assert(0 <= y * pitch <= (FRAME_HEIGHT - 1) * pitch) by (nonlinear_arith)
        requires
            0 <= y <= FRAME_HEIGHT - 1,
            0 <= pitch,
    ;
}

/// A frame buffer that covers every row of the mode is large enough.
pub proof fn lemma_mode_covers_blit(mode: DisplayMode)
    requires
        mode.wf(),
        spec_holds_frame(mode),
    ensures
        spec_row_pitch(mode) <= mode.spec_stride(),
        spec_x_offset(mode) + FRAME_WIDTH <= mode.spec_width(),
        spec_y_offset(mode) + FRAME_HEIGHT <= mode.spec_height(),
        spec_required_len(mode) <= mode.spec_stride() * mode.spec_height() * BYTES_PER_PIXEL,
{
    let pitch = spec_row_pitch(mode);
    let y_offset = spec_y_offset(mode);
    let x_offset = spec_x_offset(mode);
    let stride = mode.spec_stride() as int;
    let height = mode.spec_height() as int;
    let last = FRAME_HEIGHT - 1;
    assert(last * pitch <= last * stride) by (nonlinear_arith)
        requires
            0 <= last,
            pitch <= stride,
    ;
    assert(y_offset * stride + last * stride == (y_offset + last) * stride) by (nonlinear_arith);
    assert((y_offset + last) * stride <= (height - 1) * stride) by (nonlinear_arith)
        requires
            y_offset + last <= height - 1,
            0 <= stride,
    ;
    assert((height - 1) * stride + stride == stride * height) by (nonlinear_arith);
}

/// Where the left and right margins are equal, the frame lies in the middle
/// of the mode: the source pixel in column `x` of row `y` goes to column
/// `x_offset + x` of row `y_offset + y`.
pub proof fn lemma_even_margin_is_centered(mode: DisplayMode, x: int, y: int)
    requires
        mode.wf(),
        spec_holds_frame(mode),
        (mode.spec_width() - FRAME_WIDTH) % 2 == 0,
    ensures
        spec_row_pitch(mode) == mode.spec_stride(),
        spec_target_pixel(mode, x, y) == (spec_y_offset(mode) + y) * mode.spec_stride() + (
        spec_x_offset(mode) + x),
{
    let y_offset = spec_y_offset(mode);
    let stride = mode.spec_stride() as int;
    assert((y_offset + y) * stride == y_offset * stride + y * stride) by (nonlinear_arith);
}

/// The source byte of a destination byte is the pixel that was sent there.
pub proof fn lemma_source_of_target(mode: DisplayMode, x: int, y: int, channel: int)
    requires
        mode.wf(),
        spec_holds_frame(mode),
        0 <= x < FRAME_WIDTH,
        0 <= y < FRAME_HEIGHT,
        0 <= channel < BYTES_PER_PIXEL,
    ensures
        spec_source_of(mode, spec_target_byte(mode, x, y, channel)) == Some(y * FRAME_WIDTH + x),
{
    lemma_target_in_bounds(mode, x, y, channel);
    let pitch = spec_row_pitch(mode);
    let byte = spec_target_byte(mode, x, y, channel);
    assert(byte / (BYTES_PER_PIXEL as int) == spec_target_pixel(mode, x, y));
    let offset = byte / (BYTES_PER_PIXEL as int) - spec_origin(mode);
    assert(offset == y * pitch + x);
    lemma_fundamental_div_mod_converse(offset, pitch, y, x);
}

/// A byte whose source is the pixel in column `x` of row `y` is one of the
/// four bytes of that pixel's destination.
proof fn lemma_target_of_source(mode: DisplayMode, byte: int, x: int, y: int)
    requires
        mode.wf(),
        spec_holds_frame(mode),
        0 <= byte,
        0 <= x < FRAME_WIDTH,
        0 <= y < FRAME_HEIGHT,
        spec_source_of(mode, byte) == Some(y * FRAME_WIDTH + x),
    ensures
        spec_target_byte(mode, x, y, 0) <= byte < spec_target_byte(mode, x, y, 0)
            + BYTES_PER_PIXEL,
{
    lemma_target_in_bounds(mode, x, y, 0);
    let pitch = spec_row_pitch(mode);
    let offset = byte / (BYTES_PER_PIXEL as int) - spec_origin(mode);
    let row = offset / pitch;
    let column = offset % pitch;
    lemma_div_pos_is_pos(offset, pitch);
    lemma_mod_pos_bound(offset, pitch);
    lemma_fundamental_div_mod(offset, pitch);
    assert(row * FRAME_WIDTH + column == y * FRAME_WIDTH + x);
    assert(row == y && column == x);
    assert(pitch * row == y * pitch) by (nonlinear_arith)
        requires
            row == y,
    ;
    assert(offset == y * pitch + x);
}

/// Copying one more pixel writes its four destination bytes and nothing else.
proof fn lemma_blit_step(
    before: Seq<u8>,
    mode: DisplayMode,
    frame: Seq<u8>,
    x: int,
    y: int,
    current: Seq<u8>,
    next: Seq<u8>,
)
    requires
        spec_can_blit(mode, before.len() as int),
        frame.len() == FRAME_SIZE,
        0 <= x < FRAME_WIDTH,
        0 <= y < FRAME_HEIGHT,
        current == partly_blitted(before, mode, frame, y * FRAME_WIDTH + x),
        next.len() == current.len(),
        forall|byte: int|
            0 <= byte < next.len() ==> #[trigger] next[byte] == if spec_target_byte(mode, x, y, 0)
                <= byte < spec_target_byte(mode, x, y, 0) + BYTES_PER_PIXEL {
                frame[y * FRAME_WIDTH + x]
            } else {
                current[byte]
            },
    ensures
        next == partly_blitted(before, mode, frame, y * FRAME_WIDTH + x + 1),
{
    let done = y * FRAME_WIDTH + x;
    let first = spec_target_byte(mode, x, y, 0);
    let after = partly_blitted(before, mode, frame, done + 1);
    assert forall|byte: int| 0 <= byte < next.len() implies next[byte] == after[byte] by {
        if first <= byte < first + BYTES_PER_PIXEL {
            lemma_source_of_target(mode, x, y, byte - first);
        } else if spec_source_of(mode, byte) == Some(done) {
            lemma_target_of_source(mode, byte, x, y);
        }
    }
    assert(next =~= after);
}

/// Blitting puts every source pixel, four times over, at its destination.
pub proof fn lemma_blit_replicates(
    before: Seq<u8>,
    mode: DisplayMode,
    frame: Seq<u8>,
    x: int,
    y: int,
    channel: int,
)
    requires
        spec_can_blit(mode, before.len() as int),
        0 <= x < FRAME_WIDTH,
        0 <= y < FRAME_HEIGHT,
        0 <= channel < BYTES_PER_PIXEL,
    ensures
        0 <= spec_target_byte(mode, x, y, channel) < before.len(),
        spec_blitted(before, mode, frame)[spec_target_byte(mode, x, y, channel)] == frame[y
            * FRAME_WIDTH + x],
{
    lemma_target_in_bounds(mode, x, y, channel);
    lemma_source_of_target(mode, x, y, channel);
}

/// Blitting leaves every byte outside the destination pixels as it was.
pub proof fn lemma_blit_keeps_the_rest(
    before: Seq<u8>,
    mode: DisplayMode,
    frame: Seq<u8>,
    byte: int,
)
    requires
        0 <= byte < before.len(),
        spec_source_of(mode, byte) is None,
    ensures
        spec_blitted(before, mode, frame)[byte] == before[byte],
{
}

/// Pixels left of the frame, so that it stands in the middle of a row.
pub fn x_offset(mode: &DisplayMode) -> (offset: usize)
    requires
        mode.spec_width() >= FRAME_WIDTH,
    ensures
        offset == spec_x_offset(*mode),
{
    (mode.width() - FRAME_WIDTH) / 2
}

/// Rows above the frame, so that it stands in the middle of a column.
pub fn y_offset(mode: &DisplayMode) -> (offset: usize)
    requires
        mode.spec_height() >= FRAME_HEIGHT,
    ensures
        offset == spec_y_offset(*mode),
{
    (mode.height() - FRAME_HEIGHT) / 2
}

/// Pixels to pass over after each frame row.
pub fn row_skip(mode: &DisplayMode) -> (skip: usize)
    requires
        mode.spec_width() >= FRAME_WIDTH,
    ensures
        skip == spec_row_skip(*mode),
        mode.wf(),
{
    let width = mode.width();
    (mode.stride() - width) + x_offset(mode) * 2
}

/// Bytes of frame buffer that a blit in this mode reaches, where the mode
/// holds a frame and that number fits the machine's word.
pub fn required_len(mode: &DisplayMode) -> (len: Option<usize>)
    ensures
        len is Some <==> spec_holds_frame(*mode) && spec_required_len(*mode) <= usize::MAX,
        len matches Some(n) ==> n == spec_required_len(*mode),
        mode.wf(),
{
    let (width, height) = mode.resolution();
    let stride = mode.stride();
    if width < FRAME_WIDTH || height < FRAME_HEIGHT {
        return None;
    }
    let pitch = FRAME_WIDTH + row_skip(mode);
    let ghost above = spec_y_offset(*mode) * stride;
    let ghost below = (FRAME_HEIGHT - 1) * spec_row_pitch(*mode);
    proof {
        lemma_target_in_bounds(*mode, FRAME_WIDTH - 1, FRAME_HEIGHT - 1, 0);
        assert(0 <= above) by (nonlinear_arith)
            requires
                above == spec_y_offset(*mode) * stride,
                0 <= spec_y_offset(*mode),
                0 <= stride,
        ;
        assert(spec_required_len(*mode) == (spec_x_offset(*mode) + above + below + FRAME_WIDTH)
            * BYTES_PER_PIXEL);
    }
    let rows_above = match y_offset(mode).checked_mul(stride) {
        Some(n) => n,
        None => { return None; },
    };
    let rows_of_frame = match (FRAME_HEIGHT - 1).checked_mul(pitch) {
        Some(n) => n,
        None => { return None; },
    };
    let origin = match x_offset(mode).checked_add(rows_above) {
        Some(n) => n,
        None => { return None; },
    };
    let last_row = match origin.checked_add(rows_of_frame) {
        Some(n) => n,
        None => { return None; },
    };
    let pixels = match last_row.checked_add(FRAME_WIDTH) {
        Some(n) => n,
        None => { return None; },
    };
    pixels.checked_mul(BYTES_PER_PIXEL)
}

/// Whether a frame can be blitted in this mode into a frame buffer of
/// `surface_len` bytes.
pub fn can_blit(mode: &DisplayMode, surface_len: usize) -> (fits: bool)
    ensures
        fits == spec_can_blit(*mode, surface_len as int),
{
    match required_len(mode) {
        Some(needed) => needed <= surface_len,
        None => false,
    }
}

/// Copies `frame` into `surface`, the frame buffer of `mode`.
///
/// Each byte of the frame is written to all four bytes of its destination
/// pixel. The rest of the frame buffer is left as it is.
pub fn blit(surface: &mut [u8], mode: &DisplayMode, frame: &[u8])
    requires
        spec_can_blit(*mode, old(surface)@.len() as int),
        frame@.len() == FRAME_SIZE,
    ensures
        final(surface)@ == spec_blitted(old(surface)@, *mode, frame@),
        final(surface)@.len() == old(surface)@.len(),
        forall|x: int, y: int, channel: int|
            0 <= x < FRAME_WIDTH && 0 <= y < FRAME_HEIGHT && 0 <= channel < BYTES_PER_PIXEL ==> {
                &&& 0 <= #[trigger] spec_target_byte(*mode, x, y, channel) < old(surface)@.len()
                &&& final(surface)@[spec_target_byte(*mode, x, y, channel)] == frame@[y
                    * FRAME_WIDTH + x]
            },
        forall|byte: int|
            0 <= byte < old(surface)@.len() && (#[trigger] spec_source_of(*mode, byte)) is None
                ==> final(surface)@[byte] == old(surface)@[byte],
{
    let ghost before = surface@;
    let surface_len = surface.len();
    let stride = mode.stride();
    let pitch = FRAME_WIDTH + row_skip(mode);
    proof {
        lemma_target_in_bounds(*mode, 0, 0, 0);
        assert(0 <= spec_y_offset(*mode) * stride) by (nonlinear_arith)
            requires
                0 <= spec_y_offset(*mode),
                0 <= stride,
        ;
    }
    let origin = x_offset(mode) + y_offset(mode) * stride;
    assert(surface@ =~= partly_blitted(before, *mode, frame@, 0));
    let mut y: usize = 0;
    while y < FRAME_HEIGHT
        invariant
            y <= FRAME_HEIGHT,
            before.len() == surface_len,
            spec_can_blit(*mode, before.len() as int),
            frame@.len() == FRAME_SIZE,
            pitch == spec_row_pitch(*mode),
            origin == spec_origin(*mode),
            surface@ == partly_blitted(before, *mode, frame@, y * FRAME_WIDTH),
        decreases FRAME_HEIGHT - y,
    {
        proof {
            lemma_target_in_bounds(*mode, 0, y as int, 0);
        }
        let row_start = origin + y * pitch;
        let mut x: usize = 0;
        while x < FRAME_WIDTH
            invariant
                x <= FRAME_WIDTH,
                y < FRAME_HEIGHT,
                before.len() == surface_len,
                spec_can_blit(*mode, before.len() as int),
                frame@.len() == FRAME_SIZE,
                row_start == spec_target_pixel(*mode, 0, y as int),
                surface@ == partly_blitted(before, *mode, frame@, y * FRAME_WIDTH + x),
            decreases FRAME_WIDTH - x,
        {
            proof {
                lemma_target_in_bounds(*mode, x as int, y as int, 3);
            }
            let ghost current = surface@;
            let pixel = frame[y * FRAME_WIDTH + x];
            let at = (row_start + x) * BYTES_PER_PIXEL;
            surface[at] = pixel;
            surface[at + 1] = pixel;
            surface[at + 2] = pixel;
            surface[at + 3] = pixel;
            proof {
                lemma_blit_step(before, *mode, frame@, x as int, y as int, current, surface@);
            }
            x += 1;
        }
        y += 1;
    }
    proof {
        let after = surface@;
        assert forall|x: int, y: int, channel: int|
            0 <= x < FRAME_WIDTH && 0 <= y < FRAME_HEIGHT && 0 <= channel
                < BYTES_PER_PIXEL implies {
            &&& 0 <= #[trigger] spec_target_byte(*mode, x, y, channel) < before.len()
            &&& after[spec_target_byte(*mode, x, y, channel)] == frame@[y * FRAME_WIDTH + x]
        } by {
            lemma_blit_replicates(before, *mode, frame@, x, y, channel);
        }
    }
}

} // verus!
