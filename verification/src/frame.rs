//! The video asset: a sequence of raw frames of fixed size, without a header.
//!
//! The asset is read strictly from front to back, one frame at a time. A
//! frame is complete only when every one of its bytes has arrived, however
//! many reads that takes.

use vstd::arithmetic::div_mod::{lemma_fundamental_div_mod, lemma_mod_pos_bound};
use vstd::prelude::*;

use crate::FRAME_SIZE;

verus! {

/// Whole frames in an asset of `total_size` bytes.
pub open spec fn spec_frame_count(total_size: u64) -> u64 {
    (total_size / (FRAME_SIZE as u64)) as u64
}

/// The asset as it was found when it was opened.
#[derive(Clone, Copy, Debug, PartialEq, Eq, Structural)]
pub struct FrameAsset {
    total_size: u64,
}

impl FrameAsset {
    pub closed spec fn spec_total_size(&self) -> u64 {
        self.total_size
    }

    pub fn new(total_size: u64) -> (asset: Self)
        ensures
            asset.spec_total_size() == total_size,
    {
        FrameAsset { total_size }
    }

    #[verifier::when_used_as_spec(spec_total_size)]
    pub fn total_size(&self) -> (total_size: u64)
        ensures
            total_size == self.spec_total_size(),
    {
        self.total_size
    }

    /// Bytes of each frame.
    pub fn frame_size(&self) -> (frame_size: usize)
        ensures
            frame_size == FRAME_SIZE,
    {
        FRAME_SIZE
    }

    /// Whole frames in the asset. Bytes after the last whole frame are never
    /// read.
    pub fn frame_count(&self) -> (frame_count: u64)
        ensures
            frame_count == spec_frame_count(self.spec_total_size()),
            frame_count * FRAME_SIZE <= self.spec_total_size() < (frame_count + 1) * FRAME_SIZE,
    {
        proof {
            lemma_frames_cover_asset(self.total_size);
        }
        self.total_size / (FRAME_SIZE as u64)
    }
}

/// The frames of an asset cover it up to a rest that is shorter than a frame.
pub proof fn lemma_frames_cover_asset(total_size: u64)
    ensures
        spec_frame_count(total_size) * FRAME_SIZE <= total_size < (spec_frame_count(total_size)
            + 1) * FRAME_SIZE,
{
    let size = FRAME_SIZE as int;
    let count = total_size as int / size;
    lemma_fundamental_div_mod(total_size as int, size);
    lemma_mod_pos_bound(total_size as int, size);
    assert(size * count == count * size) by (nonlinear_arith);
    assert((count + 1) * size == count * size + size) by (nonlinear_arith);
}

/// The underlying read reported an error.
#[derive(Clone, Copy, Debug, PartialEq, Eq, Structural)]
pub struct IoFault;

/// Why a frame could not be read in full.
#[derive(Clone, Copy, Debug, PartialEq, Eq, Structural)]
pub enum ReadError {
    /// The source ended before the frame was complete.
    Exhausted,
    /// The source reported an error, or more bytes than it was asked for.
    Failed,
}

/// What one read does to a frame of which `filled` bytes have arrived: the
/// number of bytes that have arrived after it, or the reason why the frame
/// cannot be completed.
pub open spec fn spec_after_read(filled: int, outcome: Result<usize, IoFault>) -> Result<
    int,
    ReadError,
> {
    match outcome {
        Err(_) => Err(ReadError::Failed),
        Ok(count) => if count > FRAME_SIZE - filled {
            Err(ReadError::Failed)
        } else if count == 0 && filled < FRAME_SIZE {
            Err(ReadError::Exhausted)
        } else {
            Ok(filled + count)
        },
    }
}

/// Progress of reading one frame into the scratch buffer.
///
/// The next read goes to the part of the buffer from `filled()` on, so a
/// frame is handed on only after all of it has been overwritten.
#[derive(Debug)]
pub struct FrameFill {
    filled: usize,
}

impl FrameFill {
    #[verifier::type_invariant]
    closed spec fn within_frame(self) -> bool {
        self.filled <= FRAME_SIZE
    }

    /// Bytes of the frame that have arrived.
    pub closed spec fn spec_filled(&self) -> usize {
        self.filled
    }

    /// The invariant of every value that executable code holds.
    pub open spec fn wf(&self) -> bool {
        self.spec_filled() <= FRAME_SIZE
    }

    /// Bytes of the frame that are still missing.
    pub open spec fn spec_remaining(&self) -> int {
        FRAME_SIZE - self.spec_filled()
    }

    pub open spec fn spec_is_complete(&self) -> bool {
        self.spec_filled() == FRAME_SIZE
    }

    /// Starts a frame: nothing has arrived yet.
    pub fn new() -> (fill: Self)
        ensures
            fill.spec_filled() == 0,
            fill.wf(),
    {
        FrameFill { filled: 0 }
    }

    #[verifier::when_used_as_spec(spec_filled)]
    pub fn filled(&self) -> (filled: usize)
        ensures
            filled == self.spec_filled(),
            self.wf(),
    {
        proof {
            use_type_invariant(self);
        }
        self.filled
    }

    pub fn remaining(&self) -> (remaining: usize)
        ensures
            remaining == self.spec_remaining(),
            self.wf(),
    {
        proof {
            use_type_invariant(self);
        }
        FRAME_SIZE - self.filled
    }

    #[verifier::when_used_as_spec(spec_is_complete)]
    pub fn is_complete(&self) -> (complete: bool)
        ensures
            complete == self.spec_is_complete(),
    {
        self.filled == FRAME_SIZE
    }

    /// Takes in the outcome of one read into the unfilled part of the buffer
    /// and returns how many bytes are still missing; zero means that the
    /// frame is complete.
    ///
    /// A read that fails, that returns nothing while bytes are missing, or
    /// that claims more bytes than were missing ends the frame with an error
    /// and leaves the progress as it was.
    pub fn record(&mut self, outcome: Result<usize, IoFault>) -> (missing: Result<
        usize,
        ReadError,
    >)
        ensures
            final(self).wf(),
            match spec_after_read(old(self).spec_filled() as int, outcome) {
                Ok(filled) => final(self).spec_filled() == filled && missing == Ok::<
                    usize,
                    ReadError,
                >((FRAME_SIZE - filled) as usize),
                Err(error) => final(self).spec_filled() == old(self).spec_filled() && missing
                    == Err::<usize, ReadError>(error),
            },
    {
        proof {
            use_type_invariant(&*self);
        }
        match outcome {
            Err(_) => Err(ReadError::Failed),
            Ok(count) => {
                let missing = FRAME_SIZE - self.filled;
                if count > missing {
                    Err(ReadError::Failed)
                } else if count == 0 && missing > 0 {
                    Err(ReadError::Exhausted)
                } else {
                    self.filled = self.filled + count;
                    Ok(missing - count)
                }
            },
        }
    }
}

} // verus!
