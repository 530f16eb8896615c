//! Pacing of frames: how many frames may be in flight before the next one
//! must wait, and which token the next frame gets.
//!
//! The submission progress that counts frames lives with the device; the
//! allocator decides from the numbers it reports.

use vstd::prelude::*;

verus! {

/// Why a frame could not be paced.
#[derive(Debug, Clone, Copy, PartialEq, Eq, Structural)]
pub enum FrameError {
    /// The limit of frames in flight was 0.
    ZeroFramesInFlight,
}

/// What the next frame must wait for.
#[derive(Debug, Clone, Copy, PartialEq, Eq, Structural)]
pub enum WaitPlan {
    /// It may start at once.
    Ready,
    /// It must wait until the frame of this number has settled.
    Until(u64),
}

/// Hands out frame tokens: first the one that the progress was at when the
/// allocator was made, then those that the progress hands out.
#[derive(Debug)]
pub struct FrameAllocator<T> {
    first_frame: Option<T>,
}

impl<T> FrameAllocator<T> {
    /// The token that the first frame will get, if it has not been handed
    /// out yet.
    pub closed spec fn pending_first(&self) -> Option<T> {
        self.first_frame
    }

    /// An allocator whose first frame gets `first_frame`, the token of the
    /// progress's current frame.
    pub fn new(first_frame: T) -> (r: Self)
        ensures
            r.pending_first() == Some(first_frame),
    {
        FrameAllocator { first_frame: Some(first_frame) }
    }

    /// The number of frames in flight, given the number that the progress
    /// counts: none before the first frame was handed out.
    pub fn frames_in_flight(&self, progress_in_flight: u64) -> (r: u64)
        ensures
            r == if self.pending_first() is Some {
                0
            } else {
                progress_in_flight
            },
    {
        if self.first_frame.is_some() {
            return 0;
        }
        progress_in_flight
    }

    /// What the next frame must wait for so that at most
    /// `max_frames_in_flight` frames are in flight, given the number of
    /// frames that the progress counts in flight and the number of its
    /// current frame: nothing before the first frame or under the limit,
    /// else the settling of the frame `max_frames_in_flight - 1` before the
    /// current one (or of frame 0, where there is none).
    pub fn wait_until(
        &self,
        max_frames_in_flight: u64,
        progress_in_flight: u64,
        current_frame: u64,
    ) -> (r: Result<WaitPlan, FrameError>)
        ensures
            max_frames_in_flight == 0 ==> r == Err::<WaitPlan, FrameError>(
                FrameError::ZeroFramesInFlight,
            ),
            max_frames_in_flight > 0 && (self.pending_first() is Some || progress_in_flight
                < max_frames_in_flight) ==> r == Ok::<WaitPlan, FrameError>(WaitPlan::Ready),
            max_frames_in_flight > 0 && self.pending_first() is None && progress_in_flight
                >= max_frames_in_flight ==> r == Ok::<WaitPlan, FrameError>(
                WaitPlan::Until(
                    if current_frame >= max_frames_in_flight - 1 {
                        (current_frame - (max_frames_in_flight - 1)) as u64
                    } else {
                        0
                    },
                ),
            ),
    {
        if max_frames_in_flight == 0 {
            return Err(FrameError::ZeroFramesInFlight);
        }
        if self.first_frame.is_some() {
            return Ok(WaitPlan::Ready);
        }
        if self.frames_in_flight(progress_in_flight) < max_frames_in_flight {
            return Ok(WaitPlan::Ready);
        }
        let until = current_frame.saturating_sub(max_frames_in_flight - 1);
        Ok(WaitPlan::Until(until))
    }

    /// The token of the next frame: the first frame's token the first time,
    /// without asking the progress; after that, what `progress_next` (the
    /// progress handing out its next token) gives, token or error.
    pub fn next_frame<E, F: FnOnce() -> Result<T, E>>(&mut self, progress_next: F) -> (r: Result<T, E>)
        requires
            old(self).pending_first() is None ==> call_requires(progress_next, ()),
        ensures
            old(self).pending_first() matches Some(first) ==> r == Ok::<T, E>(first),
            old(self).pending_first() is None ==> call_ensures(progress_next, (), r),
            final(self).pending_first() is None,
    {
        match self.first_frame.take() {
            Some(token) => Ok(token),
            None => progress_next(),
        }
    }
}

} // verus!
