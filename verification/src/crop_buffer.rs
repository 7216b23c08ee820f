//! The time-windowed crop buffer: a simpler smoothing strategy that holds
//! frames back for a bounded time and then commits all of them at once.
//!
//! It never interpolates. A commit gives every held frame a crop and empties
//! the buffer.

use crate::crop::{is_crop_similar, similar, CropResult, Percentage};
use crate::frame::{CommittedFrame, Frame};
use std::collections::VecDeque;
use vstd::prelude::*;

verus! {

/// How many of the most recent crops the buffer remembers.
pub const HISTORY_SIZE: usize = 5;

/// The tolerance, in percent of the frame width, within which the buffer
/// takes two crops for similar.
pub const SIMILARITY_PERCENT: u32 = 10;

/// The buffer's fixed tolerance.
pub open spec fn similarity_threshold() -> Percentage {
    Percentage { hundredths: 1000 }
}

/// A frame in the buffer, with the crop proposed for it and the time at
/// which it came.
#[derive(Clone, Copy, Debug, PartialEq, Eq, Structural)]
pub struct BufferedFrame {
    pub frame: Frame,
    pub crop: CropResult,
    pub timestamp: u64,
}

/// What the buffer holds.
pub struct CropBufferState {
    /// The frames held back, oldest first.
    pub frames: Seq<BufferedFrame>,
    /// The number of held frames from which on a commit is forced.
    pub max_buffer_size: usize,
    /// The crops of the frames added most recently, oldest first.
    pub crop_history: Seq<CropResult>,
}

impl CropBufferState {
    /// The crop history is bounded.
    pub open spec fn wf(self) -> bool {
        self.crop_history.len() <= HISTORY_SIZE
    }
}

/// The last `HISTORY_SIZE` crops of `crops`.
pub open spec fn most_recent(crops: Seq<CropResult>) -> Seq<CropResult> {
    if crops.len() > HISTORY_SIZE {
        crops.skip(crops.len() - HISTORY_SIZE)
    } else {
        crops
    }
}

/// The most recent crop of `history` that is similar to `crop`, if any is.
pub open spec fn latest_similar(history: Seq<CropResult>, crop: CropResult, width: u32) -> Option<CropResult>
    decreases history.len(),
{
    if history.len() == 0 {
        None
    } else if similar(crop, history.last(), width, similarity_threshold()) {
        Some(history.last())
    } else {
        latest_similar(history.drop_last(), crop, width)
    }
}

/// Every frame of `frames` with one and the same crop.
pub open spec fn with_crop(frames: Seq<BufferedFrame>, crop: CropResult) -> Seq<CommittedFrame> {
    Seq::new(frames.len(), |i: int| CommittedFrame { image: frames[i].frame, crop })
}

/// Every frame of `frames` with the crop that was proposed for it.
pub open spec fn with_own_crops(frames: Seq<BufferedFrame>) -> Seq<CommittedFrame> {
    Seq::new(frames.len(), |i: int| CommittedFrame { image: frames[i].frame, crop: frames[i].crop })
}

/// Whether the buffer commits when `current_crop` comes in: it holds at least
/// two frames and the crop is similar to that of the oldest, or it is full.
pub open spec fn commits(s: CropBufferState, current_crop: CropResult, width: u32) -> bool {
    &&& s.frames.len() > 0
    &&& {
        ||| s.frames.len() >= 2 && similar(current_crop, s.frames[0].crop, width, similarity_threshold())
        ||| s.frames.len() >= s.max_buffer_size
    }
}

/// The frames that the buffer commits when `current_crop` comes in, oldest
/// first.
///
/// Where the crop is similar to that of the oldest held frame, and at least
/// two frames are held, all get the oldest frame's crop. Else, where the
/// buffer is full, all get the most recent remembered crop that is similar to
/// `current_crop`, or, where none is, each its own. Else nothing is committed.
pub open spec fn committed_frames(s: CropBufferState, current_crop: CropResult, width: u32) -> Seq<
    CommittedFrame,
> {
    if !commits(s, current_crop, width) {
        Seq::empty()
    } else if s.frames.len() >= 2 && similar(current_crop, s.frames[0].crop, width, similarity_threshold()) {
        with_crop(s.frames, s.frames[0].crop)
    } else {
        match latest_similar(s.crop_history, current_crop, width) {
            Some(crop) => with_crop(s.frames, crop),
            None => with_own_crops(s.frames),
        }
    }
}

/// `latest_similar` finds a crop exactly where one of the remembered crops is
/// similar, and then it is the one at the greatest such position.
pub proof fn lemma_latest_similar(history: Seq<CropResult>, crop: CropResult, width: u32)
    ensures
        latest_similar(history, crop, width) is Some <==> exists|i: int|
            0 <= i < history.len() && similar(crop, #[trigger] history[i], width, similarity_threshold()),
        latest_similar(history, crop, width) is Some ==> exists|i: int|
            {
                &&& 0 <= i < history.len()
                &&& #[trigger] history[i] == latest_similar(history, crop, width)->0
                &&& similar(crop, history[i], width, similarity_threshold())
                &&& forall|j: int| i < j < history.len() ==> !similar(crop, #[trigger] history[j], width, similarity_threshold())
            },
    decreases history.len(),
{
    if history.len() == 0 {
    } else if similar(crop, history.last(), width, similarity_threshold()) {
        let i = history.len() - 1;
        assert(history[i] == history.last());
    } else {
        let shorter = history.drop_last();
        lemma_latest_similar(shorter, crop, width);
        if latest_similar(shorter, crop, width) is Some {
            let i = choose|i: int|
                {
                    &&& 0 <= i < shorter.len()
                    &&& #[trigger] shorter[i] == latest_similar(shorter, crop, width)->0
                    &&& similar(crop, shorter[i], width, similarity_threshold())
                    &&& forall|j: int| i < j < shorter.len() ==> !similar(crop, #[trigger] shorter[j], width, similarity_threshold())
                };
            assert(history[i] == shorter[i]);
            assert forall|j: int| i < j < history.len() implies !similar(
                crop,
                #[trigger] history[j],
                width,
                similarity_threshold(),
            ) by {
                if j < shorter.len() {
                    assert(history[j] == shorter[j]);
                }
            }
        } else {
            assert forall|i: int| 0 <= i < history.len() implies !similar(
                crop,
                #[trigger] history[i],
                width,
                similarity_threshold(),
            ) by {
                if i < shorter.len() {
                    assert(history[i] == shorter[i]);
                }
            }
        }
    }
}

/// The buffer.
pub struct CropBuffer {
    frames: VecDeque<BufferedFrame>,
    max_buffer_size: usize,
    crop_history: VecDeque<CropResult>,
}

impl View for CropBuffer {
    type V = CropBufferState;

    closed spec fn view(&self) -> CropBufferState {
        CropBufferState {
            frames: self.frames@,
            max_buffer_size: self.max_buffer_size,
            crop_history: self.crop_history@,
        }
    }
}

impl CropBuffer {
    /// The buffer's state is well-formed. A new buffer is, and every method
    /// keeps it so.
    pub open spec fn wf(&self) -> bool {
        self@.wf()
    }

    /// An empty buffer that is full at `max_buffer_size` frames: the length
    /// of its time window times the frame rate.
    pub fn new(max_buffer_size: usize) -> (buffer: CropBuffer)
        ensures
            buffer.wf(),
            buffer@ == (CropBufferState {
                frames: Seq::empty(),
                max_buffer_size,
                crop_history: Seq::empty(),
            }),
    {
        CropBuffer { frames: VecDeque::new(), max_buffer_size, crop_history: VecDeque::new() }
    }

    /// How many frames are held back.
    pub fn len(&self) -> (len: usize)
        ensures
            len == self@.frames.len(),
    {
        self.frames.len()
    }

    /// The number of held frames from which on a commit is forced.
    pub fn max_buffer_size(&self) -> (size: usize)
        ensures
            size == self@.max_buffer_size,
    {
        self.max_buffer_size
    }

    /// Holds `frame` back behind the frames already held, and remembers its
    /// crop as the most recent one.
    pub fn add_frame(&mut self, frame: Frame, crop: CropResult, timestamp: u64)
        ensures
            final(self).wf(),
            final(self)@ == (CropBufferState {
                frames: old(self)@.frames.push(BufferedFrame { frame, crop, timestamp }),
                max_buffer_size: old(self)@.max_buffer_size,
                crop_history: most_recent(old(self)@.crop_history.push(crop)),
            }),
    {
        self.crop_history.push_back(crop);
        let ghost remembered = self.crop_history@;
        assert(self.crop_history@ =~= remembered.skip(0));
        while self.crop_history.len() > HISTORY_SIZE
            invariant
                self.crop_history@.len() <= remembered.len(),
                self.crop_history@.len() >= HISTORY_SIZE || self.crop_history@.len() == remembered.len(),
                self.crop_history@ == remembered.skip(remembered.len() - self.crop_history@.len()),
                self.frames == old(self).frames,
                self.max_buffer_size == old(self).max_buffer_size,
            decreases self.crop_history@.len(),
        {
            let ghost before = self.crop_history@;
            self.crop_history.pop_front();
            assert(self.crop_history@ =~= remembered.skip(remembered.len() - before.len() + 1));
        }
        assert(self.crop_history@ =~= most_recent(remembered));
        self.frames.push_back(BufferedFrame { frame, crop, timestamp });
    }

    /// Whether two crops are similar within the buffer's tolerance.
    pub fn are_crops_similar(&self, crop1: &CropResult, crop2: &CropResult, width: u32) -> (r: bool)
        ensures
            r == similar(*crop1, *crop2, width, similarity_threshold()),
    {
        is_crop_similar(crop1, crop2, width, Percentage::from_percent(SIMILARITY_PERCENT))
    }

    /// The most recent remembered crop that is similar to `crop`.
    fn latest_similar_crop(&self, crop: &CropResult, width: u32) -> (found: Option<CropResult>)
        ensures
            found == latest_similar(self@.crop_history, *crop, width),
    {
        let mut i: usize = self.crop_history.len();
        assert(self@.crop_history.take(i as int) =~= self@.crop_history);
        while i > 0
            invariant
                i <= self.crop_history@.len(),
                latest_similar(self@.crop_history, *crop, width) == latest_similar(
                    self@.crop_history.take(i as int),
                    *crop,
                    width,
                ),
            decreases i,
        {
            i -= 1;
            let candidate = self.crop_history[i];
            assert(self@.crop_history.take(i + 1).last() == candidate);
            assert(self@.crop_history.take(i + 1).drop_last() =~= self@.crop_history.take(i as int));
            if self.are_crops_similar(crop, &candidate, width) {
                return Some(candidate);
            }
        }
        assert(self@.crop_history.take(0).len() == 0);
        None
    }

    /// Whether any remembered crop is similar to `crop`.
    pub fn is_crop_similar_to_history(&self, crop: &CropResult, width: u32) -> (r: bool)
        ensures
            r == exists|i: int|
                0 <= i < self@.crop_history.len() && similar(
                    *crop,
                    #[trigger] self@.crop_history[i],
                    width,
                    similarity_threshold(),
                ),
    {
        proof {
            lemma_latest_similar(self@.crop_history, *crop, width);
        }
        self.latest_similar_crop(crop, width).is_some()
    }

    /// Empties the buffer, every frame with `crop`, or each with its own
    /// where `crop` is `None`.
    fn drain(&mut self, crop: Option<CropResult>) -> (frames: Vec<CommittedFrame>)
        ensures
            frames@ == match crop {
                Some(c) => with_crop(old(self)@.frames, c),
                None => with_own_crops(old(self)@.frames),
            },
            final(self)@ == (CropBufferState { frames: Seq::empty(), ..old(self)@ }),
    {
        let ghost held = self.frames@;
        let mut frames: Vec<CommittedFrame> = Vec::new();
        loop
            invariant
                frames@.len() + self.frames@.len() == held.len(),
                self.frames@ == held.skip(frames@.len() as int),
                forall|k: int|
                    0 <= k < frames@.len() ==> frames@[k] == (CommittedFrame {
                        image: held[k].frame,
                        crop: match crop {
                            Some(c) => c,
                            None => held[k].crop,
                        },
                    }),
                self.max_buffer_size == old(self).max_buffer_size,
                self.crop_history == old(self).crop_history,
            ensures
                self.frames@.len() == 0,
            decreases self.frames@.len(),
        {
            match self.frames.pop_front() {
                None => {
                    break ;
                },
                Some(held_frame) => {
                    assert(held.skip(frames@.len() as int).skip(1) =~= held.skip(frames@.len() as int + 1));
                    let frame_crop = match crop {
                        Some(c) => c,
                        None => held_frame.crop,
                    };
                    frames.push(CommittedFrame { image: held_frame.frame, crop: frame_crop });
                },
            }
        }
        assert(self.frames@ =~= Seq::empty());
        assert(crop is Some ==> frames@ =~= with_crop(held, crop->0));
        assert(crop is None ==> frames@ =~= with_own_crops(held));
        frames
    }

    /// Decides, as `current_crop` comes in for a frame `width` pixels wide,
    /// whether the held frames are committed, and returns them, oldest first,
    /// each with its crop. After a commit the buffer holds no frame; without
    /// one it is unchanged and nothing is returned.
    pub fn process_buffer(&mut self, current_crop: &CropResult, width: u32) -> (committed: Vec<CommittedFrame>)
        ensures
            old(self).wf() ==> final(self).wf(),
            committed@ == committed_frames(old(self)@, *current_crop, width),
            commits(old(self)@, *current_crop, width) ==> final(self)@ == (CropBufferState {
                frames: Seq::empty(),
                ..old(self)@
            }),
            !commits(old(self)@, *current_crop, width) ==> final(self)@ == old(self)@,
    {
        if self.frames.len() == 0 {
            return Vec::new();
        }
        let first_crop = self.frames[0].crop;
        if self.frames.len() >= 2 && self.are_crops_similar(current_crop, &first_crop, width) {
            self.drain(Some(first_crop))
        } else if self.frames.len() >= self.max_buffer_size {
            let remembered = self.latest_similar_crop(current_crop, width);
            self.drain(remembered)
        } else {
            Vec::new()
        }
    }
}

/// A commit neither loses nor reorders frames: it returns the held frames one
/// for one, oldest first.
pub proof fn lemma_commit_keeps_frames(s: CropBufferState, current_crop: CropResult, width: u32)
    ensures
        commits(s, current_crop, width) ==> {
            &&& committed_frames(s, current_crop, width).len() == s.frames.len()
            &&& forall|i: int|
                0 <= i < s.frames.len() ==> (#[trigger] committed_frames(s, current_crop, width)[i]).image
                    == s.frames[i].frame
        },
        !commits(s, current_crop, width) ==> committed_frames(s, current_crop, width).len() == 0,
{
}

} // verus!
