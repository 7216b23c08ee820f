//! The history smoothing engine: a state machine that is fed one frame at a
//! time and answers with the frames that are ready to be shown, each with its
//! final crop.
//!
//! A frame whose crop departs from the committed crop is held back. The run of
//! held frames is resolved when the departure turns out to be noise, when it
//! has lasted long enough to be taken for real, when it becomes unstable, or
//! when the scene is cut.

use crate::crop::{
    closest_crop, crop_class, is_crop_class_same, is_crop_similar, select_closest_crop, similar, CropResult,
    Percentage,
};
use crate::frame::{CommittedFrame, Frame};
use crate::history::{CropHistory, HistoryEntry};
use crate::video_processor_utils::{interpolate_crop_results, interpolation};
use vstd::prelude::*;

verus! {

/// One frame as the engine sees it.
#[derive(Clone, Copy, Debug, PartialEq, Eq, Structural)]
pub struct FrameInput {
    /// The frame itself.
    pub image: Frame,
    /// The crop that the detector proposes for this frame.
    pub latest_crop: CropResult,
    /// How many objects of interest the detector found in it.
    pub object_count: usize,
    /// Whether the cut detector saw a scene boundary between the frame before
    /// and this one. It is not looked at for the first frame.
    pub cut_detected: bool,
}

/// Where the engine stands between two frames.
#[derive(Clone, Copy, Debug, PartialEq, Eq, Structural)]
pub enum Phase {
    /// No frame has been seen and no crop is committed.
    Idle,
    /// A crop is committed and no frame is held back.
    Stable,
    /// A crop is committed and frames are held back while a change is
    /// weighed.
    PendingChange,
}

/// What the engine remembers between frames.
pub struct SmoothingState {
    /// The crop committed last; `None` until the first frame has been seen.
    pub previous_crop: Option<CropResult>,
    /// The object count that goes with the committed crop.
    pub previous_object_count: usize,
    /// The frame seen last.
    pub last_image: Option<Frame>,
    /// The pending run: frames held back, oldest first.
    pub history: Seq<HistoryEntry>,
}

impl SmoothingState {
    /// The state before any frame.
    pub open spec fn initial() -> SmoothingState {
        SmoothingState {
            previous_crop: None,
            previous_object_count: 0,
            last_image: None,
            history: Seq::empty(),
        }
    }

    /// Frames are held back only against a committed crop, a committed crop
    /// comes with the frame it was committed on, and every frame of the
    /// pending run carries the crop and the object count of the frame that
    /// opened the run.
    pub open spec fn wf(self) -> bool {
        &&& self.history.len() > 0 ==> self.previous_crop is Some
        &&& self.previous_crop is Some ==> self.last_image is Some
        &&& forall|i: int|
            0 <= i < self.history.len() ==> {
                &&& (#[trigger] self.history[i]).crop == self.history[0].crop
                &&& self.history[i].object_count == self.history[0].object_count
            }
    }

    /// Where the engine stands.
    pub open spec fn phase(self) -> Phase {
        if self.previous_crop is None {
            Phase::Idle
        } else if self.history.len() == 0 {
            Phase::Stable
        } else {
            Phase::PendingChange
        }
    }

    /// The frames of the pending run, oldest first.
    pub open spec fn pending_images(self) -> Seq<Frame> {
        Seq::new(self.history.len(), |i: int| self.history[i].image)
    }
}

/// What the engine makes of a frame.
#[derive(Clone, Copy, Debug, PartialEq, Eq, Structural)]
pub enum Decision {
    /// There is no committed crop yet: the frame's crop is adopted.
    First,
    /// The scene was cut: the pending run is resolved at once and the frame's
    /// crop is adopted without smoothing.
    Cut,
    /// The frame agrees with the committed crop: whatever was pending was
    /// noise, and the committed crop stays.
    Noise,
    /// The frame departs from the committed crop and nothing is pending: it
    /// opens a pending run.
    Propose,
    /// The frame agrees with the one that opened the pending run, which is
    /// still too short to be believed: it joins the run.
    Accumulate,
    /// The frame agrees with the one that opened the pending run, which has
    /// lasted long enough: the change is resolved and committed.
    Confirm,
    /// The frame departs from the one that opened the pending run: the run is
    /// resolved and committed at once.
    Unstable,
}

/// The decision for `input` in state `s`.
pub open spec fn decision(
    s: SmoothingState,
    input: FrameInput,
    tolerance: Percentage,
    smooth_duration_frames: usize,
) -> Decision {
    match s.previous_crop {
        None => Decision::First,
        Some(previous) => {
            if s.last_image is None || input.cut_detected {
                Decision::Cut
            } else if crop_class(input.object_count) == crop_class(s.previous_object_count) && similar(
                input.latest_crop,
                previous,
                input.image.width,
                tolerance,
            ) {
                Decision::Noise
            } else if s.history.len() == 0 {
                Decision::Propose
            } else if similar(input.latest_crop, s.history[0].crop, input.image.width, tolerance) && crop_class(
                input.object_count,
            ) == crop_class(s.history[0].object_count) {
                if s.history.len() >= smooth_duration_frames {
                    Decision::Confirm
                } else {
                    Decision::Accumulate
                }
            } else {
                Decision::Unstable
            }
        },
    }
}

/// Every frame of `history` with one and the same crop.
pub open spec fn flat_run(history: Seq<HistoryEntry>, crop: CropResult) -> Seq<CommittedFrame> {
    Seq::new(history.len(), |i: int| CommittedFrame { image: history[i].image, crop })
}

/// Every frame of `history` with the crop at its own position in `crops`;
/// frames beyond the end of `crops` get `rest`.
pub open spec fn fan_out(history: Seq<HistoryEntry>, crops: Seq<CropResult>, rest: CropResult) -> Seq<
    CommittedFrame,
> {
    Seq::new(
        history.len(),
        |i: int|
            CommittedFrame {
                image: history[i].image,
                crop: if i < crops.len() {
                    crops[i]
                } else {
                    rest
                },
            },
    )
}

/// The pending run `history` resolved towards `chosen`: its frames follow an
/// interpolation of `length` crops from `previous` to `chosen`, and show
/// `chosen` where the run is longer than that.
pub open spec fn resolved_run(
    previous: CropResult,
    history: Seq<HistoryEntry>,
    chosen: CropResult,
    length: nat,
) -> Seq<CommittedFrame> {
    fan_out(history, interpolation(previous, chosen, length), chosen)
}

/// The crop that a pending run is resolved towards: the choice between the
/// committed crop and the crop that opened the run, given the latest crop.
pub open spec fn resolution(s: SmoothingState, latest: CropResult) -> CropResult
    recommends
        s.previous_crop is Some,
        s.history.len() > 0,
{
    closest_crop(s.previous_crop->0, s.history[0].crop, latest)
}

/// The crop that `input` commits in state `s`, or `None` where the frame is
/// held back and nothing is committed.
pub open spec fn committed_crop(
    s: SmoothingState,
    input: FrameInput,
    tolerance: Percentage,
    smooth_duration_frames: usize,
) -> Option<CropResult> {
    match decision(s, input, tolerance, smooth_duration_frames) {
        Decision::First | Decision::Cut => Some(input.latest_crop),
        Decision::Noise => s.previous_crop,
        Decision::Propose | Decision::Accumulate => None,
        Decision::Confirm | Decision::Unstable => Some(resolution(s, input.latest_crop)),
    }
}

/// The frames that leave the engine on `input`, in the order in which they
/// came in: first the pending run, if it is resolved, then the frame itself,
/// if a crop is committed.
pub open spec fn emitted_frames(
    s: SmoothingState,
    input: FrameInput,
    tolerance: Percentage,
    smooth_duration_frames: usize,
) -> Seq<CommittedFrame> {
    let run = match decision(s, input, tolerance, smooth_duration_frames) {
        Decision::First | Decision::Propose | Decision::Accumulate => Seq::empty(),
        Decision::Noise => flat_run(s.history, s.previous_crop->0),
        Decision::Cut => if s.history.len() == 0 {
            Seq::empty()
        } else {
            resolved_run(s.previous_crop->0, s.history, resolution(s, input.latest_crop), s.history.len())
        },
        Decision::Confirm | Decision::Unstable => resolved_run(
            s.previous_crop->0,
            s.history,
            resolution(s, input.latest_crop),
            s.history.len(),
        ),
    };
    match committed_crop(s, input, tolerance, smooth_duration_frames) {
        Some(crop) => run.push(CommittedFrame { image: input.image, crop }),
        None => run,
    }
}

/// The state after `input` in state `s`.
pub open spec fn next_state(
    s: SmoothingState,
    input: FrameInput,
    tolerance: Percentage,
    smooth_duration_frames: usize,
) -> SmoothingState {
    let d = decision(s, input, tolerance, smooth_duration_frames);
    SmoothingState {
        previous_crop: match committed_crop(s, input, tolerance, smooth_duration_frames) {
            Some(crop) => Some(crop),
            None => s.previous_crop,
        },
        previous_object_count: match d {
            Decision::First | Decision::Cut | Decision::Confirm | Decision::Unstable => input.object_count,
            Decision::Noise | Decision::Propose | Decision::Accumulate => s.previous_object_count,
        },
        last_image: Some(input.image),
        history: match d {
            Decision::Propose => seq![
                HistoryEntry { image: input.image, crop: input.latest_crop, object_count: input.object_count },
            ],
            Decision::Accumulate => s.history.push(
                HistoryEntry {
                    image: input.image,
                    crop: s.history[0].crop,
                    object_count: s.history[0].object_count,
                },
            ),
            Decision::First => s.history,
            Decision::Cut | Decision::Noise | Decision::Confirm | Decision::Unstable => Seq::empty(),
        },
    }
}

/// The frames that leave the engine at the end of the stream: the pending
/// run, every frame with the committed crop.
pub open spec fn final_frames(s: SmoothingState) -> Seq<CommittedFrame> {
    match s.previous_crop {
        Some(previous) => flat_run(s.history, previous),
        None => Seq::empty(),
    }
}

/// The state at the end of the stream: nothing is pending.
pub open spec fn final_state(s: SmoothingState) -> SmoothingState {
    match s.previous_crop {
        Some(_) => SmoothingState { history: Seq::empty(), ..s },
        None => s,
    }
}

/// One frame of a stream: smoothed where a smoothing window is set, and
/// passed through with its own crop, past the engine, where the window is
/// zero frames long.
pub open spec fn frame_step(
    s: SmoothingState,
    input: FrameInput,
    tolerance: Percentage,
    smooth_duration_frames: usize,
) -> (SmoothingState, Seq<CommittedFrame>) {
    if smooth_duration_frames == 0 {
        (s, seq![CommittedFrame { image: input.image, crop: input.latest_crop }])
    } else {
        (
            next_state(s, input, tolerance, smooth_duration_frames),
            emitted_frames(s, input, tolerance, smooth_duration_frames),
        )
    }
}

/// The engine.
pub struct HistorySmoothingVideoProcessor {
    previous_crop: Option<CropResult>,
    previous_object_count: usize,
    last_image: Option<Frame>,
    history: CropHistory,
}

impl View for HistorySmoothingVideoProcessor {
    type V = SmoothingState;

    closed spec fn view(&self) -> SmoothingState {
        SmoothingState {
            previous_crop: self.previous_crop,
            previous_object_count: self.previous_object_count,
            last_image: self.last_image,
            history: self.history@,
        }
    }
}

impl HistorySmoothingVideoProcessor {
    /// The engine's state is well-formed. A new engine is, and every method
    /// keeps it so.
    pub open spec fn wf(&self) -> bool {
        self@.wf()
    }

    /// An engine that has seen no frame.
    pub fn new() -> (processor: HistorySmoothingVideoProcessor)
        ensures
            processor@ == SmoothingState::initial(),
            processor.wf(),
    {
        HistorySmoothingVideoProcessor {
            previous_crop: None,
            previous_object_count: 0,
            last_image: None,
            history: CropHistory::new(),
        }
    }

    /// The crop committed last.
    pub fn previous_crop(&self) -> (crop: Option<CropResult>)
        ensures
            crop == self@.previous_crop,
    {
        self.previous_crop
    }

    /// The object count that goes with the committed crop.
    pub fn previous_object_count(&self) -> (count: usize)
        ensures
            count == self@.previous_object_count,
    {
        self.previous_object_count
    }

    /// The frame seen last.
    pub fn last_image(&self) -> (image: Option<Frame>)
        ensures
            image == self@.last_image,
    {
        self.last_image
    }

    /// Where the engine stands.
    pub fn phase(&self) -> (phase: Phase)
        ensures
            phase == self@.phase(),
    {
        if self.previous_crop.is_none() {
            Phase::Idle
        } else if self.history.is_empty() {
            Phase::Stable
        } else {
            Phase::PendingChange
        }
    }

    /// How many frames are held back.
    pub fn pending_len(&self) -> (len: usize)
        ensures
            len == self@.history.len(),
    {
        self.history.len()
    }

    /// What the engine would make of `input`, without changing anything.
    pub fn decide(&self, input: &FrameInput, tolerance: Percentage, smooth_duration_frames: usize) -> (d: Decision)
        ensures
            d == decision(self@, *input, tolerance, smooth_duration_frames),
    {
        let previous = match self.previous_crop {
            None => {
                return Decision::First;
            },
            Some(previous) => previous,
        };
        if self.last_image.is_none() || input.cut_detected {
            return Decision::Cut;
        }
        if is_crop_class_same(input.object_count, self.previous_object_count) && is_crop_similar(
            &input.latest_crop,
            &previous,
            input.image.width,
            tolerance,
        ) {
            return Decision::Noise;
        }
        match self.history.peek_front() {
            None => Decision::Propose,
            Some(proposer) => {
                if is_crop_similar(&input.latest_crop, &proposer.crop, input.image.width, tolerance)
                    && is_crop_class_same(input.object_count, proposer.object_count) {
                    if self.history.len() >= smooth_duration_frames {
                        Decision::Confirm
                    } else {
                        Decision::Accumulate
                    }
                } else {
                    Decision::Unstable
                }
            },
        }
    }

    /// Empties the pending run, every frame with `crop`.
    fn flush_history(&mut self, crop: CropResult) -> (frames: Vec<CommittedFrame>)
        ensures
            frames@ == flat_run(old(self)@.history, crop),
            final(self)@ == (SmoothingState { history: Seq::empty(), ..old(self)@ }),
    {
        let ghost entries = self.history@;
        let mut frames: Vec<CommittedFrame> = Vec::new();
        loop
            invariant
                frames@.len() + self.history@.len() == entries.len(),
                self.history@ == entries.skip(frames@.len() as int),
                forall|k: int|
                    0 <= k < frames@.len() ==> frames@[k] == (CommittedFrame { image: entries[k].image, crop }),
                self.previous_crop == old(self).previous_crop,
                self.previous_object_count == old(self).previous_object_count,
                self.last_image == old(self).last_image,
            ensures
                self.history@.len() == 0,
            decreases self.history@.len(),
        {
            match self.history.pop_front() {
                None => {
                    break ;
                },
                Some(entry) => {
                    assert(entries.skip(frames@.len() as int).skip(1) =~= entries.skip(frames@.len() as int + 1));
                    frames.push(CommittedFrame { image: entry.image, crop });
                },
            }
        }
        assert(frames@ =~= flat_run(entries, crop));
        assert(self.history@ =~= Seq::empty());
        frames
    }

    /// Resolves the pending run against a proposed change and empties it.
    ///
    /// The crop to resolve towards is chosen between the committed crop and
    /// `change_crop`, given `latest_crop`. The frames of the run follow an
    /// interpolation of `interpolation_length` crops from the committed crop
    /// to the chosen one; frames beyond that length show the chosen crop.
    /// Returns the chosen crop and the frames. The committed crop itself is
    /// left as it is.
    pub fn process_history_with_interpolation(
        &mut self,
        change_crop: &CropResult,
        latest_crop: &CropResult,
        interpolation_length: usize,
    ) -> (resolved: (CropResult, Vec<CommittedFrame>))
        requires
            old(self)@.previous_crop is Some,
        ensures
            resolved.0 == closest_crop(old(self)@.previous_crop->0, *change_crop, *latest_crop),
            resolved.1@ == resolved_run(
                old(self)@.previous_crop->0,
                old(self)@.history,
                resolved.0,
                interpolation_length as nat,
            ),
            final(self)@ == (SmoothingState { history: Seq::empty(), ..old(self)@ }),
    {
        let previous = match self.previous_crop {
            Some(previous) => previous,
            None => unreached(),
        };
        let chosen = select_closest_crop(&previous, change_crop, latest_crop);
        let crops = interpolate_crop_results(&previous, &chosen, interpolation_length);
        let ghost entries = self.history@;
        let mut frames: Vec<CommittedFrame> = Vec::new();
        let mut frame_index: usize = 0;
        loop
            invariant
                frame_index == frames@.len(),
                frames@.len() + self.history@.len() == entries.len(),
                self.history@ == entries.skip(frames@.len() as int),
                forall|k: int|
                    0 <= k < frames@.len() ==> frames@[k] == (CommittedFrame {
                        image: entries[k].image,
                        crop: if k < crops@.len() {
                            crops@[k]
                        } else {
                            chosen
                        },
                    }),
                self.previous_crop == old(self).previous_crop,
                self.previous_object_count == old(self).previous_object_count,
                self.last_image == old(self).last_image,
            ensures
                self.history@.len() == 0,
            decreases self.history@.len(),
        {
            match self.history.pop_front() {
                None => {
                    break ;
                },
                Some(entry) => {
                    assert(entries.skip(frames@.len() as int).skip(1) =~= entries.skip(frames@.len() as int + 1));
                    let crop = if frame_index < crops.len() {
                        crops[frame_index]
                    } else {
                        chosen
                    };
                    frames.push(CommittedFrame { image: entry.image, crop });
                    frame_index = frames.len();
                },
            }
        }
        assert(frames@ =~= resolved_run(previous, entries, chosen, interpolation_length as nat));
        assert(self.history@ =~= Seq::empty());
        (chosen, frames)
    }

    /// Takes in one frame and returns the frames that are now ready to be
    /// shown, oldest first, each with its final crop.
    ///
    /// Nothing is returned while the frame is held back; a held frame comes
    /// out with a later call, or with `finalize_processing`.
    pub fn process_frame_with_smoothing(
        &mut self,
        input: &FrameInput,
        tolerance: Percentage,
        smooth_duration_frames: usize,
    ) -> (emitted: Vec<CommittedFrame>)
        ensures
            final(self)@ == next_state(old(self)@, *input, tolerance, smooth_duration_frames),
            emitted@ == emitted_frames(old(self)@, *input, tolerance, smooth_duration_frames),
            old(self).wf() ==> final(self).wf(),
    {
        let ghost before = self@;
        let d = self.decide(input, tolerance, smooth_duration_frames);
        let mut emitted: Vec<CommittedFrame> = Vec::new();
        let mut committed: Option<CropResult> = None;
        let mut object_count: usize = input.object_count;
        match d {
            Decision::First => {
                committed = Some(input.latest_crop);
            },
            Decision::Cut => {
                // A pending run is resolved before the cut; its choice of
                // crop ends with the run.
                if !self.history.is_empty() {
                    let proposer = match self.history.peek_front() {
                        Some(proposer) => *proposer,
                        None => unreached(),
                    };
                    let length = self.history.len();
                    let (_, frames) = self.process_history_with_interpolation(
                        &proposer.crop,
                        &input.latest_crop,
                        length,
                    );
                    emitted = frames;
                }
                committed = Some(input.latest_crop);
            },
            Decision::Noise => {
                let previous = match self.previous_crop {
                    Some(previous) => previous,
                    None => unreached(),
                };
                emitted = self.flush_history(previous);
                object_count = self.previous_object_count;
                committed = Some(previous);
            },
            Decision::Propose => {
                self.history.add(input.latest_crop, input.image, input.object_count);
            },
            Decision::Accumulate => {
                let proposer = match self.history.peek_front() {
                    Some(proposer) => *proposer,
                    None => unreached(),
                };
                self.history.add(proposer.crop, input.image, proposer.object_count);
            },
            Decision::Confirm | Decision::Unstable => {
                let proposer = match self.history.peek_front() {
                    Some(proposer) => *proposer,
                    None => unreached(),
                };
                let length = self.history.len();
                let (chosen, frames) = self.process_history_with_interpolation(
                    &proposer.crop,
                    &input.latest_crop,
                    length,
                );
                emitted = frames;
                committed = Some(chosen);
            },
        }
        self.last_image = Some(input.image);
        match committed {
            Some(crop) => {
                self.previous_crop = Some(crop);
                self.previous_object_count = object_count;
                emitted.push(CommittedFrame { image: input.image, crop });
            },
            None => {},
        }
        proof {
            let after = next_state(before, *input, tolerance, smooth_duration_frames);
            assert(self@.history =~= after.history);
            assert(emitted@ =~= emitted_frames(before, *input, tolerance, smooth_duration_frames));
        }
        emitted
    }

    /// Takes in one frame of a stream whose smoothing window is
    /// `smooth_duration_frames` long. With a window of zero frames there is
    /// nothing to smooth: the frame comes back at once with its own crop and
    /// the engine is left as it is.
    pub fn process_frame(&mut self, input: &FrameInput, tolerance: Percentage, smooth_duration_frames: usize) -> (emitted:
        Vec<CommittedFrame>)
        ensures
            (final(self)@, emitted@) == frame_step(old(self)@, *input, tolerance, smooth_duration_frames),
            old(self).wf() ==> final(self).wf(),
    {
        if smooth_duration_frames > 0 {
            self.process_frame_with_smoothing(input, tolerance, smooth_duration_frames)
        } else {
            let mut emitted: Vec<CommittedFrame> = Vec::new();
            emitted.push(CommittedFrame { image: input.image, crop: input.latest_crop });
            assert(emitted@ =~= seq![CommittedFrame { image: input.image, crop: input.latest_crop }]);
            emitted
        }
    }

    /// Ends the stream: returns the frames that are still held back, oldest
    /// first, each with the committed crop, and leaves nothing pending.
    pub fn finalize_processing(&mut self) -> (emitted: Vec<CommittedFrame>)
        ensures
            final(self)@ == final_state(old(self)@),
            emitted@ == final_frames(old(self)@),
            old(self).wf() ==> final(self).wf() && final(self)@.history.len() == 0,
    {
        match self.previous_crop {
            Some(previous) => self.flush_history(previous),
            None => Vec::new(),
        }
    }
}

} // verus!
