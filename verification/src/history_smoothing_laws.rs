//! What holds of the history smoothing engine in every state and on every
//! stream of frames.

use crate::crop::{crop_class, similar, Percentage};
use crate::frame::{CommittedFrame, Frame};
use crate::history_smoothing_video_processor::{
    committed_crop, decision, emitted_frames, final_frames, frame_step, next_state, Decision, FrameInput, Phase,
    SmoothingState,
};
use vstd::prelude::*;

verus! {

/// The frames of a sequence of committed frames, without their crops.
pub open spec fn images_of(frames: Seq<CommittedFrame>) -> Seq<Frame> {
    Seq::new(frames.len(), |i: int| frames[i].image)
}

/// The frames of a stream of inputs.
pub open spec fn input_images(inputs: Seq<FrameInput>) -> Seq<Frame> {
    Seq::new(inputs.len(), |i: int| inputs[i].image)
}

/// The engine fed with a whole stream: the state it ends in, and all frames
/// that left it on the way.
pub open spec fn run(
    s: SmoothingState,
    inputs: Seq<FrameInput>,
    tolerance: Percentage,
    smooth_duration_frames: usize,
) -> (SmoothingState, Seq<CommittedFrame>)
    decreases inputs.len(),
{
    if inputs.len() == 0 {
        (s, Seq::empty())
    } else {
        let (before, emitted) = run(s, inputs.drop_last(), tolerance, smooth_duration_frames);
        let (after, more) = frame_step(before, inputs.last(), tolerance, smooth_duration_frames);
        (after, emitted + more)
    }
}

/// A step keeps the state well-formed. Once a frame has been smoothed there
/// is a committed crop, and there is one for good.
pub proof fn lemma_step_preserves_wf(
    s: SmoothingState,
    input: FrameInput,
    tolerance: Percentage,
    smooth_duration_frames: usize,
)
    requires
        s.wf(),
    ensures
        next_state(s, input, tolerance, smooth_duration_frames).wf(),
        next_state(s, input, tolerance, smooth_duration_frames).previous_crop is Some,
        next_state(s, input, tolerance, smooth_duration_frames).last_image == Some(input.image),
{
}

/// The phases follow one another as the decisions say. The first frame, and
/// it alone, is met idle; a change is proposed from the stable phase only,
/// and weighed, confirmed or found unstable while one is pending. After a
/// frame that commits a crop the engine is stable, after one that is held
/// back a change is pending, and it is never idle again.
pub proof fn lemma_phases(s: SmoothingState, input: FrameInput, tolerance: Percentage, smooth_duration_frames: usize)
    requires
        s.wf(),
    ensures
        ({
            let d = decision(s, input, tolerance, smooth_duration_frames);
            let after = next_state(s, input, tolerance, smooth_duration_frames);
            &&& d == Decision::First <==> s.phase() == Phase::Idle
            &&& d == Decision::Propose ==> s.phase() == Phase::Stable
            &&& d == Decision::Accumulate || d == Decision::Confirm || d == Decision::Unstable ==> s.phase()
                == Phase::PendingChange
            &&& committed_crop(s, input, tolerance, smooth_duration_frames) is Some <==> after.phase()
                == Phase::Stable
            &&& committed_crop(s, input, tolerance, smooth_duration_frames) is None <==> after.phase()
                == Phase::PendingChange
        }),
{
}

/// Whenever a crop is committed the pending run is drained whole: nothing is
/// held back across a commit. A frame for which nothing is committed makes
/// the pending run one longer and nothing leaves the engine.
pub proof fn lemma_commit_drains_history(
    s: SmoothingState,
    input: FrameInput,
    tolerance: Percentage,
    smooth_duration_frames: usize,
)
    requires
        s.wf(),
    ensures
        committed_crop(s, input, tolerance, smooth_duration_frames) is Some ==> {
            &&& next_state(s, input, tolerance, smooth_duration_frames).history.len() == 0
            &&& next_state(s, input, tolerance, smooth_duration_frames).previous_crop == committed_crop(
                s,
                input,
                tolerance,
                smooth_duration_frames,
            )
            &&& emitted_frames(s, input, tolerance, smooth_duration_frames).len() == s.history.len() + 1
            &&& emitted_frames(s, input, tolerance, smooth_duration_frames).last() == (CommittedFrame {
                image: input.image,
                crop: committed_crop(s, input, tolerance, smooth_duration_frames)->0,
            })
        },
        committed_crop(s, input, tolerance, smooth_duration_frames) is None ==> {
            &&& next_state(s, input, tolerance, smooth_duration_frames).history.len() == s.history.len() + 1
            &&& next_state(s, input, tolerance, smooth_duration_frames).previous_crop == s.previous_crop
            &&& emitted_frames(s, input, tolerance, smooth_duration_frames).len() == 0
        },
{
}

/// Noise is rejected: after a frame without a cut, whose crop is similar to
/// the committed crop and whose object count is of the same class, the
/// committed crop and its object count are what they were, the frame itself
/// is shown with the committed crop, and nothing is pending.
pub proof fn lemma_noise_rejected(
    s: SmoothingState,
    input: FrameInput,
    tolerance: Percentage,
    smooth_duration_frames: usize,
)
    requires
        s.wf(),
        s.previous_crop is Some,
        !input.cut_detected,
        similar(input.latest_crop, s.previous_crop->0, input.image.width, tolerance),
        crop_class(input.object_count) == crop_class(s.previous_object_count),
    ensures
        decision(s, input, tolerance, smooth_duration_frames) == Decision::Noise,
        next_state(s, input, tolerance, smooth_duration_frames).previous_crop == s.previous_crop,
        next_state(s, input, tolerance, smooth_duration_frames).previous_object_count == s.previous_object_count,
        next_state(s, input, tolerance, smooth_duration_frames).history.len() == 0,
        emitted_frames(s, input, tolerance, smooth_duration_frames).last() == (CommittedFrame {
            image: input.image,
            crop: s.previous_crop->0,
        }),
{
}

/// A cut bypasses smoothing: whatever is pending, after a frame on which a
/// cut was detected the committed crop is that frame's own crop, the frame is
/// shown with it, and nothing is pending.
pub proof fn lemma_cut_bypasses_smoothing(
    s: SmoothingState,
    input: FrameInput,
    tolerance: Percentage,
    smooth_duration_frames: usize,
)
    requires
        s.wf(),
        input.cut_detected,
    ensures
        next_state(s, input, tolerance, smooth_duration_frames).previous_crop == Some(input.latest_crop),
        next_state(s, input, tolerance, smooth_duration_frames).previous_object_count == input.object_count,
        next_state(s, input, tolerance, smooth_duration_frames).history.len() == 0,
        emitted_frames(s, input, tolerance, smooth_duration_frames).last() == (CommittedFrame {
            image: input.image,
            crop: input.latest_crop,
        }),
{
}

/// A step neither loses nor reorders frames: the frames that leave the
/// engine, followed by those it then holds back, are the frames it held back
/// before, followed by the new one. (A frame that is passed through, the
/// window being zero, overtakes nothing where nothing is pending.)
pub proof fn lemma_step_keeps_frames(
    s: SmoothingState,
    input: FrameInput,
    tolerance: Percentage,
    smooth_duration_frames: usize,
)
    requires
        s.wf(),
        smooth_duration_frames == 0 ==> s.history.len() == 0,
    ensures
        ({
            let (after, emitted) = frame_step(s, input, tolerance, smooth_duration_frames);
            &&& after.wf()
            &&& smooth_duration_frames == 0 ==> after == s
            &&& images_of(emitted) + after.pending_images() == s.pending_images().push(input.image)
        }),
{
    let (after, emitted) = frame_step(s, input, tolerance, smooth_duration_frames);
    let left = images_of(emitted) + after.pending_images();
    let right = s.pending_images().push(input.image);
    if smooth_duration_frames > 0 {
        lemma_commit_drains_history(s, input, tolerance, smooth_duration_frames);
    }
    assert(left.len() == right.len());
    assert forall|i: int| 0 <= i < left.len() implies left[i] == right[i] by {
        if i < emitted.len() {
            assert(left[i] == emitted[i].image);
        } else {
            assert(left[i] == after.history[i - emitted.len()].image);
        }
    }
    assert(left =~= right);
}

/// No frame is lost on any stream: the frames that leave the engine while it
/// is fed `inputs`, followed by those that leave it at the end of the stream,
/// are the frames it held back at the start followed by the frames of
/// `inputs`, one for one and in their order. From a fresh engine, as many
/// frames come out as went in. (A stream that is passed through, its window
/// being zero, is taken to start with nothing pending.)
pub proof fn lemma_no_frame_lost(
    s: SmoothingState,
    inputs: Seq<FrameInput>,
    tolerance: Percentage,
    smooth_duration_frames: usize,
)
    requires
        s.wf(),
        smooth_duration_frames == 0 ==> s.history.len() == 0,
    ensures
        ({
            let (end, emitted) = run(s, inputs, tolerance, smooth_duration_frames);
            &&& end.wf()
            &&& smooth_duration_frames == 0 ==> end == s
            &&& images_of(emitted) + end.pending_images() == s.pending_images() + input_images(inputs)
            &&& images_of(emitted + final_frames(end)) == s.pending_images() + input_images(inputs)
            &&& (emitted + final_frames(end)).len() == s.history.len() + inputs.len()
        }),
    decreases inputs.len(),
{
    let (end, emitted) = run(s, inputs, tolerance, smooth_duration_frames);
    if inputs.len() == 0 {
        assert(images_of(emitted) + end.pending_images() =~= s.pending_images() + input_images(inputs));
    } else {
        let (before, earlier) = run(s, inputs.drop_last(), tolerance, smooth_duration_frames);
        let (after, more) = frame_step(before, inputs.last(), tolerance, smooth_duration_frames);
        lemma_no_frame_lost(s, inputs.drop_last(), tolerance, smooth_duration_frames);
        lemma_step_keeps_frames(before, inputs.last(), tolerance, smooth_duration_frames);
        assert(images_of(earlier + more) =~= images_of(earlier) + images_of(more));
        assert(input_images(inputs) =~= input_images(inputs.drop_last()).push(inputs.last().image));
        assert(images_of(emitted) + end.pending_images() =~= (images_of(earlier) + before.pending_images()).push(
            inputs.last().image,
        )) by {
            assert(images_of(earlier) + (images_of(more) + after.pending_images()) =~= (images_of(earlier)
                + images_of(more)) + after.pending_images());
            assert(images_of(earlier) + before.pending_images().push(inputs.last().image) =~= (images_of(earlier)
                + before.pending_images()).push(inputs.last().image));
        }
        assert((s.pending_images() + input_images(inputs.drop_last())).push(inputs.last().image) =~= s.pending_images()
            + input_images(inputs));
    }
    assert(images_of(emitted + final_frames(end)) =~= images_of(emitted) + end.pending_images());
    assert((images_of(emitted) + end.pending_images()).len() == s.history.len() + inputs.len());
}

} // verus!
