//! The frame loop of the model HLS pipeline as a state machine: the host reads RGB
//! frames from the decoder, runs the models and writes to the encoder; this module
//! decides, from what the host reports, which frame it writes next. With AI
//! interpolation at the start, the encoder runs at doubled cadence, and it keeps it:
//! once interpolation degrades, each frame is written twice.

use vstd::prelude::*;

verus! {

/// Where the frame loop stands.
#[derive(Debug, Clone, Copy, PartialEq, Eq, Structural)]
pub enum PipelinePhase {
    /// No frame has been read yet.
    AwaitFirst,
    /// A previous frame is held; the next one is being read.
    AwaitNext,
    /// The previous frame (enhanced) is being written.
    AwaitOriginal,
    /// The interpolation capacity is being checked before interpolating.
    AwaitCapacityBefore,
    /// The middle frame between the previous and the next is being interpolated.
    AwaitInterpolation,
    /// The interpolation capacity is being checked after interpolating.
    AwaitCapacityAfter,
    /// The second frame of the pair (middle or repeated original) is being written.
    AwaitSecondWrite,
    /// The last frame has been handed out.
    Finished,
    /// The decoder gave no frame at all.
    NoFrames,
}

/// The state of the frame loop. `doubled_cadence` is whether the encoder was started
/// at doubled frame rate; `interpolating` is whether AI interpolation is still in use.
#[derive(Debug, Clone, Copy, PartialEq, Eq, Structural)]
pub struct ModelPipelineState {
    pub phase: PipelinePhase,
    pub doubled_cadence: bool,
    pub interpolating: bool,
}

/// What the host reports.
#[derive(Debug, Clone, Copy, PartialEq, Eq, Structural)]
pub enum ModelPipelineEvent {
    /// The decoder gave one more frame.
    FrameRead,
    /// The decoder's output ended.
    StreamEnded,
    /// The enhanced previous frame was written.
    OriginalWritten,
    /// The interpolation capacity check answered.
    CapacityChecked { sufficient: bool },
    /// Interpolating the middle frame succeeded (it is then enhanced) or failed.
    Interpolated { succeeded: bool },
    /// The second frame of the pair was written.
    SecondWritten,
}

/// What the host does next.
#[derive(Debug, Clone, Copy, PartialEq, Eq, Structural)]
pub enum ModelPipelineAction {
    /// The frame just read becomes the previous one; read the next.
    NextFrame,
    /// Enhance the previous frame and write it.
    WriteOriginal,
    /// Check whether interpolation still fits the budget.
    CheckCapacity,
    /// Interpolate the middle frame between the previous and the next.
    Interpolate,
    /// Write the enhanced middle frame.
    WriteMiddle,
    /// Write the enhanced previous frame once more.
    RepeatOriginal,
    /// Record that interpolation degraded, then write the enhanced previous frame
    /// once more.
    DegradeAndRepeatOriginal,
    /// Enhance and write the last frame, twice when `repeat`.
    WriteLast { repeat: bool },
    /// Fail: the decoder gave no frame.
    FailNoFrames,
    /// The event does not fit the phase; nothing changed.
    Ignore,
}

/// The state a pipeline starts in; interpolation runs exactly when the encoder was
/// started at doubled cadence.
pub open spec fn pipeline_start_spec(interpolating: bool) -> ModelPipelineState {
    ModelPipelineState { phase: PipelinePhase::AwaitFirst, doubled_cadence: interpolating, interpolating }
}

/// One step of the frame loop.
/// - The first frame is kept and the next is read; a stream without frames fails.
/// - For each further frame, the previous one is written; without doubled cadence the
///   loop then moves on.
/// - With doubled cadence a second frame follows: while interpolating, the capacity is
///   checked, the middle is interpolated and the capacity checked again, and the
///   middle is written; a failed check before interpolating, or a failed
///   interpolation, ends interpolation for good and the previous frame is written
///   again (a failed interpolation is also recorded as a degradation); a failed check
///   after interpolating still writes that middle.
/// - At the end of the stream the last frame is written, twice under doubled cadence.
/// - An event that does not fit the phase changes nothing.
pub open spec fn pipeline_step_spec(s: ModelPipelineState, e: ModelPipelineEvent) -> (ModelPipelineState, ModelPipelineAction) {
    match (s.phase, e) {
        (PipelinePhase::AwaitFirst, ModelPipelineEvent::FrameRead) =>
            (ModelPipelineState { phase: PipelinePhase::AwaitNext, ..s }, ModelPipelineAction::NextFrame),
        (PipelinePhase::AwaitFirst, ModelPipelineEvent::StreamEnded) =>
            (ModelPipelineState { phase: PipelinePhase::NoFrames, ..s }, ModelPipelineAction::FailNoFrames),
        (PipelinePhase::AwaitNext, ModelPipelineEvent::FrameRead) =>
            (ModelPipelineState { phase: PipelinePhase::AwaitOriginal, ..s }, ModelPipelineAction::WriteOriginal),
        (PipelinePhase::AwaitNext, ModelPipelineEvent::StreamEnded) => (
            ModelPipelineState { phase: PipelinePhase::Finished, ..s },
            ModelPipelineAction::WriteLast { repeat: s.doubled_cadence },
        ),
        (PipelinePhase::AwaitOriginal, ModelPipelineEvent::OriginalWritten) => if !s.doubled_cadence {
            (ModelPipelineState { phase: PipelinePhase::AwaitNext, ..s }, ModelPipelineAction::NextFrame)
        } else if s.interpolating {
            (ModelPipelineState { phase: PipelinePhase::AwaitCapacityBefore, ..s }, ModelPipelineAction::CheckCapacity)
        } else {
            (ModelPipelineState { phase: PipelinePhase::AwaitSecondWrite, ..s }, ModelPipelineAction::RepeatOriginal)
        },
        (PipelinePhase::AwaitCapacityBefore, ModelPipelineEvent::CapacityChecked { sufficient }) => if sufficient {
            (ModelPipelineState { phase: PipelinePhase::AwaitInterpolation, ..s }, ModelPipelineAction::Interpolate)
        } else {
            (
                ModelPipelineState { phase: PipelinePhase::AwaitSecondWrite, interpolating: false, ..s },
                ModelPipelineAction::RepeatOriginal,
            )
        },
        (PipelinePhase::AwaitInterpolation, ModelPipelineEvent::Interpolated { succeeded }) => if succeeded {
            (ModelPipelineState { phase: PipelinePhase::AwaitCapacityAfter, ..s }, ModelPipelineAction::CheckCapacity)
        } else {
            (
                ModelPipelineState { phase: PipelinePhase::AwaitSecondWrite, interpolating: false, ..s },
                ModelPipelineAction::DegradeAndRepeatOriginal,
            )
        },
        (PipelinePhase::AwaitCapacityAfter, ModelPipelineEvent::CapacityChecked { sufficient }) => (
            ModelPipelineState { phase: PipelinePhase::AwaitSecondWrite, interpolating: s.interpolating && sufficient, ..s },
            ModelPipelineAction::WriteMiddle,
        ),
        (PipelinePhase::AwaitSecondWrite, ModelPipelineEvent::SecondWritten) =>
            (ModelPipelineState { phase: PipelinePhase::AwaitNext, ..s }, ModelPipelineAction::NextFrame),
        _ => (s, ModelPipelineAction::Ignore),
    }
}

/// The state a pipeline starts in (see `pipeline_start_spec`).
pub fn model_pipeline_start(interpolating: bool) -> (r: ModelPipelineState)
    ensures
        r == pipeline_start_spec(interpolating),
{
    ModelPipelineState { phase: PipelinePhase::AwaitFirst, doubled_cadence: interpolating, interpolating }
}

/// Takes one step of the frame loop (see `pipeline_step_spec`).
pub fn model_pipeline_step(state: &mut ModelPipelineState, event: ModelPipelineEvent) -> (action: ModelPipelineAction)
    ensures
        (*final(state), action) == pipeline_step_spec(*old(state), event),
{
    let s = *state;
    match (s.phase, event) {
        (PipelinePhase::AwaitFirst, ModelPipelineEvent::FrameRead) => {
            state.phase = PipelinePhase::AwaitNext;
            ModelPipelineAction::NextFrame
        },
        (PipelinePhase::AwaitFirst, ModelPipelineEvent::StreamEnded) => {
            state.phase = PipelinePhase::NoFrames;
            ModelPipelineAction::FailNoFrames
        },
        (PipelinePhase::AwaitNext, ModelPipelineEvent::FrameRead) => {
            state.phase = PipelinePhase::AwaitOriginal;
            ModelPipelineAction::WriteOriginal
        },
        (PipelinePhase::AwaitNext, ModelPipelineEvent::StreamEnded) => {
            state.phase = PipelinePhase::Finished;
            ModelPipelineAction::WriteLast { repeat: s.doubled_cadence }
        },
        (PipelinePhase::AwaitOriginal, ModelPipelineEvent::OriginalWritten) => {
            if !s.doubled_cadence {
                state.phase = PipelinePhase::AwaitNext;
                ModelPipelineAction::NextFrame
            } else if s.interpolating {
                state.phase = PipelinePhase::AwaitCapacityBefore;
                ModelPipelineAction::CheckCapacity
            } else {
                state.phase = PipelinePhase::AwaitSecondWrite;
                ModelPipelineAction::RepeatOriginal
            }
        },
        (PipelinePhase::AwaitCapacityBefore, ModelPipelineEvent::CapacityChecked { sufficient }) => {
            if sufficient {
                state.phase = PipelinePhase::AwaitInterpolation;
                ModelPipelineAction::Interpolate
            } else {
                state.phase = PipelinePhase::AwaitSecondWrite;
                state.interpolating = false;
                ModelPipelineAction::RepeatOriginal
            }
        },
        (PipelinePhase::AwaitInterpolation, ModelPipelineEvent::Interpolated { succeeded }) => {
            if succeeded {
                state.phase = PipelinePhase::AwaitCapacityAfter;
                ModelPipelineAction::CheckCapacity
            } else {
                state.phase = PipelinePhase::AwaitSecondWrite;
                state.interpolating = false;
                ModelPipelineAction::DegradeAndRepeatOriginal
            }
        },
        (PipelinePhase::AwaitCapacityAfter, ModelPipelineEvent::CapacityChecked { sufficient }) => {
            state.phase = PipelinePhase::AwaitSecondWrite;
            state.interpolating = s.interpolating && sufficient;
            ModelPipelineAction::WriteMiddle
        },
        (PipelinePhase::AwaitSecondWrite, ModelPipelineEvent::SecondWritten) => {
            state.phase = PipelinePhase::AwaitNext;
            ModelPipelineAction::NextFrame
        },
        _ => ModelPipelineAction::Ignore,
    }
}

/// The doubled cadence is kept whatever happens, and interpolation, once ended, never
/// comes back.
pub proof fn lemma_cadence_kept_and_degradation_final(s: ModelPipelineState, e: ModelPipelineEvent)
    ensures
        pipeline_step_spec(s, e).0.doubled_cadence == s.doubled_cadence,
        !s.interpolating ==> !pipeline_step_spec(s, e).0.interpolating,
{
}

/// Under doubled cadence a written original is always followed by a second frame of
/// the pair before the loop moves on; without it, the loop moves on at once.
pub proof fn lemma_written_original_is_paired(s: ModelPipelineState)
    requires
        s.phase == PipelinePhase::AwaitOriginal,
    ensures
        ({
            let (t, action) = pipeline_step_spec(s, ModelPipelineEvent::OriginalWritten);
            &&& s.doubled_cadence ==> action != ModelPipelineAction::NextFrame
            &&& s.doubled_cadence ==> t.phase != PipelinePhase::AwaitNext
            &&& !s.doubled_cadence ==> action == ModelPipelineAction::NextFrame
        }),
{
}

/// From a state that waits for the second frame of a pair, writing it returns to
/// reading; and every way into that state names a frame to write.
pub proof fn lemma_second_write_leads_to_next_frame(s: ModelPipelineState, e: ModelPipelineEvent)
    ensures
        pipeline_step_spec(s, e).0.phase == PipelinePhase::AwaitSecondWrite && s.phase != PipelinePhase::AwaitSecondWrite
            ==> (pipeline_step_spec(s, e).1 == ModelPipelineAction::WriteMiddle
            || pipeline_step_spec(s, e).1 == ModelPipelineAction::RepeatOriginal
            || pipeline_step_spec(s, e).1 == ModelPipelineAction::DegradeAndRepeatOriginal),
        s.phase == PipelinePhase::AwaitSecondWrite && e == ModelPipelineEvent::SecondWritten
            ==> pipeline_step_spec(s, e) == (ModelPipelineState { phase: PipelinePhase::AwaitNext, ..s }, ModelPipelineAction::NextFrame),
{
}

} // verus!
