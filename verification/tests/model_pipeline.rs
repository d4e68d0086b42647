use ani_core::model_pipeline::{
    model_pipeline_start, model_pipeline_step, ModelPipelineAction, ModelPipelineEvent, PipelinePhase,
};

#[test]
fn interpolates_then_keeps_doubled_cadence_after_degrading() {
    let mut s = model_pipeline_start(true);
    let mut step = |e| model_pipeline_step(&mut s, e);
    assert_eq!(step(ModelPipelineEvent::FrameRead), ModelPipelineAction::NextFrame);
    // First pair: interpolation works.
    assert_eq!(step(ModelPipelineEvent::FrameRead), ModelPipelineAction::WriteOriginal);
    assert_eq!(step(ModelPipelineEvent::OriginalWritten), ModelPipelineAction::CheckCapacity);
    assert_eq!(step(ModelPipelineEvent::CapacityChecked { sufficient: true }), ModelPipelineAction::Interpolate);
    assert_eq!(step(ModelPipelineEvent::Interpolated { succeeded: true }), ModelPipelineAction::CheckCapacity);
    assert_eq!(step(ModelPipelineEvent::CapacityChecked { sufficient: true }), ModelPipelineAction::WriteMiddle);
    assert_eq!(step(ModelPipelineEvent::SecondWritten), ModelPipelineAction::NextFrame);
    // Second pair: interpolation fails and degrades.
    assert_eq!(step(ModelPipelineEvent::FrameRead), ModelPipelineAction::WriteOriginal);
    assert_eq!(step(ModelPipelineEvent::OriginalWritten), ModelPipelineAction::CheckCapacity);
    assert_eq!(step(ModelPipelineEvent::CapacityChecked { sufficient: true }), ModelPipelineAction::Interpolate);
    assert_eq!(
        step(ModelPipelineEvent::Interpolated { succeeded: false }),
        ModelPipelineAction::DegradeAndRepeatOriginal
    );
    assert_eq!(step(ModelPipelineEvent::SecondWritten), ModelPipelineAction::NextFrame);
    // Third pair: the original is repeated to keep the cadence.
    assert_eq!(step(ModelPipelineEvent::FrameRead), ModelPipelineAction::WriteOriginal);
    assert_eq!(step(ModelPipelineEvent::OriginalWritten), ModelPipelineAction::RepeatOriginal);
    assert_eq!(step(ModelPipelineEvent::SecondWritten), ModelPipelineAction::NextFrame);
    assert_eq!(step(ModelPipelineEvent::StreamEnded), ModelPipelineAction::WriteLast { repeat: true });
    assert_eq!(s.phase, PipelinePhase::Finished);
    assert!(s.doubled_cadence);
    assert!(!s.interpolating);
}

#[test]
fn passes_frames_through_without_interpolation_and_fails_without_frames() {
    let mut s = model_pipeline_start(false);
    assert_eq!(model_pipeline_step(&mut s, ModelPipelineEvent::FrameRead), ModelPipelineAction::NextFrame);
    assert_eq!(model_pipeline_step(&mut s, ModelPipelineEvent::FrameRead), ModelPipelineAction::WriteOriginal);
    assert_eq!(model_pipeline_step(&mut s, ModelPipelineEvent::OriginalWritten), ModelPipelineAction::NextFrame);
    assert_eq!(model_pipeline_step(&mut s, ModelPipelineEvent::SecondWritten), ModelPipelineAction::Ignore);
    assert_eq!(
        model_pipeline_step(&mut s, ModelPipelineEvent::StreamEnded),
        ModelPipelineAction::WriteLast { repeat: false }
    );
    let mut empty = model_pipeline_start(true);
    assert_eq!(model_pipeline_step(&mut empty, ModelPipelineEvent::StreamEnded), ModelPipelineAction::FailNoFrames);
    assert_eq!(empty.phase, PipelinePhase::NoFrames);
}

#[test]
fn a_failed_capacity_check_ends_interpolation() {
    let mut s = model_pipeline_start(true);
    model_pipeline_step(&mut s, ModelPipelineEvent::FrameRead);
    model_pipeline_step(&mut s, ModelPipelineEvent::FrameRead);
    model_pipeline_step(&mut s, ModelPipelineEvent::OriginalWritten);
    assert_eq!(
        model_pipeline_step(&mut s, ModelPipelineEvent::CapacityChecked { sufficient: false }),
        ModelPipelineAction::RepeatOriginal
    );
    assert!(!s.interpolating);
}
