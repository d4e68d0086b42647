use ani_core::contracts::{
    PlayerFrameInterpolation, PlayerRuntimePlatform, PlayerVideoEnhancement, RemotePlaybackEnhancement,
};
use ani_core::transcode::{
    first_transcode_attempt, hls_output_args, model_encoder_args, model_encoder_unavailable,
    model_output_dimensions, next_transcode_attempt, playlist_has_segment, transcode_args,
    transcode_degraded, transcoder_unavailable, usable_encoders, HlsAction, HlsPhase, HlsStartPlan,
};

fn enhancement(video: PlayerVideoEnhancement, frames: PlayerFrameInterpolation) -> RemotePlaybackEnhancement {
    RemotePlaybackEnhancement { video_enhancement: video, frame_interpolation: frames }
}

#[test]
fn builds_transcoder_arguments() {
    let plain = transcode_args("libx264", enhancement(PlayerVideoEnhancement::Off, PlayerFrameInterpolation::Off), None);
    assert_eq!(
        plain,
        vec![
            "-map", "0:v:0", "-map", "0:a:0?", "-c:v", "libx264", "-preset", "veryfast", "-tune", "zerolatency",
            "-crf", "23", "-pix_fmt", "yuv420p", "-c:a", "aac", "-b:a", "160k", "-ac", "2",
        ]
    );
    let model = model_encoder_args(
        "h264_qsv",
        enhancement(PlayerVideoEnhancement::Clear, PlayerFrameInterpolation::RifeRealtime),
        false,
        None,
    );
    assert_eq!(
        model,
        vec![
            "-map", "0:v:0", "-map", "1:a:0?", "-c:v", "h264_qsv", "-global_quality", "23", "-vf",
            "hqdn3d=0.8:0.8:3:3,unsharp=7:7:0.75:5:5:0", "-pix_fmt", "yuv420p", "-c:a", "aac", "-b:a", "160k",
            "-ac", "2", "-shortest",
        ]
    );
    let active = model_encoder_args(
        "libx264",
        enhancement(PlayerVideoEnhancement::Clear, PlayerFrameInterpolation::Off),
        true,
        None,
    );
    assert!(!active.iter().any(|arg| arg == "-vf"));
    let output = hls_output_args("seg-%06d.ts", "index.m3u8");
    assert_eq!(output.len(), 17);
    assert_eq!(output[5], "2");
    assert_eq!(output[15], "seg-%06d.ts");
    assert_eq!(output[16], "index.m3u8");
}

#[test]
fn computes_model_output_dimensions() {
    assert_eq!(model_output_dimensions(1920, 1080, 2).ok(), Some("3840x2160".to_owned()));
    let wide = model_output_dimensions(u32::MAX, 10, 2).err().expect("overflow");
    assert_eq!(wide.code, "MODEL_OUTPUT_SIZE_INVALID");
    assert_eq!(wide.message, "模型输出宽度溢出");
    let tall = model_output_dimensions(10, u32::MAX / 2 + 1, 2).err().expect("overflow");
    assert_eq!(tall.message, "模型输出高度溢出");
}

#[test]
fn keeps_probed_encoders_with_a_software_fallback() {
    let candidates = vec![("h264_nvenc", "nvenc"), ("h264_qsv", "qsv"), ("libx264", "libx264")];
    assert_eq!(usable_encoders(&candidates, &vec![false, true, true]), vec![("h264_qsv", "qsv"), ("libx264", "libx264")]);
    assert_eq!(usable_encoders(&candidates, &vec![false, false, false]), vec![("libx264", "libx264")]);
}

#[test]
fn detects_the_first_playlist_segment() {
    assert!(playlist_has_segment(b"#EXTM3U\n#EXTINF:2.0,\nsegment-000000.ts\n"));
    assert!(!playlist_has_segment(b"#EXTM3U\n#EXT-X-VERSION:3\n"));
    assert!(!playlist_has_segment(b"#EXTIN"));
    assert!(playlist_has_segment(b"#EXTINF"));
}

#[test]
fn orders_transcoder_attempts() {
    assert_eq!(first_transcode_attempt(2, 3), Some((0, 0)));
    assert_eq!(first_transcode_attempt(1, 0), None);
    assert_eq!(next_transcode_attempt(0, 0, 2, 3, true, true, Some("nvenc 启动超时")), Some((1, 0)));
    assert_eq!(next_transcode_attempt(0, 0, 2, 3, true, false, Some("nvenc 启动超时")), Some((0, 1)));
    assert_eq!(next_transcode_attempt(0, 0, 2, 3, false, true, Some("nvenc 启动超时")), Some((0, 1)));
    assert_eq!(next_transcode_attempt(0, 2, 2, 3, false, true, Some("exit")), Some((1, 0)));
    assert_eq!(next_transcode_attempt(1, 2, 2, 3, false, true, None), None);
    assert!(transcode_degraded(1, PlayerRuntimePlatform::Macos, "videotoolbox"));
    assert!(!transcode_degraded(0, PlayerRuntimePlatform::Macos, "videotoolbox"));
    assert!(transcode_degraded(0, PlayerRuntimePlatform::Macos, "libx264"));
    assert_eq!(transcoder_unavailable(None).message, "没有可用的 HLS 编码器");
    assert_eq!(transcoder_unavailable(Some("x".to_owned())).code, "TRANSCODER_UNAVAILABLE");
    assert_eq!(model_encoder_unavailable(None).message, "没有可用的视频编码器");
}

#[test]
fn plans_an_hls_start_with_models_and_fallbacks() {
    let plain = enhancement(PlayerVideoEnhancement::Balanced, PlayerFrameInterpolation::MotionCompensated);
    let (plan, action) = HlsStartPlan::new(plain);
    assert_eq!(plan.phase, HlsPhase::Done);
    assert_eq!(action, HlsAction::StartFfmpeg { enhancement: plain, fallback: false });

    let asked = enhancement(PlayerVideoEnhancement::Clear, PlayerFrameInterpolation::RifeRealtime);
    let (mut plan, action) = HlsStartPlan::new(asked);
    assert_eq!(action, HlsAction::AcquireRife);
    assert_eq!(plan.on_rife_runtime(Ok(())), HlsAction::AcquireRealesrgan);
    assert_eq!(plan.on_realesrgan_runtime(Err("no vulkan".to_owned())), HlsAction::ProbeVideo);
    let action = plan.on_video_probe(Ok((1, None)));
    assert_eq!(
        action,
        HlsAction::StartFfmpeg {
            enhancement: enhancement(PlayerVideoEnhancement::Clear, PlayerFrameInterpolation::Off),
            fallback: true,
        }
    );
    assert_eq!(plan.reasons, vec!["no vulkan".to_owned(), "当前处理链无法满足 2x AI 插帧预算，已保持源帧率".to_owned()]);

    let (mut plan, _) = HlsStartPlan::new(asked);
    plan.on_rife_runtime(Ok(()));
    plan.on_realesrgan_runtime(Ok(()));
    let action = plan.on_video_probe(Ok((2, None)));
    assert_eq!(action, HlsAction::StartModel(asked));
    assert_eq!(plan.on_model_start(Ok(())), HlsAction::UseModel);
    assert!(plan.reasons.is_empty());

    let (mut plan, _) = HlsStartPlan::new(asked);
    plan.on_rife_runtime(Ok(()));
    plan.on_realesrgan_runtime(Ok(()));
    let action = plan.on_video_probe(Err("ffprobe missing".to_owned()));
    assert_eq!(
        action,
        HlsAction::StartModel(enhancement(PlayerVideoEnhancement::Clear, PlayerFrameInterpolation::Off))
    );
    assert_eq!(plan.reasons, vec!["无法探测源帧率，已关闭 RIFE 插帧：ffprobe missing".to_owned()]);
    let action = plan.on_model_start(Err("pipeline exited".to_owned()));
    assert_eq!(
        action,
        HlsAction::StartFfmpeg {
            enhancement: enhancement(PlayerVideoEnhancement::Clear, PlayerFrameInterpolation::Off),
            fallback: true,
        }
    );
    assert_eq!(plan.phase, HlsPhase::Done);
}
