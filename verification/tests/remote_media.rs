use ani_core::remote_media::{oldest_session, session_access_allowed, session_expired};
use ani_core::remote_media::{asset_content_type, resolve_asset_choice, subtitle_asset_name, subtitle_extract_args, AssetChoice};
use ani_core::remote_media::{
    burned_subtitle_index, check_session_request, encode_path_segment, session_asset_base,
    session_stream_url, SessionAccess,
};
use ani_core::remote_media::video_extensions;
use ani_core::rpc::JsonValue;
use ani_core::contracts::{
    PlayerFrameInterpolation, PlayerRuntimePlatform, PlayerVideoEnhancement,
    RemoteDirectEnhancementStatus, RemotePlaybackEnhancement,
};
use ani_core::player::{upscale_rgb24_nearest, RawVideoFrame};
use ani_core::remote_media::{
    content_type_for_extension, direct_content_type, encoder_candidates, encoder_failure_message,
    encoder_is_degraded, encoder_video_args, escape_ffmpeg_filter_path, extension,
    ffmpeg_filter_available, hls_enhancement_profiles, is_hls_asset, is_subtitle_asset,
    join_degradation_reasons, model_backend_name, model_encoder_attempt_failure_message,
    normalize_extension, normalize_language, parse_requested_subtitle_mode, random_token,
    remote_video_filter_args, sanitize_label, secure_token_equals, subtitle_label,
    validate_direct_enhancement_diagnostics, validate_remote_enhancement, DirectEnhancementReport,
    RequestedSubtitleMode, SubtitleDisposition, SubtitleStream, SupportedSubtitle,
};

#[test]
fn selects_vendor_specific_video_options() {
    assert_eq!(encoder_video_args("h264_videotoolbox")[0], "h264_videotoolbox");
    assert!(encoder_video_args("h264_videotoolbox").contains(&"-realtime"));
    assert!(encoder_video_args("h264_videotoolbox").contains(&"-allow_sw"));
    assert_eq!(encoder_video_args("h264_nvenc")[0], "h264_nvenc");
    assert!(encoder_video_args("h264_nvenc").contains(&"-cq"));
    assert!(encoder_video_args("h264_amf").contains(&"-qp_i"));
    assert!(encoder_video_args("h264_qsv").contains(&"-global_quality"));
    assert!(encoder_video_args("libx264").contains(&"-crf"));
    assert!(encoder_video_args("libx264").contains(&"zerolatency"));
}

#[test]
fn keeps_software_encoder_as_the_last_fallback() {
    let candidates = encoder_candidates(PlayerRuntimePlatform::Linux);
    assert_eq!(candidates.last(), Some(&("libx264", "libx264")));
    assert!(!encoder_is_degraded(PlayerRuntimePlatform::Linux, candidates[0].1));
    if candidates.len() > 1 {
        assert!(encoder_is_degraded(PlayerRuntimePlatform::Linux, "libx264"));
    }
}

#[test]
fn prefers_videotoolbox_on_macos() {
    assert_eq!(
        encoder_candidates(PlayerRuntimePlatform::Macos),
        vec![("h264_videotoolbox", "videotoolbox"), ("libx264", "libx264"),]
    );
}

#[test]
fn tries_nvidia_amd_intel_before_software_on_windows() {
    assert_eq!(
        encoder_candidates(PlayerRuntimePlatform::Windows),
        vec![
            ("h264_nvenc", "nvenc"),
            ("h264_amf", "amf"),
            ("h264_qsv", "qsv"),
            ("libx264", "libx264"),
        ]
    );
}

#[test]
fn retries_motion_compensation_without_interpolation() {
    let profiles = hls_enhancement_profiles(RemotePlaybackEnhancement {
        video_enhancement: PlayerVideoEnhancement::Clear,
        frame_interpolation: PlayerFrameInterpolation::MotionCompensated,
    });
    assert_eq!(profiles.len(), 2);
    assert_eq!(
        profiles[0].enhancement.frame_interpolation,
        PlayerFrameInterpolation::MotionCompensated
    );
    assert_eq!(profiles[1].enhancement.frame_interpolation, PlayerFrameInterpolation::Off);
    assert!(profiles[1]
        .degradation_reason
        .is_some_and(|reason| reason.contains("已关闭远程插帧")));
}

#[test]
fn appends_the_last_ffmpeg_diagnostic_to_encoder_errors() {
    assert_eq!(
        encoder_failure_message("videotoolbox", "提前退出", "first diagnostic\nfinal diagnostic\n"),
        "编码器 videotoolbox 提前退出：final diagnostic"
    );
    assert_eq!(encoder_failure_message("libx264", "启动超时", ""), "编码器 libx264 启动超时");
}

#[test]
fn keeps_the_last_model_encoder_failure_actionable() {
    assert_eq!(
        model_encoder_attempt_failure_message("libx264", "编码器 libx264 模型远程管线启动超时"),
        "模型 HLS 编码器 libx264 启动失败：编码器 libx264 模型远程管线启动超时"
    );
}

#[test]
fn builds_actual_remote_enhancement_filter_chain() {
    let args = remote_video_filter_args(
        RemotePlaybackEnhancement {
            video_enhancement: PlayerVideoEnhancement::Clear,
            frame_interpolation: PlayerFrameInterpolation::MotionCompensated,
        },
        None,
    );
    assert_eq!(args[0], "-vf");
    assert!(args[1].contains("unsharp=7:7"));
    assert!(args[1].contains("minterpolate=fps=60"));
}

#[test]
fn appends_burned_subtitles_after_the_enhancement_filters() {
    let args = remote_video_filter_args(
        RemotePlaybackEnhancement {
            video_enhancement: PlayerVideoEnhancement::Clear,
            ..Default::default()
        },
        Some("C:\\media\\subtitle:01[main].ass"),
    );
    assert_eq!(args[0], "-vf");
    let filters = &args[1];
    assert!(filters.find("unsharp=7:7").unwrap() < filters.find("subtitles=").unwrap());
    assert!(filters.contains("subtitles=filename='C\\:/media/subtitle\\:01\\[main\\].ass'"));
}

#[test]
fn validates_subtitle_output_modes() {
    assert_eq!(parse_requested_subtitle_mode("soft").unwrap(), RequestedSubtitleMode::Soft);
    assert_eq!(parse_requested_subtitle_mode("burned").unwrap(), RequestedSubtitleMode::Burned);
    assert_eq!(parse_requested_subtitle_mode("off").unwrap(), RequestedSubtitleMode::Off);
    assert!(parse_requested_subtitle_mode("client-defined").is_err());
}

#[test]
fn detects_only_the_exact_ffmpeg_subtitle_filter() {
    let filters = b" ... null V->V Pass source\n .. subtitles V->V Render text\n";
    assert!(ffmpeg_filter_available(filters, "subtitles"));
    assert!(!ffmpeg_filter_available(filters, "subtitle"));
    assert!(!ffmpeg_filter_available(b" ... null V->V subtitles in help text", "subtitles"));
}

#[test]
fn rejects_enhancement_for_direct_and_unready_rife() {
    assert!(validate_remote_enhancement(
        "direct",
        RemotePlaybackEnhancement {
            video_enhancement: PlayerVideoEnhancement::Balanced,
            ..Default::default()
        }
    )
    .is_err());
    assert!(validate_remote_enhancement(
        "transcode",
        RemotePlaybackEnhancement {
            frame_interpolation: PlayerFrameInterpolation::DisplayResample,
            ..Default::default()
        }
    )
    .is_err());
    assert!(validate_remote_enhancement(
        "transcode",
        RemotePlaybackEnhancement {
            frame_interpolation: PlayerFrameInterpolation::RifeRealtime,
            ..Default::default()
        }
    )
    .is_ok());
}

#[test]
fn nearest_neighbor_fallback_preserves_rgb24_and_scale() {
    let frame = RawVideoFrame {
        width: 1,
        height: 1,
        stride: 3,
        pts_micros: 7,
        data: vec![10, 20, 30],
    };
    let output = upscale_rgb24_nearest(frame, 2).expect("upscale fallback");
    assert_eq!(
        (output.width, output.height, output.stride, output.pts_micros),
        (2, 2, 6, 7)
    );
    assert_eq!(output.data, vec![10, 20, 30, 10, 20, 30, 10, 20, 30, 10, 20, 30]);
}

#[test]
fn model_backend_names_active_models_and_degradation_reasons_are_unique() {
    assert_eq!(
        model_backend_name(Some("ncnn-vulkan"), Some("ncnn-vulkan")).as_deref(),
        Some("rife:ncnn-vulkan+realesrgan:ncnn-vulkan")
    );
    assert_eq!(model_backend_name(Some("ncnn-vulkan"), None).as_deref(), Some("rife:ncnn-vulkan"));
    assert_eq!(model_backend_name(None, None), None);
    assert_eq!(
        join_degradation_reasons(
            Some("RIFE 超时；显存不足".to_owned()),
            vec!["RIFE 超时".to_owned(), "Real-ESRGAN 超时".to_owned()]
        )
        .as_deref(),
        Some("RIFE 超时；显存不足；Real-ESRGAN 超时")
    );
}

#[test]
fn validates_asset_names() {
    assert!(is_hls_asset("index.m3u8"));
    assert!(is_hls_asset("segment-000001.ts"));
    assert!(!is_hls_asset("../segment-000001.ts"));
    assert!(is_subtitle_asset("subtitle-001.ass"));
    assert!(!is_subtitle_asset("subtitle-1.ass"));
}

#[test]
fn upscaling_rejects_overflowing_sizes_and_keeps_the_frame() {
    let frame = RawVideoFrame { width: u32::MAX, height: 1, stride: 0, pts_micros: 1, data: vec![] };
    let (back, message) = upscale_rgb24_nearest(frame, 2).unwrap_err();
    assert_eq!(back.width, u32::MAX);
    assert_eq!(message, "降级输出宽度溢出");
    let frame = RawVideoFrame { width: 2, height: 1, stride: 6, pts_micros: 0, data: vec![1, 2, 3, 4, 5, 6] };
    let same = upscale_rgb24_nearest(frame, 1).unwrap();
    assert_eq!(same.data, vec![1, 2, 3, 4, 5, 6]);
    let frame = RawVideoFrame { width: 2, height: 2, stride: 6, pts_micros: 0, data: (0..12).collect() };
    let zero = upscale_rgb24_nearest(frame, 0).unwrap();
    assert_eq!((zero.width, zero.height, zero.data.len()), (0, 0, 0));
}

#[test]
fn escapes_filter_paths_and_lists_filters_in_order() {
    assert_eq!(escape_ffmpeg_filter_path("a:b'c,d;e"), "a\\:b\\'c\\,d\\;e");
    assert_eq!(
        remote_video_filter_args(RemotePlaybackEnhancement::default(), None),
        Vec::<String>::new()
    );
    let balanced = remote_video_filter_args(
        RemotePlaybackEnhancement {
            video_enhancement: PlayerVideoEnhancement::Balanced,
            frame_interpolation: PlayerFrameInterpolation::Off,
        },
        Some("/tmp/s.ass"),
    );
    assert_eq!(
        balanced,
        vec![
            "-vf".to_owned(),
            "hqdn3d=1.2:1.2:4:4,unsharp=5:5:0.45:5:5:0,subtitles=filename='/tmp/s.ass'".to_owned()
        ]
    );
}

#[test]
fn reports_encoder_errors_and_enhancement_profiles() {
    assert_eq!(
        encoder_failure_message("x", "y", "  \n last line \r\n   \n"),
        "编码器 x y：last line"
    );
    let long = "z".repeat(600);
    let message = encoder_failure_message("x", "y", &long);
    assert_eq!(message.chars().count(), "编码器 x y：".chars().count() + 512);
    let single = hls_enhancement_profiles(RemotePlaybackEnhancement::default());
    assert_eq!(single.len(), 1);
    assert!(single[0].degradation_reason.is_none());
    assert_eq!(model_backend_name(None, Some("v")).as_deref(), Some("realesrgan:v"));
    assert_eq!(join_degradation_reasons(Some(" ； ".to_owned()), vec![]), None);
    assert_eq!(
        join_degradation_reasons(None, vec!["a；b".to_owned(), "b；a；c".to_owned()]).as_deref(),
        Some("a；b；c")
    );
    assert_eq!(
        validate_remote_enhancement("direct", RemotePlaybackEnhancement::default()).map_err(|e| e.code),
        Ok(())
    );
    assert_eq!(
        validate_remote_enhancement("direct", RemotePlaybackEnhancement {
            frame_interpolation: PlayerFrameInterpolation::MotionCompensated,
            ..Default::default()
        })
        .unwrap_err()
        .code,
        "MEDIA_ENHANCEMENT_REQUIRES_TRANSCODE"
    );
    assert!(encoder_is_degraded(PlayerRuntimePlatform::Macos, "libx264"));
    assert!(!encoder_is_degraded(PlayerRuntimePlatform::Other, "libx264"));
}

#[test]
fn labels_subtitles_and_languages() {
    assert_eq!(sanitize_label("  <b>Main</b>\u{7}  ").as_deref(), Some("bMain/b"));
    assert_eq!(sanitize_label(" \u{1} "), None);
    assert_eq!(normalize_language(Some(" ZHO ")).as_deref(), Some("中文"));
    assert_eq!(normalize_language(Some("und")), None);
    assert_eq!(normalize_language(Some("fr")).as_deref(), Some("fr"));
    assert_eq!(normalize_language(None), None);
    assert_eq!(subtitle_label(Some("简体"), Some("中文"), 0), "简体 / 中文");
    assert_eq!(subtitle_label(Some("中文"), Some("中文"), 0), "中文");
    assert_eq!(subtitle_label(None, None, 2), "字幕 3");
}

#[test]
fn classifies_subtitle_streams() {
    let stream = SubtitleStream {
        index: Some(3),
        codec_name: Some("SubRip".to_owned()),
        disposition: SubtitleDisposition { default: 1 },
        tags: vec![("language".to_owned(), "eng".to_owned())],
    };
    let supported = SupportedSubtitle::from_stream(stream).unwrap();
    assert_eq!((supported.index, supported.output_type), (3, "vtt"));
    let ass = SubtitleStream { index: Some(1), codec_name: Some("ssa".to_owned()), ..Default::default() };
    assert_eq!(SupportedSubtitle::from_stream(ass).unwrap().output_type, "ass");
    let image = SubtitleStream { index: Some(1), codec_name: Some("hdmv_pgs_subtitle".to_owned()), ..Default::default() };
    assert!(SupportedSubtitle::from_stream(image).is_none());
    let no_index = SubtitleStream { index: None, codec_name: Some("ass".to_owned()), ..Default::default() };
    assert!(SupportedSubtitle::from_stream(no_index).is_none());
}

#[test]
fn compares_tokens_and_names_content_types() {
    assert!(secure_token_equals(Some("abc"), "abc"));
    assert!(!secure_token_equals(Some("abc"), "abd"));
    assert!(!secure_token_equals(Some("abc"), "abcd"));
    assert!(!secure_token_equals(None, "abc"));
    assert_eq!(random_token(32).len(), 43);
    assert_ne!(random_token(32), random_token(32));
    assert_eq!(extension("Show/Ep 01.MKV"), ".mkv");
    assert_eq!(extension(".hidden"), "");
    assert_eq!(extension("archive.tar.GZ"), ".gz");
    assert_eq!(extension("plain"), "");
    assert_eq!(content_type_for_extension(".mkv"), "video/x-matroska");
    assert_eq!(content_type_for_extension(".M4V"), "application/octet-stream");
    assert_eq!(extension("/a/b/Movie.MP4"), ".mp4");
    assert_eq!(extension("/a/b/noext"), "");
    assert_eq!(direct_content_type("/a/b/Movie.MP4"), "video/mp4");
    assert_eq!(normalize_extension(" MKV "), ".mkv");
    assert_eq!(normalize_extension(".Avi"), ".avi");
}

fn report() -> DirectEnhancementReport {
    DirectEnhancementReport {
        sequence: 1,
        status: RemoteDirectEnhancementStatus::Active,
        capability_supported: true,
        web_codecs: true,
        audio_web_codecs: true,
        audio_context: true,
        shader: true,
        web_gpu: true,
        offscreen_canvas: true,
        media_capabilities: true,
        supported_codecs: vec!["avc1".to_owned(), "hev1".to_owned()],
        smooth_codecs: vec!["avc1".to_owned()],
        power_efficient_codecs: vec!["hev1".to_owned()],
        requested_preset: Some(PlayerVideoEnhancement::Clear),
        effective_preset: Some(PlayerVideoEnhancement::Balanced),
        audio_clock: Some("audio-context".to_owned()),
        range_request_count: 3,
        range_retry_count: 2,
        recovered_range_count: 1,
        degradation_reason: None,
    }
}

#[test]
fn validates_direct_enhancement_reports() {
    assert!(validate_direct_enhancement_diagnostics(&report(), None).is_ok());
    let mut zero = report();
    zero.sequence = 0;
    assert_eq!(validate_direct_enhancement_diagnostics(&zero, None).unwrap_err().message, "诊断序号必须大于 0");
    let mut summary = report();
    summary.web_gpu = false;
    assert_eq!(
        validate_direct_enhancement_diagnostics(&summary, None).unwrap_err().message,
        "终端能力汇总结论与明细不一致"
    );
    let mut clock = report();
    clock.audio_clock = Some("video".to_owned());
    assert_eq!(
        validate_direct_enhancement_diagnostics(&clock, None).unwrap_err().message,
        "增强激活状态必须使用 AudioContext 主时钟"
    );
    assert_eq!(
        validate_direct_enhancement_diagnostics(&report(), Some("丢帧比例")).unwrap_err().message,
        "丢帧比例超出有效范围"
    );
    let mut ranges = report();
    ranges.recovered_range_count = 5;
    assert_eq!(
        validate_direct_enhancement_diagnostics(&ranges, None).unwrap_err().message,
        "Range 恢复计数关系无效"
    );
    let mut codecs = report();
    codecs.power_efficient_codecs = vec!["vp09".to_owned()];
    assert_eq!(
        validate_direct_enhancement_diagnostics(&codecs, None).unwrap_err().message,
        "流畅或节能编解码器不在支持列表中"
    );
    let mut reason = report();
    reason.degradation_reason = Some("x".repeat(513));
    let error = validate_direct_enhancement_diagnostics(&reason, None).unwrap_err();
    assert_eq!((error.status, error.code), (400, "MEDIA_DIRECT_DIAGNOSTICS_INVALID"));
    assert_eq!(error.message, "降级原因超过长度上限");
}

#[test]
fn reads_video_extensions_from_settings() {
    let text = |t: &str| JsonValue::String(t.to_owned());
    let settings = |items: Vec<JsonValue>| {
        JsonValue::Object(vec![(
            "media".to_owned(),
            JsonValue::Object(vec![("videoExtensions".to_owned(), JsonValue::Array(items))]),
        )])
    };
    assert_eq!(
        video_extensions(&settings(vec![text(" MKV "), JsonValue::Bool(true), text(".mkv"), text("ts")])),
        vec![".mkv".to_owned(), ".ts".to_owned()]
    );
    assert_eq!(
        video_extensions(&settings(vec![])),
        vec![".mkv".to_owned(), ".mp4".to_owned(), ".avi".to_owned()]
    );
    assert_eq!(
        video_extensions(&JsonValue::Null),
        vec![".mkv".to_owned(), ".mp4".to_owned(), ".avi".to_owned()]
    );
}

fn plain() -> RemotePlaybackEnhancement {
    RemotePlaybackEnhancement {
        video_enhancement: PlayerVideoEnhancement::Off,
        frame_interpolation: PlayerFrameInterpolation::Off,
    }
}

fn refusal(result: Result<(bool, RequestedSubtitleMode), ani_core::remote_media::RemoteMediaError>) -> &'static str {
    match result {
        Ok(_) => "ok",
        Err(error) => error.code,
    }
}

#[test]
fn checks_session_requests_in_order() {
    assert!(matches!(check_session_request("direct", None, plain(), "off", None), Ok((false, RequestedSubtitleMode::Off))));
    assert!(matches!(
        check_session_request("transcode", Some(2), plain(), "burned", Some("sub-1")),
        Ok((true, RequestedSubtitleMode::Burned))
    ));
    assert_eq!(refusal(check_session_request("stream", None, plain(), "off", None)), "MEDIA_MODE_INVALID");
    assert_eq!(refusal(check_session_request("direct", Some(-1), plain(), "off", None)), "MEDIA_FILE_INVALID");
    let enhanced = RemotePlaybackEnhancement {
        video_enhancement: PlayerVideoEnhancement::Clear,
        frame_interpolation: PlayerFrameInterpolation::Off,
    };
    assert_eq!(
        refusal(check_session_request("direct", None, enhanced, "off", None)),
        "MEDIA_ENHANCEMENT_REQUIRES_TRANSCODE"
    );
    let resample = RemotePlaybackEnhancement {
        video_enhancement: PlayerVideoEnhancement::Off,
        frame_interpolation: PlayerFrameInterpolation::DisplayResample,
    };
    assert_eq!(
        refusal(check_session_request("transcode", None, resample, "off", None)),
        "MEDIA_INTERPOLATION_UNAVAILABLE"
    );
    assert_eq!(refusal(check_session_request("direct", None, plain(), "hard", None)), "MEDIA_SUBTITLE_MODE_INVALID");
    assert_eq!(
        refusal(check_session_request("direct", None, plain(), "burned", Some("s"))),
        "MEDIA_SUBTITLE_BURN_REQUIRES_TRANSCODE"
    );
    assert_eq!(refusal(check_session_request("transcode", None, plain(), "burned", None)), "MEDIA_SUBTITLE_INVALID");
}

#[test]
fn builds_session_addresses() {
    assert_eq!(session_asset_base("abc", None), "/api/media/sessions/abc");
    assert_eq!(session_asset_base("abc", Some("tok")), "/api/media/external/tok/sessions/abc");
    assert_eq!(session_stream_url("/base", true, SessionAccess::External, "a.mkv"), "/base/hls/index.m3u8");
    assert_eq!(session_stream_url("/base", false, SessionAccess::Browser, "a.mkv"), "/base/file");
    assert_eq!(
        session_stream_url("/base", false, SessionAccess::External, "第1话 #[v2].mkv"),
        "/base/%E7%AC%AC1%E8%AF%9D%20%23%5Bv2%5D.mkv"
    );
    assert_eq!(encode_path_segment("a b%/?~-_.!"), "a%20b%25%2F%3F~-_.!");
    assert_eq!(encode_path_segment("tab\tend"), "tab%09end");
}

#[test]
fn picks_the_subtitle_to_burn() {
    let prepared = vec!["s0".to_owned(), "s1".to_owned(), "s1".to_owned()];
    assert_eq!(burned_subtitle_index(&prepared, Some("s1")).ok(), Some(1));
    let missing = burned_subtitle_index(&prepared, Some("s9")).err().expect("conflict");
    assert_eq!(missing.status, 409);
    assert_eq!(missing.code, "MEDIA_SUBTITLE_UNAVAILABLE");
    assert!(burned_subtitle_index(&prepared, None).is_err());
}

#[test]
fn resolves_session_assets() {
    let subtitles = vec![
        ("/api/media/sessions/s1/subtitles/subtitle-000.ass".to_owned(), "ass".to_owned()),
        ("/api/media/sessions/s1/subtitles/subtitle-001.vtt".to_owned(), "vtt".to_owned()),
    ];
    assert_eq!(resolve_asset_choice("subtitle-000.ass", &subtitles, false, "a.mkv").ok(), Some(AssetChoice::Subtitle { ass: true }));
    assert_eq!(resolve_asset_choice("subtitle-001.vtt", &subtitles, true, "a.mkv").ok(), Some(AssetChoice::Subtitle { ass: false }));
    assert_eq!(resolve_asset_choice("file", &subtitles, true, "a.mkv").ok(), Some(AssetChoice::SourceFile));
    assert_eq!(resolve_asset_choice("a.mkv", &subtitles, true, "a.mkv").ok(), Some(AssetChoice::SourceFile));
    assert_eq!(resolve_asset_choice("b.mkv", &subtitles, true, "a.mkv").err().map(|e| e.code), Some("MEDIA_ASSET_NOT_FOUND"));
    assert_eq!(resolve_asset_choice("index.m3u8", &subtitles, false, "a.mkv").ok(), Some(AssetChoice::Playlist));
    assert_eq!(resolve_asset_choice("segment-000001.ts", &subtitles, false, "a.mkv").ok(), Some(AssetChoice::Segment));
    assert!(resolve_asset_choice("file", &subtitles, false, "a.mkv").is_err());
    assert_eq!(asset_content_type(AssetChoice::Subtitle { ass: true }, "x"), "text/x-ssa; charset=utf-8");
    assert_eq!(asset_content_type(AssetChoice::Playlist, "x"), "application/vnd.apple.mpegurl");
    assert_eq!(asset_content_type(AssetChoice::Segment, "x"), "video/mp2t");
    assert_eq!(asset_content_type(AssetChoice::SourceFile, "video/mp4"), "video/mp4");
}

#[test]
fn names_and_extracts_subtitle_streams() {
    assert_eq!(subtitle_asset_name(7, "ass"), "subtitle-007.ass");
    assert_eq!(subtitle_asset_name(1234, "vtt"), "subtitle-1234.vtt");
    assert_eq!(subtitle_extract_args(3, "ass"), vec!["-map", "0:3", "-c:s", "ass", "-y"]);
    assert_eq!(subtitle_extract_args(12, "vtt"), vec!["-map", "0:12", "-c:s", "webvtt", "-y"]);
}

#[test]
fn guards_and_expires_sessions() {
    assert!(session_access_allowed("dev-1", SessionAccess::Browser, None, Some("dev-1"), None));
    assert!(!session_access_allowed("dev-1", SessionAccess::Browser, None, Some("dev-2"), None));
    assert!(session_access_allowed("dev-1", SessionAccess::External, Some("tok"), None, Some("tok")));
    assert!(!session_access_allowed("dev-1", SessionAccess::External, Some("tok"), None, Some("other")));
    assert!(!session_access_allowed("dev-1", SessionAccess::Browser, Some("tok"), None, Some("tok")));
    assert!(session_access_allowed("dev-1", SessionAccess::External, None, None, None));
    assert_eq!(oldest_session(&vec![5]), None);
    assert_eq!(oldest_session(&vec![9, 3, 3]), Some(1));
    assert_eq!(oldest_session(&vec![2, 7]), Some(0));
    assert!(session_expired("2026-01-01T00:00:00.000Z", 1_767_225_600_000));
    assert!(!session_expired("2026-01-01T00:00:00.001Z", 1_767_225_600_000));
    assert!(session_expired("2026-01-01T00:00:00.0009Z", 1_767_225_600_000));
    assert!(session_expired("not a time", 0));
}
