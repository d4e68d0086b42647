use ani_core::player::{after_dispatch, precheck_command};
use ani_core::sidecar::check_frame_response;
use ani_core::sidecar::{
    check_frame_pair, check_handshake_response, check_model_request, p95_index, warmup_stride,
};
use ani_core::player::{
    invalid_command, transport_error, unsupported, valid_identifier, BoundedFrameQueue,
    EnhancementDecision, EnhancementScheduler, EnhancementStage, PlayerSessionGate,
    PlayerTransportError,
};
use ani_core::contracts::{PlayerErrorCode, PlayerRecoveryAction};
use ani_core::player::{
    validate_command, validate_model_manifest, CommandCheck, EnhancementBudget,
    EnhancementModelManifest, ExactValue,
};
use ani_core::sidecar::{aggregate_digest, sort_files_by_path, ModelSidecarFile};
use ani_core::sidecar::{
    check_manifest_versions, decode_header, digests_match, encode_header, frame_bytes,
    is_sha256_text, midpoint_pts, validate_handshake, EnhancementModelManifestFile,
    HandshakePayload, MessageHeader, MessageKind, ModelOperation, ModelSidecarManifest,
};

fn manifest() -> ModelSidecarManifest {
    ModelSidecarManifest {
        schema_version: 1,
        protocol_version: 1,
        executable: "sidecar".to_owned(),
        executable_sha256: "a".repeat(64),
        model: EnhancementModelManifestFile {
            model_id: "rife-v4.6".to_owned(),
            backend: "ncnn-vulkan".to_owned(),
            operation: ModelOperation::Interpolate,
            output_scale: 1,
            directory: "models/rife-v4.6".to_owned(),
            input_width: 8,
            input_height: 8,
            required_vram_bytes: 1,
            estimated_frame_time_ms: 1,
        },
        files: Vec::new(),
    }
}

#[test]
fn validates_only_matching_vulkan_handshake() {
    let manifest = manifest();
    let valid = HandshakePayload {
        ready: true,
        protocol_version: 1,
        backend: "ncnn-vulkan".to_owned(),
        gpu_device: "AMD Radeon".to_owned(),
        model_id: "rife-v4.6".to_owned(),
    };
    assert!(validate_handshake(&valid, &manifest).is_ok());
    assert!(validate_handshake(&HandshakePayload { gpu_device: String::new(), ..valid }, &manifest).is_err());
}

#[test]
fn handshake_errors_name_the_first_problem() {
    let manifest = manifest();
    let base = HandshakePayload {
        ready: true,
        protocol_version: 1,
        backend: "ncnn-vulkan".to_owned(),
        gpu_device: "GPU".to_owned(),
        model_id: "rife-v4.6".to_owned(),
    };
    assert_eq!(
        validate_handshake(&HandshakePayload { ready: false, ..base.clone() }, &manifest).unwrap_err(),
        "模型 sidecar 未完成运行时初始化"
    );
    assert_eq!(
        validate_handshake(&HandshakePayload { model_id: "x".to_owned(), ..base.clone() }, &manifest).unwrap_err(),
        "模型 sidecar 自报后端或模型与清单不一致"
    );
    let mut cpu = manifest.clone();
    cpu.model.backend = "cpu".to_owned();
    assert_eq!(
        validate_handshake(&HandshakePayload { backend: "cpu".to_owned(), ..base }, &cpu).unwrap_err(),
        "模型 sidecar 未确认 Vulkan GPU 设备"
    );
}

#[test]
fn checks_manifest_versions_and_digests() {
    assert!(check_manifest_versions(&manifest()).is_ok());
    let mut scaled = manifest();
    scaled.model.output_scale = 2;
    assert_eq!(check_manifest_versions(&scaled).unwrap_err(), "模型 sidecar 输出倍率无效");
    scaled.model.operation = ModelOperation::Enhance;
    assert!(check_manifest_versions(&scaled).is_ok());
    let mut old = manifest();
    old.schema_version = 2;
    assert_eq!(check_manifest_versions(&old).unwrap_err(), "模型 sidecar 清单或协议版本不兼容");
    assert!(is_sha256_text(&"aF09".repeat(16)));
    assert!(!is_sha256_text(&"g".repeat(64)));
    assert!(!is_sha256_text("abc"));
    assert!(digests_match("ABCdef", "abcDEF"));
    assert!(!digests_match("abc", "abd"));
}

#[test]
fn encodes_and_decodes_message_headers() {
    let bytes = encode_header(MessageKind::FrameResponse, 42, 640, 360, 1920, -7, 1000).unwrap();
    assert_eq!(bytes.len(), 48);
    assert_eq!(&bytes[0..8], b"ANIFRM1\0");
    assert_eq!(&bytes[8..12], &[1, 0, 5, 0]);
    let header: [u8; 48] = bytes.try_into().unwrap();
    let decoded = decode_header(&header, 4096).unwrap();
    assert_eq!(
        decoded,
        MessageHeader {
            kind: MessageKind::FrameResponse,
            request_id: 42,
            width: 640,
            height: 360,
            stride: 1920,
            pts_micros: -7,
            payload_len: 1000,
        }
    );
    assert_eq!(decode_header(&header, 999).unwrap_err(), "模型 sidecar 返回数据超过限制");
    let request: [u8; 48] = encode_header(MessageKind::InterpolateRequest, 1, 1, 1, 3, 0, 0)
        .unwrap()
        .try_into()
        .unwrap();
    assert_eq!(decode_header(&request, 10).unwrap_err(), "模型 sidecar 返回未知消息类型");
    let mut broken = header;
    broken[0] = b'X';
    assert_eq!(decode_header(&broken, 4096).unwrap_err(), "模型 sidecar 返回未知协议");
}

#[test]
fn sizes_frames_and_interpolation_timestamps() {
    assert_eq!(frame_bytes(2, 2, 64), Ok(12));
    assert_eq!(frame_bytes(100, 100, 64).unwrap_err(), "模型 warmup 帧超过限制");
    assert_eq!(midpoint_pts(0, 10), 5);
    assert_eq!(midpoint_pts(10, 0), 5);
    assert_eq!(midpoint_pts(-3, 0), -2);
    assert_eq!(midpoint_pts(i64::MIN, i64::MAX), -4611686018427387905);
    assert_eq!(midpoint_pts(i64::MAX, i64::MIN), 4611686018427387903);
}

#[test]
fn bounded_queue_drops_oldest_frames() {
    let mut queue = BoundedFrameQueue::new(0);
    queue.push(1);
    queue.push(2);
    assert_eq!(queue.len(), 1);
    assert_eq!(queue.dropped_frames(), 1);
    assert_eq!(queue.pop(), Some(2));
    assert!(queue.is_empty());
    let mut queue = BoundedFrameQueue::new(2);
    for frame in 0..5 {
        queue.push(frame);
    }
    assert_eq!(queue.len(), 2);
    assert_eq!(queue.dropped_frames(), 3);
    assert_eq!(queue.pop(), Some(3));
    assert_eq!(queue.pop(), Some(4));
    assert_eq!(queue.pop(), None);
}

#[test]
fn scheduler_requires_ready_models_and_falls_back_in_order() {
    let all = EnhancementScheduler { model_usable: true, interpolator_usable: true, shader_available: true };
    assert_eq!(all.decide(EnhancementStage::FrameInterpolation), EnhancementDecision::FrameInterpolation);
    let no_interpolator = EnhancementScheduler { interpolator_usable: false, ..all };
    assert_eq!(
        no_interpolator.decide(EnhancementStage::FrameInterpolation),
        EnhancementDecision::ModelSuperResolution
    );
    let shader_only = EnhancementScheduler { model_usable: false, interpolator_usable: false, shader_available: true };
    assert_eq!(shader_only.decide(EnhancementStage::ModelSuperResolution), EnhancementDecision::Shader);
    let nothing = EnhancementScheduler { shader_available: false, ..shader_only };
    assert_eq!(nothing.decide(EnhancementStage::Shader), EnhancementDecision::Disabled);
}

#[test]
fn gates_commands_and_snapshots_by_session() {
    let mut gate = PlayerSessionGate::new();
    assert!(!gate.admits_command("s1", false));
    assert!(gate.admits_command("s1", true));
    gate.record_load("s1".to_owned());
    assert!(gate.admits_command("s1", false));
    assert!(!gate.admits_command("s0", false));
    assert!(gate.offer_snapshot("s1", 3));
    assert!(!gate.offer_snapshot("s1", 3));
    assert!(!gate.offer_snapshot("s1", 2));
    assert!(gate.offer_snapshot("s1", 4));
    assert!(!gate.offer_snapshot("s0", 9));
    gate.clear();
    assert!(!gate.offer_snapshot("s1", 10));
}

#[test]
fn builds_player_errors() {
    let result = unsupported("c1", "no pip".to_owned());
    assert!(!result.accepted);
    let error = result.error.unwrap();
    assert_eq!(error.code, PlayerErrorCode::Unsupported);
    assert!(!error.recoverable);
    let invalid = invalid_command("bad".to_owned());
    assert_eq!(invalid.recovery_actions, vec![PlayerRecoveryAction::Retry]);
    let missing = transport_error(PlayerTransportError::Unavailable("mpv".to_owned()));
    assert_eq!(missing.message, "播放器运行时不可用：mpv");
    assert_eq!(missing.code, PlayerErrorCode::RuntimeMissing);
    assert_eq!(missing.recovery_actions, vec![PlayerRecoveryAction::Close]);
    let native = transport_error(PlayerTransportError::Native("x".to_owned()));
    assert!(native.recoverable);
    assert_eq!(native.recovery_actions, vec![PlayerRecoveryAction::Retry, PlayerRecoveryAction::Close]);
    assert!(valid_identifier("cmd:1", true));
    assert!(!valid_identifier("cmd:1", false));
    assert!(!valid_identifier("", true));
    assert!(!valid_identifier(&"a".repeat(161), true));
}

fn exact(value: f64) -> Option<ExactValue> {
    if !value.is_finite() {
        return None;
    }
    let bits = value.to_bits();
    let negative = bits >> 63 == 1;
    let biased = ((bits >> 52) & 0x7ff) as i32;
    let fraction = (bits & ((1u64 << 52) - 1)) as i64;
    let (mantissa, exponent) = if biased == 0 {
        (fraction, -1074)
    } else {
        (fraction | (1i64 << 52), biased - 1075)
    };
    Some(ExactValue { mantissa: if negative { -mantissa } else { mantissa }, exponent })
}

#[test]
fn validates_numeric_player_commands() {
    let invalid_seek = CommandCheck::Seek { position_seconds: exact(f64::NAN) };
    let invalid_rate = CommandCheck::SetRate { rate: exact(3.0) };
    let invalid_subtitle_scale = CommandCheck::SetSubtitleScale { subtitle_scale: 130 };

    assert!(validate_command("command-seek", "session-1", &invalid_seek).is_some());
    assert!(validate_command("command-rate", "session-1", &invalid_rate).is_some());
    assert!(validate_command("command-subtitle-scale", "session-1", &invalid_subtitle_scale).is_some());
}

#[test]
fn accepts_offered_rates_volumes_and_tracks() {
    for rate in [0.5, 0.75, 1.0, 1.25, 1.5, 2.0] {
        assert!(validate_command("c", "s", &CommandCheck::SetRate { rate: exact(rate) }).is_none());
    }
    assert!(validate_command("c", "s", &CommandCheck::SetRate { rate: exact(1.1) }).is_some());
    assert!(validate_command("c", "s", &CommandCheck::SetVolume { volume: exact(0.0) }).is_none());
    assert!(validate_command("c", "s", &CommandCheck::SetVolume { volume: exact(1.0) }).is_none());
    let loud = validate_command("c", "s", &CommandCheck::SetVolume { volume: exact(1.0000001) }).expect("too loud");
    assert_eq!(loud.message, "音量参数无效");
    assert_eq!(loud.code, PlayerErrorCode::Unknown);
    assert!(loud.recoverable);
    assert_eq!(loud.recovery_actions, vec![PlayerRecoveryAction::Retry]);
    assert!(validate_command("c", "s", &CommandCheck::Seek { position_seconds: exact(-0.5) }).is_some());
    assert!(validate_command("c", "s", &CommandCheck::Seek { position_seconds: exact(12.25) }).is_none());
    assert!(validate_command("c", "s", &CommandCheck::SelectAudioTrack { track_id: "-2".into() }).is_none());
    assert_eq!(
        validate_command("c", "s", &CommandCheck::SelectAudioTrack { track_id: "2147483648".into() }).expect("range").message,
        "音轨标识无效"
    );
    assert!(validate_command("c", "s", &CommandCheck::SelectSubtitleTrack { track_id: Some("ext:zh.ass".into()) }).is_none());
    assert!(validate_command("c", "s", &CommandCheck::SelectSubtitleTrack { track_id: Some("bad id".into()) }).is_some());
    assert!(validate_command("c", "s", &CommandCheck::SetCustomAspectRatio { value: Some(String::new()) }).is_some());
    assert!(validate_command("c", "s", &CommandCheck::SetCustomAspectRatio { value: Some("16:9".into()) }).is_none());
    let load = |start: Option<Option<ExactValue>>| CommandCheck::Load {
        task_id: "task-1".into(),
        title: "测试媒体".into(),
        uri: "file:///a.mkv".into(),
        start_position_seconds: start,
    };
    assert!(validate_command("c", "s", &load(None)).is_none());
    assert!(validate_command("c", "s", &load(Some(exact(f64::INFINITY)))).is_some());
    assert_eq!(
        validate_command("c:1", "s:1", &CommandCheck::Other).expect("colon in session").message,
        "播放器命令或会话标识无效"
    );
    assert!(validate_command("c:1", "s-1", &CommandCheck::Other).is_none());
}

#[test]
fn validates_model_manifest_and_bounds_frame_queue() {
    let manifest = EnhancementModelManifest {
        model_id: "rife-v4".to_owned(),
        backend: "onnx-runtime".to_owned(),
        weight_sha256: "a".repeat(64),
        input_width: 1920,
        input_height: 1080,
        required_vram_bytes: 1,
        estimated_frame_time_ms: 8,
    };
    assert!(validate_model_manifest(&manifest, 2, exact(16.67)).is_ok());
    assert!(validate_model_manifest(&manifest, 0, exact(16.67)).is_err());

    let mut queue = BoundedFrameQueue::new(2);
    queue.push(1);
    queue.push(2);
    queue.push(3);
    assert_eq!(queue.len(), 2);
    assert_eq!(queue.pop(), Some(2));
    assert_eq!(queue.dropped_frames(), 1);
}

#[test]
fn checks_frame_time_budgets_exactly() {
    let budget = |target: f64, estimate: f64| EnhancementBudget {
        target_frame_time_ms: exact(target),
        estimated_frame_time_ms: exact(estimate),
        available_vram_bytes: 2,
        required_vram_bytes: 1,
    };
    assert!(budget(16.67, 8.0).fits());
    assert!(budget(8.0, 8.0).fits());
    assert!(!budget(7.999999999, 8.0).fits());
    assert!(!budget(0.0, 0.0).fits());
    assert!(!budget(f64::NAN, 1.0).fits());
    assert!(!budget(f64::INFINITY, 1.0).fits());
    let manifest = |id: &str, digest: &str, width: u32| EnhancementModelManifest {
        model_id: id.to_owned(),
        backend: "onnx-runtime".to_owned(),
        weight_sha256: digest.to_owned(),
        input_width: width,
        input_height: 1080,
        required_vram_bytes: 1,
        estimated_frame_time_ms: 8,
    };
    let digest = "A".repeat(64);
    assert_eq!(validate_model_manifest(&manifest("  ", &digest, 1920), 2, exact(16.67)), Err("模型标识或推理后端为空".to_string()));
    assert_eq!(validate_model_manifest(&manifest("m", &digest, 0), 2, exact(16.67)), Err("模型输入尺寸无效".to_string()));
    assert_eq!(validate_model_manifest(&manifest("m", "g", 1920), 2, exact(16.67)), Err("模型权重 SHA-256 摘要无效".to_string()));
    assert_eq!(validate_model_manifest(&manifest("m", &digest, 1920), 2, exact(7.5)), Err("模型超出当前帧时间或显存预算".to_string()));
    assert_eq!(validate_model_manifest(&manifest("m", &digest, 1920), 2, exact(16.67)), Ok(()));
}

#[test]
fn digests_bundle_files_in_path_order() {
    let file = |path: &str, sha: String| ModelSidecarFile { path: path.to_owned(), sha256: sha };
    let files = vec![
        file("models/b.bin", "AB".repeat(32)),
        file("models/a.bin", "cd".repeat(32)),
        file("models/a.bin", "ef".repeat(32)),
    ];
    let sorted = sort_files_by_path(&files);
    let order: Vec<(&str, &str)> = sorted.iter().map(|f| (f.path.as_str(), &f.sha256[..2])).collect();
    assert_eq!(order, vec![("models/a.bin", "cd"), ("models/a.bin", "ef"), ("models/b.bin", "AB")]);
    assert_eq!(
        aggregate_digest(&files),
        "7e5122510e99b0411df71ec55eb8285d264729d642f27d4966b5b16035228ebe"
    );
    assert_eq!(
        aggregate_digest(&Vec::new()),
        "e3b0c44298fc1c149afbf4c8996fb92427ae41e4649b934ca495991b7852b855"
    );
}

#[test]
fn gates_model_frame_requests() {
    assert_eq!(p95_index(0), 0);
    assert_eq!(p95_index(1), 0);
    assert_eq!(p95_index(20), 18);
    assert_eq!(p95_index(120), 113);
    assert_eq!(
        check_model_request(ModelOperation::Enhance, ModelOperation::Interpolate, true),
        Err("当前模型 sidecar 不提供插帧操作".to_owned())
    );
    assert_eq!(
        check_model_request(ModelOperation::Interpolate, ModelOperation::Enhance, true),
        Err("当前模型 sidecar 不提供单帧增强操作".to_owned())
    );
    assert_eq!(
        check_model_request(ModelOperation::Enhance, ModelOperation::Enhance, false),
        Err("模型 sidecar 已降级关闭".to_owned())
    );
    assert!(check_model_request(ModelOperation::Enhance, ModelOperation::Enhance, true).is_ok());
    assert!(check_frame_pair((4, 2, 12), (4, 2, 12)).is_ok());
    assert_eq!(check_frame_pair((4, 2, 12), (4, 2, 16)), Err("插帧输入的两帧尺寸不一致".to_owned()));
    let header = MessageHeader {
        kind: MessageKind::HandshakeResponse,
        request_id: 1,
        width: 0,
        height: 0,
        stride: 0,
        pts_micros: 0,
        payload_len: 0,
    };
    assert!(check_handshake_response(&header).is_ok());
    assert!(check_handshake_response(&MessageHeader { request_id: 2, ..header }).is_err());
    assert!(check_handshake_response(&MessageHeader { kind: MessageKind::FrameResponse, ..header }).is_err());
    assert_eq!(warmup_stride(640), 1920);
    assert_eq!(warmup_stride(u32::MAX), u32::MAX);
}

#[test]
fn checks_frame_response_headers() {
    let header = MessageHeader {
        kind: MessageKind::FrameResponse,
        request_id: 9,
        width: 8,
        height: 4,
        stride: 24,
        pts_micros: 0,
        payload_len: 96,
    };
    assert!(check_frame_response(&header, 9, 8, 4, ModelOperation::Interpolate, 4).is_ok());
    assert_eq!(
        check_frame_response(&header, 10, 8, 4, ModelOperation::Interpolate, 1),
        Err("模型 sidecar 帧响应与请求不匹配".to_owned())
    );
    assert!(check_frame_response(&MessageHeader { width: 16, height: 8, stride: 48, ..header }, 9, 8, 4, ModelOperation::Enhance, 2).is_ok());
    assert_eq!(
        check_frame_response(&header, 9, 8, 4, ModelOperation::Enhance, 2),
        Err("模型 sidecar 返回了意外帧尺寸".to_owned())
    );
    assert_eq!(
        check_frame_response(&header, 9, u32::MAX, 4, ModelOperation::Enhance, 2),
        Err("模型输出宽度溢出".to_owned())
    );
    assert_eq!(
        check_frame_response(&header, 9, 8, u32::MAX, ModelOperation::Enhance, 2),
        Err("模型输出高度溢出".to_owned())
    );
    assert_eq!(
        check_frame_response(&header, 9, u32::MAX / 2, 4, ModelOperation::Interpolate, 1),
        Err("模型输出步长溢出".to_owned())
    );
}

fn load_check() -> CommandCheck {
    CommandCheck::Load {
        task_id: "task-1".to_owned(),
        title: "测试媒体".to_owned(),
        uri: "ani-player://session-1/media".to_owned(),
        start_position_seconds: None,
    }
}

#[test]
fn rejects_commands_from_stale_session() {
    let mut gate = PlayerSessionGate::new();
    assert!(precheck_command(&gate, "command-1", "session-1", &load_check()).is_none());
    after_dispatch(&mut gate, true, true, "session-1");

    let result = precheck_command(&gate, "command-2", "session-2", &CommandCheck::Other).expect("refused");
    assert!(!result.accepted);
    assert!(result.error.is_some());
    assert_eq!(result.error.map(|e| e.message), Some("播放器会话已切换，请重试".to_owned()));
    assert!(precheck_command(&gate, "command-3", "session-1", &CommandCheck::Other).is_none());

    let invalid = precheck_command(&gate, "bad id", "session-1", &CommandCheck::Other).expect("refused");
    assert_eq!(invalid.command_id, "bad id");
    assert_eq!(invalid.error.map(|e| e.message), Some("播放器命令或会话标识无效".to_owned()));

    after_dispatch(&mut gate, false, true, "session-9");
    assert_eq!(gate.active_session_id.as_deref(), Some("session-1"));
}

#[test]
fn checks_bundle_files_against_their_digests() {
    let abc = "ba7816bf8f01cfea414140de5dae2223b00361a396177a9cb410ff61f20015ad";
    assert_eq!(ani_core::sidecar::file_digest_text(b"abc"), abc);
    assert!(ani_core::sidecar::check_file_digest(b"abc", &abc.to_uppercase(), "bin/run").is_ok());
    assert_eq!(
        ani_core::sidecar::check_file_digest(b"abd", abc, "bin/run").unwrap_err(),
        "模型 sidecar 资源摘要不一致：bin/run"
    );
    assert_eq!(
        ani_core::sidecar::check_file_digest(b"abc", "xyz", "bin/run").unwrap_err(),
        "模型 sidecar SHA-256 格式无效"
    );
}
