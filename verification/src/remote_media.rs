//! Decisions of the remote media sessions: what a client may ask for, which encoder
//! and filters a transcode uses, how failures are reported, and the names and labels
//! of the assets a session serves.

use vstd::prelude::*;
use vstd::utf8::encode_utf8;
use crate::contracts::{
    RemoteDirectEnhancementStatus,
    PlayerFrameInterpolation, PlayerRuntimePlatform, PlayerVideoEnhancement, RemotePlaybackEnhancement,
};
use crate::gateway::{hex_upper, is_hls_name, is_hls_name_spec, is_subtitle_name, is_subtitle_name_spec};
use crate::rpc::{json_get, object_get, JsonValue};
use crate::text::{
    append_chars, append_str, chars_eq, chars_of, eq_str, join_chars, join_spec, split_chars,
    split_on, string_of, take_chars, take_spec, trim, trim_chars, ascii_lower, to_ascii_lower,
    is_control_char, control_char, split_words, words, decimal, format_decimal, has_prefix,
    starts_with, lossy_text, utf8_lossy, path_extension, ends_with, last_segment, name_extension, plain_path, has_suffix, format_padded, pad_left,
};

verus! {

/// A protocol error of the remote media sessions.
#[derive(Debug)]
pub struct RemoteMediaError {
    pub status: u16,
    pub code: &'static str,
    pub message: String,
}

impl RemoteMediaError {
    /// Builds an error from its parts.
    pub fn new(status: u16, code: &'static str, message: String) -> (r: Self)
        ensures
            r.status == status,
            r.code@ == code@,
            r.message@ == message@,
    {
        RemoteMediaError { status, code, message }
    }
}

/// The error that stands for an internal failure; the detail is not shown to clients.
pub fn internal_media_error() -> (r: RemoteMediaError)
    ensures
        r.status == 500,
        r.code@ == "MEDIA_SERVICE_FAILED"@,
        r.message@ == "远程媒体服务内部错误"@,
{
    RemoteMediaError::new(500, "MEDIA_SERVICE_FAILED", String::from_str("远程媒体服务内部错误"))
}

/// The error for a session that does not exist or has expired.
pub fn session_not_found() -> (r: RemoteMediaError)
    ensures
        r.status == 404,
        r.code@ == "MEDIA_SESSION_NOT_FOUND"@,
        r.message@ == "播放会话不存在或已过期"@,
{
    RemoteMediaError::new(404, "MEDIA_SESSION_NOT_FOUND", String::from_str("播放会话不存在或已过期"))
}

/// The error for an asset that a session does not have.
pub fn asset_not_found() -> (r: RemoteMediaError)
    ensures
        r.status == 404,
        r.code@ == "MEDIA_ASSET_NOT_FOUND"@,
        r.message@ == "媒体资源不存在"@,
{
    RemoteMediaError::new(404, "MEDIA_ASSET_NOT_FOUND", String::from_str("媒体资源不存在"))
}

/// How a client wants the subtitles of a transcode.
#[derive(Debug, Clone, Copy, PartialEq, Eq, Structural)]
pub enum RequestedSubtitleMode {
    Soft,
    Burned,
    Off,
}

/// The subtitle output mode that a client's text names.
pub open spec fn subtitle_mode_spec(value: Seq<char>) -> Option<RequestedSubtitleMode> {
    if value == "soft"@ {
        Some(RequestedSubtitleMode::Soft)
    } else if value == "burned"@ {
        Some(RequestedSubtitleMode::Burned)
    } else if value == "off"@ {
        Some(RequestedSubtitleMode::Off)
    } else {
        None
    }
}

/// Reads the subtitle output mode a client asked for.
pub fn parse_requested_subtitle_mode(value: &str) -> (r: Result<RequestedSubtitleMode, RemoteMediaError>)
    ensures
        match r {
            Ok(m) => subtitle_mode_spec(value@) == Some(m),
            Err(e) => subtitle_mode_spec(value@) is None && e.status == 400 && e.code@
                == "MEDIA_SUBTITLE_MODE_INVALID"@,
        },
{
    let v = chars_of(value);
    if eq_str(v.as_slice(), "soft") {
        Ok(RequestedSubtitleMode::Soft)
    } else if eq_str(v.as_slice(), "burned") {
        Ok(RequestedSubtitleMode::Burned)
    } else if eq_str(v.as_slice(), "off") {
        Ok(RequestedSubtitleMode::Off)
    } else {
        Err(
            RemoteMediaError::new(
                400,
                "MEDIA_SUBTITLE_MODE_INVALID",
                String::from_str("字幕输出模式无效"),
            ),
        )
    }
}

/// Whether an enhancement asks for any image processing.
pub open spec fn enhancement_enabled(e: RemotePlaybackEnhancement) -> bool {
    e.video_enhancement != PlayerVideoEnhancement::Off || e.frame_interpolation
        != PlayerFrameInterpolation::Off
}

/// Checks that enhancement is asked only of transcodes, and never as display resampling.
pub fn validate_remote_enhancement(requested_mode: &str, enhancement: RemotePlaybackEnhancement) -> (r: Result<(), RemoteMediaError>)
    ensures
        requested_mode@ != "transcode"@ && enhancement_enabled(enhancement) ==> (r matches Err(e)
            && e.status == 400 && e.code@ == "MEDIA_ENHANCEMENT_REQUIRES_TRANSCODE"@),
        !(requested_mode@ != "transcode"@ && enhancement_enabled(enhancement))
            && enhancement.frame_interpolation == PlayerFrameInterpolation::DisplayResample ==> (r matches Err(e)
            && e.status == 400 && e.code@ == "MEDIA_INTERPOLATION_UNAVAILABLE"@),
        !(requested_mode@ != "transcode"@ && enhancement_enabled(enhancement))
            && enhancement.frame_interpolation != PlayerFrameInterpolation::DisplayResample ==> r is Ok,
{
    let enabled = !matches!(enhancement.video_enhancement, PlayerVideoEnhancement::Off)
        || !matches!(enhancement.frame_interpolation, PlayerFrameInterpolation::Off);
    let mode = chars_of(requested_mode);
    if !eq_str(mode.as_slice(), "transcode") && enabled {
        return Err(
            RemoteMediaError::new(
                400,
                "MEDIA_ENHANCEMENT_REQUIRES_TRANSCODE",
                String::from_str("远程画质增强和插帧只能在实时转码模式使用"),
            ),
        );
    }
    if matches!(enhancement.frame_interpolation, PlayerFrameInterpolation::DisplayResample) {
        return Err(
            RemoteMediaError::new(
                400,
                "MEDIA_INTERPOLATION_UNAVAILABLE",
                String::from_str("远程转码不使用播放器显示刷新率重采样"),
            ),
        );
    }
    Ok(())
}

/// Characters that a filter argument escapes with a backslash.
pub open spec fn is_filter_special(c: char) -> bool {
    c == ':' || c == '\'' || c == ',' || c == '[' || c == ']' || c == ';'
}

/// A subtitle path as a filter argument: backslashes become slashes, and special
/// characters are escaped.
pub open spec fn escape_filter_path_spec(s: Seq<char>) -> Seq<char>
    decreases s.len(),
{
    if s.len() == 0 {
        Seq::empty()
    } else {
        let c = if s.last() == '\\' {
            '/'
        } else {
            s.last()
        };
        escape_filter_path_spec(s.drop_last()) + if is_filter_special(c) {
            seq!['\\', c]
        } else {
            seq![c]
        }
    }
}

/// Escapes a subtitle path for a libavfilter argument.
pub fn escape_ffmpeg_filter_path(path: &str) -> (r: String)
    ensures
        r@ == escape_filter_path_spec(path@),
{
    let v = chars_of(path);
    let mut out: Vec<char> = Vec::new();
    let mut i: usize = 0;
    while i < v.len()
        invariant
            i <= v@.len(),
            out@ == escape_filter_path_spec(v@.subrange(0, i as int)),
        decreases v@.len() - i,
    {
        proof {
            assert(v@.subrange(0, i + 1).drop_last() =~= v@.subrange(0, i as int));
        }
        let c = if v[i] == '\\' {
            '/'
        } else {
            v[i]
        };
        if c == ':' || c == '\'' || c == ',' || c == '[' || c == ']' || c == ';' {
            out.push('\\');
        }
        out.push(c);
        proof {
            let prev = escape_filter_path_spec(v@.subrange(0, i as int));
            if is_filter_special(c) {
                assert(out@ =~= prev + seq!['\\', c]);
            } else {
                assert(out@ =~= prev + seq![c]);
            }
        }
        i = i + 1;
    }
    assert(v@.subrange(0, v@.len() as int) =~= v@);
    string_of(out.as_slice())
}

/// The filters a transcode applies, in order.
pub open spec fn video_filters_spec(e: RemotePlaybackEnhancement, burn: Option<Seq<char>>) -> Seq<Seq<char>> {
    let image = match e.video_enhancement {
        PlayerVideoEnhancement::Off => Seq::<Seq<char>>::empty(),
        PlayerVideoEnhancement::Balanced => seq!["hqdn3d=1.2:1.2:4:4"@, "unsharp=5:5:0.45:5:5:0"@],
        PlayerVideoEnhancement::Clear => seq!["hqdn3d=0.8:0.8:3:3"@, "unsharp=7:7:0.75:5:5:0"@],
    };
    let motion = if e.frame_interpolation == PlayerFrameInterpolation::MotionCompensated {
        seq!["minterpolate=fps=60:mi_mode=mci:mc_mode=aobmc:me_mode=bidir:vsbmc=1"@]
    } else {
        Seq::<Seq<char>>::empty()
    };
    let subtitles = match burn {
        Some(p) => seq!["subtitles=filename='"@ + escape_filter_path_spec(p) + "'"@],
        None => Seq::<Seq<char>>::empty(),
    };
    image + motion + subtitles
}

/// The `-vf` arguments of a transcode: none when no filter applies.
pub open spec fn video_filter_args_spec(e: RemotePlaybackEnhancement, burn: Option<Seq<char>>) -> Seq<Seq<char>> {
    let filters = video_filters_spec(e, burn);
    if filters.len() == 0 {
        Seq::empty()
    } else {
        seq!["-vf"@, join_spec(filters, ","@)]
    }
}

fn push_lit(v: &mut Vec<Vec<char>>, lit: &str)
    ensures
        final(v)@.len() == old(v)@.len() + 1,
        forall|k: int| 0 <= k < old(v)@.len() ==> #[trigger] final(v)@[k] == old(v)@[k],
        final(v)@[old(v)@.len() as int]@ == lit@,
{
    v.push(chars_of(lit));
}

/// Builds the `-vf` arguments of a transcode: image enhancement, then motion
/// interpolation, then burned subtitles.
pub fn remote_video_filter_args(enhancement: RemotePlaybackEnhancement, burn_subtitle: Option<&str>) -> (r: Vec<String>)
    ensures
        r@.map_values(|s: String| s@) == video_filter_args_spec(
            enhancement,
            match burn_subtitle {
                Some(p) => Some(p@),
                None => None,
            },
        ),
{
    let ghost burn = match burn_subtitle {
        Some(p) => Some(p@),
        None => None::<Seq<char>>,
    };
    let mut filters: Vec<Vec<char>> = Vec::new();
    match enhancement.video_enhancement {
        PlayerVideoEnhancement::Off => {},
        PlayerVideoEnhancement::Balanced => {
            push_lit(&mut filters, "hqdn3d=1.2:1.2:4:4");
            push_lit(&mut filters, "unsharp=5:5:0.45:5:5:0");
        },
        PlayerVideoEnhancement::Clear => {
            push_lit(&mut filters, "hqdn3d=0.8:0.8:3:3");
            push_lit(&mut filters, "unsharp=7:7:0.75:5:5:0");
        },
    }
    if matches!(enhancement.frame_interpolation, PlayerFrameInterpolation::MotionCompensated) {
        push_lit(&mut filters, "minterpolate=fps=60:mi_mode=mci:mc_mode=aobmc:me_mode=bidir:vsbmc=1");
    }
    match burn_subtitle {
        Some(path) => {
            let mut f = chars_of("subtitles=filename='");
            let escaped = escape_ffmpeg_filter_path(path);
            let escaped_chars = chars_of(escaped.as_str());
            append_chars(&mut f, escaped_chars.as_slice());
            append_str(&mut f, "'");
            filters.push(f);
        },
        None => {},
    }
    let ghost expected = video_filters_spec(enhancement, burn);
    assert(filters@.map_values(|p: Vec<char>| p@) =~= expected);
    if filters.len() == 0 {
        let out: Vec<String> = Vec::new();
        assert(out@.map_values(|s: String| s@) =~= Seq::<Seq<char>>::empty());
        return out;
    }
    let comma = chars_of(",");
    let joined = join_chars(&filters, comma.as_slice());
    let mut out: Vec<String> = Vec::new();
    out.push(String::from_str("-vf"));
    out.push(string_of(joined.as_slice()));
    assert(out@.map_values(|s: String| s@) =~= seq!["-vf"@, join_spec(expected, ","@)]);
    out
}

/// One attempt of a transcode: the enhancement it uses, and why it was lowered, if it was.
#[derive(Debug, Clone, Copy)]
pub struct HlsEnhancementProfile {
    pub enhancement: RemotePlaybackEnhancement,
    pub degradation_reason: Option<&'static str>,
}

/// The attempts of a transcode: as asked, then, for motion compensation, once more
/// without interpolation.
pub fn hls_enhancement_profiles(enhancement: RemotePlaybackEnhancement) -> (r: Vec<HlsEnhancementProfile>)
    ensures
        r@.len() == if enhancement.frame_interpolation == PlayerFrameInterpolation::MotionCompensated {
            2int
        } else {
            1int
        },
        r@[0].enhancement == enhancement,
        r@[0].degradation_reason is None,
        r@.len() == 2 ==> r@[1].enhancement == (RemotePlaybackEnhancement {
            frame_interpolation: PlayerFrameInterpolation::Off,
            ..enhancement
        }),
        r@.len() == 2 ==> (r@[1].degradation_reason matches Some(m) && m@
            == "运动补偿未能在实时预算内启动，已关闭远程插帧"@),
{
    let mut profiles: Vec<HlsEnhancementProfile> = Vec::new();
    profiles.push(HlsEnhancementProfile { enhancement, degradation_reason: None });
    if matches!(enhancement.frame_interpolation, PlayerFrameInterpolation::MotionCompensated) {
        profiles.push(
            HlsEnhancementProfile {
                enhancement: RemotePlaybackEnhancement {
                    video_enhancement: enhancement.video_enhancement,
                    frame_interpolation: PlayerFrameInterpolation::Off,
                },
                degradation_reason: Some("运动补偿未能在实时预算内启动，已关闭远程插帧"),
            },
        );
    }
    profiles
}

/// The video arguments valid for each encoder.
pub open spec fn encoder_args_spec(codec: Seq<char>) -> Seq<Seq<char>> {
    if codec == "h264_videotoolbox"@ {
        seq![
            "h264_videotoolbox"@, "-realtime"@, "1"@, "-allow_sw"@, "1"@, "-prio_speed"@, "1"@,
            "-b:v"@, "6M"@, "-maxrate"@, "8M"@, "-bufsize"@, "12M"@,
        ]
    } else if codec == "h264_nvenc"@ {
        seq!["h264_nvenc"@, "-preset"@, "p4"@, "-rc"@, "vbr"@, "-cq"@, "23"@]
    } else if codec == "h264_amf"@ {
        seq!["h264_amf"@, "-quality"@, "balanced"@, "-qp_i"@, "23"@, "-qp_p"@, "23"@]
    } else if codec == "h264_qsv"@ {
        seq!["h264_qsv"@, "-global_quality"@, "23"@]
    } else {
        seq!["libx264"@, "-preset"@, "veryfast"@, "-tune"@, "zerolatency"@, "-crf"@, "23"@]
    }
}

/// Returns the video arguments valid for an encoder, so that software options never
/// reach a hardware encoder.
pub fn encoder_video_args(codec: &str) -> (r: Vec<&'static str>)
    ensures
        r@.map_values(|s: &str| s@) == encoder_args_spec(codec@),
{
    let c = chars_of(codec);
    let r: Vec<&'static str> = if eq_str(c.as_slice(), "h264_videotoolbox") {
        vec![
            "h264_videotoolbox", "-realtime", "1", "-allow_sw", "1", "-prio_speed", "1", "-b:v",
            "6M", "-maxrate", "8M", "-bufsize", "12M",
        ]
    } else if eq_str(c.as_slice(), "h264_nvenc") {
        vec!["h264_nvenc", "-preset", "p4", "-rc", "vbr", "-cq", "23"]
    } else if eq_str(c.as_slice(), "h264_amf") {
        vec!["h264_amf", "-quality", "balanced", "-qp_i", "23", "-qp_p", "23"]
    } else if eq_str(c.as_slice(), "h264_qsv") {
        vec!["h264_qsv", "-global_quality", "23"]
    } else {
        vec!["libx264", "-preset", "veryfast", "-tune", "zerolatency", "-crf", "23"]
    };
    assert(r@.map_values(|s: &str| s@) =~= encoder_args_spec(codec@));
    r
}


/// The encoders a platform tries, best first, each with its short name.
pub open spec fn encoder_candidates_spec(platform: PlayerRuntimePlatform) -> Seq<(Seq<char>, Seq<char>)> {
    match platform {
        PlayerRuntimePlatform::Macos => seq![
            ("h264_videotoolbox"@, "videotoolbox"@),
            ("libx264"@, "libx264"@),
        ],
        PlayerRuntimePlatform::Windows => seq![
            ("h264_nvenc"@, "nvenc"@),
            ("h264_amf"@, "amf"@),
            ("h264_qsv"@, "qsv"@),
            ("libx264"@, "libx264"@),
        ],
        PlayerRuntimePlatform::Linux => seq![
            ("h264_nvenc"@, "nvenc"@),
            ("h264_qsv"@, "qsv"@),
            ("libx264"@, "libx264"@),
        ],
        PlayerRuntimePlatform::Other => seq![("libx264"@, "libx264"@)],
    }
}

/// The encoders a platform tries, best first; software encoding always comes last.
pub fn encoder_candidates(platform: PlayerRuntimePlatform) -> (r: Vec<(&'static str, &'static str)>)
    ensures
        r@.map_values(|c: (&str, &str)| (c.0@, c.1@)) == encoder_candidates_spec(platform),
{
    let r: Vec<(&'static str, &'static str)> = match platform {
        PlayerRuntimePlatform::Macos => vec![("h264_videotoolbox", "videotoolbox"), ("libx264", "libx264")],
        PlayerRuntimePlatform::Windows => vec![
            ("h264_nvenc", "nvenc"),
            ("h264_amf", "amf"),
            ("h264_qsv", "qsv"),
            ("libx264", "libx264"),
        ],
        PlayerRuntimePlatform::Linux => vec![("h264_nvenc", "nvenc"), ("h264_qsv", "qsv"), ("libx264", "libx264")],
        PlayerRuntimePlatform::Other => vec![("libx264", "libx264")],
    };
    assert(r@.map_values(|c: (&str, &str)| (c.0@, c.1@)) =~= encoder_candidates_spec(platform));
    r
}

/// Software encoding is the last candidate of every platform.
pub proof fn lemma_software_encoder_last(platform: PlayerRuntimePlatform)
    ensures
        encoder_candidates_spec(platform).len() >= 1,
        encoder_candidates_spec(platform).last() == ("libx264"@, "libx264"@),
{
}

/// An encoder is degraded when it is not the platform's first choice.
pub open spec fn encoder_degraded_spec(platform: PlayerRuntimePlatform, encoder: Seq<char>) -> bool {
    encoder_candidates_spec(platform)[0].1 != encoder
}

/// Whether the encoder in use is not the platform's first choice.
pub fn encoder_is_degraded(platform: PlayerRuntimePlatform, encoder: &str) -> (r: bool)
    ensures
        r == encoder_degraded_spec(platform, encoder@),
{
    let candidates = encoder_candidates(platform);
    proof {
        lemma_software_encoder_last(platform);
        assert(candidates@.map_values(|c: (&str, &str)| (c.0@, c.1@)).len() == candidates@.len());
        assert(candidates@.len() >= 1);
        assert(candidates@.map_values(|c: (&str, &str)| (c.0@, c.1@))[0] == (candidates@[0].0@, candidates@[0].1@));
    }
    let preferred = chars_of(candidates[0].1);
    let e = chars_of(encoder);
    !chars_eq(preferred.as_slice(), e.as_slice())
}

/// The last non-empty line of a diagnostic, trimmed.
pub open spec fn last_diagnostic(lines: Seq<Seq<char>>) -> Option<Seq<char>>
    decreases lines.len(),
{
    if lines.len() == 0 {
        None
    } else if trim(lines.last()).len() > 0 {
        Some(trim(lines.last()))
    } else {
        last_diagnostic(lines.drop_last())
    }
}

/// An encoder failure, with the last line FFmpeg printed (at most 512 characters) when
/// there is one.
pub open spec fn encoder_failure_spec(encoder: Seq<char>, summary: Seq<char>, stderr: Seq<char>) -> Seq<char> {
    match last_diagnostic(split_on(stderr, '\n')) {
        Some(detail) => "编码器 "@ + encoder + " "@ + summary + "："@ + take_spec(detail, 512),
        None => "编码器 "@ + encoder + " "@ + summary,
    }
}

/// Combines a stable failure summary with FFmpeg's last diagnostic line.
pub fn encoder_failure_message(encoder: &str, summary: &str, stderr: &str) -> (r: String)
    ensures
        r@ == encoder_failure_spec(encoder@, summary@, stderr@),
{
    let text = chars_of(stderr);
    let lines = split_chars(text.as_slice(), '\n');
    let ghost sp = split_on(stderr@, '\n');
    let mut detail: Option<Vec<char>> = None;
    let mut i: usize = lines.len();
    assert(sp.subrange(0, sp.len() as int) =~= sp);
    while i > 0 && detail.is_none()
        invariant
            i <= lines@.len(),
            lines@.len() == sp.len(),
            forall|k: int| 0 <= k < lines@.len() ==> #[trigger] lines@[k]@ == sp[k],
            detail is None ==> last_diagnostic(sp.subrange(0, i as int)) == last_diagnostic(sp),
            detail matches Some(d) ==> last_diagnostic(sp) == Some(d@),
        decreases i,
    {
        let line = trim_chars(lines[i - 1].as_slice());
        proof {
            let pre = sp.subrange(0, i as int);
            assert(pre.last() == sp[i - 1]);
            assert(pre.drop_last() =~= sp.subrange(0, i - 1));
        }
        if line.len() > 0 {
            detail = Some(line);
        }
        i = i - 1;
    }
    proof {
        if detail is None {
            assert(sp.subrange(0, 0) =~= Seq::<Seq<char>>::empty());
        }
    }
    let mut out = chars_of("编码器 ");
    append_str(&mut out, encoder);
    append_str(&mut out, " ");
    append_str(&mut out, summary);
    match detail {
        Some(d) => {
            append_str(&mut out, "：");
            let cut = take_chars(d.as_slice(), 512);
            append_chars(&mut out, cut.as_slice());
        },
        None => {},
    }
    string_of(out.as_slice())
}

/// The failure of one encoder attempt of the model pipeline, naming the encoder.
pub fn model_encoder_attempt_failure_message(encoder: &str, reason: &str) -> (r: String)
    ensures
        r@ == "模型 HLS 编码器 "@ + encoder@ + " 启动失败："@ + reason@,
{
    let mut out = chars_of("模型 HLS 编码器 ");
    append_str(&mut out, encoder);
    append_str(&mut out, " 启动失败：");
    append_str(&mut out, reason);
    string_of(out.as_slice())
}

/// The backend names of the active models.
pub open spec fn model_backend_spec(rife: Option<Seq<char>>, realesrgan: Option<Seq<char>>) -> Option<Seq<char>> {
    match (rife, realesrgan) {
        (Some(a), Some(b)) => Some("rife:"@ + a + "+realesrgan:"@ + b),
        (Some(a), None) => Some("rife:"@ + a),
        (None, Some(b)) => Some("realesrgan:"@ + b),
        (None, None) => None,
    }
}

/// Names the backends of the active models.
pub fn model_backend_name(rife_backend: Option<&str>, realesrgan_backend: Option<&str>) -> (r: Option<String>)
    ensures
        match r {
            Some(s) => model_backend_spec(crate::discovery::opt_view(rife_backend), crate::discovery::opt_view(realesrgan_backend)) == Some(s@),
            None => model_backend_spec(crate::discovery::opt_view(rife_backend), crate::discovery::opt_view(realesrgan_backend)) is None,
        },
{
    match (rife_backend, realesrgan_backend) {
        (Some(a), Some(b)) => {
            let mut out = chars_of("rife:");
            append_str(&mut out, a);
            append_str(&mut out, "+realesrgan:");
            append_str(&mut out, b);
            Some(string_of(out.as_slice()))
        },
        (Some(a), None) => {
            let mut out = chars_of("rife:");
            append_str(&mut out, a);
            Some(string_of(out.as_slice()))
        },
        (None, Some(b)) => {
            let mut out = chars_of("realesrgan:");
            append_str(&mut out, b);
            Some(string_of(out.as_slice()))
        },
        (None, None) => None,
    }
}


/// The trimmed, non-empty reasons of one group, in order.
pub open spec fn reason_pieces(group: Seq<char>) -> Seq<Seq<char>> {
    split_on(group, '；').map_values(|p: Seq<char>| trim(p)).filter(|p: Seq<char>| p.len() > 0)
}

/// The reasons of all groups, in order.
pub open spec fn all_reason_pieces(groups: Seq<Seq<char>>) -> Seq<Seq<char>>
    decreases groups.len(),
{
    if groups.len() == 0 {
        Seq::empty()
    } else {
        all_reason_pieces(groups.drop_last()) + reason_pieces(groups.last())
    }
}

/// `s` with later repetitions removed; the first occurrence of each item stays.
pub open spec fn dedup_spec(s: Seq<Seq<char>>) -> Seq<Seq<char>>
    decreases s.len(),
{
    if s.len() == 0 {
        Seq::empty()
    } else if dedup_spec(s.drop_last()).contains(s.last()) {
        dedup_spec(s.drop_last())
    } else {
        dedup_spec(s.drop_last()).push(s.last())
    }
}

/// The groups of reasons: the current text, then the added ones.
pub open spec fn reason_groups(current: Option<Seq<char>>, additional: Seq<Seq<char>>) -> Seq<Seq<char>> {
    match current {
        Some(c) => seq![c] + additional,
        None => additional,
    }
}

/// The joined list of distinct degradation reasons.
pub open spec fn joined_reasons_spec(current: Option<Seq<char>>, additional: Seq<Seq<char>>) -> Option<Seq<char>> {
    let reasons = dedup_spec(all_reason_pieces(reason_groups(current, additional)));
    if reasons.len() == 0 {
        None
    } else {
        Some(join_spec(reasons, "；"@))
    }
}

fn contains_chars(list: &Vec<Vec<char>>, item: &[char]) -> (r: bool)
    ensures
        r == list@.map_values(|p: Vec<char>| p@).contains(item@),
{
    let ghost views = list@.map_values(|p: Vec<char>| p@);
    let mut i: usize = 0;
    while i < list.len()
        invariant
            i <= list@.len(),
            views == list@.map_values(|p: Vec<char>| p@),
            forall|k: int| 0 <= k < i ==> views[k] != item@,
        decreases list@.len() - i,
    {
        if chars_eq(list[i].as_slice(), item) {
            assert(views[i as int] == item@);
            return true;
        }
        i = i + 1;
    }
    false
}

fn add_reasons(reasons: &mut Vec<Vec<char>>, group: &[char], Ghost(before): Ghost<Seq<Seq<char>>>)
    requires
        old(reasons)@.map_values(|p: Vec<char>| p@) == dedup_spec(before),
    ensures
        final(reasons)@.map_values(|p: Vec<char>| p@) == dedup_spec(before + reason_pieces(group@)),
{
    broadcast use Seq::lemma_filter_push;

    let ghost pred = |p: Seq<char>| p.len() > 0;
    let ghost trimmed = split_on(group@, '；').map_values(|p: Seq<char>| trim(p));
    let pieces = split_chars(group, '；');
    let mut i: usize = 0;
    assert(trimmed.subrange(0, 0).filter(pred) =~= Seq::<Seq<char>>::empty());
    assert(before + Seq::<Seq<char>>::empty() =~= before);
    while i < pieces.len()
        invariant
            i <= pieces@.len(),
            pieces@.len() == split_on(group@, '；').len(),
            forall|k: int| 0 <= k < pieces@.len() ==> #[trigger] pieces@[k]@ == split_on(group@, '；')[k],
            trimmed == split_on(group@, '；').map_values(|p: Seq<char>| trim(p)),
            pred == (|p: Seq<char>| p.len() > 0),
            reasons@.map_values(|p: Vec<char>| p@) == dedup_spec(
                before + trimmed.subrange(0, i as int).filter(pred),
            ),
        decreases pieces@.len() - i,
    {
        let piece = trim_chars(pieces[i].as_slice());
        let ghost acc = before + trimmed.subrange(0, i as int).filter(pred);
        proof {
            assert(trimmed.subrange(0, i + 1) =~= trimmed.subrange(0, i as int).push(piece@));
            trimmed.subrange(0, i as int).lemma_filter_push(piece@, pred);
        }
        if piece.len() > 0 {
            proof {
                assert(before + trimmed.subrange(0, i + 1).filter(pred) =~= acc.push(piece@));
                assert(acc.push(piece@).drop_last() =~= acc);
            }
            if !contains_chars(reasons, piece.as_slice()) {
                reasons.push(piece);
                proof {
                    assert(reasons@.map_values(|p: Vec<char>| p@) =~= dedup_spec(acc).push(
                        piece@,
                    ));
                }
            }
        } else {
            proof {
                assert(before + trimmed.subrange(0, i + 1).filter(pred) =~= acc);
            }
        }
        i = i + 1;
    }
    proof {
        assert(trimmed.subrange(0, pieces@.len() as int) =~= trimmed);
    }
}

proof fn lemma_all_pieces_push(groups: Seq<Seq<char>>, g: Seq<char>)
    ensures
        all_reason_pieces(groups.push(g)) == all_reason_pieces(groups) + reason_pieces(g),
{
    assert(groups.push(g).drop_last() =~= groups);
}

/// Joins the distinct, non-empty degradation reasons of the current text and the added
/// ones with the full-width separator, in order of first appearance.
pub fn join_degradation_reasons(current: Option<String>, additional: Vec<String>) -> (r: Option<String>)
    ensures
        match r {
            Some(s) => joined_reasons_spec(
                crate::discovery::opt_string_view(current),
                additional@.map_values(|a: String| a@),
            ) == Some(s@),
            None => joined_reasons_spec(
                crate::discovery::opt_string_view(current),
                additional@.map_values(|a: String| a@),
            ) is None,
        },
{
    let ghost groups = reason_groups(
        crate::discovery::opt_string_view(current),
        additional@.map_values(|a: String| a@),
    );
    let mut reasons: Vec<Vec<char>> = Vec::new();
    let ghost mut done: Seq<Seq<char>> = Seq::empty();
    assert(reasons@.map_values(|p: Vec<char>| p@) =~= dedup_spec(all_reason_pieces(done)));
    match &current {
        Some(c) => {
            let cs = chars_of(c.as_str());
            add_reasons(&mut reasons, cs.as_slice(), Ghost(all_reason_pieces(done)));
            proof {
                lemma_all_pieces_push(done, c@);
                done = done.push(c@);
            }
        },
        None => {},
    }
    let mut i: usize = 0;
    while i < additional.len()
        invariant
            i <= additional@.len(),
            done == reason_groups(
                crate::discovery::opt_string_view(current),
                additional@.map_values(|a: String| a@),
            ).subrange(0, (if current is Some { 1int } else { 0int }) + i),
            groups == reason_groups(
                crate::discovery::opt_string_view(current),
                additional@.map_values(|a: String| a@),
            ),
            reasons@.map_values(|p: Vec<char>| p@) == dedup_spec(all_reason_pieces(done)),
        decreases additional@.len() - i,
    {
        let cs = chars_of(additional[i].as_str());
        add_reasons(&mut reasons, cs.as_slice(), Ghost(all_reason_pieces(done)));
        proof {
            lemma_all_pieces_push(done, additional@[i as int]@);
            let off: int = if current is Some { 1int } else { 0int };
            assert(groups.subrange(0, off + i + 1) =~= done.push(additional@[i as int]@));
            done = done.push(additional@[i as int]@);
        }
        i = i + 1;
    }
    proof {
        let off: int = if current is Some { 1int } else { 0int };
        assert(groups.subrange(0, off + additional@.len()) =~= groups);
    }
    if reasons.len() == 0 {
        return None;
    }
    let sep = chars_of("；");
    let joined = join_chars(&reasons, sep.as_slice());
    Some(string_of(joined.as_slice()))
}


/// A line of FFmpeg's filter table lists `name` in its second column.
pub open spec fn lists_filter(text: Seq<char>, name: Seq<char>) -> bool {
    exists|k: int|
        0 <= k < split_on(text, '\n').len() && words(split_on(text, '\n')[k]).len() >= 2 && words(
            #[trigger] split_on(text, '\n')[k],
        )[1] == name
}

/// Whether FFmpeg's `-filters` table registers exactly the filter `expected_filter`.
pub fn ffmpeg_filter_available(output: &[u8], expected_filter: &str) -> (r: bool)
    ensures
        r == lists_filter(lossy_text(output@), expected_filter@),
{
    let text = utf8_lossy(output);
    let t = chars_of(text.as_str());
    let expected = chars_of(expected_filter);
    let lines = split_chars(t.as_slice(), '\n');
    let ghost sp = split_on(t@, '\n');
    let mut i: usize = 0;
    while i < lines.len()
        invariant
            i <= lines@.len(),
            lines@.len() == sp.len(),
            sp == split_on(lossy_text(output@), '\n'),
            expected@ == expected_filter@,
            forall|k: int| 0 <= k < lines@.len() ==> #[trigger] lines@[k]@ == sp[k],
            forall|k: int|
                0 <= k < i ==> !(words(sp[k]).len() >= 2 && words(#[trigger] sp[k])[1]
                    == expected_filter@),
        decreases lines@.len() - i,
    {
        let ws = split_words(lines[i].as_slice());
        if ws.len() >= 2 && chars_eq(ws[1].as_slice(), expected.as_slice()) {
            assert(words(sp[i as int])[1] == expected_filter@);
            return true;
        }
        i = i + 1;
    }
    false
}

/// What a subtitle stream's disposition says.
#[derive(Debug, Clone, Copy, Default, PartialEq, Eq, Structural)]
pub struct SubtitleDisposition {
    pub default: i64,
}

/// A subtitle stream as FFprobe reports it.
#[derive(Debug, Clone, Default)]
pub struct SubtitleStream {
    pub index: Option<i64>,
    pub codec_name: Option<String>,
    pub disposition: SubtitleDisposition,
    pub tags: Vec<(String, String)>,
}

/// A subtitle stream that can be served, with the format it is served in.
#[derive(Debug, Clone)]
pub struct SupportedSubtitle {
    pub index: i64,
    pub output_type: &'static str,
    pub disposition: SubtitleDisposition,
    pub tags: Vec<(String, String)>,
}

/// The served format of a subtitle codec: ASS for ASS/SSA, WebVTT for text formats.
pub open spec fn subtitle_output_type_spec(codec: Seq<char>) -> Option<Seq<char>> {
    let c = ascii_lower(codec);
    if c == "ass"@ || c == "ssa"@ {
        Some("ass"@)
    } else if c == "subrip"@ || c == "srt"@ || c == "webvtt"@ || c == "mov_text"@ || c == "text"@ {
        Some("vtt"@)
    } else {
        None
    }
}

impl SupportedSubtitle {
    /// Keeps a stream with an index and a codec that can be served.
    pub fn from_stream(stream: SubtitleStream) -> (r: Option<Self>)
        ensures
            match r {
                Some(s) => stream.index == Some(s.index) && (stream.codec_name matches Some(c)
                    && subtitle_output_type_spec(c@) == Some(s.output_type@))
                    && s.disposition == stream.disposition && s.tags == stream.tags,
                None => stream.index is None || stream.codec_name is None || (stream.codec_name matches Some(c)
                    && subtitle_output_type_spec(c@) is None),
            },
    {
        let index = match stream.index {
            Some(i) => i,
            None => {
                return None;
            },
        };
        let codec = match &stream.codec_name {
            Some(c) => to_ascii_lower(chars_of(c.as_str()).as_slice()),
            None => {
                return None;
            },
        };
        let c = codec.as_slice();
        let output_type: &'static str = if eq_str(c, "ass") || eq_str(c, "ssa") {
            "ass"
        } else if eq_str(c, "subrip") || eq_str(c, "srt") || eq_str(c, "webvtt") || eq_str(
            c,
            "mov_text",
        ) || eq_str(c, "text") {
            "vtt"
        } else {
            return None;
        };
        Some(
            SupportedSubtitle {
                index,
                output_type,
                disposition: stream.disposition,
                tags: stream.tags,
            },
        )
    }
}

/// Whether a character may stay in a label.
pub open spec fn label_char(c: char) -> bool {
    !is_control_char(c) && c != '<' && c != '>'
}

/// A label as shown to clients: control characters and angle brackets dropped, at most
/// 120 characters, trimmed; nothing when that leaves it empty.
pub open spec fn sanitize_label_spec(value: Seq<char>) -> Option<Seq<char>> {
    let kept = take_spec(value.filter(|c: char| label_char(c)), 120);
    if trim(kept).len() > 0 {
        Some(trim(kept))
    } else {
        None
    }
}

/// Cleans a stream title or language for display.
pub fn sanitize_label(value: &str) -> (r: Option<String>)
    ensures
        match r {
            Some(s) => sanitize_label_spec(value@) == Some(s@),
            None => sanitize_label_spec(value@) is None,
        },
{
    broadcast use Seq::lemma_filter_push;

    let ghost pred = |c: char| label_char(c);
    let v = chars_of(value);
    let mut kept: Vec<char> = Vec::new();
    let mut i: usize = 0;
    while i < v.len()
        invariant
            i <= v@.len(),
            v@ == value@,
            pred == (|c: char| label_char(c)),
            kept@ == v@.subrange(0, i as int).filter(pred),
        decreases v@.len() - i,
    {
        proof {
            assert(v@.subrange(0, i + 1) =~= v@.subrange(0, i as int).push(v@[i as int]));
            v@.subrange(0, i as int).lemma_filter_push(v@[i as int], pred);
        }
        let c = v[i];
        if !control_char(c) && c != '<' && c != '>' {
            kept.push(c);
        }
        i = i + 1;
    }
    assert(v@.subrange(0, v@.len() as int) =~= v@);
    let cut = take_chars(kept.as_slice(), 120);
    let t = trim_chars(cut.as_slice());
    if t.len() > 0 {
        Some(string_of(t.as_slice()))
    } else {
        None
    }
}

/// The display name of a language code.
pub open spec fn language_name_spec(value: Option<Seq<char>>) -> Option<Seq<char>> {
    match value {
        None => None,
        Some(v) => {
            let n = ascii_lower(trim(v));
            if n.len() == 0 || n == "und"@ {
                None
            } else if n == "zh"@ || n == "zho"@ || n == "chi"@ {
                Some("中文"@)
            } else if n == "chs"@ {
                Some("简体中文"@)
            } else if n == "cht"@ {
                Some("繁体中文"@)
            } else if n == "ja"@ || n == "jpn"@ {
                Some("日语"@)
            } else if n == "en"@ || n == "eng"@ {
                Some("英语"@)
            } else {
                match sanitize_label_spec(n) {
                    Some(l) => Some(l),
                    None => Some("未知"@),
                }
            }
        },
    }
}

/// Turns a stream's language code into a display name; undetermined languages have none.
pub fn normalize_language(value: Option<&str>) -> (r: Option<String>)
    ensures
        match r {
            Some(s) => language_name_spec(crate::discovery::opt_view(value)) == Some(s@),
            None => language_name_spec(crate::discovery::opt_view(value)) is None,
        },
{
    let raw = match value {
        None => {
            return None;
        },
        Some(v) => chars_of(v),
    };
    let t = trim_chars(raw.as_slice());
    let n = to_ascii_lower(t.as_slice());
    let c = n.as_slice();
    if n.len() == 0 || eq_str(c, "und") {
        return None;
    }
    if eq_str(c, "zh") || eq_str(c, "zho") || eq_str(c, "chi") {
        Some(String::from_str("中文"))
    } else if eq_str(c, "chs") {
        Some(String::from_str("简体中文"))
    } else if eq_str(c, "cht") {
        Some(String::from_str("繁体中文"))
    } else if eq_str(c, "ja") || eq_str(c, "jpn") {
        Some(String::from_str("日语"))
    } else if eq_str(c, "en") || eq_str(c, "eng") {
        Some(String::from_str("英语"))
    } else {
        let text = string_of(c);
        match sanitize_label(text.as_str()) {
            Some(l) => Some(l),
            None => Some(String::from_str("未知")),
        }
    }
}

/// The label of a subtitle track: its cleaned title, then its language if different,
/// joined by " / "; a numbered fallback when there is neither.
pub open spec fn subtitle_label_spec(title: Option<Seq<char>>, language: Option<Seq<char>>, order: nat) -> Seq<char> {
    let t: Seq<Seq<char>> = match title {
        Some(x) => match sanitize_label_spec(x) {
            Some(l) => seq![l],
            None => Seq::empty(),
        },
        None => Seq::empty(),
    };
    let parts = match language {
        Some(l) => if t.contains(l) {
            t
        } else {
            t.push(l)
        },
        None => t,
    };
    if parts.len() == 0 {
        "字幕 "@ + decimal(order + 1)
    } else {
        join_spec(parts, " / "@)
    }
}

/// Builds the label of a subtitle track.
pub fn subtitle_label(title: Option<&str>, language: Option<&str>, order: usize) -> (r: String)
    requires
        order < usize::MAX,
    ensures
        r@ == subtitle_label_spec(
            crate::discovery::opt_view(title),
            crate::discovery::opt_view(language),
            order as nat,
        ),
{
    let mut parts: Vec<Vec<char>> = Vec::new();
    match title {
        Some(t) => match sanitize_label(t) {
            Some(l) => parts.push(chars_of(l.as_str())),
            None => {},
        },
        None => {},
    }
    let ghost t_views = parts@.map_values(|p: Vec<char>| p@);
    let ghost t_spec: Seq<Seq<char>> = match crate::discovery::opt_view(title) {
        Some(x) => match sanitize_label_spec(x) {
            Some(l) => seq![l],
            None => Seq::empty(),
        },
        None => Seq::empty(),
    };
    assert(t_views =~= t_spec);
    match language {
        Some(l) => {
            let lv = chars_of(l);
            if !contains_chars(&parts, lv.as_slice()) {
                parts.push(lv);
            }
        },
        None => {},
    }
    let ghost expected = match language {
        Some(l) => if t_views.contains(l@) {
            t_views
        } else {
            t_views.push(l@)
        },
        None => t_views,
    };
    assert(parts@.map_values(|p: Vec<char>| p@) =~= expected);
    if parts.len() == 0 {
        let mut out = chars_of("字幕 ");
        let digits = format_decimal((order + 1) as u64);
        append_chars(&mut out, digits.as_slice());
        return string_of(out.as_slice());
    }
    let sep = chars_of(" / ");
    let joined = join_chars(&parts, sep.as_slice());
    string_of(joined.as_slice())
}

/// Whether `value` names an HLS playlist or segment of a session.
pub fn is_hls_asset(value: &str) -> (r: bool)
    ensures
        r == is_hls_name_spec(value@),
{
    is_hls_name(value)
}

/// Whether `value` names an extracted subtitle of a session.
pub fn is_subtitle_asset(value: &str) -> (r: bool)
    ensures
        r == is_subtitle_name_spec(value@),
{
    is_subtitle_name(value)
}

/// Compares byte strings in time independent of their contents
/// (`subtle::ConstantTimeEq::ct_eq` on slices, read as a `bool`). The contract claims
/// that the answer is equality of the two slices.
#[verifier::external_body]
fn constant_time_eq(a: &[u8], b: &[u8]) -> (r: bool)
    ensures
        r == (a@ == b@),
{
    bool::from(subtle::ConstantTimeEq::ct_eq(a, b))
}

/// Whether `actual` equals the expected token, compared in constant time.
pub fn secure_token_equals(expected: Option<&str>, actual: &str) -> (r: bool)
    ensures
        r == (expected matches Some(e) && e@ == actual@),
{
    broadcast use vstd::utf8::encode_utf8_decode_utf8;

    match expected {
        None => false,
        Some(e) => {
            let eb = e.as_bytes();
            let ab = actual.as_bytes();
            if eb.len() != ab.len() {
                proof {
                    if e@ == actual@ {
                        assert(eb@ == ab@);
                    }
                }
                return false;
            }
            let r = constant_time_eq(eb, ab);
            proof {
                if eb@ == ab@ {
                    assert(vstd::utf8::decode_utf8(vstd::utf8::encode_utf8(e@)) == e@);
                    assert(vstd::utf8::decode_utf8(vstd::utf8::encode_utf8(actual@)) == actual@);
                }
            }
            r
        },
    }
}

/// The URL-safe base64 text, without padding, of some bytes
/// (`base64::engine::general_purpose::URL_SAFE_NO_PAD`).
pub uninterp spec fn base64_url_no_pad(bytes: Seq<u8>) -> Seq<char>;

/// Encodes bytes as URL-safe base64 without padding. The contract names the result.
#[verifier::external_body]
fn encode_url_safe(bytes: &[u8]) -> (r: String)
    ensures
        r@ == base64_url_no_pad(bytes@),
{
    base64::Engine::encode(&base64::engine::general_purpose::URL_SAFE_NO_PAD, bytes)
}

/// Fills the buffer with bytes from the operating system's random source
/// (`rand::rngs::OsRng`, `RngCore::fill_bytes`). Only the length is promised.
#[verifier::external_body]
fn fill_random(buffer: &mut Vec<u8>)
    ensures
        final(buffer)@.len() == old(buffer)@.len(),
{
    rand::RngCore::fill_bytes(&mut rand::rngs::OsRng, buffer.as_mut_slice());
}

/// A fresh random token: `size` random bytes in URL-safe base64.
pub fn random_token(size: usize) -> (r: String)
    ensures
        exists|b: Seq<u8>| b.len() == size && r@ == base64_url_no_pad(b),
{
    let mut bytes: Vec<u8> = Vec::new();
    let mut i: usize = 0;
    while i < size
        invariant
            i <= size,
            bytes@.len() == i,
        decreases size - i,
    {
        bytes.push(0);
        i = i + 1;
    }
    fill_random(&mut bytes);
    encode_url_safe(bytes.as_slice())
}

/// The content type served for a file extension (with its dot, lowercase).
pub open spec fn content_type_spec(ext: Seq<char>) -> Seq<char> {
    if ext == ".webm"@ {
        "video/webm"@
    } else if ext == ".mp4"@ || ext == ".m4v"@ {
        "video/mp4"@
    } else if ext == ".mkv"@ {
        "video/x-matroska"@
    } else if ext == ".avi"@ {
        "video/x-msvideo"@
    } else if ext == ".mov"@ {
        "video/quicktime"@
    } else if ext == ".mpg"@ || ext == ".mpeg"@ {
        "video/mpeg"@
    } else {
        "application/octet-stream"@
    }
}

/// The content type served for a file extension.
pub fn content_type_for_extension(ext: &str) -> (r: String)
    ensures
        r@ == content_type_spec(ext@),
{
    let e = chars_of(ext);
    let c = e.as_slice();
    if eq_str(c, ".webm") {
        String::from_str("video/webm")
    } else if eq_str(c, ".mp4") || eq_str(c, ".m4v") {
        String::from_str("video/mp4")
    } else if eq_str(c, ".mkv") {
        String::from_str("video/x-matroska")
    } else if eq_str(c, ".avi") {
        String::from_str("video/x-msvideo")
    } else if eq_str(c, ".mov") {
        String::from_str("video/quicktime")
    } else if eq_str(c, ".mpg") || eq_str(c, ".mpeg") {
        String::from_str("video/mpeg")
    } else {
        String::from_str("application/octet-stream")
    }
}

/// The extension of a file name as served: a dot and the extension in ASCII
/// lowercase, or nothing when the name has none.
pub open spec fn dotted_extension(name: Seq<char>) -> Seq<char> {
    match name_extension(name) {
        Some(e) => seq!['.'] + ascii_lower(e),
        None => Seq::empty(),
    }
}

/// The lowercase extension of a path with its dot, or nothing: nothing for a path
/// without a `.`, and for a path that every platform splits alike, the dotted
/// extension of its last segment.
pub fn extension(value: &str) -> (r: String)
    ensures
        r@.len() == 0 || r@[0] == '.',
        !value@.contains('.') ==> r@.len() == 0,
        plain_path(value@) ==> r@ == dotted_extension(last_segment(value@)),
{
    match path_extension(value) {
        Some(e) => {
            let mut out: Vec<char> = Vec::new();
            out.push('.');
            let lower = to_ascii_lower(chars_of(e.as_str()).as_slice());
            append_chars(&mut out, lower.as_slice());
            assert(out@ =~= seq!['.'] + ascii_lower(e@));
            string_of(out.as_slice())
        },
        None => String::new(),
    }
}

/// The content type of a file served directly, by its extension: that of no
/// extension for a path without a `.`, and that of the dotted extension of its last
/// segment for a path every platform splits alike.
pub fn direct_content_type(path: &str) -> (r: String)
    ensures
        exists|ext: Seq<char>| r@ == content_type_spec(ext),
        !path@.contains('.') ==> r@ == content_type_spec(Seq::empty()),
        plain_path(path@) ==> r@ == content_type_spec(dotted_extension(last_segment(path@))),
{
    let ext = extension(path);
    proof {
        if ext@.len() == 0 {
            assert(ext@ =~= Seq::<char>::empty());
        }
    }
    content_type_for_extension(ext.as_str())
}

/// An extension as the settings hold it: trimmed, lowercase, with a leading dot.
pub open spec fn normalize_extension_spec(value: Seq<char>) -> Seq<char> {
    let v = ascii_lower(trim(value));
    if has_prefix(v, seq!['.']) {
        v
    } else {
        seq!['.'] + v
    }
}

/// Normalises a configured video extension.
pub fn normalize_extension(value: &str) -> (r: String)
    ensures
        r@ == normalize_extension_spec(value@),
{
    let v = to_ascii_lower(trim_chars(chars_of(value).as_slice()).as_slice());
    let dot = chars_of(".");
    proof {
        reveal_strlit(".");
        assert(dot@ =~= seq!['.']);
    }
    if starts_with(v.as_slice(), dot.as_slice()) {
        return string_of(v.as_slice());
    }
    let mut out: Vec<char> = Vec::new();
    out.push('.');
    append_chars(&mut out, v.as_slice());
    assert(out@ =~= seq!['.'] + v@);
    string_of(out.as_slice())
}


/// What a client reports of its direct enhanced playback, without the measured timings.
#[derive(Debug, Clone)]
pub struct DirectEnhancementReport {
    pub sequence: u64,
    pub status: RemoteDirectEnhancementStatus,
    pub capability_supported: bool,
    pub web_codecs: bool,
    pub audio_web_codecs: bool,
    pub audio_context: bool,
    pub shader: bool,
    pub web_gpu: bool,
    pub offscreen_canvas: bool,
    pub media_capabilities: bool,
    pub supported_codecs: Vec<String>,
    pub smooth_codecs: Vec<String>,
    pub power_efficient_codecs: Vec<String>,
    pub requested_preset: Option<PlayerVideoEnhancement>,
    pub effective_preset: Option<PlayerVideoEnhancement>,
    pub audio_clock: Option<String>,
    pub range_request_count: u64,
    pub range_retry_count: u64,
    pub recovered_range_count: u64,
    pub degradation_reason: Option<String>,
}

/// The views of a list of strings.
pub open spec fn views_of(v: Seq<String>) -> Seq<Seq<char>> {
    v.map_values(|s: String| s@)
}

/// Some smooth codec is also supported.
pub open spec fn has_smooth_codec(r: DirectEnhancementReport) -> bool {
    exists|i: int| 0 <= i < r.smooth_codecs@.len() && views_of(r.supported_codecs@).contains(#[trigger] r.smooth_codecs@[i]@)
}

/// What the capability flags together allow.
pub open spec fn capability_spec(r: DirectEnhancementReport) -> bool {
    r.web_codecs && r.audio_web_codecs && r.audio_context && r.shader && r.web_gpu
        && r.offscreen_canvas && r.media_capabilities && has_smooth_codec(r)
}

/// A codec list has at most 16 entries, each non-blank and at most 64 bytes long.
pub open spec fn codec_list_ok(codecs: Seq<String>) -> bool {
    codecs.len() <= 16 && forall|i: int|
        0 <= i < codecs.len() ==> trim(#[trigger] codecs[i]@).len() > 0
            && vstd::utf8::encode_utf8(codecs[i]@).len() <= 64
}

/// Every listed codec is supported.
pub open spec fn all_supported(list: Seq<String>, supported: Seq<String>) -> bool {
    forall|i: int| 0 <= i < list.len() ==> views_of(supported).contains(#[trigger] list[i]@)
}

/// The first problem of a report, given the first timing that was out of range (if any).
pub open spec fn direct_report_problem(r: DirectEnhancementReport, metric_failure: Option<Seq<char>>) -> Option<Seq<char>> {
    if r.sequence == 0 {
        Some("诊断序号必须大于 0"@)
    } else if r.capability_supported != capability_spec(r) {
        Some("终端能力汇总结论与明细不一致"@)
    } else if r.status == RemoteDirectEnhancementStatus::Active && !r.capability_supported {
        Some("增强激活状态必须已通过终端能力探测"@)
    } else if r.status == RemoteDirectEnhancementStatus::Active && !(r.effective_preset == Some(
        PlayerVideoEnhancement::Balanced,
    ) || r.effective_preset == Some(PlayerVideoEnhancement::Clear)) {
        Some("增强激活状态必须报告实际画质预设"@)
    } else if r.status == RemoteDirectEnhancementStatus::Active && !(r.audio_clock matches Some(c)
        && c@ == "audio-context"@) {
        Some("增强激活状态必须使用 AudioContext 主时钟"@)
    } else if r.requested_preset == Some(PlayerVideoEnhancement::Off) || r.effective_preset == Some(
        PlayerVideoEnhancement::Off,
    ) {
        Some("终端增强预设只能是 balanced 或 clear"@)
    } else if r.audio_clock matches Some(c) && c@ != "audio-context"@ {
        Some("音频时钟类型无效"@)
    } else if metric_failure is Some {
        Some(metric_failure.unwrap() + "超出有效范围"@)
    } else if r.recovered_range_count > r.range_retry_count || r.range_retry_count
        > r.range_request_count {
        Some("Range 恢复计数关系无效"@)
    } else if !codec_list_ok(r.supported_codecs@) || !codec_list_ok(r.smooth_codecs@)
        || !codec_list_ok(r.power_efficient_codecs@) {
        Some("编解码器能力列表无效"@)
    } else if !all_supported(r.smooth_codecs@, r.supported_codecs@) || !all_supported(
        r.power_efficient_codecs@,
        r.supported_codecs@,
    ) {
        Some("流畅或节能编解码器不在支持列表中"@)
    } else if r.degradation_reason matches Some(reason) && vstd::utf8::encode_utf8(reason@).len()
        > 512 {
        Some("降级原因超过长度上限"@)
    } else {
        None
    }
}

fn string_in(list: &Vec<String>, item: &String) -> (r: bool)
    ensures
        r == views_of(list@).contains(item@),
{
    let target = chars_of(item.as_str());
    let mut i: usize = 0;
    while i < list.len()
        invariant
            i <= list@.len(),
            target@ == item@,
            forall|k: int| 0 <= k < i ==> list@[k]@ != item@,
        decreases list@.len() - i,
    {
        let c = chars_of(list[i].as_str());
        if chars_eq(c.as_slice(), target.as_slice()) {
            assert(views_of(list@)[i as int] == item@);
            return true;
        }
        i = i + 1;
    }
    proof {
        if views_of(list@).contains(item@) {
            let k = choose|k: int| 0 <= k < views_of(list@).len() && views_of(list@)[k] == item@;
            assert(list@[k]@ == item@);
        }
    }
    false
}

fn any_supported(list: &Vec<String>, supported: &Vec<String>) -> (r: bool)
    ensures
        r == exists|i: int| 0 <= i < list@.len() && views_of(supported@).contains(#[trigger] list@[i]@),
{
    let mut i: usize = 0;
    while i < list.len()
        invariant
            i <= list@.len(),
            forall|k: int| 0 <= k < i ==> !views_of(supported@).contains(#[trigger] list@[k]@),
        decreases list@.len() - i,
    {
        if string_in(supported, &list[i]) {
            return true;
        }
        i = i + 1;
    }
    false
}

fn every_supported(list: &Vec<String>, supported: &Vec<String>) -> (r: bool)
    ensures
        r == all_supported(list@, supported@),
{
    let mut i: usize = 0;
    while i < list.len()
        invariant
            i <= list@.len(),
            forall|k: int| 0 <= k < i ==> views_of(supported@).contains(#[trigger] list@[k]@),
        decreases list@.len() - i,
    {
        if !string_in(supported, &list[i]) {
            return false;
        }
        i = i + 1;
    }
    true
}

fn codecs_valid(codecs: &Vec<String>) -> (r: bool)
    ensures
        r == codec_list_ok(codecs@),
{
    if codecs.len() > 16 {
        return false;
    }
    let mut i: usize = 0;
    while i < codecs.len()
        invariant
            i <= codecs@.len(),
            codecs@.len() <= 16,
            forall|k: int|
                0 <= k < i ==> trim(#[trigger] codecs@[k]@).len() > 0
                    && vstd::utf8::encode_utf8(codecs@[k]@).len() <= 64,
        decreases codecs@.len() - i,
    {
        let trimmed = trim_chars(chars_of(codecs[i].as_str()).as_slice());
        let bytes = codecs[i].as_str().as_bytes().len();
        if trimmed.len() == 0 || bytes > 64 {
            return false;
        }
        i = i + 1;
    }
    true
}

fn diagnostics_error(message: &str) -> (r: RemoteMediaError)
    ensures
        r.status == 400,
        r.code@ == "MEDIA_DIRECT_DIAGNOSTICS_INVALID"@,
        r.message@ == message@,
{
    RemoteMediaError::new(400, "MEDIA_DIRECT_DIAGNOSTICS_INVALID", String::from_str(message))
}

/// Checks a client's direct enhancement report: capability summary against its details,
/// the state an active enhancement needs, presets, clock, range counters, codec lists
/// and the reason length. `metric_failure` names the first measured timing found out
/// of its range, which is checked after the clock and before the counters.
pub fn validate_direct_enhancement_diagnostics(report: &DirectEnhancementReport, metric_failure: Option<&str>) -> (r: Result<(), RemoteMediaError>)
    ensures
        match r {
            Ok(()) => direct_report_problem(*report, crate::discovery::opt_view(metric_failure)) is None,
            Err(e) => e.status == 400 && e.code@ == "MEDIA_DIRECT_DIAGNOSTICS_INVALID"@
                && direct_report_problem(*report, crate::discovery::opt_view(metric_failure)) == Some(e.message@),
        },
{
    if report.sequence == 0 {
        return Err(diagnostics_error("诊断序号必须大于 0"));
    }
    let has_smooth = any_supported(&report.smooth_codecs, &report.supported_codecs);
    let capability = report.web_codecs && report.audio_web_codecs && report.audio_context
        && report.shader && report.web_gpu && report.offscreen_canvas && report.media_capabilities
        && has_smooth;
    if report.capability_supported != capability {
        return Err(diagnostics_error("终端能力汇总结论与明细不一致"));
    }
    let active = matches!(report.status, RemoteDirectEnhancementStatus::Active);
    let audio_context_clock = match &report.audio_clock {
        Some(c) => eq_str(chars_of(c.as_str()).as_slice(), "audio-context"),
        None => false,
    };
    if active {
        if !report.capability_supported {
            return Err(diagnostics_error("增强激活状态必须已通过终端能力探测"));
        }
        if !matches!(report.effective_preset, Some(PlayerVideoEnhancement::Balanced) | Some(PlayerVideoEnhancement::Clear)) {
            return Err(diagnostics_error("增强激活状态必须报告实际画质预设"));
        }
        if !audio_context_clock {
            return Err(diagnostics_error("增强激活状态必须使用 AudioContext 主时钟"));
        }
    }
    if matches!(report.requested_preset, Some(PlayerVideoEnhancement::Off)) || matches!(report.effective_preset, Some(PlayerVideoEnhancement::Off)) {
        return Err(diagnostics_error("终端增强预设只能是 balanced 或 clear"));
    }
    if report.audio_clock.is_some() && !audio_context_clock {
        return Err(diagnostics_error("音频时钟类型无效"));
    }
    match metric_failure {
        Some(label) => {
            let mut m = chars_of(label);
            append_str(&mut m, "超出有效范围");
            return Err(RemoteMediaError::new(400, "MEDIA_DIRECT_DIAGNOSTICS_INVALID", string_of(m.as_slice())));
        },
        None => {},
    }
    if report.recovered_range_count > report.range_retry_count || report.range_retry_count > report.range_request_count {
        return Err(diagnostics_error("Range 恢复计数关系无效"));
    }
    if !codecs_valid(&report.supported_codecs) || !codecs_valid(&report.smooth_codecs) || !codecs_valid(&report.power_efficient_codecs) {
        return Err(diagnostics_error("编解码器能力列表无效"));
    }
    if !every_supported(&report.smooth_codecs, &report.supported_codecs) || !every_supported(&report.power_efficient_codecs, &report.supported_codecs) {
        return Err(diagnostics_error("流畅或节能编解码器不在支持列表中"));
    }
    match &report.degradation_reason {
        Some(reason) => {
            if reason.as_str().as_bytes().len() > 512 {
                return Err(diagnostics_error("降级原因超过长度上限"));
            }
        },
        None => {},
    }
    Ok(())
}


/// The texts among some JSON values, in order.
pub open spec fn texts_of(items: Seq<JsonValue>) -> Seq<Seq<char>>
    decreases items.len(),
{
    if items.len() == 0 {
        Seq::empty()
    } else {
        let rest = texts_of(items.drop_last());
        match items.last() {
            JsonValue::String(t) => rest.push(t@),
            _ => rest,
        }
    }
}

/// The video extensions the settings configure at `media.videoExtensions`, each
/// normalised and kept once; the defaults `.mkv`, `.mp4` and `.avi` when none is.
pub open spec fn video_extensions_spec(settings: JsonValue) -> Seq<Seq<char>> {
    let configured = match json_get(settings, "media"@) {
        Some(media) => match json_get(media, "videoExtensions"@) {
            Some(JsonValue::Array(items)) => dedup_spec(texts_of(items@).map_values(|t: Seq<char>| normalize_extension_spec(t))),
            _ => Seq::empty(),
        },
        None => Seq::empty(),
    };
    if configured.len() == 0 {
        seq![".mkv"@, ".mp4"@, ".avi"@]
    } else {
        configured
    }
}

fn contains_text(v: &Vec<String>, t: &String) -> (r: bool)
    ensures
        r == v@.map_values(|s: String| s@).contains(t@),
{
    let ghost views = v@.map_values(|s: String| s@);
    let mut i: usize = 0;
    while i < v.len()
        invariant
            i <= v@.len(),
            views == v@.map_values(|s: String| s@),
            forall|k: int| 0 <= k < i ==> views[k] != t@,
        decreases v@.len() - i,
    {
        if chars_eq(chars_of(v[i].as_str()).as_slice(), chars_of(t.as_str()).as_slice()) {
            assert(views[i as int] == t@);
            return true;
        }
        i = i + 1;
    }
    false
}

/// The video extensions a remote session accepts, read from the application settings.
pub fn video_extensions(settings: &JsonValue) -> (r: Vec<String>)
    ensures
        r@.map_values(|s: String| s@) == video_extensions_spec(*settings),
{
    let mut out: Vec<String> = Vec::new();
    match object_get(settings, "media") {
        Some(media) => match object_get(media, "videoExtensions") {
            Some(JsonValue::Array(items)) => {
                let ghost norm = texts_of(items@).map_values(|t: Seq<char>| normalize_extension_spec(t));
                let mut i: usize = 0;
                while i < items.len()
                    invariant
                        i <= items@.len(),
                        out@.map_values(|s: String| s@) == dedup_spec(texts_of(items@.subrange(0, i as int)).map_values(|t: Seq<char>| normalize_extension_spec(t))),
                    decreases items@.len() - i,
                {
                    let ghost prefix = items@.subrange(0, i as int);
                    let ghost next = items@.subrange(0, i + 1);
                    assert(next.drop_last() =~= prefix);
                    assert(next.last() == items@[i as int]);
                    match &items[i] {
                        JsonValue::String(t) => {
                            let e = normalize_extension(t.as_str());
                            let ghost before = texts_of(prefix).map_values(|t: Seq<char>| normalize_extension_spec(t));
                            assert(texts_of(next).map_values(|t: Seq<char>| normalize_extension_spec(t)) =~= before.push(e@));
                            assert(before.push(e@).drop_last() =~= before);
                            if !contains_text(&out, &e) {
                                out.push(e);
                                assert(out@.map_values(|s: String| s@) =~= dedup_spec(before).push(e@));
                            }
                        },
                        _ => {
                            assert(texts_of(next) == texts_of(prefix));
                        },
                    }
                    i = i + 1;
                }
                assert(items@.subrange(0, items@.len() as int) =~= items@);
            },
            _ => {},
        },
        None => {},
    }
    if out.len() == 0 {
        let mut d: Vec<String> = Vec::new();
        d.push(String::from_str(".mkv"));
        d.push(String::from_str(".mp4"));
        d.push(String::from_str(".avi"));
        assert(d@.map_values(|s: String| s@) =~= seq![".mkv"@, ".mp4"@, ".avi"@]);
        return d;
    }
    out
}


/// Whether a byte is percent-encoded in a media file name placed in a URL path
/// segment: controls, non-ASCII bytes, and space `"` `#` `%` `/` `<` `>` `?` `[` `\`
/// `]` `^` `` ` `` `{` `|` `}`.
pub open spec fn segment_escaped(b: u8) -> bool {
    b < 0x20 || b >= 0x7f || b == 0x20 || b == 0x22 || b == 0x23 || b == 0x25 || b == 0x2f || b == 0x3c
        || b == 0x3e || b == 0x3f || b == 0x5b || b == 0x5c || b == 0x5d || b == 0x5e || b == 0x60 || b == 0x7b
        || b == 0x7c || b == 0x7d
}

/// The text of bytes with each escaped byte written `%XX` in upper-case hexadecimal.
pub open spec fn segment_encoded(bytes: Seq<u8>) -> Seq<char>
    decreases bytes.len(),
{
    if bytes.len() == 0 {
        Seq::empty()
    } else {
        let b = bytes.last();
        segment_encoded(bytes.drop_last()) + if segment_escaped(b) {
            seq!['%', hex_upper(b as int / 16), hex_upper(b as int % 16)]
        } else {
            seq![b as char]
        }
    }
}

fn hex_upper_digit(d: u8) -> (r: char)
    requires
        d < 16,
    ensures
        r == hex_upper(d as int),
{
    let digits: [char; 16] = ['0', '1', '2', '3', '4', '5', '6', '7', '8', '9', 'A', 'B', 'C', 'D', 'E', 'F'];
    let r = digits[d as usize];
    assert(r == hex_upper(d as int)) by {
        assert(digits@[d as int] == hex_upper(d as int));
    }
    r
}

/// Percent-encodes a file name for a URL path segment, as
/// `percent_encoding::utf8_percent_encode` does with the set of `segment_escaped`.
pub fn encode_path_segment(value: &str) -> (r: String)
    ensures
        r@ == segment_encoded(encode_utf8(value@)),
{
    let bytes = value.as_bytes();
    let mut out: Vec<char> = Vec::new();
    let mut i: usize = 0;
    while i < bytes.len()
        invariant
            i <= bytes@.len(),
            bytes@ == encode_utf8(value@),
            out@ == segment_encoded(bytes@.subrange(0, i as int)),
        decreases bytes@.len() - i,
    {
        let b = bytes[i];
        assert(bytes@.subrange(0, i + 1).drop_last() =~= bytes@.subrange(0, i as int));
        assert(bytes@.subrange(0, i + 1).last() == b);
        let escaped = b < 0x20 || b >= 0x7f || b == 0x20 || b == 0x22 || b == 0x23 || b == 0x25 || b == 0x2f || b == 0x3c
            || b == 0x3e || b == 0x3f || b == 0x5b || b == 0x5c || b == 0x5d || b == 0x5e || b == 0x60 || b == 0x7b
            || b == 0x7c || b == 0x7d;
        let ghost before = out@;
        if escaped {
            out.push('%');
            out.push(hex_upper_digit(b / 16));
            out.push(hex_upper_digit(b % 16));
            assert(out@ =~= before + seq!['%', hex_upper(b as int / 16), hex_upper(b as int % 16)]);
        } else {
            out.push(b as char);
            assert(out@ =~= before + seq![b as char]);
        }
        i = i + 1;
    }
    assert(bytes@.subrange(0, bytes@.len() as int) =~= bytes@);
    string_of(out.as_slice())
}

/// Whether a session is opened for the browser client or handed to an external player.
#[derive(Debug, Clone, Copy, PartialEq, Eq, Structural)]
pub enum SessionAccess {
    Browser,
    External,
}

/// The first problem of a session request, if any: the playback mode, the file index,
/// the enhancement, the subtitle mode, and a burned subtitle, which needs a transcode
/// and a named track.
pub open spec fn session_request_problem(
    requested_mode: Seq<char>,
    file_index: Option<i64>,
    enhancement: RemotePlaybackEnhancement,
    subtitle_mode: Seq<char>,
    subtitle_id: Option<Seq<char>>,
) -> Option<(u16, Seq<char>)> {
    if requested_mode != "direct"@ && requested_mode != "transcode"@ {
        Some((400, "MEDIA_MODE_INVALID"@))
    } else if file_index matches Some(i) && i < 0 {
        Some((400, "MEDIA_FILE_INVALID"@))
    } else if requested_mode != "transcode"@ && enhancement_enabled(enhancement) {
        Some((400, "MEDIA_ENHANCEMENT_REQUIRES_TRANSCODE"@))
    } else if enhancement.frame_interpolation == PlayerFrameInterpolation::DisplayResample {
        Some((400, "MEDIA_INTERPOLATION_UNAVAILABLE"@))
    } else if subtitle_mode_spec(subtitle_mode) is None {
        Some((400, "MEDIA_SUBTITLE_MODE_INVALID"@))
    } else if subtitle_mode_spec(subtitle_mode) == Some(RequestedSubtitleMode::Burned) && requested_mode != "transcode"@ {
        Some((400, "MEDIA_SUBTITLE_BURN_REQUIRES_TRANSCODE"@))
    } else if subtitle_mode_spec(subtitle_mode) == Some(RequestedSubtitleMode::Burned) && subtitle_id is None {
        Some((400, "MEDIA_SUBTITLE_INVALID"@))
    } else {
        None
    }
}

/// Checks a request to open a playback session before any file is touched; on success
/// it gives whether the session transcodes to HLS and the subtitle mode.
pub fn check_session_request(
    requested_mode: &str,
    file_index: Option<i64>,
    enhancement: RemotePlaybackEnhancement,
    subtitle_mode: &str,
    subtitle_id: Option<&str>,
) -> (r: Result<(bool, RequestedSubtitleMode), RemoteMediaError>)
    ensures
        match r {
            Ok((hls, mode)) => session_request_problem(
                requested_mode@,
                file_index,
                enhancement,
                subtitle_mode@,
                crate::discovery::opt_view(subtitle_id),
            ) is None && hls == (requested_mode@ == "transcode"@) && subtitle_mode_spec(subtitle_mode@) == Some(mode),
            Err(e) => session_request_problem(
                requested_mode@,
                file_index,
                enhancement,
                subtitle_mode@,
                crate::discovery::opt_view(subtitle_id),
            ) == Some((e.status, e.code@)),
        },
{
    let mode = chars_of(requested_mode);
    let transcode = eq_str(mode.as_slice(), "transcode");
    if !eq_str(mode.as_slice(), "direct") && !transcode {
        return Err(RemoteMediaError::new(400, "MEDIA_MODE_INVALID", String::from_str("播放模式无效")));
    }
    if let Some(i) = file_index {
        if i < 0 {
            return Err(RemoteMediaError::new(400, "MEDIA_FILE_INVALID", String::from_str("媒体文件标识无效")));
        }
    }
    validate_remote_enhancement(requested_mode, enhancement)?;
    let subtitles = parse_requested_subtitle_mode(subtitle_mode)?;
    if matches!(subtitles, RequestedSubtitleMode::Burned) && !transcode {
        return Err(
            RemoteMediaError::new(
                400,
                "MEDIA_SUBTITLE_BURN_REQUIRES_TRANSCODE",
                String::from_str("烧录字幕只能在实时转码模式使用"),
            ),
        );
    }
    if matches!(subtitles, RequestedSubtitleMode::Burned) && subtitle_id.is_none() {
        return Err(RemoteMediaError::new(400, "MEDIA_SUBTITLE_INVALID", String::from_str("烧录字幕必须指定字幕轨道")));
    }
    Ok((transcode, subtitles))
}

/// The path under which a session's assets are served: the browser's session path, or
/// the external player's path behind its access token.
pub open spec fn asset_base_spec(id: Seq<char>, access_token: Option<Seq<char>>) -> Seq<char> {
    match access_token {
        None => "/api/media/sessions/"@ + id,
        Some(t) => "/api/media/external/"@ + t + "/sessions/"@ + id,
    }
}

/// The path under which a session's assets are served.
pub fn session_asset_base(id: &str, access_token: Option<&str>) -> (r: String)
    ensures
        r@ == asset_base_spec(id@, crate::discovery::opt_view(access_token)),
{
    let mut v = match access_token {
        None => chars_of("/api/media/sessions/"),
        Some(t) => {
            let mut v = chars_of("/api/media/external/");
            append_str(&mut v, t);
            append_str(&mut v, "/sessions/");
            v
        },
    };
    append_str(&mut v, id);
    string_of(v.as_slice())
}

/// The address a client streams a session from: the HLS playlist of a transcode, the
/// file by name for an external player, or the file path for the browser.
pub open spec fn stream_url_spec(asset_base: Seq<char>, hls: bool, access: SessionAccess, file_name: Seq<char>) -> Seq<char> {
    if hls {
        asset_base + "/hls/index.m3u8"@
    } else if access == SessionAccess::External {
        asset_base + "/"@ + segment_encoded(encode_utf8(file_name))
    } else {
        asset_base + "/file"@
    }
}

/// The address a client streams a session from.
pub fn session_stream_url(asset_base: &str, hls: bool, access: SessionAccess, file_name: &str) -> (r: String)
    ensures
        r@ == stream_url_spec(asset_base@, hls, access, file_name@),
{
    let mut v = chars_of(asset_base);
    if hls {
        append_str(&mut v, "/hls/index.m3u8");
    } else if matches!(access, SessionAccess::External) {
        append_str(&mut v, "/");
        let encoded = encode_path_segment(file_name);
        append_str(&mut v, encoded.as_str());
    } else {
        append_str(&mut v, "/file");
    }
    string_of(v.as_slice())
}

/// Picks the prepared subtitle to burn in: the first whose identifier is the requested
/// one; a request for a track that was not prepared is a conflict.
pub fn burned_subtitle_index(prepared_ids: &Vec<String>, subtitle_id: Option<&str>) -> (r: Result<usize, RemoteMediaError>)
    ensures
        match r {
            Ok(i) => match subtitle_id {
                Some(s) => i < prepared_ids@.len() && prepared_ids@[i as int]@ == s@
                    && (forall|k: int| 0 <= k < i ==> (#[trigger] prepared_ids@[k])@ != s@),
                None => false,
            },
            Err(e) => e.status == 409 && e.code@ == "MEDIA_SUBTITLE_UNAVAILABLE"@ && match subtitle_id {
                Some(s) => forall|k: int| 0 <= k < prepared_ids@.len() ==> (#[trigger] prepared_ids@[k])@ != s@,
                None => true,
            },
        },
{
    if let Some(s) = subtitle_id {
        let wanted = chars_of(s);
        let mut i: usize = 0;
        while i < prepared_ids.len()
            invariant
                i <= prepared_ids@.len(),
                subtitle_id == Some(s),
                wanted@ == s@,
                forall|k: int| 0 <= k < i ==> (#[trigger] prepared_ids@[k])@ != s@,
            decreases prepared_ids@.len() - i,
        {
            if chars_eq(chars_of(prepared_ids[i].as_str()).as_slice(), wanted.as_slice()) {
                assert(prepared_ids@[i as int]@ == s@);
                return Ok(i);
            }
            i = i + 1;
        }
    }
    Err(RemoteMediaError::new(409, "MEDIA_SUBTITLE_UNAVAILABLE", String::from_str("请求的字幕轨道不可用于烧录")))
}


/// What a session serves for an asset name.
#[derive(Debug, Clone, PartialEq, Eq, Structural)]
pub enum AssetChoice {
    /// A prepared subtitle file, ASS or WebVTT.
    Subtitle { ass: bool },
    /// The source file itself, of a direct session.
    SourceFile,
    /// The HLS playlist of a transcode.
    Playlist,
    /// An HLS segment of a transcode.
    Segment,
}

/// The asset a session serves for a name: a prepared subtitle whose address ends with
/// the name (when the name is a subtitle file name); for a direct session the source
/// file under `file` or its own name; for a transcode the HLS playlist or a segment;
/// nothing else.
pub open spec fn asset_choice_spec(
    asset_name: Seq<char>,
    subtitles: Seq<(Seq<char>, Seq<char>)>,
    direct: bool,
    file_name: Seq<char>,
) -> Option<AssetChoice> {
    match first_subtitle_for(subtitles, asset_name) {
        Some(t) => if is_subtitle_name_spec(asset_name) {
            Some(AssetChoice::Subtitle { ass: t == "ass"@ })
        } else {
            None
        },
        None => if direct {
            if asset_name == "file"@ || asset_name == file_name {
                Some(AssetChoice::SourceFile)
            } else {
                None
            }
        } else if !is_hls_name_spec(asset_name) {
            None
        } else if has_suffix(asset_name, ".m3u8"@) {
            Some(AssetChoice::Playlist)
        } else {
            Some(AssetChoice::Segment)
        },
    }
}

/// The type of the first subtitle whose address ends with `/subtitles/` and the name.
pub open spec fn first_subtitle_for(subtitles: Seq<(Seq<char>, Seq<char>)>, asset_name: Seq<char>) -> Option<Seq<char>>
    decreases subtitles.len(),
{
    if subtitles.len() == 0 {
        None
    } else if has_suffix(subtitles[0].0, "/subtitles/"@ + asset_name) {
        Some(subtitles[0].1)
    } else {
        first_subtitle_for(subtitles.subrange(1, subtitles.len() as int), asset_name)
    }
}

/// Decides which asset of a session a name refers to, given the session's subtitles
/// as (address, type), whether it is direct, and its file name.
pub fn resolve_asset_choice(
    asset_name: &str,
    subtitles: &Vec<(String, String)>,
    direct: bool,
    file_name: &str,
) -> (r: Result<AssetChoice, RemoteMediaError>)
    ensures
        match r {
            Ok(c) => asset_choice_spec(
                asset_name@,
                subtitles@.map_values(|s: (String, String)| (s.0@, s.1@)),
                direct,
                file_name@,
            ) == Some(c),
            Err(e) => asset_choice_spec(
                asset_name@,
                subtitles@.map_values(|s: (String, String)| (s.0@, s.1@)),
                direct,
                file_name@,
            ) is None && e.status == 404 && e.code@ == "MEDIA_ASSET_NOT_FOUND"@,
        },
{
    let ghost views = subtitles@.map_values(|s: (String, String)| (s.0@, s.1@));
    let mut suffix = chars_of("/subtitles/");
    append_str(&mut suffix, asset_name);
    let mut i: usize = 0;
    assert(views.subrange(0, views.len() as int) =~= views);
    while i < subtitles.len()
        invariant
            i <= subtitles@.len(),
            views == subtitles@.map_values(|s: (String, String)| (s.0@, s.1@)),
            suffix@ == "/subtitles/"@ + asset_name@,
            first_subtitle_for(views.subrange(i as int, views.len() as int), asset_name@) == first_subtitle_for(views, asset_name@),
        decreases subtitles@.len() - i,
    {
        let ghost rest = views.subrange(i as int, views.len() as int);
        assert(rest[0] == views[i as int]);
        if ends_with(chars_of(subtitles[i].0.as_str()).as_slice(), suffix.as_slice()) {
            if !is_subtitle_asset(asset_name) {
                return Err(asset_not_found());
            }
            let ass = eq_str(chars_of(subtitles[i].1.as_str()).as_slice(), "ass");
            return Ok(AssetChoice::Subtitle { ass });
        }
        assert(rest.subrange(1, rest.len() as int) =~= views.subrange(i + 1, views.len() as int));
        i = i + 1;
    }
    let name = chars_of(asset_name);
    if direct {
        if eq_str(name.as_slice(), "file") || chars_eq(name.as_slice(), chars_of(file_name).as_slice()) {
            return Ok(AssetChoice::SourceFile);
        }
        return Err(asset_not_found());
    }
    if !is_hls_asset(asset_name) {
        return Err(asset_not_found());
    }
    if ends_with(name.as_slice(), chars_of(".m3u8").as_slice()) {
        Ok(AssetChoice::Playlist)
    } else {
        Ok(AssetChoice::Segment)
    }
}

/// The content type an asset is served with (the source file keeps the session's own).
pub fn asset_content_type(choice: AssetChoice, source_type: &str) -> (r: String)
    ensures
        r@ == match choice {
            AssetChoice::Subtitle { ass } => if ass {
                "text/x-ssa; charset=utf-8"@
            } else {
                "text/vtt; charset=utf-8"@
            },
            AssetChoice::SourceFile => source_type@,
            AssetChoice::Playlist => "application/vnd.apple.mpegurl"@,
            AssetChoice::Segment => "video/mp2t"@,
        },
{
    match choice {
        AssetChoice::Subtitle { ass } => if ass {
            String::from_str("text/x-ssa; charset=utf-8")
        } else {
            String::from_str("text/vtt; charset=utf-8")
        },
        AssetChoice::SourceFile => string_of(chars_of(source_type).as_slice()),
        AssetChoice::Playlist => String::from_str("application/vnd.apple.mpegurl"),
        AssetChoice::Segment => String::from_str("video/mp2t"),
    }
}

/// The file name a prepared subtitle is written to: `subtitle-` and its order in three
/// digits, then its type as extension.
pub fn subtitle_asset_name(order: usize, output_type: &str) -> (r: String)
    ensures
        r@ == "subtitle-"@ + pad_left(decimal(order as nat), 3, '0') + "."@ + output_type@,
{
    let mut v = chars_of("subtitle-");
    append_chars(&mut v, format_padded(order as u64, 3).as_slice());
    append_str(&mut v, ".");
    append_str(&mut v, output_type);
    string_of(v.as_slice())
}

/// The FFmpeg arguments that extract one subtitle stream: the stream, then the ASS or
/// WebVTT codec, overwriting the output.
pub fn subtitle_extract_args(stream_index: i64, output_type: &str) -> (r: Vec<String>)
    requires
        stream_index >= 0,
    ensures
        r@.map_values(|a: String| a@) == seq![
            "-map"@,
            "0:"@ + decimal(stream_index as nat),
            "-c:s"@,
            if output_type@ == "ass"@ {
                "ass"@
            } else {
                "webvtt"@
            },
            "-y"@,
        ],
{
    let mut map = chars_of("0:");
    append_chars(&mut map, format_decimal(stream_index as u64).as_slice());
    let codec = if eq_str(chars_of(output_type).as_slice(), "ass") {
        String::from_str("ass")
    } else {
        String::from_str("webvtt")
    };
    let out = vec![String::from_str("-map"), string_of(map.as_slice()), String::from_str("-c:s"), codec, String::from_str("-y")];
    assert(out@.map_values(|a: String| a@) =~= seq![
        "-map"@,
        "0:"@ + decimal(stream_index as nat),
        "-c:s"@,
        if output_type@ == "ass"@ {
            "ass"@
        } else {
            "webvtt"@
        },
        "-y"@,
    ]);
    out
}


/// The sessions a media service keeps open at once.
pub const MAX_SESSIONS: usize = 2;

/// Whether a caller may use a session: a device other than the owner's is refused, and
/// an access token is accepted only for an external-player session whose token it is.
pub open spec fn session_access_spec(
    owner: Seq<char>,
    access: SessionAccess,
    token: Option<Seq<char>>,
    device_id: Option<Seq<char>>,
    access_token: Option<Seq<char>>,
) -> bool {
    !(device_id matches Some(d) && d != owner) && !(access_token matches Some(t) && (access != SessionAccess::External
        || !(token == Some(t))))
}

/// Whether a caller may use a session; a refused caller is told the session does not
/// exist.
pub fn session_access_allowed(
    owner: &str,
    access: SessionAccess,
    token: Option<&str>,
    device_id: Option<&str>,
    access_token: Option<&str>,
) -> (r: bool)
    ensures
        r == session_access_spec(
            owner@,
            access,
            crate::discovery::opt_view(token),
            crate::discovery::opt_view(device_id),
            crate::discovery::opt_view(access_token),
        ),
{
    if let Some(d) = device_id {
        if !chars_eq(chars_of(owner).as_slice(), chars_of(d).as_slice()) {
            return false;
        }
    }
    if let Some(t) = access_token {
        if !matches!(access, SessionAccess::External) || !secure_token_equals(token, t) {
            return false;
        }
    }
    true
}

/// The session to close to make room for a new one: none below the limit, else the
/// least recently used (the first of them on a tie).
pub fn oldest_session(last_accessed_ms: &Vec<i64>) -> (r: Option<usize>)
    ensures
        last_accessed_ms@.len() < MAX_SESSIONS ==> r is None,
        last_accessed_ms@.len() >= MAX_SESSIONS ==> (r matches Some(i) && i < last_accessed_ms@.len()
            && (forall|k: int| 0 <= k < last_accessed_ms@.len() ==> last_accessed_ms@[i as int] <= #[trigger] last_accessed_ms@[k])
            && (forall|k: int| 0 <= k < i ==> last_accessed_ms@[i as int] < #[trigger] last_accessed_ms@[k])),
{
    if last_accessed_ms.len() < MAX_SESSIONS {
        return None;
    }
    let mut best: usize = 0;
    let mut i: usize = 1;
    while i < last_accessed_ms.len()
        invariant
            1 <= i <= last_accessed_ms@.len(),
            best < i,
            forall|k: int| 0 <= k < i ==> last_accessed_ms@[best as int] <= #[trigger] last_accessed_ms@[k],
            forall|k: int| 0 <= k < best ==> last_accessed_ms@[best as int] < #[trigger] last_accessed_ms@[k],
        decreases last_accessed_ms@.len() - i,
    {
        if last_accessed_ms[i] < last_accessed_ms[best] {
            best = i;
        }
        i = i + 1;
    }
    Some(best)
}

/// Whether a session whose expiry is written `expires_at` has expired at `now_ms`: its
/// expiry, in whole milliseconds, is not after now; an unreadable expiry counts as
/// expired.
pub open spec fn session_expired_spec(expires_at: Seq<char>, now_ms: i64) -> bool {
    match crate::scan::rfc3339_instant(expires_at) {
        Some((secs, nanos)) => secs * 1000 + nanos / 1_000_000 <= now_ms,
        None => true,
    }
}

/// Whether a session has expired at `now_ms`.
pub fn session_expired(expires_at: &str, now_ms: i64) -> (r: bool)
    ensures
        r == session_expired_spec(expires_at@, now_ms),
{
    match crate::scan::parse_rfc3339_instant(expires_at) {
        Some((secs, nanos)) => {
            let millis: i128 = (secs as i128) * 1000 + ((nanos / 1_000_000) as i128);
            millis <= (now_ms as i128)
        },
        None => true,
    }
}

} // verus!
