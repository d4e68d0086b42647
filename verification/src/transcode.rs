//! Plans of the HLS transcoders: the FFmpeg arguments of a plain and of a model-fed
//! transcode, the encoders that survive probing, the order in which encoders and
//! enhancement profiles are tried, and when a playlist has its first segment.

use vstd::prelude::*;
use crate::contracts::{PlayerFrameInterpolation, PlayerVideoEnhancement, RemotePlaybackEnhancement};
use crate::contracts::PlayerRuntimePlatform;
use crate::remote_media::{
    encoder_degraded_spec, encoder_is_degraded,
    encoder_args_spec, encoder_video_args, remote_video_filter_args, video_filter_args_spec,
    RemoteMediaError,
};
use crate::text::{append_chars, append_str, chars_of, contains, contains_seq, decimal, format_decimal, string_of};

verus! {

fn strings_of(lits: &[&str]) -> (r: Vec<String>)
    ensures
        r@.map_values(|s: String| s@) == lits@.map_values(|s: &str| s@),
{
    let mut out: Vec<String> = Vec::new();
    let mut i: usize = 0;
    while i < lits.len()
        invariant
            i <= lits@.len(),
            out@.map_values(|s: String| s@) == lits@.subrange(0, i as int).map_values(|s: &str| s@),
        decreases lits@.len() - i,
    {
        let ghost before = out@;
        out.push(String::from_str(lits[i]));
        assert(out@.map_values(|s: String| s@) =~= before.map_values(|s: String| s@).push(lits@[i as int]@));
        assert(lits@.subrange(0, i + 1).map_values(|s: &str| s@) =~= lits@.subrange(0, i as int).map_values(
            |s: &str| s@,
        ).push(lits@[i as int]@));
        i = i + 1;
    }
    assert(lits@.subrange(0, lits@.len() as int) =~= lits@);
    out
}

fn extend_lits(out: &mut Vec<String>, lits: &[&str])
    ensures
        final(out)@.map_values(|s: String| s@) == old(out)@.map_values(|s: String| s@) + lits@.map_values(|s: &str| s@),
{
    let mut i: usize = 0;
    let ghost start = out@.map_values(|s: String| s@);
    while i < lits.len()
        invariant
            i <= lits@.len(),
            out@.map_values(|s: String| s@) == start + lits@.subrange(0, i as int).map_values(|s: &str| s@),
        decreases lits@.len() - i,
    {
        let ghost before = out@;
        out.push(String::from_str(lits[i]));
        assert(out@.map_values(|s: String| s@) =~= before.map_values(|s: String| s@).push(lits@[i as int]@));
        assert(lits@.subrange(0, i + 1).map_values(|s: &str| s@) =~= lits@.subrange(0, i as int).map_values(
            |s: &str| s@,
        ).push(lits@[i as int]@));
        i = i + 1;
    }
    assert(lits@.subrange(0, lits@.len() as int) =~= lits@);
}

fn extend_strings(out: &mut Vec<String>, more: Vec<String>)
    ensures
        final(out)@.map_values(|s: String| s@) == old(out)@.map_values(|s: String| s@) + more@.map_values(|s: String| s@),
{
    let mut i: usize = 0;
    let ghost start = out@.map_values(|s: String| s@);
    while i < more.len()
        invariant
            i <= more@.len(),
            out@.map_values(|s: String| s@) == start + more@.subrange(0, i as int).map_values(|s: String| s@),
        decreases more@.len() - i,
    {
        let ghost before = out@;
        let item = more[i].clone();
        out.push(item);
        assert(out@.map_values(|s: String| s@) =~= before.map_values(|s: String| s@).push(more@[i as int]@));
        assert(more@.subrange(0, i + 1).map_values(|s: String| s@) =~= more@.subrange(0, i as int).map_values(
            |s: String| s@,
        ).push(more@[i as int]@));
        i = i + 1;
    }
    assert(more@.subrange(0, more@.len() as int) =~= more@);
}

fn encoder_strings(codec: &str) -> (r: Vec<String>)
    ensures
        r@.map_values(|s: String| s@) == encoder_args_spec(codec@),
{
    let args = encoder_video_args(codec);
    strings_of(args.as_slice())
}

/// The output arguments of an HLS transcode: two-second segments forced on key frames,
/// an event playlist that lists every segment, written through temporary files.
pub open spec fn hls_output_args_spec(segments: Seq<char>, playlist: Seq<char>) -> Seq<Seq<char>> {
    seq![
        "-force_key_frames"@, "expr:gte(t,n_forced*2)"@, "-f"@, "hls"@, "-hls_time"@, "2"@,
        "-hls_init_time"@, "1"@, "-hls_list_size"@, "0"@, "-hls_playlist_type"@, "event"@,
        "-hls_flags"@, "independent_segments+temp_file"@, "-hls_segment_filename"@, segments, playlist,
    ]
}

/// The output arguments of an HLS transcode into `segments` and `playlist`.
pub fn hls_output_args(segments: &str, playlist: &str) -> (r: Vec<String>)
    ensures
        r@.map_values(|s: String| s@) == hls_output_args_spec(segments@, playlist@),
{
    let mut out = strings_of(
        &[
            "-force_key_frames", "expr:gte(t,n_forced*2)", "-f", "hls", "-hls_time", "2",
            "-hls_init_time", "1", "-hls_list_size", "0", "-hls_playlist_type", "event",
            "-hls_flags", "independent_segments+temp_file", "-hls_segment_filename",
        ],
    );
    extend_lits(&mut out, &[segments, playlist]);
    assert(out@.map_values(|s: String| s@) =~= hls_output_args_spec(segments@, playlist@));
    out
}

/// The stream and codec arguments of a plain transcode: the first video and audio
/// streams of the source, the encoder's options, the filters, 8-bit 4:2:0 video and
/// stereo AAC audio.
pub open spec fn transcode_args_spec(codec: Seq<char>, e: RemotePlaybackEnhancement, burn: Option<Seq<char>>) -> Seq<Seq<char>> {
    seq!["-map"@, "0:v:0"@, "-map"@, "0:a:0?"@, "-c:v"@] + encoder_args_spec(codec) + video_filter_args_spec(e, burn)
        + seq!["-pix_fmt"@, "yuv420p"@, "-c:a"@, "aac"@, "-b:a"@, "160k"@, "-ac"@, "2"@]
}

/// The stream and codec arguments of a plain transcode with one encoder and profile.
pub fn transcode_args(codec: &str, enhancement: RemotePlaybackEnhancement, burn_subtitle: Option<&str>) -> (r: Vec<String>)
    ensures
        r@.map_values(|s: String| s@) == transcode_args_spec(
            codec@,
            enhancement,
            crate::discovery::opt_view(burn_subtitle),
        ),
{
    let mut out = strings_of(&["-map", "0:v:0", "-map", "0:a:0?", "-c:v"]);
    extend_strings(&mut out, encoder_strings(codec));
    let filters = remote_video_filter_args(enhancement, burn_subtitle);
    assert(crate::discovery::opt_view(burn_subtitle) == match burn_subtitle {
        Some(p) => Some(p@),
        None => None::<Seq<char>>,
    });
    extend_strings(&mut out, filters);
    extend_lits(&mut out, &["-pix_fmt", "yuv420p", "-c:a", "aac", "-b:a", "160k", "-ac", "2"]);
    out
}

/// The filters of a model-fed encoder: the FFmpeg sharpening only when no enhancement
/// model runs, never interpolation (the model did it), and burned subtitles.
pub open spec fn model_filter_enhancement(e: RemotePlaybackEnhancement, model_enhancement_active: bool) -> RemotePlaybackEnhancement {
    RemotePlaybackEnhancement {
        video_enhancement: if model_enhancement_active {
            PlayerVideoEnhancement::Off
        } else {
            e.video_enhancement
        },
        frame_interpolation: PlayerFrameInterpolation::Off,
    }
}

/// The stream and codec arguments of the encoder that a model pipeline feeds: the
/// model's frames as video, the source's first audio stream if any, and output ending
/// with the shorter input.
pub open spec fn model_encoder_args_spec(
    codec: Seq<char>,
    e: RemotePlaybackEnhancement,
    model_enhancement_active: bool,
    burn: Option<Seq<char>>,
) -> Seq<Seq<char>> {
    seq!["-map"@, "0:v:0"@, "-map"@, "1:a:0?"@, "-c:v"@] + encoder_args_spec(codec) + video_filter_args_spec(
        model_filter_enhancement(e, model_enhancement_active),
        burn,
    ) + seq!["-pix_fmt"@, "yuv420p"@, "-c:a"@, "aac"@, "-b:a"@, "160k"@, "-ac"@, "2"@, "-shortest"@]
}

/// The stream and codec arguments of the encoder that a model pipeline feeds.
pub fn model_encoder_args(
    codec: &str,
    enhancement: RemotePlaybackEnhancement,
    model_enhancement_active: bool,
    burn_subtitle: Option<&str>,
) -> (r: Vec<String>)
    ensures
        r@.map_values(|s: String| s@) == model_encoder_args_spec(
            codec@,
            enhancement,
            model_enhancement_active,
            crate::discovery::opt_view(burn_subtitle),
        ),
{
    let mut out = strings_of(&["-map", "0:v:0", "-map", "1:a:0?", "-c:v"]);
    extend_strings(&mut out, encoder_strings(codec));
    let filtered = RemotePlaybackEnhancement {
        video_enhancement: if model_enhancement_active {
            PlayerVideoEnhancement::Off
        } else {
            enhancement.video_enhancement
        },
        frame_interpolation: PlayerFrameInterpolation::Off,
    };
    let filters = remote_video_filter_args(filtered, burn_subtitle);
    assert(crate::discovery::opt_view(burn_subtitle) == match burn_subtitle {
        Some(p) => Some(p@),
        None => None::<Seq<char>>,
    });
    extend_strings(&mut out, filters);
    extend_lits(&mut out, &["-pix_fmt", "yuv420p", "-c:a", "aac", "-b:a", "160k", "-ac", "2", "-shortest"]);
    out
}

/// The frame size a model pipeline outputs, `WxH` after scaling, refused when it
/// overflows 32 bits.
pub open spec fn model_dimensions_spec(width: u32, height: u32, scale: u32) -> Result<Seq<char>, Seq<char>> {
    if width * scale > u32::MAX {
        Err("模型输出宽度溢出"@)
    } else if height * scale > u32::MAX {
        Err("模型输出高度溢出"@)
    } else {
        Ok(decimal((width * scale) as nat) + "x"@ + decimal((height * scale) as nat))
    }
}

/// The frame size a model pipeline outputs.
pub fn model_output_dimensions(width: u32, height: u32, scale: u32) -> (r: Result<String, RemoteMediaError>)
    ensures
        match r {
            Ok(d) => model_dimensions_spec(width, height, scale) == Ok::<Seq<char>, Seq<char>>(d@),
            Err(e) => model_dimensions_spec(width, height, scale) == Err::<Seq<char>, Seq<char>>(e.message@)
                && e.status == 503 && e.code@ == "MODEL_OUTPUT_SIZE_INVALID"@,
        },
{
    let w = match width.checked_mul(scale) {
        Some(w) => w,
        None => {
            return Err(RemoteMediaError::new(503, "MODEL_OUTPUT_SIZE_INVALID", String::from_str("模型输出宽度溢出")));
        },
    };
    let h = match height.checked_mul(scale) {
        Some(h) => h,
        None => {
            return Err(RemoteMediaError::new(503, "MODEL_OUTPUT_SIZE_INVALID", String::from_str("模型输出高度溢出")));
        },
    };
    let mut v = format_decimal(w as u64);
    let x = chars_of("x");
    append_chars(&mut v, x.as_slice());
    append_chars(&mut v, format_decimal(h as u64).as_slice());
    Ok(string_of(v.as_slice()))
}

/// The encoders kept after probing, in order; when none passed, software encoding.
pub open spec fn usable_encoders_spec(candidates: Seq<(Seq<char>, Seq<char>)>, probe_ok: Seq<bool>) -> Seq<(Seq<char>, Seq<char>)> {
    let passed = passed_encoders(candidates, probe_ok);
    if passed.len() == 0 {
        seq![("libx264"@, "libx264"@)]
    } else {
        passed
    }
}

/// The candidates whose probe passed, in order.
pub open spec fn passed_encoders(candidates: Seq<(Seq<char>, Seq<char>)>, probe_ok: Seq<bool>) -> Seq<(Seq<char>, Seq<char>)>
    decreases candidates.len(),
{
    if candidates.len() == 0 {
        Seq::empty()
    } else {
        let rest = passed_encoders(candidates.drop_last(), probe_ok);
        if probe_ok[candidates.len() - 1] {
            rest.push(candidates.last())
        } else {
            rest
        }
    }
}

/// The encoders a session can use, given whether each candidate passed its probe.
pub fn usable_encoders(candidates: &Vec<(&'static str, &'static str)>, probe_ok: &Vec<bool>) -> (r: Vec<(&'static str, &'static str)>)
    requires
        candidates@.len() == probe_ok@.len(),
    ensures
        r@.map_values(|c: (&str, &str)| (c.0@, c.1@)) == usable_encoders_spec(
            candidates@.map_values(|c: (&str, &str)| (c.0@, c.1@)),
            probe_ok@,
        ),
{
    let ghost views = candidates@.map_values(|c: (&str, &str)| (c.0@, c.1@));
    let mut out: Vec<(&'static str, &'static str)> = Vec::new();
    let mut i: usize = 0;
    while i < candidates.len()
        invariant
            i <= candidates@.len(),
            candidates@.len() == probe_ok@.len(),
            views == candidates@.map_values(|c: (&str, &str)| (c.0@, c.1@)),
            out@.map_values(|c: (&str, &str)| (c.0@, c.1@)) == passed_encoders(views.subrange(0, i as int), probe_ok@),
        decreases candidates@.len() - i,
    {
        assert(views.subrange(0, i + 1).drop_last() =~= views.subrange(0, i as int));
        assert(views.subrange(0, i + 1).last() == views[i as int]);
        if probe_ok[i] {
            let ghost before = out@;
            out.push(candidates[i]);
            assert(out@.map_values(|c: (&str, &str)| (c.0@, c.1@)) =~= before.map_values(|c: (&str, &str)| (c.0@, c.1@)).push(
                views[i as int],
            ));
        }
        i = i + 1;
    }
    assert(views.subrange(0, candidates@.len() as int) =~= views);
    if out.len() == 0 {
        let fallback: Vec<(&'static str, &'static str)> = vec![("libx264", "libx264")];
        assert(fallback@.map_values(|c: (&str, &str)| (c.0@, c.1@)) =~= seq![("libx264"@, "libx264"@)]);
        fallback
    } else {
        out
    }
}

/// The bytes of the marker of a playlist entry.
pub open spec fn extinf() -> Seq<u8> {
    seq![0x23u8, 0x45, 0x58, 0x54, 0x49, 0x4e, 0x46]
}

/// Whether a playlist lists a segment: its bytes hold `#EXTINF`.
pub open spec fn playlist_ready_spec(content: Seq<u8>) -> bool {
    exists|i: int| 0 <= i && i + 7 <= content.len() && #[trigger] content.subrange(i, i + 7) == extinf()
}

/// Whether a playlist already lists a playable segment, not merely exists.
pub fn playlist_has_segment(content: &[u8]) -> (r: bool)
    ensures
        r == playlist_ready_spec(content@),
{
    let marker: [u8; 7] = [0x23, 0x45, 0x58, 0x54, 0x49, 0x4e, 0x46];
    assert(marker@ =~= extinf());
    if content.len() < 7 {
        return false;
    }
    let n = content.len();
    let last = n - 7;
    let mut i: usize = 0;
    while i <= last
        invariant
            7 <= content@.len(),
            last == content@.len() - 7,
            n == content@.len(),
            i <= last + 1,
            marker@ == extinf(),
            forall|k: int| 0 <= k < i ==> #[trigger] content@.subrange(k, k + 7) != extinf(),
        decreases content@.len() - i,
    {
        let mut j: usize = 0;
        let mut same = true;
        while j < 7
            invariant
                j <= 7,
                i <= last,
                last == content@.len() - 7,
                n == content@.len(),
                marker@ == extinf(),
                same == (forall|m: int| 0 <= m < j ==> content@[i + m] == marker@[m]),
            decreases 7 - j,
        {
            if content[i + j] != marker[j] {
                same = false;
            }
            j = j + 1;
        }
        if same {
            assert(content@.subrange(i as int, i + 7) =~= extinf());
            return true;
        }
        assert(content@.subrange(i as int, i + 7) != extinf()) by {
            let m = choose|m: int| 0 <= m < 7 && content@[i + m] != marker@[m];
            assert(content@.subrange(i as int, i + 7)[m] == content@[i + m]);
        }
        i = i + 1;
    }
    false
}


/// The most AI interpolation multiplies the frame rate; a plan below it turns RIFE off.
pub const RIFE_HARD_MAX_MULTIPLIER: u8 = 2;

/// Where the start of an HLS transcode stands: waiting for a model runtime, for the
/// source's frame rate, for the model pipeline, or done.
#[derive(Debug, Clone, Copy, PartialEq, Eq, Structural)]
pub enum HlsPhase {
    AwaitRife,
    AwaitRealesrgan,
    AwaitProbe,
    AwaitModel,
    Done,
}

/// What the caller does next to start an HLS transcode.
#[derive(Debug, Clone, Copy, PartialEq, Eq, Structural)]
pub enum HlsAction {
    /// Start the RIFE interpolation runtime.
    AcquireRife,
    /// Start the Real-ESRGAN enhancement runtime.
    AcquireRealesrgan,
    /// Probe the source's size and frame rate and plan the interpolation.
    ProbeVideo,
    /// Start the model pipeline with this enhancement.
    StartModel(RemotePlaybackEnhancement),
    /// Start a plain FFmpeg transcode; `fallback` when models were asked for and the
    /// start is a degraded fallback.
    StartFfmpeg { enhancement: RemotePlaybackEnhancement, fallback: bool },
    /// The model pipeline runs; the start is complete.
    UseModel,
}

/// The decisions of an HLS start so far: the enhancement asked for, the phase, which
/// model runtimes are in use, and why any asked-for processing was dropped.
#[derive(Debug)]
pub struct HlsStartPlan {
    pub enhancement: RemotePlaybackEnhancement,
    pub phase: HlsPhase,
    pub rife: bool,
    pub realesrgan: bool,
    pub reasons: Vec<String>,
}

/// The texts of a list of strings.
pub open spec fn texts(v: Seq<String>) -> Seq<Seq<char>> {
    v.map_values(|s: String| s@)
}

/// Whether AI interpolation is asked for.
pub open spec fn wants_rife(e: RemotePlaybackEnhancement) -> bool {
    e.frame_interpolation == PlayerFrameInterpolation::RifeRealtime
}

/// Whether AI enhancement is asked for.
pub open spec fn wants_realesrgan(e: RemotePlaybackEnhancement) -> bool {
    e.video_enhancement == PlayerVideoEnhancement::Clear
}

/// The enhancement of the model pipeline: the image enhancement as asked, and AI
/// interpolation only while its runtime is in use.
pub open spec fn model_enhancement(e: RemotePlaybackEnhancement, rife: bool) -> RemotePlaybackEnhancement {
    RemotePlaybackEnhancement {
        video_enhancement: e.video_enhancement,
        frame_interpolation: if rife {
            PlayerFrameInterpolation::RifeRealtime
        } else {
            PlayerFrameInterpolation::Off
        },
    }
}

/// The enhancement of the FFmpeg fallback: AI interpolation is dropped, everything
/// else as asked.
pub open spec fn fallback_enhancement(e: RemotePlaybackEnhancement) -> RemotePlaybackEnhancement {
    RemotePlaybackEnhancement {
        video_enhancement: e.video_enhancement,
        frame_interpolation: if wants_rife(e) {
            PlayerFrameInterpolation::Off
        } else {
            e.frame_interpolation
        },
    }
}

/// The step once the runtimes are settled: probe the source when RIFE is in use, else
/// start the model pipeline when a model is in use, else fall back to FFmpeg.
pub open spec fn after_runtimes(e: RemotePlaybackEnhancement, rife: bool, realesrgan: bool) -> (HlsPhase, HlsAction) {
    if rife {
        (HlsPhase::AwaitProbe, HlsAction::ProbeVideo)
    } else {
        after_probe(e, rife, realesrgan)
    }
}

/// The step once the frame rate is settled: the model pipeline when a model is in
/// use, else the FFmpeg fallback.
pub open spec fn after_probe(e: RemotePlaybackEnhancement, rife: bool, realesrgan: bool) -> (HlsPhase, HlsAction) {
    if rife || realesrgan {
        (HlsPhase::AwaitModel, HlsAction::StartModel(model_enhancement(e, rife)))
    } else {
        (HlsPhase::Done, HlsAction::StartFfmpeg { enhancement: fallback_enhancement(e), fallback: true })
    }
}

fn step_after_probe(plan: &mut HlsStartPlan) -> (r: HlsAction)
    ensures
        (final(plan).phase, r) == after_probe(old(plan).enhancement, old(plan).rife, old(plan).realesrgan),
        final(plan).enhancement == old(plan).enhancement,
        final(plan).rife == old(plan).rife,
        final(plan).realesrgan == old(plan).realesrgan,
        texts(final(plan).reasons@) == texts(old(plan).reasons@),
{
    let e = plan.enhancement;
    if plan.rife || plan.realesrgan {
        plan.phase = HlsPhase::AwaitModel;
        HlsAction::StartModel(RemotePlaybackEnhancement {
            video_enhancement: e.video_enhancement,
            frame_interpolation: if plan.rife {
                PlayerFrameInterpolation::RifeRealtime
            } else {
                PlayerFrameInterpolation::Off
            },
        })
    } else {
        plan.phase = HlsPhase::Done;
        HlsAction::StartFfmpeg { enhancement: fallback_of(e), fallback: true }
    }
}

fn fallback_of(e: RemotePlaybackEnhancement) -> (r: RemotePlaybackEnhancement)
    ensures
        r == fallback_enhancement(e),
{
    RemotePlaybackEnhancement {
        video_enhancement: e.video_enhancement,
        frame_interpolation: if matches!(e.frame_interpolation, PlayerFrameInterpolation::RifeRealtime) {
            PlayerFrameInterpolation::Off
        } else {
            e.frame_interpolation
        },
    }
}

fn step_after_runtimes(plan: &mut HlsStartPlan) -> (r: HlsAction)
    ensures
        (final(plan).phase, r) == after_runtimes(old(plan).enhancement, old(plan).rife, old(plan).realesrgan),
        final(plan).enhancement == old(plan).enhancement,
        final(plan).rife == old(plan).rife,
        final(plan).realesrgan == old(plan).realesrgan,
        texts(final(plan).reasons@) == texts(old(plan).reasons@),
{
    if plan.rife {
        plan.phase = HlsPhase::AwaitProbe;
        HlsAction::ProbeVideo
    } else {
        step_after_probe(plan)
    }
}

impl HlsStartPlan {
    /// Starts the plan: runtimes first when a model is asked for (RIFE, then
    /// Real-ESRGAN), else a plain FFmpeg transcode as asked.
    pub fn new(enhancement: RemotePlaybackEnhancement) -> (r: (HlsStartPlan, HlsAction))
        ensures
            r.0.enhancement == enhancement,
            r.0.reasons@.len() == 0,
            r.0.rife == false,
            r.0.realesrgan == false,
            (r.0.phase, r.1) == (if wants_rife(enhancement) {
                (HlsPhase::AwaitRife, HlsAction::AcquireRife)
            } else if wants_realesrgan(enhancement) {
                (HlsPhase::AwaitRealesrgan, HlsAction::AcquireRealesrgan)
            } else {
                (HlsPhase::Done, HlsAction::StartFfmpeg { enhancement, fallback: false })
            }),
    {
        let rife = matches!(enhancement.frame_interpolation, PlayerFrameInterpolation::RifeRealtime);
        let realesrgan = matches!(enhancement.video_enhancement, PlayerVideoEnhancement::Clear);
        let (phase, action) = if rife {
            (HlsPhase::AwaitRife, HlsAction::AcquireRife)
        } else if realesrgan {
            (HlsPhase::AwaitRealesrgan, HlsAction::AcquireRealesrgan)
        } else {
            (HlsPhase::Done, HlsAction::StartFfmpeg { enhancement, fallback: false })
        };
        (HlsStartPlan { enhancement, phase, rife: false, realesrgan: false, reasons: Vec::new() }, action)
    }

    /// Takes the RIFE runtime's outcome: in use when it started, else its failure is a
    /// reason; Real-ESRGAN comes next when asked for.
    pub fn on_rife_runtime(&mut self, outcome: Result<(), String>) -> (r: HlsAction)
        requires
            old(self).phase == HlsPhase::AwaitRife,
        ensures
            final(self).enhancement == old(self).enhancement,
            final(self).rife == (outcome is Ok),
            final(self).realesrgan == old(self).realesrgan,
            texts(final(self).reasons@) == match outcome {
                Ok(()) => texts(old(self).reasons@),
                Err(m) => texts(old(self).reasons@).push(m@),
            },
            (final(self).phase, r) == if wants_realesrgan(old(self).enhancement) {
                (HlsPhase::AwaitRealesrgan, HlsAction::AcquireRealesrgan)
            } else {
                after_runtimes(old(self).enhancement, outcome is Ok, old(self).realesrgan)
            },
    {
        match outcome {
            Ok(()) => {
                self.rife = true;
            },
            Err(m) => {
                self.rife = false;
                let ghost before = self.reasons@;
                self.reasons.push(m);
                assert(texts(self.reasons@) =~= texts(before).push(m@));
            },
        }
        if matches!(self.enhancement.video_enhancement, PlayerVideoEnhancement::Clear) {
            self.phase = HlsPhase::AwaitRealesrgan;
            HlsAction::AcquireRealesrgan
        } else {
            step_after_runtimes(self)
        }
    }

    /// Takes the Real-ESRGAN runtime's outcome: in use when it started, else its failure
    /// is a reason.
    pub fn on_realesrgan_runtime(&mut self, outcome: Result<(), String>) -> (r: HlsAction)
        requires
            old(self).phase == HlsPhase::AwaitRealesrgan,
        ensures
            final(self).enhancement == old(self).enhancement,
            final(self).rife == old(self).rife,
            final(self).realesrgan == (outcome is Ok),
            texts(final(self).reasons@) == match outcome {
                Ok(()) => texts(old(self).reasons@),
                Err(m) => texts(old(self).reasons@).push(m@),
            },
            (final(self).phase, r) == after_runtimes(old(self).enhancement, old(self).rife, outcome is Ok),
    {
        match outcome {
            Ok(()) => {
                self.realesrgan = true;
            },
            Err(m) => {
                self.realesrgan = false;
                let ghost before = self.reasons@;
                self.reasons.push(m);
                assert(texts(self.reasons@) =~= texts(before).push(m@));
            },
        }
        step_after_runtimes(self)
    }

    /// Takes the source probe and the interpolation plan's multiplier: RIFE stays only
    /// when the plan reaches the full multiplier; otherwise the plan's reason (or a
    /// default one) is recorded, as is a failed probe.
    pub fn on_video_probe(&mut self, outcome: Result<(u8, Option<String>), String>) -> (r: HlsAction)
        requires
            old(self).phase == HlsPhase::AwaitProbe,
        ensures
            final(self).enhancement == old(self).enhancement,
            final(self).realesrgan == old(self).realesrgan,
            final(self).rife == (outcome matches Ok((m, _)) && m >= RIFE_HARD_MAX_MULTIPLIER),
            texts(final(self).reasons@) == match outcome {
                Ok((m, reason)) => if m >= RIFE_HARD_MAX_MULTIPLIER {
                    texts(old(self).reasons@)
                } else {
                    texts(old(self).reasons@).push(match reason {
                        Some(t) => t@,
                        None => "当前处理链无法满足 2x AI 插帧预算，已保持源帧率"@,
                    })
                },
                Err(m) => texts(old(self).reasons@).push("无法探测源帧率，已关闭 RIFE 插帧："@ + m@),
            },
            (final(self).phase, r) == after_probe(old(self).enhancement, final(self).rife, old(self).realesrgan),
    {
        let ghost before = self.reasons@;
        match outcome {
            Ok((m, reason)) => {
                if m >= RIFE_HARD_MAX_MULTIPLIER {
                    self.rife = true;
                } else {
                    self.rife = false;
                    let text = match reason {
                        Some(t) => t,
                        None => String::from_str("当前处理链无法满足 2x AI 插帧预算，已保持源帧率"),
                    };
                    let ghost shown = text@;
                    self.reasons.push(text);
                    assert(texts(self.reasons@) =~= texts(before).push(shown));
                }
            },
            Err(m) => {
                self.rife = false;
                let mut v = chars_of("无法探测源帧率，已关闭 RIFE 插帧：");
                append_str(&mut v, m.as_str());
                let text = string_of(v.as_slice());
                self.reasons.push(text);
                assert(texts(self.reasons@) =~= texts(before).push("无法探测源帧率，已关闭 RIFE 插帧："@ + m@));
            },
        }
        step_after_probe(self)
    }

    /// Takes the model pipeline's start: it runs, or its failure is a reason and the
    /// start falls back to FFmpeg without AI interpolation.
    pub fn on_model_start(&mut self, outcome: Result<(), String>) -> (r: HlsAction)
        requires
            old(self).phase == HlsPhase::AwaitModel,
        ensures
            final(self).enhancement == old(self).enhancement,
            final(self).rife == old(self).rife,
            final(self).realesrgan == old(self).realesrgan,
            final(self).phase == HlsPhase::Done,
            match outcome {
                Ok(()) => r == HlsAction::UseModel && texts(final(self).reasons@) == texts(old(self).reasons@),
                Err(m) => r == (HlsAction::StartFfmpeg { enhancement: fallback_enhancement(old(self).enhancement), fallback: true })
                    && texts(final(self).reasons@) == texts(old(self).reasons@).push(m@),
            },
    {
        self.phase = HlsPhase::Done;
        match outcome {
            Ok(()) => HlsAction::UseModel,
            Err(m) => {
                let ghost before = self.reasons@;
                self.reasons.push(m);
                assert(texts(self.reasons@) =~= texts(before).push(m@));
                HlsAction::StartFfmpeg { enhancement: fallback_of(self.enhancement), fallback: true }
            },
        }
    }
}

/// Whatever the runtimes and probes report, the FFmpeg fallback never asks FFmpeg for
/// AI interpolation, and keeps every other setting as asked.
pub proof fn lemma_fallback_drops_only_ai_interpolation(e: RemotePlaybackEnhancement)
    ensures
        fallback_enhancement(e).frame_interpolation != PlayerFrameInterpolation::RifeRealtime,
        fallback_enhancement(e).video_enhancement == e.video_enhancement,
        !wants_rife(e) ==> fallback_enhancement(e) == e,
{
}

/// The model pipeline is asked for AI interpolation exactly when its runtime is in use.
pub proof fn lemma_model_interpolates_only_with_runtime(e: RemotePlaybackEnhancement, rife: bool)
    ensures
        (model_enhancement(e, rife).frame_interpolation == PlayerFrameInterpolation::RifeRealtime) == rife,
{
}


/// The first transcoder attempt: the first encoder of the first profile.
pub open spec fn first_attempt_spec(profile_count: nat, encoder_count: nat) -> Option<(int, int)> {
    if profile_count > 0 && encoder_count > 0 {
        Some((0, 0))
    } else {
        None
    }
}

/// The first transcoder attempt, if there is any encoder and profile.
pub fn first_transcode_attempt(profile_count: usize, encoder_count: usize) -> (r: Option<(usize, usize)>)
    ensures
        match r {
            Some((p, e)) => first_attempt_spec(profile_count as nat, encoder_count as nat) == Some((p as int, e as int)),
            None => first_attempt_spec(profile_count as nat, encoder_count as nat) is None,
        },
{
    if profile_count > 0 && encoder_count > 0 {
        Some((0, 0))
    } else {
        None
    }
}

/// Where the next transcoder attempt goes after one failed: the next encoder of the
/// profile; or, once its encoders are used up, or when a motion-compensated profile's
/// started transcoder failed with a start timeout, the first encoder of the next
/// profile; nothing when every profile is used up.
pub open spec fn next_attempt_spec(
    profile: int,
    encoder: int,
    profile_count: int,
    encoder_count: int,
    motion_compensated: bool,
    spawned: bool,
    last_error: Option<Seq<char>>,
) -> Option<(int, int)> {
    let timed_out = match last_error {
        Some(m) => contains_seq(m, "启动超时"@),
        None => false,
    };
    let skip_profile = spawned && motion_compensated && timed_out;
    if !skip_profile && encoder + 1 < encoder_count {
        Some((profile, encoder + 1))
    } else if profile + 1 < profile_count {
        Some((profile + 1, 0))
    } else {
        None
    }
}

/// Picks the next transcoder attempt after attempt (`profile`, `encoder`) failed.
pub fn next_transcode_attempt(
    profile: usize,
    encoder: usize,
    profile_count: usize,
    encoder_count: usize,
    motion_compensated: bool,
    spawned: bool,
    last_error: Option<&str>,
) -> (r: Option<(usize, usize)>)
    requires
        profile < profile_count,
        encoder < encoder_count,
    ensures
        match r {
            Some((p, e)) => next_attempt_spec(
                profile as int,
                encoder as int,
                profile_count as int,
                encoder_count as int,
                motion_compensated,
                spawned,
                crate::discovery::opt_view(last_error),
            ) == Some((p as int, e as int)),
            None => next_attempt_spec(
                profile as int,
                encoder as int,
                profile_count as int,
                encoder_count as int,
                motion_compensated,
                spawned,
                crate::discovery::opt_view(last_error),
            ) is None,
        },
{
    let timed_out = match last_error {
        Some(m) => contains(chars_of(m).as_slice(), chars_of("启动超时").as_slice()),
        None => false,
    };
    let skip_profile = spawned && motion_compensated && timed_out;
    if !skip_profile && encoder + 1 < encoder_count {
        Some((profile, encoder + 1))
    } else if profile + 1 < profile_count {
        Some((profile + 1, 0))
    } else {
        None
    }
}

/// Every attempt sequence ends: each next attempt comes later in profile-then-encoder
/// order and stays within the profiles and encoders.
pub proof fn lemma_next_attempt_advances(
    profile: int,
    encoder: int,
    profile_count: int,
    encoder_count: int,
    motion_compensated: bool,
    spawned: bool,
    last_error: Option<Seq<char>>,
)
    requires
        0 <= profile < profile_count,
        0 <= encoder < encoder_count,
    ensures
        next_attempt_spec(profile, encoder, profile_count, encoder_count, motion_compensated, spawned, last_error) matches Some(
            (p, e),
        ) ==> 0 <= p < profile_count && 0 <= e < encoder_count && (p > profile || (p == profile && e > encoder)),
{
}

/// Whether a started plain transcode is degraded: a lowered profile, or an encoder
/// other than the platform's first choice.
pub fn transcode_degraded(profile_index: usize, platform: PlayerRuntimePlatform, encoder: &str) -> (r: bool)
    ensures
        r == (profile_index > 0 || encoder_degraded_spec(platform, encoder@)),
{
    profile_index > 0 || encoder_is_degraded(platform, encoder)
}

/// The error when no transcoder started: the last failure, or that there was no
/// encoder to try.
pub fn transcoder_unavailable(last_error: Option<String>) -> (r: RemoteMediaError)
    ensures
        r.status == 503,
        r.code@ == "TRANSCODER_UNAVAILABLE"@,
        r.message@ == match last_error {
            Some(m) => m@,
            None => "没有可用的 HLS 编码器"@,
        },
{
    RemoteMediaError::new(503, "TRANSCODER_UNAVAILABLE", match last_error {
        Some(m) => m,
        None => String::from_str("没有可用的 HLS 编码器"),
    })
}

/// The error when no model-fed encoder started: the last failure, or that there was
/// no encoder to try.
pub fn model_encoder_unavailable(last_error: Option<String>) -> (r: RemoteMediaError)
    ensures
        r.status == 503,
        r.code@ == "MODEL_ENCODER_UNAVAILABLE"@,
        r.message@ == match last_error {
            Some(m) => m@,
            None => "没有可用的视频编码器"@,
        },
{
    RemoteMediaError::new(503, "MODEL_ENCODER_UNAVAILABLE", match last_error {
        Some(m) => m,
        None => String::from_str("没有可用的视频编码器"),
    })
}


/// How far an HLS start has come.
pub open spec fn phase_rank(p: HlsPhase) -> int {
    match p {
        HlsPhase::AwaitRife => 0,
        HlsPhase::AwaitRealesrgan => 1,
        HlsPhase::AwaitProbe => 2,
        HlsPhase::AwaitModel => 3,
        HlsPhase::Done => 4,
    }
}

/// Every outcome moves an HLS start forward: the steps after the runtimes and after
/// the probe come later than the phases they leave, so a start is done after at most
/// four outcomes, and it is done exactly when its action starts FFmpeg or uses the
/// model pipeline.
pub proof fn lemma_hls_start_moves_forward(e: RemotePlaybackEnhancement, rife: bool, realesrgan: bool)
    ensures
        phase_rank(after_runtimes(e, rife, realesrgan).0) > phase_rank(HlsPhase::AwaitRealesrgan),
        phase_rank(after_probe(e, rife, realesrgan).0) > phase_rank(HlsPhase::AwaitProbe),
        (after_probe(e, rife, realesrgan).0 == HlsPhase::Done) == (after_probe(e, rife, realesrgan).1 is StartFfmpeg),
        (after_runtimes(e, rife, realesrgan).0 == HlsPhase::AwaitProbe) == rife,
{
}

} // verus!
