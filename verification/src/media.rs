//! Media scanning rules: which downloaded files are videos, and how an FFprobe report
//! becomes a media record (codecs, container, bit depth, tracks, identifier).

use vstd::prelude::*;
use crate::domain::{MediaAvailability, MediaContentKind, MediaFile, MediaOrigin};
use crate::remote_media::{dedup_spec, reason_groups};
use crate::selection::first_occurrences;
use crate::text::{
    append_chars, append_str, chars_eq, chars_of, contains, contains_seq, ends_with, eq_str,
    has_prefix, has_suffix, join_chars, join_spec, path_extension, plain_path, last_segment, name_extension, starts_with, string_of, trim,
    trim_chars, to_lowercase, to_uppercase, unicode_lowercase, unicode_uppercase, decimal,
    format_decimal, parse_i64, parse_i64_spec, split_on,
};

verus! {

/// A failure to probe a media file.
#[derive(Debug)]
pub enum MediaProbeError {
    File(String),
    Unavailable(String),
    InvalidOutput(String),
}

impl MediaProbeError {
    /// The text of the failure.
    pub fn message(&self) -> (r: String)
        ensures
            r@ == match self {
                MediaProbeError::File(m) => "媒体文件不可访问："@ + m@,
                MediaProbeError::Unavailable(m) => "FFprobe 不可用："@ + m@,
                MediaProbeError::InvalidOutput(m) => "FFprobe 输出无效："@ + m@,
            },
    {
        let (prefix, m) = match self {
            MediaProbeError::File(m) => ("媒体文件不可访问：", m),
            MediaProbeError::Unavailable(m) => ("FFprobe 不可用：", m),
            MediaProbeError::InvalidOutput(m) => ("FFprobe 输出无效：", m),
        };
        let mut out = chars_of(prefix);
        append_str(&mut out, m.as_str());
        string_of(out.as_slice())
    }
}

/// The download a probed file belongs to.
#[derive(Debug, Clone, Default, PartialEq, Eq)]
pub struct MediaProbeContext {
    pub anime_id: Option<String>,
    pub episode_id: Option<String>,
    pub download_task_id: Option<String>,
    pub declared_video_codec: Option<String>,
    pub normalized_video_codec: Option<String>,
    pub size: Option<i64>,
    pub downloaded_at: Option<String>,
}

/// A downloaded file the scan skipped, and why.
#[derive(Debug, Clone, PartialEq, Eq)]
pub struct MediaScanSkippedFile {
    pub name: String,
    pub reason: String,
}

/// A file the scan failed on.
#[derive(Debug, Clone, PartialEq, Eq)]
pub struct MediaScanError {
    pub file_path: String,
    pub message: String,
}

/// The outcome of scanning one download task.
#[derive(Debug, Clone)]
pub struct MediaScanResult {
    pub task_id: String,
    pub media_files: Vec<MediaFile>,
    pub skipped_files: Vec<MediaScanSkippedFile>,
    pub errors: Vec<MediaScanError>,
}

/// An extension as the scanner holds it: trimmed, lowercase, with a leading dot.
pub open spec fn scan_extension_spec(value: Seq<char>) -> Seq<char> {
    let v = unicode_lowercase(trim(value));
    if has_prefix(v, seq!['.']) {
        v
    } else {
        seq!['.'] + v
    }
}

/// Normalises a configured video extension.
pub fn normalize_extension(value: &str) -> (r: String)
    ensures
        r@ == scan_extension_spec(value@),
{
    let trimmed = string_of(trim_chars(chars_of(value).as_slice()).as_slice());
    let lower = to_lowercase(trimmed.as_str());
    let v = chars_of(lower.as_str());
    if v.len() > 0 && v[0] == '.' {
        assert(v@.subrange(0, 1) =~= seq!['.']);
        return lower;
    }
    let mut out: Vec<char> = Vec::new();
    out.push('.');
    append_chars(&mut out, v.as_slice());
    assert(out@ =~= seq!['.'] + v@);
    assert(!has_prefix(v@, seq!['.'])) by {
        if has_prefix(v@, seq!['.']) {
            assert(v@.subrange(0, 1)[0] == v@[0]);
        }
    }
    string_of(out.as_slice())
}

/// The default video extensions.
pub open spec fn default_video_extensions() -> Seq<Seq<char>> {
    seq![".mkv"@, ".mp4"@, ".avi"@]
}

/// The extension list a scanner uses: the configured one, or the defaults when none is
/// configured; each normalised, each kept once.
pub open spec fn scanner_extensions_spec(configured: Seq<Seq<char>>) -> Seq<Seq<char>> {
    let source = if configured.len() == 0 {
        default_video_extensions()
    } else {
        configured
    };
    dedup_spec(source.map_values(|v: Seq<char>| scan_extension_spec(v)))
}

/// Picks downloaded files for probing by selection, completion and video extension.
#[derive(Debug, Clone)]
pub struct DownloadMediaScanner {
    video_extensions: Vec<String>,
}

fn index_of_view(list: &Vec<String>, item: &[char]) -> (r: bool)
    ensures
        r == list@.map_values(|s: String| s@).contains(item@),
{
    let ghost views = list@.map_values(|s: String| s@);
    let mut i: usize = 0;
    while i < list.len()
        invariant
            i <= list@.len(),
            views == list@.map_values(|s: String| s@),
            forall|k: int| 0 <= k < i ==> views[k] != item@,
        decreases list@.len() - i,
    {
        let c = chars_of(list[i].as_str());
        if chars_eq(c.as_slice(), item) {
            assert(views[i as int] == item@);
            return true;
        }
        i = i + 1;
    }
    false
}

impl DownloadMediaScanner {
    /// The video extensions the scanner accepts.
    pub closed spec fn extensions_spec(&self) -> Seq<Seq<char>> {
        self.video_extensions@.map_values(|s: String| s@)
    }

    /// Creates a scanner for the configured video extensions, or the defaults.
    pub fn new(video_extensions: &[String]) -> (r: Self)
        ensures
            r.extensions_spec() == scanner_extensions_spec(video_extensions@.map_values(|s: String| s@)),
    {
        let defaults: Vec<String> = vec![
            String::from_str(".mkv"),
            String::from_str(".mp4"),
            String::from_str(".avi"),
        ];
        let ghost source = if video_extensions@.len() == 0 {
            default_video_extensions()
        } else {
            video_extensions@.map_values(|s: String| s@)
        };
        assert(defaults@.map_values(|s: String| s@) =~= default_video_extensions());
        let configured: &[String] = if video_extensions.len() == 0 {
            defaults.as_slice()
        } else {
            video_extensions
        };
        assert(configured@.map_values(|s: String| s@) =~= source);
        let ghost mapped = source.map_values(|v: Seq<char>| scan_extension_spec(v));
        let mut out: Vec<String> = Vec::new();
        let mut i: usize = 0;
        while i < configured.len()
            invariant
                i <= configured@.len(),
                configured@.map_values(|s: String| s@) == source,
                mapped == source.map_values(|v: Seq<char>| scan_extension_spec(v)),
                out@.map_values(|s: String| s@) == dedup_spec(mapped.subrange(0, i as int)),
            decreases configured@.len() - i,
        {
            let e = normalize_extension(configured[i].as_str());
            let ec = chars_of(e.as_str());
            proof {
                assert(mapped.subrange(0, i + 1).drop_last() =~= mapped.subrange(0, i as int));
                assert(mapped.subrange(0, i + 1).last() == e@);
            }
            if !index_of_view(&out, ec.as_slice()) {
                out.push(e);
                assert(out@.map_values(|s: String| s@) =~= dedup_spec(mapped.subrange(0, i as int)).push(ec@));
            }
            i = i + 1;
        }
        assert(mapped.subrange(0, configured@.len() as int) =~= mapped);
        DownloadMediaScanner { video_extensions: out }
    }

    /// Whether a file name ends, ignoring case, with one of the scanner's extensions.
    pub fn is_video_file(&self, file_name: &str) -> (r: bool)
        ensures
            r == is_video_file_spec(file_name@, self.extensions_spec()),
    {
        is_video_file(file_name, &self.video_extensions)
    }

    /// Why a downloaded file is skipped, if it is: not selected, not a video, or not
    /// complete while the task is not complete either.
    pub fn skip_reason(&self, selected: bool, file_name: &str, task_completed: bool, file_complete: bool) -> (r: Option<&'static str>)
        ensures
            !selected ==> (r matches Some(m) && m@ == "未选择下载"@),
            selected && !is_video_file_spec(file_name@, self.extensions_spec()) ==> (r matches Some(m)
                && m@ == "非视频文件"@),
            selected && is_video_file_spec(file_name@, self.extensions_spec()) && !task_completed
                && !file_complete ==> (r matches Some(m) && m@ == "文件尚未下载完成"@),
            selected && is_video_file_spec(file_name@, self.extensions_spec()) && (task_completed
                || file_complete) ==> r is None,
    {
        if !selected {
            return Some("未选择下载");
        }
        if !self.is_video_file(file_name) {
            return Some("非视频文件");
        }
        if !task_completed && !file_complete {
            return Some("文件尚未下载完成");
        }
        None
    }
}

/// A file name, lowercased, ends with one of the extensions.
pub open spec fn is_video_file_spec(file_name: Seq<char>, extensions: Seq<Seq<char>>) -> bool {
    exists|i: int| 0 <= i < extensions.len() && has_suffix(unicode_lowercase(file_name), #[trigger] extensions[i])
}

/// Whether a file name ends, ignoring case, with one of the extensions.
pub fn is_video_file(file_name: &str, extensions: &Vec<String>) -> (r: bool)
    ensures
        r == is_video_file_spec(file_name@, extensions@.map_values(|s: String| s@)),
{
    let lower = to_lowercase(file_name);
    let name = chars_of(lower.as_str());
    let ghost views = extensions@.map_values(|s: String| s@);
    let mut i: usize = 0;
    while i < extensions.len()
        invariant
            i <= extensions@.len(),
            views == extensions@.map_values(|s: String| s@),
            name@ == unicode_lowercase(file_name@),
            forall|k: int| 0 <= k < i ==> !has_suffix(name@, #[trigger] views[k]),
        decreases extensions@.len() - i,
    {
        let e = chars_of(extensions[i].as_str());
        if ends_with(name.as_slice(), e.as_slice()) {
            assert(has_suffix(unicode_lowercase(file_name@), views[i as int]));
            return true;
        }
        i = i + 1;
    }
    false
}

/// The stable codec name of an FFprobe video codec.
pub open spec fn video_codec_spec(codec: Seq<char>) -> Seq<char> {
    let c = unicode_lowercase(trim(codec));
    if c == "h264"@ || c == "avc"@ || c == "avc1"@ {
        "H.264/AVC"@
    } else if c == "h265"@ || c == "hevc"@ || c == "hev1"@ || c == "hvc1"@ {
        "H.265/HEVC"@
    } else if c == "av1"@ || c == "av01"@ {
        "AV1"@
    } else if c == "vp9"@ || c == "vp09"@ {
        "VP9"@
    } else {
        "Unknown"@
    }
}

/// Normalises an FFprobe video codec name.
pub fn normalize_video_codec(codec: &str) -> (r: String)
    ensures
        r@ == video_codec_spec(codec@),
{
    let trimmed = string_of(trim_chars(chars_of(codec).as_slice()).as_slice());
    let lower = to_lowercase(trimmed.as_str());
    let c = chars_of(lower.as_str());
    let s = c.as_slice();
    if eq_str(s, "h264") || eq_str(s, "avc") || eq_str(s, "avc1") {
        String::from_str("H.264/AVC")
    } else if eq_str(s, "h265") || eq_str(s, "hevc") || eq_str(s, "hev1") || eq_str(s, "hvc1") {
        String::from_str("H.265/HEVC")
    } else if eq_str(s, "av1") || eq_str(s, "av01") {
        String::from_str("AV1")
    } else if eq_str(s, "vp9") || eq_str(s, "vp09") {
        String::from_str("VP9")
    } else {
        String::from_str("Unknown")
    }
}

/// The display name of an FFprobe audio codec.
pub open spec fn audio_codec_spec(codec: Seq<char>) -> Seq<char> {
    let c = unicode_lowercase(codec);
    if c == "aac"@ {
        "AAC"@
    } else if c == "ac3"@ {
        "AC-3"@
    } else if c == "eac3"@ {
        "E-AC-3"@
    } else if c == "flac"@ {
        "FLAC"@
    } else if c == "mp3"@ {
        "MP3"@
    } else if c == "opus"@ {
        "OPUS"@
    } else if c == "truehd"@ {
        "TrueHD"@
    } else if c == "dts"@ {
        "DTS"@
    } else {
        unicode_uppercase(c)
    }
}

/// Normalises an FFprobe audio codec name.
pub fn normalize_audio_codec(codec: &str) -> (r: String)
    ensures
        r@ == audio_codec_spec(codec@),
{
    let lower = to_lowercase(codec);
    let c = chars_of(lower.as_str());
    let s = c.as_slice();
    if eq_str(s, "aac") {
        String::from_str("AAC")
    } else if eq_str(s, "ac3") {
        String::from_str("AC-3")
    } else if eq_str(s, "eac3") {
        String::from_str("E-AC-3")
    } else if eq_str(s, "flac") {
        String::from_str("FLAC")
    } else if eq_str(s, "mp3") {
        String::from_str("MP3")
    } else if eq_str(s, "opus") {
        String::from_str("OPUS")
    } else if eq_str(s, "truehd") {
        String::from_str("TrueHD")
    } else if eq_str(s, "dts") {
        String::from_str("DTS")
    } else {
        to_uppercase(lower.as_str())
    }
}

/// The container of a file: its extension when it is a known one, otherwise what
/// FFprobe's format name suggests.
pub open spec fn container_spec(extension: Option<Seq<char>>, format_name: Option<Seq<char>>) -> Seq<char> {
    let ext = match extension {
        Some(e) => Some(unicode_lowercase(e)),
        None => None,
    };
    if ext == Some("mkv"@) || ext == Some("mp4"@) || ext == Some("avi"@) {
        ext.unwrap()
    } else {
        let f = unicode_lowercase(
            match format_name {
                Some(n) => n,
                None => Seq::empty(),
            },
        );
        if contains_seq(f, "matroska"@) {
            "mkv"@
        } else if contains_seq(f, "mp4"@) || contains_seq(f, "mov"@) {
            "mp4"@
        } else if contains_seq(f, "avi"@) {
            "avi"@
        } else {
            "unknown"@
        }
    }
}

/// Decides the container from a file's extension and FFprobe's format name.
pub fn container_from(extension: Option<&str>, format_name: Option<&str>) -> (r: String)
    ensures
        r@ == container_spec(crate::discovery::opt_view(extension), crate::discovery::opt_view(format_name)),
{
    match extension {
        Some(e) => {
            let lower = to_lowercase(e);
            let c = chars_of(lower.as_str());
            if eq_str(c.as_slice(), "mkv") || eq_str(c.as_slice(), "mp4") || eq_str(c.as_slice(), "avi") {
                return lower;
            }
        },
        None => {},
    }
    let name: &str = match format_name {
        Some(n) => n,
        None => "",
    };
    proof {
        reveal_strlit("");
        assert(""@ =~= Seq::<char>::empty());
    }
    let lower = to_lowercase(name);
    let f = chars_of(lower.as_str());
    let fs = f.as_slice();
    if contains(fs, chars_of("matroska").as_slice()) {
        String::from_str("mkv")
    } else if contains(fs, chars_of("mp4").as_slice()) || contains(fs, chars_of("mov").as_slice()) {
        String::from_str("mp4")
    } else if contains(fs, chars_of("avi").as_slice()) {
        String::from_str("avi")
    } else {
        String::from_str("unknown")
    }
}

/// Decides the container of a file from its path and FFprobe's format name.
pub fn detect_container(file_path: &str, format_name: Option<&str>) -> (r: String)
    ensures
        exists|ext: Option<Seq<char>>| r@ == #[trigger] container_spec(ext, crate::discovery::opt_view(format_name)),
        !file_path@.contains('.') ==> r@ == container_spec(None, crate::discovery::opt_view(format_name)),
        plain_path(file_path@) ==> r@ == container_spec(name_extension(last_segment(file_path@)),
            crate::discovery::opt_view(format_name)),
{
    let ext = path_extension(file_path);
    match &ext {
        Some(e) => container_from(Some(e.as_str()), format_name),
        None => container_from(None, format_name),
    }
}

/// The bit depth that a pixel format name mentions: the first of 10, 12, 14, 16 it
/// contains.
pub open spec fn pixel_format_bit_depth_spec(pixel_format: Option<Seq<char>>) -> Option<i64> {
    match pixel_format {
        None => None,
        Some(p) => if contains_seq(p, "10"@) {
            Some(10)
        } else if contains_seq(p, "12"@) {
            Some(12)
        } else if contains_seq(p, "14"@) {
            Some(14)
        } else if contains_seq(p, "16"@) {
            Some(16)
        } else {
            None
        },
    }
}

/// Reads a bit depth out of a pixel format name such as `yuv420p10le`.
pub fn parse_pixel_format_bit_depth(pixel_format: Option<&str>) -> (r: Option<i64>)
    ensures
        r == pixel_format_bit_depth_spec(crate::discovery::opt_view(pixel_format)),
{
    let p = match pixel_format {
        None => {
            return None;
        },
        Some(p) => chars_of(p),
    };
    if contains(p.as_slice(), chars_of("10").as_slice()) {
        Some(10)
    } else if contains(p.as_slice(), chars_of("12").as_slice()) {
        Some(12)
    } else if contains(p.as_slice(), chars_of("14").as_slice()) {
        Some(14)
    } else if contains(p.as_slice(), chars_of("16").as_slice()) {
        Some(16)
    } else {
        None
    }
}

/// Keeps the first occurrence of each string, in order.
pub fn unique_strings(values: Vec<String>) -> (r: Vec<String>)
    ensures
        r@.map_values(|s: String| s@) == dedup_spec(values@.map_values(|s: String| s@)),
{
    let ghost views = values@.map_values(|s: String| s@);
    let mut out: Vec<String> = Vec::new();
    let mut i: usize = 0;
    while i < values.len()
        invariant
            i <= values@.len(),
            views == values@.map_values(|s: String| s@),
            out@.map_values(|s: String| s@) == dedup_spec(views.subrange(0, i as int)),
        decreases values@.len() - i,
    {
        let c = chars_of(values[i].as_str());
        proof {
            assert(views.subrange(0, i + 1).drop_last() =~= views.subrange(0, i as int));
        }
        if !index_of_view(&out, c.as_slice()) {
            out.push(string_of(c.as_slice()));
            assert(out@.map_values(|s: String| s@) =~= dedup_spec(views.subrange(0, i as int)).push(c@));
        }
        i = i + 1;
    }
    assert(views.subrange(0, values@.len() as int) =~= views);
    out
}


/// A number field of FFprobe's JSON: an integer, a text, or something else.
#[derive(Debug, Clone)]
pub enum ProbeValue {
    Int(i64),
    Text(String),
    Other,
}

/// One stream of an FFprobe report.
#[derive(Debug, Clone, Default)]
pub struct FfprobeStream {
    pub codec_type: Option<String>,
    pub codec_name: Option<String>,
    pub width: Option<i64>,
    pub height: Option<i64>,
    pub pix_fmt: Option<String>,
    pub bits_per_raw_sample: Option<ProbeValue>,
    pub bits_per_sample: Option<ProbeValue>,
    pub tags: Vec<(String, String)>,
}

/// The format section of an FFprobe report.
#[derive(Debug, Clone, Default)]
pub struct FfprobeFormat {
    pub format_name: Option<String>,
    pub duration: Option<String>,
}

/// An FFprobe report.
#[derive(Debug, Clone, Default)]
pub struct FfprobeOutput {
    pub streams: Vec<FfprobeStream>,
    pub format: Option<FfprobeFormat>,
}

/// The value of the first tag named `key`.
pub open spec fn tag_value(tags: Seq<(String, String)>, key: Seq<char>) -> Option<Seq<char>>
    decreases tags.len(),
{
    if tags.len() == 0 {
        None
    } else if tags[0].0@ == key {
        Some(tags[0].1@)
    } else {
        tag_value(tags.subrange(1, tags.len() as int), key)
    }
}

fn find_tag(tags: &Vec<(String, String)>, key: &str) -> (r: Option<String>)
    ensures
        match r {
            Some(v) => tag_value(tags@, key@) == Some(v@),
            None => tag_value(tags@, key@) is None,
        },
{
    let k = chars_of(key);
    let mut i: usize = 0;
    assert(tags@.subrange(0, tags@.len() as int) =~= tags@);
    while i < tags.len()
        invariant
            i <= tags@.len(),
            k@ == key@,
            tag_value(tags@.subrange(i as int, tags@.len() as int), key@) == tag_value(tags@, key@),
        decreases tags@.len() - i,
    {
        let ghost rest = tags@.subrange(i as int, tags@.len() as int);
        assert(rest[0] == tags@[i as int]);
        let name = chars_of(tags[i].0.as_str());
        if chars_eq(name.as_slice(), k.as_slice()) {
            return Some(string_of(chars_of(tags[i].1.as_str()).as_slice()));
        }
        assert(rest.subrange(1, rest.len() as int) =~= tags@.subrange(i + 1, tags@.len() as int));
        i = i + 1;
    }
    None
}

/// The pieces of a subtitle track's description that are present and not empty.
pub open spec fn subtitle_track_parts(stream: FfprobeStream) -> Seq<Seq<char>> {
    let language: Seq<Seq<char>> = match tag_value(stream.tags@, "language"@) {
        Some(l) => seq![unicode_lowercase(l)],
        None => Seq::empty(),
    };
    let title: Seq<Seq<char>> = match tag_value(stream.tags@, "title"@) {
        Some(t) => seq![t],
        None => Seq::empty(),
    };
    let codec: Seq<Seq<char>> = match stream.codec_name {
        Some(c) => seq![unicode_uppercase(c@)],
        None => Seq::empty(),
    };
    (language + title + codec).filter(|v: Seq<char>| v.len() > 0)
}

/// The description of a subtitle track: language, title and codec, joined by " / ".
pub open spec fn subtitle_track_spec(stream: FfprobeStream) -> Option<Seq<char>> {
    let parts = subtitle_track_parts(stream);
    if parts.len() == 0 {
        None
    } else {
        Some(join_spec(parts, " / "@))
    }
}

/// Describes a subtitle track of a media file.
pub fn format_subtitle_track(stream: &FfprobeStream) -> (r: Option<String>)
    ensures
        match r {
            Some(v) => subtitle_track_spec(*stream) == Some(v@),
            None => subtitle_track_spec(*stream) is None,
        },
{
    broadcast use Seq::lemma_filter_push;

    let ghost pred = |v: Seq<char>| v.len() > 0;
    let language = match find_tag(&stream.tags, "language") {
        Some(l) => Some(to_lowercase(l.as_str())),
        None => None,
    };
    let title = find_tag(&stream.tags, "title");
    let codec = match &stream.codec_name {
        Some(c) => Some(to_uppercase(c.as_str())),
        None => None,
    };
    let ghost l_seq: Seq<Seq<char>> = match &language {
        Some(l) => seq![l@],
        None => Seq::empty(),
    };
    let ghost t_seq: Seq<Seq<char>> = match &title {
        Some(t) => seq![t@],
        None => Seq::empty(),
    };
    let ghost c_seq: Seq<Seq<char>> = match &codec {
        Some(c) => seq![c@],
        None => Seq::empty(),
    };
    let ghost all = l_seq + t_seq + c_seq;
    let mut parts: Vec<Vec<char>> = Vec::new();
    let ghost mut seen: Seq<Seq<char>> = Seq::empty();
    assert(seen.filter(pred) =~= Seq::<Seq<char>>::empty());
    match &language {
        Some(l) => {
            let v = chars_of(l.as_str());
            proof {
                seen.lemma_filter_push(v@, pred);
                seen = seen.push(v@);
            }
            if v.len() > 0 {
                parts.push(v);
            }
        },
        None => {},
    }
    assert(parts@.map_values(|p: Vec<char>| p@) =~= seen.filter(pred));
    match &title {
        Some(t) => {
            let v = chars_of(t.as_str());
            proof {
                seen.lemma_filter_push(v@, pred);
                seen = seen.push(v@);
            }
            if v.len() > 0 {
                parts.push(v);
            }
        },
        None => {},
    }
    assert(parts@.map_values(|p: Vec<char>| p@) =~= seen.filter(pred));
    match &codec {
        Some(c) => {
            let v = chars_of(c.as_str());
            proof {
                seen.lemma_filter_push(v@, pred);
                seen = seen.push(v@);
            }
            if v.len() > 0 {
                parts.push(v);
            }
        },
        None => {},
    }
    assert(parts@.map_values(|p: Vec<char>| p@) =~= seen.filter(pred));
    assert(seen =~= all);
    if parts.len() == 0 {
        return None;
    }
    let sep = chars_of(" / ");
    Some(string_of(join_chars(&parts, sep.as_slice()).as_slice()))
}

/// A positive integer read from an FFprobe number field, written as a number or a text.
pub open spec fn positive_integer_spec(v: ProbeValue) -> Option<i64> {
    let parsed = match v {
        ProbeValue::Int(i) => Some(i),
        ProbeValue::Text(t) => parse_i64_spec(t@),
        ProbeValue::Other => None,
    };
    match parsed {
        Some(i) => if i > 0 {
            Some(i)
        } else {
            None
        },
        None => None,
    }
}

/// Reads a positive integer from an FFprobe number field.
pub fn parse_positive_integer(value: &ProbeValue) -> (r: Option<i64>)
    ensures
        r == positive_integer_spec(*value),
{
    let parsed = match value {
        ProbeValue::Int(i) => Some(*i),
        ProbeValue::Text(t) => parse_i64(chars_of(t.as_str()).as_slice()),
        ProbeValue::Other => None,
    };
    match parsed {
        Some(i) => if i > 0 {
            Some(i)
        } else {
            None
        },
        None => None,
    }
}

/// The bit depth of a video stream: the first positive sample size FFprobe reports,
/// otherwise what the pixel format says.
pub open spec fn bit_depth_spec(stream: FfprobeStream) -> Option<i64> {
    let raw = match stream.bits_per_raw_sample {
        Some(v) => positive_integer_spec(v),
        None => None,
    };
    let sample = match stream.bits_per_sample {
        Some(v) => positive_integer_spec(v),
        None => None,
    };
    if raw is Some {
        raw
    } else if sample is Some {
        sample
    } else {
        pixel_format_bit_depth_spec(
            match stream.pix_fmt {
                Some(p) => Some(p@),
                None => None,
            },
        )
    }
}

/// Detects the bit depth of a video stream.
pub fn detect_bit_depth(stream: &FfprobeStream) -> (r: Option<i64>)
    ensures
        r == bit_depth_spec(*stream),
{
    let raw = match &stream.bits_per_raw_sample {
        Some(v) => parse_positive_integer(v),
        None => None,
    };
    if raw.is_some() {
        return raw;
    }
    let sample = match &stream.bits_per_sample {
        Some(v) => parse_positive_integer(v),
        None => None,
    };
    if sample.is_some() {
        return sample;
    }
    match &stream.pix_fmt {
        Some(p) => parse_pixel_format_bit_depth(Some(p.as_str())),
        None => parse_pixel_format_bit_depth(None),
    }
}

/// The SHA-1 digest of some bytes (`sha1::Sha1::digest`).
pub uninterp spec fn sha1_digest(data: Seq<u8>) -> Seq<u8>;

/// Hashes bytes with SHA-1 (`sha1::Digest::digest`). The contract names the result and
/// states its documented length of 20 bytes.
#[verifier::external_body]
fn sha1_bytes(data: &[u8]) -> (r: Vec<u8>)
    ensures
        r@ == sha1_digest(data@),
        r@.len() == 20,
{
    <sha1::Sha1 as sha1::Digest>::digest(data).to_vec()
}

/// The lowercase hexadecimal digit of a value below 16.
pub open spec fn hex_digit(d: nat) -> char {
    if d < 10 {
        (('0' as nat) + d) as char
    } else {
        (('a' as nat) + d - 10) as char
    }
}

/// Lowercase hexadecimal text of bytes, two digits per byte.
pub open spec fn hex_text(b: Seq<u8>) -> Seq<char>
    decreases b.len(),
{
    if b.len() == 0 {
        Seq::empty()
    } else {
        hex_text(b.drop_last()) + seq![hex_digit((b.last() / 16) as nat), hex_digit((b.last() % 16) as nat)]
    }
}

pub fn hex_char(d: u8) -> (r: char)
    requires
        d < 16,
    ensures
        r == hex_digit(d as nat),
{
    if d < 10 {
        ((d as u32) + ('0' as u32)) as u8 as char
    } else {
        ((d as u32) - 10 + ('a' as u32)) as u8 as char
    }
}

/// The identifier of a media file: `media-` and the first 16 hexadecimal digits of the
/// SHA-1 of its lowercased path.
pub open spec fn media_file_id_spec(path: Seq<char>) -> Seq<char> {
    "media-"@ + hex_text(sha1_digest(vstd::utf8::encode_utf8(unicode_lowercase(path))).subrange(0, 8))
}

/// Derives the stable identifier of a media file from its path.
pub fn create_media_file_id(file_path: &str) -> (r: String)
    ensures
        r@ == media_file_id_spec(file_path@),
{
    let lower = to_lowercase(file_path);
    let digest = sha1_bytes(lower.as_str().as_bytes());
    let mut out = chars_of("media-");
    let ghost prefix = out@;
    let mut i: usize = 0;
    while i < 8
        invariant
            i <= 8,
            digest@.len() == 20,
            prefix == "media-"@,
            out@ == prefix + hex_text(digest@.subrange(0, i as int)),
        decreases 8 - i,
    {
        let b = digest[i];
        out.push(hex_char(b / 16));
        out.push(hex_char(b % 16));
        proof {
            assert(digest@.subrange(0, i + 1).drop_last() =~= digest@.subrange(0, i as int));
            assert(out@ =~= prefix + hex_text(digest@.subrange(0, i + 1)));
        }
        i = i + 1;
    }
    string_of(out.as_slice())
}

/// A path that every platform splits into components alike: no `\\`, no `:`, and
/// not starting with `//` (which could open a network prefix).
pub open spec fn portable_path(s: Seq<char>) -> bool {
    &&& !s.contains('\\')
    &&& !s.contains(':')
    &&& !(s.len() >= 2 && s[0] == '/' && s[1] == '/')
}

/// The components of a portable path written back as text: `/` for a root, `./` for
/// a leading current-directory mark, then the named components (the pieces between
/// separators that are neither empty nor `.`) joined by `/`. Repeated separators, a
/// trailing separator and inner `.` pieces leave no trace, as in `Path::components`.
pub open spec fn path_key(s: Seq<char>) -> Seq<char> {
    let parts = split_on(s, '/');
    let named = parts.filter(|p: Seq<char>| p.len() > 0 && p != seq!['.']);
    let lead = if s.len() > 0 && s[0] == '/' {
        seq!['/']
    } else if parts[0] == seq!['.'] {
        seq!['.', '/']
    } else {
        Seq::empty()
    };
    lead + join_spec(named, seq!['/'])
}

/// Whether two paths are the same path (`PathBuf`'s equality, which compares
/// components). The same text is always the same path. Two portable paths are the same
/// exactly when their components are, which `path_key` writes out; how other paths
/// split (`\\`, drive or network prefixes) depends on the platform, and nothing more
/// is promised of them.
#[verifier::external_body]
fn same_path(a: &str, b: &str) -> (r: bool)
    ensures
        a@ == b@ ==> r,
        portable_path(a@) && portable_path(b@) ==> (r == (path_key(a@) == path_key(b@))),
{
    std::path::Path::new(a) == std::path::Path::new(b)
}

/// The FFprobe commands to try and the time each may take.
#[derive(Debug, Clone)]
pub struct FfprobeMediaProbe {
    pub commands: Vec<String>,
    pub timeout_nanos: u128,
}

impl FfprobeMediaProbe {
    /// Keeps each candidate command once, at its first occurrence and in the given
    /// order, and bounds the timeout to between one second and one minute; no command
    /// at all is refused. Commands are the same when they are the same path; for
    /// portable paths the kept ones are exactly the first of each `path_key`.
    pub fn new(commands: Vec<String>, timeout_nanos: u128) -> (r: Result<Self, MediaProbeError>)
        ensures
            commands@.len() == 0 <==> r is Err,
            r matches Err(e) ==> (e matches MediaProbeError::Unavailable(m) && m@ == "没有可用命令"@),
            r matches Ok(p) ==> p.commands@.len() >= 1 && p.commands@.len() <= commands@.len()
                && p.commands@[0] == commands@[0] && (forall|i: int|
                0 <= i < p.commands@.len() ==> commands@.contains(#[trigger] p.commands@[i]))
                && p.timeout_nanos == if timeout_nanos < 1_000_000_000 {
                1_000_000_000
            } else if timeout_nanos > 60_000_000_000 {
                60_000_000_000
            } else {
                timeout_nanos
            },
            r matches Ok(p) ==> forall|a: int, b: int| 0 <= a < b < p.commands@.len()
                ==> (#[trigger] p.commands@[a])@ != (#[trigger] p.commands@[b])@,
            r matches Ok(p) ==> ((forall|k: int| 0 <= k < commands@.len() ==> portable_path((#[trigger] commands@[k])@))
                ==> p.commands@.map_values(|c: String| c@) == first_occurrences(
                commands@.map_values(|c: String| path_key(c@))).map_values(|k: int| commands@[k]@)),
    {
        if commands.len() == 0 {
            return Err(MediaProbeError::Unavailable(String::from_str("没有可用命令")));
        }
        let ghost keys = commands@.map_values(|c: String| path_key(c@));
        let ghost portable = forall|k: int| 0 <= k < commands@.len() ==> portable_path((#[trigger] commands@[k])@);
        let ghost mut kept: Seq<int> = Seq::empty();
        let mut unique: Vec<String> = Vec::new();
        let mut i: usize = 0;
        while i < commands.len()
            invariant
                i <= commands@.len(),
                commands@.len() >= 1,
                keys == commands@.map_values(|c: String| path_key(c@)),
                portable == forall|k: int| 0 <= k < commands@.len() ==> portable_path((#[trigger] commands@[k])@),
                unique@.len() == kept.len(),
                kept.len() <= i,
                forall|m: int| 0 <= m < kept.len() ==> 0 <= #[trigger] kept[m] < i && unique@[m] == commands@[kept[m]],
                forall|m: int, j: int| 0 <= m < kept.len() && 0 <= j < kept[m] ==> (#[trigger] commands@[j])@
                    != commands@[#[trigger] kept[m]]@,
                forall|a: int, b: int| 0 <= a < b < kept.len() ==> #[trigger] kept[a] < #[trigger] kept[b],
                i > 0 ==> kept.len() >= 1 && kept[0] == 0,
                portable ==> kept == first_occurrences(keys.subrange(0, i as int)),
            decreases commands@.len() - i,
        {
            let mut seen = false;
            let mut j: usize = 0;
            while j < i
                invariant
                    j <= i,
                    i < commands@.len(),
                    j == 0 ==> !seen,
                    keys == commands@.map_values(|c: String| path_key(c@)),
                    portable == forall|k: int| 0 <= k < commands@.len() ==> portable_path((#[trigger] commands@[k])@),
                    !seen ==> forall|j2: int| 0 <= j2 < j ==> (#[trigger] commands@[j2])@ != commands@[i as int]@
                        && (portable ==> keys[j2] != keys[i as int]),
                    seen ==> (portable ==> exists|j2: int| 0 <= j2 < j && (#[trigger] keys[j2]) == keys[i as int]),
                decreases i - j,
            {
                let same = same_path(commands[j].as_str(), commands[i].as_str());
                proof {
                    if portable {
                        assert(portable_path(commands@[j as int]@));
                        assert(portable_path(commands@[i as int]@));
                        assert(same == (keys[j as int] == keys[i as int]));
                    }
                }
                if same {
                    seen = true;
                }
                j = j + 1;
            }
            proof {
                let sub = keys.subrange(0, i as int + 1);
                assert(sub.drop_last() =~= keys.subrange(0, i as int));
                assert(sub.last() == keys[i as int]);
                if portable {
                    if seen {
                        let j2 = choose|j2: int| 0 <= j2 < i && (#[trigger] keys[j2]) == keys[i as int];
                        assert(keys.subrange(0, i as int)[j2] == keys[i as int]);
                        assert(keys.subrange(0, i as int).contains(keys[i as int]));
                    } else {
                        assert(!keys.subrange(0, i as int).contains(keys[i as int])) by {
                            if keys.subrange(0, i as int).contains(keys[i as int]) {
                                let j2 = choose|j2: int| 0 <= j2 < i && keys.subrange(0, i as int)[j2] == keys[i as int];
                                assert(keys[j2] == keys[i as int]);
                            }
                        }
                    }
                }
            }
            if !seen {
                let c = commands[i].clone();
                unique.push(c);
                proof {
                    kept = kept.push(i as int);
                }
            }
            i = i + 1;
        }
        proof {
            assert(keys.subrange(0, commands@.len() as int) =~= keys);
            assert forall|x: int| 0 <= x < unique@.len() implies commands@.contains(#[trigger] unique@[x]) by {
                assert(commands@[kept[x]] == unique@[x]);
            }
            assert forall|a: int, b: int| 0 <= a < b < unique@.len() implies
                (#[trigger] unique@[a])@ != (#[trigger] unique@[b])@ by {
                assert(kept[a] < kept[b]);
                assert(commands@[kept[a]]@ != commands@[kept[b]]@);
            }
            if portable {
                assert(unique@.map_values(|c: String| c@) =~= kept.map_values(|k: int| commands@[k]@));
            }
        }
        let timeout = if timeout_nanos < 1_000_000_000 {
            1_000_000_000
        } else if timeout_nanos > 60_000_000_000 {
            60_000_000_000
        } else {
            timeout_nanos
        };
        Ok(FfprobeMediaProbe { commands: unique, timeout_nanos: timeout })
    }
}


/// A stream of the given kind.
pub open spec fn stream_is(s: FfprobeStream, kind: Seq<char>) -> bool {
    s.codec_type matches Some(t) && t@ == kind
}

/// The first video stream of a report.
pub open spec fn first_video(streams: Seq<FfprobeStream>) -> Option<FfprobeStream>
    decreases streams.len(),
{
    if streams.len() == 0 {
        None
    } else if stream_is(streams[0], "video"@) {
        Some(streams[0])
    } else {
        first_video(streams.subrange(1, streams.len() as int))
    }
}

/// The audio codec names of a report's audio streams, in order.
pub open spec fn audio_names(streams: Seq<FfprobeStream>) -> Seq<Seq<char>>
    decreases streams.len(),
{
    if streams.len() == 0 {
        Seq::empty()
    } else {
        let prev = audio_names(streams.drop_last());
        let s = streams.last();
        if stream_is(s, "audio"@) && s.codec_name is Some {
            prev.push(audio_codec_spec(s.codec_name.unwrap()@))
        } else {
            prev
        }
    }
}

/// The descriptions of a report's subtitle streams, in order.
pub open spec fn subtitle_names(streams: Seq<FfprobeStream>) -> Seq<Seq<char>>
    decreases streams.len(),
{
    if streams.len() == 0 {
        Seq::empty()
    } else {
        let prev = subtitle_names(streams.drop_last());
        let s = streams.last();
        if stream_is(s, "subtitle"@) && subtitle_track_spec(s) is Some {
            prev.push(subtitle_track_spec(s).unwrap())
        } else {
            prev
        }
    }
}

fn is_kind(s: &FfprobeStream, kind: &str) -> (r: bool)
    ensures
        r == stream_is(*s, kind@),
{
    match &s.codec_type {
        Some(t) => eq_str(chars_of(t.as_str()).as_slice(), kind),
        None => false,
    }
}

fn video_stream(streams: &Vec<FfprobeStream>) -> (r: Option<&FfprobeStream>)
    ensures
        match r {
            Some(v) => first_video(streams@) == Some(*v),
            None => first_video(streams@) is None,
        },
{
    let mut i: usize = 0;
    assert(streams@.subrange(0, streams@.len() as int) =~= streams@);
    while i < streams.len()
        invariant
            i <= streams@.len(),
            first_video(streams@.subrange(i as int, streams@.len() as int)) == first_video(streams@),
        decreases streams@.len() - i,
    {
        let ghost rest = streams@.subrange(i as int, streams@.len() as int);
        assert(rest[0] == streams@[i as int]);
        if is_kind(&streams[i], "video") {
            return Some(&streams[i]);
        }
        assert(rest.subrange(1, rest.len() as int) =~= streams@.subrange(i + 1, streams@.len() as int));
        i = i + 1;
    }
    None
}

fn audio_codecs_of(streams: &Vec<FfprobeStream>) -> (r: Vec<String>)
    ensures
        r@.map_values(|s: String| s@) == audio_names(streams@),
{
    let mut out: Vec<String> = Vec::new();
    let mut i: usize = 0;
    while i < streams.len()
        invariant
            i <= streams@.len(),
            out@.map_values(|s: String| s@) == audio_names(streams@.subrange(0, i as int)),
        decreases streams@.len() - i,
    {
        proof {
            assert(streams@.subrange(0, i + 1).drop_last() =~= streams@.subrange(0, i as int));
        }
        let s = &streams[i];
        if is_kind(s, "audio") {
            match &s.codec_name {
                Some(c) => {
                    out.push(normalize_audio_codec(c.as_str()));
                    assert(out@.map_values(|s: String| s@) =~= audio_names(streams@.subrange(0, i as int)).push(audio_codec_spec(c@)));
                },
                None => {},
            }
        }
        i = i + 1;
    }
    assert(streams@.subrange(0, streams@.len() as int) =~= streams@);
    out
}

fn subtitle_tracks_of(streams: &Vec<FfprobeStream>) -> (r: Vec<String>)
    ensures
        r@.map_values(|s: String| s@) == subtitle_names(streams@),
{
    let mut out: Vec<String> = Vec::new();
    let mut i: usize = 0;
    while i < streams.len()
        invariant
            i <= streams@.len(),
            out@.map_values(|s: String| s@) == subtitle_names(streams@.subrange(0, i as int)),
        decreases streams@.len() - i,
    {
        proof {
            assert(streams@.subrange(0, i + 1).drop_last() =~= streams@.subrange(0, i as int));
        }
        let s = &streams[i];
        if is_kind(s, "subtitle") {
            match format_subtitle_track(s) {
                Some(t) => {
                    let ghost tv = t@;
                    out.push(t);
                    assert(out@.map_values(|s: String| s@) =~= subtitle_names(streams@.subrange(0, i as int)).push(tv));
                },
                None => {},
            }
        }
        i = i + 1;
    }
    assert(streams@.subrange(0, streams@.len() as int) =~= streams@);
    out
}

/// The name of the file a path points at (`std::path::Path::file_name`, read lossily;
/// the name of a `&str` path is a slice of it cut at ASCII separators, so the reading
/// loses nothing). For a path that every platform splits alike (`plain_path`) the
/// name is its last segment; of other paths the split differs by platform, and
/// nothing is promised.
#[verifier::external_body]
fn path_file_name(path: &str) -> (r: Option<String>)
    ensures
        plain_path(path@) ==> match r {
            Some(n) => n@ == last_segment(path@),
            None => false,
        },
{
    std::path::Path::new(path).file_name().map(|name| name.to_string_lossy().into_owned())
}

/// The current time as an RFC 3339 text with milliseconds (`chrono::Utc::now`,
/// `to_rfc3339_opts`). The result depends on the clock, so nothing is promised of it.
#[verifier::external_body]
fn now_iso() -> (r: String) {
    chrono::Utc::now().to_rfc3339_opts(chrono::SecondsFormat::Millis, true)
}

/// The streams of an optional report.
pub open spec fn streams_of(output: Option<&FfprobeOutput>) -> Seq<FfprobeStream> {
    match output {
        Some(o) => o.streams@,
        None => Seq::empty(),
    }
}

/// The format name of an optional report.
pub open spec fn format_name_of(output: Option<&FfprobeOutput>) -> Option<Seq<char>> {
    match output {
        Some(o) => match o.format {
            Some(f) => match f.format_name {
                Some(n) => Some(n@),
                None => None,
            },
            None => None,
        },
        None => None,
    }
}

/// The resolution text of a video stream with a positive width and height.
pub open spec fn resolution_spec(video: Option<FfprobeStream>) -> Option<Seq<char>> {
    match video {
        Some(v) => match (v.width, v.height) {
            (Some(w), Some(h)) => if w > 0 && h > 0 {
                Some(decimal(w as nat) + "x"@ + decimal(h as nat))
            } else {
                None
            },
            _ => None,
        },
        None => None,
    }
}

/// The size recorded for a media file: the file's size (at most `i64::MAX`), or the
/// download's, whichever is larger.
pub open spec fn media_size_spec(metadata_size: u64, context_size: Option<i64>) -> i64 {
    let file: i64 = if metadata_size > i64::MAX {
        i64::MAX
    } else {
        metadata_size as i64
    };
    let known: i64 = match context_size {
        Some(s) => s,
        None => 0,
    };
    if file >= known {
        file
    } else {
        known
    }
}

/// Builds the media record of a probed file. `duration_seconds` is the rounded
/// duration that FFprobe reported, when it reported a valid one.
pub fn build_media_file(
    file_path: &str,
    metadata_size: u64,
    context: &MediaProbeContext,
    output: Option<&FfprobeOutput>,
    duration_seconds: Option<i64>,
) -> (r: MediaFile)
    ensures
        r.id@ == media_file_id_spec(file_path@),
        r.anime_id@ == match context.anime_id {
            Some(a) => a@,
            None => "unmatched"@,
        },
        r.episode_id == context.episode_id,
        r.download_task_id == context.download_task_id,
        r.content_kind == if context.episode_id is Some {
            MediaContentKind::Episode
        } else {
            MediaContentKind::Unknown
        },
        r.special_no is None,
        r.file_path@ == file_path@,
        r.size == media_size_spec(metadata_size, context.size),
        r.container matches Some(c) && exists|ext: Option<Seq<char>>| c@ == #[trigger] container_spec(
            ext,
            format_name_of(output),
        ),
        !file_path@.contains('.') ==> (r.container matches Some(c) && c@ == container_spec(None, format_name_of(output))),
        plain_path(file_path@) ==> (r.container matches Some(c) && c@ == container_spec(
            name_extension(last_segment(file_path@)),
            format_name_of(output),
        )),
        plain_path(file_path@) ==> r.file_name@ == last_segment(file_path@),
        r.declared_video_codec == context.declared_video_codec,
        match first_video(streams_of(output)) {
            Some(v) => r.detected_video_codec == v.codec_name,
            None => r.detected_video_codec is None,
        },
        r.normalized_video_codec@ == match r.detected_video_codec {
            Some(c) => video_codec_spec(c@),
            None => match context.normalized_video_codec {
                Some(n) => n@,
                None => "Unknown"@,
            },
        },
        match resolution_spec(first_video(streams_of(output))) {
            Some(t) => r.resolution matches Some(x) && x@ == t,
            None => r.resolution is None,
        },
        r.bit_depth == match first_video(streams_of(output)) {
            Some(v) => bit_depth_spec(v),
            None => None,
        },
        r.audio_codecs@.map_values(|s: String| s@) == dedup_spec(audio_names(streams_of(output))),
        r.subtitle_tracks@.map_values(|s: String| s@) == dedup_spec(subtitle_names(streams_of(output))),
        r.duration_seconds == duration_seconds,
        r.downloaded_at == context.downloaded_at,
        r.probed_at is Some,
        r.origin == MediaOrigin::Download,
        r.source_root is None,
        r.fingerprint is None,
        r.file_modified_at is None,
        r.availability == MediaAvailability::Available,
        r.last_verified_at is Some,
        r.availability_error is None,
{
    let empty: Vec<FfprobeStream> = Vec::new();
    let streams: &Vec<FfprobeStream> = match output {
        Some(o) => &o.streams,
        None => &empty,
    };
    assert(streams@ == streams_of(output));
    let video = video_stream(streams);
    let detected_video_codec = match video {
        Some(v) => v.codec_name.clone(),
        None => None,
    };
    let normalized_video_codec = match &detected_video_codec {
        Some(c) => normalize_video_codec(c.as_str()),
        None => match &context.normalized_video_codec {
            Some(n) => string_of(chars_of(n.as_str()).as_slice()),
            None => String::from_str("Unknown"),
        },
    };
    let file_name = match path_file_name(file_path) {
        Some(name) => name,
        None => String::from_str(file_path),
    };
    let anime_id = match &context.anime_id {
        Some(a) => string_of(chars_of(a.as_str()).as_slice()),
        None => String::from_str("unmatched"),
    };
    let file_size: i64 = if metadata_size > 9_223_372_036_854_775_807u64 {
        i64::MAX
    } else {
        metadata_size as i64
    };
    let known: i64 = match context.size {
        Some(s) => s,
        None => 0,
    };
    let size = if file_size >= known {
        file_size
    } else {
        known
    };
    let format_name: Option<&str> = match output {
        Some(o) => match &o.format {
            Some(f) => match &f.format_name {
                Some(n) => Some(n.as_str()),
                None => None,
            },
            None => None,
        },
        None => None,
    };
    let container = detect_container(file_path, format_name);
    let resolution = match video {
        Some(v) => match (v.width, v.height) {
            (Some(w), Some(h)) => if w > 0 && h > 0 {
                let mut text = format_decimal(w as u64);
                text.push('x');
                let hd = format_decimal(h as u64);
                append_chars(&mut text, hd.as_slice());
                proof {
                    reveal_strlit("x");
                    assert(text@ =~= decimal(w as nat) + "x"@ + decimal(h as nat));
                }
                Some(string_of(text.as_slice()))
            } else {
                None
            },
            _ => None,
        },
        None => None,
    };
    let bit_depth = match video {
        Some(v) => detect_bit_depth(v),
        None => None,
    };
    let audio_codecs = unique_strings(audio_codecs_of(streams));
    let subtitle_tracks = unique_strings(subtitle_tracks_of(streams));
    let content_kind = if context.episode_id.is_some() {
        MediaContentKind::Episode
    } else {
        MediaContentKind::Unknown
    };
    MediaFile {
        id: create_media_file_id(file_path),
        anime_id,
        episode_id: context.episode_id.clone(),
        download_task_id: context.download_task_id.clone(),
        content_kind,
        special_no: None,
        file_path: String::from_str(file_path),
        file_name,
        size,
        container: Some(container),
        declared_video_codec: context.declared_video_codec.clone(),
        detected_video_codec,
        normalized_video_codec,
        resolution,
        bit_depth,
        audio_codecs,
        subtitle_tracks,
        duration_seconds,
        downloaded_at: context.downloaded_at.clone(),
        probed_at: Some(now_iso()),
        origin: MediaOrigin::Download,
        source_root: None,
        fingerprint: None,
        file_modified_at: None,
        availability: MediaAvailability::Available,
        last_verified_at: Some(now_iso()),
        availability_error: None,
    }
}


/// FFprobe's names for H.264 (`h264`, `avc`, `avc1`, in any case and with surrounding
/// white space) all normalise to `H.264/AVC`; likewise the H.265, AV1 and VP9 names to
/// theirs, and any other name to `Unknown`.
pub proof fn lemma_video_codec_names(codec: Seq<char>)
    ensures
        ({
            let c = unicode_lowercase(trim(codec));
            &&& (c == "h264"@ || c == "avc"@ || c == "avc1"@) ==> video_codec_spec(codec) == "H.264/AVC"@
            &&& (c == "h265"@ || c == "hevc"@ || c == "hev1"@ || c == "hvc1"@) ==> (video_codec_spec(codec) == "H.265/HEVC"@
                || c == "h264"@ || c == "avc"@ || c == "avc1"@)
            &&& (c == "av1"@ || c == "av01"@) ==> (video_codec_spec(codec) == "AV1"@ || c == "h264"@ || c == "avc"@
                || c == "avc1"@ || c == "h265"@ || c == "hevc"@ || c == "hev1"@ || c == "hvc1"@)
        }),
{
}

} // verus!
