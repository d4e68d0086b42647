//! The model sidecar: its bundle manifest and the digest over its files, the
//! handshake it must answer, and the binary frame protocol spoken over its standard
//! streams.

use vstd::prelude::*;
use crate::text::{chars_of, eq_str, trim_chars, trim, to_ascii_lower, ascii_lower, chars_eq, seq_le, str_le, string_of, lemma_seq_le_total, lemma_seq_le_transitive};
use crate::media::{hex_char, hex_digit, hex_text};
use vstd::utf8::encode_utf8;

verus! {

/// The bundle manifest of a model sidecar.
#[derive(Debug, Clone)]
pub struct ModelSidecarManifest {
    pub schema_version: u32,
    pub protocol_version: u16,
    pub executable: String,
    pub executable_sha256: String,
    pub model: EnhancementModelManifestFile,
    pub files: Vec<ModelSidecarFile>,
}

/// The model a sidecar bundle ships.
#[derive(Debug, Clone)]
pub struct EnhancementModelManifestFile {
    pub model_id: String,
    pub backend: String,
    pub operation: ModelOperation,
    pub output_scale: u32,
    pub directory: String,
    pub input_width: u32,
    pub input_height: u32,
    pub required_vram_bytes: u64,
    pub estimated_frame_time_ms: u32,
}

/// What a model does to frames.
#[derive(Debug, Clone, Copy, Default, PartialEq, Eq, Structural)]
pub enum ModelOperation {
    #[default]
    Interpolate,
    Enhance,
}

/// Output scale of a model whose manifest does not state one.
pub fn default_output_scale() -> (r: u32)
    ensures
        r == 1,
{
    1
}

/// A file of a sidecar bundle and its expected SHA-256.
#[derive(Debug, Clone)]
pub struct ModelSidecarFile {
    pub path: String,
    pub sha256: String,
}

/// The version of the frame protocol.
pub const PROTOCOL_VERSION: u16 = 1;

/// Size of a message header in bytes.
pub const HEADER_BYTES: usize = 48;

/// Checks the manifest's schema and protocol versions and its output scale: an
/// interpolating model keeps the frame size.
pub fn check_manifest_versions(manifest: &ModelSidecarManifest) -> (r: Result<(), String>)
    ensures
        (manifest.schema_version != 1 || manifest.protocol_version != PROTOCOL_VERSION) ==> (r matches Err(m)
            && m@ == "模型 sidecar 清单或协议版本不兼容"@),
        !(manifest.schema_version != 1 || manifest.protocol_version != PROTOCOL_VERSION)
            && (manifest.model.output_scale == 0 || (manifest.model.operation
            == ModelOperation::Interpolate && manifest.model.output_scale != 1)) ==> (r matches Err(m)
            && m@ == "模型 sidecar 输出倍率无效"@),
        r is Ok <==> !(manifest.schema_version != 1 || manifest.protocol_version != PROTOCOL_VERSION)
            && !(manifest.model.output_scale == 0 || (manifest.model.operation
            == ModelOperation::Interpolate && manifest.model.output_scale != 1)),
{
    if manifest.schema_version != 1 || manifest.protocol_version != PROTOCOL_VERSION {
        return Err(String::from_str("模型 sidecar 清单或协议版本不兼容"));
    }
    if manifest.model.output_scale == 0 || (matches!(manifest.model.operation, ModelOperation::Interpolate)
        && manifest.model.output_scale != 1) {
        return Err(String::from_str("模型 sidecar 输出倍率无效"));
    }
    Ok(())
}

/// Whether a character is an ASCII hexadecimal digit.
pub open spec fn is_hex_char(c: char) -> bool {
    ('0' <= c && c <= '9') || ('a' <= c && c <= 'f') || ('A' <= c && c <= 'F')
}

/// A SHA-256 digest written as 64 hexadecimal digits.
pub open spec fn is_sha256_text_spec(s: Seq<char>) -> bool {
    s.len() == 64 && forall|i: int| 0 <= i < s.len() ==> is_hex_char(#[trigger] s[i])
}

/// Whether `expected` is a SHA-256 digest written as 64 hexadecimal digits.
pub fn is_sha256_text(expected: &str) -> (r: bool)
    ensures
        r == is_sha256_text_spec(expected@),
{
    let v = chars_of(expected);
    if v.len() != 64 {
        return false;
    }
    let mut i: usize = 0;
    while i < v.len()
        invariant
            i <= v@.len(),
            v@ == expected@,
            forall|k: int| 0 <= k < i ==> is_hex_char(#[trigger] v@[k]),
        decreases v@.len() - i,
    {
        let c = v[i];
        if !(('0' <= c && c <= '9') || ('a' <= c && c <= 'f') || ('A' <= c && c <= 'F')) {
            assert(!is_hex_char(v@[i as int]));
            return false;
        }
        i = i + 1;
    }
    true
}

/// Whether two digests are equal, ignoring ASCII case.
pub fn digests_match(actual: &str, expected: &str) -> (r: bool)
    ensures
        r == (ascii_lower(actual@) == ascii_lower(expected@)),
{
    let a = to_ascii_lower(chars_of(actual).as_slice());
    let b = to_ascii_lower(chars_of(expected).as_slice());
    chars_eq(a.as_slice(), b.as_slice())
}

/// What a sidecar reports once its runtime is up.
#[derive(Debug, Clone)]
pub struct HandshakePayload {
    pub ready: bool,
    pub protocol_version: u16,
    pub backend: String,
    pub gpu_device: String,
    pub model_id: String,
}

/// The first problem of a handshake against the manifest, if any.
pub open spec fn handshake_problem(p: HandshakePayload, m: ModelSidecarManifest) -> Option<Seq<char>> {
    if !p.ready || p.protocol_version != PROTOCOL_VERSION {
        Some("模型 sidecar 未完成运行时初始化"@)
    } else if p.backend@ != m.model.backend@ || p.model_id@ != m.model.model_id@ {
        Some("模型 sidecar 自报后端或模型与清单不一致"@)
    } else if p.backend@ != "ncnn-vulkan"@ || trim(p.gpu_device@).len() == 0 {
        Some("模型 sidecar 未确认 Vulkan GPU 设备"@)
    } else {
        None
    }
}

/// Accepts only a ready sidecar of the manifest's backend and model that names a
/// Vulkan GPU device.
pub fn validate_handshake(payload: &HandshakePayload, manifest: &ModelSidecarManifest) -> (r: Result<(), String>)
    ensures
        match r {
            Ok(()) => handshake_problem(*payload, *manifest) is None,
            Err(m) => handshake_problem(*payload, *manifest) == Some(m@),
        },
{
    if !payload.ready || payload.protocol_version != PROTOCOL_VERSION {
        return Err(String::from_str("模型 sidecar 未完成运行时初始化"));
    }
    let backend = chars_of(payload.backend.as_str());
    let model_id = chars_of(payload.model_id.as_str());
    let expected_backend = chars_of(manifest.model.backend.as_str());
    let expected_model = chars_of(manifest.model.model_id.as_str());
    if !chars_eq(backend.as_slice(), expected_backend.as_slice()) || !chars_eq(model_id.as_slice(), expected_model.as_slice()) {
        return Err(String::from_str("模型 sidecar 自报后端或模型与清单不一致"));
    }
    let device = trim_chars(chars_of(payload.gpu_device.as_str()).as_slice());
    if !eq_str(backend.as_slice(), "ncnn-vulkan") || device.len() == 0 {
        return Err(String::from_str("模型 sidecar 未确认 Vulkan GPU 设备"));
    }
    Ok(())
}

/// The size of a packed RGB24 frame, refused when it overflows or exceeds the limit.
pub open spec fn frame_bytes_spec(width: u32, height: u32, max_frame_bytes: usize) -> Result<usize, Seq<char>> {
    let bytes = width * 3 * height;
    if width * 3 > usize::MAX || bytes > usize::MAX {
        Err("模型 warmup 帧尺寸溢出"@)
    } else if bytes > max_frame_bytes {
        Err("模型 warmup 帧超过限制"@)
    } else {
        Ok(bytes as usize)
    }
}

/// The size of a packed RGB24 warm-up frame.
pub fn frame_bytes(width: u32, height: u32, max_frame_bytes: usize) -> (r: Result<usize, String>)
    ensures
        match r {
            Ok(n) => frame_bytes_spec(width, height, max_frame_bytes) == Ok::<usize, Seq<char>>(n),
            Err(m) => frame_bytes_spec(width, height, max_frame_bytes) == Err::<usize, Seq<char>>(m@),
        },
{
    let w = width as usize;
    let h = height as usize;
    let stride = w.checked_mul(3);
    let bytes = match stride {
        Some(s) => s.checked_mul(h),
        None => None,
    };
    match bytes {
        None => Err(String::from_str("模型 warmup 帧尺寸溢出")),
        Some(b) => {
            if b > max_frame_bytes {
                Err(String::from_str("模型 warmup 帧超过限制"))
            } else {
                Ok(b)
            }
        },
    }
}

/// `x + y` clamped to the range of `i64`.
pub open spec fn clamp_i64(x: int) -> i64 {
    if x > i64::MAX {
        i64::MAX
    } else if x < i64::MIN {
        i64::MIN
    } else {
        x as i64
    }
}

/// The timestamp halfway between two frames, with saturating arithmetic
/// (the halving rounds towards zero).
pub open spec fn midpoint_spec(previous: i64, next: i64) -> i64 {
    let diff = clamp_i64(next - previous);
    let half: int = if diff >= 0 {
        diff / 2
    } else {
        -((-diff) / 2)
    };
    clamp_i64(previous + half)
}

/// The timestamp of an interpolated frame, halfway between its neighbours.
pub fn midpoint_pts(previous: i64, next: i64) -> (r: i64)
    ensures
        r == midpoint_spec(previous, next),
{
    let wide: i128 = next as i128 - previous as i128;
    let diff: i64 = if wide > i64::MAX as i128 {
        i64::MAX
    } else if wide < i64::MIN as i128 {
        i64::MIN
    } else {
        wide as i64
    };
    let half: i64 = if diff >= 0 {
        diff / 2
    } else {
        let d: i128 = diff as i128;
        (-((-d) / 2)) as i64
    };
    let sum: i128 = previous as i128 + half as i128;
    if sum > i64::MAX as i128 {
        i64::MAX
    } else if sum < i64::MIN as i128 {
        i64::MIN
    } else {
        sum as i64
    }
}


/// The kinds of protocol messages.
#[derive(Debug, Clone, Copy, PartialEq, Eq, Structural)]
pub enum MessageKind {
    HandshakeRequest,
    HandshakeResponse,
    WarmupRequest,
    InterpolateRequest,
    FrameResponse,
    ErrorResponse,
    ShutdownRequest,
    EnhanceRequest,
}

/// The wire code of a message kind.
pub open spec fn kind_code_spec(k: MessageKind) -> u16 {
    match k {
        MessageKind::HandshakeRequest => 1,
        MessageKind::HandshakeResponse => 2,
        MessageKind::WarmupRequest => 3,
        MessageKind::InterpolateRequest => 4,
        MessageKind::FrameResponse => 5,
        MessageKind::ErrorResponse => 6,
        MessageKind::ShutdownRequest => 7,
        MessageKind::EnhanceRequest => 8,
    }
}

/// The wire code of a message kind.
pub fn kind_code(k: MessageKind) -> (r: u16)
    ensures
        r == kind_code_spec(k),
{
    match k {
        MessageKind::HandshakeRequest => 1,
        MessageKind::HandshakeResponse => 2,
        MessageKind::WarmupRequest => 3,
        MessageKind::InterpolateRequest => 4,
        MessageKind::FrameResponse => 5,
        MessageKind::ErrorResponse => 6,
        MessageKind::ShutdownRequest => 7,
        MessageKind::EnhanceRequest => 8,
    }
}

/// The fixed part of a protocol message.
#[derive(Debug, Clone, Copy, PartialEq, Eq, Structural)]
pub struct MessageHeader {
    pub kind: MessageKind,
    pub request_id: u64,
    pub width: u32,
    pub height: u32,
    pub stride: u32,
    pub pts_micros: i64,
    pub payload_len: u32,
}

/// Little-endian bytes of a `u16`.
pub open spec fn le16(x: u16) -> Seq<u8> {
    seq![x as u8, (x >> 8) as u8]
}

/// Little-endian bytes of a `u32`.
pub open spec fn le32(x: u32) -> Seq<u8> {
    seq![x as u8, (x >> 8) as u8, (x >> 16) as u8, (x >> 24) as u8]
}

/// Little-endian bytes of a `u64`.
pub open spec fn le64(x: u64) -> Seq<u8> {
    seq![
        x as u8, (x >> 8) as u8, (x >> 16) as u8, (x >> 24) as u8, (x >> 32) as u8, (x >> 40) as u8,
        (x >> 48) as u8, (x >> 56) as u8,
    ]
}

/// The `u16` of two little-endian bytes.
pub open spec fn from_le16(b0: u8, b1: u8) -> u16 {
    (b0 as u16) | ((b1 as u16) << 8)
}

/// The `u32` of four little-endian bytes.
pub open spec fn from_le32(b0: u8, b1: u8, b2: u8, b3: u8) -> u32 {
    (b0 as u32) | ((b1 as u32) << 8) | ((b2 as u32) << 16) | ((b3 as u32) << 24)
}

/// The `u64` of eight little-endian bytes.
pub open spec fn from_le64(b: Seq<u8>, at: int) -> u64 {
    (b[at] as u64) | ((b[at + 1] as u64) << 8) | ((b[at + 2] as u64) << 16) | ((b[at + 3] as u64)
        << 24) | ((b[at + 4] as u64) << 32) | ((b[at + 5] as u64) << 40) | ((b[at + 6] as u64)
        << 48) | ((b[at + 7] as u64) << 56)
}

/// The protocol's magic bytes, `ANIFRM1` and a zero byte.
pub open spec fn magic() -> Seq<u8> {
    seq![65u8, 78u8, 73u8, 70u8, 82u8, 77u8, 49u8, 0u8]
}

/// The 48 header bytes of a message.
pub open spec fn header_bytes_spec(h: MessageHeader) -> Seq<u8> {
    magic() + le16(PROTOCOL_VERSION) + le16(kind_code_spec(h.kind)) + seq![0u8, 0u8, 0u8, 0u8]
        + le64(h.request_id) + le32(h.width) + le32(h.height) + le32(h.stride) + le64(
        h.pts_micros as u64,
    ) + le32(h.payload_len)
}

fn push_le16(v: &mut Vec<u8>, x: u16)
    ensures
        final(v)@ == old(v)@ + le16(x),
{
    v.push(x as u8);
    v.push((x >> 8) as u8);
    assert(final(v)@ =~= old(v)@ + le16(x));
}

fn push_le32(v: &mut Vec<u8>, x: u32)
    ensures
        final(v)@ == old(v)@ + le32(x),
{
    v.push(x as u8);
    v.push((x >> 8) as u8);
    v.push((x >> 16) as u8);
    v.push((x >> 24) as u8);
    assert(final(v)@ =~= old(v)@ + le32(x));
}

fn push_le64(v: &mut Vec<u8>, x: u64)
    ensures
        final(v)@ == old(v)@ + le64(x),
{
    v.push(x as u8);
    v.push((x >> 8) as u8);
    v.push((x >> 16) as u8);
    v.push((x >> 24) as u8);
    v.push((x >> 32) as u8);
    v.push((x >> 40) as u8);
    v.push((x >> 48) as u8);
    v.push((x >> 56) as u8);
    assert(final(v)@ =~= old(v)@ + le64(x));
}

/// Writes the header of a message with a payload of `payload_len` bytes; a payload
/// longer than the protocol's 32-bit length field is refused.
pub fn encode_header(
    kind: MessageKind,
    request_id: u64,
    width: u32,
    height: u32,
    stride: u32,
    pts_micros: i64,
    payload_len: usize,
) -> (r: Result<Vec<u8>, String>)
    ensures
        payload_len > u32::MAX ==> (r matches Err(m) && m@ == "模型消息超过协议限制"@),
        payload_len <= u32::MAX ==> (r matches Ok(bytes) && bytes@ == header_bytes_spec(
            MessageHeader {
                kind,
                request_id,
                width,
                height,
                stride,
                pts_micros,
                payload_len: payload_len as u32,
            },
        )),
{
    if payload_len > 0xffff_ffffusize {
        return Err(String::from_str("模型消息超过协议限制"));
    }
    let mut v: Vec<u8> = Vec::new();
    v.push(65);
    v.push(78);
    v.push(73);
    v.push(70);
    v.push(82);
    v.push(77);
    v.push(49);
    v.push(0);
    assert(v@ =~= magic());
    push_le16(&mut v, PROTOCOL_VERSION);
    push_le16(&mut v, kind_code(kind));
    v.push(0);
    v.push(0);
    v.push(0);
    v.push(0);
    let ghost before_zero = magic() + le16(PROTOCOL_VERSION) + le16(kind_code_spec(kind));
    assert(v@ =~= before_zero + seq![0u8, 0u8, 0u8, 0u8]);
    push_le64(&mut v, request_id);
    push_le32(&mut v, width);
    push_le32(&mut v, height);
    push_le32(&mut v, stride);
    push_le64(&mut v, pts_micros as u64);
    push_le32(&mut v, payload_len as u32);
    Ok(v)
}

/// The message kinds a sidecar may send.
pub open spec fn response_kind(code: u16) -> Option<MessageKind> {
    if code == 2 {
        Some(MessageKind::HandshakeResponse)
    } else if code == 5 {
        Some(MessageKind::FrameResponse)
    } else if code == 6 {
        Some(MessageKind::ErrorResponse)
    } else {
        None
    }
}

/// What the header bytes of a sidecar message say, or why they are refused.
pub open spec fn decode_header_spec(b: Seq<u8>, max_payload_bytes: usize) -> Result<MessageHeader, Seq<char>> {
    if b.subrange(0, 8) != magic() || from_le16(b[8], b[9]) != PROTOCOL_VERSION {
        Err("模型 sidecar 返回未知协议"@)
    } else if response_kind(from_le16(b[10], b[11])) is None {
        Err("模型 sidecar 返回未知消息类型"@)
    } else if from_le32(b[44], b[45], b[46], b[47]) > max_payload_bytes {
        Err("模型 sidecar 返回数据超过限制"@)
    } else {
        Ok(
            MessageHeader {
                kind: response_kind(from_le16(b[10], b[11])).unwrap(),
                request_id: from_le64(b, 16),
                width: from_le32(b[24], b[25], b[26], b[27]),
                height: from_le32(b[28], b[29], b[30], b[31]),
                stride: from_le32(b[32], b[33], b[34], b[35]),
                pts_micros: from_le64(b, 36) as i64,
                payload_len: from_le32(b[44], b[45], b[46], b[47]),
            },
        )
    }
}

fn read_le16(b: &[u8; 48], at: usize) -> (r: u16)
    requires
        at + 2 <= 48,
    ensures
        r == from_le16(b@[at as int], b@[at + 1]),
{
    (b[at] as u16) | ((b[at + 1] as u16) << 8)
}

fn read_le32(b: &[u8; 48], at: usize) -> (r: u32)
    requires
        at + 4 <= 48,
    ensures
        r == from_le32(b@[at as int], b@[at + 1], b@[at + 2], b@[at + 3]),
{
    (b[at] as u32) | ((b[at + 1] as u32) << 8) | ((b[at + 2] as u32) << 16) | ((b[at + 3] as u32)
        << 24)
}

fn read_le64(b: &[u8; 48], at: usize) -> (r: u64)
    requires
        at + 8 <= 48,
    ensures
        r == from_le64(b@, at as int),
{
    (b[at] as u64) | ((b[at + 1] as u64) << 8) | ((b[at + 2] as u64) << 16) | ((b[at + 3] as u64)
        << 24) | ((b[at + 4] as u64) << 32) | ((b[at + 5] as u64) << 40) | ((b[at + 6] as u64)
        << 48) | ((b[at + 7] as u64) << 56)
}

/// Reads the header of a message from a sidecar: the magic, the version, a response
/// kind, and a payload length within the limit.
pub fn decode_header(header: &[u8; 48], max_payload_bytes: usize) -> (r: Result<MessageHeader, String>)
    ensures
        match r {
            Ok(h) => decode_header_spec(header@, max_payload_bytes) == Ok::<MessageHeader, Seq<char>>(h),
            Err(m) => decode_header_spec(header@, max_payload_bytes) == Err::<MessageHeader, Seq<char>>(m@),
        },
{
    let magic_ok = header[0] == 65 && header[1] == 78 && header[2] == 73 && header[3] == 70
        && header[4] == 82 && header[5] == 77 && header[6] == 49 && header[7] == 0;
    proof {
        if magic_ok {
            assert(header@.subrange(0, 8) =~= magic());
        } else {
            assert(header@.subrange(0, 8) != magic()) by {
                if header@.subrange(0, 8) == magic() {
                    assert(header@.subrange(0, 8)[0] == header@[0]);
                    assert(header@.subrange(0, 8)[1] == header@[1]);
                    assert(header@.subrange(0, 8)[2] == header@[2]);
                    assert(header@.subrange(0, 8)[3] == header@[3]);
                    assert(header@.subrange(0, 8)[4] == header@[4]);
                    assert(header@.subrange(0, 8)[5] == header@[5]);
                    assert(header@.subrange(0, 8)[6] == header@[6]);
                    assert(header@.subrange(0, 8)[7] == header@[7]);
                }
            }
        }
    }
    if !magic_ok || read_le16(header, 8) != PROTOCOL_VERSION {
        return Err(String::from_str("模型 sidecar 返回未知协议"));
    }
    let code = read_le16(header, 10);
    let kind = if code == 2 {
        MessageKind::HandshakeResponse
    } else if code == 5 {
        MessageKind::FrameResponse
    } else if code == 6 {
        MessageKind::ErrorResponse
    } else {
        return Err(String::from_str("模型 sidecar 返回未知消息类型"));
    };
    let payload_len = read_le32(header, 44);
    if payload_len as usize > max_payload_bytes {
        return Err(String::from_str("模型 sidecar 返回数据超过限制"));
    }
    Ok(
        MessageHeader {
            kind,
            request_id: read_le64(header, 16),
            width: read_le32(header, 24),
            height: read_le32(header, 28),
            stride: read_le32(header, 32),
            pts_micros: read_le64(header, 36) as i64,
            payload_len,
        },
    )
}

proof fn lemma_le16_roundtrip(x: u16)
    ensures
        from_le16(le16(x)[0], le16(x)[1]) == x,
{
    assert((x as u8) as u16 | (((x >> 8) as u8) as u16) << 8 == x) by (bit_vector);
}

proof fn lemma_le32_roundtrip(x: u32)
    ensures
        from_le32(le32(x)[0], le32(x)[1], le32(x)[2], le32(x)[3]) == x,
{
    assert((x as u8) as u32 | (((x >> 8) as u8) as u32) << 8 | (((x >> 16) as u8) as u32) << 16
        | (((x >> 24) as u8) as u32) << 24 == x) by (bit_vector);
}

proof fn lemma_le64_roundtrip(x: u64, b: Seq<u8>, at: int)
    requires
        0 <= at,
        at + 8 <= b.len(),
        b.subrange(at, at + 8) == le64(x),
    ensures
        from_le64(b, at) == x,
{
    assert(b[at] == le64(x)[0]);
    assert(b[at + 1] == le64(x)[1]);
    assert(b[at + 2] == le64(x)[2]);
    assert(b[at + 3] == le64(x)[3]);
    assert(b[at + 4] == le64(x)[4]);
    assert(b[at + 5] == le64(x)[5]);
    assert(b[at + 6] == le64(x)[6]);
    assert(b[at + 7] == le64(x)[7]);
    assert((x as u8) as u64 | (((x >> 8) as u8) as u64) << 8 | (((x >> 16) as u8) as u64) << 16
        | (((x >> 24) as u8) as u64) << 24 | (((x >> 32) as u8) as u64) << 32 | (((x >> 40) as u8)
        as u64) << 40 | (((x >> 48) as u8) as u64) << 48 | (((x >> 56) as u8) as u64) << 56 == x)
        by (bit_vector);
}

/// Reading back the header written for a response message gives the message's header:
/// the codec is lossless for every kind a sidecar sends, when the payload fits the limit.
pub proof fn lemma_header_roundtrip(h: MessageHeader, max_payload_bytes: usize)
    requires
        response_kind(kind_code_spec(h.kind)) == Some(h.kind),
        h.payload_len <= max_payload_bytes,
    ensures
        decode_header_spec(header_bytes_spec(h), max_payload_bytes) == Ok::<MessageHeader, Seq<char>>(h),
{
    let b = header_bytes_spec(h);
    assert(b.len() == 48);
    assert(b.subrange(0, 8) =~= magic());
    assert(b[8] == le16(PROTOCOL_VERSION)[0] && b[9] == le16(PROTOCOL_VERSION)[1]);
    lemma_le16_roundtrip(PROTOCOL_VERSION);
    assert(b[10] == le16(kind_code_spec(h.kind))[0] && b[11] == le16(kind_code_spec(h.kind))[1]);
    lemma_le16_roundtrip(kind_code_spec(h.kind));
    assert(b.subrange(16, 24) =~= le64(h.request_id));
    lemma_le64_roundtrip(h.request_id, b, 16);
    assert(b[24] == le32(h.width)[0] && b[25] == le32(h.width)[1] && b[26] == le32(h.width)[2] && b[27] == le32(h.width)[3]);
    lemma_le32_roundtrip(h.width);
    assert(b[28] == le32(h.height)[0] && b[29] == le32(h.height)[1] && b[30] == le32(h.height)[2] && b[31] == le32(h.height)[3]);
    lemma_le32_roundtrip(h.height);
    assert(b[32] == le32(h.stride)[0] && b[33] == le32(h.stride)[1] && b[34] == le32(h.stride)[2] && b[35] == le32(h.stride)[3]);
    lemma_le32_roundtrip(h.stride);
    assert(b.subrange(36, 44) =~= le64(h.pts_micros as u64));
    lemma_le64_roundtrip(h.pts_micros as u64, b, 36);
    let p = h.pts_micros;
    assert((p as u64) as i64 == p) by (bit_vector);
    assert(b[44] == le32(h.payload_len)[0] && b[45] == le32(h.payload_len)[1] && b[46] == le32(h.payload_len)[2] && b[47] == le32(h.payload_len)[3]);
    lemma_le32_roundtrip(h.payload_len);
}


/// A bundle file as the digest reads it: its path and its declared digest.
pub open spec fn file_view(f: ModelSidecarFile) -> (Seq<char>, Seq<char>) {
    (f.path@, f.sha256@)
}

/// The index before which a file with path `key` goes in a list sorted by path:
/// before the first entry whose path is greater, so that equal paths keep their order.
pub open spec fn insert_index(s: Seq<(Seq<char>, Seq<char>)>, key: Seq<char>) -> int
    decreases s.len(),
{
    if s.len() == 0 {
        0
    } else if !seq_le(s[0].0, key) {
        0
    } else {
        1 + insert_index(s.subrange(1, s.len() as int), key)
    }
}

/// The files sorted by path, stably, as `slice::sort_by` on the paths orders them.
pub open spec fn sorted_by_path(s: Seq<(Seq<char>, Seq<char>)>) -> Seq<(Seq<char>, Seq<char>)>
    decreases s.len(),
{
    if s.len() == 0 {
        s
    } else {
        let rest = sorted_by_path(s.drop_last());
        rest.insert(insert_index(rest, s.last().0), s.last())
    }
}

/// Whether the entries come in nondecreasing order of path.
pub open spec fn ordered_by_path(s: Seq<(Seq<char>, Seq<char>)>) -> bool {
    forall|i: int, j: int| 0 <= i < j < s.len() ==> seq_le(#[trigger] s[i].0, #[trigger] s[j].0)
}

proof fn lemma_insert_index_position(s: Seq<(Seq<char>, Seq<char>)>, key: Seq<char>)
    requires
        ordered_by_path(s),
    ensures
        0 <= insert_index(s, key) <= s.len(),
        forall|i: int| 0 <= i < insert_index(s, key) ==> seq_le(#[trigger] s[i].0, key),
        forall|i: int| insert_index(s, key) <= i < s.len() ==> seq_le(key, #[trigger] s[i].0),
    decreases s.len(),
{
    if s.len() > 0 {
        let tail = s.subrange(1, s.len() as int);
        assert(ordered_by_path(tail)) by {
            assert forall|i: int, j: int| 0 <= i < j < tail.len() implies seq_le(#[trigger] tail[i].0, #[trigger] tail[j].0) by {
                assert(tail[i] == s[i + 1] && tail[j] == s[j + 1]);
            }
        }
        lemma_insert_index_position(tail, key);
        if !seq_le(s[0].0, key) {
            lemma_seq_le_total(s[0].0, key);
            assert forall|i: int| 0 <= i < s.len() implies seq_le(key, #[trigger] s[i].0) by {
                if i > 0 {
                    lemma_seq_le_transitive(key, s[0].0, s[i].0);
                }
            }
        } else {
            assert forall|i: int| 1 <= i < s.len() implies (#[trigger] s[i]) == tail[i - 1] by {}
        }
    }
}

/// Sorting by path puts the files in nondecreasing order of path and keeps each file:
/// the result holds the same entries, each as often as before.
pub proof fn lemma_sorted_by_path_is_ordered_permutation(s: Seq<(Seq<char>, Seq<char>)>)
    ensures
        ordered_by_path(sorted_by_path(s)),
        sorted_by_path(s).to_multiset() == s.to_multiset(),
    decreases s.len(),
{
    if s.len() > 0 {
        let rest = sorted_by_path(s.drop_last());
        lemma_sorted_by_path_is_ordered_permutation(s.drop_last());
        let x = s.last();
        let k = insert_index(rest, x.0);
        lemma_insert_index_position(rest, x.0);
        let out = rest.insert(k, x);
        assert forall|i: int, j: int| 0 <= i < j < out.len() implies seq_le(#[trigger] out[i].0, #[trigger] out[j].0) by {
            if j < k {
                assert(out[i] == rest[i] && out[j] == rest[j]);
            } else if j == k {
                assert(out[i] == rest[i] && out[j] == x);
            } else if i < k {
                assert(out[i] == rest[i] && out[j] == rest[j - 1]);
            } else if i == k {
                assert(out[i] == x && out[j] == rest[j - 1]);
            } else {
                assert(out[i] == rest[i - 1] && out[j] == rest[j - 1]);
            }
        }
        vstd::seq_lib::to_multiset_insert(rest, k, x);
        vstd::seq_lib::to_multiset_build(s.drop_last(), x);
        assert(s.drop_last().push(x) =~= s);
    }
}

/// The bytes the aggregate digest hashes: each file's path followed by its declared
/// digest in lower case, in path order.
pub open spec fn digest_input(s: Seq<(Seq<char>, Seq<char>)>) -> Seq<u8>
    decreases s.len(),
{
    if s.len() == 0 {
        Seq::empty()
    } else {
        digest_input(s.drop_last()) + encode_utf8(s.last().0) + encode_utf8(ascii_lower(s.last().1))
    }
}

/// The SHA-256 digest of some bytes.
pub uninterp spec fn sha256_digest(data: Seq<u8>) -> Seq<u8>;

/// Hashes bytes with SHA-256 (`sha2::Digest::digest`). The contract names the result
/// and states its documented length of 32 bytes.
#[verifier::external_body]
fn sha256_bytes(data: &[u8]) -> (r: Vec<u8>)
    ensures
        r@ == sha256_digest(data@),
        r@.len() == 32,
{
    <sha2::Sha256 as sha2::Digest>::digest(data).to_vec()
}

proof fn lemma_insert_index_bounds(s: Seq<(Seq<char>, Seq<char>)>, key: Seq<char>)
    ensures
        0 <= insert_index(s, key) <= s.len(),
    decreases s.len(),
{
    if s.len() > 0 {
        lemma_insert_index_bounds(s.subrange(1, s.len() as int), key);
    }
}

fn find_insert_index(sorted: &Vec<ModelSidecarFile>, key: &String) -> (r: usize)
    ensures
        r == insert_index(sorted@.map_values(|f: ModelSidecarFile| file_view(f)), key@),
        r <= sorted@.len(),
{
    let ghost views = sorted@.map_values(|f: ModelSidecarFile| file_view(f));
    let n = sorted.len();
    let mut i: usize = 0;
    assert(views.subrange(0, n as int) =~= views);
    while i < n
        invariant
            n == sorted@.len(),
            views == sorted@.map_values(|f: ModelSidecarFile| file_view(f)),
            i <= n,
            insert_index(views, key@) == i + insert_index(views.subrange(i as int, n as int), key@),
        decreases n - i,
    {
        let ghost rest = views.subrange(i as int, n as int);
        assert(rest[0] == file_view(sorted@[i as int]));
        assert(rest.subrange(1, rest.len() as int) =~= views.subrange(i + 1, n as int));
        if !str_le(sorted[i].path.as_str(), key.as_str()) {
            return i;
        }
        i = i + 1;
    }
    i
}

/// The bundle files sorted by path, stably.
pub fn sort_files_by_path(files: &Vec<ModelSidecarFile>) -> (r: Vec<ModelSidecarFile>)
    ensures
        r@.map_values(|f: ModelSidecarFile| file_view(f)) == sorted_by_path(files@.map_values(|f: ModelSidecarFile| file_view(f))),
{
    let ghost all = files@.map_values(|f: ModelSidecarFile| file_view(f));
    let mut out: Vec<ModelSidecarFile> = Vec::new();
    let mut i: usize = 0;
    while i < files.len()
        invariant
            i <= files@.len(),
            all == files@.map_values(|f: ModelSidecarFile| file_view(f)),
            out@.map_values(|f: ModelSidecarFile| file_view(f)) == sorted_by_path(all.subrange(0, i as int)),
        decreases files@.len() - i,
    {
        let f = ModelSidecarFile { path: files[i].path.clone(), sha256: files[i].sha256.clone() };
        let k = find_insert_index(&out, &f.path);
        let ghost before = out@.map_values(|f: ModelSidecarFile| file_view(f));
        proof {
            lemma_insert_index_bounds(before, f.path@);
            assert(all.subrange(0, i + 1).drop_last() =~= all.subrange(0, i as int));
            assert(all.subrange(0, i + 1).last() == file_view(f));
        }
        out.insert(k, f);
        proof {
            assert(out@.map_values(|f: ModelSidecarFile| file_view(f)) =~= before.insert(k as int, file_view(f)));
        }
        i = i + 1;
    }
    assert(all.subrange(0, files@.len() as int) =~= all);
    out
}

/// The aggregate digest of a bundle's files: the lowercase hexadecimal SHA-256 of each
/// file's path and declared digest, in path order.
pub open spec fn aggregate_digest_spec(files: Seq<ModelSidecarFile>) -> Seq<char> {
    hex_text(sha256_digest(digest_input(sorted_by_path(files.map_values(|f: ModelSidecarFile| file_view(f))))))
}

/// Computes the aggregate digest that stands for a bundle's model weights.
pub fn aggregate_digest(files: &Vec<ModelSidecarFile>) -> (r: String)
    ensures
        r@ == aggregate_digest_spec(files@),
{
    let sorted = sort_files_by_path(files);
    let ghost views = sorted@.map_values(|f: ModelSidecarFile| file_view(f));
    let mut input: Vec<u8> = Vec::new();
    let mut i: usize = 0;
    while i < sorted.len()
        invariant
            i <= sorted@.len(),
            views == sorted@.map_values(|f: ModelSidecarFile| file_view(f)),
            input@ == digest_input(views.subrange(0, i as int)),
        decreases sorted@.len() - i,
    {
        let lower = string_of(to_ascii_lower(chars_of(sorted[i].sha256.as_str()).as_slice()).as_slice());
        let path_bytes = sorted[i].path.as_str().as_bytes();
        let sha_bytes = lower.as_str().as_bytes();
        let mut k: usize = 0;
        let ghost start = input@;
        while k < path_bytes.len()
            invariant
                k <= path_bytes@.len(),
                input@ == start + path_bytes@.subrange(0, k as int),
            decreases path_bytes@.len() - k,
        {
            input.push(path_bytes[k]);
            k = k + 1;
            assert(input@ =~= start + path_bytes@.subrange(0, k as int));
        }
        assert(path_bytes@.subrange(0, path_bytes@.len() as int) =~= path_bytes@);
        let ghost middle = input@;
        let mut k: usize = 0;
        while k < sha_bytes.len()
            invariant
                k <= sha_bytes@.len(),
                input@ == middle + sha_bytes@.subrange(0, k as int),
            decreases sha_bytes@.len() - k,
        {
            input.push(sha_bytes[k]);
            k = k + 1;
            assert(input@ =~= middle + sha_bytes@.subrange(0, k as int));
        }
        assert(sha_bytes@.subrange(0, sha_bytes@.len() as int) =~= sha_bytes@);
        proof {
            assert(views.subrange(0, i + 1).drop_last() =~= views.subrange(0, i as int));
            assert(views.subrange(0, i + 1).last() == views[i as int]);
        }
        i = i + 1;
    }
    assert(views.subrange(0, sorted@.len() as int) =~= views);
    let digest = sha256_bytes(input.as_slice());
    let mut out: Vec<char> = Vec::new();
    let mut j: usize = 0;
    while j < digest.len()
        invariant
            j <= digest@.len(),
            out@ == hex_text(digest@.subrange(0, j as int)),
        decreases digest@.len() - j,
    {
        let b = digest[j];
        out.push(hex_char(b / 16));
        out.push(hex_char(b % 16));
        proof {
            assert(digest@.subrange(0, j + 1).drop_last() =~= digest@.subrange(0, j as int));
            assert(out@ =~= hex_text(digest@.subrange(0, j + 1)));
        }
        j = j + 1;
    }
    assert(digest@.subrange(0, digest@.len() as int) =~= digest@);
    string_of(out.as_slice())
}


/// Writes a digest as lowercase hexadecimal, two digits per byte.
fn hex_of(digest: &Vec<u8>) -> (r: Vec<char>)
    ensures
        r@ == hex_text(digest@),
{
    let mut out: Vec<char> = Vec::new();
    let mut j: usize = 0;
    while j < digest.len()
        invariant
            j <= digest@.len(),
            out@ == hex_text(digest@.subrange(0, j as int)),
        decreases digest@.len() - j,
    {
        let b = digest[j];
        out.push(hex_char(b / 16));
        out.push(hex_char(b % 16));
        proof {
            assert(digest@.subrange(0, j + 1).drop_last() =~= digest@.subrange(0, j as int));
            assert(out@ =~= hex_text(digest@.subrange(0, j + 1)));
        }
        j = j + 1;
    }
    assert(digest@.subrange(0, digest@.len() as int) =~= digest@);
    out
}

/// The SHA-256 digest of a bundle file's contents, in lowercase hexadecimal.
pub fn file_digest_text(data: &[u8]) -> (r: String)
    ensures
        r@ == hex_text(sha256_digest(data@)),
{
    let digest = sha256_bytes(data);
    let hex = hex_of(&digest);
    string_of(hex.as_slice())
}

/// Checks a bundle file's contents against the digest its manifest declares: the
/// declared digest must be 64 hexadecimal digits, and must equal the contents'
/// SHA-256, ignoring ASCII case. A mismatch names the file as `display_path`.
pub fn check_file_digest(data: &[u8], expected: &str, display_path: &str) -> (r: Result<(), String>)
    ensures
        !is_sha256_text_spec(expected@) ==> (r matches Err(m) && m@ == "模型 sidecar SHA-256 格式无效"@),
        is_sha256_text_spec(expected@) ==> match r {
            Ok(()) => ascii_lower(hex_text(sha256_digest(data@))) == ascii_lower(expected@),
            Err(m) => ascii_lower(hex_text(sha256_digest(data@))) != ascii_lower(expected@)
                && m@ == "模型 sidecar 资源摘要不一致："@ + display_path@,
        },
{
    if !is_sha256_text(expected) {
        return Err(String::from_str("模型 sidecar SHA-256 格式无效"));
    }
    let actual = file_digest_text(data);
    if !digests_match(actual.as_str(), expected) {
        let mut v = chars_of("模型 sidecar 资源摘要不一致：");
        crate::text::append_str(&mut v, display_path);
        return Err(string_of(v.as_slice()));
    }
    Ok(())
}

/// The sample window of frame times kept for the 95th percentile.
pub const FRAME_TIME_SAMPLE_CAPACITY: usize = 120;

/// Payload limit of control messages such as the handshake.
pub const MAX_CONTROL_PAYLOAD_BYTES: usize = 65536;

/// The position of the 95th percentile in `len` sorted samples:
/// `ceil(len * 95 / 100) - 1`, and 0 for no sample.
pub open spec fn p95_index_spec(len: nat) -> nat {
    let q = (len * 95 + 99) / 100;
    if q == 0 {
        0
    } else {
        (q - 1) as nat
    }
}

/// The position of the 95th percentile among `len` sorted frame times.
pub fn p95_index(len: usize) -> (r: usize)
    requires
        len <= FRAME_TIME_SAMPLE_CAPACITY,
    ensures
        r == p95_index_spec(len as nat),
        len > 0 ==> r < len,
{
    let q = (len * 95 + 99) / 100;
    if q == 0 {
        0
    } else {
        q - 1
    }
}

/// Checks that a runtime can take a frame request: it runs the wanted operation and has
/// not been shut down after a failure.
pub fn check_model_request(operation: ModelOperation, wanted: ModelOperation, ready: bool) -> (r: Result<(), String>)
    ensures
        operation != wanted ==> (r matches Err(m) && m@ == if wanted == ModelOperation::Interpolate {
            "当前模型 sidecar 不提供插帧操作"@
        } else {
            "当前模型 sidecar 不提供单帧增强操作"@
        }),
        operation == wanted && !ready ==> (r matches Err(m) && m@ == "模型 sidecar 已降级关闭"@),
        operation == wanted && ready ==> r is Ok,
{
    if operation != wanted {
        return Err(match wanted {
            ModelOperation::Interpolate => String::from_str("当前模型 sidecar 不提供插帧操作"),
            ModelOperation::Enhance => String::from_str("当前模型 sidecar 不提供单帧增强操作"),
        });
    }
    if !ready {
        return Err(String::from_str("模型 sidecar 已降级关闭"));
    }
    Ok(())
}

/// Checks that the two frames given to interpolation have the same size and stride.
pub fn check_frame_pair(previous: (u32, u32, u32), next: (u32, u32, u32)) -> (r: Result<(), String>)
    ensures
        r is Ok <==> previous == next,
        r matches Err(m) ==> m@ == "插帧输入的两帧尺寸不一致"@,
{
    if previous.0 != next.0 || previous.1 != next.1 || previous.2 != next.2 {
        Err(String::from_str("插帧输入的两帧尺寸不一致"))
    } else {
        Ok(())
    }
}

/// Checks the sidecar's answer to the handshake request, which has identifier 1.
pub fn check_handshake_response(header: &MessageHeader) -> (r: Result<(), String>)
    ensures
        r is Ok <==> (header.kind == MessageKind::HandshakeResponse && header.request_id == 1),
        r matches Err(m) ==> m@ == "模型 sidecar 握手响应无效"@,
{
    if !matches!(header.kind, MessageKind::HandshakeResponse) || header.request_id != 1 {
        Err(String::from_str("模型 sidecar 握手响应无效"))
    } else {
        Ok(())
    }
}

/// The stride of the warm-up frame: three bytes per pixel, saturating.
pub fn warmup_stride(input_width: u32) -> (r: u32)
    ensures
        r == if input_width * 3 > u32::MAX {
            u32::MAX as int
        } else {
            input_width * 3
        },
{
    if input_width > u32::MAX / 3 {
        u32::MAX
    } else {
        input_width * 3
    }
}


/// The first problem of a frame response's header against the request, if any: the
/// wrong kind or request, a size that overflows when scaled, or a size other than the
/// input's (scaled by the model for an enhancement).
pub open spec fn frame_response_problem(
    h: MessageHeader,
    request_id: u64,
    input_width: u32,
    input_height: u32,
    operation: ModelOperation,
    output_scale: u32,
) -> Option<Seq<char>> {
    let scale: u32 = match operation {
        ModelOperation::Interpolate => 1,
        ModelOperation::Enhance => output_scale,
    };
    if h.kind != MessageKind::FrameResponse || h.request_id != request_id {
        Some("模型 sidecar 帧响应与请求不匹配"@)
    } else if input_width * scale > u32::MAX {
        Some("模型输出宽度溢出"@)
    } else if input_height * scale > u32::MAX {
        Some("模型输出高度溢出"@)
    } else if input_width * scale * 3 > u32::MAX {
        Some("模型输出步长溢出"@)
    } else if h.width != input_width * scale || h.height != input_height * scale || h.stride != input_width * scale * 3 {
        Some("模型 sidecar 返回了意外帧尺寸"@)
    } else {
        None
    }
}

/// Checks the header of a frame response against its request and input size.
pub fn check_frame_response(
    header: &MessageHeader,
    request_id: u64,
    input_width: u32,
    input_height: u32,
    operation: ModelOperation,
    output_scale: u32,
) -> (r: Result<(), String>)
    ensures
        match r {
            Ok(()) => frame_response_problem(*header, request_id, input_width, input_height, operation, output_scale) is None,
            Err(m) => frame_response_problem(*header, request_id, input_width, input_height, operation, output_scale) == Some(m@),
        },
{
    if !matches!(header.kind, MessageKind::FrameResponse) || header.request_id != request_id {
        return Err(String::from_str("模型 sidecar 帧响应与请求不匹配"));
    }
    let scale: u32 = match operation {
        ModelOperation::Interpolate => 1,
        ModelOperation::Enhance => output_scale,
    };
    let width = match input_width.checked_mul(scale) {
        Some(w) => w,
        None => {
            return Err(String::from_str("模型输出宽度溢出"));
        },
    };
    let height = match input_height.checked_mul(scale) {
        Some(h) => h,
        None => {
            return Err(String::from_str("模型输出高度溢出"));
        },
    };
    let stride = match width.checked_mul(3) {
        Some(s) => s,
        None => {
            return Err(String::from_str("模型输出步长溢出"));
        },
    };
    if header.width != width || header.height != height || header.stride != stride {
        return Err(String::from_str("模型 sidecar 返回了意外帧尺寸"));
    }
    Ok(())
}

} // verus!
