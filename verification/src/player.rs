//! Player-side decisions: the bounded frame queue of interpolation backends, the
//! model manifests and budgets a backend must meet, the enhancement stage a session
//! may use, answers to commands, and the session guard that stops an
//! outdated session from driving or reporting on the current media.

use vstd::prelude::*;
use std::collections::VecDeque;
use crate::contracts::{PlayerCommandResult, PlayerError, PlayerErrorCode, PlayerRecoveryAction};
use crate::text::{append_str, chars_of, chars_eq, string_of, trim, trim_chars, parse_i64, parse_i64_spec};
use crate::dyadic::{dyadic_le, dyadic_le_exec};
use crate::sidecar::{is_sha256_text, is_sha256_text_spec};

verus! {

/// A bounded queue of frames: when full, pushing drops the oldest frame and counts it.
#[derive(Debug)]
pub struct BoundedFrameQueue<T> {
    capacity: usize,
    frames: VecDeque<T>,
    dropped_frames: u64,
}

/// The frames after pushing `x` onto `s` in a queue of capacity `cap`.
pub open spec fn queue_push_spec<T>(s: Seq<T>, cap: nat, x: T) -> Seq<T> {
    if s.len() == cap {
        s.subrange(1, s.len() as int).push(x)
    } else {
        s.push(x)
    }
}

impl<T> BoundedFrameQueue<T> {
    /// The frames, oldest first.
    pub closed spec fn frames_spec(&self) -> Seq<T> {
        self.frames@
    }

    /// The capacity.
    pub closed spec fn capacity_spec(&self) -> nat {
        self.capacity as nat
    }

    /// The number of frames dropped so far.
    pub closed spec fn dropped_spec(&self) -> u64 {
        self.dropped_frames
    }

    #[verifier::type_invariant]
    spec fn inv(&self) -> bool {
        self.capacity >= 1 && self.frames@.len() <= self.capacity
    }

    /// Creates a queue holding at least one frame.
    pub fn new(capacity: usize) -> (r: Self)
        ensures
            r.capacity_spec() == if capacity == 0 {
                1
            } else {
                capacity as nat
            },
            r.frames_spec() == Seq::<T>::empty(),
            r.dropped_spec() == 0,
    {
        let capacity = if capacity == 0 {
            1
        } else {
            capacity
        };
        BoundedFrameQueue { capacity, frames: VecDeque::new(), dropped_frames: 0 }
    }

    /// Pushes a frame; when the queue is full the oldest frame is dropped and counted.
    pub fn push(&mut self, frame: T)
        ensures
            final(self).capacity_spec() == old(self).capacity_spec(),
            final(self).frames_spec() == queue_push_spec(
                old(self).frames_spec(),
                old(self).capacity_spec(),
                frame,
            ),
            final(self).dropped_spec() == if old(self).frames_spec().len()
                == old(self).capacity_spec() {
                if old(self).dropped_spec() == u64::MAX {
                    u64::MAX
                } else {
                    (old(self).dropped_spec() + 1) as u64
                }
            } else {
                old(self).dropped_spec()
            },
            final(self).frames_spec().len() <= final(self).capacity_spec(),
    {
        proof {
            use_type_invariant(&*self);
        }
        if self.frames.len() == self.capacity {
            let mut frames = VecDeque::new();
            std::mem::swap(&mut frames, &mut self.frames);
            let _ = frames.pop_front();
            frames.push_back(frame);
            self.frames = frames;
            self.dropped_frames = if self.dropped_frames == u64::MAX {
                u64::MAX
            } else {
                self.dropped_frames + 1
            };
        } else {
            let mut frames = VecDeque::new();
            std::mem::swap(&mut frames, &mut self.frames);
            frames.push_back(frame);
            self.frames = frames;
        }
    }

    /// Takes the oldest frame.
    pub fn pop(&mut self) -> (r: Option<T>)
        ensures
            final(self).capacity_spec() == old(self).capacity_spec(),
            final(self).dropped_spec() == old(self).dropped_spec(),
            match r {
                Some(x) => old(self).frames_spec().len() > 0 && x == old(self).frames_spec()[0]
                    && final(self).frames_spec() == old(self).frames_spec().subrange(
                    1,
                    old(self).frames_spec().len() as int,
                ),
                None => old(self).frames_spec().len() == 0 && final(self).frames_spec()
                    == old(self).frames_spec(),
            },
    {
        proof {
            use_type_invariant(&*self);
        }
        let mut frames = VecDeque::new();
        std::mem::swap(&mut frames, &mut self.frames);
        let r = frames.pop_front();
        self.frames = frames;
        r
    }

    /// The number of frames queued.
    pub fn len(&self) -> (r: usize)
        ensures
            r == self.frames_spec().len(),
            r <= self.capacity_spec(),
    {
        proof {
            use_type_invariant(self);
        }
        self.frames.len()
    }

    /// Whether no frame is queued.
    pub fn is_empty(&self) -> (r: bool)
        ensures
            r == (self.frames_spec().len() == 0),
    {
        self.frames.len() == 0
    }

    /// The number of frames dropped so far.
    pub fn dropped_frames(&self) -> (r: u64)
        ensures
            r == self.dropped_spec(),
    {
        self.dropped_frames
    }
}

/// A push keeps the newest frames: the pushed frame is last, what stays is the tail of
/// the earlier frames, and the queue never grows past its capacity.
pub proof fn lemma_queue_push_keeps_newest<T>(s: Seq<T>, cap: nat, x: T)
    requires
        1 <= cap,
        s.len() <= cap,
    ensures
        queue_push_spec(s, cap, x).len() <= cap,
        queue_push_spec(s, cap, x).last() == x,
        queue_push_spec(s, cap, x).drop_last() == s.subrange(
            s.len() - queue_push_spec(s, cap, x).drop_last().len(),
            s.len() as int,
        ),
{
    let r = queue_push_spec(s, cap, x);
    if s.len() == cap {
        assert(r.drop_last() =~= s.subrange(1, s.len() as int));
    } else {
        assert(r.drop_last() =~= s);
        assert(s.subrange(0, s.len() as int) =~= s);
    }
}

/// A frame pushed onto an empty queue is the next one popped.
pub proof fn lemma_queue_fifo<T>(cap: nat, x: T)
    requires
        1 <= cap,
    ensures
        queue_push_spec(Seq::<T>::empty(), cap, x)[0] == x,
        queue_push_spec(Seq::<T>::empty(), cap, x).len() == 1,
{
}

/// The enhancement stage a session asks for.
#[derive(Debug, Clone, Copy, PartialEq, Eq, Structural)]
pub enum EnhancementStage {
    Shader,
    ModelSuperResolution,
    FrameInterpolation,
}

/// The one enhancement stage a session is allowed.
#[derive(Debug, Clone, Copy, PartialEq, Eq, Structural)]
pub enum EnhancementDecision {
    Disabled,
    Shader,
    ModelSuperResolution,
    FrameInterpolation,
}

/// What the scheduler knows of the backends: whether each model backend is present,
/// ready and within its budget, and whether the shader path exists.
#[derive(Debug, Clone, Copy, PartialEq, Eq, Structural)]
pub struct EnhancementScheduler {
    pub model_usable: bool,
    pub interpolator_usable: bool,
    pub shader_available: bool,
}

/// The stage allowed for a request: interpolation, then model super-resolution, then
/// the shader, falling back in that order.
pub open spec fn decide_spec(s: EnhancementScheduler, requested: EnhancementStage) -> EnhancementDecision {
    match requested {
        EnhancementStage::FrameInterpolation => if s.interpolator_usable {
            EnhancementDecision::FrameInterpolation
        } else if s.model_usable {
            EnhancementDecision::ModelSuperResolution
        } else if s.shader_available {
            EnhancementDecision::Shader
        } else {
            EnhancementDecision::Disabled
        },
        EnhancementStage::ModelSuperResolution => if s.model_usable {
            EnhancementDecision::ModelSuperResolution
        } else if s.shader_available {
            EnhancementDecision::Shader
        } else {
            EnhancementDecision::Disabled
        },
        EnhancementStage::Shader => if s.shader_available {
            EnhancementDecision::Shader
        } else {
            EnhancementDecision::Disabled
        },
    }
}

impl EnhancementScheduler {
    /// Decides the only enhancement stage the session may use.
    pub fn decide(&self, requested: EnhancementStage) -> (r: EnhancementDecision)
        ensures
            r == decide_spec(*self, requested),
    {
        match requested {
            EnhancementStage::FrameInterpolation => if self.interpolator_usable {
                EnhancementDecision::FrameInterpolation
            } else if self.model_usable {
                EnhancementDecision::ModelSuperResolution
            } else if self.shader_available {
                EnhancementDecision::Shader
            } else {
                EnhancementDecision::Disabled
            },
            EnhancementStage::ModelSuperResolution => if self.model_usable {
                EnhancementDecision::ModelSuperResolution
            } else if self.shader_available {
                EnhancementDecision::Shader
            } else {
                EnhancementDecision::Disabled
            },
            EnhancementStage::Shader => if self.shader_available {
                EnhancementDecision::Shader
            } else {
                EnhancementDecision::Disabled
            },
        }
    }
}

/// The scheduler never opens a stage whose backend is not usable, and never a stage
/// above the one requested.
pub proof fn lemma_decision_is_safe(s: EnhancementScheduler, requested: EnhancementStage)
    ensures
        decide_spec(s, requested) == EnhancementDecision::FrameInterpolation ==> s.interpolator_usable
            && requested == EnhancementStage::FrameInterpolation,
        decide_spec(s, requested) == EnhancementDecision::ModelSuperResolution ==> s.model_usable
            && requested != EnhancementStage::Shader,
        decide_spec(s, requested) == EnhancementDecision::Shader ==> s.shader_available,
{
}

/// A failure of the platform player transport.
#[derive(Debug, Clone)]
pub enum PlayerTransportError {
    Unavailable(String),
    Native(String),
    LoadFailed(String),
    InvalidResponse(String),
}

/// The text of a transport failure.
pub open spec fn transport_message_spec(e: PlayerTransportError) -> Seq<char> {
    match e {
        PlayerTransportError::Unavailable(m) => "播放器运行时不可用："@ + m@,
        PlayerTransportError::Native(m) => "播放器原生调用失败："@ + m@,
        PlayerTransportError::LoadFailed(m) => "播放器媒体加载失败："@ + m@,
        PlayerTransportError::InvalidResponse(m) => "播放器返回无效状态："@ + m@,
    }
}

impl PlayerTransportError {
    /// The text of the failure.
    pub fn message(&self) -> (r: String)
        ensures
            r@ == transport_message_spec(*self),
    {
        let (prefix, m) = match self {
            PlayerTransportError::Unavailable(m) => ("播放器运行时不可用：", m),
            PlayerTransportError::Native(m) => ("播放器原生调用失败：", m),
            PlayerTransportError::LoadFailed(m) => ("播放器媒体加载失败：", m),
            PlayerTransportError::InvalidResponse(m) => ("播放器返回无效状态：", m),
        };
        let mut out = chars_of(prefix);
        append_str(&mut out, m.as_str());
        string_of(out.as_slice())
    }
}

/// A refused command result carrying `error`.
pub fn rejected(command_id: &str, error: PlayerError) -> (r: PlayerCommandResult)
    ensures
        r.command_id@ == command_id@,
        !r.accepted,
        r.error == Some(error),
{
    PlayerCommandResult { command_id: String::from_str(command_id), accepted: false, error: Some(error) }
}

/// The refusal of a capability the platform does not have.
pub fn unsupported(command_id: &str, message: String) -> (r: PlayerCommandResult)
    ensures
        r.command_id@ == command_id@,
        !r.accepted,
        r.error matches Some(e) && e.code == PlayerErrorCode::Unsupported && e.message@ == message@
            && !e.recoverable && e.recovery_actions@.len() == 0,
{
    rejected(
        command_id,
        PlayerError {
            code: PlayerErrorCode::Unsupported,
            message,
            recoverable: false,
            recovery_actions: Vec::new(),
        },
    )
}

/// The error of an invalid command: recoverable by retrying.
pub fn invalid_command(message: String) -> (r: PlayerError)
    ensures
        r.code == PlayerErrorCode::Unknown,
        r.message@ == message@,
        r.recoverable,
        r.recovery_actions@ == seq![PlayerRecoveryAction::Retry],
{
    let mut actions: Vec<PlayerRecoveryAction> = Vec::new();
    actions.push(PlayerRecoveryAction::Retry);
    PlayerError { code: PlayerErrorCode::Unknown, message, recoverable: true, recovery_actions: actions }
}

/// The player error of a transport failure: a missing runtime is final; other
/// failures can be retried.
pub fn transport_error(error: PlayerTransportError) -> (r: PlayerError)
    ensures
        r.message@ == transport_message_spec(error),
        r.recoverable == !(error is Unavailable),
        r.code == if error is Unavailable {
            PlayerErrorCode::RuntimeMissing
        } else {
            PlayerErrorCode::Unknown
        },
        r.recovery_actions@ == if error is Unavailable {
            seq![PlayerRecoveryAction::Close]
        } else {
            seq![PlayerRecoveryAction::Retry, PlayerRecoveryAction::Close]
        },
{
    let unavailable = matches!(error, PlayerTransportError::Unavailable(_));
    let message = error.message();
    let mut actions: Vec<PlayerRecoveryAction> = Vec::new();
    if unavailable {
        actions.push(PlayerRecoveryAction::Close);
        PlayerError { code: PlayerErrorCode::RuntimeMissing, message, recoverable: false, recovery_actions: actions }
    } else {
        actions.push(PlayerRecoveryAction::Retry);
        actions.push(PlayerRecoveryAction::Close);
        PlayerError { code: PlayerErrorCode::Unknown, message, recoverable: true, recovery_actions: actions }
    }
}

/// An identifier of commands and sessions: 1 to 160 characters among ASCII letters,
/// digits, `_`, `-`, `.`, and `:` where allowed.
pub open spec fn valid_identifier_spec(s: Seq<char>, allow_colon: bool) -> bool {
    0 < s.len() <= 160 && forall|i: int|
        0 <= i < s.len() ==> (crate::text::is_ascii_alnum(#[trigger] s[i]) || s[i] == '_' || s[i]
            == '-' || s[i] == '.' || (allow_colon && s[i] == ':'))
}

/// Whether `value` is a valid command or session identifier.
pub fn valid_identifier(value: &str, allow_colon: bool) -> (r: bool)
    ensures
        r == valid_identifier_spec(value@, allow_colon),
{
    let v = chars_of(value);
    if v.len() == 0 || v.len() > 160 {
        return false;
    }
    let mut i: usize = 0;
    while i < v.len()
        invariant
            i <= v@.len(),
            v@ == value@,
            forall|k: int|
                0 <= k < i ==> (crate::text::is_ascii_alnum(#[trigger] v@[k]) || v@[k] == '_' || v@[k]
                    == '-' || v@[k] == '.' || (allow_colon && v@[k] == ':')),
        decreases v@.len() - i,
    {
        let c = v[i];
        if !(crate::text::ascii_alnum(c) || c == '_' || c == '-' || c == '.' || (allow_colon && c == ':')) {
            return false;
        }
        i = i + 1;
    }
    true
}

/// The session bookkeeping of the player service: the session that last loaded media,
/// and the sequence number of the last snapshot it reported.
#[derive(Debug, Clone)]
pub struct PlayerSessionGate {
    pub active_session_id: Option<String>,
    pub last_sequence: Option<u64>,
}

/// The active session, as a sequence.
pub open spec fn active_view(g: PlayerSessionGate) -> Option<Seq<char>> {
    match g.active_session_id {
        Some(s) => Some(s@),
        None => None,
    }
}

/// A snapshot is accepted when it belongs to the active session and is newer than the
/// last one accepted.
pub open spec fn snapshot_accepted_spec(g: PlayerSessionGate, session_id: Seq<char>, sequence: u64) -> bool {
    active_view(g) == Some(session_id) && match g.last_sequence {
        Some(last) => last < sequence,
        None => true,
    }
}

impl PlayerSessionGate {
    /// No session yet.
    pub fn new() -> (r: Self)
        ensures
            r.active_session_id is None,
            r.last_sequence is None,
    {
        PlayerSessionGate { active_session_id: None, last_sequence: None }
    }

    fn is_active(&self, session_id: &str) -> (r: bool)
        ensures
            r == (active_view(*self) == Some(session_id@)),
    {
        match &self.active_session_id {
            None => false,
            Some(a) => {
                let x = chars_of(a.as_str());
                let y = chars_of(session_id);
                chars_eq(x.as_slice(), y.as_slice())
            },
        }
    }

    /// A load may come from any session; every other command only from the active one.
    pub fn admits_command(&self, session_id: &str, is_load: bool) -> (r: bool)
        ensures
            r == (is_load || active_view(*self) == Some(session_id@)),
    {
        is_load || self.is_active(session_id)
    }

    /// Records an accepted load: its session becomes active, with no snapshot yet.
    pub fn record_load(&mut self, session_id: String)
        ensures
            active_view(*final(self)) == Some(session_id@),
            final(self).last_sequence is None,
    {
        self.active_session_id = Some(session_id);
        self.last_sequence = None;
    }

    /// Offers a snapshot; accepts and records it only if it is the active session's and
    /// newer than the last, so that the state never goes back after switching episodes.
    pub fn offer_snapshot(&mut self, session_id: &str, sequence: u64) -> (r: bool)
        ensures
            r == snapshot_accepted_spec(*old(self), session_id@, sequence),
            r ==> active_view(*final(self)) == active_view(*old(self)) && final(self).last_sequence
                == Some(sequence),
            !r ==> active_view(*final(self)) == active_view(*old(self)) && final(self).last_sequence
                == old(self).last_sequence,
    {
        if !self.is_active(session_id) {
            return false;
        }
        let newer = match self.last_sequence {
            Some(last) => last < sequence,
            None => true,
        };
        if newer {
            self.last_sequence = Some(sequence);
        }
        newer
    }

    /// Forgets the session, as shutting the player down does.
    pub fn clear(&mut self)
        ensures
            final(self).active_session_id is None,
            final(self).last_sequence is None,
    {
        self.active_session_id = None;
        self.last_sequence = None;
    }
}

/// Within one session, the accepted snapshots have strictly increasing sequence numbers:
/// after a snapshot is accepted, an older or equal one of the same session is refused.
pub proof fn lemma_snapshots_monotone(g: PlayerSessionGate, session_id: Seq<char>, first: u64, second: u64) by (nonlinear_arith)
    requires
        snapshot_accepted_spec(g, session_id, first),
        second <= first,
    ensures
        !snapshot_accepted_spec(
            PlayerSessionGate { active_session_id: g.active_session_id, last_sequence: Some(first) },
            session_id,
            second,
        ),
{
}

/// A snapshot of any session other than the active one is refused.
pub proof fn lemma_stale_session_refused(g: PlayerSessionGate, session_id: Seq<char>, sequence: u64)
    requires
        active_view(g) != Some(session_id),
    ensures
        !snapshot_accepted_spec(g, session_id, sequence),
{
}


/// A packed RGB24 video frame.
#[derive(Debug, Clone)]
pub struct RawVideoFrame {
    pub width: u32,
    pub height: u32,
    pub stride: u32,
    pub pts_micros: i64,
    pub data: Vec<u8>,
}

/// Every pixel of the frame lies within its data.
pub open spec fn frame_readable(f: RawVideoFrame) -> bool {
    f.width == 0 || f.height == 0 || (f.height - 1) * f.stride + 3 * f.width <= f.data@.len()
}

/// The byte of colour channel `c` that output pixel (`x`, `y`) takes from the input
/// frame when it is enlarged `scale` times by nearest neighbour.
pub open spec fn upscaled_byte(f: RawVideoFrame, scale: nat, y: int, x: int, c: int) -> u8 {
    f.data@[(y / scale as int) * f.stride + (x / scale as int) * 3 + c]
}

/// Why an enlargement by `scale` cannot be represented, if it cannot.
pub open spec fn upscale_overflow(f: RawVideoFrame, scale: u32) -> Option<Seq<char>> {
    if f.width * scale > u32::MAX {
        Some("降级输出宽度溢出"@)
    } else if f.height * scale > u32::MAX {
        Some("降级输出高度溢出"@)
    } else if f.width * scale * 3 > u32::MAX {
        Some("降级输出步长溢出"@)
    } else if f.width * scale * 3 * (f.height * scale) > usize::MAX {
        Some("降级输出帧大小溢出"@)
    } else {
        None
    }
}

proof fn lemma_cell_below_next_row(y: int, x: int, c: int, os: int, ow: int)
    requires
        0 <= y,
        0 <= x < ow,
        0 <= c < 3,
        os == 3 * ow,
    ensures
        y * os + x * 3 + c < (y + 1) * os,
{
    assert((y + 1) * os == y * os + os) by (nonlinear_arith);
}

proof fn lemma_rows_ordered(a: int, b: int, os: int) by (nonlinear_arith)
    requires
        0 <= a <= b,
        0 <= os,
    ensures
        a * os <= b * os,
{
}

proof fn lemma_source_in_range(o: int, scale: int, n: int) by (nonlinear_arith)
    requires
        0 <= o < n * scale,
        scale > 0,
        n >= 0,
    ensures
        o / scale < n,
        0 <= o / scale,
{
}

/// Enlarges an RGB24 frame `scale` times by repeating pixels, for when the model
/// enhancer is not available; sizes that do not fit are refused and the frame is given
/// back.
pub fn upscale_rgb24_nearest(frame: RawVideoFrame, scale: u32) -> (r: Result<RawVideoFrame, (RawVideoFrame, String)>)
    requires
        frame_readable(frame),
    ensures
        match r {
            Ok(o) => upscale_overflow(frame, scale) is None && o.width == frame.width * scale
                && o.height == frame.height * scale && o.stride == o.width * 3 && o.pts_micros
                == frame.pts_micros && o.data@.len() == o.stride * o.height && forall|y: int, x: int, c: int|
                0 <= y < o.height && 0 <= x < o.width && 0 <= c < 3 ==> #[trigger] o.data@[y * o.stride + x * 3 + c]
                    == upscaled_byte(frame, scale as nat, y, x, c),
            Err((f, m)) => f == frame && upscale_overflow(frame, scale) == Some(m@),
        },
{
    let output_width = match frame.width.checked_mul(scale) {
        Some(w) => w,
        None => {
            return Err((frame, String::from_str("降级输出宽度溢出")));
        },
    };
    let output_height = match frame.height.checked_mul(scale) {
        Some(h) => h,
        None => {
            return Err((frame, String::from_str("降级输出高度溢出")));
        },
    };
    let output_stride = match output_width.checked_mul(3) {
        Some(s) => s,
        None => {
            return Err((frame, String::from_str("降级输出步长溢出")));
        },
    };
    let ow = output_width as usize;
    let oh = output_height as usize;
    let os = output_stride as usize;
    let output_len = match os.checked_mul(oh) {
        Some(n) => n,
        None => {
            return Err((frame, String::from_str("降级输出帧大小溢出")));
        },
    };
    let sc = scale as usize;
    let in_stride = frame.stride as usize;
    let in_len = frame.data.len();
    let ghost f = frame;
    let mut data: Vec<u8> = Vec::new();
    let mut oy: usize = 0;
    while oy < oh
        invariant
            f == frame,
            frame_readable(frame),
            ow == frame.width * scale,
            oh == frame.height * scale,
            os == ow * 3,
            output_len == os * oh,
            sc == scale,
            in_stride == frame.stride,
            in_len == frame.data@.len(),
            oy <= oh,
            data@.len() == oy * os,
            forall|y: int, x: int, c: int|
                0 <= y < oy && 0 <= x < ow && 0 <= c < 3 ==> #[trigger] data@[y * os + x * 3 + c]
                    == upscaled_byte(frame, scale as nat, y, x, c),
        decreases oh - oy,
    {
        proof {
            lemma_source_in_range(oy as int, sc as int, frame.height as int);
        }
        let iy = oy / sc;
        let mut ox: usize = 0;
        proof {
            lemma_rows_ordered(oy as int, oy as int + 1, os as int);
            lemma_rows_ordered(oy as int + 1, oh as int, os as int);
        }
        while ox < ow
            invariant
                f == frame,
                frame_readable(frame),
                ow == frame.width * scale,
                oh == frame.height * scale,
                os == ow * 3,
                output_len == os * oh,
                sc == scale,
                sc > 0,
                in_stride == frame.stride,
                in_len == frame.data@.len(),
                oy < oh,
                iy == oy / sc,
                iy < frame.height,
                (oy + 1) * os <= oh * os,
                ox <= ow,
                data@.len() == oy * os + ox * 3,
                forall|y: int, x: int, c: int|
                    0 <= y < oy && 0 <= x < ow && 0 <= c < 3 ==> #[trigger] data@[y * os + x * 3 + c]
                        == upscaled_byte(frame, scale as nat, y, x, c),
                forall|x: int, c: int|
                    0 <= x < ox && 0 <= c < 3 ==> #[trigger] data@[oy * os + x * 3 + c]
                        == upscaled_byte(frame, scale as nat, oy as int, x, c),
            decreases ow - ox,
        {
            proof {
                lemma_source_in_range(ox as int, sc as int, frame.width as int);
                lemma_rows_ordered(iy as int, frame.height - 1, in_stride as int);
                assert(frame.width > 0 && frame.height > 0);
                assert((frame.height - 1) * frame.stride + 3 * frame.width <= in_len);
            }
            let ix = ox / sc;
            let base = iy * in_stride + ix * 3;
            let ghost before = data@;
            data.push(frame.data[base]);
            data.push(frame.data[base + 1]);
            data.push(frame.data[base + 2]);
            proof {
                assert forall|y: int, x: int, c: int|
                    0 <= y < oy && 0 <= x < ow && 0 <= c < 3 implies #[trigger] data@[y * os + x * 3 + c]
                        == upscaled_byte(frame, scale as nat, y, x, c) by {
                    lemma_cell_below_next_row(y, x, c, os as int, ow as int);
                    lemma_rows_ordered(y + 1, oy as int, os as int);
                    assert(before[y * os + x * 3 + c] == upscaled_byte(frame, scale as nat, y, x, c));
                }
                assert forall|x: int, c: int|
                    0 <= x < ox + 1 && 0 <= c < 3 implies #[trigger] data@[oy * os + x * 3 + c]
                        == upscaled_byte(frame, scale as nat, oy as int, x, c) by {
                    if x < ox {
                        assert(before[oy * os + x * 3 + c] == upscaled_byte(frame, scale as nat, oy as int, x, c));
                    } else {
                        assert(x == ox);
                        assert(oy * os + x * 3 + c == before.len() + c);
                    }
                }
            }
            ox = ox + 1;
        }
        proof {
            assert((oy + 1) * os == oy * os + os) by (nonlinear_arith);
        }
        oy = oy + 1;
        proof {
            assert forall|y: int, x: int, c: int|
                0 <= y < oy && 0 <= x < ow && 0 <= c < 3 implies #[trigger] data@[y * os + x * 3 + c]
                    == upscaled_byte(frame, scale as nat, y, x, c) by {
                if y == oy - 1 {
                } else {
                }
            }
        }
    }
    let out = RawVideoFrame {
        width: output_width,
        height: output_height,
        stride: output_stride,
        pts_micros: frame.pts_micros,
        data,
    };
    proof {
        assert(oh * os == os * oh) by (nonlinear_arith);
        assert forall|y: int, x: int, c: int|
            0 <= y < out.height && 0 <= x < out.width && 0 <= c < 3 implies #[trigger] out.data@[y * out.stride + x * 3 + c]
                == upscaled_byte(frame, scale as nat, y, x, c) by {
            assert(out.data@[y * os + x * 3 + c] == upscaled_byte(frame, scale as nat, y, x, c));
        }
    }
    Ok(out)
}


/// The exact value `mantissa * 2^exponent` of a finite double the host holds.
#[derive(Debug, Clone, Copy, PartialEq, Eq, Structural)]
pub struct ExactValue {
    pub mantissa: i64,
    pub exponent: i32,
}

/// The value of a frame time as `(m, e)`, meaning `m * 2^e`.
pub open spec fn exact_value(t: ExactValue) -> (int, int) {
    (t.mantissa as int, t.exponent as int)
}

/// The budget of one enhancement pass: the frame time to meet and the one the model
/// needs (`None` for a value that is not finite), and the video memory at hand and
/// the one the model needs.
#[derive(Debug, Clone, Copy, PartialEq, Eq, Structural)]
pub struct EnhancementBudget {
    pub target_frame_time_ms: Option<ExactValue>,
    pub estimated_frame_time_ms: Option<ExactValue>,
    pub available_vram_bytes: u64,
    pub required_vram_bytes: u64,
}

/// Whether a model runs within its budget: both frame times finite, the target
/// positive, the estimate within the target, and enough video memory.
pub open spec fn budget_fits(b: EnhancementBudget) -> bool {
    match (b.target_frame_time_ms, b.estimated_frame_time_ms) {
        (Some(target), Some(estimate)) => !dyadic_le(exact_value(target), (0, 0)) && dyadic_le(
            exact_value(estimate),
            exact_value(target),
        ) && b.required_vram_bytes <= b.available_vram_bytes,
        _ => false,
    }
}

impl EnhancementBudget {
    /// Whether the model can run within the frame time and video memory budgets.
    pub fn fits(&self) -> (r: bool)
        ensures
            r == budget_fits(*self),
    {
        match (self.target_frame_time_ms, self.estimated_frame_time_ms) {
            (Some(target), Some(estimate)) => {
                let t_m = target.mantissa as i128;
                let t_e = target.exponent as i64;
                !dyadic_le_exec(t_m, t_e, 0, 0) && dyadic_le_exec(estimate.mantissa as i128, estimate.exponent as i64, t_m, t_e)
                    && self.required_vram_bytes <= self.available_vram_bytes
            },
            _ => false,
        }
    }
}

/// The manifest of a model's weights: its identity, digest, input size and budget.
#[derive(Debug, Clone)]
pub struct EnhancementModelManifest {
    pub model_id: String,
    pub backend: String,
    pub weight_sha256: String,
    pub input_width: u32,
    pub input_height: u32,
    pub required_vram_bytes: u64,
    pub estimated_frame_time_ms: u32,
}

/// The budget a manifest asks of a session.
pub open spec fn manifest_budget(m: EnhancementModelManifest, available_vram_bytes: u64, target: Option<ExactValue>) -> EnhancementBudget {
    EnhancementBudget {
        target_frame_time_ms: target,
        estimated_frame_time_ms: Some(ExactValue { mantissa: m.estimated_frame_time_ms as i64, exponent: 0 }),
        available_vram_bytes,
        required_vram_bytes: m.required_vram_bytes,
    }
}

/// Why a model may not be enabled, if it may not: a blank identity or backend, an
/// empty input size, a malformed digest, or a budget the session cannot meet.
pub open spec fn manifest_problem(m: EnhancementModelManifest, available_vram_bytes: u64, target: Option<ExactValue>) -> Option<Seq<char>> {
    if trim(m.model_id@).len() == 0 || trim(m.backend@).len() == 0 {
        Some("模型标识或推理后端为空"@)
    } else if m.input_width == 0 || m.input_height == 0 {
        Some("模型输入尺寸无效"@)
    } else if !is_sha256_text_spec(m.weight_sha256@) {
        Some("模型权重 SHA-256 摘要无效"@)
    } else if !budget_fits(manifest_budget(m, available_vram_bytes, target)) {
        Some("模型超出当前帧时间或显存预算"@)
    } else {
        None
    }
}

/// Checks a model manifest against the session's budget; a model that fails stays off.
pub fn validate_model_manifest(manifest: &EnhancementModelManifest, available_vram_bytes: u64, target_frame_time_ms: Option<ExactValue>) -> (r: Result<(), String>)
    ensures
        match r {
            Ok(()) => manifest_problem(*manifest, available_vram_bytes, target_frame_time_ms) is None,
            Err(e) => manifest_problem(*manifest, available_vram_bytes, target_frame_time_ms) == Some(e@),
        },
{
    if trim_chars(chars_of(manifest.model_id.as_str()).as_slice()).len() == 0 || trim_chars(chars_of(manifest.backend.as_str()).as_slice()).len() == 0 {
        return Err(String::from_str("模型标识或推理后端为空"));
    }
    if manifest.input_width == 0 || manifest.input_height == 0 {
        return Err(String::from_str("模型输入尺寸无效"));
    }
    if !is_sha256_text(manifest.weight_sha256.as_str()) {
        return Err(String::from_str("模型权重 SHA-256 摘要无效"));
    }
    let budget = EnhancementBudget {
        target_frame_time_ms,
        estimated_frame_time_ms: Some(ExactValue { mantissa: manifest.estimated_frame_time_ms as i64, exponent: 0 }),
        available_vram_bytes,
        required_vram_bytes: manifest.required_vram_bytes,
    };
    if !budget.fits() {
        return Err(String::from_str("模型超出当前帧时间或显存预算"));
    }
    Ok(())
}


/// What the command check reads of a command's action, each double given exactly
/// (`None` for a value that is not finite). A `Load` without a start position has
/// `start_position_seconds` set to `None`.
#[derive(Debug)]
pub enum CommandCheck {
    Load { task_id: String, title: String, uri: String, start_position_seconds: Option<Option<ExactValue>> },
    Seek { position_seconds: Option<ExactValue> },
    SetVolume { volume: Option<ExactValue> },
    SetRate { rate: Option<ExactValue> },
    SelectAudioTrack { track_id: String },
    SelectSubtitleTrack { track_id: Option<String> },
    SetSubtitleScale { subtitle_scale: u16 },
    SetCustomAspectRatio { value: Option<String> },
    Other,
}

/// Whether two exact values are equal.
pub open spec fn exact_eq(a: (int, int), b: (int, int)) -> bool {
    dyadic_le(a, b) && dyadic_le(b, a)
}

/// The playback rates a player offers: 0.5, 0.75, 1, 1.25, 1.5 and 2.
pub open spec fn playback_rate_allowed(r: (int, int)) -> bool {
    exact_eq(r, (1, -1)) || exact_eq(r, (3, -2)) || exact_eq(r, (1, 0)) || exact_eq(r, (5, -2)) || exact_eq(r, (3, -1))
        || exact_eq(r, (1, 1))
}

/// The subtitle scales a player offers, in percent.
pub open spec fn subtitle_scale_allowed(scale: u16) -> bool {
    scale == 100 || scale == 125 || scale == 150 || scale == 175 || scale == 200
}

/// Whether a time is finite and not negative.
pub open spec fn time_ok(v: Option<ExactValue>) -> bool {
    v matches Some(x) && dyadic_le((0, 0), exact_value(x))
}

/// Whether a text reads as `i32::from_str` reads it.
pub open spec fn parses_as_i32(s: Seq<char>) -> bool {
    parse_i64_spec(s) matches Some(v) && i32::MIN <= v <= i32::MAX
}

/// Why a command is invalid, if it is: bad identifiers, then the action's own values.
pub open spec fn command_problem(command_id: Seq<char>, session_id: Seq<char>, action: CommandCheck) -> Option<Seq<char>> {
    if !valid_identifier_spec(command_id, true) || !valid_identifier_spec(session_id, false) {
        Some("播放器命令或会话标识无效"@)
    } else {
        match action {
            CommandCheck::Load { task_id, title, uri, start_position_seconds } => if trim(task_id@).len() == 0
                || trim(title@).len() == 0 || trim(uri@).len() == 0 || (start_position_seconds matches Some(p) && !time_ok(p)) {
                Some("媒体资源参数无效"@)
            } else {
                None
            },
            CommandCheck::Seek { position_seconds } => if time_ok(position_seconds) {
                None
            } else {
                Some("跳转时间无效"@)
            },
            CommandCheck::SetVolume { volume } => if volume matches Some(x) && dyadic_le((0, 0), exact_value(x)) && dyadic_le(exact_value(x), (1, 0)) {
                None
            } else {
                Some("音量参数无效"@)
            },
            CommandCheck::SetRate { rate } => if rate matches Some(x) && playback_rate_allowed(exact_value(x)) {
                None
            } else {
                Some("播放倍速无效"@)
            },
            CommandCheck::SelectAudioTrack { track_id } => if parses_as_i32(track_id@) {
                None
            } else {
                Some("音轨标识无效"@)
            },
            CommandCheck::SelectSubtitleTrack { track_id } => match track_id {
                Some(t) => if parses_as_i32(t@) || valid_identifier_spec(t@, true) {
                    None
                } else {
                    Some("字幕轨标识无效"@)
                },
                None => None,
            },
            CommandCheck::SetSubtitleScale { subtitle_scale } => if subtitle_scale_allowed(subtitle_scale) {
                None
            } else {
                Some("字幕缩放比例无效"@)
            },
            CommandCheck::SetCustomAspectRatio { value } => match value {
                Some(v) => if v@.len() == 0 {
                    Some("自定义画面比例无效"@)
                } else {
                    None
                },
                None => Some("自定义画面比例无效"@),
            },
            CommandCheck::Other => None,
        }
    }
}

fn exact_eq_exec(x: ExactValue, m: i128, e: i64) -> (r: bool)
    requires
        -0x1_0000_0000_0000_0000 < m < 0x1_0000_0000_0000_0000,
        -0x1_0000_0000 < e < 0x1_0000_0000,
    ensures
        r == exact_eq(exact_value(x), (m as int, e as int)),
{
    dyadic_le_exec(x.mantissa as i128, x.exponent as i64, m, e) && dyadic_le_exec(m, e, x.mantissa as i128, x.exponent as i64)
}

fn time_ok_exec(v: Option<ExactValue>) -> (r: bool)
    ensures
        r == time_ok(v),
{
    match v {
        Some(x) => dyadic_le_exec(0, 0, x.mantissa as i128, x.exponent as i64),
        None => false,
    }
}

fn parses_i32(s: &str) -> (r: bool)
    ensures
        r == parses_as_i32(s@),
{
    match parse_i64(chars_of(s).as_slice()) {
        Some(v) => -2147483648 <= v && v <= 2147483647,
        None => false,
    }
}

fn blank(s: &String) -> (r: bool)
    ensures
        r == (trim(s@).len() == 0),
{
    trim_chars(chars_of(s.as_str()).as_slice()).len() == 0
}

/// Checks a command's identifiers and values; `None` when it may be sent to the
/// player.
pub fn validate_command(command_id: &str, session_id: &str, action: &CommandCheck) -> (r: Option<PlayerError>)
    ensures
        match r {
            Some(e) => command_problem(command_id@, session_id@, *action) == Some(e.message@) && e.code == PlayerErrorCode::Unknown
                && e.recoverable && e.recovery_actions@ == seq![PlayerRecoveryAction::Retry],
            None => command_problem(command_id@, session_id@, *action) is None,
        },
{
    if !valid_identifier(command_id, true) || !valid_identifier(session_id, false) {
        return Some(invalid_command(String::from_str("播放器命令或会话标识无效")));
    }
    let problem: Option<&str> = match action {
        CommandCheck::Load { task_id, title, uri, start_position_seconds } => {
            let bad_start = match start_position_seconds {
                Some(p) => !time_ok_exec(*p),
                None => false,
            };
            if blank(task_id) || blank(title) || blank(uri) || bad_start {
                Some("媒体资源参数无效")
            } else {
                None
            }
        },
        CommandCheck::Seek { position_seconds } => if time_ok_exec(*position_seconds) {
            None
        } else {
            Some("跳转时间无效")
        },
        CommandCheck::SetVolume { volume } => {
            let ok = match volume {
                Some(x) => dyadic_le_exec(0, 0, x.mantissa as i128, x.exponent as i64) && dyadic_le_exec(x.mantissa as i128, x.exponent as i64, 1, 0),
                None => false,
            };
            if ok {
                None
            } else {
                Some("音量参数无效")
            }
        },
        CommandCheck::SetRate { rate } => {
            let ok = match rate {
                Some(x) => exact_eq_exec(*x, 1, -1) || exact_eq_exec(*x, 3, -2) || exact_eq_exec(*x, 1, 0) || exact_eq_exec(*x, 5, -2)
                    || exact_eq_exec(*x, 3, -1) || exact_eq_exec(*x, 1, 1),
                None => false,
            };
            if ok {
                None
            } else {
                Some("播放倍速无效")
            }
        },
        CommandCheck::SelectAudioTrack { track_id } => if parses_i32(track_id.as_str()) {
            None
        } else {
            Some("音轨标识无效")
        },
        CommandCheck::SelectSubtitleTrack { track_id } => match track_id {
            Some(t) => if parses_i32(t.as_str()) || valid_identifier(t.as_str(), true) {
                None
            } else {
                Some("字幕轨标识无效")
            },
            None => None,
        },
        CommandCheck::SetSubtitleScale { subtitle_scale } => {
            let s = *subtitle_scale;
            if s == 100 || s == 125 || s == 150 || s == 175 || s == 200 {
                None
            } else {
                Some("字幕缩放比例无效")
            }
        },
        CommandCheck::SetCustomAspectRatio { value } => match value {
            Some(v) => if v.as_str().is_empty() {
                Some("自定义画面比例无效")
            } else {
                None
            },
            None => Some("自定义画面比例无效"),
        },
        CommandCheck::Other => None,
    };
    match problem {
        Some(m) => Some(invalid_command(String::from_str(m))),
        None => None,
    }
}


/// Whether a command loads media.
pub open spec fn is_load_check(action: CommandCheck) -> bool {
    action is Load
}

/// Refuses a command before it reaches the player, if it must be refused: an invalid
/// command with its reason, or a command other than a load from a session that is not
/// the active one.
pub fn precheck_command(gate: &PlayerSessionGate, command_id: &str, session_id: &str, action: &CommandCheck) -> (r: Option<PlayerCommandResult>)
    ensures
        match r {
            Some(res) => res.command_id@ == command_id@ && !res.accepted && match command_problem(command_id@, session_id@, *action) {
                Some(m) => res.error matches Some(e) && e.message@ == m && e.code == PlayerErrorCode::Unknown && e.recoverable,
                None => !is_load_check(*action) && active_view(*gate) != Some(session_id@) && (res.error matches Some(e)
                    && e.message@ == "播放器会话已切换，请重试"@ && e.code == PlayerErrorCode::Unknown && e.recoverable),
            },
            None => command_problem(command_id@, session_id@, *action) is None && (is_load_check(*action)
                || active_view(*gate) == Some(session_id@)),
        },
{
    if let Some(error) = validate_command(command_id, session_id, action) {
        return Some(rejected(command_id, error));
    }
    let is_load = matches!(action, CommandCheck::Load { .. });
    if !gate.admits_command(session_id, is_load) {
        return Some(rejected(command_id, invalid_command(String::from_str("播放器会话已切换，请重试"))));
    }
    None
}

/// Takes the player's answer to a dispatched command: an accepted load makes its
/// session the active one, with no snapshot yet; otherwise nothing changes.
pub fn after_dispatch(gate: &mut PlayerSessionGate, accepted: bool, is_load: bool, session_id: &str)
    ensures
        accepted && is_load ==> active_view(*final(gate)) == Some(session_id@) && final(gate).last_sequence is None,
        !(accepted && is_load) ==> active_view(*final(gate)) == active_view(*old(gate))
            && final(gate).last_sequence == old(gate).last_sequence,
{
    if accepted && is_load {
        gate.record_load(string_of(chars_of(session_id).as_slice()));
    }
}

} // verus!
