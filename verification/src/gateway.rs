//! Request handling for the remote gateway: listener settings, routing, rate limits,
//! byte ranges, media routes, credentials carried in headers, the renderer entry page
//! and the errors a request is answered with.

use vstd::prelude::*;
use crate::text::{
    decimal, format_decimal,
    append_chars, append_str, ascii_lower, contains, contains_seq, find, find_spec, lemma_find_spec,
    to_ascii_lower,
    string_of,
    all_digits, chars_of, eq_str, ends_with, has_char, has_prefix, has_suffix, is_ascii_alnum,
    ascii_alnum, only_digits, parse_u64, parse_u64_spec, slice_vec, split_once, split_once_spec,
    starts_with, split_chars, split_on, trim, trim_chars,
};
use vstd::utf8::{decode_utf8, encode_utf8, valid_utf8};
use crate::rpc::RemoteRpcError;
use crate::remote_media::RemoteMediaError;

verus! {

/// Port the gateway listens on unless configured otherwise.
pub const DEFAULT_PORT: u16 = 18083;

/// Listener options of the remote gateway.
#[derive(Debug, Clone, Copy, PartialEq, Eq, Structural)]
pub struct GatewayConfig {
    pub lan_enabled: bool,
    pub port: u16,
}

/// Start-up, stop and configuration failures of the gateway.
#[derive(Debug)]
pub enum RemoteGatewayError {
    Configuration(String),
    Startup(String),
    Credentials(String),
}

impl Default for GatewayConfig {
    fn default() -> (r: Self)
        ensures
            r.lan_enabled,
            r.port == DEFAULT_PORT,
    {
        GatewayConfig { lan_enabled: true, port: DEFAULT_PORT }
    }
}

impl GatewayConfig {
    /// Accepts only unprivileged ports.
    pub fn new(lan_enabled: bool, port: u16) -> (r: Result<Self, RemoteGatewayError>)
        ensures
            port < 1024 <==> r is Err,
            r matches Ok(c) ==> c.lan_enabled == lan_enabled && c.port == port,
            r matches Err(e) ==> e is Configuration,
    {
        if port < 1024 {
            return Err(
                RemoteGatewayError::Configuration(
                    String::from_str("远程网关端口必须为 1024 至 65535"),
                ),
            );
        }
        Ok(GatewayConfig { lan_enabled, port })
    }
}

impl RemoteGatewayError {
    /// The detail text carried by the error.
    pub fn detail(&self) -> (r: &String)
        ensures
            r == match self {
                RemoteGatewayError::Configuration(m) => m,
                RemoteGatewayError::Startup(m) => m,
                RemoteGatewayError::Credentials(m) => m,
            },
    {
        match self {
            RemoteGatewayError::Configuration(m) => m,
            RemoteGatewayError::Startup(m) => m,
            RemoteGatewayError::Credentials(m) => m,
        }
    }
}

/// An inclusive byte range of a file.
#[derive(Debug, Clone, Copy, PartialEq, Eq, Structural)]
pub struct ByteRange {
    pub start: u64,
    pub end: u64,
}

/// The range that a single-range `Range` header value asks of a file of `size` bytes.
pub open spec fn byte_range_of(v: Seq<char>, size: u64) -> Option<ByteRange> {
    let prefix = "bytes="@;
    if !has_prefix(v, prefix) {
        None
    } else {
        let rest = v.subrange(prefix.len() as int, v.len() as int);
        if size == 0 || rest.contains(',') {
            None
        } else {
            match split_once_spec(rest, '-') {
                None => None,
                Some((a, b)) => if a.len() == 0 {
                    match parse_u64_spec(b) {
                        None => None,
                        Some(suffix) => if suffix == 0 {
                            None
                        } else {
                            Some(
                                ByteRange {
                                    start: if suffix >= size {
                                        0
                                    } else {
                                        (size - suffix) as u64
                                    },
                                    end: (size - 1) as u64,
                                },
                            )
                        },
                    }
                } else {
                    match parse_u64_spec(a) {
                        None => None,
                        Some(start) => {
                            let end_opt: Option<u64> = if b.len() == 0 {
                                Some((size - 1) as u64)
                            } else {
                                match parse_u64_spec(b) {
                                    Some(e) => Some(
                                        if e < size - 1 {
                                            e
                                        } else {
                                            (size - 1) as u64
                                        },
                                    ),
                                    None => None,
                                }
                            };
                            match end_opt {
                                None => None,
                                Some(end) => if start < size && end >= start {
                                    Some(ByteRange { start, end })
                                } else {
                                    None
                                },
                            }
                        },
                    }
                },
            }
        }
    }
}

/// Parses a single-range HTTP `Range` header; several ranges, empty files and
/// ranges past the end are refused.
pub fn parse_byte_range(value: Option<&str>, size: u64) -> (r: Option<ByteRange>)
    ensures
        r == match value {
            None => None,
            Some(v) => byte_range_of(v@, size),
        },
        r matches Some(b) ==> b.start <= b.end && b.end < size,
{
    let v = match value {
        None => {
            return None;
        },
        Some(v) => chars_of(v),
    };
    let prefix = chars_of("bytes=");
    if !starts_with(v.as_slice(), prefix.as_slice()) {
        return None;
    }
    let rest = slice_vec(v.as_slice(), prefix.len(), v.len());
    if size == 0 || has_char(rest.as_slice(), ',') {
        return None;
    }
    let (a, b) = match split_once(rest.as_slice(), '-') {
        None => {
            return None;
        },
        Some(pair) => pair,
    };
    if a.len() == 0 {
        let suffix = match parse_u64(b.as_slice()) {
            None => {
                return None;
            },
            Some(x) => x,
        };
        if suffix == 0 {
            return None;
        }
        let start = if suffix >= size {
            0
        } else {
            size - suffix
        };
        return Some(ByteRange { start, end: size - 1 });
    }
    let start = match parse_u64(a.as_slice()) {
        None => {
            return None;
        },
        Some(x) => x,
    };
    let end = if b.len() == 0 {
        size - 1
    } else {
        match parse_u64(b.as_slice()) {
            None => {
                return None;
            },
            Some(e) => if e < size - 1 {
                e
            } else {
                size - 1
            },
        }
    };
    if start < size && end >= start {
        Some(ByteRange { start, end })
    } else {
        None
    }
}

/// Characters allowed in session ids and access tokens.
pub open spec fn is_token_char(c: char) -> bool {
    is_ascii_alnum(c) || c == '_' || c == '-'
}

/// `s` is made of token characters only.
pub open spec fn all_token_chars(s: Seq<char>) -> bool {
    forall|i: int| 0 <= i < s.len() ==> is_token_char(#[trigger] s[i])
}

/// Every character of `s` is a token character.
pub fn token_chars_only(s: &[char]) -> (r: bool)
    ensures
        r == all_token_chars(s@),
{
    let mut i: usize = 0;
    while i < s.len()
        invariant
            i <= s@.len(),
            forall|k: int| 0 <= k < i ==> is_token_char(#[trigger] s@[k]),
        decreases s@.len() - i,
    {
        let c = s[i];
        if !(ascii_alnum(c) || c == '_' || c == '-') {
            assert(!is_token_char(s@[i as int]));
            return false;
        }
        i = i + 1;
    }
    true
}

/// A token of exactly `length` token characters.
pub open spec fn is_valid_token(s: Seq<char>, length: nat) -> bool {
    s.len() == length && all_token_chars(s)
}

/// Whether `value` is a token of exactly `length` characters.
pub fn valid_token(value: &str, length: usize) -> (r: bool)
    ensures
        r == is_valid_token(value@, length as nat),
{
    let v = chars_of(value);
    v.len() == length && token_chars_only(v.as_slice())
}

fn token_of_len(v: &[char], length: usize) -> (r: bool)
    ensures
        r == is_valid_token(v@, length as nat),
{
    v.len() == length && token_chars_only(v)
}

/// Names of HLS playlist and segment files.
pub open spec fn is_hls_name_spec(s: Seq<char>) -> bool {
    s == "index.m3u8"@ || {
        let p = "segment-"@;
        let x = ".ts"@;
        has_prefix(s, p) && {
            let rest = s.subrange(p.len() as int, s.len() as int);
            has_suffix(rest, x) && {
                let mid = rest.subrange(0, rest.len() - x.len());
                mid.len() == 6 && all_digits(mid)
            }
        }
    }
}

fn hls_name_chars(v: &[char]) -> (r: bool)
    ensures
        r == is_hls_name_spec(v@),
{
    if eq_str(v, "index.m3u8") {
        return true;
    }
    let p = chars_of("segment-");
    let x = chars_of(".ts");
    if !starts_with(v, p.as_slice()) {
        return false;
    }
    let rest = slice_vec(v, p.len(), v.len());
    if !ends_with(rest.as_slice(), x.as_slice()) {
        return false;
    }
    let mid = slice_vec(rest.as_slice(), 0, rest.len() - x.len());
    mid.len() == 6 && only_digits(mid.as_slice())
}

/// Whether `value` names an HLS playlist or segment.
pub fn is_hls_name(value: &str) -> (r: bool)
    ensures
        r == is_hls_name_spec(value@),
{
    let v = chars_of(value);
    hls_name_chars(v.as_slice())
}

/// Names of extracted subtitle files.
pub open spec fn is_subtitle_name_spec(s: Seq<char>) -> bool {
    let p = "subtitle-"@;
    has_prefix(s, p) && {
        let rest = s.subrange(p.len() as int, s.len() as int);
        (has_suffix(rest, ".ass"@) || has_suffix(rest, ".vtt"@)) && {
            let mid = rest.subrange(0, rest.len() - ".ass"@.len());
            mid.len() == 3 && all_digits(mid)
        }
    }
}

fn subtitle_name_chars(v: &[char]) -> (r: bool)
    ensures
        r == is_subtitle_name_spec(v@),
{
    let p = chars_of("subtitle-");
    if !starts_with(v, p.as_slice()) {
        return false;
    }
    let rest = slice_vec(v, p.len(), v.len());
    let ass = chars_of(".ass");
    let vtt = chars_of(".vtt");
    proof {
        reveal_strlit(".ass");
        reveal_strlit(".vtt");
    }
    if !(ends_with(rest.as_slice(), ass.as_slice()) || ends_with(rest.as_slice(), vtt.as_slice())) {
        return false;
    }
    let mid = slice_vec(rest.as_slice(), 0, rest.len() - ass.len());
    mid.len() == 3 && only_digits(mid.as_slice())
}

/// Whether `value` names an extracted subtitle file.
pub fn is_subtitle_name(value: &str) -> (r: bool)
    ensures
        r == is_subtitle_name_spec(value@),
{
    let v = chars_of(value);
    subtitle_name_chars(v.as_slice())
}


/// Value of an ASCII hexadecimal digit byte.
pub open spec fn hex_value(b: u8) -> Option<u8> {
    if 48 <= b && b <= 57 {
        Some((b - 48) as u8)
    } else if 97 <= b && b <= 102 {
        Some((b - 87) as u8)
    } else if 65 <= b && b <= 70 {
        Some((b - 55) as u8)
    } else {
        None
    }
}

/// Percent-decoding of bytes: every `%` followed by two hexadecimal digits
/// becomes the byte they spell; every other byte is kept.
pub open spec fn percent_decode_spec(b: Seq<u8>) -> Seq<u8>
    decreases b.len(),
{
    if b.len() == 0 {
        Seq::empty()
    } else if b[0] == 37 && b.len() >= 3 && hex_value(b[1]) is Some && hex_value(b[2]) is Some {
        seq![(hex_value(b[1]).unwrap() * 16 + hex_value(b[2]).unwrap()) as u8]
            + percent_decode_spec(b.subrange(3, b.len() as int))
    } else {
        seq![b[0]] + percent_decode_spec(b.subrange(1, b.len() as int))
    }
}

/// Percent-decodes `value` and reads the bytes as UTF-8 (`percent_encoding::percent_decode_str`
/// followed by `decode_utf8`). The contract claims that the bytes decoded are those of
/// `percent_decode_spec`, and that the text is returned exactly when they are valid UTF-8.
#[verifier::external_body]
fn percent_decode_utf8(value: &str) -> (r: Option<String>)
    ensures
        match r {
            Some(t) => valid_utf8(percent_decode_spec(encode_utf8(value@))) && t@ == decode_utf8(
                percent_decode_spec(encode_utf8(value@)),
            ),
            None => !valid_utf8(percent_decode_spec(encode_utf8(value@))),
        },
{
    match percent_encoding::percent_decode_str(value).decode_utf8() {
        Ok(text) => Some(text.into_owned()),
        Err(_) => None,
    }
}

/// The file name that the last segment of an external player URL encodes.
pub open spec fn direct_asset_name_spec(v: Seq<char>) -> Option<Seq<char>> {
    let d = percent_decode_spec(encode_utf8(v));
    if valid_utf8(d) {
        let t = decode_utf8(d);
        if t.len() > 0 && d.len() <= 1024 && t != "."@ && t != ".."@ && !t.contains('/')
            && !t.contains('\\') && !t.contains('\0') {
            Some(t)
        } else {
            None
        }
    } else {
        None
    }
}

/// Decodes the UTF-8 file name in the last segment of an external player URL.
pub fn decode_direct_asset_name(value: &str) -> (r: Option<String>)
    ensures
        match r {
            Some(t) => direct_asset_name_spec(value@) == Some(t@),
            None => direct_asset_name_spec(value@) is None,
        },
{
    broadcast use vstd::utf8::decode_utf8_encode_utf8;

    let decoded = match percent_decode_utf8(value) {
        Some(t) => t,
        None => {
            return None;
        },
    };
    let byte_len = decoded.as_str().as_bytes().len();
    let cs = chars_of(decoded.as_str());
    proof {
        let d = percent_decode_spec(encode_utf8(value@));
        assert(encode_utf8(decode_utf8(d)) == d);
        assert(byte_len == d.len());
    }
    if cs.len() == 0 || byte_len > 1024 || eq_str(cs.as_slice(), ".") || eq_str(cs.as_slice(), "..")
        || has_char(cs.as_slice(), '/') || has_char(cs.as_slice(), '\\') || has_char(
        cs.as_slice(),
        '\0',
    ) {
        return None;
    }
    Some(decoded)
}

/// A browser media route: a session, and the asset asked for, if any.
pub struct BrowserMediaRoute {
    pub session_id: String,
    pub asset_name: Option<String>,
}

/// An external-player media route: the access token, the session and the asset.
pub struct ExternalMediaRoute {
    pub access_token: String,
    pub session_id: String,
    pub asset_name: String,
}

/// The asset part of a browser media route.
pub open spec fn browser_asset_spec(rem: Seq<Seq<char>>) -> Option<Option<Seq<char>>> {
    if rem.len() == 0 {
        Some(None)
    } else if rem.len() == 1 && rem[0] == "file"@ {
        Some(Some("file"@))
    } else if rem.len() == 2 && rem[0] == "hls"@ && is_hls_name_spec(rem[1]) {
        Some(Some(rem[1]))
    } else if rem.len() == 2 && rem[0] == "subtitles"@ && is_subtitle_name_spec(rem[1]) {
        Some(Some(rem[1]))
    } else {
        None
    }
}

/// What `/api/media/sessions/{session}[/file | /hls/{name} | /subtitles/{name}]` names.
pub open spec fn browser_route_spec(path: Seq<char>) -> Option<(Seq<char>, Option<Seq<char>>)> {
    let prefix = "/api/media/sessions/"@;
    if !has_prefix(path, prefix) {
        None
    } else {
        let parts = split_on(path.subrange(prefix.len() as int, path.len() as int), '/');
        if !is_valid_token(parts[0], 32) {
            None
        } else {
            match browser_asset_spec(parts.subrange(1, parts.len() as int)) {
                Some(asset) => Some((parts[0], asset)),
                None => None,
            }
        }
    }
}

fn vec_to_string(v: &Vec<char>) -> (s: String)
    ensures
        s@ == v@,
{
    string_of(v.as_slice())
}

/// Parses a browser media route; extra levels and malformed session ids are refused.
pub fn parse_browser_media_route(path: &str) -> (r: Option<BrowserMediaRoute>)
    ensures
        match r {
            Some(route) => browser_route_spec(path@) == Some(
                (
                    route.session_id@,
                    match route.asset_name {
                        Some(a) => Some(a@),
                        None => None,
                    },
                ),
            ),
            None => browser_route_spec(path@) is None,
        },
{
    let v = chars_of(path);
    let prefix = chars_of("/api/media/sessions/");
    if !starts_with(v.as_slice(), prefix.as_slice()) {
        return None;
    }
    let rest = slice_vec(v.as_slice(), prefix.len(), v.len());
    let parts = split_chars(rest.as_slice(), '/');
    let ghost sp = split_on(rest@, '/');
    proof {
        crate::text::lemma_split_on_len(rest@, '/');
    }
    if !token_of_len(parts[0].as_slice(), 32) {
        return None;
    }
    let session_id = vec_to_string(&parts[0]);
    let n = parts.len();
    let ghost rem = sp.subrange(1, sp.len() as int);
    let asset_name = if n == 1 {
        None
    } else if n == 2 && eq_str(parts[1].as_slice(), "file") {
        Some(String::from_str("file"))
    } else if n == 3 && eq_str(parts[1].as_slice(), "hls") && hls_name_chars(parts[2].as_slice()) {
        Some(vec_to_string(&parts[2]))
    } else if n == 3 && eq_str(parts[1].as_slice(), "subtitles") && subtitle_name_chars(
        parts[2].as_slice(),
    ) {
        Some(vec_to_string(&parts[2]))
    } else {
        return None;
    };
    Some(BrowserMediaRoute { session_id, asset_name })
}

/// The asset part of an external media route.
pub open spec fn external_asset_spec(rem: Seq<Seq<char>>) -> Option<Seq<char>> {
    if rem.len() == 1 && rem[0] == "file"@ {
        Some("file"@)
    } else if rem.len() == 1 {
        direct_asset_name_spec(rem[0])
    } else if rem.len() == 2 && rem[0] == "hls"@ && is_hls_name_spec(rem[1]) {
        Some(rem[1])
    } else if rem.len() == 2 && rem[0] == "subtitles"@ && is_subtitle_name_spec(rem[1]) {
        Some(rem[1])
    } else {
        None
    }
}

/// What `/api/media/external/{token}/sessions/{session}/{asset}` names.
pub open spec fn external_route_spec(path: Seq<char>) -> Option<
    (Seq<char>, Seq<char>, Seq<char>),
> {
    let prefix = "/api/media/external/"@;
    if !has_prefix(path, prefix) {
        None
    } else {
        let parts = split_on(path.subrange(prefix.len() as int, path.len() as int), '/');
        if !is_valid_token(parts[0], 43) || parts.len() < 3 || parts[1] != "sessions"@
            || !is_valid_token(parts[2], 32) {
            None
        } else {
            match external_asset_spec(parts.subrange(3, parts.len() as int)) {
                Some(asset) => Some((parts[0], parts[2], asset)),
                None => None,
            }
        }
    }
}

/// Parses an external-player media route.
pub fn parse_external_media_route(path: &str) -> (r: Option<ExternalMediaRoute>)
    ensures
        match r {
            Some(route) => external_route_spec(path@) == Some(
                (route.access_token@, route.session_id@, route.asset_name@),
            ),
            None => external_route_spec(path@) is None,
        },
{
    let v = chars_of(path);
    let prefix = chars_of("/api/media/external/");
    if !starts_with(v.as_slice(), prefix.as_slice()) {
        return None;
    }
    let rest = slice_vec(v.as_slice(), prefix.len(), v.len());
    let parts = split_chars(rest.as_slice(), '/');
    let ghost sp = split_on(rest@, '/');
    proof {
        crate::text::lemma_split_on_len(rest@, '/');
    }
    let n = parts.len();
    if !token_of_len(parts[0].as_slice(), 43) || n < 3 || !eq_str(parts[1].as_slice(), "sessions")
        || !token_of_len(parts[2].as_slice(), 32) {
        return None;
    }
    let ghost rem = sp.subrange(3, sp.len() as int);
    let asset_name = if n == 4 && eq_str(parts[3].as_slice(), "file") {
        String::from_str("file")
    } else if n == 4 {
        let raw = vec_to_string(&parts[3]);
        match decode_direct_asset_name(raw.as_str()) {
            Some(name) => name,
            None => {
                return None;
            },
        }
    } else if n == 5 && eq_str(parts[3].as_slice(), "hls") && hls_name_chars(parts[4].as_slice()) {
        vec_to_string(&parts[4])
    } else if n == 5 && eq_str(parts[3].as_slice(), "subtitles") && subtitle_name_chars(
        parts[4].as_slice(),
    ) {
        vec_to_string(&parts[4])
    } else {
        return None;
    };
    Some(
        ExternalMediaRoute {
            access_token: vec_to_string(&parts[0]),
            session_id: vec_to_string(&parts[2]),
            asset_name,
        },
    )
}

/// A bearer or cookie credential: between 40 and 80 token characters.
pub open spec fn is_credential(t: Seq<char>) -> bool {
    40 <= t.len() && t.len() <= 80 && all_token_chars(t)
}

/// The credential of an `Authorization: Bearer` header value.
pub open spec fn bearer_token_spec(header: Seq<char>) -> Option<Seq<char>> {
    let p = "Bearer "@;
    if has_prefix(header, p) && is_credential(header.subrange(p.len() as int, header.len() as int)) {
        Some(header.subrange(p.len() as int, header.len() as int))
    } else {
        None
    }
}

fn credential_chars(t: &[char]) -> (r: bool)
    ensures
        r == is_credential(t@),
{
    40 <= t.len() && t.len() <= 80 && token_chars_only(t)
}

/// Reads the bearer credential from the `Authorization` header value, if any.
pub fn bearer_token(authorization: Option<&str>) -> (r: Option<String>)
    ensures
        match authorization {
            None => r is None,
            Some(h) => match r {
                Some(t) => bearer_token_spec(h@) == Some(t@),
                None => bearer_token_spec(h@) is None,
            },
        },
{
    let h = match authorization {
        None => {
            return None;
        },
        Some(h) => chars_of(h),
    };
    let p = chars_of("Bearer ");
    if !starts_with(h.as_slice(), p.as_slice()) {
        return None;
    }
    let token = slice_vec(h.as_slice(), p.len(), h.len());
    if !credential_chars(token.as_slice()) {
        return None;
    }
    Some(string_of(token.as_slice()))
}

/// The media credential of a `Cookie` header value: the first `ani_media_token=` pair
/// decides, and its value must be a credential.
pub open spec fn media_cookie_in(parts: Seq<Seq<char>>) -> Option<Seq<char>>
    decreases parts.len(),
{
    let p = "ani_media_token="@;
    if parts.len() == 0 {
        None
    } else if has_prefix(trim(parts[0]), p) {
        let t = trim(parts[0]).subrange(p.len() as int, trim(parts[0]).len() as int);
        if is_credential(t) {
            Some(t)
        } else {
            None
        }
    } else {
        media_cookie_in(parts.subrange(1, parts.len() as int))
    }
}

/// Reads the media credential from the `Cookie` header value, if any.
pub fn media_cookie(cookie: Option<&str>) -> (r: Option<String>)
    ensures
        match cookie {
            None => r is None,
            Some(h) => match r {
                Some(t) => media_cookie_in(split_on(h@, ';')) == Some(t@),
                None => media_cookie_in(split_on(h@, ';')) is None,
            },
        },
{
    let hs = match cookie {
        None => {
            return None;
        },
        Some(hs) => hs,
    };
    let h = chars_of(hs);
    let parts = split_chars(h.as_slice(), ';');
    let ghost sp = split_on(h@, ';');
    assert(sp.subrange(0, sp.len() as int) =~= sp);
    let p = chars_of("ani_media_token=");
    let mut i: usize = 0;
    while i < parts.len()
        invariant
            i <= parts@.len(),
            parts@.len() == sp.len(),
            forall|k: int| 0 <= k < parts@.len() ==> #[trigger] parts@[k]@ == sp[k],
            p@ == "ani_media_token="@,
            cookie == Some(hs),
            sp == split_on(hs@, ';'),
            media_cookie_in(sp.subrange(i as int, sp.len() as int)) == media_cookie_in(sp),
        decreases parts@.len() - i,
    {
        let part = trim_chars(parts[i].as_slice());
        let ghost tail = sp.subrange(i as int, sp.len() as int);
        assert(tail[0] == sp[i as int]);
        if starts_with(part.as_slice(), p.as_slice()) {
            let token = slice_vec(part.as_slice(), p.len(), part.len());
            if credential_chars(token.as_slice()) {
                return Some(string_of(token.as_slice()));
            }
            return None;
        }
        assert(tail.subrange(1, tail.len() as int) =~= sp.subrange(i + 1, sp.len() as int));
        i = i + 1;
    }
    None
}


/// One `<script ...>` tag with the response nonce added, unless it loads a file or has one.
pub open spec fn nonce_tag(tag: Seq<char>, nonce: Seq<char>) -> Seq<char> {
    let lower = ascii_lower(tag);
    if contains_seq(lower, " src="@) || contains_seq(lower, " nonce="@) {
        tag
    } else {
        tag.drop_last() + " nonce=\""@ + nonce + "\">"@
    }
}

/// `h` with the nonce added to every inline script tag.
pub open spec fn with_script_nonces(h: Seq<char>, nonce: Seq<char>) -> Seq<char>
    decreases h.len(),
{
    match find_spec(ascii_lower(h), "<script"@, 0) {
        None => h,
        Some(start) => match find_spec(h, ">"@, start) {
            None => h,
            Some(end) => {
                proof {
                    reveal_strlit(">");
                    lemma_find_spec(ascii_lower(h), "<script"@, 0);
                    lemma_find_spec(h, ">"@, start);
                }
                h.subrange(0, start) + nonce_tag(h.subrange(start, end + 1), nonce)
                    + with_script_nonces(h.subrange(end + 1, h.len() as int), nonce)
            },
        },
    }
}

/// Adds the response nonce to every inline script tag that has neither `src` nor a nonce.
pub fn add_inline_script_nonce(html: &str, script_nonce: &str) -> (r: String)
    ensures
        r@ == with_script_nonces(html@, script_nonce@),
{
    let h = chars_of(html);
    let n = h.len();
    let script = chars_of("<script");
    let gt = chars_of(">");
    let src = chars_of(" src=");
    let nonce_attr = chars_of(" nonce=");
    let mut out: Vec<char> = Vec::new();
    let mut cursor: usize = 0;
    proof {
        reveal_strlit(">");
        reveal_strlit("<script");
    }
    assert(h@.subrange(0, n as int) =~= h@);
    while cursor < n
        invariant
            n == h@.len(),
            h@ == html@,
            cursor <= n,
            script@ == "<script"@,
            gt@ == ">"@,
            src@ == " src="@,
            nonce_attr@ == " nonce="@,
            out@ + with_script_nonces(h@.subrange(cursor as int, n as int), script_nonce@)
                == with_script_nonces(html@, script_nonce@),
        decreases n - cursor,
    {
        let rest = slice_vec(h.as_slice(), cursor, n);
        let lower = to_ascii_lower(rest.as_slice());
        proof {
            lemma_find_spec(lower@, script@, 0);
        }
        let rs = match find(lower.as_slice(), script.as_slice(), 0) {
            None => {
                append_chars(&mut out, rest.as_slice());
                return string_of(out.as_slice());
            },
            Some(rs) => rs,
        };
        proof {
            reveal_strlit(">");
            lemma_find_spec(rest@, gt@, rs as int);
        }
        let re = match find(rest.as_slice(), gt.as_slice(), rs) {
            None => {
                append_chars(&mut out, rest.as_slice());
                return string_of(out.as_slice());
            },
            Some(re) => re,
        };
        let before = slice_vec(rest.as_slice(), 0, rs);
        append_chars(&mut out, before.as_slice());
        let tag = slice_vec(rest.as_slice(), rs, re + 1);
        let tag_lower = to_ascii_lower(tag.as_slice());
        if contains(tag_lower.as_slice(), src.as_slice()) || contains(
            tag_lower.as_slice(),
            nonce_attr.as_slice(),
        ) {
            append_chars(&mut out, tag.as_slice());
        } else {
            let head = slice_vec(tag.as_slice(), 0, tag.len() - 1);
            append_chars(&mut out, head.as_slice());
            append_str(&mut out, " nonce=\"");
            append_str(&mut out, script_nonce);
            append_str(&mut out, "\">");
        }
        proof {
            assert(rest@.subrange(re + 1, rest@.len() as int) =~= h@.subrange(
                cursor + re + 1,
                n as int,
            ));
            assert(tag@.drop_last() =~= tag@.subrange(0, tag@.len() - 1));
        }
        cursor = cursor + re + 1;
        proof {
            assert(out@ + with_script_nonces(h@.subrange(cursor as int, n as int), script_nonce@)
                =~= with_script_nonces(html@, script_nonce@));
        }
    }
    proof {
        reveal_strlit("<script");
        assert(ascii_lower(Seq::<char>::empty()) =~= Seq::<char>::empty());
        lemma_find_spec(ascii_lower(Seq::<char>::empty()), "<script"@, 0);
        assert(h@.subrange(cursor as int, n as int) =~= Seq::<char>::empty());
        assert(out@ + Seq::<char>::empty() =~= out@);
    }
    string_of(out.as_slice())
}

/// `h` with a root `<base>` element inserted after the head tag, unless it has one.
pub open spec fn with_base_href(h: Seq<char>) -> Seq<char> {
    let lower = ascii_lower(h);
    if contains_seq(lower, "<base"@) {
        h
    } else {
        match find_spec(lower, "<head"@, 0) {
            Some(start) => match find_spec(lower, ">"@, start) {
                Some(e) => h.subrange(0, e + 1) + "\n    <base href=\"/\" />"@ + h.subrange(
                    e + 1,
                    h.len() as int,
                ),
                None => "<base href=\"/\" />"@ + h,
            },
            None => "<base href=\"/\" />"@ + h,
        }
    }
}

/// Gives the remote entry page a root base path and authorises its inline start-up scripts.
pub fn prepare_renderer_entry_html(html: &str, script_nonce: &str) -> (r: String)
    ensures
        r@ == with_script_nonces(with_base_href(html@), script_nonce@),
{
    let h = chars_of(html);
    let n = h.len();
    let lower = to_ascii_lower(h.as_slice());
    assert(lower@.len() == n);
    let base = chars_of("<base");
    let head = chars_of("<head");
    let gt = chars_of(">");
    let mut out: Vec<char> = Vec::new();
    if contains(lower.as_slice(), base.as_slice()) {
        return add_inline_script_nonce(html, script_nonce);
    }
    proof {
        lemma_find_spec(lower@, head@, 0);
    }
    match find(lower.as_slice(), head.as_slice(), 0) {
        Some(start) => {
            proof {
                reveal_strlit(">");
                lemma_find_spec(lower@, gt@, start as int);
            }
            match find(lower.as_slice(), gt.as_slice(), start) {
                Some(e) => {
                    let before = slice_vec(h.as_slice(), 0, e + 1);
                    let after = slice_vec(h.as_slice(), e + 1, n);
                    append_chars(&mut out, before.as_slice());
                    append_str(&mut out, "\n    <base href=\"/\" />");
                    append_chars(&mut out, after.as_slice());
                },
                None => {
                    append_str(&mut out, "<base href=\"/\" />");
                    append_chars(&mut out, h.as_slice());
                },
            }
        },
        None => {
            append_str(&mut out, "<base href=\"/\" />");
            append_chars(&mut out, h.as_slice());
        },
    }
    let with_base = string_of(out.as_slice());
    add_inline_script_nonce(with_base.as_str(), script_nonce)
}

/// The content security policy of the remote app; a nonce authorises the inline scripts
/// of the current entry response.
pub open spec fn content_security_policy_spec(nonce: Option<Seq<char>>) -> Seq<char> {
    let script_source = match nonce {
        None => "script-src 'self'"@,
        Some(n) => "script-src 'self' 'nonce-"@ + n + "'"@,
    };
    "default-src 'self'; "@ + script_source
        + "; style-src 'self' 'unsafe-inline'; img-src 'self' data: https:; connect-src 'self'; media-src 'self' blob:; worker-src 'self' blob:; object-src 'none'; base-uri 'self'; frame-ancestors 'none'"@
}

/// Builds the content security policy of the remote app.
pub fn create_renderer_content_security_policy(script_nonce: Option<&str>) -> (r: String)
    ensures
        r@ == content_security_policy_spec(
            match script_nonce {
                None => None,
                Some(n) => Some(n@),
            },
        ),
{
    let mut out: Vec<char> = Vec::new();
    append_str(&mut out, "default-src 'self'; ");
    match script_nonce {
        None => append_str(&mut out, "script-src 'self'"),
        Some(n) => {
            append_str(&mut out, "script-src 'self' 'nonce-");
            append_str(&mut out, n);
            append_str(&mut out, "'");
        },
    }
    append_str(
        &mut out,
        "; style-src 'self' 'unsafe-inline'; img-src 'self' data: https:; connect-src 'self'; media-src 'self' blob:; worker-src 'self' blob:; object-src 'none'; base-uri 'self'; frame-ancestors 'none'",
    );
    proof {
        match script_nonce {
            None => {},
            Some(n) => {
                assert(out@ =~= "default-src 'self'; "@ + ("script-src 'self' 'nonce-"@ + n@ + "'"@)
                    + "; style-src 'self' 'unsafe-inline'; img-src 'self' data: https:; connect-src 'self'; media-src 'self' blob:; worker-src 'self' blob:; object-src 'none'; base-uri 'self'; frame-ancestors 'none'"@);
            },
        }
    }
    string_of(out.as_slice())
}


/// An error a gateway request is answered with.
#[derive(Debug)]
pub struct GatewayHttpError {
    pub status: u16,
    pub code: &'static str,
    pub message: String,
}

impl GatewayHttpError {
    /// Builds an error from its parts.
    pub fn new(status: u16, code: &'static str, message: String) -> (r: Self)
        ensures
            r.status == status,
            r.code@ == code@,
            r.message@ == message@,
    {
        GatewayHttpError { status, code, message }
    }

    /// The error of an unexpected internal failure.
    pub fn internal() -> (r: Self)
        ensures
            r.status == 500,
            r.code@ == "INTERNAL_ERROR"@,
            r.message@ == "远程服务内部错误"@,
    {
        GatewayHttpError::new(500, "INTERNAL_ERROR", String::from_str("远程服务内部错误"))
    }

    /// The answer to a refused remote procedure call.
    pub fn from_rpc(error: RemoteRpcError) -> (r: Self)
        ensures
            r.status == error.status,
            r.code@ == error.code@,
            r.message@ == error.message@,
    {
        GatewayHttpError::new(error.status, error.code, error.message)
    }

    /// The answer to a refused media request.
    pub fn from_media(error: RemoteMediaError) -> (r: Self)
        ensures
            r.status == error.status,
            r.code@ == error.code@,
            r.message@ == error.message@,
    {
        GatewayHttpError::new(error.status, error.code, error.message)
    }
}

/// The request methods the gateway tells apart.
#[derive(Debug, Clone, Copy, PartialEq, Eq, Structural)]
pub enum HttpMethod {
    Get,
    Head,
    Post,
    Delete,
    Other,
}

/// What a request asks the gateway for.
#[derive(Debug)]
pub enum GatewayRoute {
    Health,
    Certificate,
    Pair,
    Rpc,
    ImageResolve,
    ImageRead { token: String },
    MediaSession { external: bool },
    CloseMediaSession { session_id: String },
    MediaAsset { session_id: String, asset_name: String },
    ExternalMediaAsset { access_token: String, session_id: String, asset_name: String },
    Renderer,
    NotFound,
}

/// A route with its texts read as characters.
pub enum RouteView {
    Health,
    Certificate,
    Pair,
    Rpc,
    ImageResolve,
    ImageRead(Seq<char>),
    MediaSession(bool),
    CloseMediaSession(Seq<char>),
    MediaAsset(Seq<char>, Seq<char>),
    ExternalMediaAsset(Seq<char>, Seq<char>, Seq<char>),
    Renderer,
    NotFound,
}

/// The view of a route.
pub open spec fn route_view(r: GatewayRoute) -> RouteView {
    match r {
        GatewayRoute::Health => RouteView::Health,
        GatewayRoute::Certificate => RouteView::Certificate,
        GatewayRoute::Pair => RouteView::Pair,
        GatewayRoute::Rpc => RouteView::Rpc,
        GatewayRoute::ImageResolve => RouteView::ImageResolve,
        GatewayRoute::ImageRead { token } => RouteView::ImageRead(token@),
        GatewayRoute::MediaSession { external } => RouteView::MediaSession(external),
        GatewayRoute::CloseMediaSession { session_id } => RouteView::CloseMediaSession(session_id@),
        GatewayRoute::MediaAsset { session_id, asset_name } => RouteView::MediaAsset(session_id@, asset_name@),
        GatewayRoute::ExternalMediaAsset { access_token, session_id, asset_name } => RouteView::ExternalMediaAsset(
            access_token@,
            session_id@,
            asset_name@,
        ),
        GatewayRoute::Renderer => RouteView::Renderer,
        GatewayRoute::NotFound => RouteView::NotFound,
    }
}

/// Whether a method reads: `GET` or `HEAD`.
pub open spec fn is_read_method(m: HttpMethod) -> bool {
    m == HttpMethod::Get || m == HttpMethod::Head
}

/// What a request that matched none of the fixed routes asks for: a media asset of an
/// external player, the renderer for any other read, and nothing otherwise.
pub open spec fn fallback_route(method: HttpMethod, path: Seq<char>) -> RouteView {
    if is_read_method(method) {
        match external_route_spec(path) {
            Some(r) => RouteView::ExternalMediaAsset(r.0, r.1, r.2),
            None => RouteView::Renderer,
        }
    } else {
        RouteView::NotFound
    }
}

/// The image token of a path under `/api/images/` without a further `/`.
pub open spec fn image_token(path: Seq<char>) -> Option<Seq<char>> {
    let prefix = "/api/images/"@;
    if has_prefix(path, prefix) && !path.subrange(prefix.len() as int, path.len() as int).contains('/') {
        Some(path.subrange(prefix.len() as int, path.len() as int))
    } else {
        None
    }
}

/// What a request asks for, tried in the gateway's order.
pub open spec fn route_spec(method: HttpMethod, path: Seq<char>) -> RouteView {
    if method == HttpMethod::Get && path == "/api/health"@ {
        RouteView::Health
    } else if method == HttpMethod::Get && path == "/ani-tracker-ca.crt"@ {
        RouteView::Certificate
    } else if method == HttpMethod::Post && path == "/api/pair"@ {
        RouteView::Pair
    } else if method == HttpMethod::Post && path == "/api/rpc"@ {
        RouteView::Rpc
    } else if method == HttpMethod::Post && path == "/api/images/resolve"@ {
        RouteView::ImageResolve
    } else if is_read_method(method) && image_token(path) is Some {
        RouteView::ImageRead(image_token(path)->Some_0)
    } else if method == HttpMethod::Post && (path == "/api/media/sessions"@ || path == "/api/media/external-sessions"@) {
        RouteView::MediaSession(path == "/api/media/external-sessions"@)
    } else {
        match browser_route_spec(path) {
            Some(r) => if method == HttpMethod::Delete && r.1 is None {
                RouteView::CloseMediaSession(r.0)
            } else if is_read_method(method) && r.1 is Some {
                RouteView::MediaAsset(r.0, r.1->Some_0)
            } else {
                fallback_route(method, path)
            },
            None => fallback_route(method, path),
        }
    }
}

fn path_is(v: &Vec<char>, lit: &str) -> (r: bool)
    ensures
        r == (v@ == lit@),
{
    eq_str(v.as_slice(), lit)
}

fn read_method(method: HttpMethod) -> (r: bool)
    ensures
        r == is_read_method(method),
{
    match method {
        HttpMethod::Get => true,
        HttpMethod::Head => true,
        _ => false,
    }
}

fn fallback_route_exec(method: HttpMethod, path: &str) -> (r: GatewayRoute)
    ensures
        route_view(r) == fallback_route(method, path@),
{
    if read_method(method) {
        match parse_external_media_route(path) {
            Some(route) => GatewayRoute::ExternalMediaAsset {
                access_token: route.access_token,
                session_id: route.session_id,
                asset_name: route.asset_name,
            },
            None => GatewayRoute::Renderer,
        }
    } else {
        GatewayRoute::NotFound
    }
}

fn image_token_exec(v: &Vec<char>) -> (r: Option<String>)
    ensures
        match r {
            Some(t) => image_token(v@) == Some(t@),
            None => image_token(v@) is None,
        },
{
    let prefix = chars_of("/api/images/");
    if !starts_with(v.as_slice(), prefix.as_slice()) {
        return None;
    }
    let rest = slice_vec(v.as_slice(), prefix.len(), v.len());
    if has_char(rest.as_slice(), '/') {
        return None;
    }
    Some(string_of(rest.as_slice()))
}

/// Decides what a request asks the gateway for, from its method and path.
pub fn route_request(method: HttpMethod, path: &str) -> (r: GatewayRoute)
    ensures
        route_view(r) == route_spec(method, path@),
{
    let v = chars_of(path);
    if method == HttpMethod::Get && path_is(&v, "/api/health") {
        return GatewayRoute::Health;
    }
    if method == HttpMethod::Get && path_is(&v, "/ani-tracker-ca.crt") {
        return GatewayRoute::Certificate;
    }
    if method == HttpMethod::Post && path_is(&v, "/api/pair") {
        return GatewayRoute::Pair;
    }
    if method == HttpMethod::Post && path_is(&v, "/api/rpc") {
        return GatewayRoute::Rpc;
    }
    if method == HttpMethod::Post && path_is(&v, "/api/images/resolve") {
        return GatewayRoute::ImageResolve;
    }
    if read_method(method) {
        if let Some(token) = image_token_exec(&v) {
            return GatewayRoute::ImageRead { token };
        }
    }
    if method == HttpMethod::Post && (path_is(&v, "/api/media/sessions") || path_is(&v, "/api/media/external-sessions")) {
        return GatewayRoute::MediaSession { external: path_is(&v, "/api/media/external-sessions") };
    }
    match parse_browser_media_route(path) {
        Some(route) => {
            let BrowserMediaRoute { session_id, asset_name } = route;
            match asset_name {
                None => if method == HttpMethod::Delete {
                    GatewayRoute::CloseMediaSession { session_id }
                } else {
                    fallback_route_exec(method, path)
                },
                Some(asset_name) => if read_method(method) {
                    GatewayRoute::MediaAsset { session_id, asset_name }
                } else {
                    fallback_route_exec(method, path)
                },
            }
        },
        None => fallback_route_exec(method, path),
    }
}

/// Whether a pairing code has the accepted form: six ASCII digits.
pub fn pairing_code_valid(code: &str) -> (r: bool)
    ensures
        r == (code@.len() == 6 && all_digits(code@)),
{
    let v = chars_of(code);
    v.len() == 6 && only_digits(v.as_slice())
}

/// The error of a request without valid device credentials.
pub fn unauthorized() -> (r: GatewayHttpError)
    ensures
        r.status == 401,
        r.code@ == "UNAUTHORIZED"@,
        r.message@ == "设备未配对或令牌已失效"@,
{
    GatewayHttpError::new(401, "UNAUTHORIZED", String::from_str("设备未配对或令牌已失效"))
}

/// The device credential a request carries: its bearer token, or, where media
/// cookies are accepted, its media cookie.
pub fn choose_credential(bearer: Option<String>, cookie: Option<String>, allow_cookie: bool) -> (r: Option<String>)
    ensures
        r == (match bearer {
            Some(t) => Some(t),
            None => if allow_cookie {
                cookie
            } else {
                None
            },
        }),
{
    match bearer {
        Some(t) => Some(t),
        None => if allow_cookie {
            cookie
        } else {
            None
        },
    }
}

/// The authority a request names: its HTTP/2 `:authority`, else its `Host` header.
pub fn request_authority(authority: Option<&str>, host: Option<&str>) -> (r: Option<String>)
    ensures
        match r {
            Some(a) => match authority {
                Some(x) => a@ == x@,
                None => host matches Some(h) && a@ == h@,
            },
            None => authority is None && host is None,
        },
{
    match authority {
        Some(a) => Some(String::from_str(a)),
        None => match host {
            Some(h) => Some(String::from_str(h)),
            None => None,
        },
    }
}

/// Checks the length of an image address to resolve: at most 2048 bytes.
pub fn check_image_url(url: &str) -> (r: Result<(), GatewayHttpError>)
    ensures
        match r {
            Ok(()) => encode_utf8(url@).len() <= 2048,
            Err(e) => encode_utf8(url@).len() > 2048 && e.status == 400 && e.code@ == "IMAGE_URL_INVALID"@ && e.message@ == "图片地址无效"@,
        },
{
    if url.as_bytes().len() > 2048 {
        Err(GatewayHttpError::new(400, "IMAGE_URL_INVALID", String::from_str("图片地址无效")))
    } else {
        Ok(())
    }
}

/// The cookie that lets a browser's media player present its device token.
pub open spec fn media_token_cookie_spec(token: Seq<char>, secure: bool) -> Seq<char> {
    "ani_media_token="@ + token + "; HttpOnly; SameSite=Strict; Path=/api/media; Max-Age=2592000"@ + if secure {
        "; Secure"@
    } else {
        Seq::empty()
    }
}

/// Builds the media token cookie; `Secure` is added when the gateway serves HTTPS.
pub fn media_token_cookie(token: &str, secure: bool) -> (r: String)
    ensures
        r@ == media_token_cookie_spec(token@, secure),
{
    let mut v = chars_of("ani_media_token=");
    append_str(&mut v, token);
    append_str(&mut v, "; HttpOnly; SameSite=Strict; Path=/api/media; Max-Age=2592000");
    if secure {
        append_str(&mut v, "; Secure");
    } else {
        assert(v@ + Seq::<char>::empty() =~= v@);
    }
    string_of(v.as_slice())
}

/// The requests a gateway limits, each counted on its own key.
#[derive(Debug, Clone, Copy, PartialEq, Eq, Structural)]
pub enum RateKind {
    Pair,
    RpcRead,
    RpcWrite,
    ImageResolve,
    ImageRead,
    MediaWrite,
    MediaRead,
    ExternalMedia,
}

/// A limit: the key it counts on, the requests allowed, the window in milliseconds.
#[derive(Debug)]
pub struct RateRule {
    pub key: String,
    pub limit: u32,
    pub window_ms: u64,
}

/// The key text before the subject (a device id or a peer address).
pub open spec fn rate_key_prefix(kind: RateKind) -> Seq<char> {
    match kind {
        RateKind::Pair => "pair:"@,
        RateKind::RpcRead => "rpc:"@,
        RateKind::RpcWrite => "rpc:"@,
        RateKind::ImageResolve => "images:"@,
        RateKind::ImageRead => "images:"@,
        RateKind::MediaWrite => "media:"@,
        RateKind::MediaRead => "media:"@,
        RateKind::ExternalMedia => "media:external:"@,
    }
}

/// The key text after the subject.
pub open spec fn rate_key_suffix(kind: RateKind) -> Seq<char> {
    match kind {
        RateKind::Pair => Seq::empty(),
        RateKind::RpcRead => ":read"@,
        RateKind::RpcWrite => ":write"@,
        RateKind::ImageResolve => ":resolve"@,
        RateKind::ImageRead => ":read"@,
        RateKind::MediaWrite => ":write"@,
        RateKind::MediaRead => ":read"@,
        RateKind::ExternalMedia => Seq::empty(),
    }
}

/// The requests allowed per window: pairing 5 per ten minutes; per minute 120 reading
/// and 30 writing calls, 240 image resolutions, 600 image reads, 20 media sessions,
/// 600 media reads and 600 external-player reads.
pub open spec fn rate_limit_of(kind: RateKind) -> (u32, u64) {
    match kind {
        RateKind::Pair => (5, 600_000),
        RateKind::RpcRead => (120, 60_000),
        RateKind::RpcWrite => (30, 60_000),
        RateKind::ImageResolve => (240, 60_000),
        RateKind::ImageRead => (600, 60_000),
        RateKind::MediaWrite => (20, 60_000),
        RateKind::MediaRead => (600, 60_000),
        RateKind::ExternalMedia => (600, 60_000),
    }
}

/// The limit a request of `kind` from `subject` is counted under.
pub fn rate_rule(kind: RateKind, subject: &str) -> (r: RateRule)
    ensures
        r.key@ == rate_key_prefix(kind) + subject@ + rate_key_suffix(kind),
        (r.limit, r.window_ms) == rate_limit_of(kind),
{
    let (prefix, suffix, limit, window_ms): (&str, &str, u32, u64) = match kind {
        RateKind::Pair => ("pair:", "", 5, 600_000),
        RateKind::RpcRead => ("rpc:", ":read", 120, 60_000),
        RateKind::RpcWrite => ("rpc:", ":write", 30, 60_000),
        RateKind::ImageResolve => ("images:", ":resolve", 240, 60_000),
        RateKind::ImageRead => ("images:", ":read", 600, 60_000),
        RateKind::MediaWrite => ("media:", ":write", 20, 60_000),
        RateKind::MediaRead => ("media:", ":read", 600, 60_000),
        RateKind::ExternalMedia => ("media:external:", "", 600, 60_000),
    };
    proof {
        reveal_strlit("");
    }
    let mut v = chars_of(prefix);
    append_str(&mut v, subject);
    append_str(&mut v, suffix);
    RateRule { key: string_of(v.as_slice()), limit, window_ms }
}

/// The count of requests on one key since its window started.
#[derive(Debug, Clone, Copy, PartialEq, Eq, Structural)]
pub struct RateLimitEntry {
    pub started_at_ms: u64,
    pub count: u32,
}

/// The entry a request finds: a new window when there was none or the last one has
/// run out (time that runs backwards counts as none passed), the old one otherwise.
pub open spec fn current_window(entry: Option<RateLimitEntry>, now_ms: u64, window_ms: u64) -> RateLimitEntry {
    match entry {
        None => RateLimitEntry { started_at_ms: now_ms, count: 0 },
        Some(e) => if (if now_ms >= e.started_at_ms { now_ms - e.started_at_ms } else { 0 }) >= window_ms {
            RateLimitEntry { started_at_ms: now_ms, count: 0 }
        } else {
            e
        },
    }
}

/// The entry after one more request: the current window with its count raised by one,
/// saturating.
pub open spec fn rate_next(entry: Option<RateLimitEntry>, now_ms: u64, window_ms: u64) -> RateLimitEntry {
    let c = current_window(entry, now_ms, window_ms);
    RateLimitEntry { started_at_ms: c.started_at_ms, count: if c.count == u32::MAX { u32::MAX } else { (c.count + 1) as u32 } }
}

/// Counts a request on its key's entry; the request is refused once more than `limit`
/// requests fell in the current window.
pub fn consume_rate_limit(entry: Option<RateLimitEntry>, now_ms: u64, limit: u32, window_ms: u64) -> (r: (RateLimitEntry, Result<(), GatewayHttpError>))
    ensures
        r.0 == rate_next(entry, now_ms, window_ms),
        match r.1 {
            Ok(()) => r.0.count <= limit,
            Err(e) => r.0.count > limit && e.status == 429 && e.code@ == "RATE_LIMITED"@ && e.message@ == "请求过于频繁，请稍后重试"@,
        },
{
    let current = match entry {
        None => RateLimitEntry { started_at_ms: now_ms, count: 0 },
        Some(e) => {
            let elapsed = if now_ms >= e.started_at_ms {
                now_ms - e.started_at_ms
            } else {
                0
            };
            if elapsed >= window_ms {
                RateLimitEntry { started_at_ms: now_ms, count: 0 }
            } else {
                e
            }
        },
    };
    let count = current.count.saturating_add(1);
    let next = RateLimitEntry { started_at_ms: current.started_at_ms, count };
    if count > limit {
        (next, Err(GatewayHttpError::new(429, "RATE_LIMITED", String::from_str("请求过于频繁，请稍后重试"))))
    } else {
        (next, Ok(()))
    }
}


/// Once `limit` requests were counted in a window, every further request in that window
/// is refused, and the window keeps its start.
pub proof fn lemma_rate_limit_holds_within_window(e: RateLimitEntry, now_ms: u64, limit: u32, window_ms: u64)
    requires
        e.count >= limit,
        limit < u32::MAX,
        e.started_at_ms <= now_ms,
        now_ms - e.started_at_ms < window_ms,
    ensures
        rate_next(Some(e), now_ms, window_ms).count > limit,
        rate_next(Some(e), now_ms, window_ms).started_at_ms == e.started_at_ms,
        rate_next(Some(e), now_ms, window_ms).count >= e.count,
{
}

/// A window that has run out starts afresh: the next request is the first counted.
pub proof fn lemma_rate_window_resets(e: RateLimitEntry, now_ms: u64, window_ms: u64)
    requires
        e.started_at_ms <= now_ms,
        now_ms - e.started_at_ms >= window_ms,
    ensures
        rate_next(Some(e), now_ms, window_ms) == (RateLimitEntry { started_at_ms: now_ms, count: 1 }),
{
}


/// How a media asset is served for a `Range` header: refused as unsatisfiable, in
/// full, or in part.
#[derive(Debug, Clone, Copy, PartialEq, Eq, Structural)]
pub enum MediaRangePlan {
    Unsatisfiable,
    Full,
    Partial(ByteRange),
}

/// How a media asset of `size` bytes is served: only direct files honour ranges, and
/// a direct file refuses a range header it cannot satisfy.
pub open spec fn media_range_spec(direct: bool, requested: Option<Seq<char>>, size: u64) -> MediaRangePlan {
    if !direct {
        MediaRangePlan::Full
    } else {
        match requested {
            None => MediaRangePlan::Full,
            Some(v) => match byte_range_of(v, size) {
                Some(r) => MediaRangePlan::Partial(r),
                None => MediaRangePlan::Unsatisfiable,
            },
        }
    }
}

/// Decides how a media asset is served for a request's `Range` header.
pub fn plan_media_range(direct: bool, requested_range: Option<&str>, size: u64) -> (r: MediaRangePlan)
    ensures
        r == media_range_spec(direct, match requested_range {
            Some(v) => Some(v@),
            None => None,
        }, size),
        r matches MediaRangePlan::Partial(b) ==> b.start <= b.end < size,
{
    if !direct {
        return MediaRangePlan::Full;
    }
    match requested_range {
        None => MediaRangePlan::Full,
        Some(_) => match parse_byte_range(requested_range, size) {
            Some(r) => MediaRangePlan::Partial(r),
            None => MediaRangePlan::Unsatisfiable,
        },
    }
}

/// The number of bytes a response carries: none for an empty file, the range's bytes
/// for a partial response, the whole file otherwise.
pub fn response_length(range: Option<ByteRange>, size: u64) -> (r: u64)
    requires
        range matches Some(b) ==> b.start <= b.end < size,
    ensures
        r == match range {
            _ if size == 0 => 0,
            Some(b) => (b.end - b.start + 1) as u64,
            None => size,
        },
{
    if size == 0 {
        return 0;
    }
    match range {
        Some(b) => b.end - b.start + 1,
        None => size,
    }
}

/// The `Content-Range` header of a partial response.
pub fn content_range_header(range: ByteRange, size: u64) -> (r: String)
    ensures
        r@ == "bytes "@ + decimal(range.start as nat) + "-"@ + decimal(range.end as nat) + "/"@ + decimal(size as nat),
{
    let mut v = chars_of("bytes ");
    append_chars(&mut v, format_decimal(range.start).as_slice());
    append_str(&mut v, "-");
    append_chars(&mut v, format_decimal(range.end).as_slice());
    append_str(&mut v, "/");
    append_chars(&mut v, format_decimal(size).as_slice());
    string_of(v.as_slice())
}

/// The `Content-Range` header that refuses a range of a file of `size` bytes.
pub fn unsatisfiable_range_header(size: u64) -> (r: String)
    ensures
        r@ == "bytes */"@ + decimal(size as nat),
{
    let mut v = chars_of("bytes */");
    append_chars(&mut v, format_decimal(size).as_slice());
    string_of(v.as_slice())
}

/// An upper-case hexadecimal digit.
pub open spec fn hex_upper(d: int) -> char {
    if d < 10 {
        ('0' as int + d) as char
    } else {
        ('A' as int + d - 10) as char
    }
}

/// Whether a byte is an ASCII letter or digit.
pub open spec fn is_alnum_byte(b: u8) -> bool {
    (48 <= b <= 57) || (65 <= b <= 90) || (97 <= b <= 122)
}

/// Percent-encoding of bytes in which every byte but ASCII letters and digits is
/// written `%XX` with upper-case hexadecimal digits.
pub open spec fn percent_encoded(bytes: Seq<u8>) -> Seq<char>
    decreases bytes.len(),
{
    if bytes.len() == 0 {
        Seq::empty()
    } else {
        let b = bytes.last();
        percent_encoded(bytes.drop_last()) + if is_alnum_byte(b) {
            seq![b as char]
        } else {
            seq!['%', hex_upper(b as int / 16), hex_upper(b as int % 16)]
        }
    }
}

/// `percent_encoding::utf8_percent_encode` with `NON_ALPHANUMERIC`, written out. The
/// contract claims what the crate documents: each byte of the text's UTF-8 that is not
/// an ASCII letter or digit becomes `%` and two upper-case hexadecimal digits.
#[verifier::external_body]
fn percent_encode_text(text: &str) -> (r: String)
    ensures
        r@ == percent_encoded(encode_utf8(text@)),
{
    percent_encoding::utf8_percent_encode(text, percent_encoding::NON_ALPHANUMERIC).to_string()
}

/// The `Content-Disposition` header that names a media file for inline display.
pub fn inline_content_disposition(file_name: &str) -> (r: String)
    ensures
        r@ == "inline; filename*=UTF-8''"@ + percent_encoded(encode_utf8(file_name@)),
{
    let mut v = chars_of("inline; filename*=UTF-8''");
    let encoded = percent_encode_text(file_name);
    append_str(&mut v, encoded.as_str());
    string_of(v.as_slice())
}

/// The text after every leading `/`.
pub open spec fn strip_leading_slashes(s: Seq<char>) -> Seq<char>
    decreases s.len(),
{
    if s.len() > 0 && s[0] == '/' {
        strip_leading_slashes(s.subrange(1, s.len() as int))
    } else {
        s
    }
}

/// The renderer file a path asks for, relative to the renderer directory, or why it is
/// refused: a path that is not percent-encoded UTF-8, or that holds a NUL, a backslash
/// or a `..` segment. The root asks for the entry page.
pub open spec fn renderer_path_spec(raw: Seq<char>) -> Result<Seq<char>, (u16, Seq<char>, Seq<char>)> {
    let bytes = percent_decode_spec(encode_utf8(raw));
    if !valid_utf8(bytes) {
        Err((400u16, "PATH_INVALID"@, "静态资源路径编码无效"@))
    } else {
        let d = decode_utf8(bytes);
        if d.contains('\0') || d.contains('\\') || split_on(d, '/').contains(".."@) {
            Err((403u16, "PATH_FORBIDDEN"@, "静态资源路径无效"@))
        } else {
            let relative = strip_leading_slashes(d);
            Ok(if relative.len() == 0 {
                "index.html"@
            } else {
                relative
            })
        }
    }
}

fn any_dotdot(parts: &Vec<Vec<char>>) -> (r: bool)
    ensures
        r == parts@.map_values(|p: Vec<char>| p@).contains(".."@),
{
    let ghost views = parts@.map_values(|p: Vec<char>| p@);
    let mut i: usize = 0;
    while i < parts.len()
        invariant
            i <= parts@.len(),
            views == parts@.map_values(|p: Vec<char>| p@),
            forall|k: int| 0 <= k < i ==> views[k] != ".."@,
        decreases parts@.len() - i,
    {
        if eq_str(parts[i].as_slice(), "..") {
            assert(views[i as int] == ".."@);
            return true;
        }
        i = i + 1;
    }
    false
}

/// Resolves the renderer file a path asks for.
pub fn renderer_relative_path(raw_path: &str) -> (r: Result<String, GatewayHttpError>)
    ensures
        match r {
            Ok(p) => renderer_path_spec(raw_path@) == Ok::<Seq<char>, (u16, Seq<char>, Seq<char>)>(p@),
            Err(e) => renderer_path_spec(raw_path@) == Err::<Seq<char>, (u16, Seq<char>, Seq<char>)>((e.status, e.code@, e.message@)),
        },
{
    let decoded = match percent_decode_utf8(raw_path) {
        Some(d) => d,
        None => {
            return Err(GatewayHttpError::new(400, "PATH_INVALID", String::from_str("静态资源路径编码无效")));
        },
    };
    let d = chars_of(decoded.as_str());
    let parts = split_chars(d.as_slice(), '/');
    assert(parts@.map_values(|p: Vec<char>| p@) =~= split_on(d@, '/'));
    if has_char(d.as_slice(), '\0') || has_char(d.as_slice(), '\\') || any_dotdot(&parts) {
        return Err(GatewayHttpError::new(403, "PATH_FORBIDDEN", String::from_str("静态资源路径无效")));
    }
    let n = d.len();
    let mut start: usize = 0;
    assert(d@.subrange(0, n as int) =~= d@);
    while start < n && d[start] == '/'
        invariant
            n == d@.len(),
            start <= n,
            strip_leading_slashes(d@.subrange(start as int, n as int)) == strip_leading_slashes(d@),
        decreases n - start,
    {
        assert(d@.subrange(start as int, n as int).subrange(1, (n - start) as int) =~= d@.subrange(start + 1, n as int));
        start = start + 1;
    }
    let relative = slice_vec(d.as_slice(), start, n);
    if relative.len() == 0 {
        Ok(String::from_str("index.html"))
    } else {
        Ok(string_of(relative.as_slice()))
    }
}

/// The caching a renderer file allows: the entry page and the service worker are
/// revalidated, other assets are immutable.
pub fn renderer_cache_control(file_name: Option<&str>) -> (r: &'static str)
    ensures
        r@ == if file_name matches Some(n) && (n@ == "index.html"@ || n@ == "sw.js"@) {
            "no-cache"@
        } else {
            "public, max-age=31536000, immutable"@
        },
{
    match file_name {
        Some(n) => {
            let c = chars_of(n);
            if eq_str(c.as_slice(), "index.html") || eq_str(c.as_slice(), "sw.js") {
                "no-cache"
            } else {
                "public, max-age=31536000, immutable"
            }
        },
        None => "public, max-age=31536000, immutable",
    }
}


/// The headers a media asset is sent with besides the body's own: no caching, byte
/// ranges for direct files, and the file's name for inline display.
pub open spec fn media_extra_headers_spec(direct: bool, file_name: Option<Seq<char>>) -> Seq<(Seq<char>, Seq<char>)> {
    seq![("cache-control"@, "no-store"@)] + (if direct {
        seq![("accept-ranges"@, "bytes"@)]
    } else {
        Seq::empty()
    }) + match file_name {
        Some(n) => seq![("content-disposition"@, "inline; filename*=UTF-8''"@ + percent_encoded(encode_utf8(n)))],
        None => Seq::empty(),
    }
}

/// The headers a media asset is sent with besides the body's own.
pub fn media_extra_headers(direct: bool, file_name: Option<&str>) -> (r: Vec<(String, String)>)
    ensures
        r@.map_values(|h: (String, String)| (h.0@, h.1@)) == media_extra_headers_spec(direct, crate::discovery::opt_view(file_name)),
{
    let mut out: Vec<(String, String)> = Vec::new();
    out.push((String::from_str("cache-control"), String::from_str("no-store")));
    if direct {
        out.push((String::from_str("accept-ranges"), String::from_str("bytes")));
    }
    if let Some(n) = file_name {
        out.push((String::from_str("content-disposition"), inline_content_disposition(n)));
    }
    assert(out@.map_values(|h: (String, String)| (h.0@, h.1@)) =~= media_extra_headers_spec(direct, crate::discovery::opt_view(file_name)));
    out
}

/// The head of a file response: 206 with a `Content-Range` for a range, 200 otherwise,
/// the content type, the length, and `nosniff`.
pub open spec fn file_head_spec(range: Option<ByteRange>, size: u64, content_type: Seq<char>) -> (u16, Seq<(Seq<char>, Seq<char>)>) {
    let length: nat = match range {
        _ if size == 0 => 0,
        Some(b) => (b.end - b.start + 1) as nat,
        None => size as nat,
    };
    let base = seq![
        ("content-type"@, content_type),
        ("content-length"@, decimal(length)),
        ("x-content-type-options"@, "nosniff"@),
    ];
    match range {
        Some(b) => (206, base.push(("content-range"@, "bytes "@ + decimal(b.start as nat) + "-"@ + decimal(b.end as nat) + "/"@ + decimal(size as nat)))),
        None => (200, base),
    }
}

/// The status and headers of a file response, before the asset's extra headers.
pub fn file_response_head(range: Option<ByteRange>, size: u64, content_type: &str) -> (r: (u16, Vec<(String, String)>))
    requires
        range matches Some(b) ==> b.start <= b.end < size,
    ensures
        (r.0, r.1@.map_values(|h: (String, String)| (h.0@, h.1@))) == file_head_spec(range, size, content_type@),
{
    let length = response_length(range, size);
    let mut out: Vec<(String, String)> = Vec::new();
    out.push((String::from_str("content-type"), string_of(chars_of(content_type).as_slice())));
    out.push((String::from_str("content-length"), string_of(format_decimal(length).as_slice())));
    out.push((String::from_str("x-content-type-options"), String::from_str("nosniff")));
    let status: u16 = match range {
        Some(b) => {
            out.push((String::from_str("content-range"), content_range_header(b, size)));
            206
        },
        None => 200,
    };
    assert(out@.map_values(|h: (String, String)| (h.0@, h.1@)) =~= file_head_spec(range, size, content_type@).1);
    (status, out)
}


/// The address and protocol a gateway listens with: every interface over HTTPS when
/// the LAN is on, the loopback over HTTP otherwise.
pub fn listener_binding(lan_enabled: bool) -> (r: (&'static str, &'static str))
    ensures
        r.0@ == (if lan_enabled { "0.0.0.0"@ } else { "127.0.0.1"@ }),
        r.1@ == (if lan_enabled { "https"@ } else { "http"@ }),
{
    if lan_enabled {
        ("0.0.0.0", "https")
    } else {
        ("127.0.0.1", "http")
    }
}

/// The address clients reach a gateway at: its protocol, the first LAN address when
/// the LAN is on (the loopback when none is known or the LAN is off), and its port.
pub open spec fn base_url_spec(protocol: Seq<char>, lan_enabled: bool, first_address: Option<Seq<char>>, port: u16) -> Seq<char> {
    let host = if lan_enabled {
        match first_address {
            Some(a) => a,
            None => "127.0.0.1"@,
        }
    } else {
        "127.0.0.1"@
    };
    protocol + "://"@ + host + ":"@ + decimal(port as nat)
}

/// The address clients reach a gateway at.
pub fn gateway_base_url(protocol: &str, lan_enabled: bool, first_address: Option<&str>, port: u16) -> (r: String)
    ensures
        r@ == base_url_spec(protocol@, lan_enabled, crate::discovery::opt_view(first_address), port),
{
    let host: &str = if lan_enabled {
        match first_address {
            Some(a) => a,
            None => "127.0.0.1",
        }
    } else {
        "127.0.0.1"
    };
    let mut v = chars_of(protocol);
    append_str(&mut v, "://");
    append_str(&mut v, host);
    append_str(&mut v, ":");
    append_chars(&mut v, format_decimal(port as u64).as_slice());
    string_of(v.as_slice())
}


/// The entity tag of a cached image: its cache key in double quotes.
pub fn image_etag(cache_key: &str) -> (r: String)
    ensures
        r@ == seq!['"'] + cache_key@ + seq!['"'],
{
    let mut v: Vec<char> = Vec::new();
    v.push('"');
    append_str(&mut v, cache_key);
    v.push('"');
    string_of(v.as_slice())
}

/// Whether a cached image may be answered with 304: the request's `If-None-Match`
/// is exactly the image's entity tag.
pub fn image_not_modified(if_none_match: Option<&str>, etag: &str) -> (r: bool)
    ensures
        r == (if_none_match matches Some(v) && v@ == etag@),
{
    match if_none_match {
        Some(v) => crate::text::chars_eq(chars_of(v).as_slice(), chars_of(etag).as_slice()),
        None => false,
    }
}

} // verus!
