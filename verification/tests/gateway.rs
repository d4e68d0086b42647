use ani_core::gateway::{image_etag, image_not_modified};
use ani_core::gateway::{gateway_base_url, listener_binding};
use ani_core::gateway::{file_response_head, media_extra_headers};
use ani_core::gateway::{
    add_inline_script_nonce, bearer_token, create_renderer_content_security_policy,
    decode_direct_asset_name, is_hls_name, is_subtitle_name, media_cookie,
    parse_browser_media_route, parse_byte_range, parse_external_media_route,
    prepare_renderer_entry_html, valid_token, ByteRange, GatewayConfig, RemoteGatewayError,
};
use ani_core::gateway::{
    check_image_url, choose_credential, consume_rate_limit, media_token_cookie, pairing_code_valid,
    rate_rule, request_authority, route_request, unauthorized, GatewayHttpError, GatewayRoute,
    HttpMethod, RateKind, RateLimitEntry,
};
use ani_core::gateway::{
    content_range_header, inline_content_disposition, plan_media_range, renderer_cache_control,
    renderer_relative_path, response_length, unsatisfiable_range_header, MediaRangePlan,
};
use ani_core::remote_media::RemoteMediaError;
use ani_core::rpc::RemoteRpcError;

#[test]
fn parses_byte_ranges() {
    assert_eq!(
        parse_byte_range(Some("bytes=10-19"), 100),
        Some(ByteRange { start: 10, end: 19 })
    );
    assert_eq!(
        parse_byte_range(Some("bytes=-10"), 100),
        Some(ByteRange { start: 90, end: 99 })
    );
    assert_eq!(
        parse_byte_range(Some("bytes=95-"), 100),
        Some(ByteRange { start: 95, end: 99 })
    );
    assert_eq!(parse_byte_range(Some("bytes=100-110"), 100), None);
    assert_eq!(parse_byte_range(Some("bytes=0-1,3-4"), 100), None);
}

#[test]
fn parses_fixed_media_routes() {
    let session = "a".repeat(32);
    assert!(parse_browser_media_route(&format!(
        "/api/media/sessions/{session}/hls/segment-000001.ts"
    ))
    .is_some());
    assert!(
        parse_browser_media_route(&format!("/api/media/sessions/{session}/../../secret"))
            .is_none()
    );
    let token = "b".repeat(43);
    assert!(parse_external_media_route(&format!(
        "/api/media/external/{token}/sessions/{session}/file"
    ))
    .is_some());
    let named = parse_external_media_route(&format!(
        "/api/media/external/{token}/sessions/{session}/%E6%B5%8B%E8%AF%95%20SP01.mkv"
    ))
    .expect("named media route");
    assert_eq!(named.asset_name, "测试 SP01.mkv");
}

#[test]
fn byte_range_edges_stay_inside_the_file() {
    assert_eq!(parse_byte_range(None, 100), None);
    assert_eq!(parse_byte_range(Some("bytes=0-0"), 0), None);
    assert_eq!(
        parse_byte_range(Some("bytes=-500"), 100),
        Some(ByteRange { start: 0, end: 99 })
    );
    assert_eq!(parse_byte_range(Some("bytes=-0"), 100), None);
    assert_eq!(
        parse_byte_range(Some("bytes=10-1000"), 100),
        Some(ByteRange { start: 10, end: 99 })
    );
    assert_eq!(parse_byte_range(Some("bytes=20-10"), 100), None);
    assert_eq!(parse_byte_range(Some("bytes=a-10"), 100), None);
    assert_eq!(parse_byte_range(Some("items=0-10"), 100), None);
    assert_eq!(parse_byte_range(Some("bytes=10"), 100), None);
    assert_eq!(
        parse_byte_range(Some("bytes=+5-+9"), 100),
        Some(ByteRange { start: 5, end: 9 })
    );
}

#[test]
fn browser_routes_name_their_assets() {
    let session = "s".repeat(32);
    let route = parse_browser_media_route(&format!("/api/media/sessions/{session}")).unwrap();
    assert_eq!(route.session_id, session);
    assert_eq!(route.asset_name, None);
    let file = parse_browser_media_route(&format!("/api/media/sessions/{session}/file")).unwrap();
    assert_eq!(file.asset_name.as_deref(), Some("file"));
    let sub = parse_browser_media_route(&format!(
        "/api/media/sessions/{session}/subtitles/subtitle-002.vtt"
    ))
    .unwrap();
    assert_eq!(sub.asset_name.as_deref(), Some("subtitle-002.vtt"));
    assert!(parse_browser_media_route(&format!("/api/media/sessions/{}/file", "s".repeat(31))).is_none());
    assert!(parse_browser_media_route("/api/other").is_none());
}

#[test]
fn external_routes_refuse_unsafe_names() {
    let token = "t".repeat(43);
    let session = "s".repeat(32);
    assert!(parse_external_media_route(&format!(
        "/api/media/external/{token}/sessions/{session}/..%2Fx"
    ))
    .is_none());
    assert!(parse_external_media_route(&format!(
        "/api/media/external/{token}/sessions/{session}/%2E%2E"
    ))
    .is_none());
    assert!(parse_external_media_route(&format!(
        "/api/media/external/{token}/other/{session}/file"
    ))
    .is_none());
    let hls = parse_external_media_route(&format!(
        "/api/media/external/{token}/sessions/{session}/hls/index.m3u8"
    ))
    .unwrap();
    assert_eq!(hls.access_token, token);
    assert_eq!(hls.session_id, session);
    assert_eq!(hls.asset_name, "index.m3u8");
}

#[test]
fn decodes_direct_asset_names() {
    assert_eq!(decode_direct_asset_name("a%20b.mkv").as_deref(), Some("a b.mkv"));
    assert_eq!(decode_direct_asset_name("%zz.mkv").as_deref(), Some("%zz.mkv"));
    assert_eq!(decode_direct_asset_name("%FF"), None);
    assert_eq!(decode_direct_asset_name(""), None);
    assert_eq!(decode_direct_asset_name("a%5Cb"), None);
    assert_eq!(decode_direct_asset_name("a%00b"), None);
}

#[test]
fn checks_tokens_and_asset_names() {
    assert!(valid_token("ab_-9", 5));
    assert!(!valid_token("ab_-9", 6));
    assert!(!valid_token("ab.-9", 5));
    assert!(is_hls_name("index.m3u8"));
    assert!(is_hls_name("segment-123456.ts"));
    assert!(!is_hls_name("segment-12345.ts"));
    assert!(!is_hls_name("segment-12345a.ts"));
    assert!(is_subtitle_name("subtitle-001.ass"));
    assert!(is_subtitle_name("subtitle-001.vtt"));
    assert!(!is_subtitle_name("subtitle-001.srt"));
}

#[test]
fn reads_credentials_from_headers() {
    let token = "x".repeat(40);
    assert_eq!(bearer_token(Some(&format!("Bearer {token}"))), Some(token.clone()));
    assert_eq!(bearer_token(Some(&format!("bearer {token}"))), None);
    assert_eq!(bearer_token(Some("Bearer short")), None);
    assert_eq!(bearer_token(None), None);
    assert_eq!(
        media_cookie(Some(&format!("theme=dark; ani_media_token={token}; other=1"))),
        Some(token.clone())
    );
    assert_eq!(media_cookie(Some("ani_media_token=short; ani_media_token=x")), None);
    assert_eq!(media_cookie(Some("theme=dark")), None);
}

#[test]
fn prepares_the_entry_page() {
    let html = "<html><HEAD><title>x</title></head><body><script>boot()</script><script src=\"/a.js\"></script></body></html>";
    let prepared = prepare_renderer_entry_html(html, "n0");
    assert_eq!(
        prepared,
        "<html><HEAD>\n    <base href=\"/\" /><title>x</title></head><body><script nonce=\"n0\">boot()</script><script src=\"/a.js\"></script></body></html>"
    );
    assert_eq!(prepare_renderer_entry_html("<p>x</p>", "n"), "<base href=\"/\" /><p>x</p>");
    assert_eq!(
        prepare_renderer_entry_html("<head><base href=\"/x\"></head>", "n"),
        "<head><base href=\"/x\"></head>"
    );
    assert_eq!(
        add_inline_script_nonce("<script nonce=\"a\">x</script><SCRIPT>y</SCRIPT>", "b"),
        "<script nonce=\"a\">x</script><SCRIPT nonce=\"b\">y</SCRIPT>"
    );
    assert_eq!(add_inline_script_nonce("<script", "b"), "<script");
}

#[test]
fn builds_the_content_security_policy() {
    let with_nonce = create_renderer_content_security_policy(Some("abc"));
    assert!(with_nonce.starts_with("default-src 'self'; script-src 'self' 'nonce-abc'; style-src"));
    assert!(with_nonce.ends_with("frame-ancestors 'none'"));
    let without = create_renderer_content_security_policy(None);
    assert!(without.starts_with("default-src 'self'; script-src 'self'; style-src"));
}

#[test]
fn refuses_privileged_ports() {
    assert!(matches!(GatewayConfig::new(true, 80), Err(RemoteGatewayError::Configuration(_))));
    let config = GatewayConfig::new(false, 1024).unwrap();
    assert_eq!(config, GatewayConfig { lan_enabled: false, port: 1024 });
    assert_eq!(GatewayConfig::default(), GatewayConfig { lan_enabled: true, port: 18083 });
}

#[test]
fn resolves_http2_authority_and_http1_host() {
    assert_eq!(
        request_authority(Some("192.168.60.36:18083"), None).as_deref(),
        Some("192.168.60.36:18083")
    );
    assert_eq!(
        request_authority(None, Some("192.168.60.36:18083")).as_deref(),
        Some("192.168.60.36:18083")
    );
    assert_eq!(
        request_authority(Some("a:1"), Some("b:2")).as_deref(),
        Some("a:1")
    );
    assert_eq!(request_authority(None, None), None);
}

#[test]
fn routes_requests_in_order() {
    assert!(matches!(route_request(HttpMethod::Get, "/api/health"), GatewayRoute::Health));
    assert!(matches!(route_request(HttpMethod::Head, "/api/health"), GatewayRoute::Renderer));
    assert!(matches!(route_request(HttpMethod::Get, "/ani-tracker-ca.crt"), GatewayRoute::Certificate));
    assert!(matches!(route_request(HttpMethod::Post, "/api/pair"), GatewayRoute::Pair));
    assert!(matches!(route_request(HttpMethod::Post, "/api/rpc"), GatewayRoute::Rpc));
    assert!(matches!(route_request(HttpMethod::Get, "/api/rpc"), GatewayRoute::Renderer));
    assert!(matches!(route_request(HttpMethod::Post, "/api/images/resolve"), GatewayRoute::ImageResolve));
    match route_request(HttpMethod::Get, "/api/images/abc123") {
        GatewayRoute::ImageRead { token } => assert_eq!(token, "abc123"),
        _ => panic!("image read"),
    }
    assert!(matches!(route_request(HttpMethod::Get, "/api/images/a/b"), GatewayRoute::Renderer));
    assert!(matches!(
        route_request(HttpMethod::Post, "/api/media/sessions"),
        GatewayRoute::MediaSession { external: false }
    ));
    assert!(matches!(
        route_request(HttpMethod::Post, "/api/media/external-sessions"),
        GatewayRoute::MediaSession { external: true }
    ));
    let session = "0123456789abcdef0123456789abcdef";
    match route_request(HttpMethod::Delete, &format!("/api/media/sessions/{session}")) {
        GatewayRoute::CloseMediaSession { session_id } => assert_eq!(session_id, session),
        _ => panic!("close session"),
    }
    match route_request(HttpMethod::Get, &format!("/api/media/sessions/{session}/hls/index.m3u8")) {
        GatewayRoute::MediaAsset { session_id, asset_name } => {
            assert_eq!(session_id, session);
            assert_eq!(asset_name, "index.m3u8");
        }
        _ => panic!("media asset"),
    }
    assert!(matches!(
        route_request(HttpMethod::Delete, &format!("/api/media/sessions/{session}/file")),
        GatewayRoute::NotFound
    ));
    let token = "A".repeat(43);
    match route_request(HttpMethod::Head, &format!("/api/media/external/{token}/sessions/{session}/file")) {
        GatewayRoute::ExternalMediaAsset { access_token, session_id, asset_name } => {
            assert_eq!(access_token, token);
            assert_eq!(session_id, session);
            assert_eq!(asset_name, "file");
        }
        _ => panic!("external asset"),
    }
    assert!(matches!(route_request(HttpMethod::Get, "/index.html"), GatewayRoute::Renderer));
    assert!(matches!(route_request(HttpMethod::Post, "/index.html"), GatewayRoute::NotFound));
    assert!(matches!(route_request(HttpMethod::Other, "/api/health"), GatewayRoute::NotFound));
}

#[test]
fn limits_requests_per_window() {
    let rule = rate_rule(RateKind::RpcWrite, "device-1");
    assert_eq!(rule.key, "rpc:device-1:write");
    assert_eq!((rule.limit, rule.window_ms), (30, 60_000));
    assert_eq!(rate_rule(RateKind::Pair, "10.0.0.2").key, "pair:10.0.0.2");
    assert_eq!(rate_rule(RateKind::ExternalMedia, "10.0.0.2").key, "media:external:10.0.0.2");
    assert_eq!(rate_rule(RateKind::ImageResolve, "d").key, "images:d:resolve");

    let (first, verdict) = consume_rate_limit(None, 1_000, 2, 60_000);
    assert_eq!(first, RateLimitEntry { started_at_ms: 1_000, count: 1 });
    assert!(verdict.is_ok());
    let (second, verdict) = consume_rate_limit(Some(first), 2_000, 2, 60_000);
    assert_eq!(second.count, 2);
    assert!(verdict.is_ok());
    let (third, verdict) = consume_rate_limit(Some(second), 3_000, 2, 60_000);
    assert_eq!(third.count, 3);
    let refused = verdict.expect_err("third request in the window");
    assert_eq!((refused.status, refused.code), (429, "RATE_LIMITED"));
    assert_eq!(refused.message, "请求过于频繁，请稍后重试");
    let (fresh, verdict) = consume_rate_limit(Some(third), 61_000, 2, 60_000);
    assert_eq!(fresh, RateLimitEntry { started_at_ms: 61_000, count: 1 });
    assert!(verdict.is_ok());
    let (backwards, _) = consume_rate_limit(Some(third), 10, 2, 60_000);
    assert_eq!(backwards, RateLimitEntry { started_at_ms: 1_000, count: 4 });
    let (saturated, verdict) =
        consume_rate_limit(Some(RateLimitEntry { started_at_ms: 0, count: u32::MAX }), 5, u32::MAX, 60_000);
    assert_eq!(saturated.count, u32::MAX);
    assert!(verdict.is_ok());
}

#[test]
fn checks_pairing_codes_cookies_and_credentials() {
    assert!(pairing_code_valid("012345"));
    assert!(!pairing_code_valid("01234"));
    assert!(!pairing_code_valid("01234a"));
    assert!(!pairing_code_valid("０12345"));
    assert_eq!(
        media_token_cookie("tok", true),
        "ani_media_token=tok; HttpOnly; SameSite=Strict; Path=/api/media; Max-Age=2592000; Secure"
    );
    assert_eq!(
        media_token_cookie("tok", false),
        "ani_media_token=tok; HttpOnly; SameSite=Strict; Path=/api/media; Max-Age=2592000"
    );
    assert_eq!(choose_credential(Some("a".into()), Some("b".into()), true).as_deref(), Some("a"));
    assert_eq!(choose_credential(None, Some("b".into()), true).as_deref(), Some("b"));
    assert_eq!(choose_credential(None, Some("b".into()), false), None);
    let error = unauthorized();
    assert_eq!((error.status, error.code), (401, "UNAUTHORIZED"));
    assert!(check_image_url(&"a".repeat(2048)).is_ok());
    let long = check_image_url(&"a".repeat(2049)).expect_err("too long");
    assert_eq!((long.status, long.code, long.message.as_str()), (400, "IMAGE_URL_INVALID", "图片地址无效"));
}

#[test]
fn carries_protocol_errors_into_gateway_errors() {
    let rpc = GatewayHttpError::from_rpc(RemoteRpcError::new(403, "FORBIDDEN", "no".to_string()));
    assert_eq!((rpc.status, rpc.code, rpc.message.as_str()), (403, "FORBIDDEN", "no"));
    let media = GatewayHttpError::from_media(RemoteMediaError::new(404, "MEDIA_SESSION_NOT_FOUND", "gone".to_string()));
    assert_eq!((media.status, media.code, media.message.as_str()), (404, "MEDIA_SESSION_NOT_FOUND", "gone"));
    let internal = GatewayHttpError::internal();
    assert_eq!((internal.status, internal.code, internal.message.as_str()), (500, "INTERNAL_ERROR", "远程服务内部错误"));
}

#[test]
fn plans_media_ranges_and_headers() {
    assert_eq!(plan_media_range(false, Some("bytes=0-1"), 10), MediaRangePlan::Full);
    assert_eq!(plan_media_range(true, None, 10), MediaRangePlan::Full);
    assert_eq!(
        plan_media_range(true, Some("bytes=2-4"), 10),
        MediaRangePlan::Partial(ByteRange { start: 2, end: 4 })
    );
    assert_eq!(plan_media_range(true, Some("bytes=20-"), 10), MediaRangePlan::Unsatisfiable);
    assert_eq!(response_length(Some(ByteRange { start: 2, end: 4 }), 10), 3);
    assert_eq!(response_length(None, 10), 10);
    assert_eq!(response_length(None, 0), 0);
    assert_eq!(content_range_header(ByteRange { start: 2, end: 4 }, 10), "bytes 2-4/10");
    assert_eq!(unsatisfiable_range_header(10), "bytes */10");
    assert_eq!(
        inline_content_disposition("第1集 a.mkv"),
        "inline; filename*=UTF-8''%E7%AC%AC1%E9%9B%86%20a%2Emkv"
    );
}

#[test]
fn resolves_renderer_paths() {
    assert_eq!(renderer_relative_path("/").expect("root"), "index.html");
    assert_eq!(renderer_relative_path("").expect("empty"), "index.html");
    assert_eq!(renderer_relative_path("//assets/app.js").expect("asset"), "assets/app.js");
    assert_eq!(renderer_relative_path("/assets/%E4%B8%AD.png").expect("decoded"), "assets/中.png");
    let up = renderer_relative_path("/assets/../secret").expect_err("parent");
    assert_eq!((up.status, up.code, up.message.as_str()), (403, "PATH_FORBIDDEN", "静态资源路径无效"));
    assert_eq!(renderer_relative_path("/a%5Cb").expect_err("backslash").status, 403);
    assert_eq!(renderer_relative_path("/a%00").expect_err("nul").code, "PATH_FORBIDDEN");
    let bad = renderer_relative_path("/%FF").expect_err("not utf-8");
    assert_eq!((bad.status, bad.code, bad.message.as_str()), (400, "PATH_INVALID", "静态资源路径编码无效"));
    assert_eq!(renderer_cache_control(Some("index.html")), "no-cache");
    assert_eq!(renderer_cache_control(Some("sw.js")), "no-cache");
    assert_eq!(renderer_cache_control(Some("app.js")), "public, max-age=31536000, immutable");
    assert_eq!(renderer_cache_control(None), "public, max-age=31536000, immutable");
}

fn header<'a>(headers: &'a [(String, String)], name: &str) -> Option<&'a str> {
    headers.iter().find(|(key, _)| key == name).map(|(_, value)| value.as_str())
}

#[test]
fn builds_media_response_heads() {
    let extra = media_extra_headers(true, Some("第1话.mkv"));
    assert_eq!(header(&extra, "cache-control"), Some("no-store"));
    assert_eq!(header(&extra, "accept-ranges"), Some("bytes"));
    assert_eq!(header(&extra, "content-disposition"), Some("inline; filename*=UTF-8''%E7%AC%AC1%E8%AF%9D%2Emkv"));
    assert_eq!(media_extra_headers(false, None).len(), 1);

    let (status, full) = file_response_head(None, 1000, "video/mp4");
    assert_eq!(status, 200);
    assert_eq!(header(&full, "content-length"), Some("1000"));
    assert_eq!(header(&full, "content-range"), None);
    assert_eq!(header(&full, "x-content-type-options"), Some("nosniff"));
    let (status, part) = file_response_head(Some(ByteRange { start: 100, end: 199 }), 1000, "video/mp4");
    assert_eq!(status, 206);
    assert_eq!(header(&part, "content-length"), Some("100"));
    assert_eq!(header(&part, "content-range"), Some("bytes 100-199/1000"));
    let (_, empty) = file_response_head(None, 0, "text/plain");
    assert_eq!(header(&empty, "content-length"), Some("0"));
}

#[test]
fn describes_gateway_listeners() {
    assert_eq!(listener_binding(true), ("0.0.0.0", "https"));
    assert_eq!(listener_binding(false), ("127.0.0.1", "http"));
    assert_eq!(gateway_base_url("https", true, Some("192.168.1.20"), 47_831), "https://192.168.1.20:47831");
    assert_eq!(gateway_base_url("https", true, None, 8443), "https://127.0.0.1:8443");
    assert_eq!(gateway_base_url("http", false, Some("192.168.1.20"), 8080), "http://127.0.0.1:8080");
}

#[test]
fn answers_cached_images_by_entity_tag() {
    let etag = image_etag("abc123");
    assert_eq!(etag, "\"abc123\"");
    assert!(image_not_modified(Some("\"abc123\""), &etag));
    assert!(!image_not_modified(Some("abc123"), &etag));
    assert!(!image_not_modified(None, &etag));
}
