use ani_core::redaction::{
    finish_call, looks_like_local_path, redact_free_text, sanitize_result, HIDDEN_LOCAL_PATH,
    REMOTE_SECRET_PLACEHOLDER,
};
use ani_core::rpc::{
    check_request, find_method, is_daily_time, is_write_method, object_get, validate_args,
    DomainShape, JsonNumber, JsonValue, RemoteRpcError, RpcEffect,
};

fn s(text: &str) -> JsonValue {
    JsonValue::String(text.to_string())
}

fn n(value: u64) -> JsonValue {
    JsonValue::Number(JsonNumber::PosInt(value))
}

fn float(mantissa: i64, exponent: i32) -> JsonValue {
    JsonValue::Number(JsonNumber::Float { mantissa, exponent })
}

fn obj(members: Vec<(&str, JsonValue)>) -> JsonValue {
    JsonValue::Object(members.into_iter().map(|(k, v)| (k.to_string(), v)).collect())
}

fn arr(items: Vec<JsonValue>) -> JsonValue {
    JsonValue::Array(items)
}

fn request(method: &str, args: Vec<JsonValue>) -> JsonValue {
    obj(vec![("method", s(method)), ("args", arr(args))])
}

fn scopes(names: &[&str]) -> Vec<String> {
    names.iter().map(|name| name.to_string()).collect()
}

fn get<'a>(value: &'a JsonValue, key: &str) -> Option<&'a JsonValue> {
    object_get(value, key)
}

fn item(value: &JsonValue, index: usize) -> &JsonValue {
    match value {
        JsonValue::Array(items) => &items[index],
        _ => panic!("not an array"),
    }
}

fn text(value: Option<&JsonValue>) -> Option<&str> {
    match value {
        Some(JsonValue::String(t)) => Some(t.as_str()),
        _ => None,
    }
}

fn release_fixture() -> JsonValue {
    obj(vec![
        ("id", s("release-season-2-episode-5")),
        ("title", s("[LoliHouse] 测试番 2 - 05 [简繁内封字幕]")),
        ("sourceId", s("mikan")),
        ("sourceName", s("蜜柑计划 RSS")),
        ("torrentUrl", s("https://mikanani.me/Download/test.torrent")),
        ("publishedAt", s("2026-08-06T13:15:00Z")),
    ])
}

fn echo(method: &str, args: Vec<JsonValue>) -> Result<JsonValue, String> {
    match method {
        "listDownloads" => Ok(arr(vec![obj(vec![
            ("id", s("task-1")),
            ("torrentHash", s("secret-hash")),
            ("correlationTag", s("secret-tag")),
            ("savePath", s("C:\\Downloads")),
            ("files", arr(vec![])),
        ])])),
        "listMyAnime" => Ok(arr(vec![obj(vec![
            ("id", s("my-1")),
            ("downloadDir", s("/Users/test/Downloads")),
            (
                "rssSubscriptions",
                arr(vec![obj(vec![
                    ("id", s("rss-1")),
                    ("url", s("https://example.com/feed.xml")),
                ])]),
            ),
        ])])),
        "listSources" => Ok(arr(vec![obj(vec![
            ("id", s("source-1")),
            ("name", s("受控来源")),
            ("apiKey", s("real-secret")),
        ])])),
        "getSettings" => Ok(obj(vec![
            ("appearance", obj(vec![("themeMode", s("dark"))])),
            (
                "download",
                obj(vec![
                    ("defaultDownloadDir", s("/Users/test/Downloads")),
                    ("createAnimeFolder", JsonValue::Bool(true)),
                    ("animeFolderPattern", s("{title}")),
                    ("defaultTorrentEngine", s("qbittorrent")),
                    ("embedded", obj(vec![("enabled", JsonValue::Bool(false))])),
                    (
                        "qbittorrent",
                        obj(vec![
                            ("baseUrl", s("http://127.0.0.1:18080")),
                            ("username", s("admin")),
                            ("password", s("real-password")),
                            ("autoConnect", JsonValue::Bool(true)),
                            ("downloadLimitKiBps", n(0)),
                            ("uploadLimitKiBps", n(0)),
                            ("seedingLimits", obj(vec![])),
                            (
                                "managed",
                                obj(vec![
                                    ("enabled", JsonValue::Bool(true)),
                                    ("binaryPath", s("/usr/bin/qbittorrent-nox")),
                                    ("profileDir", s("/Users/test/qbittorrent")),
                                    ("startupTimeoutMs", n(15000)),
                                ]),
                            ),
                        ]),
                    ),
                ]),
            ),
            ("automation", obj(vec![("scheduledCheckEnabled", JsonValue::Bool(true))])),
            (
                "sourceSync",
                obj(vec![("enabled", JsonValue::Bool(true)), ("dailyTime", s("09:00"))]),
            ),
            (
                "network",
                obj(vec![
                    (
                        "metadataProxy",
                        obj(vec![("mode", s("system")), ("timeoutMs", n(30000))]),
                    ),
                    (
                        "remoteAccess",
                        obj(vec![("lanEnabled", JsonValue::Bool(true)), ("port", n(18083))]),
                    ),
                ]),
            ),
            ("storage", obj(vec![("userDataDir", s("/Users/test"))])),
            ("players", arr(vec![obj(vec![("id", s("builtin"))])])),
        ])),
        "pauseDownload" | "removeDownload" | "addReleaseDownload" => Ok(arr(vec![])),
        _ => Ok(obj(vec![("args", arr(args))])),
    }
}

fn dispatch(req: JsonValue, granted: &[String]) -> Result<JsonValue, RemoteRpcError> {
    let call = check_request(req, granted)?;
    let outcome = echo(&call.method, call.args.args);
    finish_call(&call.method, outcome)
}

#[test]
fn validates_method_scope_and_arguments() {
    let granted = scopes(&["downloads.read"]);
    let unknown = dispatch(request("runAutomationOnce", vec![]), &granted).expect_err("unknown method");
    assert_eq!(unknown.code, "METHOD_NOT_FOUND");

    let forbidden = dispatch(request("pauseDownload", vec![s("task-1")]), &granted).expect_err("forbidden method");
    assert_eq!(forbidden.code, "FORBIDDEN");

    let invalid = dispatch(
        request(
            "reportPlaybackProgress",
            vec![obj(vec![("taskId", s("task-1")), ("percent", n(95)), ("path", s("C:\\secret"))])],
        ),
        &scopes(&["library.write"]),
    )
    .expect_err("unknown argument");
    assert_eq!(invalid.code, "INVALID_ARGUMENTS");
}

#[test]
fn accepts_remote_catalog_search_online_flag() {
    let local_only = dispatch(
        request("searchAnimeCatalog", vec![s("测试番"), JsonValue::Bool(false)]),
        &scopes(&["catalog.read"]),
    )
    .expect("local-only catalog search");
    let args = get(&local_only, "args").expect("args");
    assert_eq!(text(Some(item(args, 0))), Some("测试番"));
    assert!(matches!(item(args, 1), JsonValue::Bool(false)));

    let invalid = dispatch(
        request("searchAnimeCatalog", vec![s("测试番"), s("false")]),
        &scopes(&["catalog.read"]),
    )
    .expect_err("non-boolean online search flag must fail");
    assert_eq!(invalid.code, "INVALID_ARGUMENTS");
}

#[test]
fn accepts_remote_unknown_season_confirmation() {
    let confirmed = dispatch(
        request(
            "addReleaseDownload",
            vec![obj(vec![
                ("release", release_fixture()),
                ("animeId", s("bangumi-412144")),
                ("confirmUnknownSeason", JsonValue::Bool(true)),
            ])],
        ),
        &scopes(&["downloads.control"]),
    );
    assert!(confirmed.is_ok());

    let invalid = dispatch(
        request(
            "addReleaseDownload",
            vec![obj(vec![
                ("release", release_fixture()),
                ("animeId", s("bangumi-412144")),
                ("confirmUnknownSeason", s("true")),
            ])],
        ),
        &scopes(&["downloads.control"]),
    )
    .expect_err("non-boolean confirmation must fail");
    assert_eq!(invalid.code, "INVALID_ARGUMENTS");
}

#[test]
fn accepts_remote_download_settings() {
    let result = dispatch(
        request(
            "updateSettings",
            vec![obj(vec![(
                "download",
                obj(vec![
                    ("defaultDownloadDir", s("/Users/test/Downloads")),
                    ("createAnimeFolder", JsonValue::Bool(true)),
                    ("animeFolderPattern", s("{year}-{month}/{title}")),
                    ("temporaryDownloadDir", s("/Users/test/Downloads/.incomplete")),
                    ("defaultTorrentEngine", s("embedded")),
                    (
                        "embedded",
                        obj(vec![
                            ("enabled", JsonValue::Bool(true)),
                            ("listenPort", n(51413)),
                            ("maxActiveDownloads", n(3)),
                            (
                                "seedingLimits",
                                obj(vec![
                                    ("enabled", JsonValue::Bool(true)),
                                    ("ratioLimit", float(1, 1)),
                                    ("timeLimitMinutes", n(120)),
                                ]),
                            ),
                        ]),
                    ),
                ]),
            )])],
        ),
        &scopes(&["settings.write"]),
    );
    assert!(result.is_ok());
}

#[test]
fn allows_download_file_removal_but_rejects_desktop_mutations() {
    let remove_result = dispatch(
        request("removeDownload", vec![s("task-1"), JsonValue::Bool(true)]),
        &scopes(&["downloads.control"]),
    );
    assert!(remove_result.is_ok());

    let requests = vec![
        request(
            "addDownloadUrl",
            vec![obj(vec![("url", s("magnet:?xt=urn:btih:abc")), ("savePath", s("/tmp"))])],
        ),
        request("updateSettings", vec![obj(vec![("storage", obj(vec![("userDataDir", s("/tmp"))]))])]),
        request(
            "updateSettings",
            vec![obj(vec![("network", obj(vec![("remoteAccess", obj(vec![("port", n(1))]))]))])],
        ),
        request(
            "updateSettings",
            vec![obj(vec![(
                "download",
                obj(vec![(
                    "qbittorrent",
                    obj(vec![("managed", obj(vec![("binaryPath", s("/tmp/qb"))]))]),
                )]),
            )])],
        ),
    ];
    for req in requests {
        let error = dispatch(req, &scopes(&["downloads.control", "settings.write"]))
            .expect_err("local mutation must fail");
        assert_eq!(error.code, "INVALID_ARGUMENTS");
    }
}

#[test]
fn sanitizes_download_result() {
    let result = dispatch(request("listDownloads", vec![]), &scopes(&["downloads.read"])).expect("dispatch downloads");
    let task = item(&result, 0);
    assert!(get(task, "torrentHash").is_none());
    assert!(get(task, "correlationTag").is_none());
    assert_eq!(text(get(task, "savePath")), Some(HIDDEN_LOCAL_PATH));
}

#[test]
fn sanitizes_shared_business_data_without_removing_rss() {
    let anime = dispatch(request("listMyAnime", vec![]), &scopes(&["library.read"])).expect("dispatch anime");
    let record = item(&anime, 0);
    assert!(get(record, "downloadDir").is_none());
    let subscriptions = get(record, "rssSubscriptions").expect("subscriptions");
    assert_eq!(text(get(item(subscriptions, 0), "id")), Some("rss-1"));

    let sources = dispatch(request("listSources", vec![]), &scopes(&["sources.read"])).expect("dispatch sources");
    assert_eq!(text(get(item(&sources, 0), "apiKey")), Some(REMOTE_SECRET_PLACEHOLDER));

    let settings = dispatch(request("getSettings", vec![]), &scopes(&["settings.read"])).expect("dispatch settings");
    assert!(get(&settings, "storage").is_none());
    assert!(get(&settings, "players").is_none());
    assert!(get(&settings, "appearance").is_none());
    let network = get(&settings, "network").expect("network");
    assert!(get(network, "remoteAccess").is_none());
    assert!(get(network, "metadataProxy").is_some());
    let qbittorrent = get(get(&settings, "download").expect("download"), "qbittorrent").expect("qbittorrent");
    assert_eq!(text(get(qbittorrent, "password")), Some(REMOTE_SECRET_PLACEHOLDER));
    let managed = get(qbittorrent, "managed").expect("managed");
    assert!(get(managed, "binaryPath").is_none());
    assert!(get(managed, "profileDir").is_none());
    assert!(get(managed, "startupTimeoutMs").is_some());
}

#[test]
fn refuses_malformed_requests_in_order() {
    let granted = scopes(&["downloads.read"]);
    let not_object = check_request(s("listDownloads"), &granted).expect_err("not an object");
    assert_eq!((not_object.status, not_object.code, not_object.message.as_str()), (400, "INVALID_REQUEST", "远程请求格式无效"));

    let extra = check_request(
        obj(vec![("method", s("listDownloads")), ("id", n(1))]),
        &granted,
    )
    .expect_err("unknown member");
    assert_eq!(extra.message, "远程请求包含未知字段");

    let empty_name = check_request(obj(vec![("method", s(""))]), &granted).expect_err("empty name");
    assert_eq!(empty_name.message, "远程方法名格式无效");

    let long_name = "a".repeat(81);
    let too_long = check_request(obj(vec![("method", s(&long_name))]), &granted).expect_err("long name");
    assert_eq!(too_long.message, "远程方法名格式无效");

    let many = check_request(
        request("listDownloads", vec![n(1), n(2), n(3), n(4), n(5)]),
        &granted,
    )
    .expect_err("five arguments");
    assert_eq!((many.status, many.code), (400, "INVALID_REQUEST"));
    assert_eq!(many.message, "远程参数必须是最多四项的数组");

    let counted = check_request(request("listDownloads", vec![n(1)]), &granted).expect_err("one argument");
    assert_eq!(counted.code, "INVALID_ARGUMENTS");
    assert_eq!(counted.message, "参数数量无效，预期 0 个");

    let missing_args = check_request(obj(vec![("method", s("listDownloads"))]), &granted).expect("no args member");
    assert!(missing_args.args.args.is_empty());
    assert_eq!(missing_args.effect, RpcEffect::Read);
}

#[test]
fn reads_method_effects_from_the_table() {
    assert!(is_write_method(&request("pauseDownload", vec![])));
    assert!(!is_write_method(&request("listDownloads", vec![])));
    assert!(!is_write_method(&request("noSuchMethod", vec![])));
    assert!(!is_write_method(&s("pauseDownload")));
    let definition = find_method("testQbittorrent").expect("known method");
    assert_eq!(definition.scope, "host.control");
    assert_eq!(definition.effect, RpcEffect::Read);
    assert!(find_method("TESTQBITTORRENT").is_none());
}

#[test]
fn normalizes_catalog_arguments() {
    let search = validate_args("searchAnimeCatalog", vec![s("  测试番  ")]).expect("keyword");
    assert_eq!(search.args.len(), 1);
    assert_eq!(text(Some(&search.args[0])), Some("测试番"));
    let blank = validate_args("searchAnimeCatalog", vec![s("   ")]).expect_err("blank keyword");
    assert_eq!(blank.message, "搜索关键词长度必须为 1-120 个字符");

    let month = validate_args("listAnimeCatalog", vec![n(2026), n(7)]).expect("year and month");
    assert!(matches!(month.args[0], JsonValue::Number(JsonNumber::PosInt(2026))));
    assert!(matches!(month.args[1], JsonValue::Number(JsonNumber::PosInt(7))));
    let nulls = validate_args("listAnimeCatalog", vec![JsonValue::Null, JsonValue::Null]).expect("two nulls");
    assert!(nulls.args.is_empty());
    let bad_year = validate_args("listAnimeCatalog", vec![n(1800), n(7)]).expect_err("year");
    assert_eq!(bad_year.message, "年份必须为 1900-2200 的整数");
    let bad_month = validate_args("listAnimeCatalog", vec![n(2026), n(13)]).expect_err("month");
    assert_eq!(bad_month.message, "月份必须为 1-12 的整数");
    let unknown = validate_args("noSuchMethod", vec![]).expect_err("unknown rule");
    assert_eq!(unknown.message, "远程参数校验失败");
}

#[test]
fn names_the_typed_reading_still_owed() {
    let episode = validate_args(
        "upsertEpisode",
        vec![obj(vec![("id", s("ep-1")), ("animeId", s("anime-1")), ("episodeNo", n(3))])],
    )
    .expect("episode");
    assert_eq!(episode.shape, DomainShape::Episode);
    let paused = validate_args("pauseDownload", vec![s("task-1")]).expect("task");
    assert_eq!(paused.shape, DomainShape::Untyped);
}

#[test]
fn checks_identifiers_texts_and_numbers() {
    let bad_id = validate_args("pauseDownload", vec![s("task 1")]).expect_err("space in id");
    assert_eq!(bad_id.message, "标识格式无效");
    let not_string = validate_args("pauseDownload", vec![n(1)]).expect_err("number id");
    assert_eq!(not_string.message, "标识必须是字符串");
    let long_id = "a".repeat(161);
    assert!(validate_args("pauseDownload", vec![s(&long_id)]).is_err());
    assert!(validate_args("pauseDownload", vec![s(" task:1.a_b-c ")]).is_ok());

    let episode_no = |value: JsonValue| {
        validate_args(
            "upsertEpisode",
            vec![obj(vec![("id", s("ep-1")), ("animeId", s("anime-1")), ("episodeNo", value)])],
        )
    };
    assert!(episode_no(n(100000)).is_ok());
    assert_eq!(episode_no(n(100001)).expect_err("too large").message, "集数范围无效");
    assert!(episode_no(float(3, -1)).is_ok());
    assert!(episode_no(JsonValue::Number(JsonNumber::NegInt(-1))).is_err());

    let ratio = |mantissa: i64, exponent: i32| {
        validate_args(
            "updateSettings",
            vec![obj(vec![(
                "download",
                obj(vec![(
                    "qbittorrent",
                    obj(vec![(
                        "seedingLimits",
                        obj(vec![("ratioLimit", float(mantissa, exponent))]),
                    )]),
                )]),
            )])],
        )
    };
    assert!(ratio(3602879701896397, -55).is_ok());
    assert_eq!(ratio(3602879701896396, -55).expect_err("below 0.1").message, "分享率范围无效");
    assert!(ratio(1000, 0).is_ok());
    assert!(ratio(1001, 0).is_err());
}

#[test]
fn checks_addresses_with_the_url_parser() {
    let add = |url: &str| validate_args("addDownloadUrl", vec![obj(vec![("url", s(url))])]);
    assert!(add("magnet:?xt=urn:btih:abc").is_ok());
    assert!(add("  https://example.com/a.torrent  ").is_ok());
    assert_eq!(add("ftp://example.com/a").expect_err("ftp").message, "下载地址只允许 magnet 或 HTTP(S)");
    assert_eq!(add("not a url").expect_err("relative").message, "下载地址格式无效");
    assert_eq!(add("").expect_err("empty").message, "下载地址格式无效");

    let source = |kind: &str, key: &str, url: &str| {
        validate_args(
            "upsertSource",
            vec![obj(vec![
                ("id", s("source-1")),
                ("name", s("来源")),
                ("kind", s(kind)),
                (key, s(url)),
                ("requestIntervalMs", n(1000)),
            ])],
        )
    };
    assert!(source("rss", "rssUrl", "https://example.com/rss").is_ok());
    assert_eq!(
        source("rss", "rssUrl", "mailto:someone@example.com").expect_err("no host").message,
        "RSS 地址只允许 HTTP(S) 地址"
    );
    assert!(source("torznab", "baseUrl", "http://127.0.0.1:9117").is_ok());
    assert_eq!(source("other", "baseUrl", "http://x").expect_err("kind").message, "下载源类型无效");
}

#[test]
fn checks_nested_settings() {
    let patch = |member: (&str, JsonValue)| validate_args("updateSettings", vec![obj(vec![member])]);
    assert_eq!(
        validate_args("updateSettings", vec![obj(vec![])]).expect_err("empty").message,
        "设置更新不能为空"
    );
    assert!(patch(("sourceSync", obj(vec![("dailyTime", s("23:59"))]))).is_ok());
    assert!(patch(("sourceSync", obj(vec![("dailyTime", s("+9:05"))]))).is_ok());
    assert_eq!(
        patch(("sourceSync", obj(vec![("dailyTime", s("24:00"))]))).expect_err("hour").message,
        "每日同步时间格式无效"
    );
    assert!(patch(("automation", obj(vec![("checkIntervalMinutes", n(5))]))).is_ok());
    assert_eq!(
        patch(("automation", obj(vec![("checkIntervalMinutes", n(4))]))).expect_err("interval").message,
        "自动检查间隔必须是 5 到 10080 分钟"
    );
    assert_eq!(
        patch(("automation", obj(vec![("candidateFansubNames", s("a"))]))).expect_err("names").message,
        "候选字幕组名称格式无效"
    );
    assert_eq!(
        patch(("network", obj(vec![]))).expect_err("proxy missing").message,
        "元数据代理设置缺失"
    );
    let proxy = |mode: &str, url: &str| {
        patch((
            "network",
            obj(vec![(
                "metadataProxy",
                obj(vec![("mode", s(mode)), ("url", s(url)), ("timeoutMs", n(30000))]),
            )]),
        ))
    };
    assert!(proxy("manual", "socks5://127.0.0.1:1080").is_ok());
    assert_eq!(proxy("manual", "ftp://127.0.0.1").expect_err("scheme").message, "手动代理协议不受支持");
    assert!(proxy("off", "").is_ok());
    assert_eq!(proxy("auto", "").expect_err("mode").message, "元数据代理模式无效");
}

#[test]
fn checks_file_priorities() {
    let priority = |indexes: Vec<JsonValue>, value: JsonValue| {
        validate_args("setDownloadFilePriority", vec![s("task-1"), arr(indexes), value])
    };
    assert!(priority(vec![n(0), n(3)], n(7)).is_ok());
    assert_eq!(priority(vec![], n(1)).expect_err("empty").message, "文件索引列表格式无效");
    assert_eq!(
        priority(vec![JsonValue::Number(JsonNumber::NegInt(-1))], n(1)).expect_err("negative").message,
        "文件索引必须是非负整数"
    );
    assert_eq!(priority(vec![n(0)], n(8)).expect_err("priority").message, "文件优先级必须是 0 到 7 的整数");
}

#[test]
fn reads_daily_times() {
    assert!(is_daily_time("00:00"));
    assert!(is_daily_time("23:59"));
    assert!(!is_daily_time("23:60"));
    assert!(!is_daily_time("9:00"));
    assert!(!is_daily_time("0900"));
}

#[test]
fn redacts_links_and_local_paths_in_free_text() {
    assert_eq!(
        redact_free_text("failed  HTTPS://x.y/z at C:\\Users\\me and /home/me/a ok"),
        "failed [链接已隐藏] at [本机路径已隐藏] and [本机路径已隐藏] ok"
    );
    assert_eq!(redact_free_text("  \\\\server\\share ftp://host  "), "[本机路径已隐藏] [链接已隐藏]");
    assert_eq!(redact_free_text(""), "");
    assert!(looks_like_local_path("d:/media"));
    assert!(!looks_like_local_path("1:/media"));
    assert!(!looks_like_local_path("/usr/bin"));
}

#[test]
fn sanitizes_statuses_and_reports_bad_shapes() {
    let status = sanitize_result(
        "getQbittorrentManagedStatus",
        obj(vec![
            ("running", JsonValue::Bool(true)),
            ("binaryPath", s("/opt/qb")),
            ("profileDir", s("/home/me/qb")),
            ("webUiUrl", s("http://127.0.0.1:8080")),
            ("lastError", s("cannot open /home/me/qb/lock")),
        ]),
    )
    .expect("status");
    assert!(get(&status, "binaryPath").is_none());
    assert!(get(&status, "profileDir").is_none());
    assert_eq!(text(get(&status, "webUiUrl")), Some(""));
    assert_eq!(text(get(&status, "lastError")), Some("cannot open [本机路径已隐藏]"));

    let not_list = sanitize_result("listDownloads", obj(vec![])).expect_err("not a list");
    assert_eq!((not_list.status, not_list.code), (500, "HANDLER_FAILED"));
    assert_eq!(not_list.message, "远程列表返回格式无效");
    let bad_record = sanitize_result("listDownloads", arr(vec![n(1)])).expect_err("record");
    assert_eq!(bad_record.message, "下载记录返回格式无效");
    let count = sanitize_result("getUnreadNotificationCount", s("3")).expect_err("count");
    assert_eq!(count.message, "未读数量返回格式无效");
    assert!(sanitize_result("getUnreadNotificationCount", n(3)).is_ok());
    let report = sanitize_result("reportPlaybackProgress", n(1)).expect_err("report");
    assert_eq!(report.message, "远程处理结果格式无效");

    let failed = finish_call("listDownloads", Err("disk full at /home/me".to_string())).expect_err("failure");
    assert_eq!((failed.status, failed.code), (500, "HANDLER_FAILED"));
    assert_eq!(failed.message, "远程操作执行失败");
}

#[test]
fn redacts_notifications_and_error_lists() {
    let notes = sanitize_result(
        "listNotifications",
        arr(vec![obj(vec![("title", s("see https://a.b")), ("body", s("file /Volumes/x/y")), ("id", s("n1"))])]),
    )
    .expect("notifications");
    let note = item(&notes, 0);
    assert_eq!(text(get(note, "title")), Some("see [链接已隐藏]"));
    assert_eq!(text(get(note, "body")), Some("file [本机路径已隐藏]"));
    assert_eq!(text(get(note, "id")), Some("n1"));

    let search = sanitize_result(
        "searchReleases",
        obj(vec![(
            "errors",
            arr(vec![obj(vec![("source", s("http://tracker")), ("message", s("timeout")), ("code", s("/mnt/x"))])]),
        )]),
    )
    .expect("search");
    let entry = item(get(&search, "errors").expect("errors"), 0);
    assert_eq!(text(get(entry, "source")), Some("[链接已隐藏]"));
    assert_eq!(text(get(entry, "message")), Some("timeout"));
    assert_eq!(text(get(entry, "code")), Some("/mnt/x"));
}
