use sunshine_control_panel::config::{
    find_last_value, parse_full, parse_line, parse_simple, split_lines, trimmed,
    trimmed_space_end, trimmed_space_start, ConfigEntry,
};
use sunshine_control_panel::sunshine::{
    bitrate_request_url, bitrate_status_error, classify_sessions_reply, extract_version, is_valid_bitrate,
    parse_sunshine_config, parse_url_to_base, pick_version, read_bitrate_reply, read_sessions,
    sessions_failure_words, url_from_command_line, url_from_config, SessionFields, SessionInfo, SessionsReply,
    SunshineConfig, DEFAULT_SUNSHINE_PORT, DEFAULT_WEB_UI_PORT,
};
use sunshine_control_panel::vdd::{
    get_default_settings, host_config_updates, merge_extra_fields, refresh_rates_setting,
    resolutions_setting, validate_edid, Colour, EdidConfig, EdidError, Logging, Resolution,
};

fn pairs(entries: &[ConfigEntry]) -> Vec<(String, String)> {
    entries
        .iter()
        .map(|e| {
            (String::from_utf8_lossy(&e.key).into_owned(), String::from_utf8_lossy(&e.value).into_owned())
        })
        .collect()
}

fn pair(key: &str, value: &str) -> (String, String) {
    (key.to_string(), value.to_string())
}

#[test]
fn trimming_removes_what_std_calls_white_space() {
    for code in 0..=0x10FFFFu32 {
        if let Some(c) = char::from_u32(code) {
            let text = format!("{}a{}", c, c);
            assert_eq!(trimmed(text.as_bytes()), text.trim().as_bytes(), "U+{:04X}", code);
        }
    }
    for text in ["", " ", "  a b  ", "\t\r\na\u{3000}", "\u{2003}\u{a0}x\u{85}\u{1680}", "a", "é "] {
        assert_eq!(trimmed(text.as_bytes()), text.trim().as_bytes());
        assert_eq!(trimmed_space_start(text.as_bytes()), text.trim_start().as_bytes());
        assert_eq!(trimmed_space_end(text.as_bytes()), text.trim_end().as_bytes());
    }
}

#[test]
fn lines_are_what_std_yields_before_trimming() {
    for text in ["", "a", "a\n", "a\nb", "a\n\nb\n", "\n", "\n\n", "a\r\nb\r\n", "a\rb"] {
        let expected: Vec<String> = text.lines().map(|line| line.trim().to_string()).collect();
        let found: Vec<String> = split_lines(text.as_bytes())
            .iter()
            .map(|line| String::from_utf8_lossy(trimmed(line)).into_owned())
            .collect();
        assert_eq!(found, expected, "{:?}", text);
    }
}

#[test]
fn line_holds_key_and_value_around_first_equals_sign() {
    let entry = parse_line(b"  port =  47989  ").expect("a setting");
    assert_eq!(entry.key, b"port".to_vec());
    assert_eq!(entry.value, b"47989".to_vec());
    let entry = parse_line(b"cmd=a=b").expect("a setting");
    assert_eq!((entry.key, entry.value), (b"cmd".to_vec(), b"a=b".to_vec()));
    let entry = parse_line(b"=").expect("a setting");
    assert_eq!((entry.key, entry.value), (Vec::new(), Vec::new()));
    assert!(parse_line(b"# port = 1").is_none());
    assert!(parse_line(b"   # port = 1").is_none());
    assert!(parse_line(b"").is_none());
    assert!(parse_line(b"   ").is_none());
    assert!(parse_line(b"no separator").is_none());
}

#[test]
fn config_takes_last_value_of_each_key() {
    let text = "# comment\nport = 48000\r\nadapter_name = NVIDIA RTX\n\nfps=[60,120]\nport = 48010\nother = x\n";
    let config = parse_sunshine_config(text.as_bytes());
    assert_eq!(config.port, Some(b"48010".to_vec()));
    assert_eq!(config.adapter_name, Some(b"NVIDIA RTX".to_vec()));
    assert_eq!(config.fps, Some(b"[60,120]".to_vec()));
    assert_eq!(config.resolutions, None);
    let empty = parse_sunshine_config(b"");
    assert_eq!((empty.port, empty.adapter_name, empty.resolutions, empty.fps), (None, None, None, None));
    let entries = parse_simple(b"a = 1\nb = 2\na = 3");
    assert_eq!(pairs(&entries), vec![pair("a", "1"), pair("b", "2"), pair("a", "3")]);
    assert_eq!(find_last_value(&entries, b"a"), Some(b"3".to_vec()));
    assert_eq!(find_last_value(&entries, b"b"), Some(b"2".to_vec()));
    assert_eq!(find_last_value(&entries, b"c"), None);
    let missing = SunshineConfig::missing();
    assert_eq!(missing.port, Some(b"47989".to_vec()));
    assert_eq!(missing.adapter_name, None);
}

#[test]
fn bracketed_value_runs_over_lines() {
    let text = "a = 1\nresolutions = [\n  1920x1080,\n  2560x1440\n]\nfps = [60]\nopen = [1,\n2";
    assert_eq!(
        pairs(&parse_full(text.as_bytes())),
        vec![
            pair("a", "1"),
            pair("resolutions", "[\n1920x1080,\n2560x1440\n]"),
            pair("fps", "[60]"),
            pair("open", "[1,\n2"),
        ]
    );
    // Each line read by itself makes nothing of the lines without `=`.
    assert_eq!(
        pairs(&parse_simple(text.as_bytes())),
        vec![pair("a", "1"), pair("resolutions", "["), pair("fps", "[60]"), pair("open", "[1,")]
    );
    assert_eq!(pairs(&parse_full(b"x = [\n")), vec![pair("x", "[")]);
    assert_eq!(pairs(&parse_full(b"x = [\n\n")), vec![pair("x", "[\n")]);
    assert_eq!(pairs(&parse_full(b"x = [\n# c = ]\ny = 1")), vec![pair("x", "[\n# c = ]"), pair("y", "1")]);
    assert_eq!(pairs(&parse_full(b"")), Vec::new());
    assert_eq!(pairs(&parse_full(b"# only\n\n")), Vec::new());
}

#[test]
fn web_interface_is_one_port_behind_the_configured() {
    assert_eq!(DEFAULT_SUNSHINE_PORT, 47989);
    assert_eq!(DEFAULT_WEB_UI_PORT, 47990);
    let with = |port: Option<&str>| SunshineConfig {
        port: port.map(|p| p.as_bytes().to_vec()),
        adapter_name: None,
        resolutions: None,
        fps: None,
    };
    assert_eq!(url_from_config(&with(Some("48000"))), b"https://127.0.0.1:48001".to_vec());
    assert_eq!(url_from_config(&with(None)), b"https://127.0.0.1:47990".to_vec());
    assert_eq!(url_from_config(&with(Some("http"))), b"https://127.0.0.1:47990".to_vec());
    assert_eq!(url_from_config(&with(Some("65536"))), b"https://127.0.0.1:47990".to_vec());
    assert_eq!(url_from_config(&with(Some("65535"))), b"https://127.0.0.1:0".to_vec());
    assert_eq!(url_from_config(&with(Some("0"))), b"https://127.0.0.1:1".to_vec());
    assert_eq!(url_from_config(&SunshineConfig::missing()), b"https://127.0.0.1:47990".to_vec());
}

#[test]
fn url_is_cut_down_to_its_base() {
    assert_eq!(parse_url_to_base(b"http://Example.com:8080/a/b?c"), Some(b"http://example.com:8080".to_vec()));
    assert_eq!(parse_url_to_base(b"https://localhost"), Some(b"https://localhost:47990".to_vec()));
    assert_eq!(parse_url_to_base(b"https://localhost:443/"), Some(b"https://localhost:47990".to_vec()));
    assert_eq!(parse_url_to_base(b"data:text/plain,x"), Some(b"data://127.0.0.1:47990".to_vec()));
    assert_eq!(parse_url_to_base(b"localhost:47990"), Some(b"localhost://127.0.0.1:47990".to_vec()));
    assert_eq!(parse_url_to_base(b"//nowhere"), None);
    assert_eq!(parse_url_to_base(b""), None);
    assert_eq!(url_from_command_line(b"https://10.0.0.2:47990/x"), Ok(b"https://10.0.0.2:47990".to_vec()));
    assert_eq!(url_from_command_line(b"not a url"), Err(b"not a url".to_vec()));
}

#[test]
fn version_is_found_by_the_first_pattern_that_matches() {
    assert_eq!(extract_version("Sunshine v2025.1116.1.杂鱼 (build)".as_bytes()), "2025.1116.1.杂鱼".as_bytes().to_vec());
    assert_eq!(extract_version(b"Sunshine v0.23.1"), b"0.23.1".to_vec());
    assert_eq!(extract_version(b"version: 1.2"), b"1.2".to_vec());
    assert_eq!(extract_version(b"build 7, release v3.4.5-beta"), b"3.4.5".to_vec());
    assert_eq!(extract_version(b"v1.2"), b"1.2".to_vec());
    assert_eq!(extract_version(b"no digits here"), b"Unknown".to_vec());
    assert_eq!(extract_version(b""), b"Unknown".to_vec());
    assert_eq!(pick_version(&vec![None, Some(b"2".to_vec()), Some(b"3".to_vec())]), b"2".to_vec());
    assert_eq!(pick_version(&vec![None, None]), b"Unknown".to_vec());
    assert_eq!(pick_version(&Vec::new()), b"Unknown".to_vec());
}

fn no_fields() -> SessionFields {
    SessionFields {
        client_name: None,
        client_address: None,
        state: None,
        session_id: None,
        width: None,
        height: None,
        fps: None,
        bitrate: None,
        host_audio: None,
        enable_hdr: None,
        enable_mic: None,
        app_name: None,
        app_id: None,
    }
}

#[test]
fn session_takes_defaults_for_missing_members() {
    let session = SessionInfo::from_json(&no_fields());
    assert_eq!(session.client_name, b"Unknown".to_vec());
    assert_eq!(session.client_address, Vec::<u8>::new());
    assert_eq!(session.state, b"UNKNOWN".to_vec());
    assert_eq!(session.app_name, Vec::<u8>::new());
    assert_eq!((session.session_id, session.app_id), (0, 0));
    assert_eq!((session.width, session.height, session.fps, session.bitrate), (0, 0, 0, 0));
    assert!(!session.host_audio && !session.enable_hdr && !session.enable_mic);
}

#[test]
fn session_keeps_low_bits_of_large_numbers() {
    for value in [0i64, 1, -1, 2147483647, 2147483648, -2147483648, -2147483649, 4294967297, i64::MAX, i64::MIN] {
        let mut fields = no_fields();
        fields.session_id = Some(value);
        fields.app_id = Some(value);
        let session = SessionInfo::from_json(&fields);
        assert_eq!(session.session_id, value as i32, "{}", value);
        assert_eq!(session.app_id, value as i32, "{}", value);
    }
    for value in [0u64, 1920, 4294967295, 4294967296, 4294967301, u64::MAX] {
        let mut fields = no_fields();
        fields.width = Some(value);
        fields.bitrate = Some(value);
        let session = SessionInfo::from_json(&fields);
        assert_eq!(session.width, value as u32, "{}", value);
        assert_eq!(session.bitrate, value as u32, "{}", value);
    }
    let mut fields = no_fields();
    fields.client_name = Some(b"deck".to_vec());
    fields.state = Some(b"RUNNING".to_vec());
    fields.enable_hdr = Some(true);
    fields.fps = Some(60);
    let session = SessionInfo::from_json(&fields);
    assert_eq!(session.client_name, b"deck".to_vec());
    assert_eq!(session.state, b"RUNNING".to_vec());
    assert!(session.enable_hdr);
    assert_eq!(session.fps, 60);
}

#[test]
fn sessions_answer_is_read_by_status_and_type() {
    assert_eq!(classify_sessions_reply(404, b"application/json", b"{}"), SessionsReply::NoSessions);
    assert_eq!(classify_sessions_reply(200, b"Text/XML; charset=utf-8", b"{}"), SessionsReply::NoSessions);
    assert_eq!(classify_sessions_reply(200, b"", b" \n<?xml version=\"1.0\"?>"), SessionsReply::NoSessions);
    assert_eq!(classify_sessions_reply(500, b"application/xml", b""), SessionsReply::NoSessions);
    assert_eq!(classify_sessions_reply(500, b"application/json", b"{}"), SessionsReply::Failed);
    assert_eq!(classify_sessions_reply(199, b"", b""), SessionsReply::Failed);
    assert_eq!(classify_sessions_reply(300, b"", b""), SessionsReply::Failed);
    assert_eq!(classify_sessions_reply(200, b"application/json", b"{}"), SessionsReply::Json);
    assert_eq!(classify_sessions_reply(299, b"", b"x<?xml"), SessionsReply::Json);
    assert_eq!(
        sessions_failure_words(b"500 Internal Server Error", b"oops"),
        "获取会话信息失败 (状态: 500 Internal Server Error): oops".as_bytes().to_vec()
    );
}

#[test]
fn sessions_are_read_unless_failure_is_reported() {
    let mut one = no_fields();
    one.client_name = Some(b"a".to_vec());
    let mut two = no_fields();
    two.client_name = Some(b"b".to_vec());
    let list = Some(vec![one, two]);
    let sessions = read_sessions(Some(true), &None, &list).expect("sessions");
    let names: Vec<Vec<u8>> = sessions.into_iter().map(|s| s.client_name).collect();
    assert_eq!(names, vec![b"a".to_vec(), b"b".to_vec()]);
    assert_eq!(read_sessions(None, &None, &list).expect("sessions").len(), 2);
    assert_eq!(read_sessions(None, &None, &None).expect("sessions").len(), 0);
    assert_eq!(
        read_sessions(Some(false), &Some(b"busy".to_vec()), &list).unwrap_err(),
        "API 返回错误: busy".as_bytes().to_vec()
    );
    assert_eq!(
        read_sessions(Some(false), &None, &None).unwrap_err(),
        "API 返回错误: 未知错误".as_bytes().to_vec()
    );
}

#[test]
fn bitrate_change_is_checked_and_its_answer_read() {
    assert!(!is_valid_bitrate(0));
    assert!(is_valid_bitrate(1));
    assert!(is_valid_bitrate(800_000));
    assert!(!is_valid_bitrate(800_001));
    assert_eq!(bitrate_status_error(401, b"401 Unauthorized", b"x"), "身份验证失败，请检查 Sunshine 配置".as_bytes().to_vec());
    assert_eq!(bitrate_status_error(403, b"403 Forbidden", b"x"), "访问被拒绝，仅允许 localhost 访问".as_bytes().to_vec());
    assert_eq!(
        bitrate_status_error(500, b"500 Internal Server Error", b"oops"),
        "HTTP 错误 (状态码: 500 Internal Server Error): oops".as_bytes().to_vec()
    );
    assert_eq!(read_bitrate_reply(20000, Some(true), &None, None), Ok("码率已调整为 20000 Kbps".as_bytes().to_vec()));
    assert_eq!(
        read_bitrate_reply(1, Some(false), &Some(b"no session".to_vec()), Some(404)),
        Err("码率调整失败: no session\n\n提示：请确认客户端名称是否正确，或会话是否处于 RUNNING 状态".as_bytes().to_vec())
    );
    assert_eq!(
        read_bitrate_reply(1, Some(false), &None, Some(500)),
        Err("码率调整失败: 未知错误".as_bytes().to_vec())
    );
    assert_eq!(read_bitrate_reply(1, Some(false), &None, None), Err("码率调整失败: 未知错误".as_bytes().to_vec()));
    assert_eq!(read_bitrate_reply(1, None, &None, None), Err("无效的响应格式".as_bytes().to_vec()));
}

#[test]
fn default_driver_settings() {
    let settings = get_default_settings();
    assert_eq!(settings.monitors.count, 1);
    assert_eq!(settings.gpu.friendlyname, Vec::<u8>::new());
    assert_eq!(settings.global.g_refresh_rate, vec![60, 120, 240]);
    assert!(settings.resolutions.resolution.is_empty());
    let colour = settings.colour.expect("colour");
    assert!(!colour.sdr10bit && !colour.hdr_plus);
    assert_eq!(colour.colour_format, b"RGB".to_vec());
    assert_eq!(settings.logging, Some(Logging { logging: false, debuglogging: false }));
    assert_eq!(
        settings.edid,
        Some(EdidConfig { custom_edid: false, prevent_spoof: false, edid_cea_override: false })
    );
}

#[test]
fn extra_sections_are_taken_over_where_given() {
    let mut incoming = get_default_settings();
    incoming.colour = Some(Colour { sdr10bit: true, hdr_plus: true, colour_format: b"YCbCr444".to_vec() });
    incoming.logging = None;
    incoming.edid = Some(EdidConfig { custom_edid: true, prevent_spoof: false, edid_cea_override: true });
    incoming.monitors.count = 9;
    let mut current = get_default_settings();
    current.gpu.friendlyname = b"GPU".to_vec();
    current.logging = Some(Logging { logging: true, debuglogging: true });
    let merged = merge_extra_fields(current, &incoming);
    assert_eq!(merged.monitors.count, 1);
    assert_eq!(merged.gpu.friendlyname, b"GPU".to_vec());
    let colour = merged.colour.expect("colour");
    assert!(colour.sdr10bit && colour.hdr_plus);
    assert_eq!(colour.colour_format, b"YCbCr444".to_vec());
    assert_eq!(merged.logging, Some(Logging { logging: true, debuglogging: true }));
    assert_eq!(
        merged.edid,
        Some(EdidConfig { custom_edid: true, prevent_spoof: false, edid_cea_override: true })
    );
    let mut bare = get_default_settings();
    bare.colour = None;
    bare.logging = None;
    bare.edid = None;
    let kept = merge_extra_fields(get_default_settings(), &bare);
    assert!(kept.colour.is_some() && kept.logging.is_some() && kept.edid.is_some());
}

#[test]
fn driver_settings_give_host_settings() {
    let list = vec![Resolution { width: 1920, height: 1080 }, Resolution { width: 2560, height: 1440 }];
    assert_eq!(resolutions_setting(&list), b"[1920x1080,2560x1440]".to_vec());
    assert_eq!(resolutions_setting(&vec![Resolution { width: 0, height: u32::MAX }]), b"[0x4294967295]".to_vec());
    assert_eq!(resolutions_setting(&Vec::new()), b"[]".to_vec());
    assert_eq!(refresh_rates_setting(&vec![60, 120, 240]), b"[60,120,240]".to_vec());
    assert_eq!(refresh_rates_setting(&vec![144]), b"[144]".to_vec());
    assert_eq!(refresh_rates_setting(&Vec::new()), b"[]".to_vec());
    let mut settings = get_default_settings();
    assert_eq!(pairs(&host_config_updates(&settings)), vec![pair("fps", "[60,120,240]")]);
    settings.resolutions.resolution = list;
    settings.gpu.friendlyname = b"RTX 4090".to_vec();
    assert_eq!(
        pairs(&host_config_updates(&settings)),
        vec![
            pair("resolutions", "[1920x1080,2560x1440]"),
            pair("fps", "[60,120,240]"),
            pair("adapter_name", "RTX 4090"),
        ]
    );
    settings.global.g_refresh_rate.clear();
    settings.resolutions.resolution.clear();
    settings.gpu.friendlyname.clear();
    assert!(host_config_updates(&settings).is_empty());
}

fn edid(len: usize) -> Vec<u8> {
    let mut data = vec![0u8; len];
    data[..8].copy_from_slice(&[0x00, 0xFF, 0xFF, 0xFF, 0xFF, 0xFF, 0xFF, 0x00]);
    data[8] = 0x10;
    data[9] = 0xAC;
    let sum: u32 = data[..127].iter().map(|&b| b as u32).sum();
    data[127] = ((256 - sum % 256) % 256) as u8;
    data
}

#[test]
fn edid_is_checked_for_size_header_and_checksum() {
    assert_eq!(validate_edid(&edid(128)), Ok(()));
    assert_eq!(validate_edid(&edid(256)), Ok(()));
    let mut second_block = edid(256);
    second_block[255] = 0x55;
    assert_eq!(validate_edid(&second_block), Ok(()));
    assert_eq!(validate_edid(&edid(128)[..127]), Err(EdidError::InvalidSize { len: 127 }));
    assert_eq!(validate_edid(&[]), Err(EdidError::InvalidSize { len: 0 }));
    assert_eq!(validate_edid(&vec![0u8; 129]), Err(EdidError::InvalidSize { len: 129 }));
    let mut header = edid(128);
    header[7] = 0x01;
    assert_eq!(validate_edid(&header), Err(EdidError::InvalidHeader));
    let mut sum = edid(128);
    let right = sum[127];
    sum[127] = right.wrapping_add(1);
    assert_eq!(
        validate_edid(&sum),
        Err(EdidError::InvalidChecksum { expected: right, actual: right.wrapping_add(1) })
    );
    let mut zero = vec![0u8; 128];
    zero[..8].copy_from_slice(&[0x00, 0xFF, 0xFF, 0xFF, 0xFF, 0xFF, 0xFF, 0x00]);
    zero[8] = 6;
    assert_eq!(validate_edid(&zero), Ok(()));
    zero[8] = 7;
    assert_eq!(validate_edid(&zero), Err(EdidError::InvalidChecksum { expected: 0xFF, actual: 0 }));
}

#[test]
fn edid_errors_are_put_in_words() {
    assert_eq!(
        EdidError::InvalidSize { len: 127 }.message(),
        "EDID 文件大小无效: 127 字节（必须是 128 或 256 字节）".as_bytes().to_vec()
    );
    assert_eq!(EdidError::InvalidHeader.message(), "EDID 头部格式无效".as_bytes().to_vec());
    assert_eq!(
        EdidError::InvalidChecksum { expected: 0x0A, actual: 0xFF }.message(),
        "EDID checksum 无效: 期望 0x0A，实际 0xFF".as_bytes().to_vec()
    );
    assert_eq!(
        EdidError::InvalidChecksum { expected: 0, actual: 0x9c }.message(),
        format!("EDID checksum 无效: 期望 0x{:02X}，实际 0x{:02X}", 0, 0x9c).into_bytes()
    );
}

#[test]
fn bitrate_request_goes_to_the_runtime_api() {
    assert_eq!(
        bitrate_request_url(b"https://127.0.0.1:47990", 20000, b"My PC & co"),
        Ok(b"https://127.0.0.1:47990/api/runtime/bitrate?bitrate=20000&clientname=My+PC+%26+co".to_vec())
    );
    assert_eq!(
        bitrate_request_url(b"https://host:1/web/ui?x=1#frag", 1, "客户端".as_bytes()),
        Ok(b"https://host:1/web/api/runtime/bitrate?bitrate=1&clientname=%E5%AE%A2%E6%88%B7%E7%AB%AF".to_vec())
    );
    let no_base = url::Url::parse("127.0.0.1").unwrap_err();
    assert_eq!(
        bitrate_request_url(b"127.0.0.1", 5, b"x"),
        Err(format!("解析 Sunshine URL 失败: {}", no_base).into_bytes())
    );
    let no_join = url::Url::parse("data:text/plain,x").unwrap().join("api/runtime/bitrate").unwrap_err();
    assert_eq!(
        bitrate_request_url(b"data:text/plain,x", 5, b"x"),
        Err(format!("构建 URL 失败: {}", no_join).into_bytes())
    );
}
