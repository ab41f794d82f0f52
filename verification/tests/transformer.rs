use sunshine_control_panel::headers::{copy_headers, find_value, keeps_header, CopyRule, Header};
use sunshine_control_panel::inject::{
    build_block, inject_if_needed, inject_theme_script, media_type, should_inject_script,
    transform_response, InjectionPayload,
};
use sunshine_control_panel::messages::UpstreamResponse;
use sunshine_control_panel::text::{
    bytes_eq, contains_bytes, ends_with, find, last_segment_of, matches_at, push_decimal, replaced,
    starts_with, to_ascii_lower, trimmed_end, trimmed_start,
};

fn payload(production: bool) -> InjectionPayload {
    InjectionPayload {
        style: b"STYLE".to_vec(),
        script: "log('主题同步脚本已加载')".as_bytes().to_vec(),
        production,
    }
}

fn block(production: bool) -> Vec<u8> {
    let flag: &[u8] = if production {
        b"window.TAURI_PRODUCTION = true;\n"
    } else {
        b"window.TAURI_PRODUCTION = false;\n"
    };
    [
        "\n<!-- Tauri 样式优化 -->\n<style id=\"tauri-scrollbar-theme\">\nSTYLE\n</style>\n".as_bytes(),
        "<!-- Tauri 功能脚本 -->\n<script>\n".as_bytes(),
        flag,
        "log('主题同步脚本已加载')".as_bytes(),
        b"\n</script>\n",
    ]
    .concat()
}

#[test]
fn block_holds_style_flag_and_script_in_order() {
    assert_eq!(build_block(&payload(true)), block(true));
    assert_eq!(build_block(&payload(false)), block(false));
    assert_ne!(block(true), block(false));
}

#[test]
fn block_is_set_before_first_head_close() {
    let html = b"<html><head></head><body></head></body></html>".to_vec();
    let expected = [&b"<html><head>"[..], &block(false), b"</head><body></head></body></html>"].concat();
    assert_eq!(inject_theme_script(&payload(false), html.clone()), expected);
    assert_eq!(inject_if_needed(&payload(false), html), expected);
}

#[test]
fn document_without_head_close_is_left_alone() {
    for body in [&b"<html><body>no head</body></html>"[..], b"<!DOCTYPE html><HEAD></HEAD>", b"<html></head", b""] {
        assert_eq!(inject_theme_script(&payload(true), body.to_vec()), body.to_vec());
        assert_eq!(inject_if_needed(&payload(true), body.to_vec()), body.to_vec());
    }
}

#[test]
fn document_with_sentinel_is_left_alone() {
    let body = "<html><head><script>log('主题同步脚本已加载')</script></head></html>".as_bytes().to_vec();
    assert_eq!(inject_if_needed(&payload(true), body.clone()), body);
}

#[test]
fn transforming_twice_changes_nothing_more() {
    let html = b"<!DOCTYPE html><head></head>".to_vec();
    let once = inject_if_needed(&payload(true), html.clone());
    assert_ne!(once, html);
    let twice = inject_if_needed(&payload(true), once.clone());
    assert_eq!(twice, once);
}

#[test]
fn body_that_is_no_document_is_left_alone() {
    let fragment = b"<div><head></head></div>".to_vec();
    assert_eq!(inject_if_needed(&payload(true), fragment.clone()), fragment);
    let upper = b"<HTML><head></head></HTML>".to_vec();
    assert_eq!(inject_if_needed(&payload(true), upper.clone()), upper);
    let lower_doctype = b"<!doctype html><head></head>".to_vec();
    assert_eq!(inject_if_needed(&payload(true), lower_doctype.clone()), lower_doctype);
}

#[test]
fn body_that_is_not_utf8_is_left_alone() {
    let mut body = b"<html><head></head>".to_vec();
    body.push(0xff);
    assert_eq!(inject_if_needed(&payload(true), body.clone()), body);
    let mut cut = b"<html><head></head>".to_vec();
    cut.extend_from_slice(&[0xe4, 0xb8]);
    assert_eq!(inject_if_needed(&payload(true), cut.clone()), cut);
}

#[test]
fn pages_are_recognised_by_type_and_path() {
    assert!(should_inject_script(b"/", b"text/html"));
    assert!(should_inject_script(b"/", b"text/html; charset=utf-8"));
    assert!(should_inject_script(b"/apps", b"text/html"));
    assert!(should_inject_script(b"/config", b"text/html"));
    assert!(should_inject_script(b"/password", b"text/html"));
    assert!(should_inject_script(b"/pin", b"text/html"));
    assert!(should_inject_script(b"/troubleshooting", b"text/html"));
    assert!(should_inject_script(b"/welcome", b"text/html"));
    assert!(should_inject_script(b"/sub/dir/", b"text/html"));
    assert!(should_inject_script(b"/a/index.html", b"text/html"));
    assert!(should_inject_script(b"/a/index.htm", b"text/html"));
    assert!(should_inject_script(b"", b"text/html"));
    assert!(!should_inject_script(b"/", b"application/json"));
    assert!(!should_inject_script(b"/", b"TEXT/HTML"));
    assert!(!should_inject_script(b"/apps2", b"text/html"));
    assert!(!should_inject_script(b"/api/apps.json", b"text/html"));
    assert!(!should_inject_script(b"/Apps", b"text/html"));
    assert!(!should_inject_script(b"/index.HTML", b"text/html"));
}

#[test]
fn media_type_is_the_first_content_type_as_it_came() {
    assert_eq!(media_type(&Vec::new()), b"");
    let plain = vec![Header::new(b"Content-Type", b"text/plain")];
    assert_eq!(media_type(&plain), b"text/plain");
    let two = vec![
        Header::new(b"x", b"y"),
        Header::new(b"CONTENT-TYPE", b"image/png"),
        Header::new(b"content-type", b"text/plain"),
    ];
    assert_eq!(media_type(&two), b"image/png");
    let binary = vec![Header::new(b"content-type", &[0x80, 0x81])];
    assert_eq!(media_type(&binary), &[0x80u8, 0x81][..]);
}

#[test]
fn response_without_content_type_is_passed_on() {
    let body = b"<html><head></head></html>".to_vec();
    let upstream = UpstreamResponse { status: 200, headers: Vec::new(), body: body.clone() };
    let response = transform_response(&payload(false), b"/welcome", upstream);
    assert_eq!(response.status, 200);
    assert_eq!(response.body, body);
    assert_eq!(response.headers.len(), 0);
}

#[test]
fn response_of_another_content_type_is_passed_on() {
    let body = b"<html><head></head></html>".to_vec();
    for value in [&b"application/json"[..], b"text/plain", b"TEXT/HTML", &[0x80, 0x81], b"text/htm\xffl"] {
        let upstream = UpstreamResponse {
            status: 203,
            headers: vec![Header::new(b"Content-Type", value), Header::new(b"etag", b"7")],
            body: body.clone(),
        };
        let response = transform_response(&payload(true), b"/apps", upstream);
        assert_eq!(response.status, 203);
        assert_eq!(response.body, body);
        assert_eq!(response.headers.len(), 2);
        assert_eq!(find_value(&response.headers, b"etag"), Some(&b"7".to_vec()));
    }
}

#[test]
fn content_type_is_searched_byte_for_byte() {
    let upstream = UpstreamResponse {
        status: 200,
        headers: vec![Header::new(b"Content-Type", b"text/html; charset=\xe4")],
        body: b"<html><head></head></html>".to_vec(),
    };
    let response = transform_response(&payload(false), b"/welcome", upstream);
    let expected = [&b"<html><head>"[..], &block(false), b"</head></html>"].concat();
    assert_eq!(response.body, expected);
    assert_eq!(response.headers.len(), 4);
}

#[test]
fn page_without_injection_keeps_cache_headers() {
    for body in [
        &b"plain text without markup"[..],
        b"<html><body>no head</body></html>",
        "<html><head>主题同步脚本已加载</head></html>".as_bytes(),
        b"<html><head></head>\xff",
    ] {
        let upstream = UpstreamResponse {
            status: 200,
            headers: vec![
                Header::new(b"content-type", b"text/html"),
                Header::new(b"etag", b"1"),
                Header::new(b"content-length", b"25"),
            ],
            body: body.to_vec(),
        };
        let response = transform_response(&payload(false), b"/", upstream);
        assert_eq!(response.body, body.to_vec());
        assert_eq!(find_value(&response.headers, b"etag"), Some(&b"1".to_vec()));
        assert_eq!(find_value(&response.headers, b"pragma"), None);
        assert_eq!(find_value(&response.headers, b"content-length"), None);
        assert_eq!(response.headers.len(), 2);
    }
}

#[test]
fn injected_page_loses_cache_headers() {
    let upstream = UpstreamResponse {
        status: 200,
        headers: vec![
            Header::new(b"content-type", b"text/html"),
            Header::new(b"etag", b"1"),
            Header::new(b"Expires", b"tomorrow"),
        ],
        body: b"<html><head></head></html>".to_vec(),
    };
    let response = transform_response(&payload(false), b"/", upstream);
    assert_ne!(response.body, b"<html><head></head></html>".to_vec());
    assert_eq!(find_value(&response.headers, b"etag"), None);
    assert_eq!(find_value(&response.headers, b"pragma"), Some(&b"no-cache".to_vec()));
    assert_eq!(find_value(&response.headers, b"expires"), Some(&b"0".to_vec()));
    assert_eq!(
        find_value(&response.headers, b"cache-control"),
        Some(&b"no-cache, no-store, must-revalidate".to_vec())
    );
    assert_eq!(response.headers.len(), 4);
}

#[test]
fn page_outside_known_paths_keeps_cache_headers() {
    let upstream = UpstreamResponse {
        status: 304,
        headers: vec![
            Header::new(b"content-type", b"text/html"),
            Header::new(b"etag", b"1"),
            Header::new(b"Transfer-Encoding", b"chunked"),
        ],
        body: b"<html><head></head></html>".to_vec(),
    };
    let response = transform_response(&payload(false), b"/assets/frame", upstream);
    assert_eq!(response.status, 304);
    assert_eq!(response.body, b"<html><head></head></html>".to_vec());
    assert_eq!(response.headers.len(), 2);
    assert_eq!(find_value(&response.headers, b"etag"), Some(&b"1".to_vec()));
}

#[test]
fn copy_rules_compare_names_without_case() {
    let h = |name: &str| Header::new(name.as_bytes(), b"v");
    assert!(!keeps_header(CopyRule::Outbound, &h("Host")));
    assert!(!keeps_header(CopyRule::Outbound, &h("CONTENT-LENGTH")));
    assert!(keeps_header(CopyRule::Outbound, &h("content-encoding")));
    assert!(keeps_header(CopyRule::Outbound, &h("hostname")));
    assert!(keeps_header(CopyRule::Outbound, &Header::new(b"x", &[127, 0xff])));
    assert!(keeps_header(CopyRule::Outbound, &Header::new(b"x", b"")));
    assert!(keeps_header(CopyRule::Outbound, &h("Authorization")));
    assert!(!keeps_header(CopyRule::Outbound, &h("Transfer-Encoding")));
    assert!(!keeps_header(CopyRule::Outbound, &h("connection")));
    assert!(!keeps_header(CopyRule::Relay, &h("Access-Control-Max-Age")));
    assert!(!keeps_header(CopyRule::Relay, &h("transfer-encoding")));
    assert!(keeps_header(CopyRule::Relay, &h("access-control")));
    assert!(keeps_header(CopyRule::Relay, &Header::new(b"x", &[0xff])));
    assert!(keeps_header(CopyRule::Page { rewritten: false }, &h("ETag")));
    assert!(!keeps_header(CopyRule::Page { rewritten: true }, &h("ETag")));
    assert!(!keeps_header(CopyRule::Page { rewritten: false }, &h("Content-Encoding")));
    let all = vec![h("a"), h("host"), h("b"), h("connection"), h("c")];
    let names: Vec<Vec<u8>> =
        copy_headers(CopyRule::Outbound, &all).into_iter().map(|h| h.name).collect();
    assert_eq!(names, vec![b"a".to_vec(), b"b".to_vec(), b"c".to_vec()]);
}

#[test]
fn byte_string_functions_agree_with_std() {
    assert!(starts_with(b"abc", b"ab"));
    assert!(starts_with(b"abc", b""));
    assert!(!starts_with(b"ab", b"abc"));
    assert!(ends_with(b"abc", b"bc"));
    assert!(!ends_with(b"abc", b"ab"));
    assert!(bytes_eq(b"", b""));
    assert!(!bytes_eq(b"a", b"b"));
    assert!(matches_at(b"hello", b"ll", 2));
    assert!(!matches_at(b"hello", b"ll", 3));
    assert!(!matches_at(b"hello", b"lo", usize::MAX));
    assert_eq!(find(b"a</head>b</head>", b"</head>"), Some(1));
    assert_eq!(find(b"abc", b""), Some(0));
    assert_eq!(find(b"", b""), Some(0));
    assert_eq!(find(b"abc", b"abcd"), None);
    assert_eq!(find(b"abc", b"c"), Some(2));
    assert!(contains_bytes(b"xtext/htmlx", b"text/html"));
    assert_eq!(to_ascii_lower(b"Content-TYPE@[`{"), b"content-type@[`{".to_vec());
    assert_eq!(to_ascii_lower("Ä".as_bytes()), "Ä".as_bytes().to_vec());
    assert_eq!(trimmed_end(b"a//", b'/'), b"a");
    assert_eq!(trimmed_end(b"//", b'/'), b"");
    assert_eq!(trimmed_start(b"vv1.2", b'v'), b"1.2");
    assert_eq!(last_segment_of(b"/a/b", b'/'), b"b");
    assert_eq!(last_segment_of(b"/a/", b'/'), b"");
    assert_eq!(last_segment_of(b"ab", b'/'), b"ab");
    assert_eq!(replaced(b"https://a/https://b", b"https://", b"http://"), b"http://a/http://b".to_vec());
    assert_eq!(replaced(b"aaa", b"aa", b"b"), b"ba".to_vec());
    assert_eq!(replaced(b"abc", b"abcd", b"x"), b"abc".to_vec());
    let mut out = b"n=".to_vec();
    push_decimal(&mut out, 0);
    push_decimal(&mut out, 18446744073709551615);
    assert_eq!(out, b"n=018446744073709551615".to_vec());
}

fn count(hay: &[u8], needle: &[u8]) -> usize {
    hay.windows(needle.len()).filter(|window| *window == needle).count()
}

#[test]
fn rewritten_page_holds_each_mark_once() {
    for production in [true, false] {
        let upstream = UpstreamResponse {
            status: 200,
            headers: vec![Header::new(b"Content-Type", b"text/html; charset=utf-8")],
            body: b"<!DOCTYPE html><html><head><title>t</title></head><body></head></body></html>".to_vec(),
        };
        let response = transform_response(&payload(production), b"/apps", upstream);
        assert_eq!(response.status, 200);
        assert_eq!(count(&response.body, b"<style id=\"tauri-scrollbar-theme\">"), 1);
        assert_eq!(count(&response.body, b"<script>"), 1);
        assert_eq!(count(&response.body, b"window.TAURI_PRODUCTION = "), 1);
        assert_eq!(count(&response.body, b"</style>"), 1);
        assert_eq!(count(&response.body, b"</script>"), 1);
        let tag = find(&response.body, b"<style id=\"tauri-scrollbar-theme\">").unwrap();
        let script = find(&response.body, b"<script>").unwrap();
        let flag = find(&response.body, b"window.TAURI_PRODUCTION = ").unwrap();
        let head = find(&response.body, b"</head>").unwrap();
        assert_eq!(tag, 43 + 1 + 27 + 1);
        assert!(tag < script && script + 9 == flag && flag < head);
        assert_eq!(head, 43 + block(production).len());
    }
}

#[test]
fn payload_that_holds_a_mark_is_set_in_as_it_is() {
    let holder = InjectionPayload {
        style: b"STYLE".to_vec(),
        script: b"document.write('<style id=\"tauri-scrollbar-theme\">')".to_vec(),
        production: true,
    };
    let page = inject_theme_script(&holder, b"<html><head></head></html>".to_vec());
    assert_eq!(count(&page, b"<style id=\"tauri-scrollbar-theme\">"), 2);
    assert_eq!(count(&page, b"<script>"), 1);
}
