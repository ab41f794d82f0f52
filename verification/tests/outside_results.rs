use sunshine_control_panel::bypass::{find_url_parameter, target_from, DomainAllowlist};
use sunshine_control_panel::forward::mentions_connection_failure;
use sunshine_control_panel::outside::{UrlBuildError, UrlParts};
use sunshine_control_panel::scan::kind_of_lowered;
use sunshine_control_panel::scan::AppFileKind;
use sunshine_control_panel::shell::{navigate_to_parts, Navigation};
use sunshine_control_panel::sunshine::{base_of_parts, describe_built_url};
use sunshine_control_panel::update::is_windows_package_name;

fn parts(scheme: &str, host: Option<&str>, port: Option<u16>, path: &str, query: Option<&str>) -> UrlParts {
    UrlParts {
        scheme: scheme.as_bytes().to_vec(),
        host: host.map(|h| h.as_bytes().to_vec()),
        port,
        path: path.as_bytes().to_vec(),
        query: query.map(|q| q.as_bytes().to_vec()),
    }
}

fn pairs(list: &[(&str, &str)]) -> Vec<(Vec<u8>, Vec<u8>)> {
    list.iter().map(|(k, v)| (k.as_bytes().to_vec(), v.as_bytes().to_vec())).collect()
}

#[test]
fn url_parameter_is_the_first_pair_called_url() {
    assert_eq!(find_url_parameter(&pairs(&[("a", "1"), ("url", "u1"), ("url", "u2")])), Some(b"u1".to_vec()));
    assert_eq!(find_url_parameter(&pairs(&[("URL", "u1"), ("urls", "u2"), ("", "u3")])), None);
    assert_eq!(find_url_parameter(&pairs(&[("url", "")])), Some(Vec::new()));
    assert_eq!(find_url_parameter(&Vec::new()), None);
}

#[test]
fn target_is_taken_from_path_before_query() {
    let query_pairs = pairs(&[("url", "https://github.com/q")]);
    assert_eq!(
        target_from(b"/_proxy/https%3A%2F%2Fgithub.com%2Fp", b"url=x", &query_pairs),
        Some(b"https://github.com/p".to_vec())
    );
    assert_eq!(target_from(b"/_proxy/", b"url=x", &query_pairs), Some(b"https://github.com/q".to_vec()));
    assert_eq!(target_from(b"/other", b"url=x", &query_pairs), Some(b"https://github.com/q".to_vec()));
    // An empty query is not looked into, whatever its pairs are said to be.
    assert_eq!(target_from(b"/_proxy/", b"", &query_pairs), None);
    assert_eq!(target_from(b"/_proxy/%80", b"url=x", &query_pairs), None);
    assert_eq!(target_from(b"/_proxy/", b"a=b", &pairs(&[("a", "b")])), None);
}

#[test]
fn allowlist_reads_the_host_of_url_parts() {
    let list = DomainAllowlist::standard();
    assert!(list.allows_parts(&Some(parts("https", Some("api.github.com"), None, "/", None))));
    assert!(list.allows_parts(&Some(parts("ftp", Some("x.github.io"), Some(21), "/", None))));
    assert!(!list.allows_parts(&Some(parts("https", Some("example.com"), None, "/github.com", None))));
    assert!(!list.allows_parts(&Some(parts("data", None, None, "github.com", None))));
    assert!(!list.allows_parts(&None));
    let own = DomainAllowlist::of(vec![b"example.org".to_vec()]);
    assert!(own.allows(b"example.org"));
    assert!(own.allows(b"cdn.example.org"));
    assert!(!own.allows(b"github.com"));
}

#[test]
fn connection_phrases_are_looked_for_in_lowered_words() {
    for words in [
        "connection", "refused", "timed out", "timeout", "unreachable", "error sending request",
        "network", "dns", "xx dns xx", "reconnection",
    ] {
        assert!(mentions_connection_failure(words.as_bytes()), "{}", words);
    }
    for words in ["", "Connection", "timed  out", "time out", "DNS", "net work", "refuse"] {
        assert!(!mentions_connection_failure(words.as_bytes()), "{}", words);
    }
}

#[test]
fn base_is_made_of_scheme_host_and_port() {
    assert_eq!(base_of_parts(&parts("https", Some("h"), Some(1), "/p", Some("q"))), b"https://h:1".to_vec());
    assert_eq!(base_of_parts(&parts("http", Some("h"), None, "/", None)), b"http://h:47990".to_vec());
    assert_eq!(base_of_parts(&parts("x", None, Some(65535), "", None)), b"x://127.0.0.1:65535".to_vec());
    assert_eq!(base_of_parts(&parts("", None, None, "", None)), b"://127.0.0.1:47990".to_vec());
}

#[test]
fn url_failures_are_put_in_words() {
    assert_eq!(describe_built_url(Ok(b"https://h/".to_vec())), Ok(b"https://h/".to_vec()));
    assert_eq!(
        describe_built_url(Err(UrlBuildError::Base(b"empty host".to_vec()))),
        Err("解析 Sunshine URL 失败: empty host".as_bytes().to_vec())
    );
    assert_eq!(
        describe_built_url(Err(UrlBuildError::Join(b"bad path".to_vec()))),
        Err("构建 URL 失败: bad path".as_bytes().to_vec())
    );
}

#[test]
fn navigation_follows_path_and_query() {
    match navigate_to_parts(b"P", &Some(parts("https", Some("h"), None, "/a", Some("b=c")))) {
        Navigation::Script(script) => assert_eq!(
            String::from_utf8_lossy(&script),
            "(function(){ const iframe = document.querySelector('.sunshine-iframe'); if (iframe) iframe.src = 'P/a?b=c'; })();"
        ),
        _ => panic!("a script is expected"),
    }
    match navigate_to_parts(b"P", &Some(parts("https", Some("h"), None, "", Some("")))) {
        Navigation::Script(script) => assert_eq!(
            String::from_utf8_lossy(&script),
            "(function(){ const iframe = document.querySelector('.sunshine-iframe'); if (iframe) iframe.src = 'P?'; })();"
        ),
        _ => panic!("a script is expected"),
    }
    assert!(matches!(
        navigate_to_parts(b"P", &Some(parts("https", Some("h"), None, "/pin", None))),
        Navigation::Skipped
    ));
    // The slash of the path and the word of the query do not make `/pin` together.
    assert!(matches!(
        navigate_to_parts(b"P", &Some(parts("https", Some("pin"), None, "/", Some("pin")))),
        Navigation::Script(_)
    ));
    assert!(matches!(
        navigate_to_parts(b"P", &Some(parts("https", Some("h"), None, "/a", Some("x=/pin")))),
        Navigation::Skipped
    ));
    assert!(matches!(navigate_to_parts(b"P", &None), Navigation::Invalid));
}

#[test]
fn names_in_lower_case_are_classified() {
    assert!(is_windows_package_name(b"sunshine-windows.zip"));
    assert!(is_windows_package_name(b"a.msi"));
    assert!(is_windows_package_name(b".exe"));
    assert!(!is_windows_package_name(b"a.MSI"));
    assert!(!is_windows_package_name(b"Windows"));
    assert!(!is_windows_package_name(b"a.exe.sha256"));
    assert_eq!(kind_of_lowered(b"exe"), Some(AppFileKind::Executable));
    assert_eq!(kind_of_lowered(b"EXE"), None);
    assert_eq!(kind_of_lowered(b"cmd"), Some(AppFileKind::Batch));
}
