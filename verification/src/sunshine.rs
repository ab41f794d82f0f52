//! What is read of the streaming host: its configuration, the address of
//! its web interface, its version, and the sessions that it reports.

use crate::config::{
    find_last_value, last_value, parse_simple, simple_entries, trim_space_start,
    trimmed_space_start,
};
use crate::outside::{
    build_url_with_query, first_group, lowercase, parse_url, regex_first_group, to_lowercase,
    url_parts, url_with_query, UrlBuildError, UrlBuildErrorView, UrlParts, UrlPartsView,
    URL_PART_LIMIT,
};
use crate::text::{
    append, contains, contains_bytes, copy_of, decimal, option_view, parse_number, parsed_number,
    push_decimal, starts_with,
};
use vstd::prelude::*;
use vstd::string::StringSliceAdditionalSpecFns;

verus! {

/// The port of the host where its configuration names none.
pub const DEFAULT_SUNSHINE_PORT: u16 = 47989;

/// The port of the web interface where a URL names none.
pub const DEFAULT_WEB_UI_PORT: u16 = 47990;

/// The settings of the host that this crate reads.
#[derive(Debug)]
pub struct SunshineConfig {
    pub port: Option<Vec<u8>>,
    pub adapter_name: Option<Vec<u8>>,
    pub resolutions: Option<Vec<u8>>,
    pub fps: Option<Vec<u8>>,
}

pub struct SunshineConfigView {
    pub port: Option<Seq<u8>>,
    pub adapter_name: Option<Seq<u8>>,
    pub resolutions: Option<Seq<u8>>,
    pub fps: Option<Seq<u8>>,
}

impl View for SunshineConfig {
    type V = SunshineConfigView;

    open spec fn view(&self) -> SunshineConfigView {
        SunshineConfigView {
            port: option_view(self.port),
            adapter_name: option_view(self.adapter_name),
            resolutions: option_view(self.resolutions),
            fps: option_view(self.fps),
        }
    }
}

/// The settings that a configuration text gives: for each of the four
/// keys, the value of its last line.
pub open spec fn config_of(content: Seq<u8>) -> SunshineConfigView {
    let entries = simple_entries(content);
    SunshineConfigView {
        port: last_value(entries, "port".spec_bytes()),
        adapter_name: last_value(entries, "adapter_name".spec_bytes()),
        resolutions: last_value(entries, "resolutions".spec_bytes()),
        fps: last_value(entries, "fps".spec_bytes()),
    }
}

/// The settings that stand in for a configuration file that does not exist.
pub open spec fn missing_config() -> SunshineConfigView {
    SunshineConfigView {
        port: Some("47989".spec_bytes()),
        adapter_name: None,
        resolutions: None,
        fps: None,
    }
}

impl SunshineConfig {
    /// The settings to use where there is no configuration file.
    pub fn missing() -> (config: SunshineConfig)
        ensures
            config@ == missing_config(),
    {
        SunshineConfig {
            port: Some(copy_of("47989".as_bytes())),
            adapter_name: None,
            resolutions: None,
            fps: None,
        }
    }
}

/// Reads the settings out of the text of a configuration file.
pub fn parse_sunshine_config(content: &[u8]) -> (config: SunshineConfig)
    ensures
        config@ == config_of(content@),
{
    let entries = parse_simple(content);
    SunshineConfig {
        port: find_last_value(&entries, "port".as_bytes()),
        adapter_name: find_last_value(&entries, "adapter_name".as_bytes()),
        resolutions: find_last_value(&entries, "resolutions".as_bytes()),
        fps: find_last_value(&entries, "fps".as_bytes()),
    }
}

/// The port that a configuration names: its `port` where that is a number
/// up to 65535, else the default.
pub open spec fn configured_port(port: Option<Seq<u8>>) -> u16 {
    match port {
        Some(text) => match parsed_number(text, 65535) {
            Some(number) => number as u16,
            None => DEFAULT_SUNSHINE_PORT,
        },
        None => DEFAULT_SUNSHINE_PORT,
    }
}

/// The port behind `port`; behind the last port comes port 0.
pub open spec fn port_behind(port: u16) -> u16 {
    if port == 65535 {
        0
    } else {
        (port + 1) as u16
    }
}

/// The address of the web interface of a host with this configuration: on
/// this machine, one port behind the configured one.
pub open spec fn web_ui_url(port: Option<Seq<u8>>) -> Seq<u8> {
    "https://127.0.0.1:".spec_bytes() + decimal(port_behind(configured_port(port)) as nat)
}

/// The address of the web interface, from the host's configuration.
pub fn url_from_config(config: &SunshineConfig) -> (url: Vec<u8>)
    ensures
        url@ == web_ui_url(config@.port),
{
    let port: u16 = match &config.port {
        Some(text) => match parse_number(text.as_slice(), 65535) {
            Some(number) => number as u16,
            None => DEFAULT_SUNSHINE_PORT,
        },
        None => DEFAULT_SUNSHINE_PORT,
    };
    let next: u16 = if port == 65535 {
        0
    } else {
        port + 1
    };
    let mut url = copy_of("https://127.0.0.1:".as_bytes());
    push_decimal(&mut url, next as u64);
    url
}

/// Scheme, host and port of a URL, as `scheme://host:port`; a URL without
/// host is taken to mean this machine, one without port the default port.
pub open spec fn base_of(parts: UrlPartsView) -> Seq<u8> {
    parts.scheme + "://".spec_bytes() + (match parts.host {
        Some(host) => host,
        None => "127.0.0.1".spec_bytes(),
    }) + seq![58u8] + decimal(
        (match parts.port {
            Some(port) => port,
            None => DEFAULT_WEB_UI_PORT,
        }) as nat,
    )
}

/// The base of a URL; `None` for a text that is no absolute URL.
pub open spec fn url_base(url: Seq<u8>) -> Option<Seq<u8>> {
    match url_parts(url) {
        Some(parts) => Some(base_of(parts)),
        None => None,
    }
}

pub fn base_of_parts(parts: &UrlParts) -> (base: Vec<u8>)
    ensures
        base@ == base_of(parts@),
{
    let mut base = copy_of(parts.scheme.as_slice());
    append(&mut base, "://".as_bytes());
    match &parts.host {
        Some(host) => append(&mut base, host.as_slice()),
        None => append(&mut base, "127.0.0.1".as_bytes()),
    }
    base.push(58);
    let port: u16 = match parts.port {
        Some(port) => port,
        None => DEFAULT_WEB_UI_PORT,
    };
    push_decimal(&mut base, port as u64);
    base
}

pub fn parse_url_to_base(url: &[u8]) -> (base: Option<Vec<u8>>)
    ensures
        option_view(base) == url_base(url@),
{
    match parse_url(url) {
        Some(parts) => Some(base_of_parts(&parts)),
        None => None,
    }
}

/// The address of the web interface as given on the command line: the base
/// of the URL, or the text itself as the error where it is no URL.
pub fn url_from_command_line(url: &[u8]) -> (base: Result<Vec<u8>, Vec<u8>>)
    ensures
        match url_base(url@) {
            Some(expected) => base matches Ok(b) && b@ == expected,
            None => base matches Err(e) && e@ == url@,
        },
{
    match parse_url_to_base(url) {
        Some(base) => Ok(base),
        None => Err(copy_of(url)),
    }
}

/// The patterns by which a version is found in what the host prints, in
/// the order in which they are tried.
pub open spec fn version_patterns() -> Seq<Seq<u8>> {
    seq![
        "v?(\\d+\\.\\d+\\.\\d+\\.杂鱼)".spec_bytes(),
        "(\\d+\\.\\d+\\.\\d+\\.杂鱼)".spec_bytes(),
        "Sunshine\\s+v?([\\d.]+(?:\\.杂鱼)?)".spec_bytes(),
        "version\\s*:?\\s*v?([\\d.]+(?:\\.杂鱼)?)".spec_bytes(),
        "v?(\\d+\\.\\d+\\.\\d+(?:\\.杂鱼)?)".spec_bytes(),
        "(\\d+\\.\\d+(?:\\.杂鱼)?)".spec_bytes(),
    ]
}

/// What each pattern finds in `output`, one entry for each pattern in order.
pub open spec fn pattern_groups(output: Seq<u8>) -> Seq<Option<Seq<u8>>> {
    Seq::new(version_patterns().len(), |i: int| first_group(version_patterns()[i], output))
}

/// The first group among `groups` that was found, from `from` on; `Unknown` where none was.
pub open spec fn first_found(groups: Seq<Option<Seq<u8>>>, from: int) -> Seq<u8>
    decreases groups.len() - from,
{
    if from < 0 || from >= groups.len() {
        "Unknown".spec_bytes()
    } else {
        match groups[from] {
            Some(version) => version,
            None => first_found(groups, from + 1),
        }
    }
}

/// The version that the host printed: what the first pattern that finds
/// anything finds, or `Unknown`.
pub open spec fn version_in(output: Seq<u8>) -> Seq<u8> {
    first_found(pattern_groups(output), 0)
}

pub open spec fn groups_view(groups: Seq<Option<Vec<u8>>>) -> Seq<Option<Seq<u8>>> {
    Seq::new(groups.len(), |i: int| option_view(groups[i]))
}

/// Picks the version out of what each pattern found.
pub fn pick_version(groups: &Vec<Option<Vec<u8>>>) -> (version: Vec<u8>)
    ensures
        version@ == first_found(groups_view(groups@), 0),
{
    let mut i: usize = 0;
    while i < groups.len()
        invariant
            i <= groups.len(),
            first_found(groups_view(groups@), 0) == first_found(groups_view(groups@), i as int),
        decreases groups.len() - i,
    {
        assert(groups_view(groups@)[i as int] == option_view(groups@[i as int]));
        match &groups[i] {
            Some(version) => {
                return copy_of(version.as_slice());
            },
            None => {},
        }
        i += 1;
    }
    copy_of("Unknown".as_bytes())
}

/// Finds the version in what the host printed when asked for it.
pub fn extract_version(output: &[u8]) -> (version: Vec<u8>)
    ensures
        version@ == version_in(output@),
{
    let mut patterns: Vec<&str> = Vec::new();
    patterns.push("v?(\\d+\\.\\d+\\.\\d+\\.杂鱼)");
    patterns.push("(\\d+\\.\\d+\\.\\d+\\.杂鱼)");
    patterns.push("Sunshine\\s+v?([\\d.]+(?:\\.杂鱼)?)");
    patterns.push("version\\s*:?\\s*v?([\\d.]+(?:\\.杂鱼)?)");
    patterns.push("v?(\\d+\\.\\d+\\.\\d+(?:\\.杂鱼)?)");
    patterns.push("(\\d+\\.\\d+(?:\\.杂鱼)?)");
    let mut groups: Vec<Option<Vec<u8>>> = Vec::new();
    let mut i: usize = 0;
    while i < patterns.len()
        invariant
            i <= patterns.len(),
            patterns@.len() == version_patterns().len(),
            forall|j: int|
                0 <= j < patterns@.len() ==> (#[trigger] patterns@[j]).spec_bytes()
                    == version_patterns()[j],
            groups@.len() == i,
            forall|j: int|
                0 <= j < i ==> option_view(#[trigger] groups@[j]) == first_group(
                    version_patterns()[j],
                    output@,
                ),
        decreases patterns.len() - i,
    {
        groups.push(regex_first_group(patterns[i].as_bytes(), output));
        i += 1;
    }
    assert(groups_view(groups@) =~= pattern_groups(output@));
    pick_version(&groups)
}

/// A session as the host reports it.
#[derive(Debug)]
pub struct SessionInfo {
    pub client_name: Vec<u8>,
    pub client_address: Vec<u8>,
    pub state: Vec<u8>,
    pub session_id: i32,
    pub width: u32,
    pub height: u32,
    pub fps: u32,
    /// Kilobits per second.
    pub bitrate: u32,
    pub host_audio: bool,
    pub enable_hdr: bool,
    pub enable_mic: bool,
    pub app_name: Vec<u8>,
    pub app_id: i32,
}

/// What a JSON object of the host's answer holds of a session. A member
/// that is missing, or of another type than expected, is `None`.
#[derive(Debug)]
pub struct SessionFields {
    pub client_name: Option<Vec<u8>>,
    pub client_address: Option<Vec<u8>>,
    pub state: Option<Vec<u8>>,
    pub session_id: Option<i64>,
    pub width: Option<u64>,
    pub height: Option<u64>,
    pub fps: Option<u64>,
    pub bitrate: Option<u64>,
    pub host_audio: Option<bool>,
    pub enable_hdr: Option<bool>,
    pub enable_mic: Option<bool>,
    pub app_name: Option<Vec<u8>>,
    pub app_id: Option<i64>,
}

pub struct SessionInfoView {
    pub client_name: Seq<u8>,
    pub client_address: Seq<u8>,
    pub state: Seq<u8>,
    pub session_id: i32,
    pub width: u32,
    pub height: u32,
    pub fps: u32,
    pub bitrate: u32,
    pub host_audio: bool,
    pub enable_hdr: bool,
    pub enable_mic: bool,
    pub app_name: Seq<u8>,
    pub app_id: i32,
}

impl View for SessionInfo {
    type V = SessionInfoView;

    open spec fn view(&self) -> SessionInfoView {
        SessionInfoView {
            client_name: self.client_name@,
            client_address: self.client_address@,
            state: self.state@,
            session_id: self.session_id,
            width: self.width,
            height: self.height,
            fps: self.fps,
            bitrate: self.bitrate,
            host_audio: self.host_audio,
            enable_hdr: self.enable_hdr,
            enable_mic: self.enable_mic,
            app_name: self.app_name@,
            app_id: self.app_id,
        }
    }
}

/// The low 32 bits of a number.
pub open spec fn low_u32(value: Option<u64>) -> u32 {
    match value {
        Some(v) => (v % 0x1_0000_0000) as u32,
        None => 0,
    }
}

/// The low 32 bits of a number, read as a signed number.
pub open spec fn low_i32(value: Option<i64>) -> i32 {
    match value {
        Some(v) => {
            let low = v % 0x1_0000_0000;
            if low >= 0x8000_0000 {
                (low - 0x1_0000_0000) as i32
            } else {
                low as i32
            }
        },
        None => 0,
    }
}

pub open spec fn text_or(value: Option<Vec<u8>>, fallback: Seq<u8>) -> Seq<u8> {
    match value {
        Some(text) => text@,
        None => fallback,
    }
}

pub open spec fn flag_or_false(value: Option<bool>) -> bool {
    match value {
        Some(flag) => flag,
        None => false,
    }
}

/// The session that the members of a JSON object describe. A text that is
/// missing is empty, but for the client name (`Unknown`) and the state
/// (`UNKNOWN`); a number that is missing is 0, and of a number that is too
/// large the low 32 bits are kept; a flag that is missing is `false`.
pub open spec fn session_of(fields: SessionFields) -> SessionInfoView {
    SessionInfoView {
        client_name: text_or(fields.client_name, "Unknown".spec_bytes()),
        client_address: text_or(fields.client_address, Seq::empty()),
        state: text_or(fields.state, "UNKNOWN".spec_bytes()),
        session_id: low_i32(fields.session_id),
        width: low_u32(fields.width),
        height: low_u32(fields.height),
        fps: low_u32(fields.fps),
        bitrate: low_u32(fields.bitrate),
        host_audio: flag_or_false(fields.host_audio),
        enable_hdr: flag_or_false(fields.enable_hdr),
        enable_mic: flag_or_false(fields.enable_mic),
        app_name: text_or(fields.app_name, Seq::empty()),
        app_id: low_i32(fields.app_id),
    }
}

fn truncate_u32(value: Option<u64>) -> (low: u32)
    ensures
        low == low_u32(value),
{
    match value {
        Some(v) => (v % 0x1_0000_0000) as u32,
        None => 0,
    }
}

fn truncate_i32(value: Option<i64>) -> (low: i32)
    ensures
        low == low_i32(value),
{
    match value {
        Some(v) => {
            let low: u64 = if v >= 0 {
                (v as u64) % 0x1_0000_0000
            } else {
                let below: u64 = (-(v + 1)) as u64;
                0xFFFF_FFFF - below % 0x1_0000_0000
            };
            assert(low == v % 0x1_0000_0000) by {
                if v < 0 {
                    let below = -(v + 1);
                    assert(v == -1 - below);
                    assert((-1 - below) % 0x1_0000_0000 == 0xFFFF_FFFF - below % 0x1_0000_0000);
                }
            }
            if low >= 0x8000_0000 {
                (low as i64 - 0x1_0000_0000) as i32
            } else {
                low as i32
            }
        },
        None => 0,
    }
}

fn take_text(value: &Option<Vec<u8>>, fallback: &[u8]) -> (text: Vec<u8>)
    ensures
        text@ == text_or(*value, fallback@),
{
    match value {
        Some(text) => copy_of(text.as_slice()),
        None => copy_of(fallback),
    }
}

fn take_flag(value: Option<bool>) -> (flag: bool)
    ensures
        flag == flag_or_false(value),
{
    match value {
        Some(flag) => flag,
        None => false,
    }
}

impl SessionInfo {
    /// The session that the members of a JSON object describe.
    pub fn from_json(fields: &SessionFields) -> (session: SessionInfo)
        ensures
            session@ == session_of(*fields),
    {
        let nothing: Vec<u8> = Vec::new();
        SessionInfo {
            session_id: truncate_i32(fields.session_id),
            width: truncate_u32(fields.width),
            height: truncate_u32(fields.height),
            fps: truncate_u32(fields.fps),
            bitrate: truncate_u32(fields.bitrate),
            host_audio: take_flag(fields.host_audio),
            enable_hdr: take_flag(fields.enable_hdr),
            enable_mic: take_flag(fields.enable_mic),
            app_id: truncate_i32(fields.app_id),
            client_name: take_text(&fields.client_name, "Unknown".as_bytes()),
            client_address: take_text(&fields.client_address, nothing.as_slice()),
            state: take_text(&fields.state, "UNKNOWN".as_bytes()),
            app_name: take_text(&fields.app_name, nothing.as_slice()),
        }
    }
}

/// What to make of the host's answer to the question for its sessions.
#[derive(Clone, Copy, PartialEq, Eq, Structural, Debug)]
pub enum SessionsReply {
    /// There are no sessions: status 404, or an answer in XML.
    NoSessions,
    /// The host reports a failure: any other status outside 200 to 299.
    Failed,
    /// The body is to be read as JSON.
    Json,
}

/// The reading of an answer with this status, content type and body.
pub open spec fn reply_kind(status: u16, content_type: Seq<u8>, body: Seq<u8>) -> SessionsReply {
    if status == 404 || contains(lowercase(content_type), "xml".spec_bytes())
        || "<?xml".spec_bytes().is_prefix_of(trim_space_start(body)) {
        SessionsReply::NoSessions
    } else if !(200 <= status < 300) {
        SessionsReply::Failed
    } else {
        SessionsReply::Json
    }
}

/// Reads the kind of an answer off its status, content type and body.
pub fn classify_sessions_reply(status: u16, content_type: &[u8], body: &[u8]) -> (kind:
    SessionsReply)
    ensures
        kind == reply_kind(status, content_type@, body@),
{
    let lowered = to_lowercase(content_type);
    if status == 404 || contains_bytes(lowered.as_slice(), "xml".as_bytes()) || starts_with(
        trimmed_space_start(body),
        "<?xml".as_bytes(),
    ) {
        SessionsReply::NoSessions
    } else if !(200 <= status && status < 300) {
        SessionsReply::Failed
    } else {
        SessionsReply::Json
    }
}

/// The words for an answer that reports a failure, with the status as the
/// answer states it and the body of the answer.
pub fn sessions_failure_words(status_text: &[u8], body: &[u8]) -> (words: Vec<u8>)
    ensures
        words@ == "获取会话信息失败 (状态: ".spec_bytes() + status_text@ + "): ".spec_bytes() + body@,
{
    let mut words = copy_of("获取会话信息失败 (状态: ".as_bytes());
    append(&mut words, status_text);
    append(&mut words, "): ".as_bytes());
    append(&mut words, body);
    words
}

pub open spec fn sessions_view(sessions: Seq<SessionInfo>) -> Seq<SessionInfoView> {
    Seq::new(sessions.len(), |i: int| sessions[i]@)
}

/// The sessions that a JSON answer reports, or the words of the failure
/// that it reports: a failure where `success` is `false`, with the host's
/// message; else the sessions, none where the answer holds no list.
pub open spec fn sessions_of(
    success: Option<bool>,
    status_message: Option<Vec<u8>>,
    sessions: Option<Seq<SessionFields>>,
) -> Result<Seq<SessionInfoView>, Seq<u8>> {
    if success == Some(false) {
        Err("API 返回错误: ".spec_bytes() + text_or(status_message, "未知错误".spec_bytes()))
    } else {
        match sessions {
            Some(list) => Ok(list.map_values(|fields: SessionFields| session_of(fields))),
            None => Ok(Seq::empty()),
        }
    }
}

/// Reads the sessions out of the members of a JSON answer.
pub fn read_sessions(
    success: Option<bool>,
    status_message: &Option<Vec<u8>>,
    sessions: &Option<Vec<SessionFields>>,
) -> (outcome: Result<Vec<SessionInfo>, Vec<u8>>)
    ensures
        match sessions_of(
            success,
            *status_message,
            match sessions {
                Some(list) => Some(list@),
                None => None,
            },
        ) {
            Ok(expected) => outcome matches Ok(found) && sessions_view(found@) == expected,
            Err(words) => outcome matches Err(e) && e@ == words,
        },
{
    if let Some(false) = success {
        let mut words = copy_of("API 返回错误: ".as_bytes());
        let message = take_text(status_message, "未知错误".as_bytes());
        append(&mut words, message.as_slice());
        return Err(words);
    }
    let mut found: Vec<SessionInfo> = Vec::new();
    match sessions {
        Some(list) => {
            let mut i: usize = 0;
            while i < list.len()
                invariant
                    i <= list.len(),
                    found@.len() == i,
                    forall|j: int|
                        0 <= j < i ==> (#[trigger] found@[j])@ == session_of(list@[j]),
                decreases list.len() - i,
            {
                found.push(SessionInfo::from_json(&list[i]));
                i += 1;
            }
            assert(sessions_view(found@) =~= list@.map_values(
                |fields: SessionFields| session_of(fields),
            ));
        },
        None => {
            assert(sessions_view(found@) =~= Seq::<SessionInfoView>::empty());
        },
    }
    Ok(found)
}

/// Whether a bit rate, in kilobits per second, may be asked for.
pub fn is_valid_bitrate(bitrate: u32) -> (valid: bool)
    ensures
        valid == (1 <= bitrate <= 800000),
{
    1 <= bitrate && bitrate <= 800000
}

/// The pairs that the request for another bit rate carries in its query.
pub open spec fn bitrate_pairs(bitrate: u32, client_name: Seq<u8>) -> Seq<(Seq<u8>, Seq<u8>)> {
    seq![
        ("bitrate".spec_bytes(), decimal(bitrate as nat)),
        ("clientname".spec_bytes(), client_name),
    ]
}

/// The URL of a request as it was built, or the words of the failure.
pub open spec fn described(built: Result<Seq<u8>, UrlBuildErrorView>) -> Result<Seq<u8>, Seq<u8>> {
    match built {
        Ok(url) => Ok(url),
        Err(UrlBuildErrorView::Base(words)) => Err("解析 Sunshine URL 失败: ".spec_bytes() + words),
        Err(UrlBuildErrorView::Join(words)) => Err("构建 URL 失败: ".spec_bytes() + words),
    }
}

pub open spec fn built_view(built: Result<Vec<u8>, UrlBuildError>) -> Result<
    Seq<u8>,
    UrlBuildErrorView,
> {
    match built {
        Ok(url) => Ok(url@),
        Err(error) => Err(error@),
    }
}

pub open spec fn words_view(outcome: Result<Vec<u8>, Vec<u8>>) -> Result<Seq<u8>, Seq<u8>> {
    match outcome {
        Ok(words) => Ok(words@),
        Err(words) => Err(words@),
    }
}

/// Puts a failure to build a URL in words.
pub fn describe_built_url(built: Result<Vec<u8>, UrlBuildError>) -> (outcome: Result<
    Vec<u8>,
    Vec<u8>,
>)
    ensures
        words_view(outcome) == described(built_view(built)),
{
    match built {
        Ok(url) => Ok(url),
        Err(UrlBuildError::Base(words)) => {
            let mut message = copy_of("解析 Sunshine URL 失败: ".as_bytes());
            append(&mut message, words.as_slice());
            Err(message)
        },
        Err(UrlBuildError::Join(words)) => {
            let mut message = copy_of("构建 URL 失败: ".as_bytes());
            append(&mut message, words.as_slice());
            Err(message)
        },
    }
}

/// The URL by which the host is asked to stream to `client_name` at
/// `bitrate`: `api/runtime/bitrate` under the host's address, with both in
/// the query. Texts of more than `URL_PART_LIMIT` bytes are not taken.
pub fn bitrate_request_url(sunshine_url: &[u8], bitrate: u32, client_name: &[u8]) -> (outcome:
    Result<Vec<u8>, Vec<u8>>)
    requires
        sunshine_url@.len() <= URL_PART_LIMIT,
        client_name@.len() <= URL_PART_LIMIT,
    ensures
        words_view(outcome) == described(
            url_with_query(
                sunshine_url@,
                "api/runtime/bitrate".spec_bytes(),
                bitrate_pairs(bitrate, client_name@),
            ),
        ),
{
    let mut digits: Vec<u8> = Vec::new();
    push_decimal(&mut digits, bitrate as u64);
    proof {
        crate::text::lemma_decimal_is_short(bitrate as nat);
        reveal_strlit("api/runtime/bitrate");
        reveal_strlit("bitrate");
        reveal_strlit("clientname");
        vstd::string::is_ascii_spec_bytes("api/runtime/bitrate");
        vstd::string::is_ascii_spec_bytes("bitrate");
        vstd::string::is_ascii_spec_bytes("clientname");
    }
    let mut pairs: Vec<(Vec<u8>, Vec<u8>)> = Vec::new();
    pairs.push((copy_of("bitrate".as_bytes()), digits));
    pairs.push((copy_of("clientname".as_bytes()), copy_of(client_name)));
    assert(pairs.deep_view()[0] == (pairs@[0].0@, pairs@[0].1@));
    assert(pairs.deep_view()[1] == (pairs@[1].0@, pairs@[1].1@));
    assert(pairs.deep_view() =~= bitrate_pairs(bitrate, client_name@));
    let built = build_url_with_query(sunshine_url, "api/runtime/bitrate".as_bytes(), &pairs);
    describe_built_url(built)
}

/// The words for an answer to a change of the bit rate whose status is
/// outside 200 to 299.
pub open spec fn bitrate_status_words(status: u16, status_text: Seq<u8>, body: Seq<u8>) -> Seq<u8> {
    if status == 401 {
        "身份验证失败，请检查 Sunshine 配置".spec_bytes()
    } else if status == 403 {
        "访问被拒绝，仅允许 localhost 访问".spec_bytes()
    } else {
        "HTTP 错误 (状态码: ".spec_bytes() + status_text + "): ".spec_bytes() + body
    }
}

pub fn bitrate_status_error(status: u16, status_text: &[u8], body: &[u8]) -> (words: Vec<u8>)
    ensures
        words@ == bitrate_status_words(status, status_text@, body@),
{
    if status == 401 {
        copy_of("身份验证失败，请检查 Sunshine 配置".as_bytes())
    } else if status == 403 {
        copy_of("访问被拒绝，仅允许 localhost 访问".as_bytes())
    } else {
        let mut words = copy_of("HTTP 错误 (状态码: ".as_bytes());
        append(&mut words, status_text);
        append(&mut words, "): ".as_bytes());
        append(&mut words, body);
        words
    }
}

/// What the JSON answer to a change of the bit rate comes to: the words of
/// success, or the words of the failure. A reported status of 404 adds a
/// hint at what to check.
pub open spec fn bitrate_outcome(
    bitrate: u32,
    success: Option<bool>,
    status_message: Option<Vec<u8>>,
    status_code: Option<u64>,
) -> Result<Seq<u8>, Seq<u8>> {
    match success {
        Some(true) => Ok(
            "码率已调整为 ".spec_bytes() + decimal(bitrate as nat) + " Kbps".spec_bytes(),
        ),
        Some(false) => Err(
            "码率调整失败: ".spec_bytes() + text_or(status_message, "未知错误".spec_bytes()) + (
            if status_code == Some(404u64) {
                "\n\n提示：请确认客户端名称是否正确，或会话是否处于 RUNNING 状态".spec_bytes()
            } else {
                Seq::empty()
            }),
        ),
        None => Err("无效的响应格式".spec_bytes()),
    }
}

pub fn read_bitrate_reply(
    bitrate: u32,
    success: Option<bool>,
    status_message: &Option<Vec<u8>>,
    status_code: Option<u64>,
) -> (outcome: Result<Vec<u8>, Vec<u8>>)
    ensures
        match bitrate_outcome(bitrate, success, *status_message, status_code) {
            Ok(words) => outcome matches Ok(w) && w@ == words,
            Err(words) => outcome matches Err(w) && w@ == words,
        },
{
    match success {
        Some(true) => {
            let mut words = copy_of("码率已调整为 ".as_bytes());
            push_decimal(&mut words, bitrate as u64);
            append(&mut words, " Kbps".as_bytes());
            Ok(words)
        },
        Some(false) => {
            let mut words = copy_of("码率调整失败: ".as_bytes());
            let message = take_text(status_message, "未知错误".as_bytes());
            append(&mut words, message.as_slice());
            let hinted = match status_code {
                Some(code) => code == 404,
                None => false,
            };
            if hinted {
                append(
                    &mut words,
                    "\n\n提示：请确认客户端名称是否正确，或会话是否处于 RUNNING 状态".as_bytes(),
                );
            } else {
                assert(words@ + Seq::<u8>::empty() =~= words@);
            }
            Err(words)
        },
        None => Err(copy_of("无效的响应格式".as_bytes())),
    }
}

} // verus!
