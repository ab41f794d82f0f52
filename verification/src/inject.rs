//! The response transformer of the main lane: a style block and a script
//! block are set before `</head>` of the pages that the upstream serves, and
//! the headers of such a page are rewritten so that no cache keeps it.

use crate::headers::{
    copied, copy_headers, find_value, first_value, view_all, CopyRule, Header, HeaderView,
};
use crate::messages::{ProxyResponse, ResponseView, UpstreamResponse};
use crate::outside::is_valid_utf8;
use crate::text::{
    append, bytes_eq, contains, contains_bytes, copy_of, ends_with, find, first_occurrence,
    last_segment, last_segment_of, lemma_contains_in_middle, lemma_has_first_occurrence,
    occurs_at, LINE_FEED, SLASH,
};
use vstd::prelude::*;
use vstd::string::StringSliceAdditionalSpecFns;
use vstd::utf8::valid_utf8;

verus! {

/// What is set into a page: the text of a style sheet, the text of a script,
/// and whether this is a production build.
pub struct InjectionPayload {
    pub style: Vec<u8>,
    pub script: Vec<u8>,
    pub production: bool,
}

pub struct InjectionPayloadView {
    pub style: Seq<u8>,
    pub script: Seq<u8>,
    pub production: bool,
}

impl View for InjectionPayload {
    type V = InjectionPayloadView;

    open spec fn view(&self) -> InjectionPayloadView {
        InjectionPayloadView {
            style: self.style@,
            script: self.script@,
            production: self.production,
        }
    }
}

/// The marker that the script writes once it runs. A page that holds it has
/// been through the transformer already.
pub open spec fn sentinel() -> Seq<u8> {
    "主题同步脚本已加载".spec_bytes()
}

pub open spec fn head_close() -> Seq<u8> {
    "</head>".spec_bytes()
}

/// A text that says of itself that it is an HTML document.
pub open spec fn looks_like_document(body: Seq<u8>) -> bool {
    contains(body, "<html".spec_bytes()) || contains(body, "<!DOCTYPE".spec_bytes())
}

pub open spec fn line_feed() -> Seq<u8> {
    seq![LINE_FEED]
}

/// The comment above the style element.
pub open spec fn style_comment() -> Seq<u8> {
    "<!-- Tauri ".spec_bytes() + "样式优化".spec_bytes() + " -->".spec_bytes()
}

/// The tag that opens the style element.
pub open spec fn style_tag() -> Seq<u8> {
    "<style id=\"tauri-scrollbar-theme\">".spec_bytes()
}

pub open spec fn style_end() -> Seq<u8> {
    "</style>".spec_bytes()
}

/// The comment above the script element.
pub open spec fn script_comment() -> Seq<u8> {
    "<!-- Tauri ".spec_bytes() + "功能脚本".spec_bytes() + " -->".spec_bytes()
}

/// The tag that opens the script element.
pub open spec fn script_tag() -> Seq<u8> {
    "<script>".spec_bytes()
}

pub open spec fn script_end() -> Seq<u8> {
    "</script>".spec_bytes()
}

/// What the flag's statement begins with: the name that it assigns to.
pub open spec fn flag_name() -> Seq<u8> {
    "window.TAURI_PRODUCTION = ".spec_bytes()
}

/// The statement that tells the script which kind of build it runs in.
pub open spec fn flag_statement(production: bool) -> Seq<u8> {
    flag_name() + (if production {
        "true;".spec_bytes()
    } else {
        "false;".spec_bytes()
    })
}

/// A line feed, the comment, and the opening tag, each on a line of its own.
pub open spec fn style_open() -> Seq<u8> {
    line_feed() + style_comment() + line_feed() + style_tag() + line_feed()
}

pub open spec fn style_close() -> Seq<u8> {
    line_feed() + style_end() + line_feed()
}

pub open spec fn script_open() -> Seq<u8> {
    script_comment() + line_feed() + script_tag() + line_feed()
}

pub open spec fn script_close() -> Seq<u8> {
    line_feed() + script_end() + line_feed()
}

/// The flag's statement on a line of its own.
pub open spec fn production_flag(production: bool) -> Seq<u8> {
    flag_statement(production) + line_feed()
}

/// The `<style>` element that is set into a page.
pub open spec fn style_block(payload: InjectionPayloadView) -> Seq<u8> {
    style_open() + payload.style + style_close()
}

/// The `<script>` element that is set into a page: the flag, then the script.
pub open spec fn script_block(payload: InjectionPayloadView) -> Seq<u8> {
    script_open() + production_flag(payload.production) + payload.script + script_close()
}

/// All that is set into a page: the style block, then the script block.
pub open spec fn injected_block(payload: InjectionPayloadView) -> Seq<u8> {
    style_block(payload) + script_block(payload)
}

/// `html` with the block set right before its first `</head>`; `html` itself
/// where it has none.
pub open spec fn with_block(payload: InjectionPayloadView, html: Seq<u8>) -> Seq<u8> {
    if contains(html, head_close()) {
        let at = first_occurrence(html, head_close());
        html.subrange(0, at) + injected_block(payload) + html.subrange(at, html.len() as int)
    } else {
        html
    }
}

/// Whether the transformer touches a body at all: it is UTF-8, says that it
/// is an HTML document, and does not hold the sentinel yet.
pub open spec fn is_injectable(body: Seq<u8>) -> bool {
    valid_utf8(body) && !contains(body, sentinel()) && looks_like_document(body)
}

/// The body that the transformer makes of `body`.
pub open spec fn transformed_body(payload: InjectionPayloadView, body: Seq<u8>) -> Seq<u8> {
    if is_injectable(body) {
        with_block(payload, body)
    } else {
        body
    }
}

/// The last segments of the paths under which the upstream serves its pages.
pub open spec fn is_page_name(segment: Seq<u8>) -> bool {
    ||| segment.len() == 0
    ||| segment == "apps".spec_bytes()
    ||| segment == "config".spec_bytes()
    ||| segment == "password".spec_bytes()
    ||| segment == "pin".spec_bytes()
    ||| segment == "troubleshooting".spec_bytes()
    ||| segment == "welcome".spec_bytes()
}

/// Whether a response to `path` with this content type is a page that the
/// transformer rewrites.
pub open spec fn is_rewritten_page(path: Seq<u8>, media_type: Seq<u8>) -> bool {
    &&& contains(media_type, "text/html".spec_bytes())
    &&& {
        ||| is_page_name(last_segment(path, SLASH))
        ||| ".html".spec_bytes().is_suffix_of(path)
        ||| ".htm".spec_bytes().is_suffix_of(path)
    }
}

/// The content type of a response: the value of its first `Content-Type`
/// header, byte for byte as it came. A response without such a header has
/// the empty content type, so it is no page to rewrite.
pub open spec fn media_type_of(headers: Seq<HeaderView>) -> Seq<u8> {
    match first_value(headers, "content-type".spec_bytes()) {
        Some(value) => value,
        None => Seq::empty(),
    }
}

/// The headers that tell every cache to keep nothing.
pub open spec fn no_cache_headers() -> Seq<HeaderView> {
    seq![
        HeaderView {
            name: "Cache-Control".spec_bytes(),
            value: "no-cache, no-store, must-revalidate".spec_bytes(),
        },
        HeaderView { name: "Pragma".spec_bytes(), value: "no-cache".spec_bytes() },
        HeaderView { name: "Expires".spec_bytes(), value: "0".spec_bytes() },
    ]
}

/// Whether the block is set into a body: the transformer touches it, and
/// it holds `</head>`.
pub open spec fn takes_block(body: Seq<u8>) -> bool {
    is_injectable(body) && contains(body, head_close())
}

/// Whether the block is set into the response to a request for `path`.
pub open spec fn is_injected(path: Seq<u8>, upstream: ResponseView) -> bool {
    is_rewritten_page(path, media_type_of(upstream.headers)) && takes_block(upstream.body)
}

/// What the main lane answers when the upstream answered `upstream` to a
/// request for `path`: the same status; the headers that `CopyRule::Page`
/// copies, followed by the no-cache headers where the block is set into the
/// body; and the body, with the block where it is set.
pub open spec fn page_response(
    payload: InjectionPayloadView,
    path: Seq<u8>,
    upstream: ResponseView,
) -> ResponseView {
    let injected = is_injected(path, upstream);
    ResponseView {
        status: upstream.status,
        headers: copied(CopyRule::Page { rewritten: injected }, upstream.headers) + (if injected {
            no_cache_headers()
        } else {
            Seq::<HeaderView>::empty()
        }),
        body: if injected {
            with_block(payload, upstream.body)
        } else {
            upstream.body
        },
    }
}

fn is_known_page(segment: &[u8]) -> (r: bool)
    ensures
        r == is_page_name(segment@),
{
    segment.len() == 0 || bytes_eq(segment, "apps".as_bytes()) || bytes_eq(
        segment,
        "config".as_bytes(),
    ) || bytes_eq(segment, "password".as_bytes()) || bytes_eq(segment, "pin".as_bytes())
        || bytes_eq(segment, "troubleshooting".as_bytes()) || bytes_eq(
        segment,
        "welcome".as_bytes(),
    )
}

/// Whether a response to `path` with this content type is rewritten.
pub fn should_inject_script(path: &[u8], media_type: &[u8]) -> (r: bool)
    ensures
        r == is_rewritten_page(path@, media_type@),
{
    if !contains_bytes(media_type, "text/html".as_bytes()) {
        return false;
    }
    is_known_page(last_segment_of(path, SLASH)) || ends_with(path, ".html".as_bytes()) || ends_with(
        path,
        ".htm".as_bytes(),
    )
}

/// The block that is set into a page.
pub fn build_block(payload: &InjectionPayload) -> (block: Vec<u8>)
    ensures
        block@ == injected_block(payload@),
{
    let mut block: Vec<u8> = Vec::new();
    block.push(LINE_FEED);
    append(&mut block, "<!-- Tauri ".as_bytes());
    append(&mut block, "样式优化".as_bytes());
    append(&mut block, " -->".as_bytes());
    block.push(LINE_FEED);
    append(&mut block, "<style id=\"tauri-scrollbar-theme\">".as_bytes());
    block.push(LINE_FEED);
    assert(block@ =~= style_open());
    append(&mut block, payload.style.as_slice());
    block.push(LINE_FEED);
    append(&mut block, "</style>".as_bytes());
    block.push(LINE_FEED);
    assert(block@ =~= style_block(payload@));
    let ghost styled = block@;
    append(&mut block, "<!-- Tauri ".as_bytes());
    append(&mut block, "功能脚本".as_bytes());
    append(&mut block, " -->".as_bytes());
    block.push(LINE_FEED);
    append(&mut block, "<script>".as_bytes());
    block.push(LINE_FEED);
    assert(block@ =~= styled + script_open());
    append(&mut block, "window.TAURI_PRODUCTION = ".as_bytes());
    if payload.production {
        append(&mut block, "true;".as_bytes());
    } else {
        append(&mut block, "false;".as_bytes());
    }
    block.push(LINE_FEED);
    assert(block@ =~= styled + script_open() + production_flag(payload.production));
    append(&mut block, payload.script.as_slice());
    block.push(LINE_FEED);
    append(&mut block, "</script>".as_bytes());
    block.push(LINE_FEED);
    assert(block@ =~= injected_block(payload@));
    block
}

/// Sets the block before the first `</head>` of `html`.
pub fn inject_theme_script(payload: &InjectionPayload, html: Vec<u8>) -> (page: Vec<u8>)
    ensures
        page@ == with_block(payload@, html@),
        !contains(html@, head_close()) ==> page@ == html@,
{
    match find(html.as_slice(), "</head>".as_bytes()) {
        None => html,
        Some(at) => {
            let mut page = copy_of(vstd::slice::slice_subrange(html.as_slice(), 0, at));
            let block = build_block(payload);
            append(&mut page, block.as_slice());
            append(&mut page, vstd::slice::slice_subrange(html.as_slice(), at, html.len()));
            page
        },
    }
}

/// Whether the transformer touches a body.
pub fn is_injectable_body(body: &[u8]) -> (r: bool)
    ensures
        r == is_injectable(body@),
{
    is_valid_utf8(body) && !contains_bytes(body, "主题同步脚本已加载".as_bytes()) && (contains_bytes(
        body,
        "<html".as_bytes(),
    ) || contains_bytes(body, "<!DOCTYPE".as_bytes()))
}

/// Transforms a body: sets the block into it where it is an HTML document
/// that has not been through here before, and returns it as it is otherwise.
pub fn inject_if_needed(payload: &InjectionPayload, body: Vec<u8>) -> (page: Vec<u8>)
    ensures
        page@ == transformed_body(payload@, body@),
        contains(body@, sentinel()) ==> page@ == body@,
        !contains(body@, head_close()) ==> page@ == body@,
{
    if is_injectable_body(body.as_slice()) {
        inject_theme_script(payload, body)
    } else {
        body
    }
}

/// The content type of a response; empty where it names none.
pub fn media_type<'a>(headers: &'a Vec<Header>) -> (value: &'a [u8])
    ensures
        value@ == media_type_of(view_all(headers@)),
{
    match find_value(headers, "content-type".as_bytes()) {
        Some(value) => value.as_slice(),
        None => {
            proof {
                reveal_strlit("");
                vstd::string::is_ascii_spec_bytes("");
            }
            let nothing = "".as_bytes();
            assert(nothing@ =~= Seq::<u8>::empty());
            nothing
        },
    }
}

/// Makes the main lane's answer of what the upstream answered to a request for `path`.
pub fn transform_response(payload: &InjectionPayload, path: &[u8], upstream: UpstreamResponse) -> (response:
    ProxyResponse)
    ensures
        response@ == page_response(payload@, path@, upstream@),
{
    let injected = should_inject_script(path, media_type(&upstream.headers)) && is_injectable_body(
        upstream.body.as_slice(),
    ) && contains_bytes(upstream.body.as_slice(), "</head>".as_bytes());
    let mut headers = copy_headers(CopyRule::Page { rewritten: injected }, &upstream.headers);
    let ghost kept = view_all(headers@);
    if injected {
        headers.push(
            Header::new(
                "Cache-Control".as_bytes(),
                "no-cache, no-store, must-revalidate".as_bytes(),
            ),
        );
        headers.push(Header::new("Pragma".as_bytes(), "no-cache".as_bytes()));
        headers.push(Header::new("Expires".as_bytes(), "0".as_bytes()));
        assert(view_all(headers@) =~= kept + no_cache_headers());
    } else {
        assert(view_all(headers@) =~= kept + Seq::<HeaderView>::empty());
    }
    let body = if injected {
        inject_theme_script(payload, upstream.body)
    } else {
        upstream.body
    };
    ProxyResponse { status: upstream.status, headers, body }
}

/// A body that holds the sentinel already comes out as it went in.
pub proof fn lemma_marked_page_unchanged(payload: InjectionPayloadView, body: Seq<u8>)
    requires
        contains(body, sentinel()),
    ensures
        transformed_body(payload, body) == body,
{
}

/// A body without `</head>` comes out as it went in.
pub proof fn lemma_headless_page_unchanged(payload: InjectionPayloadView, body: Seq<u8>)
    requires
        !contains(body, head_close()),
    ensures
        transformed_body(payload, body) == body,
        with_block(payload, body) == body,
{
}

/// Where the block is set into a body, the result is the body with one
/// copy of the block set into it at the first `</head>`: what stands before
/// and behind the block is the body, and the style block and the script
/// block both stand in the result, in this order and right before `</head>`.
pub proof fn lemma_block_set_once(payload: InjectionPayloadView, body: Seq<u8>)
    requires
        takes_block(body),
    ensures
        ({
            let at = first_occurrence(body, head_close());
            let page = with_block(payload, body);
            &&& page == transformed_body(payload, body)
            &&& occurs_at(body, head_close(), at)
            &&& page.len() == body.len() + injected_block(payload).len()
            &&& page.subrange(0, at) == body.subrange(0, at)
            &&& page.subrange(at, at + injected_block(payload).len()) == injected_block(payload)
            &&& page.subrange(at + injected_block(payload).len(), page.len() as int)
                == body.subrange(at, body.len() as int)
            &&& occurs_at(page, style_block(payload), at)
            &&& occurs_at(page, script_block(payload), at + style_block(payload).len())
            &&& occurs_at(page, head_close(), at + injected_block(payload).len())
        }),
{
    let at = first_occurrence(body, head_close());
    let witness = choose|i: int| occurs_at(body, head_close(), i);
    lemma_has_first_occurrence(body, head_close(), witness);
    let block = injected_block(payload);
    let page = transformed_body(payload, body);
    assert(page == body.subrange(0, at) + block + body.subrange(at, body.len() as int));
    assert(page.subrange(0, at) =~= body.subrange(0, at));
    assert(page.subrange(at, at + block.len()) =~= block);
    assert(page.subrange(at + block.len(), page.len() as int) =~= body.subrange(
        at,
        body.len() as int,
    ));
    assert(page.subrange(at, at + style_block(payload).len()) =~= style_block(payload));
    assert(page.subrange(
        at + style_block(payload).len(),
        at + style_block(payload).len() + script_block(payload).len(),
    ) =~= script_block(payload));
    assert(page.subrange(at + block.len(), at + block.len() + head_close().len())
        =~= body.subrange(at, at + head_close().len()));
}

proof fn lemma_regrouped(
    before: Seq<u8>,
    style: Seq<u8>,
    open: Seq<u8>,
    flag: Seq<u8>,
    script: Seq<u8>,
    close: Seq<u8>,
    after: Seq<u8>,
)
    ensures
        before + (style + (open + flag + script + close)) + after == (before + style + open + flag)
            + script + (close + after),
{
    assert(before + (style + (open + flag + script + close)) + after =~= (before + style + open
        + flag) + script + (close + after));
}

/// With a script that holds the sentinel, transforming twice is the same as
/// transforming once: a page that comes back through the proxy is not given
/// a second block.
pub proof fn lemma_transform_idempotent(payload: InjectionPayloadView, body: Seq<u8>)
    requires
        contains(payload.script, sentinel()),
    ensures
        transformed_body(payload, transformed_body(payload, body)) == transformed_body(
            payload,
            body,
        ),
{
    let once = transformed_body(payload, body);
    if is_injectable(body) && contains(body, head_close()) {
        let at = first_occurrence(body, head_close());
        let before = body.subrange(0, at) + style_block(payload) + script_open() + production_flag(
            payload.production,
        );
        let after = script_close() + body.subrange(at, body.len() as int);
        lemma_contains_in_middle(before, payload.script, after, sentinel());
        lemma_regrouped(
            body.subrange(0, at),
            style_block(payload),
            script_open(),
            production_flag(payload.production),
            payload.script,
            script_close(),
            body.subrange(at, body.len() as int),
        );
        assert(contains(once, sentinel()));
    }
}

/// Whatever the path and the headers, a response whose body holds the
/// sentinel or lacks `</head>` keeps its body byte for byte, and so does a
/// response that is no page to rewrite; every response keeps its status,
/// and its body is what `transformed_body` makes of it on a page to rewrite.
pub proof fn lemma_response_body_passed_through(
    payload: InjectionPayloadView,
    path: Seq<u8>,
    upstream: ResponseView,
)
    ensures
        page_response(payload, path, upstream).status == upstream.status,
        contains(upstream.body, sentinel()) ==> page_response(payload, path, upstream).body
            == upstream.body,
        !contains(upstream.body, head_close()) ==> page_response(payload, path, upstream).body
            == upstream.body,
        !is_rewritten_page(path, media_type_of(upstream.headers)) ==> page_response(
            payload,
            path,
            upstream,
        ).body == upstream.body,
        is_rewritten_page(path, media_type_of(upstream.headers)) ==> page_response(
            payload,
            path,
            upstream,
        ).body == transformed_body(payload, upstream.body),
{
}

/// A response whose first `Content-Type` does not hold `text/html`, byte
/// for byte, and a response that has no `Content-Type`, keeps its status,
/// its body and its cache headers, whatever the path and the body.
pub proof fn lemma_other_media_passed_through(
    payload: InjectionPayloadView,
    path: Seq<u8>,
    upstream: ResponseView,
)
    requires
        first_value(upstream.headers, "content-type".spec_bytes()) matches Some(value)
            ==> !contains(value, "text/html".spec_bytes()),
    ensures
        page_response(payload, path, upstream).status == upstream.status,
        page_response(payload, path, upstream).body == upstream.body,
        page_response(payload, path, upstream).headers == copied(
            CopyRule::Page { rewritten: false },
            upstream.headers,
        ),
{
    reveal_strlit("text/html");
    vstd::string::is_ascii_spec_bytes("text/html");
    assert(!contains(Seq::<u8>::empty(), "text/html".spec_bytes()));
    assert(!is_injected(path, upstream));
    assert(copied(CopyRule::Page { rewritten: false }, upstream.headers) + Seq::<
        HeaderView,
    >::empty() =~= copied(CopyRule::Page { rewritten: false }, upstream.headers));
}

} // verus!
