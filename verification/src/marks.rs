//! The marks of the block in a rewritten page. The tag of the style
//! element, the tag of the script element and the name of the flag each
//! stand in a rewritten page exactly once, where neither the page as it came
//! nor the payload holds them.

use crate::inject::{
    flag_name, flag_statement, head_close, injected_block, is_injected, line_feed, page_response,
    script_comment, script_end, script_tag, style_comment, style_end, style_tag, with_block,
    InjectionPayloadView,
};
use crate::messages::ResponseView;
use crate::text::{
    byte_only_at, contains, first_occurrence, is_only_occurrence, lemma_byte_only_at_front,
    lemma_bytes_outside_ascii, lemma_has_first_occurrence, lemma_occurrence_beside_separator,
    lemma_occurrence_bytes, lemma_occurrence_carries_over, lemma_occurrence_in_part,
    lemma_occurrence_is_anchored, occurs_at, occurs_once, DOT, LESS_THAN, LINE_FEED,
};
use vstd::prelude::*;
use vstd::string::StringSliceAdditionalSpecFns;

verus! {

/// Two texts with a line feed between them.
pub open spec fn beside(above: Seq<u8>, below: Seq<u8>) -> Seq<u8> {
    above + seq![LINE_FEED] + below
}

/// Where the tag of the style element stands in a rewritten page: on the
/// second line of the block, behind the comment.
pub open spec fn style_tag_at(body: Seq<u8>) -> int {
    first_occurrence(body, head_close()) + 1 + style_comment().len() + 1
}

/// Where the tag of the script element stands in a rewritten page: behind
/// the style element and the comment.
pub open spec fn script_tag_at(payload: InjectionPayloadView, body: Seq<u8>) -> int {
    style_tag_at(body) + style_tag().len() + 1 + payload.style.len() + 1 + style_end().len() + 1
        + script_comment().len() + 1
}

/// Where the statement of the flag stands in a rewritten page: on the line
/// behind the tag of the script element.
pub open spec fn flag_at(payload: InjectionPayloadView, body: Seq<u8>) -> int {
    script_tag_at(payload, body) + script_tag().len() + 1
}

/// Where the script of the payload stands in a rewritten page: on the line
/// behind the statement of the flag.
pub open spec fn script_at(payload: InjectionPayloadView, body: Seq<u8>) -> int {
    flag_at(payload, body) + flag_statement(payload.production).len() + 1
}

/// The texts up to and with the one at `upto`, one below the other.
pub open spec fn stacked(texts: Seq<Seq<u8>>, upto: int) -> Seq<u8>
    decreases upto,
{
    if upto <= 0 {
        texts[0]
    } else {
        beside(stacked(texts, upto - 1), texts[upto])
    }
}

/// Where the text at `index` begins, in texts that stand one below the other.
pub open spec fn text_start(texts: Seq<Seq<u8>>, index: int) -> int
    decreases index,
{
    if index <= 0 {
        0
    } else {
        text_start(texts, index - 1) + texts[index - 1].len() + 1
    }
}

proof fn lemma_stacked_length(texts: Seq<Seq<u8>>, upto: int)
    requires
        0 <= upto < texts.len(),
    ensures
        stacked(texts, upto).len() == text_start(texts, upto) + texts[upto].len(),
    decreases upto,
{
    if upto > 0 {
        lemma_stacked_length(texts, upto - 1);
    }
}

/// A needle without a line feed that stands in texts put one below the
/// other stands in one of them.
pub proof fn lemma_occurrence_in_one_text(
    texts: Seq<Seq<u8>>,
    upto: int,
    needle: Seq<u8>,
    at: int,
) -> (index: int)
    requires
        0 <= upto < texts.len(),
        byte_only_at(needle, LINE_FEED, -1),
        occurs_at(stacked(texts, upto), needle, at),
    ensures
        0 <= index <= upto,
        occurs_at(texts[index], needle, at - text_start(texts, index)),
    decreases upto,
{
    if upto == 0 {
        0
    } else {
        let above = stacked(texts, upto - 1);
        lemma_stacked_length(texts, upto - 1);
        lemma_occurrence_beside_separator(above, LINE_FEED, texts[upto], needle, at);
        if occurs_at(above, needle, at) {
            lemma_occurrence_in_one_text(texts, upto - 1, needle, at)
        } else {
            upto
        }
    }
}

/// What stands in one of the texts stands in all of them put one below
/// the other, further on by where that text begins.
pub proof fn lemma_occurrence_in_stack(
    texts: Seq<Seq<u8>>,
    upto: int,
    index: int,
    needle: Seq<u8>,
    at: int,
)
    requires
        0 <= index <= upto < texts.len(),
        occurs_at(texts[index], needle, at),
    ensures
        occurs_at(stacked(texts, upto), needle, text_start(texts, index) + at),
    decreases upto,
{
    if upto > 0 {
        let above = stacked(texts, upto - 1);
        lemma_stacked_length(texts, upto - 1);
        if index == upto {
            lemma_occurrence_carries_over(above, LINE_FEED, texts[upto], needle, at);
        } else {
            lemma_occurrence_in_stack(texts, upto - 1, index, needle, at);
            lemma_occurrence_carries_over(
                above,
                LINE_FEED,
                texts[upto],
                needle,
                text_start(texts, index) + at,
            );
        }
    }
}

/// The texts of which a rewritten page is made: what stood before
/// `</head>`, the lines of the block, and what stood from `</head>` on.
pub open spec fn page_texts(payload: InjectionPayloadView, body: Seq<u8>) -> Seq<Seq<u8>> {
    let at = first_occurrence(body, head_close());
    seq![
        body.subrange(0, at),
        style_comment(),
        style_tag(),
        payload.style,
        style_end(),
        script_comment(),
        script_tag(),
        flag_statement(payload.production),
        payload.script,
        script_end(),
        body.subrange(at, body.len() as int),
    ]
}

proof fn lemma_stack_of_eleven(t: Seq<Seq<u8>>, feed: Seq<u8>)
    requires
        t.len() == 11,
        feed == seq![LINE_FEED],
    ensures
        stacked(t, 10) == t[0] + (((feed + t[1] + feed + t[2] + feed) + t[3] + (feed + t[4] + feed))
            + ((t[5] + feed + t[6] + feed) + (t[7] + feed) + t[8] + (feed + t[9] + feed))) + t[10],
{
    reveal_with_fuel(stacked, 11);
    assert(stacked(t, 10) =~= t[0] + (((feed + t[1] + feed + t[2] + feed) + t[3] + (feed + t[4]
        + feed)) + ((t[5] + feed + t[6] + feed) + (t[7] + feed) + t[8] + (feed + t[9] + feed)))
        + t[10]);
}

/// A rewritten page is its texts, one below the other.
pub proof fn lemma_page_is_stacked(payload: InjectionPayloadView, body: Seq<u8>)
    requires
        contains(body, head_close()),
    ensures
        with_block(payload, body) == stacked(page_texts(payload, body), 10),
{
    lemma_stack_of_eleven(page_texts(payload, body), line_feed());
}

/// In each comment of the block `<` stands at the head only, `!` follows
/// it, and there is no dot.
proof fn lemma_comment_bytes()
    ensures
        byte_only_at(style_comment(), LESS_THAN, 0),
        byte_only_at(style_comment(), DOT, -1),
        style_comment().len() >= 2,
        style_comment()[1] == 33,
        byte_only_at(script_comment(), LESS_THAN, 0),
        byte_only_at(script_comment(), DOT, -1),
        script_comment().len() >= 2,
        script_comment()[1] == 33,
{
    reveal_strlit("<!-- Tauri ");
    reveal_strlit(" -->");
    reveal_strlit("样式优化");
    reveal_strlit("功能脚本");
    vstd::string::is_ascii_spec_bytes("<!-- Tauri ");
    vstd::string::is_ascii_spec_bytes(" -->");
    lemma_bytes_outside_ascii("样式优化"@);
    lemma_bytes_outside_ascii("功能脚本"@);
    let head = "<!-- Tauri ".spec_bytes();
    let tail = " -->".spec_bytes();
    let style = "样式优化".spec_bytes();
    let script = "功能脚本".spec_bytes();
    lemma_byte_only_at_front(head, style, LESS_THAN, 0);
    lemma_byte_only_at_front(head + style, tail, LESS_THAN, 0);
    lemma_byte_only_at_front(head, style, DOT, -1);
    lemma_byte_only_at_front(head + style, tail, DOT, -1);
    lemma_byte_only_at_front(head, script, LESS_THAN, 0);
    lemma_byte_only_at_front(head + script, tail, LESS_THAN, 0);
    lemma_byte_only_at_front(head, script, DOT, -1);
    lemma_byte_only_at_front(head + script, tail, DOT, -1);
    assert(style_comment()[1] == head[1]);
    assert(script_comment()[1] == head[1]);
}

/// In each tag of the block `<` stands at the head only, and there is no
/// dot and no line feed.
proof fn lemma_tag_bytes()
    ensures
        byte_only_at(style_tag(), LESS_THAN, 0),
        byte_only_at(style_tag(), DOT, -1),
        byte_only_at(style_tag(), LINE_FEED, -1),
        style_tag().len() == 34,
        style_tag()[0] == LESS_THAN,
        style_tag()[1] == 115,
        style_tag()[2] == 116,
        byte_only_at(script_tag(), LESS_THAN, 0),
        byte_only_at(script_tag(), DOT, -1),
        byte_only_at(script_tag(), LINE_FEED, -1),
        script_tag().len() == 8,
        script_tag()[0] == LESS_THAN,
        script_tag()[1] == 115,
        script_tag()[2] == 99,
        byte_only_at(style_end(), LESS_THAN, 0),
        byte_only_at(style_end(), DOT, -1),
        style_end().len() == 8,
        style_end()[1] == 47,
        byte_only_at(script_end(), LESS_THAN, 0),
        byte_only_at(script_end(), DOT, -1),
        script_end().len() == 9,
        script_end()[1] == 47,
{
    reveal_strlit("<style id=\"tauri-scrollbar-theme\">");
    reveal_strlit("<script>");
    reveal_strlit("</style>");
    reveal_strlit("</script>");
    vstd::string::is_ascii_spec_bytes("<style id=\"tauri-scrollbar-theme\">");
    vstd::string::is_ascii_spec_bytes("<script>");
    vstd::string::is_ascii_spec_bytes("</style>");
    vstd::string::is_ascii_spec_bytes("</script>");
}

/// The statement of the flag holds no `<`, and one dot: the one of the name.
proof fn lemma_flag_bytes(production: bool)
    ensures
        byte_only_at(flag_statement(production), LESS_THAN, -1),
        byte_only_at(flag_statement(production), DOT, 6),
        byte_only_at(flag_name(), LINE_FEED, -1),
        flag_name().len() == 26,
        flag_name()[6] == DOT,
        occurs_at(flag_statement(production), flag_name(), 0),
{
    reveal_strlit("window.TAURI_PRODUCTION = ");
    reveal_strlit("true;");
    reveal_strlit("false;");
    vstd::string::is_ascii_spec_bytes("window.TAURI_PRODUCTION = ");
    vstd::string::is_ascii_spec_bytes("true;");
    vstd::string::is_ascii_spec_bytes("false;");
    let value = if production {
        "true;".spec_bytes()
    } else {
        "false;".spec_bytes()
    };
    lemma_byte_only_at_front(flag_name(), value, LESS_THAN, -1);
    lemma_byte_only_at_front(flag_name(), value, DOT, 6);
    assert(flag_statement(production).subrange(0, flag_name().len() as int) =~= flag_name());
}

/// A needle without a line feed that stands in a rewritten page, where
/// neither the page as it came nor the payload holds it, stands in one
/// of the seven lines of the block that the payload does not fill.
pub proof fn lemma_occurrence_in_block_line(
    payload: InjectionPayloadView,
    body: Seq<u8>,
    needle: Seq<u8>,
    at: int,
) -> (line: int)
    requires
        contains(body, head_close()),
        byte_only_at(needle, LINE_FEED, -1),
        !contains(body, needle),
        !contains(payload.style, needle),
        !contains(payload.script, needle),
        occurs_at(with_block(payload, body), needle, at),
    ensures
        0 < line < 10,
        line != 3,
        line != 8,
        occurs_at(
            page_texts(payload, body)[line],
            needle,
            at - text_start(page_texts(payload, body), line),
        ),
{
    let texts = page_texts(payload, body);
    let head = first_occurrence(body, head_close());
    let witness = choose|i: int| occurs_at(body, head_close(), i);
    lemma_has_first_occurrence(body, head_close(), witness);
    lemma_page_is_stacked(payload, body);
    let line = lemma_occurrence_in_one_text(texts, 10, needle, at);
    let inside = at - text_start(texts, line);
    if line == 0 {
        lemma_occurrence_in_part(body, 0, head, needle, inside);
    }
    if line == 10 {
        lemma_occurrence_in_part(body, head, body.len() as int, needle, inside);
    }
    line
}

/// Where the lines of the marks begin in a rewritten page.
proof fn lemma_line_starts(payload: InjectionPayloadView, body: Seq<u8>)
    requires
        contains(body, head_close()),
    ensures
        text_start(page_texts(payload, body), 2) == style_tag_at(body),
        text_start(page_texts(payload, body), 6) == script_tag_at(payload, body),
        text_start(page_texts(payload, body), 7) == flag_at(payload, body),
        text_start(page_texts(payload, body), 8) == script_at(payload, body),
        text_start(page_texts(payload, body), 10) == first_occurrence(body, head_close())
            + injected_block(payload).len(),
        first_occurrence(body, head_close()) < style_tag_at(body),
        style_tag_at(body) + style_tag().len() + payload.style.len() + style_end().len()
            < script_tag_at(payload, body),
        script_at(payload, body) + payload.script.len() < first_occurrence(body, head_close())
            + injected_block(payload).len(),
{
    let witness = choose|i: int| occurs_at(body, head_close(), i);
    lemma_has_first_occurrence(body, head_close(), witness);
    let texts = page_texts(payload, body);
    lemma_stacked_length(texts, 9);
    lemma_page_is_stacked(payload, body);
    lemma_stacked_length(texts, 10);
    reveal_with_fuel(text_start, 11);
}

/// A line stands in a rewritten page where it begins.
proof fn lemma_line_stands(payload: InjectionPayloadView, body: Seq<u8>, line: int)
    requires
        contains(body, head_close()),
        0 <= line <= 10,
    ensures
        occurs_at(
            with_block(payload, body),
            page_texts(payload, body)[line],
            text_start(page_texts(payload, body), line),
        ),
{
    let texts = page_texts(payload, body);
    lemma_page_is_stacked(payload, body);
    assert(texts[line].subrange(0, texts[line].len() as int) =~= texts[line]);
    lemma_occurrence_in_stack(texts, 10, line, texts[line], 0);
}

/// A tag of the block that stands in a rewritten page stands at the head
/// of its own line.
proof fn lemma_tag_in_own_line(
    payload: InjectionPayloadView,
    body: Seq<u8>,
    tag: Seq<u8>,
    own: int,
    at: int,
)
    requires
        contains(body, head_close()),
        !contains(body, tag),
        !contains(payload.style, tag),
        !contains(payload.script, tag),
        (own == 2 && tag == style_tag()) || (own == 6 && tag == script_tag()),
        occurs_at(with_block(payload, body), tag, at),
    ensures
        at == text_start(page_texts(payload, body), own),
{
    lemma_comment_bytes();
    lemma_tag_bytes();
    lemma_flag_bytes(payload.production);
    let texts = page_texts(payload, body);
    let line = lemma_occurrence_in_block_line(payload, body, tag, at);
    let inside = at - text_start(texts, line);
    let anchor: int = if line == 7 {
        -1
    } else {
        0
    };
    lemma_occurrence_is_anchored(texts[line], tag, inside, 0, anchor);
    lemma_occurrence_bytes(texts[line], tag, inside, 1);
    lemma_occurrence_bytes(texts[line], tag, inside, 2);
}

/// The tag of the style element stands in a rewritten page exactly once, in
/// the block and so before `</head>`, where neither the page as it came nor
/// the style nor the script of the payload holds it.
pub proof fn lemma_style_tag_once(payload: InjectionPayloadView, body: Seq<u8>)
    requires
        contains(body, head_close()),
        !contains(body, style_tag()),
        !contains(payload.style, style_tag()),
        !contains(payload.script, style_tag()),
    ensures
        is_only_occurrence(with_block(payload, body), style_tag(), style_tag_at(body)),
        occurs_once(with_block(payload, body), style_tag()),
        first_occurrence(body, head_close()) < style_tag_at(body),
        style_tag_at(body) + style_tag().len() < first_occurrence(body, head_close())
            + injected_block(payload).len(),
{
    lemma_line_starts(payload, body);
    lemma_line_stands(payload, body, 2);
    assert forall|other: int|
        occurs_at(with_block(payload, body), style_tag(), other) implies other == style_tag_at(
        body,
    ) by {
        lemma_tag_in_own_line(payload, body, style_tag(), 2, other);
    }
    assert(is_only_occurrence(with_block(payload, body), style_tag(), style_tag_at(body)));
}

/// The tag of the script element stands in a rewritten page exactly once,
/// behind the style element, where neither the page as it came nor the
/// style nor the script of the payload holds it.
pub proof fn lemma_script_tag_once(payload: InjectionPayloadView, body: Seq<u8>)
    requires
        contains(body, head_close()),
        !contains(body, script_tag()),
        !contains(payload.style, script_tag()),
        !contains(payload.script, script_tag()),
    ensures
        is_only_occurrence(with_block(payload, body), script_tag(), script_tag_at(payload, body)),
        occurs_once(with_block(payload, body), script_tag()),
        style_tag_at(body) + style_tag().len() + payload.style.len() + style_end().len()
            < script_tag_at(payload, body),
{
    lemma_line_starts(payload, body);
    lemma_line_stands(payload, body, 6);
    assert forall|other: int|
        occurs_at(with_block(payload, body), script_tag(), other) implies other == script_tag_at(
        payload,
        body,
    ) by {
        lemma_tag_in_own_line(payload, body, script_tag(), 6, other);
    }
    assert(is_only_occurrence(
        with_block(payload, body),
        script_tag(),
        script_tag_at(payload, body),
    ));
}

/// The name of the flag stands at the head of the flag's statement.
proof fn lemma_flag_stands(payload: InjectionPayloadView, body: Seq<u8>)
    requires
        contains(body, head_close()),
    ensures
        occurs_at(
            with_block(payload, body),
            flag_name(),
            text_start(page_texts(payload, body), 7),
        ),
{
    lemma_flag_bytes(payload.production);
    lemma_page_is_stacked(payload, body);
    lemma_occurrence_in_stack(page_texts(payload, body), 10, 7, flag_name(), 0);
}

/// The name of the flag, where it stands in a rewritten page, stands at
/// the head of the flag's statement.
proof fn lemma_flag_in_own_line(payload: InjectionPayloadView, body: Seq<u8>, at: int)
    requires
        contains(body, head_close()),
        !contains(body, flag_name()),
        !contains(payload.style, flag_name()),
        !contains(payload.script, flag_name()),
        occurs_at(with_block(payload, body), flag_name(), at),
    ensures
        at == text_start(page_texts(payload, body), 7),
{
    lemma_comment_bytes();
    lemma_tag_bytes();
    lemma_flag_bytes(payload.production);
    let texts = page_texts(payload, body);
    let line = lemma_occurrence_in_block_line(payload, body, flag_name(), at);
    let inside = at - text_start(texts, line);
    let anchor: int = if line == 7 {
        6
    } else {
        -1
    };
    lemma_occurrence_is_anchored(texts[line], flag_name(), inside, 6, anchor);
}

/// The name of the flag stands in a rewritten page exactly once, where
/// neither the page as it came nor the style nor the script of the payload
/// holds it: at the head of the line behind the tag of the script element.
/// The script of the payload stands on the line behind its statement.
pub proof fn lemma_flag_once(payload: InjectionPayloadView, body: Seq<u8>)
    requires
        contains(body, head_close()),
        !contains(body, flag_name()),
        !contains(payload.style, flag_name()),
        !contains(payload.script, flag_name()),
    ensures
        is_only_occurrence(with_block(payload, body), flag_name(), flag_at(payload, body)),
        occurs_once(with_block(payload, body), flag_name()),
        occurs_at(with_block(payload, body), script_tag(), script_tag_at(payload, body)),
        occurs_at(
            with_block(payload, body),
            flag_statement(payload.production),
            flag_at(payload, body),
        ),
        occurs_at(with_block(payload, body), payload.script, script_at(payload, body)),
{
    lemma_line_starts(payload, body);
    lemma_line_stands(payload, body, 6);
    lemma_line_stands(payload, body, 7);
    lemma_line_stands(payload, body, 8);
    lemma_flag_stands(payload, body);
    assert forall|other: int|
        occurs_at(with_block(payload, body), flag_name(), other) implies other == flag_at(
        payload,
        body,
    ) by {
        lemma_flag_in_own_line(payload, body, other);
    }
    assert(is_only_occurrence(with_block(payload, body), flag_name(), flag_at(payload, body)));
}

/// A page that the transformer rewrites comes back with the status that
/// the upstream gave, and its body holds the tag of the style element, the
/// tag of the script element and the name of the flag exactly once each,
/// where neither the upstream's body nor the payload holds any of them.
pub proof fn lemma_rewritten_page_holds_each_mark_once(
    payload: InjectionPayloadView,
    path: Seq<u8>,
    upstream: ResponseView,
)
    requires
        is_injected(path, upstream),
        !contains(upstream.body, style_tag()) && !contains(payload.style, style_tag())
            && !contains(payload.script, style_tag()),
        !contains(upstream.body, script_tag()) && !contains(payload.style, script_tag())
            && !contains(payload.script, script_tag()),
        !contains(upstream.body, flag_name()) && !contains(payload.style, flag_name())
            && !contains(payload.script, flag_name()),
    ensures
        page_response(payload, path, upstream).status == upstream.status,
        occurs_once(page_response(payload, path, upstream).body, style_tag()),
        occurs_once(page_response(payload, path, upstream).body, script_tag()),
        occurs_once(page_response(payload, path, upstream).body, flag_name()),
{
    lemma_style_tag_once(payload, upstream.body);
    lemma_script_tag_once(payload, upstream.body);
    lemma_flag_once(payload, upstream.body);
}

} // verus!
