//! The text format of the streaming host's configuration: one `key = value`
//! per line, `#` for comments, and values in brackets that may run over
//! several lines.

use crate::text::{append, copy_of, first_sep, split, split_bytes, views};
use vstd::prelude::*;

verus! {

pub const NEWLINE: u8 = 10;

pub const EQUALS: u8 = 61;

pub const HASH: u8 = 35;

pub const OPEN_BRACKET: u8 = 91;

pub const CLOSE_BRACKET: u8 = 93;

/// The width in bytes of the white-space character that `s` begins with, in
/// UTF-8; 0 where it begins with none. White space is what Unicode calls
/// `White_Space`: tab to carriage return, space, U+0085, U+00A0, U+1680,
/// U+2000 to U+200A, U+2028, U+2029, U+202F, U+205F and U+3000.
pub open spec fn space_width(s: Seq<u8>) -> nat {
    if s.len() >= 1 && (9 <= s[0] <= 13 || s[0] == 32) {
        1
    } else if s.len() >= 2 && s[0] == 0xC2 && (s[1] == 0x85 || s[1] == 0xA0) {
        2
    } else if s.len() >= 3 && s[0] == 0xE1 && s[1] == 0x9A && s[2] == 0x80 {
        3
    } else if s.len() >= 3 && s[0] == 0xE2 && s[1] == 0x80 && (0x80 <= s[2] <= 0x8A || s[2] == 0xA8
        || s[2] == 0xA9 || s[2] == 0xAF) {
        3
    } else if s.len() >= 3 && s[0] == 0xE2 && s[1] == 0x81 && s[2] == 0x9F {
        3
    } else if s.len() >= 3 && s[0] == 0xE3 && s[1] == 0x80 && s[2] == 0x80 {
        3
    } else {
        0
    }
}

/// The width in bytes of the white-space character that `s` ends in; 0
/// where it ends in none.
pub open spec fn trailing_space_width(s: Seq<u8>) -> nat {
    if s.len() >= 1 && space_width(s.skip(s.len() - 1)) == 1 {
        1
    } else if s.len() >= 2 && space_width(s.skip(s.len() - 2)) == 2 {
        2
    } else if s.len() >= 3 && space_width(s.skip(s.len() - 3)) == 3 {
        3
    } else {
        0
    }
}

/// `s` without the white space that it begins with.
pub open spec fn trim_space_start(s: Seq<u8>) -> Seq<u8>
    decreases s.len(),
{
    let width = space_width(s);
    if 0 < width <= s.len() {
        trim_space_start(s.skip(width as int))
    } else {
        s
    }
}

/// `s` without the white space that it ends in.
pub open spec fn trim_space_end(s: Seq<u8>) -> Seq<u8>
    decreases s.len(),
{
    let width = trailing_space_width(s);
    if 0 < width <= s.len() {
        trim_space_end(s.take(s.len() - width))
    } else {
        s
    }
}

/// `s` without the white space around it.
pub open spec fn trim_spaces(s: Seq<u8>) -> Seq<u8> {
    trim_space_end(trim_space_start(s))
}

/// One setting: a key and its value.
#[derive(Debug)]
pub struct ConfigEntry {
    pub key: Vec<u8>,
    pub value: Vec<u8>,
}

pub struct ConfigEntryView {
    pub key: Seq<u8>,
    pub value: Seq<u8>,
}

impl View for ConfigEntry {
    type V = ConfigEntryView;

    open spec fn view(&self) -> ConfigEntryView {
        ConfigEntryView { key: self.key@, value: self.value@ }
    }
}

pub open spec fn entries_view(entries: Seq<ConfigEntry>) -> Seq<ConfigEntryView> {
    Seq::new(entries.len(), |i: int| entries[i]@)
}

/// The lines of a text: its pieces between line feeds, without the empty
/// piece behind a line feed that ends the text. A carriage return before a
/// line feed stays in the line; trimming removes it.
pub open spec fn lines_of(content: Seq<u8>) -> Seq<Seq<u8>> {
    let pieces = split(content, NEWLINE);
    if pieces.len() > 0 && pieces.last().len() == 0 {
        pieces.drop_last()
    } else {
        pieces
    }
}

/// The setting that a line holds: none for an empty line, a comment, or a
/// line without `=`; else what stands before and behind the first `=`, each
/// without the white space around it.
pub open spec fn entry_of_line(line: Seq<u8>) -> Option<ConfigEntryView> {
    let text = trim_spaces(line);
    let cut = first_sep(text, EQUALS);
    if text.len() == 0 || text[0] == HASH || cut < 0 || cut >= text.len() {
        None
    } else {
        Some(
            ConfigEntryView {
                key: trim_spaces(text.take(cut)),
                value: trim_spaces(text.skip(cut + 1)),
            },
        )
    }
}

/// The settings of the first `upto` lines, each line read by itself.
pub open spec fn entries_of_lines(lines: Seq<Seq<u8>>, upto: int) -> Seq<ConfigEntryView>
    decreases upto,
{
    if upto <= 0 || upto > lines.len() {
        Seq::empty()
    } else {
        entries_of_lines(lines, upto - 1) + (match entry_of_line(lines[upto - 1]) {
            Some(entry) => seq![entry],
            None => Seq::empty(),
        })
    }
}

/// The settings of a text, each line read by itself.
pub open spec fn simple_entries(content: Seq<u8>) -> Seq<ConfigEntryView> {
    entries_of_lines(lines_of(content), lines_of(content).len() as int)
}

/// The value that the settings give `key`: that of the last setting of this key.
pub open spec fn last_value(entries: Seq<ConfigEntryView>, key: Seq<u8>) -> Option<Seq<u8>>
    decreases entries.len(),
{
    if entries.len() == 0 {
        None
    } else if entries.last().key == key {
        Some(entries.last().value)
    } else {
        last_value(entries.drop_last(), key)
    }
}

/// Whether a value opens a bracket that it does not close on its own line.
pub open spec fn is_unclosed(value: Seq<u8>) -> bool {
    value.len() > 0 && value[0] == OPEN_BRACKET && value.last() != CLOSE_BRACKET
}

/// Whether a line, trimmed, ends a value in brackets.
pub open spec fn closes_value(line: Seq<u8>) -> bool {
    trim_spaces(line).len() > 0 && trim_spaces(line).last() == CLOSE_BRACKET
}

/// The first line from `from` on that ends a value in brackets; the number
/// of lines where there is none.
pub open spec fn closing_line(lines: Seq<Seq<u8>>, from: int) -> int
    decreases lines.len() - from,
{
    if from < 0 || from >= lines.len() || closes_value(lines[from]) {
        from
    } else {
        closing_line(lines, from + 1)
    }
}

/// `value` with the lines from `from` up to and with `last` added to it,
/// each trimmed and behind a line feed.
pub open spec fn continued_value(lines: Seq<Seq<u8>>, from: int, last: int, value: Seq<u8>) -> Seq<
    u8,
>
    decreases last - from + 1,
{
    if from < 0 || from > last || from >= lines.len() {
        value
    } else {
        continued_value(lines, from + 1, last, value + seq![NEWLINE] + trim_spaces(lines[from]))
    }
}

/// The settings of the lines from `from` on, where a value in brackets may
/// run over several lines: a value that opens a bracket without closing it
/// takes in the lines that follow, up to and with the first that ends in `]`.
pub open spec fn entries_from(lines: Seq<Seq<u8>>, from: int) -> Seq<ConfigEntryView>
    decreases lines.len() - from,
{
    if from < 0 || from >= lines.len() {
        Seq::empty()
    } else {
        match entry_of_line(lines[from]) {
            None => entries_from(lines, from + 1),
            Some(entry) => if is_unclosed(entry.value) {
                let last = closing_line(lines, from + 1);
                seq![
                    ConfigEntryView {
                        key: entry.key,
                        value: continued_value(lines, from + 1, last, entry.value),
                    },
                ] + (if from < last < lines.len() {
                    entries_from(lines, last + 1)
                } else {
                    Seq::empty()
                })
            } else {
                seq![entry] + entries_from(lines, from + 1)
            },
        }
    }
}

/// The settings of a text, where a value in brackets may run over several lines.
pub open spec fn full_entries(content: Seq<u8>) -> Seq<ConfigEntryView> {
    entries_from(lines_of(content), 0)
}

pub proof fn lemma_closing_line_bounds(lines: Seq<Seq<u8>>, from: int)
    requires
        0 <= from <= lines.len(),
    ensures
        from <= closing_line(lines, from) <= lines.len(),
    decreases lines.len() - from,
{
    if from < lines.len() && !closes_value(lines[from]) {
        lemma_closing_line_bounds(lines, from + 1);
    }
}

fn space_width_at(s: &[u8], at: usize) -> (width: usize)
    requires
        at <= s@.len(),
    ensures
        width == space_width(s@.skip(at as int)),
        at + width <= s@.len(),
{
    let left = s.len() - at;
    let ghost rest = s@.skip(at as int);
    if left >= 1 {
        assert(rest[0] == s@[at as int]);
    }
    if left >= 2 {
        assert(rest[1] == s@[at + 1]);
    }
    if left >= 3 {
        assert(rest[2] == s@[at + 2]);
    }
    if left >= 1 && ((9 <= s[at] && s[at] <= 13) || s[at] == 32) {
        1
    } else if left >= 2 && s[at] == 0xC2 && (s[at + 1] == 0x85 || s[at + 1] == 0xA0) {
        2
    } else if left >= 3 && s[at] == 0xE1 && s[at + 1] == 0x9A && s[at + 2] == 0x80 {
        3
    } else if left >= 3 && s[at] == 0xE2 && s[at + 1] == 0x80 && ((0x80 <= s[at + 2] && s[at + 2]
        <= 0x8A) || s[at + 2] == 0xA8 || s[at + 2] == 0xA9 || s[at + 2] == 0xAF) {
        3
    } else if left >= 3 && s[at] == 0xE2 && s[at + 1] == 0x81 && s[at + 2] == 0x9F {
        3
    } else if left >= 3 && s[at] == 0xE3 && s[at + 1] == 0x80 && s[at + 2] == 0x80 {
        3
    } else {
        0
    }
}

fn trailing_space_width_before(s: &[u8], end: usize) -> (width: usize)
    requires
        end <= s@.len(),
    ensures
        width == trailing_space_width(s@.take(end as int)),
        width <= end,
{
    let ghost head = s@.take(end as int);
    let head_slice = vstd::slice::slice_subrange(s, 0, end);
    assert(head_slice@ =~= head);
    if end >= 1 && space_width_at(head_slice, end - 1) == 1 {
        1
    } else if end >= 2 && space_width_at(head_slice, end - 2) == 2 {
        2
    } else if end >= 3 && space_width_at(head_slice, end - 3) == 3 {
        3
    } else {
        0
    }
}

/// `s` without the white space that it begins with.
pub fn trimmed_space_start(s: &[u8]) -> (text: &[u8])
    ensures
        text@ == trim_space_start(s@),
{
    let mut start: usize = 0;
    assert(s@.skip(0) =~= s@);
    loop
        invariant
            start <= s.len(),
            trim_space_start(s@) == trim_space_start(s@.skip(start as int)),
        ensures
            start <= s.len(),
            trim_space_start(s@) == s@.skip(start as int),
        decreases s.len() - start,
    {
        let width = space_width_at(s, start);
        if width == 0 {
            break ;
        }
        assert(s@.skip(start as int).skip(width as int) =~= s@.skip(start + width));
        start += width;
    }
    let rest = vstd::slice::slice_subrange(s, start, s.len());
    assert(rest@ =~= s@.skip(start as int));
    rest
}

/// `s` without the white space that it ends in.
pub fn trimmed_space_end(s: &[u8]) -> (text: &[u8])
    ensures
        text@ == trim_space_end(s@),
{
    let mut end: usize = s.len();
    assert(s@.take(s@.len() as int) =~= s@);
    loop
        invariant
            end <= s.len(),
            trim_space_end(s@) == trim_space_end(s@.take(end as int)),
        ensures
            end <= s.len(),
            trim_space_end(s@) == s@.take(end as int),
        decreases end,
    {
        let width = trailing_space_width_before(s, end);
        if width == 0 {
            break ;
        }
        assert(s@.take(end as int).take(end - width) =~= s@.take(end - width));
        end -= width;
    }
    let text = vstd::slice::slice_subrange(s, 0, end);
    assert(text@ =~= s@.take(end as int));
    text
}

/// `s` without the white space around it.
pub fn trimmed(s: &[u8]) -> (text: &[u8])
    ensures
        text@ == trim_spaces(s@),
{
    trimmed_space_end(trimmed_space_start(s))
}

/// The lines of a text.
pub fn split_lines(content: &[u8]) -> (lines: Vec<Vec<u8>>)
    ensures
        views(lines@) == lines_of(content@),
{
    let mut lines = split_bytes(content, NEWLINE);
    let ghost pieces = views(lines@);
    let count = lines.len();
    assert(pieces.last() == lines@[count - 1]@);
    if lines[count - 1].len() == 0 {
        lines.pop();
        assert(views(lines@) =~= pieces.drop_last());
    }
    lines
}

/// The setting that a line holds.
pub fn parse_line(line: &[u8]) -> (entry: Option<ConfigEntry>)
    ensures
        entry is Some == entry_of_line(line@) is Some,
        entry matches Some(e) ==> entry_of_line(line@) == Some(e@),
{
    let text = trimmed(line);
    if text.len() == 0 || text[0] == HASH {
        return None;
    }
    let mut cut: usize = 0;
    assert(text@.skip(0) =~= text@);
    while cut < text.len() && text[cut] != EQUALS
        invariant
            cut <= text.len(),
            first_sep(text@, EQUALS) == cut + first_sep(text@.skip(cut as int), EQUALS),
        decreases text.len() - cut,
    {
        assert(text@.skip(cut as int)[0] == text@[cut as int]);
        assert(text@.skip(cut as int).skip(1) =~= text@.skip(cut + 1));
        cut += 1;
    }
    proof {
        if cut < text.len() {
            assert(text@.skip(cut as int)[0] == text@[cut as int]);
        }
        assert(first_sep(text@, EQUALS) == cut);
    }
    if cut >= text.len() {
        return None;
    }
    let key = vstd::slice::slice_subrange(text, 0, cut);
    let value = vstd::slice::slice_subrange(text, cut + 1, text.len());
    assert(key@ =~= text@.take(cut as int));
    assert(value@ =~= text@.skip(cut + 1));
    Some(ConfigEntry { key: copy_of(trimmed(key)), value: copy_of(trimmed(value)) })
}

/// The settings of a text, each line read by itself.
pub fn parse_simple(content: &[u8]) -> (entries: Vec<ConfigEntry>)
    ensures
        entries_view(entries@) == simple_entries(content@),
{
    let lines = split_lines(content);
    let mut entries: Vec<ConfigEntry> = Vec::new();
    let mut i: usize = 0;
    assert(entries_view(entries@) =~= Seq::<ConfigEntryView>::empty());
    while i < lines.len()
        invariant
            i <= lines.len(),
            entries_view(entries@) == entries_of_lines(views(lines@), i as int),
        decreases lines.len() - i,
    {
        let ghost before = entries_view(entries@);
        assert(views(lines@)[i as int] == lines@[i as int]@);
        match parse_line(lines[i].as_slice()) {
            Some(entry) => {
                let ghost added = entry@;
                entries.push(entry);
                assert(entries_view(entries@) =~= before + seq![added]);
            },
            None => {
                assert(entries_view(entries@) =~= before + Seq::<ConfigEntryView>::empty());
            },
        }
        i += 1;
    }
    entries
}

/// The value that the settings give `key`.
pub fn find_last_value(entries: &Vec<ConfigEntry>, key: &[u8]) -> (value: Option<Vec<u8>>)
    ensures
        value is Some == last_value(entries_view(entries@), key@) is Some,
        value matches Some(v) ==> last_value(entries_view(entries@), key@) == Some(v@),
{
    let mut i: usize = entries.len();
    assert(entries_view(entries@).take(i as int) =~= entries_view(entries@));
    while i > 0
        invariant
            i <= entries.len(),
            last_value(entries_view(entries@), key@) == last_value(
                entries_view(entries@).take(i as int),
                key@,
            ),
        decreases i,
    {
        let ghost seen = entries_view(entries@).take(i as int);
        assert(seen.last() == entries@[i - 1]@);
        assert(seen.drop_last() =~= entries_view(entries@).take(i - 1));
        if crate::text::bytes_eq(entries[i - 1].key.as_slice(), key) {
            return Some(copy_of(entries[i - 1].value.as_slice()));
        }
        i -= 1;
    }
    None
}

fn is_unclosed_value(value: &[u8]) -> (r: bool)
    ensures
        r == is_unclosed(value@),
{
    value.len() > 0 && value[0] == OPEN_BRACKET && value[value.len() - 1] != CLOSE_BRACKET
}

/// The settings of a text, where a value in brackets may run over several lines.
pub fn parse_full(content: &[u8]) -> (entries: Vec<ConfigEntry>)
    ensures
        entries_view(entries@) == full_entries(content@),
{
    let lines = split_lines(content);
    let ghost all = views(lines@);
    let mut entries: Vec<ConfigEntry> = Vec::new();
    let mut i: usize = 0;
    assert(entries_view(entries@) =~= Seq::<ConfigEntryView>::empty());
    while i < lines.len()
        invariant
            i <= lines.len(),
            all == views(lines@),
            entries_view(entries@) + entries_from(all, i as int) == entries_from(all, 0),
        decreases lines.len() - i,
    {
        let ghost before = entries_view(entries@);
        let ghost start = i as int;
        assert(all[i as int] == lines@[i as int]@);
        match parse_line(lines[i].as_slice()) {
            None => {
                i += 1;
            },
            Some(entry) => {
                let ghost first = entry@;
                let mut value = entry.value;
                let key = entry.key;
                if is_unclosed_value(value.as_slice()) {
                    i += 1;
                    let ghost last = closing_line(all, start + 1);
                    proof {
                        lemma_closing_line_bounds(all, start + 1);
                    }
                    let mut closed = false;
                    while i < lines.len() && !closed
                        invariant
                            start < i <= lines.len(),
                            all == views(lines@),
                            last == closing_line(all, start + 1),
                            start < last <= lines.len(),
                            !closed ==> i <= last && closing_line(all, i as int) == last
                                && continued_value(all, start + 1, last, first.value)
                                == continued_value(all, i as int, last, value@),
                            closed ==> i == last && i < lines.len() && continued_value(
                                all,
                                start + 1,
                                last,
                                first.value,
                            ) == value@,
                        decreases lines.len() - i + (if closed { 0int } else { 1int }),
                    {
                        assert(all[i as int] == lines@[i as int]@);
                        let ghost shorter = value@;
                        let line = trimmed(lines[i].as_slice());
                        value.push(NEWLINE);
                        append(&mut value, line);
                        assert(value@ =~= shorter + seq![NEWLINE] + line@);
                        assert(closes_value(all[i as int]) == (line@.len() > 0 && line@.last()
                            == CLOSE_BRACKET));
                        if line.len() > 0 && line[line.len() - 1] == CLOSE_BRACKET {
                            closed = true;
                            assert(continued_value(all, i + 1, last, value@) == value@);
                        } else {
                            proof {
                                lemma_closing_line_bounds(all, i + 1);
                                assert(closing_line(all, i as int) == closing_line(all, i + 1));
                                assert(continued_value(all, i as int, last, shorter)
                                    == continued_value(all, i + 1, last, value@));
                            }
                            i += 1;
                        }
                    }
                    let ghost made = ConfigEntryView { key: key@, value: value@ };
                    entries.push(ConfigEntry { key, value });
                    assert(entries_view(entries@) =~= before + seq![made]);
                    proof {
                        assert(i == last);
                        assert(continued_value(all, start + 1, last, first.value) == value@);
                    }
                    if closed {
                        i += 1;
                    }
                    assert(entries_view(entries@) + entries_from(all, i as int) =~= before
                        + entries_from(all, start));
                } else {
                    let ghost made = ConfigEntryView { key: key@, value: value@ };
                    entries.push(ConfigEntry { key, value });
                    assert(entries_view(entries@) =~= before + seq![made]);
                    i += 1;
                }
            },
        }
    }
    assert(entries_view(entries@) + Seq::<ConfigEntryView>::empty() =~= entries_view(entries@));
    entries
}

} // verus!
