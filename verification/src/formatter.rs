//! Renders a sequence of timed segments into one of the output text
//! encodings: plain text, two subtitle formats sharing their timing math,
//! and a JSON structure of the segments. Pure and total: malformed segment
//! sequences are rendered uninterpreted.

use crate::text::{
    chars_of,
    dec_digit,
    dec_digit_exec,
    dec_pad2,
    dec_pad3,
    dec_rep,
    push_dec,
    push_dec_pad2,
    push_dec_pad3,
    string_of,
};
use crate::types::{OutputFormat, TimedSegment};
use vstd::prelude::*;

verus! {

/// A subtitle timestamp for a time in centiseconds: hours, minutes, seconds
/// and milliseconds, the first three zero-padded to two digits and the last
/// to three, with `sep` between seconds and milliseconds.
pub open spec fn timestamp_chars(cs: int, sep: char) -> Seq<char>
    recommends
        cs >= 0,
{
    dec_pad2(cs / 360000) + seq![':'] + dec_pad2((cs % 360000) / 6000) + seq![':'] + dec_pad2(
        (cs % 6000) / 100,
    ) + seq![sep] + dec_pad3((cs % 100) * 10)
}

fn push_timestamp(out: &mut Vec<char>, cs: u64, sep: char)
    ensures
        final(out)@ == old(out)@ + timestamp_chars(cs as int, sep),
{
    push_dec_pad2(out, cs / 360000);
    out.push(':');
    push_dec_pad2(out, (cs % 360000) / 6000);
    out.push(':');
    push_dec_pad2(out, (cs % 6000) / 100);
    out.push(sep);
    push_dec_pad3(out, (cs % 100) * 10);
    assert(out@ =~= old(out)@ + timestamp_chars(cs as int, sep));
}

/// One numbered subtitle block: index, timing line with comma before the
/// milliseconds, text, and a blank line.
pub open spec fn srt_block(num: int, seg: TimedSegment) -> Seq<char> {
    dec_rep(num) + seq!['\n'] + timestamp_chars(seg.start as int, ',') + " --> "@
        + timestamp_chars(seg.end as int, ',') + seq!['\n'] + seg.text@ + seq!['\n', '\n']
}

pub open spec fn srt_from(segs: Seq<TimedSegment>, i: int) -> Seq<char>
    decreases segs.len() - i,
{
    if i < 0 || i >= segs.len() {
        Seq::empty()
    } else {
        srt_block(i + 1, segs[i]) + srt_from(segs, i + 1)
    }
}

/// The subtitle format with 1-based block numbers.
pub open spec fn srt_of(segs: Seq<TimedSegment>) -> Seq<char> {
    srt_from(segs, 0)
}

pub fn format_srt(segments: &Vec<TimedSegment>) -> (r: String)
    ensures
        r@ == srt_of(segments@),
{
    let n = segments.len();
    let mut out: Vec<char> = Vec::new();
    let mut i: usize = 0;
    while i < n
        invariant
            i <= n,
            n == segments@.len(),
            srt_of(segments@) == out@ + srt_from(segments@, i as int),
        decreases n - i,
    {
        let ghost prev = out@;
        push_dec(&mut out, (i + 1) as u64);
        out.push('\n');
        push_timestamp(&mut out, segments[i].start, ',');
        let mut arrow = chars_of(" --> ");
        out.append(&mut arrow);
        push_timestamp(&mut out, segments[i].end, ',');
        out.push('\n');
        let mut text = chars_of(segments[i].text.as_str());
        out.append(&mut text);
        out.push('\n');
        out.push('\n');
        proof {
            assert(out@ =~= prev + srt_block(i + 1, segments@[i as int]));
            assert(prev + srt_block(i + 1, segments@[i as int]) + srt_from(segments@, i + 1) =~= prev
                + srt_from(segments@, i as int));
        }
        i = i + 1;
    }
    string_of(&out)
}

/// One unnumbered subtitle block: timing line with a dot before the
/// milliseconds, text, and a blank line.
pub open spec fn vtt_block(seg: TimedSegment) -> Seq<char> {
    timestamp_chars(seg.start as int, '.') + " --> "@ + timestamp_chars(seg.end as int, '.')
        + seq!['\n'] + seg.text@ + seq!['\n', '\n']
}

pub open spec fn vtt_from(segs: Seq<TimedSegment>, i: int) -> Seq<char>
    decreases segs.len() - i,
{
    if i < 0 || i >= segs.len() {
        Seq::empty()
    } else {
        vtt_block(segs[i]) + vtt_from(segs, i + 1)
    }
}

/// The subtitle format with a fixed header and unnumbered blocks.
pub open spec fn vtt_of(segs: Seq<TimedSegment>) -> Seq<char> {
    "WEBVTT\n\n"@ + vtt_from(segs, 0)
}

pub fn format_vtt(segments: &Vec<TimedSegment>) -> (r: String)
    ensures
        r@ == vtt_of(segments@),
{
    let n = segments.len();
    let mut out: Vec<char> = chars_of("WEBVTT\n\n");
    let mut i: usize = 0;
    while i < n
        invariant
            i <= n,
            n == segments@.len(),
            vtt_of(segments@) == out@ + vtt_from(segments@, i as int),
        decreases n - i,
    {
        let ghost prev = out@;
        push_timestamp(&mut out, segments[i].start, '.');
        let mut arrow = chars_of(" --> ");
        out.append(&mut arrow);
        push_timestamp(&mut out, segments[i].end, '.');
        out.push('\n');
        let mut text = chars_of(segments[i].text.as_str());
        out.append(&mut text);
        out.push('\n');
        out.push('\n');
        proof {
            assert(out@ =~= prev + vtt_block(segments@[i as int]));
            assert(prev + vtt_block(segments@[i as int]) + vtt_from(segments@, i + 1) =~= prev
                + vtt_from(segments@, i as int));
        }
        i = i + 1;
    }
    string_of(&out)
}

pub open spec fn txt_from(segs: Seq<TimedSegment>, i: int) -> Seq<char>
    decreases segs.len() - i,
{
    if i < 0 || i >= segs.len() {
        Seq::empty()
    } else if i == segs.len() - 1 {
        segs[i].text@
    } else {
        segs[i].text@ + seq!['\n'] + txt_from(segs, i + 1)
    }
}

/// The plain-text format: segment texts joined by newlines, in emission
/// order.
pub open spec fn txt_of(segs: Seq<TimedSegment>) -> Seq<char> {
    txt_from(segs, 0)
}

pub fn format_txt(segments: &Vec<TimedSegment>) -> (r: String)
    ensures
        r@ == txt_of(segments@),
{
    let n = segments.len();
    let mut out: Vec<char> = Vec::new();
    let mut i: usize = 0;
    while i < n
        invariant
            i <= n,
            n == segments@.len(),
            txt_of(segments@) == out@ + txt_from(segments@, i as int),
        decreases n - i,
    {
        let ghost prev = out@;
        let mut text = chars_of(segments[i].text.as_str());
        out.append(&mut text);
        if i + 1 < n {
            out.push('\n');
            proof {
                assert(out@ =~= prev + (segments@[i as int].text@ + seq!['\n']));
                assert(prev + (segments@[i as int].text@ + seq!['\n']) + txt_from(
                    segments@,
                    i + 1,
                ) =~= prev + txt_from(segments@, i as int));
            }
        } else {
            proof {
                assert(out@ + txt_from(segments@, i + 1) =~= prev + txt_from(
                    segments@,
                    i as int,
                ));
            }
        }
        i = i + 1;
    }
    assert(out@ =~= txt_of(segments@));
    string_of(&out)
}

/// The lower-case hexadecimal digit for a value in 0..=15.
pub open spec fn hex_digit(d: int) -> char
    recommends
        0 <= d < 16,
{
    if d < 10 {
        dec_digit(d)
    } else if d == 10 {
        'a'
    } else if d == 11 {
        'b'
    } else if d == 12 {
        'c'
    } else if d == 13 {
        'd'
    } else if d == 14 {
        'e'
    } else {
        'f'
    }
}

fn hex_digit_exec(d: u32) -> (c: char)
    requires
        d < 16,
    ensures
        c == hex_digit(d as int),
{
    if d < 10 {
        dec_digit_exec(d as u64)
    } else if d == 10 {
        'a'
    } else if d == 11 {
        'b'
    } else if d == 12 {
        'c'
    } else if d == 13 {
        'd'
    } else if d == 14 {
        'e'
    } else {
        'f'
    }
}

/// How one character is written inside a JSON string: the named escapes for
/// quote, backslash and the common control characters, a four-digit escape
/// for the remaining control characters, and the character itself otherwise.
pub open spec fn json_escape_char(c: char) -> Seq<char> {
    if c == '"' {
        seq!['\\', '"']
    } else if c == '\\' {
        seq!['\\', '\\']
    } else if c == '\n' {
        seq!['\\', 'n']
    } else if c == '\r' {
        seq!['\\', 'r']
    } else if c == '\t' {
        seq!['\\', 't']
    } else if c == '\u{8}' {
        seq!['\\', 'b']
    } else if c == '\u{c}' {
        seq!['\\', 'f']
    } else if (c as u32) < 32 {
        seq!['\\', 'u', '0', '0', hex_digit(((c as u32) / 16) as int), hex_digit(
            ((c as u32) % 16) as int,
        )]
    } else {
        seq![c]
    }
}

pub open spec fn json_escape_from(s: Seq<char>, i: int) -> Seq<char>
    decreases s.len() - i,
{
    if i < 0 || i >= s.len() {
        Seq::empty()
    } else {
        json_escape_char(s[i]) + json_escape_from(s, i + 1)
    }
}

pub open spec fn json_escape(s: Seq<char>) -> Seq<char> {
    json_escape_from(s, 0)
}

fn push_json_escaped(out: &mut Vec<char>, s: &str)
    ensures
        final(out)@ == old(out)@ + json_escape(s@),
{
    let cs = chars_of(s);
    let n = cs.len();
    let mut i: usize = 0;
    while i < n
        invariant
            i <= n,
            n == cs@.len(),
            cs@ == s@,
            old(out)@ + json_escape(s@) == out@ + json_escape_from(s@, i as int),
        decreases n - i,
    {
        let ghost prev = out@;
        let c = cs[i];
        if c == '"' {
            out.push('\\');
            out.push('"');
        } else if c == '\\' {
            out.push('\\');
            out.push('\\');
        } else if c == '\n' {
            out.push('\\');
            out.push('n');
        } else if c == '\r' {
            out.push('\\');
            out.push('r');
        } else if c == '\t' {
            out.push('\\');
            out.push('t');
        } else if c == '\u{8}' {
            out.push('\\');
            out.push('b');
        } else if c == '\u{c}' {
            out.push('\\');
            out.push('f');
        } else if (c as u32) < 32 {
            out.push('\\');
            out.push('u');
            out.push('0');
            out.push('0');
            out.push(hex_digit_exec((c as u32) / 16));
            out.push(hex_digit_exec((c as u32) % 16));
        } else {
            out.push(c);
        }
        proof {
            assert(out@ =~= prev + json_escape_char(s@[i as int]));
            assert(prev + json_escape_char(s@[i as int]) + json_escape_from(s@, i + 1) =~= prev
                + json_escape_from(s@, i as int));
        }
        i = i + 1;
    }
    assert(out@ =~= old(out)@ + json_escape(s@));
}

/// A time in centiseconds written as decimal seconds: the whole seconds, a
/// dot, and up to two fraction digits with a trailing zero dropped (a bare
/// zero fraction is written "0").
pub open spec fn json_seconds(cs: int) -> Seq<char>
    recommends
        cs >= 0,
{
    dec_rep(cs / 100) + seq!['.'] + json_frac(cs % 100)
}

pub open spec fn json_frac(f: int) -> Seq<char>
    recommends
        0 <= f < 100,
{
    if f == 0 {
        seq!['0']
    } else if f % 10 == 0 {
        seq![dec_digit(f / 10)]
    } else {
        seq![dec_digit(f / 10), dec_digit(f % 10)]
    }
}

fn push_json_seconds(out: &mut Vec<char>, cs: u64)
    ensures
        final(out)@ == old(out)@ + json_seconds(cs as int),
{
    push_dec(out, cs / 100);
    out.push('.');
    let f = cs % 100;
    if f == 0 {
        out.push('0');
    } else if f % 10 == 0 {
        out.push(dec_digit_exec(f / 10));
    } else {
        out.push(dec_digit_exec(f / 10));
        out.push(dec_digit_exec(f % 10));
    }
    assert(out@ =~= old(out)@ + json_seconds(cs as int));
}

/// One segment as a JSON object: 0-based id, start and end in seconds, and
/// the escaped text.
pub open spec fn json_block(num: int, seg: TimedSegment) -> Seq<char> {
    "{\"id\":"@ + dec_rep(num) + ",\"start\":"@ + json_seconds(seg.start as int) + ",\"end\":"@
        + json_seconds(seg.end as int) + ",\"text\":\""@ + json_escape(seg.text@) + "\"}"@
}

pub open spec fn json_items_from(segs: Seq<TimedSegment>, i: int) -> Seq<char>
    decreases segs.len() - i,
{
    if i < 0 || i >= segs.len() {
        Seq::empty()
    } else if i == segs.len() - 1 {
        json_block(i, segs[i])
    } else {
        json_block(i, segs[i]) + seq![','] + json_items_from(segs, i + 1)
    }
}

/// The structured format: one object holding the segment list.
pub open spec fn json_of(segs: Seq<TimedSegment>) -> Seq<char> {
    "{\"segments\":["@ + json_items_from(segs, 0) + "]}"@
}

pub fn format_json(segments: &Vec<TimedSegment>) -> (r: String)
    ensures
        r@ == json_of(segments@),
{
    let n = segments.len();
    let mut out: Vec<char> = chars_of("{\"segments\":[");
    let mut i: usize = 0;
    while i < n
        invariant
            i <= n,
            n == segments@.len(),
            "{\"segments\":["@ + json_items_from(segments@, 0) == out@ + json_items_from(
                segments@,
                i as int,
            ),
        decreases n - i,
    {
        let ghost prev = out@;
        let mut open_part = chars_of("{\"id\":");
        out.append(&mut open_part);
        push_dec(&mut out, i as u64);
        let mut start_part = chars_of(",\"start\":");
        out.append(&mut start_part);
        push_json_seconds(&mut out, segments[i].start);
        let mut end_part = chars_of(",\"end\":");
        out.append(&mut end_part);
        push_json_seconds(&mut out, segments[i].end);
        let mut text_part = chars_of(",\"text\":\"");
        out.append(&mut text_part);
        push_json_escaped(&mut out, segments[i].text.as_str());
        let mut close_part = chars_of("\"}");
        out.append(&mut close_part);
        proof {
            assert(out@ =~= prev + json_block(i as int, segments@[i as int]));
        }
        if i + 1 < n {
            out.push(',');
            proof {
                assert(out@ + json_items_from(segments@, i + 1) =~= prev + json_items_from(
                    segments@,
                    i as int,
                ));
            }
        } else {
            proof {
                assert(out@ + json_items_from(segments@, i + 1) =~= prev + json_items_from(
                    segments@,
                    i as int,
                ));
            }
        }
        i = i + 1;
    }
    let mut tail = chars_of("]}");
    out.append(&mut tail);
    assert(out@ =~= json_of(segments@));
    string_of(&out)
}

/// What `format_segments` produces for each output format.
pub open spec fn format_spec(segs: Seq<TimedSegment>, format: OutputFormat) -> Seq<char> {
    match format {
        OutputFormat::Txt => txt_of(segs),
        OutputFormat::Srt => srt_of(segs),
        OutputFormat::Vtt => vtt_of(segs),
        OutputFormat::Json => json_of(segs),
    }
}

/// Renders the segments in the chosen output format.
pub fn format_segments(segments: &Vec<TimedSegment>, format: &OutputFormat) -> (r: String)
    ensures
        r@ == format_spec(segments@, *format),
{
    match format {
        OutputFormat::Txt => format_txt(segments),
        OutputFormat::Srt => format_srt(segments),
        OutputFormat::Vtt => format_vtt(segments),
        OutputFormat::Json => format_json(segments),
    }
}

} // verus!
