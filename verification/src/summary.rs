//! Summaries of messages for the log: every frame is shown as cropped
//! structured data where it parses as such, as quoted text where it is text,
//! and as a count of bytes with the first of them otherwise.

use crate::crop::{crop_tree, crop_value};
use crate::interop::{
    parsed_bytes, parsed_text, render, rendered, try_parse_json_bytes, try_parse_json_str,
};
use crate::json::Json;
use crate::text::{byte_list, decimal, push_byte_list, push_decimal, quote, quoted};
use vstd::prelude::*;
use vstd::string::{StrSliceExecFns, StringExecFns, StringSliceAdditionalSpecFns};
use vstd::utf8::{decode_utf8, valid_utf8};

verus! {

/// Of a frame that is not text, this many leading bytes are shown.
pub const BYTES_PREVIEW_LEN: usize = 20;

/// What `str::trim` of std leaves of a text: the text without its leading
/// and trailing whitespace.
pub uninterp spec fn trimmed(text: Seq<char>) -> Seq<char>;

/// Whether a character is whitespace as `str::trim` takes it: what
/// `char::is_whitespace` of std tells of it.
pub uninterp spec fn is_white_space(c: char) -> bool;

/// `inner` is one contiguous part of `text`, and what `text` has before and
/// after it is whitespace.
pub open spec fn is_cut_of(inner: Seq<char>, text: Seq<char>) -> bool {
    exists|start: int, end: int|
        {
            &&& 0 <= start <= end <= text.len()
            &&& inner == #[trigger] text.subrange(start, end)
            &&& forall|k: int| 0 <= k < start ==> is_white_space(#[trigger] text[k])
            &&& forall|k: int| end <= k < text.len() ==> is_white_space(#[trigger] text[k])
        }
}

/// Calls `str::trim`. The result is one contiguous part of the text; what is
/// cut off before and after it is whitespace, and it neither begins nor ends
/// with whitespace.
#[verifier::external_body]
fn trim_text(text: &str) -> (inner: &str)
    ensures
        inner@ == trimmed(text@),
        is_cut_of(inner@, text@),
        inner@.len() > 0 ==> !is_white_space(inner@.first()) && !is_white_space(inner@.last()),
{
    text.trim()
}

/// Calls `std::str::from_utf8`: the bytes are taken as text exactly when
/// they are valid UTF-8, and the text then has those bytes.
#[verifier::external_body]
fn utf8_text(bytes: &[u8]) -> (r: Option<&str>)
    ensures
        r is Some <==> valid_utf8(bytes@),
        r matches Some(text) ==> text.spec_bytes() == bytes@,
{
    std::str::from_utf8(bytes).ok()
}

/// A text that begins and ends like an object or an array.
pub open spec fn looks_structured(text: Seq<char>) -> bool {
    text.len() > 0 && ((text.first() == '{' && text.last() == '}') || (text.first() == '['
        && text.last() == ']'))
}

/// The summary of a frame that is text: its structured content if it has
/// one between whitespace, else the text in quotes.
pub open spec fn text_summary(text: Seq<char>) -> Seq<char> {
    let inner = trimmed(text);
    if looks_structured(inner) && parsed_text(inner) is Some {
        rendered(crop_tree(parsed_text(inner)->0, 0))
    } else {
        quoted(text)
    }
}

/// How many leading bytes of a frame of `len` bytes are shown.
pub open spec fn preview_len(len: nat) -> nat {
    if len > BYTES_PREVIEW_LEN {
        BYTES_PREVIEW_LEN as nat
    } else {
        len
    }
}

/// The summary of a frame that is not text: the number of its bytes and
/// the first of them as a list, which ends in `...` where bytes are left
/// out.
pub open spec fn bytes_summary(bytes: Seq<u8>) -> Seq<char> {
    "["@ + decimal(bytes.len()) + " bytes: "@ + byte_list(
        bytes.take(preview_len(bytes.len()) as int),
    ) + (if bytes.len() > BYTES_PREVIEW_LEN {
        "...]"@
    } else {
        "]"@
    })
}

/// The summary of one frame.
pub open spec fn part_summary(bytes: Seq<u8>) -> Seq<char> {
    match parsed_bytes(bytes) {
        Some(tree) => rendered(crop_tree(tree, 0)),
        None => if valid_utf8(bytes) {
            text_summary(decode_utf8(bytes))
        } else {
            bytes_summary(bytes)
        },
    }
}

/// The frames of a message as sequences of bytes.
pub open spec fn frames_of(parts: Seq<Vec<u8>>) -> Seq<Seq<u8>> {
    Seq::new(parts.len(), |i: int| parts[i]@)
}

/// The summaries of frames with `" | "` between them.
pub open spec fn joined_summaries(frames: Seq<Seq<u8>>) -> Seq<char>
    decreases frames.len(),
{
    if frames.len() == 0 {
        Seq::empty()
    } else if frames.len() == 1 {
        part_summary(frames[0])
    } else {
        joined_summaries(frames.drop_last()) + " | "@ + part_summary(frames.last())
    }
}

/// The summary of a message: a fixed text for the message without frames,
/// the frame's summary for a single frame, and else the summaries in square
/// brackets with `" | "` between them.
pub open spec fn message_summary(frames: Seq<Seq<u8>>) -> Seq<char> {
    if frames.len() == 0 {
        "[empty message]"@
    } else if frames.len() == 1 {
        part_summary(frames[0])
    } else {
        "["@ + joined_summaries(frames) + "]"@
    }
}

/// Crops a value and prints it.
pub fn format_json_pretty(value: &Json) -> (s: String)
    ensures
        s@ == rendered(crop_tree(value@, 0)),
{
    let cropped = crop_value(value, 0);
    render(&cropped)
}

/// Tells whether a text begins and ends like an object or an array.
pub fn has_structured_shape(text: &str) -> (b: bool)
    ensures
        b == looks_structured(text@),
{
    let n = text.unicode_len();
    if n == 0 {
        return false;
    }
    let first = text.get_char(0);
    let last = text.get_char(n - 1);
    (first == '{' && last == '}') || (first == '[' && last == ']')
}

/// Summarizes a frame that is text.
pub fn format_text(text: &str) -> (s: String)
    ensures
        s@ == text_summary(text@),
{
    let inner = trim_text(text);
    if has_structured_shape(inner) {
        if let Some(value) = try_parse_json_str(inner) {
            return format_json_pretty(&value);
        }
    }
    quote(text)
}

/// Summarizes a frame that is not text.
pub fn format_bytes(part: &[u8]) -> (s: String)
    ensures
        s@ == bytes_summary(part@),
{
    let mut out = String::from_str("[");
    push_decimal(&mut out, part.len());
    out.append(" bytes: ");
    if part.len() > BYTES_PREVIEW_LEN {
        push_byte_list(&mut out, part, BYTES_PREVIEW_LEN);
        out.append("...]");
    } else {
        push_byte_list(&mut out, part, part.len());
        out.append("]");
    }
    out
}

/// Summarizes one frame of a message.
pub fn format_part(part: &[u8]) -> (s: String)
    ensures
        s@ == part_summary(part@),
{
    if let Some(value) = try_parse_json_bytes(part) {
        return format_json_pretty(&value);
    }
    match utf8_text(part) {
        Some(text) => {
            proof {
                vstd::utf8::encode_utf8_decode_utf8(text@);
            }
            format_text(text)
        },
        None => format_bytes(part),
    }
}

/// Summarizes a message.
pub fn format_message(parts: &[Vec<u8>]) -> (s: String)
    ensures
        s@ == message_summary(frames_of(parts@)),
{
    let ghost frames = frames_of(parts@);
    if parts.len() == 0 {
        return String::from_str("[empty message]");
    }
    if parts.len() == 1 {
        assert(frames[0] == parts@[0]@);
        return format_part(parts[0].as_slice());
    }
    let mut out = String::from_str("[");
    let mut i: usize = 0;
    assert(frames.take(0) =~= Seq::<Seq<u8>>::empty());
    while i < parts.len()
        invariant
            i <= parts.len(),
            frames == frames_of(parts@),
            out@ == "["@ + joined_summaries(frames.take(i as int)),
        decreases parts.len() - i,
    {
        let ghost before = frames.take(i as int);
        let ghost after = frames.take(i + 1);
        assert(after.drop_last() =~= before);
        assert(after.last() == parts@[i as int]@);
        if i > 0 {
            out.append(" | ");
        }
        let rendered_part = format_part(parts[i].as_slice());
        out.append(rendered_part.as_str());
        assert(out@ =~= "["@ + joined_summaries(after));
        i += 1;
    }
    assert(frames.take(parts@.len() as int) =~= frames);
    out.append("]");
    out
}

} // verus!
