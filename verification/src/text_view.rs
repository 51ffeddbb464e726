//! The Text tab of the metadata inspector: which bytes of a node it shows,
//! and how they are decoded for the encoding the user picked.
use vstd::prelude::*;

use crate::metadata::{bytes_for_range, page_slice, MetadataHexPage, PayloadRef, SourceRange};

verus! {

/// The characters `String::from_utf8_lossy` makes of `bytes`.
pub uninterp spec fn utf8_lossy_text(bytes: Seq<u8>) -> Seq<char>;

/// The legacy encodings the Text tab decodes with `encoding_rs`.
#[derive(Clone, Copy, Debug, PartialEq, Eq, Structural)]
pub enum LegacyEncoding {
    ShiftJis,
    Windows1252,
}

/// The characters `encoding_rs::Encoding::decode` makes of `bytes` in the
/// legacy encoding `encoding`.
pub uninterp spec fn legacy_decoded_text(encoding: LegacyEncoding, bytes: Seq<u8>) -> Seq<char>;

/// std `String::from_utf8_lossy`: decodes UTF-8, replacing each malformed
/// sequence with U+FFFD. Its result depends on the bytes alone; this
/// contract names it and states nothing more of it. Inputs so large that
/// the decoded text's buffer could overflow are left out.
#[verifier::external_body]
fn utf8_lossy(bytes: &[u8]) -> (text: String)
    requires
        bytes@.len() <= usize::MAX / 8,
    ensures
        text@ == utf8_lossy_text(bytes@),
{
    String::from_utf8_lossy(bytes).into_owned()
}

/// `encoding_rs::Encoding::decode` on `SHIFT_JIS` or `WINDOWS_1252`:
/// decodes the bytes in that encoding (or as UTF-8/UTF-16 when they start
/// with that encoding's byte order mark), replacing malformed sequences
/// with U+FFFD. Its result depends on the encoding and the bytes alone;
/// this contract names it and states nothing more of it. It panics when
/// the size of the decoded text's buffer overflows `usize`; inputs that
/// large are left out.
#[verifier::external_body]
fn decode_legacy(encoding: LegacyEncoding, bytes: &[u8]) -> (text: String)
    requires
        bytes@.len() <= usize::MAX / 8,
    ensures
        text@ == legacy_decoded_text(encoding, bytes@),
{
    let table = match encoding {
        LegacyEncoding::ShiftJis => encoding_rs::SHIFT_JIS,
        LegacyEncoding::Windows1252 => encoding_rs::WINDOWS_1252,
    };
    table.decode(bytes).0.into_owned()
}

/// The most bytes the Text tab decodes: one hex page.
pub const TEXT_PREVIEW_MAX_BYTES: u64 = 64 * 1024;

/// The range of a node's payload the Text tab decodes from the loaded hex
/// page: from the payload's start, as far as the payload, the page and the
/// 64 KiB limit go; none when the payload does not start in the page.
pub open spec fn text_range(page: MetadataHexPage, payload: PayloadRef) -> Option<SourceRange> {
    let page_end = if page.start + page.bytes@.len() > u64::MAX {
        u64::MAX as int
    } else {
        page.start + page.bytes@.len()
    };
    if payload.file_offset < page.start || payload.file_offset >= page_end {
        None
    } else {
        let in_page = page_end - payload.file_offset;
        let a = if payload.length < in_page { payload.length as int } else { in_page };
        let length = if a < TEXT_PREVIEW_MAX_BYTES { a } else { TEXT_PREVIEW_MAX_BYTES as int };
        Some(SourceRange { offset: payload.file_offset, length: length as u64 })
    }
}

/// The bytes the Text tab decodes for a node, from the loaded hex page.
pub open spec fn text_bytes(page: Option<MetadataHexPage>, payload: PayloadRef) -> Option<Seq<u8>> {
    match page {
        None => None,
        Some(p) => match text_range(p, payload) {
            None => None,
            Some(r) => page_slice(p, r),
        },
    }
}

/// The page behind a reference, if any.
pub open spec fn page_value(page: Option<&MetadataHexPage>) -> Option<MetadataHexPage> {
    match page {
        Some(p) => Some(*p),
        None => None,
    }
}

/// The characters of a summary, if any.
pub open spec fn summary_chars(summary: Option<&String>) -> Option<Seq<char>> {
    match summary {
        Some(s) => Some(s@),
        None => None,
    }
}

/// The bytes of a slice, if any.
pub open spec fn raw_bytes(raw: Option<&[u8]>) -> Option<Seq<u8>> {
    match raw {
        Some(b) => Some(b@),
        None => None,
    }
}

/// The bytes of a node the Text tab decodes.
pub fn metadata_text_bytes(page: Option<&MetadataHexPage>, payload: PayloadRef) -> (bytes: Option<Vec<u8>>)
    ensures
        match bytes {
            Some(b) => text_bytes(page_value(page), payload) == Some(b@),
            None => text_bytes(page_value(page), payload) is None,
        },
{
    let page = match page {
        Some(p) => p,
        None => return None,
    };
    let page_end = page.start.saturating_add(page.bytes.len() as u64);
    if payload.file_offset < page.start || payload.file_offset >= page_end {
        return None;
    }
    let in_page = page_end - payload.file_offset;
    let a = if payload.length < in_page { payload.length } else { in_page };
    let length = if a < TEXT_PREVIEW_MAX_BYTES { a } else { TEXT_PREVIEW_MAX_BYTES };
    bytes_for_range(page, SourceRange { offset: payload.file_offset, length })
}

/// The encodings the Text tab offers, by index: 0 shows the parser's
/// summary (or the bytes as UTF-8 when it has none), 1 UTF-8, 2 Shift_JIS,
/// 3 windows-1252; any other index decodes as UTF-8.
pub open spec fn text_content(encoding: usize, summary: Option<Seq<char>>, raw: Option<Seq<u8>>) -> Seq<char> {
    if encoding == 0 {
        match summary {
            Some(s) => s,
            None => match raw {
                Some(b) => utf8_lossy_text(b),
                None => Seq::empty(),
            },
        }
    } else {
        match raw {
            None => Seq::empty(),
            Some(b) => if encoding == 2 {
                legacy_decoded_text(LegacyEncoding::ShiftJis, b)
            } else if encoding == 3 {
                legacy_decoded_text(LegacyEncoding::Windows1252, b)
            } else {
                utf8_lossy_text(b)
            },
        }
    }
}

/// The text the Text tab shows for a node.
pub fn metadata_text_content(encoding: usize, summary: Option<&String>, raw: Option<&[u8]>) -> (text: String)
    requires
        raw matches Some(b) ==> b@.len() <= usize::MAX / 8,
    ensures
        text@ == text_content(
            encoding,
            summary_chars(summary),
            raw_bytes(raw),
        ),
{
    if encoding == 0 {
        return match summary {
            Some(s) => s.clone(),
            None => match raw {
                Some(b) => utf8_lossy(b),
                None => String::new(),
            },
        };
    }
    match raw {
        None => String::new(),
        Some(b) => {
            if encoding == 2 {
                decode_legacy(LegacyEncoding::ShiftJis, b)
            } else if encoding == 3 {
                decode_legacy(LegacyEncoding::Windows1252, b)
            } else {
                utf8_lossy(b)
            }
        },
    }
}


/// The caption of the Text tab's encoding selector for `encoding` (an
/// index past the last counts as the last).
pub open spec fn encoding_caption_text(encoding: usize) -> Seq<char> {
    if encoding == 0 {
        "Auto"@
    } else if encoding == 1 {
        "UTF-8"@
    } else if encoding == 2 {
        "Shift_JIS"@
    } else {
        "Windows-1252"@
    }
}

/// The caption of the Text tab's encoding selector.
pub fn encoding_caption(encoding: usize) -> (caption: &'static str)
    ensures
        caption@ == encoding_caption_text(encoding),
{
    if encoding == 0 {
        "Auto"
    } else if encoding == 1 {
        "UTF-8"
    } else if encoding == 2 {
        "Shift_JIS"
    } else {
        "Windows-1252"
    }
}

} // verus!
