//! The list's Type column: a short badge per row saying what kind of file
//! (or item) it is.
use vstd::prelude::*;

use crate::state::{MediaItem, MediaSource, WavesPreviewer};
use crate::text::{ascii_case_eq, lower_ascii, push_char, str_eq, to_lower_ascii};

verus! {

/// A color as red, green and blue.
#[derive(Clone, Copy, Debug, PartialEq, Eq, Structural)]
pub struct Rgb {
    pub r: u8,
    pub g: u8,
    pub b: u8,
}

/// The color `(r, g, b)`.
pub open spec fn rgb(r: u8, g: u8, b: u8) -> Rgb {
    Rgb { r, g, b }
}

/// What the Type column draws for a row.
pub struct TypeBadge {
    pub label: String,
    pub tooltip: String,
    pub fill: Rgb,
    pub stroke: Rgb,
}

/// `c` in ASCII upper case.
pub open spec fn ascii_upper(c: char) -> char {
    if 'a' <= c <= 'z' {
        (((c as u8) - 32) as u8) as char
    } else {
        c
    }
}

/// The row's extension in ASCII lower case (empty when it has none).
pub open spec fn lower_extension(item: MediaItem) -> Seq<char> {
    match item.extension {
        Some(e) => e@.map_values(|c: char| lower_ascii(c)),
        None => Seq::empty(),
    }
}

/// The label, tooltip and colors of a row's badge, before a failed decode
/// is marked.
pub open spec fn badge_parts(item: MediaItem) -> (Seq<char>, Seq<char>, Rgb, Rgb) {
    match item.source {
        MediaSource::Virtual => ("VIR"@, "Virtual audio"@, rgb(112, 78, 32), rgb(224, 178, 110)),
        MediaSource::External => ("EXT"@, "External row"@, rgb(68, 78, 98), rgb(158, 176, 205)),
        MediaSource::File => {
            let ext = lower_extension(item);
            if ext == "wav"@ {
                ("WAV"@, "WAV file"@, rgb(48, 96, 168), rgb(120, 182, 255))
            } else if ext == "aiff"@ || ext == "aif"@ {
                ("AIFF"@, "AIFF file"@, rgb(88, 70, 150), rgb(176, 156, 244))
            } else if ext == "flac"@ {
                ("FLAC"@, "FLAC file"@, rgb(34, 116, 116), rgb(110, 214, 214))
            } else if ext == "mp3"@ {
                ("MP3"@, "MP3 file"@, rgb(146, 94, 34), rgb(236, 178, 92))
            } else if ext == "m4a"@ {
                ("M4A"@, "M4A file"@, rgb(40, 128, 92), rgb(118, 226, 174))
            } else if ext == "ogg"@ {
                ("OGG"@, "OGG file"@, rgb(88, 106, 128), rgb(172, 198, 228))
            } else if ext == "mp4"@ || ext == "m4v"@ {
                ("MP4"@, "MP4 video (audio track only)"@, rgb(112, 62, 148), rgb(206, 156, 246))
            } else if ext == "mov"@ {
                ("MOV"@, "QuickTime video (audio track only)"@, rgb(112, 62, 148), rgb(206, 156, 246))
            } else if ext == "3gp"@ || ext == "3g2"@ {
                ("3GP"@, "3GPP video (audio track only)"@, rgb(112, 62, 148), rgb(206, 156, 246))
            } else if ext.len() == 0 {
                ("FILE"@, "File"@, rgb(84, 88, 98), rgb(182, 188, 202))
            } else {
                let upper = ext.map_values(|c: char| ascii_upper(c));
                (
                    if upper.len() > 4 { upper.take(4) } else { upper },
                    seq!['.'] + ext + " file"@,
                    rgb(84, 88, 98),
                    rgb(182, 188, 202),
                )
            }
        },
    }
}

/// The badge of a row: its kind's label, tooltip and colors; the outline
/// turns red when the file failed to decode.
pub open spec fn type_badge(item: MediaItem) -> (Seq<char>, Seq<char>, Rgb, Rgb) {
    let (label, tooltip, fill, stroke) = badge_parts(item);
    (label, tooltip, fill, if item.decode_failed { rgb(220, 110, 110) } else { stroke })
}

fn upper_char(c: char) -> (u: char)
    ensures
        u == ascii_upper(c),
{
    if 'a' <= c && c <= 'z' {
        ((c as u8) - 32) as char
    } else {
        c
    }
}

fn badge(label: &str, tooltip: &str, fill: Rgb, stroke: Rgb) -> (b: TypeBadge)
    ensures
        b.label@ == label@,
        b.tooltip@ == tooltip@,
        b.fill == fill,
        b.stroke == stroke,
{
    TypeBadge { label: label.to_owned(), tooltip: tooltip.to_owned(), fill, stroke }
}

impl WavesPreviewer {
    /// The badge the Type column draws for a row.
    pub fn list_type_badge_for_item(item: &MediaItem) -> (badge_out: TypeBadge)
        ensures
            (badge_out.label@, badge_out.tooltip@, badge_out.fill, badge_out.stroke) == type_badge(*item),
    {
        let mut b = match item.source {
            MediaSource::Virtual => badge("VIR", "Virtual audio", Rgb { r: 112, g: 78, b: 32 }, Rgb { r: 224, g: 178, b: 110 }),
            MediaSource::External => badge("EXT", "External row", Rgb { r: 68, g: 78, b: 98 }, Rgb { r: 158, g: 176, b: 205 }),
            MediaSource::File => {
                let raw = match &item.extension {
                    Some(e) => crate::text::chars_of(e.as_str()),
                    None => Vec::new(),
                };
                let mut ext = String::new();
                let mut lower: Vec<char> = Vec::new();
                let mut i: usize = 0;
                while i < raw.len()
                    invariant
                        i <= raw@.len(),
                        lower@ == raw@.take(i as int).map_values(|c: char| lower_ascii(c)),
                        ext@ == lower@,
                    decreases raw@.len() - i,
                {
                    let l = to_lower_ascii(raw[i]);
                    lower.push(l);
                    push_char(&mut ext, l);
                    assert(raw@.take(i + 1).map_values(|c: char| lower_ascii(c)) =~= raw@.take(i as int).map_values(|c: char| lower_ascii(c)).push(l));
                    i = i + 1;
                }
                proof {
                    assert(raw@.take(raw@.len() as int) =~= raw@);
                    assert(ext@ == lower_extension(*item));
                }
                let e = ext.as_str();
                if str_eq(e, "wav") {
                    badge("WAV", "WAV file", Rgb { r: 48, g: 96, b: 168 }, Rgb { r: 120, g: 182, b: 255 })
                } else if str_eq(e, "aiff") || str_eq(e, "aif") {
                    badge("AIFF", "AIFF file", Rgb { r: 88, g: 70, b: 150 }, Rgb { r: 176, g: 156, b: 244 })
                } else if str_eq(e, "flac") {
                    badge("FLAC", "FLAC file", Rgb { r: 34, g: 116, b: 116 }, Rgb { r: 110, g: 214, b: 214 })
                } else if str_eq(e, "mp3") {
                    badge("MP3", "MP3 file", Rgb { r: 146, g: 94, b: 34 }, Rgb { r: 236, g: 178, b: 92 })
                } else if str_eq(e, "m4a") {
                    badge("M4A", "M4A file", Rgb { r: 40, g: 128, b: 92 }, Rgb { r: 118, g: 226, b: 174 })
                } else if str_eq(e, "ogg") {
                    badge("OGG", "OGG file", Rgb { r: 88, g: 106, b: 128 }, Rgb { r: 172, g: 198, b: 228 })
                } else if str_eq(e, "mp4") || str_eq(e, "m4v") {
                    badge("MP4", "MP4 video (audio track only)", Rgb { r: 112, g: 62, b: 148 }, Rgb { r: 206, g: 156, b: 246 })
                } else if str_eq(e, "mov") {
                    badge("MOV", "QuickTime video (audio track only)", Rgb { r: 112, g: 62, b: 148 }, Rgb { r: 206, g: 156, b: 246 })
                } else if str_eq(e, "3gp") || str_eq(e, "3g2") {
                    badge("3GP", "3GPP video (audio track only)", Rgb { r: 112, g: 62, b: 148 }, Rgb { r: 206, g: 156, b: 246 })
                } else if lower.len() == 0 {
                    badge("FILE", "File", Rgb { r: 84, g: 88, b: 98 }, Rgb { r: 182, g: 188, b: 202 })
                } else {
                    let mut label = String::new();
                    let take = if lower.len() > 4 { 4 } else { lower.len() };
                    let mut k: usize = 0;
                    while k < take
                        invariant
                            k <= take <= lower@.len(),
                            label@ == lower@.take(k as int).map_values(|c: char| ascii_upper(c)),
                        decreases take - k,
                    {
                        let u = upper_char(lower[k]);
                        push_char(&mut label, u);
                        assert(lower@.take(k + 1).map_values(|c: char| ascii_upper(c)) =~= lower@.take(k as int).map_values(|c: char| ascii_upper(c)).push(u));
                        k = k + 1;
                    }
                    let mut tooltip = String::new();
                    push_char(&mut tooltip, '.');
                    tooltip.append(e);
                    tooltip.append(" file");
                    proof {
                        let upper = lower@.map_values(|c: char| ascii_upper(c));
                        if lower@.len() > 4 {
                            assert(label@ =~= upper.take(4));
                        } else {
                            assert(label@ =~= upper);
                        }
                        assert(tooltip@ =~= seq!['.'] + lower@ + " file"@);
                    }
                    TypeBadge {
                        label,
                        tooltip,
                        fill: Rgb { r: 84, g: 88, b: 98 },
                        stroke: Rgb { r: 182, g: 188, b: 202 },
                    }
                }
            },
        };
        if item.decode_failed {
            b.stroke = Rgb { r: 220, g: 110, b: 110 };
        }
        b
    }
}

/// The row is a file whose extension is `name` in any letter case.
pub open spec fn file_with_extension(item: MediaItem, name: Seq<char>) -> bool {
    &&& item.source == MediaSource::File
    &&& item.extension matches Some(e) && ascii_case_eq(e@, name)
}

/// The row's badge has this label, tooltip and fill, and this outline
/// unless the file failed to decode (then the outline is red).
pub open spec fn badge_shows(item: MediaItem, label: Seq<char>, tooltip: Seq<char>, fill: Rgb, stroke: Rgb) -> bool {
    let (l, t, f, s) = type_badge(item);
    &&& l == label
    &&& t == tooltip
    &&& f == fill
    &&& s == if item.decode_failed { rgb(220, 110, 110) } else { stroke }
}

proof fn lemma_lowered_extension(item: MediaItem, name: Seq<char>)
    requires
        file_with_extension(item, name),
        forall|i: int| 0 <= i < name.len() ==> lower_ascii(#[trigger] name[i]) == name[i],
    ensures
        lower_extension(item) == name,
{
    let e = item.extension->0;
    let lowered = lower_extension(item);
    assert(lowered.len() == name.len());
    assert forall|i: int| 0 <= i < name.len() implies #[trigger] lowered[i] == name[i] by {
        assert(lower_ascii(e@[i]) == lower_ascii(name[i]));
    }
    assert(lowered =~= name);
}

/// A file with extension `wav`, in any letter case, is badged `WAV`.
pub proof fn lemma_wav_badge(item: MediaItem)
    requires
        file_with_extension(item, "wav"@),
    ensures
        badge_shows(item, "WAV"@, "WAV file"@, rgb(48, 96, 168), rgb(120, 182, 255)),
{
    reveal_strlit("wav");
    reveal_strlit("aiff");
    reveal_strlit("aif");
    reveal_strlit("flac");
    reveal_strlit("mp3");
    reveal_strlit("m4a");
    reveal_strlit("ogg");
    reveal_strlit("mp4");
    reveal_strlit("m4v");
    reveal_strlit("mov");
    reveal_strlit("3gp");
    reveal_strlit("3g2");
    if file_with_extension(item, "wav"@) {
        lemma_lowered_extension(item, "wav"@);
    }
}

/// A file with extension `aiff` or `aif`, in any letter case, is badged `AIFF`.
pub proof fn lemma_aiff_badge(item: MediaItem)
    requires
        file_with_extension(item, "aiff"@) || file_with_extension(item, "aif"@),
    ensures
        badge_shows(item, "AIFF"@, "AIFF file"@, rgb(88, 70, 150), rgb(176, 156, 244)),
{
    reveal_strlit("wav");
    reveal_strlit("aiff");
    reveal_strlit("aif");
    reveal_strlit("flac");
    reveal_strlit("mp3");
    reveal_strlit("m4a");
    reveal_strlit("ogg");
    reveal_strlit("mp4");
    reveal_strlit("m4v");
    reveal_strlit("mov");
    reveal_strlit("3gp");
    reveal_strlit("3g2");
    if file_with_extension(item, "aiff"@) {
        lemma_lowered_extension(item, "aiff"@);
    }
    if file_with_extension(item, "aif"@) {
        lemma_lowered_extension(item, "aif"@);
        assert("aif"@[0] != "wav"@[0]);
    }
}

/// A file with extension `flac`, in any letter case, is badged `FLAC`.
pub proof fn lemma_flac_badge(item: MediaItem)
    requires
        file_with_extension(item, "flac"@),
    ensures
        badge_shows(item, "FLAC"@, "FLAC file"@, rgb(34, 116, 116), rgb(110, 214, 214)),
{
    reveal_strlit("wav");
    reveal_strlit("aiff");
    reveal_strlit("aif");
    reveal_strlit("flac");
    reveal_strlit("mp3");
    reveal_strlit("m4a");
    reveal_strlit("ogg");
    reveal_strlit("mp4");
    reveal_strlit("m4v");
    reveal_strlit("mov");
    reveal_strlit("3gp");
    reveal_strlit("3g2");
    if file_with_extension(item, "flac"@) {
        lemma_lowered_extension(item, "flac"@);
        assert("flac"@[0] != "aiff"@[0]);
    }
}

/// A file with extension `mp3`, in any letter case, is badged `MP3`.
pub proof fn lemma_mp3_badge(item: MediaItem)
    requires
        file_with_extension(item, "mp3"@),
    ensures
        badge_shows(item, "MP3"@, "MP3 file"@, rgb(146, 94, 34), rgb(236, 178, 92)),
{
    reveal_strlit("wav");
    reveal_strlit("aiff");
    reveal_strlit("aif");
    reveal_strlit("flac");
    reveal_strlit("mp3");
    reveal_strlit("m4a");
    reveal_strlit("ogg");
    reveal_strlit("mp4");
    reveal_strlit("m4v");
    reveal_strlit("mov");
    reveal_strlit("3gp");
    reveal_strlit("3g2");
    if file_with_extension(item, "mp3"@) {
        lemma_lowered_extension(item, "mp3"@);
        assert("mp3"@[0] != "wav"@[0]);
        assert("mp3"@[0] != "aif"@[0]);
    }
}

/// A file with extension `m4a`, in any letter case, is badged `M4A`.
pub proof fn lemma_m4a_badge(item: MediaItem)
    requires
        file_with_extension(item, "m4a"@),
    ensures
        badge_shows(item, "M4A"@, "M4A file"@, rgb(40, 128, 92), rgb(118, 226, 174)),
{
    reveal_strlit("wav");
    reveal_strlit("aiff");
    reveal_strlit("aif");
    reveal_strlit("flac");
    reveal_strlit("mp3");
    reveal_strlit("m4a");
    reveal_strlit("ogg");
    reveal_strlit("mp4");
    reveal_strlit("m4v");
    reveal_strlit("mov");
    reveal_strlit("3gp");
    reveal_strlit("3g2");
    if file_with_extension(item, "m4a"@) {
        lemma_lowered_extension(item, "m4a"@);
        assert("m4a"@[0] != "wav"@[0]);
        assert("m4a"@[0] != "aif"@[0]);
        assert("m4a"@[1] != "mp3"@[1]);
    }
}

/// A file with extension `ogg`, in any letter case, is badged `OGG`.
pub proof fn lemma_ogg_badge(item: MediaItem)
    requires
        file_with_extension(item, "ogg"@),
    ensures
        badge_shows(item, "OGG"@, "OGG file"@, rgb(88, 106, 128), rgb(172, 198, 228)),
{
    reveal_strlit("wav");
    reveal_strlit("aiff");
    reveal_strlit("aif");
    reveal_strlit("flac");
    reveal_strlit("mp3");
    reveal_strlit("m4a");
    reveal_strlit("ogg");
    reveal_strlit("mp4");
    reveal_strlit("m4v");
    reveal_strlit("mov");
    reveal_strlit("3gp");
    reveal_strlit("3g2");
    if file_with_extension(item, "ogg"@) {
        lemma_lowered_extension(item, "ogg"@);
        assert("ogg"@[0] != "wav"@[0]);
        assert("ogg"@[0] != "aif"@[0]);
        assert("ogg"@[0] != "mp3"@[0]);
        assert("ogg"@[0] != "m4a"@[0]);
    }
}

/// A file with extension `mp4` or `m4v`, in any letter case, is badged `MP4`.
pub proof fn lemma_mp4_badge(item: MediaItem)
    requires
        file_with_extension(item, "mp4"@) || file_with_extension(item, "m4v"@),
    ensures
        badge_shows(item, "MP4"@, "MP4 video (audio track only)"@, rgb(112, 62, 148), rgb(206, 156, 246)),
{
    reveal_strlit("wav");
    reveal_strlit("aiff");
    reveal_strlit("aif");
    reveal_strlit("flac");
    reveal_strlit("mp3");
    reveal_strlit("m4a");
    reveal_strlit("ogg");
    reveal_strlit("mp4");
    reveal_strlit("m4v");
    reveal_strlit("mov");
    reveal_strlit("3gp");
    reveal_strlit("3g2");
    if file_with_extension(item, "mp4"@) {
        lemma_lowered_extension(item, "mp4"@);
        assert("mp4"@[0] != "wav"@[0]);
        assert("mp4"@[0] != "aif"@[0]);
        assert("mp4"@[2] != "mp3"@[2]);
        assert("mp4"@[1] != "m4a"@[1]);
        assert("mp4"@[0] != "ogg"@[0]);
    }
    if file_with_extension(item, "m4v"@) {
        lemma_lowered_extension(item, "m4v"@);
        assert("m4v"@[0] != "wav"@[0]);
        assert("m4v"@[0] != "aif"@[0]);
        assert("m4v"@[1] != "mp3"@[1]);
        assert("m4v"@[2] != "m4a"@[2]);
        assert("m4v"@[0] != "ogg"@[0]);
        assert("m4v"@[1] != "mp4"@[1]);
    }
}

/// A file with extension `mov`, in any letter case, is badged `MOV`.
pub proof fn lemma_mov_badge(item: MediaItem)
    requires
        file_with_extension(item, "mov"@),
    ensures
        badge_shows(item, "MOV"@, "QuickTime video (audio track only)"@, rgb(112, 62, 148), rgb(206, 156, 246)),
{
    reveal_strlit("wav");
    reveal_strlit("aiff");
    reveal_strlit("aif");
    reveal_strlit("flac");
    reveal_strlit("mp3");
    reveal_strlit("m4a");
    reveal_strlit("ogg");
    reveal_strlit("mp4");
    reveal_strlit("m4v");
    reveal_strlit("mov");
    reveal_strlit("3gp");
    reveal_strlit("3g2");
    if file_with_extension(item, "mov"@) {
        lemma_lowered_extension(item, "mov"@);
        assert("mov"@[0] != "wav"@[0]);
        assert("mov"@[0] != "aif"@[0]);
        assert("mov"@[1] != "mp3"@[1]);
        assert("mov"@[1] != "m4a"@[1]);
        assert("mov"@[0] != "ogg"@[0]);
        assert("mov"@[1] != "mp4"@[1]);
        assert("mov"@[1] != "m4v"@[1]);
    }
}

/// A file with extension `3gp` or `3g2`, in any letter case, is badged `3GP`.
pub proof fn lemma_3gp_badge(item: MediaItem)
    requires
        file_with_extension(item, "3gp"@) || file_with_extension(item, "3g2"@),
    ensures
        badge_shows(item, "3GP"@, "3GPP video (audio track only)"@, rgb(112, 62, 148), rgb(206, 156, 246)),
{
    reveal_strlit("wav");
    reveal_strlit("aiff");
    reveal_strlit("aif");
    reveal_strlit("flac");
    reveal_strlit("mp3");
    reveal_strlit("m4a");
    reveal_strlit("ogg");
    reveal_strlit("mp4");
    reveal_strlit("m4v");
    reveal_strlit("mov");
    reveal_strlit("3gp");
    reveal_strlit("3g2");
    if file_with_extension(item, "3gp"@) {
        lemma_lowered_extension(item, "3gp"@);
        assert("3gp"@[0] != "wav"@[0]);
        assert("3gp"@[0] != "aif"@[0]);
        assert("3gp"@[0] != "mp3"@[0]);
        assert("3gp"@[0] != "m4a"@[0]);
        assert("3gp"@[0] != "ogg"@[0]);
        assert("3gp"@[0] != "mp4"@[0]);
        assert("3gp"@[0] != "m4v"@[0]);
        assert("3gp"@[0] != "mov"@[0]);
    }
    if file_with_extension(item, "3g2"@) {
        lemma_lowered_extension(item, "3g2"@);
        assert("3g2"@[0] != "wav"@[0]);
        assert("3g2"@[0] != "aif"@[0]);
        assert("3g2"@[0] != "mp3"@[0]);
        assert("3g2"@[0] != "m4a"@[0]);
        assert("3g2"@[0] != "ogg"@[0]);
        assert("3g2"@[0] != "mp4"@[0]);
        assert("3g2"@[0] != "m4v"@[0]);
        assert("3g2"@[0] != "mov"@[0]);
        assert("3g2"@[2] != "3gp"@[2]);
    }
}

/// Badges do not depend on the letter case of the extension: rows of the
/// same kind whose extensions differ only in ASCII case get the same badge.
pub proof fn lemma_badge_ignores_extension_case(a: MediaItem, b: MediaItem)
    requires
        a.source == b.source,
        a.decode_failed == b.decode_failed,
        match (a.extension, b.extension) {
            (Some(x), Some(y)) => ascii_case_eq(x@, y@),
            (None, None) => true,
            _ => false,
        },
    ensures
        type_badge(a) == type_badge(b),
{
    if a.extension is Some {
        let x = a.extension->0;
        let y = b.extension->0;
        let la = lower_extension(a);
        let lb = lower_extension(b);
        assert forall|i: int| 0 <= i < x@.len() implies #[trigger] la[i] == lb[i] by {
            assert(lower_ascii(x@[i]) == lower_ascii(y@[i]));
        }
        assert(la =~= lb);
    } else {
        assert(lower_extension(a) =~= lower_extension(b));
    }
}

/// A failed decode only turns the outline red: the label, tooltip and fill
/// are those of the same row decoded fine.
pub proof fn lemma_decode_failure_marks_outline(ok: MediaItem, failed: MediaItem)
    requires
        failed == (MediaItem { decode_failed: true, ..ok }),
        !ok.decode_failed,
    ensures
        type_badge(failed).0 == type_badge(ok).0,
        type_badge(failed).1 == type_badge(ok).1,
        type_badge(failed).2 == type_badge(ok).2,
        type_badge(failed).3 == rgb(220, 110, 110),
        type_badge(ok).3 != rgb(220, 110, 110),
{
}

/// Virtual and external rows are badged by their kind, whatever their
/// extension.
pub proof fn lemma_non_file_badges(item: MediaItem)
    requires
        item.source != MediaSource::File,
    ensures
        item.source == MediaSource::Virtual ==> badge_shows(item, "VIR"@, "Virtual audio"@, rgb(112, 78, 32), rgb(224, 178, 110)),
        item.source == MediaSource::External ==> badge_shows(item, "EXT"@, "External row"@, rgb(68, 78, 98), rgb(158, 176, 205)),
{
}

/// A file without an extension is badged `FILE`.
pub proof fn lemma_no_extension_badge(item: MediaItem)
    requires
        item.source == MediaSource::File,
        match item.extension {
            None => true,
            Some(e) => e@.len() == 0,
        },
    ensures
        badge_shows(item, "FILE"@, "File"@, rgb(84, 88, 98), rgb(182, 188, 202)),
{
    reveal_strlit("wav");
    reveal_strlit("aiff");
    reveal_strlit("aif");
    reveal_strlit("flac");
    reveal_strlit("mp3");
    reveal_strlit("m4a");
    reveal_strlit("ogg");
    reveal_strlit("mp4");
    reveal_strlit("m4v");
    reveal_strlit("mov");
    reveal_strlit("3gp");
    reveal_strlit("3g2");
    assert(lower_extension(item).len() == 0);
}

/// A file with any other extension is badged with its first four letters
/// in upper case, and its tooltip is the extension in lower case after a
/// dot, then ` file`.
pub proof fn lemma_other_extension_badge(item: MediaItem)
    requires
        item.source == MediaSource::File,
        item.extension matches Some(e) && e@.len() > 0 && !ascii_case_eq(e@, "wav"@) && !ascii_case_eq(e@, "aiff"@) && !ascii_case_eq(e@, "aif"@) && !ascii_case_eq(e@, "flac"@) && !ascii_case_eq(e@, "mp3"@) && !ascii_case_eq(e@, "m4a"@) && !ascii_case_eq(e@, "ogg"@) && !ascii_case_eq(e@, "mp4"@) && !ascii_case_eq(e@, "m4v"@) && !ascii_case_eq(e@, "mov"@) && !ascii_case_eq(e@, "3gp"@) && !ascii_case_eq(e@, "3g2"@),
    ensures
        ({
            let e = item.extension->0;
            let lowered = e@.map_values(|c: char| lower_ascii(c));
            let upper = lowered.map_values(|c: char| ascii_upper(c));
            badge_shows(
                item,
                if e@.len() > 4 { upper.take(4) } else { upper },
                seq!['.'] + lowered + " file"@,
                rgb(84, 88, 98),
                rgb(182, 188, 202),
            )
        }),
{
    reveal_strlit("wav");
    reveal_strlit("aiff");
    reveal_strlit("aif");
    reveal_strlit("flac");
    reveal_strlit("mp3");
    reveal_strlit("m4a");
    reveal_strlit("ogg");
    reveal_strlit("mp4");
    reveal_strlit("m4v");
    reveal_strlit("mov");
    reveal_strlit("3gp");
    reveal_strlit("3g2");
    let e = item.extension->0;
    let lowered = lower_extension(item);
    if lowered == "wav"@ {
        assert forall|i: int| 0 <= i < e@.len() implies lower_ascii(#[trigger] e@[i]) == lower_ascii("wav"@[i]) by {
            assert(lowered[i] == lower_ascii(e@[i]));
            assert(lower_ascii("wav"@[i]) == "wav"@[i]);
        }
        assert(false);
    }
    if lowered == "aiff"@ {
        assert forall|i: int| 0 <= i < e@.len() implies lower_ascii(#[trigger] e@[i]) == lower_ascii("aiff"@[i]) by {
            assert(lowered[i] == lower_ascii(e@[i]));
            assert(lower_ascii("aiff"@[i]) == "aiff"@[i]);
        }
        assert(false);
    }
    if lowered == "aif"@ {
        assert forall|i: int| 0 <= i < e@.len() implies lower_ascii(#[trigger] e@[i]) == lower_ascii("aif"@[i]) by {
            assert(lowered[i] == lower_ascii(e@[i]));
            assert(lower_ascii("aif"@[i]) == "aif"@[i]);
        }
        assert(false);
    }
    if lowered == "flac"@ {
        assert forall|i: int| 0 <= i < e@.len() implies lower_ascii(#[trigger] e@[i]) == lower_ascii("flac"@[i]) by {
            assert(lowered[i] == lower_ascii(e@[i]));
            assert(lower_ascii("flac"@[i]) == "flac"@[i]);
        }
        assert(false);
    }
    if lowered == "mp3"@ {
        assert forall|i: int| 0 <= i < e@.len() implies lower_ascii(#[trigger] e@[i]) == lower_ascii("mp3"@[i]) by {
            assert(lowered[i] == lower_ascii(e@[i]));
            assert(lower_ascii("mp3"@[i]) == "mp3"@[i]);
        }
        assert(false);
    }
    if lowered == "m4a"@ {
        assert forall|i: int| 0 <= i < e@.len() implies lower_ascii(#[trigger] e@[i]) == lower_ascii("m4a"@[i]) by {
            assert(lowered[i] == lower_ascii(e@[i]));
            assert(lower_ascii("m4a"@[i]) == "m4a"@[i]);
        }
        assert(false);
    }
    if lowered == "ogg"@ {
        assert forall|i: int| 0 <= i < e@.len() implies lower_ascii(#[trigger] e@[i]) == lower_ascii("ogg"@[i]) by {
            assert(lowered[i] == lower_ascii(e@[i]));
            assert(lower_ascii("ogg"@[i]) == "ogg"@[i]);
        }
        assert(false);
    }
    if lowered == "mp4"@ {
        assert forall|i: int| 0 <= i < e@.len() implies lower_ascii(#[trigger] e@[i]) == lower_ascii("mp4"@[i]) by {
            assert(lowered[i] == lower_ascii(e@[i]));
            assert(lower_ascii("mp4"@[i]) == "mp4"@[i]);
        }
        assert(false);
    }
    if lowered == "m4v"@ {
        assert forall|i: int| 0 <= i < e@.len() implies lower_ascii(#[trigger] e@[i]) == lower_ascii("m4v"@[i]) by {
            assert(lowered[i] == lower_ascii(e@[i]));
            assert(lower_ascii("m4v"@[i]) == "m4v"@[i]);
        }
        assert(false);
    }
    if lowered == "mov"@ {
        assert forall|i: int| 0 <= i < e@.len() implies lower_ascii(#[trigger] e@[i]) == lower_ascii("mov"@[i]) by {
            assert(lowered[i] == lower_ascii(e@[i]));
            assert(lower_ascii("mov"@[i]) == "mov"@[i]);
        }
        assert(false);
    }
    if lowered == "3gp"@ {
        assert forall|i: int| 0 <= i < e@.len() implies lower_ascii(#[trigger] e@[i]) == lower_ascii("3gp"@[i]) by {
            assert(lowered[i] == lower_ascii(e@[i]));
            assert(lower_ascii("3gp"@[i]) == "3gp"@[i]);
        }
        assert(false);
    }
    if lowered == "3g2"@ {
        assert forall|i: int| 0 <= i < e@.len() implies lower_ascii(#[trigger] e@[i]) == lower_ascii("3g2"@[i]) by {
            assert(lowered[i] == lower_ascii(e@[i]));
            assert(lower_ascii("3g2"@[i]) == "3g2"@[i]);
        }
        assert(false);
    }
}

} // verus!
