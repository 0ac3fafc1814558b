use vstd::prelude::*;
use crate::text::{
    text_eq, lowered_eq, ascii_lowered, ends_with, last_index_of, first_index_of, find_last,
    find_first, push_text,
};

verus! {

/// The extension of a file name: what follows its last dot, unless there is
/// no dot, the only dot leads the name, or the name is "..".
pub open spec fn extension_of(name: Seq<char>) -> Option<Seq<char>> {
    let i = last_index_of(name, '.');
    if name == ".."@ || i <= 0 {
        None
    } else {
        Some(name.subrange(i + 1, name.len() as int))
    }
}

/// The extension of a file name, as `extension_of` says.
pub fn file_extension(name: &str) -> (r: Option<String>)
    ensures
        r is Some <==> extension_of(name@) is Some,
        r is Some ==> r->0@ == extension_of(name@)->0,
{
    if text_eq(name, "..") {
        return None;
    }
    let n = name.unicode_len();
    match find_last(name, '.') {
        Some(i) => {
            if i == 0 {
                None
            } else {
                Some(String::from_str(name.substring_char(i + 1, n)))
            }
        },
        None => None,
    }
}

/// Whether the extension marks an audio file in a directory listing (exact
/// spelling).
pub open spec fn is_listed_audio_extension(e: Seq<char>) -> bool {
    e == "mp3"@ || e == "flac"@ || e == "wav"@ || e == "m4a"@ || e == "aac"@ || e == "ogg"@ || e
        == "aiff"@
}

/// Whether the extension marks an audio file in a directory listing.
pub fn is_listed_audio(ext: &str) -> (r: bool)
    ensures
        r == is_listed_audio_extension(ext@),
{
    text_eq(ext, "mp3") || text_eq(ext, "flac") || text_eq(ext, "wav") || text_eq(ext, "m4a")
        || text_eq(ext, "aac") || text_eq(ext, "ogg") || text_eq(ext, "aiff")
}

/// Whether the extension, in any case, marks an audio file that a library
/// scan collects. For these names, lowering ASCII capitals agrees with full
/// lowercasing.
pub open spec fn is_library_audio_extension(e: Seq<char>) -> bool {
    let l = ascii_lowered(e);
    l == "mp3"@ || l == "flac"@ || l == "m4a"@ || l == "wav"@ || l == "ogg"@
}

/// Whether the extension, in any case, marks an audio file that a library
/// scan collects.
pub fn is_library_audio(ext: &str) -> (r: bool)
    ensures
        r == is_library_audio_extension(ext@),
{
    lowered_eq(ext, "mp3") || lowered_eq(ext, "flac") || lowered_eq(ext, "m4a") || lowered_eq(ext, "wav")
        || lowered_eq(ext, "ogg")
}

/// Whether the extension, in any case, marks a file whose tags a batch
/// update rewrites.
pub open spec fn is_taggable_extension(e: Seq<char>) -> bool {
    let l = ascii_lowered(e);
    l == "mp3"@ || l == "flac"@ || l == "m4a"@
}

/// Whether the extension, in any case, marks a file whose tags a batch
/// update rewrites.
pub fn is_taggable(ext: &str) -> (r: bool)
    ensures
        r == is_taggable_extension(ext@),
{
    lowered_eq(ext, "mp3") || lowered_eq(ext, "flac") || lowered_eq(ext, "m4a")
}

/// The new name of a renamed entry that keeps its extension `ext`: the new
/// name as given when it already ends with ".ext", else with ".ext" added.
pub open spec fn name_keeping_extension(new_name: Seq<char>, ext: Seq<char>) -> Seq<char> {
    let suffix = seq!['.'] + ext;
    if ends_with(new_name, suffix) {
        new_name
    } else {
        new_name + suffix
    }
}

/// The name that a file or folder named `current` gets when renamed to
/// `new_name`: a file keeps its extension, a folder takes the new name as is.
/// A file without an extension cannot be renamed.
pub open spec fn renamed_entry(current: Seq<char>, is_file: bool, new_name: Seq<char>) -> Result<Seq<char>, Seq<char>> {
    if !is_file {
        Ok(new_name)
    } else {
        match extension_of(current) {
            Some(ext) => Ok(name_keeping_extension(new_name, ext)),
            None => Err("Could not get file extension"@),
        }
    }
}

/// The name that a file or folder named `current` gets when renamed to
/// `new_name`, as `renamed_entry` says.
pub fn renamed_entry_name(current: &str, is_file: bool, new_name: &str) -> (r: Result<String, String>)
    ensures
        r is Ok <==> renamed_entry(current@, is_file, new_name@) is Ok,
        r is Ok ==> r->Ok_0@ == renamed_entry(current@, is_file, new_name@)->Ok_0,
        r is Err ==> r->Err_0@ == renamed_entry(current@, is_file, new_name@)->Err_0,
{
    if !is_file {
        return Ok(String::from_str(new_name));
    }
    match file_extension(current) {
        None => Err(String::from_str("Could not get file extension")),
        Some(ext) => {
            let mut suffix = String::from_str(".");
            push_text(&mut suffix, ext.as_str());
            proof {
                reveal_strlit(".");
                assert(suffix@ =~= seq!['.'] + ext@);
            }
            let n = new_name.unicode_len();
            let m = suffix.as_str().unicode_len();
            if n >= m && text_eq(new_name.substring_char(n - m, n), suffix.as_str()) {
                Ok(String::from_str(new_name))
            } else {
                let mut out = String::from_str(new_name);
                push_text(&mut out, suffix.as_str());
                Ok(out)
            }
        },
    }
}

/// An audio container recognised by the first bytes of a file.
#[derive(Debug, Clone, Copy, PartialEq, Eq)]
pub enum AudioFormat {
    Mp4,
    Mp3,
    Flac,
    Ogg,
    Wav,
}

/// Whether `h` starts with the bytes `p`.
pub open spec fn has_prefix(h: Seq<u8>, p: Seq<u8>) -> bool {
    h.len() >= p.len() && h.subrange(0, p.len() as int) == p
}

/// The format that a file's first bytes announce, checked in this order: an
/// MP4 "ftyp" box of size 0x20 or 0x18, an ID3 tag or an MPEG frame sync, a
/// FLAC, Ogg or RIFF signature.
pub open spec fn format_of_header(h: Seq<u8>) -> Option<AudioFormat> {
    if has_prefix(h, seq![0u8, 0, 0, 0x20, 0x66, 0x74, 0x79, 0x70]) || has_prefix(
        h,
        seq![0u8, 0, 0, 0x18, 0x66, 0x74, 0x79, 0x70],
    ) {
        Some(AudioFormat::Mp4)
    } else if has_prefix(h, seq![0x49u8, 0x44, 0x33]) || has_prefix(h, seq![0xFFu8, 0xFB]) {
        Some(AudioFormat::Mp3)
    } else if has_prefix(h, seq![0x66u8, 0x4C, 0x61, 0x43]) {
        Some(AudioFormat::Flac)
    } else if has_prefix(h, seq![0x4Fu8, 0x67, 0x67, 0x53]) {
        Some(AudioFormat::Ogg)
    } else if has_prefix(h, seq![0x52u8, 0x49, 0x46, 0x46]) {
        Some(AudioFormat::Wav)
    } else {
        None
    }
}

fn starts_with_bytes(h: &[u8], p: &[u8]) -> (r: bool)
    ensures
        r == has_prefix(h@, p@),
{
    if h.len() < p.len() {
        return false;
    }
    let mut i: usize = 0;
    while i < p.len()
        invariant
            i <= p@.len() <= h@.len(),
            forall|j: int| 0 <= j < i ==> h@[j] == p@[j],
        decreases p@.len() - i,
    {
        if h[i] != p[i] {
            assert(h@.subrange(0, p@.len() as int)[i as int] != p@[i as int]);
            return false;
        }
        i += 1;
    }
    assert(h@.subrange(0, p@.len() as int) =~= p@);
    true
}

/// The format that a file's first bytes announce, as `format_of_header` says.
pub fn detect_format(header: &[u8]) -> (r: Option<AudioFormat>)
    ensures
        r == format_of_header(header@),
{
    let mp4a: [u8; 8] = [0, 0, 0, 0x20, 0x66, 0x74, 0x79, 0x70];
    let mp4b: [u8; 8] = [0, 0, 0, 0x18, 0x66, 0x74, 0x79, 0x70];
    let id3: [u8; 3] = [0x49, 0x44, 0x33];
    let sync: [u8; 2] = [0xFF, 0xFB];
    let flac: [u8; 4] = [0x66, 0x4C, 0x61, 0x43];
    let ogg: [u8; 4] = [0x4F, 0x67, 0x67, 0x53];
    let riff: [u8; 4] = [0x52, 0x49, 0x46, 0x46];
    assert(mp4a@ =~= seq![0u8, 0, 0, 0x20, 0x66, 0x74, 0x79, 0x70]);
    assert(mp4b@ =~= seq![0u8, 0, 0, 0x18, 0x66, 0x74, 0x79, 0x70]);
    assert(id3@ =~= seq![0x49u8, 0x44, 0x33]);
    assert(sync@ =~= seq![0xFFu8, 0xFB]);
    assert(flac@ =~= seq![0x66u8, 0x4C, 0x61, 0x43]);
    assert(ogg@ =~= seq![0x4Fu8, 0x67, 0x67, 0x53]);
    assert(riff@ =~= seq![0x52u8, 0x49, 0x46, 0x46]);
    if starts_with_bytes(header, &mp4a) || starts_with_bytes(header, &mp4b) {
        Some(AudioFormat::Mp4)
    } else if starts_with_bytes(header, &id3) || starts_with_bytes(header, &sync) {
        Some(AudioFormat::Mp3)
    } else if starts_with_bytes(header, &flac) {
        Some(AudioFormat::Flac)
    } else if starts_with_bytes(header, &ogg) {
        Some(AudioFormat::Ogg)
    } else if starts_with_bytes(header, &riff) {
        Some(AudioFormat::Wav)
    } else {
        None
    }
}

/// The file extension of a format.
pub open spec fn format_extension(f: AudioFormat) -> Seq<char> {
    match f {
        AudioFormat::Mp4 => "mp4"@,
        AudioFormat::Mp3 => "mp3"@,
        AudioFormat::Flac => "flac"@,
        AudioFormat::Ogg => "ogg"@,
        AudioFormat::Wav => "wav"@,
    }
}

/// The MIME type of a format.
pub open spec fn format_mime(f: AudioFormat) -> Seq<char> {
    match f {
        AudioFormat::Mp4 => "video/mp4"@,
        AudioFormat::Mp3 => "audio/mpeg"@,
        AudioFormat::Flac => "audio/flac"@,
        AudioFormat::Ogg => "audio/ogg"@,
        AudioFormat::Wav => "audio/wav"@,
    }
}

impl AudioFormat {
    /// The file extension of the format.
    pub fn extension(&self) -> (r: &'static str)
        ensures
            r@ == format_extension(*self),
    {
        match self {
            AudioFormat::Mp4 => "mp4",
            AudioFormat::Mp3 => "mp3",
            AudioFormat::Flac => "flac",
            AudioFormat::Ogg => "ogg",
            AudioFormat::Wav => "wav",
        }
    }

    /// The MIME type of the format.
    pub fn mime_type(&self) -> (r: &'static str)
        ensures
            r@ == format_mime(*self),
    {
        match self {
            AudioFormat::Mp4 => "video/mp4",
            AudioFormat::Mp3 => "audio/mpeg",
            AudioFormat::Flac => "audio/flac",
            AudioFormat::Ogg => "audio/ogg",
            AudioFormat::Wav => "audio/wav",
        }
    }
}

/// The name a file gets once its extension is restored to `ext`: the part of
/// the name before its first dot, or the whole name when it has no dot,
/// followed by ".ext".
pub open spec fn name_with_restored_extension(name: Seq<char>, ext: Seq<char>) -> Seq<char> {
    let i = first_index_of(name, '.');
    let base = if i < 0 {
        name
    } else {
        name.subrange(0, i)
    };
    base + seq!['.'] + ext
}

/// The name a file gets once its extension is restored to that of `format`.
pub fn restored_name(name: &str, format: AudioFormat) -> (r: String)
    ensures
        r@ == name_with_restored_extension(name@, format_extension(format)),
{
    let mut out = match find_first(name, '.') {
        Some(i) => String::from_str(name.substring_char(0, i)),
        None => String::from_str(name),
    };
    push_text(&mut out, ".");
    push_text(&mut out, format.extension());
    proof {
        reveal_strlit(".");
        assert(out@ =~= name_with_restored_extension(name@, format_extension(format)));
    }
    out
}

} // verus!
