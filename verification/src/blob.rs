//! Audio container formats and the typed byte buffer that carries audio data.

use vstd::prelude::*;
use vstd::slice::slice_to_vec;
use bytes::Bytes;
use crate::text::{
    ascii_lowered, chars_of, find_last, is_text, last_index_of, lemma_last_index_of, lowered,
    push_str, slice_of, string_of,
};

verus! {

/// The closed set of container formats the gateway recognises.
#[derive(Debug, Clone, Copy, PartialEq, Eq, Structural)]
pub enum AudioFormat {
    Mp3,
    Wav,
    Flac,
    Ogg,
    M4a,
    Opus,
    Unknown,
}

/// `data` begins with the bytes of `magic`.
pub open spec fn has_magic(data: Seq<u8>, magic: Seq<u8>) -> bool {
    magic.len() <= data.len() && data.subrange(0, magic.len() as int) == magic
}

/// The format that the first bytes of `data` announce.
pub open spec fn sniffed_format(data: Seq<u8>) -> AudioFormat {
    if has_magic(data, seq![0xFFu8, 0xFBu8]) {
        AudioFormat::Mp3
    } else if has_magic(data, seq![0x52u8, 0x49u8, 0x46u8, 0x46u8]) {
        AudioFormat::Wav
    } else if has_magic(data, seq![0x66u8, 0x4Cu8, 0x61u8, 0x43u8]) {
        AudioFormat::Flac
    } else if has_magic(data, seq![0x4Fu8, 0x67u8, 0x67u8, 0x53u8]) {
        AudioFormat::Ogg
    } else if has_magic(
        data,
        seq![0x66u8, 0x74u8, 0x79u8, 0x70u8, 0x4Du8, 0x34u8, 0x41u8, 0x20u8],
    ) {
        AudioFormat::M4a
    } else if has_magic(
        data,
        seq![0x4Fu8, 0x70u8, 0x75u8, 0x73u8, 0x48u8, 0x65u8, 0x61u8, 0x64u8],
    ) {
        AudioFormat::Opus
    } else {
        AudioFormat::Unknown
    }
}

/// The format whose file suffix is `ext`, letter case aside; `None` where no
/// format has that suffix. The empty suffix belongs to no format.
pub open spec fn format_of_suffix(ext: Seq<char>) -> Option<AudioFormat> {
    let l = ascii_lowered(ext);
    if l == "mp3"@ {
        Some(AudioFormat::Mp3)
    } else if l == "wav"@ {
        Some(AudioFormat::Wav)
    } else if l == "flac"@ {
        Some(AudioFormat::Flac)
    } else if l == "ogg"@ {
        Some(AudioFormat::Ogg)
    } else if l == "m4a"@ {
        Some(AudioFormat::M4a)
    } else if l == "opus"@ {
        Some(AudioFormat::Opus)
    } else {
        None
    }
}

/// What a format name denotes: one of the six suffixes, letter case aside, or
/// the empty name, which stands for `Unknown`.
pub open spec fn format_named(name: Seq<char>) -> Option<AudioFormat> {
    if name.len() == 0 {
        Some(AudioFormat::Unknown)
    } else {
        format_of_suffix(name)
    }
}

/// The part of `path` after its last `.`, where it has one.
pub open spec fn path_suffix(path: Seq<char>) -> Option<Seq<char>> {
    if last_index_of(path, '.') >= 0 {
        Some(path.skip(last_index_of(path, '.') + 1))
    } else {
        None
    }
}

/// The format of a file: what its first bytes announce; else the format
/// whose suffix is the text after the last `.` of the path, letter case
/// aside; else, and for a path without a `.`, `Unknown`.
pub open spec fn file_format(path: Seq<char>, data: Seq<u8>) -> AudioFormat {
    if sniffed_format(data) != AudioFormat::Unknown {
        sniffed_format(data)
    } else {
        match path_suffix(path) {
            Some(suffix) => match format_of_suffix(suffix) {
                Some(f) => f,
                None => AudioFormat::Unknown,
            },
            None => AudioFormat::Unknown,
        }
    }
}

/// Whether `data` begins with `magic`.
fn starts_with_bytes(data: &[u8], magic: &[u8]) -> (r: bool)
    ensures
        r == has_magic(data@, magic@),
{
    if magic.len() > data.len() {
        return false;
    }
    let mut i: usize = 0;
    while i < magic.len()
        invariant
            i <= magic.len() <= data.len(),
            data@.subrange(0, i as int) == magic@.subrange(0, i as int),
        decreases magic.len() - i,
    {
        if data[i] != magic[i] {
            assert(data@.subrange(0, magic.len() as int)[i as int] != magic@[i as int]);
            return false;
        }
        assert(data@.subrange(0, i + 1) == data@.subrange(0, i as int).push(data@[i as int]));
        assert(magic@.subrange(0, i + 1) == magic@.subrange(0, i as int).push(magic@[i as int]));
        i += 1;
    }
    assert(magic@.subrange(0, magic.len() as int) == magic@);
    true
}

impl AudioFormat {
    /// The lower-case file suffix of the format; empty for `Unknown`.
    pub open spec fn extension_text(self) -> Seq<char> {
        match self {
            AudioFormat::Mp3 => "mp3"@,
            AudioFormat::Wav => "wav"@,
            AudioFormat::Flac => "flac"@,
            AudioFormat::Ogg => "ogg"@,
            AudioFormat::M4a => "m4a"@,
            AudioFormat::Opus => "opus"@,
            AudioFormat::Unknown => ""@,
        }
    }

    /// The media type of the format.
    pub open spec fn mime_text(self) -> Seq<char> {
        match self {
            AudioFormat::Mp3 => "audio/mpeg"@,
            AudioFormat::Wav => "audio/wav"@,
            AudioFormat::Flac => "audio/flac"@,
            AudioFormat::Ogg => "audio/ogg"@,
            AudioFormat::M4a => "audio/mp4"@,
            AudioFormat::Opus => "audio/opus"@,
            AudioFormat::Unknown => "application/octet-stream"@,
        }
    }

    /// The format that the first bytes of `data` announce.
    pub fn from_header(data: &[u8]) -> (r: AudioFormat)
        ensures
            r == sniffed_format(data@),
    {
        let mp3: [u8; 2] = [0xFF, 0xFB];
        let riff: [u8; 4] = [0x52, 0x49, 0x46, 0x46];
        let flac: [u8; 4] = [0x66, 0x4C, 0x61, 0x43];
        let ogg: [u8; 4] = [0x4F, 0x67, 0x67, 0x53];
        let m4a: [u8; 8] = [0x66, 0x74, 0x79, 0x70, 0x4D, 0x34, 0x41, 0x20];
        let opus: [u8; 8] = [0x4F, 0x70, 0x75, 0x73, 0x48, 0x65, 0x61, 0x64];
        assert(mp3@ =~= seq![0xFFu8, 0xFBu8]);
        assert(riff@ =~= seq![0x52u8, 0x49u8, 0x46u8, 0x46u8]);
        assert(flac@ =~= seq![0x66u8, 0x4Cu8, 0x61u8, 0x43u8]);
        assert(ogg@ =~= seq![0x4Fu8, 0x67u8, 0x67u8, 0x53u8]);
        assert(m4a@ =~= seq![0x66u8, 0x74u8, 0x79u8, 0x70u8, 0x4Du8, 0x34u8, 0x41u8, 0x20u8]);
        assert(opus@ =~= seq![0x4Fu8, 0x70u8, 0x75u8, 0x73u8, 0x48u8, 0x65u8, 0x61u8, 0x64u8]);
        if starts_with_bytes(data, mp3.as_slice()) {
            AudioFormat::Mp3
        } else if starts_with_bytes(data, riff.as_slice()) {
            AudioFormat::Wav
        } else if starts_with_bytes(data, flac.as_slice()) {
            AudioFormat::Flac
        } else if starts_with_bytes(data, ogg.as_slice()) {
            AudioFormat::Ogg
        } else if starts_with_bytes(data, m4a.as_slice()) {
            AudioFormat::M4a
        } else if starts_with_bytes(data, opus.as_slice()) {
            AudioFormat::Opus
        } else {
            AudioFormat::Unknown
        }
    }

    /// The format whose suffix is `ext`, letter case aside.
    fn lookup_suffix(ext: &Vec<char>) -> (r: Option<AudioFormat>)
        ensures
            r == format_of_suffix(ext@),
    {
        let l = lowered(ext);
        if is_text(&l, "mp3") {
            Some(AudioFormat::Mp3)
        } else if is_text(&l, "wav") {
            Some(AudioFormat::Wav)
        } else if is_text(&l, "flac") {
            Some(AudioFormat::Flac)
        } else if is_text(&l, "ogg") {
            Some(AudioFormat::Ogg)
        } else if is_text(&l, "m4a") {
            Some(AudioFormat::M4a)
        } else if is_text(&l, "opus") {
            Some(AudioFormat::Opus)
        } else {
            None
        }
    }

    /// The format whose file suffix is `ext`, letter case aside; `Unknown`
    /// where no format has it.
    pub fn from_extension(ext: &str) -> (r: AudioFormat)
        ensures
            r == match format_of_suffix(ext@) {
                Some(f) => f,
                None => AudioFormat::Unknown,
            },
    {
        let e = chars_of(ext);
        match AudioFormat::lookup_suffix(&e) {
            Some(f) => f,
            None => AudioFormat::Unknown,
        }
    }

    /// The media type of the format.
    pub fn mime_type(&self) -> (r: &'static str)
        ensures
            r@ == self.mime_text(),
    {
        match self {
            AudioFormat::Mp3 => "audio/mpeg",
            AudioFormat::Wav => "audio/wav",
            AudioFormat::Flac => "audio/flac",
            AudioFormat::Ogg => "audio/ogg",
            AudioFormat::M4a => "audio/mp4",
            AudioFormat::Opus => "audio/opus",
            AudioFormat::Unknown => "application/octet-stream",
        }
    }

    /// The lower-case file suffix of the format; empty for `Unknown`.
    pub fn extension(&self) -> (r: &'static str)
        ensures
            r@ == self.extension_text(),
    {
        match self {
            AudioFormat::Mp3 => "mp3",
            AudioFormat::Wav => "wav",
            AudioFormat::Flac => "flac",
            AudioFormat::Ogg => "ogg",
            AudioFormat::M4a => "m4a",
            AudioFormat::Opus => "opus",
            AudioFormat::Unknown => "",
        }
    }

    /// The format as text: its file suffix.
    pub fn to_string(&self) -> (r: String)
        ensures
            r@ == self.extension_text(),
    {
        self.extension().to_owned()
    }

    /// Reads a format name, letter case aside. The empty name is `Unknown`;
    /// any other name that is no suffix of a format is refused, with a
    /// message that quotes it.
    pub fn from_str(s: &str) -> (r: Result<AudioFormat, String>)
        ensures
            match format_named(s@) {
                Some(f) => r == Ok::<AudioFormat, String>(f),
                None => r matches Err(msg) && msg@ == "Unknown audio format: "@ + s@,
            },
    {
        let name = chars_of(s);
        if name.len() == 0 {
            return Ok(AudioFormat::Unknown);
        }
        match AudioFormat::lookup_suffix(&name) {
            Some(f) => Ok(f),
            None => {
                let mut msg: Vec<char> = Vec::new();
                push_str(&mut msg, "Unknown audio format: ");
                push_str(&mut msg, s);
                assert(msg@ == "Unknown audio format: "@ + s@);
                Err(string_of(&msg))
            },
        }
    }
}

/// Every format is read back from its own text.
pub proof fn lemma_format_round_trip(f: AudioFormat)
    ensures
        format_named(f.extension_text()) == Some(f),
{
    reveal_strlit("mp3");
    reveal_strlit("wav");
    reveal_strlit("flac");
    reveal_strlit("ogg");
    reveal_strlit("m4a");
    reveal_strlit("opus");
    reveal_strlit("");
    let t = f.extension_text();
    assert(ascii_lowered(t) =~= t);
    assert("mp3"@[0] == 'm' && "wav"@[0] == 'w' && "flac"@[0] == 'f' && "ogg"@[0] == 'o');
    assert("m4a"@[1] == '4' && "opus"@.len() == 4 && "mp3"@[1] == 'p');
}

/// The bytes that a `Bytes` value holds, in order.
pub uninterp spec fn bytes_view(b: Bytes) -> Seq<u8>;

/// A cheaply cloneable and sliceable chunk of contiguous memory.
#[verifier::external_type_specification]
#[verifier::external_body]
pub struct ExBytes(bytes::Bytes);

/// Wraps a vector as `Bytes`.
///
/// Trusted: states of `Bytes::from(Vec<u8>)` that the result holds the
/// bytes of the vector, in order.
#[verifier::external_body]
fn bytes_from_vec(data: Vec<u8>) -> (r: Bytes)
    ensures
        bytes_view(r) == data@,
{
    Bytes::from(data)
}

/// Trusted: states of `Bytes::len` that it counts the bytes held.
#[verifier::external_body]
fn bytes_len(b: &Bytes) -> (r: usize)
    ensures
        r == bytes_view(*b).len(),
{
    b.len()
}

/// Trusted: states of `Bytes::as_ref` that the slice holds the same bytes.
#[verifier::external_body]
fn bytes_as_slice(b: &Bytes) -> (r: &[u8])
    ensures
        r@ == bytes_view(*b),
{
    b.as_ref()
}

/// Audio data together with the format it is taken to be in.
#[derive(Debug)]
pub struct AudioBuffer {
    data: Bytes,
    format: AudioFormat,
}

impl AudioBuffer {
    /// The bytes of the buffer.
    pub closed spec fn bytes(&self) -> Seq<u8> {
        bytes_view(self.data)
    }

    /// The format of the buffer.
    pub closed spec fn format_of(&self) -> AudioFormat {
        self.format
    }

    /// The buffer for a file with the given `path` and contents: the format
    /// is what the first bytes announce, else what the suffix of `path` says,
    /// else `Unknown`.
    pub fn from_file(path: &str, data: Vec<u8>) -> (r: AudioBuffer)
        ensures
            r.bytes() == data@,
            r.format_of() == file_format(path@, data@),
    {
        let sniffed = AudioFormat::from_header(data.as_slice());
        let format = match sniffed {
            AudioFormat::Unknown => {
                let p = chars_of(path);
                proof {
                    lemma_last_index_of(p@, '.');
                }
                match find_last(&p, '.') {
                    Some(i) => {
                        let ext = slice_of(&p, i + 1, p.len());
                        assert(Some(ext@) == path_suffix(path@));
                        match AudioFormat::lookup_suffix(&ext) {
                            Some(f) => f,
                            None => AudioFormat::Unknown,
                        }
                    },
                    None => AudioFormat::Unknown,
                }
            },
            other => other,
        };
        AudioBuffer { data: bytes_from_vec(data), format }
    }

    /// The buffer for raw bytes; the format is what the first bytes announce.
    pub fn from_bytes(data: Vec<u8>) -> (r: AudioBuffer)
        ensures
            r.bytes() == data@,
            r.format_of() == sniffed_format(data@),
    {
        let format = AudioFormat::from_header(data.as_slice());
        AudioBuffer { data: bytes_from_vec(data), format }
    }

    /// The buffer for raw bytes that are known to be in `format`.
    pub fn from_bytes_with_format(data: Vec<u8>, format: AudioFormat) -> (r: AudioBuffer)
        ensures
            r.bytes() == data@,
            r.format_of() == format,
    {
        AudioBuffer { data: bytes_from_vec(data), format }
    }

    /// The format of the buffer.
    pub fn format(&self) -> (r: AudioFormat)
        ensures
            r == self.format_of(),
    {
        self.format
    }

    /// The file suffix of the buffer's format.
    pub fn extension(&self) -> (r: &'static str)
        ensures
            r@ == self.format_of().extension_text(),
    {
        self.format.extension()
    }

    /// The media type of the buffer's format.
    pub fn mime_type(&self) -> (r: &'static str)
        ensures
            r@ == self.format_of().mime_text(),
    {
        self.format.mime_type()
    }

    /// The number of bytes held.
    pub fn len(&self) -> (r: usize)
        ensures
            r == self.bytes().len(),
    {
        bytes_len(&self.data)
    }

    /// Whether no byte is held.
    pub fn is_empty(&self) -> (r: bool)
        ensures
            r == (self.bytes().len() == 0),
    {
        bytes_len(&self.data) == 0
    }

    /// The bytes of the buffer, borrowed.
    pub fn as_slice(&self) -> (r: &[u8])
        ensures
            r@ == self.bytes(),
    {
        bytes_as_slice(&self.data)
    }

    /// A copy of the bytes of the buffer.
    pub fn to_vec(&self) -> (r: Vec<u8>)
        ensures
            r@ == self.bytes(),
    {
        slice_to_vec(bytes_as_slice(&self.data))
    }

    /// Gives up the buffer for its bytes.
    pub fn into_bytes(self) -> (r: Bytes)
        ensures
            bytes_view(r) == self.bytes(),
    {
        self.data
    }
}

} // verus!
