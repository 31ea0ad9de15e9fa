//! The description of a processed file, drawn from what the probe reports.

use vstd::prelude::*;
use crate::decimal::{parsed_decimal, Decimal};
use crate::number::{parse_signed, parsed_signed};
use crate::strmap::{inserted, Pair, StringMap};
use crate::text::{chars_of, copy_of, same_text};

verus! {

/// A tag as the probe reports it: a name, and a value where the value is
/// text.
pub type ProbeTag = (String, Option<String>);

/// What the probe reports of the container.
#[derive(Debug)]
pub struct ProbeFormat {
    pub format_name: Option<String>,
    pub duration: Option<String>,
    pub bit_rate: Option<String>,
    pub size: Option<String>,
    pub tags: Vec<ProbeTag>,
}

/// What the probe reports of one stream.
#[derive(Debug)]
pub struct ProbeStream {
    pub codec_type: Option<String>,
    pub sample_rate: Option<String>,
    pub channels: Option<i64>,
    pub codec_name: Option<String>,
    pub tags: Vec<ProbeTag>,
}

/// What the probe reports of a file.
#[derive(Debug)]
pub struct ProbeReport {
    pub format: Option<ProbeFormat>,
    pub streams: Vec<ProbeStream>,
}

/// The description of a processed file.
#[derive(Debug)]
pub struct AudioMetadata {
    pub format: String,
    pub duration: Option<Decimal>,
    pub bit_rate: Option<i64>,
    pub sample_rate: Option<i64>,
    pub channels: Option<i64>,
    pub codec: Option<String>,
    pub size: Option<i64>,
    pub tags: StringMap,
}

/// Whether a stream carries audio.
pub open spec fn is_audio(stream: ProbeStream) -> bool {
    stream.codec_type matches Some(t) && t@ == "audio"@
}

/// The position of the first audio stream, or the number of streams where
/// there is none.
pub open spec fn first_audio(streams: Seq<ProbeStream>) -> int
    decreases streams.len(),
{
    if streams.len() == 0 {
        0
    } else if is_audio(streams[0]) {
        0
    } else {
        1 + first_audio(streams.drop_first())
    }
}

/// The tags after those of a report are set in turn; a tag whose value is
/// no text is passed over.
pub open spec fn with_tags(start: Seq<Pair>, tags: Seq<ProbeTag>) -> Seq<Pair>
    decreases tags.len(),
{
    if tags.len() == 0 {
        start
    } else {
        let rest = with_tags(start, tags.drop_last());
        match tags.last().1 {
            Some(v) => inserted(rest, tags.last().0@, v@),
            None => rest,
        }
    }
}

/// The 64-bit integer that a reported text denotes, if any.
pub open spec fn read_integer(o: Option<String>) -> Option<i64> {
    match o {
        Some(t) => match parsed_signed(t@, i64::MAX as nat) {
            Some(n) => Some(n as i64),
            None => None,
        },
        None => None,
    }
}

/// The decimal that a reported text denotes, if any.
pub open spec fn read_number(o: Option<String>) -> Option<Decimal> {
    match o {
        Some(t) => match parsed_decimal(t@) {
            Some((negative, micros)) => Some(Decimal::of(negative, micros)),
            None => None,
        },
        None => None,
    }
}

/// The tags of a stream, if there is one at position `at`.
pub open spec fn stream_tags(streams: Seq<ProbeStream>, at: int) -> Seq<ProbeTag> {
    if 0 <= at < streams.len() {
        streams[at].tags@
    } else {
        Seq::empty()
    }
}

/// Whether `m` describes what `format` and `streams` report: the
/// container's name, duration, bit rate and size, the sample rate,
/// channels and codec of the first audio stream, and the tags of the
/// container overlaid with those of that stream.
pub open spec fn describes(m: AudioMetadata, format: ProbeFormat, streams: Seq<ProbeStream>) -> bool {
    let at = first_audio(streams);
    &&& m.format@ == match format.format_name {
        Some(n) => n@,
        None => "unknown"@,
    }
    &&& m.duration == read_number(format.duration)
    &&& m.bit_rate == read_integer(format.bit_rate)
    &&& m.size == read_integer(format.size)
    &&& m.sample_rate == if at < streams.len() {
        read_integer(streams[at].sample_rate)
    } else {
        None
    }
    &&& m.channels == if at < streams.len() {
        streams[at].channels
    } else {
        None
    }
    &&& match m.codec {
        Some(c) => at < streams.len() && (streams[at].codec_name matches Some(n) && n@ == c@),
        None => at < streams.len() ==> streams[at].codec_name is None,
    }
    &&& m.tags@ == with_tags(with_tags(Seq::empty(), format.tags@), stream_tags(streams, at))
}

/// `first_audio` names the first stream that carries audio.
proof fn lemma_first_audio_is(streams: Seq<ProbeStream>, i: int)
    requires
        0 <= i <= streams.len(),
        i < streams.len() ==> is_audio(streams[i]),
        forall|j: int| 0 <= j < i ==> !is_audio(#[trigger] streams[j]),
    ensures
        first_audio(streams) == i,
    decreases streams.len(),
{
    if streams.len() != 0 && !is_audio(streams[0]) {
        assert forall|j: int| 0 <= j < i - 1 implies !is_audio(
            #[trigger] streams.drop_first()[j],
        ) by {
            assert(streams.drop_first()[j] == streams[j + 1]);
        }
        if i < streams.len() {
            assert(streams.drop_first()[i - 1] == streams[i]);
        }
        lemma_first_audio_is(streams.drop_first(), i - 1);
    }
}

/// The position of the first audio stream, or the number of streams.
fn find_audio(streams: &Vec<ProbeStream>) -> (r: usize)
    ensures
        r == first_audio(streams@),
        r <= streams@.len(),
{
    let mut i: usize = 0;
    while i < streams.len()
        invariant
            i <= streams.len(),
            forall|j: int| 0 <= j < i ==> !is_audio(#[trigger] streams@[j]),
        decreases streams.len() - i,
    {
        let audio = match &streams[i].codec_type {
            Some(t) => same_text(t.as_str(), "audio"),
            None => false,
        };
        if audio {
            proof {
                lemma_first_audio_is(streams@, i as int);
            }
            return i;
        }
        i += 1;
    }
    proof {
        lemma_first_audio_is(streams@, i as int);
    }
    i
}

/// Sets the tags of a report in turn.
fn add_tags(out: &mut StringMap, tags: &Vec<ProbeTag>)
    ensures
        final(out)@ == with_tags(old(out)@, tags@),
{
    let ghost start = out@;
    let mut i: usize = 0;
    while i < tags.len()
        invariant
            i <= tags.len(),
            out@ == with_tags(start, tags@.take(i as int)),
        decreases tags.len() - i,
    {
        proof {
            assert(tags@.take(i + 1).drop_last() == tags@.take(i as int));
            assert(tags@.take(i + 1).last() == tags@[i as int]);
        }
        match &tags[i].1 {
            Some(v) => {
                out.insert(copy_of(tags[i].0.as_str()), copy_of(v.as_str()));
            },
            None => {},
        }
        i += 1;
    }
    assert(tags@.take(tags.len() as int) == tags@);
}

/// The 64-bit integer that a reported text denotes, if any.
fn integer_of(o: &Option<String>) -> (r: Option<i64>)
    ensures
        r == read_integer(*o),
{
    match o {
        Some(t) => {
            let c = chars_of(t.as_str());
            parse_signed(&c, 0x7fff_ffff_ffff_ffff)
        },
        None => None,
    }
}

/// The decimal that a reported text denotes, if any.
fn number_of(o: &Option<String>) -> (r: Option<Decimal>)
    ensures
        r == read_number(*o),
{
    match o {
        Some(t) => Decimal::parse(t.as_str()),
        None => None,
    }
}

/// Describes a processed file from what the probe reports of it. A report
/// that says nothing of the container is refused.
pub fn extract_metadata(report: &ProbeReport) -> (r: Result<AudioMetadata, String>)
    ensures
        match report.format {
            Some(format) => r matches Ok(m) && describes(m, format, report.streams@),
            None => r matches Err(msg) && msg@ == "No format information found"@,
        },
{
    let format = match &report.format {
        Some(f) => f,
        None => {
            return Err(copy_of("No format information found"));
        },
    };
    let at = find_audio(&report.streams);
    let name = match &format.format_name {
        Some(n) => copy_of(n.as_str()),
        None => copy_of("unknown"),
    };
    let mut tags = StringMap::new();
    add_tags(&mut tags, &format.tags);
    let mut sample_rate: Option<i64> = None;
    let mut channels: Option<i64> = None;
    let mut codec: Option<String> = None;
    if at < report.streams.len() {
        let stream = &report.streams[at];
        sample_rate = integer_of(&stream.sample_rate);
        channels = stream.channels;
        codec = match &stream.codec_name {
            Some(n) => Some(copy_of(n.as_str())),
            None => None,
        };
        add_tags(&mut tags, &stream.tags);
    }
    Ok(
        AudioMetadata {
            format: name,
            duration: number_of(&format.duration),
            bit_rate: integer_of(&format.bit_rate),
            sample_rate,
            channels,
            codec,
            size: integer_of(&format.size),
            tags,
        },
    )
}

} // verus!
