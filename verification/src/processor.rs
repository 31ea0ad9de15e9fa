//! The transcoder job of a request: its working files, its argument
//! vector, and what its outcome means.

use vstd::prelude::*;
use crate::blob::{AudioBuffer, AudioFormat};
use crate::config::ProcessorSettings;
use crate::decimal::Decimal;
use crate::params::{arguments_of, strings_view, Params, ParamsView};
use crate::strmap::{inserted_all, Pair, StringMap};
use crate::text::{copy_of, push_str, string_of};

verus! {

/// The bounded-concurrency processor: how many transcoder runs may be in
/// flight at once, and the tags that every result carries.
#[derive(Debug)]
pub struct Processor {
    pub max_concurrent: usize,
    pub additional_tags: StringMap,
}

/// One run of the transcoder.
#[derive(Debug)]
pub struct Transcode {
    /// The file the input is written to.
    pub input_path: String,
    /// The file the transcoder writes.
    pub output_path: String,
    /// The arguments of the transcoder.
    pub arguments: Vec<String>,
    /// The format of what the transcoder writes.
    pub output_format: AudioFormat,
}

/// The number of CPUs of this machine.
///
/// Trusted: nothing is claimed of what `num_cpus::get` gives.
#[verifier::external_body]
fn cpu_count() -> (r: usize) {
    num_cpus::get()
}

/// How many runs may be in flight: the configured number, or the number
/// of CPUs where none is configured. Zero is no limit to run under.
pub open spec fn concurrency_limit(configured: Option<usize>, cpus: usize) -> Option<usize> {
    let n = match configured {
        Some(c) => c,
        None => cpus,
    };
    if n == 0 {
        None
    } else {
        Some(n)
    }
}

/// The format that the transcoder writes: the requested one, or MP3 where
/// none is requested or the requested one is unknown.
pub open spec fn target_format(requested: Option<AudioFormat>) -> AudioFormat {
    match requested {
        Some(AudioFormat::Unknown) => AudioFormat::Mp3,
        Some(f) => f,
        None => AudioFormat::Mp3,
    }
}

/// A file of the working directory: `dir/stem.suffix`.
pub open spec fn work_file(dir: Seq<char>, stem: Seq<char>, suffix: Seq<char>) -> Seq<char> {
    dir + "/"@ + stem + "."@ + suffix
}

/// The tags of a result: those of the process, with each tag of the
/// request set in turn, so that the request wins where both name a tag.
pub open spec fn result_tags(additional: Seq<Pair>, request: Option<Seq<Pair>>) -> Seq<Pair> {
    match request {
        Some(t) => inserted_all(additional, t),
        None => additional,
    }
}

/// The metadata arguments: `-metadata` and `name=value` for each tag.
pub open spec fn metadata_arguments(tags: Seq<Pair>) -> Seq<Seq<char>>
    decreases tags.len(),
{
    if tags.len() == 0 {
        Seq::empty()
    } else {
        metadata_arguments(tags.drop_last()).push("-metadata"@).push(
            tags.last().0 + "="@ + tags.last().1,
        )
    }
}

/// The argument vector of a run: the input, `-y`, the metadata, the
/// arguments of the record, and the output.
pub open spec fn transcode_arguments(
    input_path: Seq<char>,
    output_path: Seq<char>,
    tags: Seq<Pair>,
    p: ParamsView,
    fallback: Decimal,
) -> Seq<Seq<char>> {
    seq!["-i"@, input_path, "-y"@] + metadata_arguments(tags) + arguments_of(p, fallback)
        + seq![output_path]
}

/// The arguments that make the probe describe a file as JSON.
pub open spec fn probe_arguments_of(path: Seq<char>) -> Seq<Seq<char>> {
    seq![
        "-v"@,
        "quiet"@,
        "-print_format"@,
        "json"@,
        "-show_format"@,
        "-show_streams"@,
        path,
    ]
}

/// The tags of a result.
pub fn merge_tags(additional: &StringMap, request: &Option<StringMap>) -> (r: StringMap)
    ensures
        r@ == result_tags(
            additional@,
            match *request {
                Some(t) => Some(t@),
                None => None,
            },
        ),
{
    let mut out = additional.clone();
    match request {
        Some(t) => {
            let ghost all = t@;
            let n = t.len();
            let mut i: usize = 0;
            while i < n
                invariant
                    i <= n,
                    n == all.len(),
                    all == t@,
                    out@ == inserted_all(additional@, all.take(i as int)),
                decreases n - i,
            {
                proof {
                    assert(all.take(i + 1).drop_last() == all.take(i as int));
                    assert(all.take(i + 1).last() == all[i as int]);
                }
                out.insert(copy_of(t.key_at(i).as_str()), copy_of(t.value_at(i).as_str()));
                i += 1;
            }
            assert(all.take(n as int) == all);
        },
        None => {},
    }
    out
}

/// Appends the metadata arguments of `tags`.
fn push_metadata(out: &mut Vec<String>, tags: &StringMap)
    ensures
        strings_view(final(out)@) == strings_view(old(out)@) + metadata_arguments(tags@),
{
    let ghost before = strings_view(out@);
    let ghost all = tags@;
    let n = tags.len();
    let mut i: usize = 0;
    assert(strings_view(out@) =~= before + metadata_arguments(all.take(0)));
    while i < n
        invariant
            i <= n,
            n == all.len(),
            all == tags@,
            strings_view(out@) == before + metadata_arguments(all.take(i as int)),
        decreases n - i,
    {
        proof {
            assert(all.take(i + 1).drop_last() == all.take(i as int));
            assert(all.take(i + 1).last() == all[i as int]);
        }
        let ghost sofar = strings_view(out@);
        let mut pair: Vec<char> = Vec::new();
        push_str(&mut pair, tags.key_at(i).as_str());
        push_str(&mut pair, "=");
        push_str(&mut pair, tags.value_at(i).as_str());
        out.push(copy_of("-metadata"));
        out.push(string_of(&pair));
        assert(strings_view(out@) =~= sofar.push("-metadata"@).push(pair@));
        assert(strings_view(out@) =~= before + metadata_arguments(all.take(i + 1)));
        i += 1;
    }
    assert(all.take(n as int) == all);
}

/// Appends copies of the strings of `more`.
fn push_copies(out: &mut Vec<String>, more: &Vec<String>)
    ensures
        strings_view(final(out)@) == strings_view(old(out)@) + strings_view(more@),
{
    let ghost before = strings_view(out@);
    let ghost all = strings_view(more@);
    let mut i: usize = 0;
    assert(strings_view(out@) =~= before + all.take(0));
    while i < more.len()
        invariant
            i <= more.len(),
            all == strings_view(more@),
            strings_view(out@) == before + all.take(i as int),
        decreases more.len() - i,
    {
        let ghost sofar = strings_view(out@);
        out.push(copy_of(more[i].as_str()));
        assert(strings_view(out@) =~= sofar.push(all[i as int]));
        assert(strings_view(out@) =~= before + all.take(i + 1));
        i += 1;
    }
    assert(all.take(more.len() as int) == all);
}

/// The file `dir/stem.suffix`.
fn work_path(dir: &str, stem: &str, suffix: &str) -> (r: String)
    ensures
        r@ == work_file(dir@, stem@, suffix@),
{
    let mut out: Vec<char> = Vec::new();
    push_str(&mut out, dir);
    push_str(&mut out, "/");
    push_str(&mut out, stem);
    push_str(&mut out, ".");
    push_str(&mut out, suffix);
    string_of(&out)
}

/// The run of the transcoder that turns `input` into what `params` asks
/// for, in the working directory `temp_dir`.
///
/// The input goes to `in.` with the suffix of its format, the output to
/// `out.` with the suffix of the target format.
pub fn process_audio(
    input: &AudioBuffer,
    params: &Params,
    temp_dir: &str,
    additional_tags: &StringMap,
) -> (r: Transcode)
    ensures
        r.output_format == target_format(params@.format),
        r.input_path@ == work_file(temp_dir@, "in"@, input.format_of().extension_text()),
        r.output_path@ == work_file(temp_dir@, "out"@, r.output_format.extension_text()),
        strings_view(r.arguments@) == transcode_arguments(
            r.input_path@,
            r.output_path@,
            result_tags(additional_tags@, params@.tags),
            params@,
            Decimal::usual_level(),
        ),
{
    let output_format = match params.format {
        Some(AudioFormat::Unknown) => AudioFormat::Mp3,
        Some(f) => f,
        None => AudioFormat::Mp3,
    };
    let input_path = work_path(temp_dir, "in", input.format().extension());
    let output_path = work_path(temp_dir, "out", output_format.extension());
    let tags = merge_tags(additional_tags, &params.tags);
    let mut arguments: Vec<String> = Vec::new();
    arguments.push(copy_of("-i"));
    arguments.push(copy_of(input_path.as_str()));
    arguments.push(copy_of("-y"));
    assert(strings_view(arguments@) =~= seq!["-i"@, input_path@, "-y"@]);
    push_metadata(&mut arguments, &tags);
    let encoding = params.to_ffmpeg_args();
    push_copies(&mut arguments, &encoding);
    let ghost sofar = strings_view(arguments@);
    arguments.push(copy_of(output_path.as_str()));
    assert(strings_view(arguments@) =~= sofar + seq![output_path@]);
    Transcode { input_path, output_path, arguments, output_format }
}

/// The arguments that make the probe describe the file at `path`.
pub fn probe_arguments(path: &str) -> (r: Vec<String>)
    ensures
        strings_view(r@) == probe_arguments_of(path@),
{
    let mut out: Vec<String> = Vec::new();
    out.push(copy_of("-v"));
    out.push(copy_of("quiet"));
    out.push(copy_of("-print_format"));
    out.push(copy_of("json"));
    out.push(copy_of("-show_format"));
    out.push(copy_of("-show_streams"));
    out.push(copy_of(path));
    assert(strings_view(out@) =~= probe_arguments_of(path@));
    out
}

impl Transcode {
    /// What the run comes to: the output in the target format where the
    /// transcoder succeeded and its output could be read, and a failure
    /// otherwise.
    pub fn finish(&self, succeeded: bool, output: Option<Vec<u8>>) -> (r: Result<
        AudioBuffer,
        String,
    >)
        ensures
            match r {
                Ok(buffer) => {
                    &&& succeeded
                    &&& output matches Some(bytes)
                    &&& buffer.bytes() == bytes@
                    &&& buffer.format_of() == self.output_format
                },
                Err(msg) => if !succeeded {
                    msg@ == "FFmpeg failed"@
                } else {
                    output is None && msg@ == "FFmpeg produced no output"@
                },
            },
    {
        if !succeeded {
            return Err(copy_of("FFmpeg failed"));
        }
        match output {
            Some(bytes) => Ok(AudioBuffer::from_bytes_with_format(bytes, self.output_format)),
            None => Err(copy_of("FFmpeg produced no output")),
        }
    }
}

impl Processor {
    /// The processor for the given settings on a machine with `cpus` CPUs;
    /// refused where the limit would be zero.
    pub fn with_cpus(config: &ProcessorSettings, cpus: usize, additional_tags: StringMap) -> (r:
        Result<Processor, String>)
        ensures
            match concurrency_limit(config.concurrency, cpus) {
                Some(n) => r matches Ok(p) && p.max_concurrent == n && p.additional_tags@
                    == additional_tags@,
                None => r matches Err(msg) && msg@ == "Concurrency should be non-zero"@,
            },
    {
        let n = match config.concurrency {
            Some(c) => c,
            None => cpus,
        };
        if n == 0 {
            Err(copy_of("Concurrency should be non-zero"))
        } else {
            Ok(Processor { max_concurrent: n, additional_tags })
        }
    }

    /// The processor for the given settings on this machine.
    pub fn new(config: &ProcessorSettings, additional_tags: StringMap) -> (r: Result<
        Processor,
        String,
    >)
        ensures
            match r {
                Ok(p) => {
                    &&& p.max_concurrent > 0
                    &&& p.additional_tags@ == additional_tags@
                    &&& (config.concurrency matches Some(c) ==> p.max_concurrent == c)
                },
                Err(msg) => {
                    &&& (config.concurrency matches Some(c) ==> c == 0)
                    &&& msg@ == "Concurrency should be non-zero"@
                },
            },
            (config.concurrency matches Some(c) && c > 0) ==> r is Ok,
    {
        let cpus = cpu_count();
        Processor::with_cpus(config, cpus, additional_tags)
    }

    /// The run of the transcoder for one request.
    pub fn process(&self, blob: &AudioBuffer, params: &Params, temp_dir: &str) -> (r: Transcode)
        ensures
            r.output_format == target_format(params@.format),
            r.input_path@ == work_file(temp_dir@, "in"@, blob.format_of().extension_text()),
            r.output_path@ == work_file(temp_dir@, "out"@, r.output_format.extension_text()),
            strings_view(r.arguments@) == transcode_arguments(
                r.input_path@,
                r.output_path@,
                result_tags(self.additional_tags@, params@.tags),
                params@,
                Decimal::usual_level(),
            ),
    {
        process_audio(blob, params, temp_dir, &self.additional_tags)
    }
}

/// The counter of a counting semaphore: how many transcoder runs are in
/// flight, and how many may be.
#[derive(Debug)]
pub struct Admission {
    limit: usize,
    in_flight: usize,
}

/// What happens at the door of the processor.
#[derive(Debug, Clone, Copy, PartialEq, Eq, Structural)]
pub enum AdmissionEvent {
    /// A request asks to run the transcoder.
    Arrive,
    /// A run of the transcoder has ended, in success or in failure.
    Leave,
}

/// The number of runs in flight after one event, under a limit: an arrival
/// is let in while there is room, and a run that leaves makes room.
pub open spec fn in_flight_after(limit: nat, in_flight: nat, event: AdmissionEvent) -> nat {
    match event {
        AdmissionEvent::Arrive => if in_flight < limit {
            in_flight + 1
        } else {
            in_flight
        },
        AdmissionEvent::Leave => if in_flight > 0 {
            (in_flight - 1) as nat
        } else {
            0
        },
    }
}

/// The number of runs in flight after a series of events, starting with
/// none.
pub open spec fn in_flight_after_all(limit: nat, events: Seq<AdmissionEvent>) -> nat
    decreases events.len(),
{
    if events.len() == 0 {
        0
    } else {
        in_flight_after(limit, in_flight_after_all(limit, events.drop_last()), events.last())
    }
}

/// Whatever arrives and leaves, in whatever order, the number of runs in
/// flight never exceeds the limit.
pub proof fn lemma_concurrency_bound(limit: nat, events: Seq<AdmissionEvent>)
    ensures
        in_flight_after_all(limit, events) <= limit,
    decreases events.len(),
{
    if events.len() != 0 {
        lemma_concurrency_bound(limit, events.drop_last());
    }
}

impl Admission {
    #[verifier::type_invariant]
    spec fn bounded(self) -> bool {
        self.in_flight <= self.limit
    }

    /// How many runs may be in flight.
    pub closed spec fn limit_of(self) -> nat {
        self.limit as nat
    }

    /// How many runs are in flight.
    pub closed spec fn in_flight_of(self) -> nat {
        self.in_flight as nat
    }

    /// The counter with no run in flight.
    pub fn new(limit: usize) -> (r: Admission)
        ensures
            r.limit_of() == limit,
            r.in_flight_of() == 0,
    {
        Admission { limit, in_flight: 0 }
    }

    /// How many runs may be in flight.
    pub fn limit(&self) -> (r: usize)
        ensures
            r == self.limit_of(),
    {
        self.limit
    }

    /// How many runs are in flight; never more than the limit.
    pub fn in_flight(&self) -> (r: usize)
        ensures
            r == self.in_flight_of(),
            r <= self.limit_of(),
    {
        proof {
            use_type_invariant(self);
        }
        self.in_flight
    }

    /// Asks to run. Where there is room the run is let in and counted;
    /// otherwise it must wait and ask again.
    pub fn try_acquire(&mut self) -> (admitted: bool)
        ensures
            admitted == (old(self).in_flight_of() < old(self).limit_of()),
            final(self).limit_of() == old(self).limit_of(),
            final(self).in_flight_of() == in_flight_after(
                old(self).limit_of(),
                old(self).in_flight_of(),
                AdmissionEvent::Arrive,
            ),
            final(self).in_flight_of() <= final(self).limit_of(),
    {
        proof {
            use_type_invariant(&*self);
        }
        if self.in_flight < self.limit {
            self.in_flight = self.in_flight + 1;
            true
        } else {
            false
        }
    }

    /// Tells that a run has ended.
    pub fn release(&mut self)
        ensures
            final(self).limit_of() == old(self).limit_of(),
            final(self).in_flight_of() == in_flight_after(
                old(self).limit_of(),
                old(self).in_flight_of(),
                AdmissionEvent::Leave,
            ),
            final(self).in_flight_of() <= final(self).limit_of(),
    {
        proof {
            use_type_invariant(&*self);
        }
        if self.in_flight > 0 {
            self.in_flight = self.in_flight - 1;
        }
    }
}

} // verus!
