//! The canonical record of a transformation request, and its codec: reading
//! it from a URL path and query, and writing it back as the canonical string,
//! as a query mapping and as transcoder arguments.

use vstd::prelude::*;
use vstd::utf8::encode_utf8;
use crate::blob::{format_named, AudioFormat};
use crate::codec::{form_pairs, parse_form, url_encode, url_encoded};
use crate::decimal::{parsed_decimal, Decimal};
use crate::number::{parse_signed, parsed_signed, push_signed, signed_numeral};
use crate::strmap::{
    inserted, inserted_all, lemma_sorted_by_name, lookup, pair_views, sorted_by_name, Pair, StringMap,
};
use crate::text::{
    chars_of, copy_of, find_first, find_last, first_index_of, has_prefix, last_index_of,
    lemma_first_index_of, lemma_last_index_of, push_str, same_text, slice_of, starts_with,
    string_of,
};

verus! {

/// A request path as it arrives, before it is read.
#[derive(Debug)]
pub struct CyberpunkPath {
    pub path: String,
}

/// Something that can sign a canonical parameter string.
pub trait Signer {
    /// The signature of `path`.
    fn sign(&self, path: &str) -> String;
}

/// The canonical transformation record. Every field but `key` is optional.
#[derive(Debug)]
pub struct Params {
    /// Where the source audio is: a storage key, or a URL.
    pub key: String,
    pub format: Option<AudioFormat>,
    pub codec: Option<String>,
    pub sample_rate: Option<i32>,
    pub channels: Option<i32>,
    pub bit_rate: Option<i32>,
    pub bit_depth: Option<i32>,
    pub quality: Option<Decimal>,
    pub compression_level: Option<i32>,
    pub start_time: Option<Decimal>,
    pub duration: Option<Decimal>,
    pub speed: Option<Decimal>,
    pub reverse: Option<bool>,
    pub volume: Option<Decimal>,
    pub normalize: Option<bool>,
    pub normalize_level: Option<Decimal>,
    pub lowpass: Option<Decimal>,
    pub highpass: Option<Decimal>,
    pub bandpass: Option<String>,
    pub bass: Option<Decimal>,
    pub treble: Option<Decimal>,
    pub echo: Option<String>,
    pub chorus: Option<String>,
    pub flanger: Option<String>,
    pub phaser: Option<String>,
    pub tremolo: Option<String>,
    pub compressor: Option<String>,
    pub noise_reduction: Option<String>,
    pub fade_in: Option<Decimal>,
    pub fade_out: Option<Decimal>,
    pub cross_fade: Option<Decimal>,
    pub custom_filters: Option<Vec<String>>,
    pub custom_options: Option<Vec<String>>,
    pub tags: Option<StringMap>,
}

/// A `Params` value as plain data.
pub struct ParamsView {
    pub key: Seq<char>,
    pub format: Option<AudioFormat>,
    pub codec: Option<Seq<char>>,
    pub sample_rate: Option<int>,
    pub channels: Option<int>,
    pub bit_rate: Option<int>,
    pub bit_depth: Option<int>,
    pub quality: Option<Decimal>,
    pub compression_level: Option<int>,
    pub start_time: Option<Decimal>,
    pub duration: Option<Decimal>,
    pub speed: Option<Decimal>,
    pub reverse: Option<bool>,
    pub volume: Option<Decimal>,
    pub normalize: Option<bool>,
    pub normalize_level: Option<Decimal>,
    pub lowpass: Option<Decimal>,
    pub highpass: Option<Decimal>,
    pub bandpass: Option<Seq<char>>,
    pub bass: Option<Decimal>,
    pub treble: Option<Decimal>,
    pub echo: Option<Seq<char>>,
    pub chorus: Option<Seq<char>>,
    pub flanger: Option<Seq<char>>,
    pub phaser: Option<Seq<char>>,
    pub tremolo: Option<Seq<char>>,
    pub compressor: Option<Seq<char>>,
    pub noise_reduction: Option<Seq<char>>,
    pub fade_in: Option<Decimal>,
    pub fade_out: Option<Decimal>,
    pub cross_fade: Option<Decimal>,
    pub custom_filters: Option<Seq<Seq<char>>>,
    pub custom_options: Option<Seq<Seq<char>>>,
    pub tags: Option<Seq<Pair>>,
}

/// The texts of a sequence of strings.
pub open spec fn strings_view(s: Seq<String>) -> Seq<Seq<char>> {
    Seq::new(s.len(), |i: int| s[i]@)
}

/// The text of an optional string.
pub open spec fn text_view(o: Option<String>) -> Option<Seq<char>> {
    match o {
        Some(s) => Some(s@),
        None => None,
    }
}

/// The texts of an optional list of strings.
pub open spec fn texts_view(o: Option<Vec<String>>) -> Option<Seq<Seq<char>>> {
    match o {
        Some(v) => Some(strings_view(v@)),
        None => None,
    }
}

/// The value of an optional machine integer.
pub open spec fn int_view(o: Option<i32>) -> Option<int> {
    match o {
        Some(n) => Some(n as int),
        None => None,
    }
}

/// The entries of an optional map.
pub open spec fn map_view(o: Option<StringMap>) -> Option<Seq<Pair>> {
    match o {
        Some(m) => Some(m@),
        None => None,
    }
}

impl View for Params {
    type V = ParamsView;

    open spec fn view(&self) -> ParamsView {
        ParamsView {
            key: self.key@,
            format: self.format,
            codec: text_view(self.codec),
            sample_rate: int_view(self.sample_rate),
            channels: int_view(self.channels),
            bit_rate: int_view(self.bit_rate),
            bit_depth: int_view(self.bit_depth),
            quality: self.quality,
            compression_level: int_view(self.compression_level),
            start_time: self.start_time,
            duration: self.duration,
            speed: self.speed,
            reverse: self.reverse,
            volume: self.volume,
            normalize: self.normalize,
            normalize_level: self.normalize_level,
            lowpass: self.lowpass,
            highpass: self.highpass,
            bandpass: text_view(self.bandpass),
            bass: self.bass,
            treble: self.treble,
            echo: text_view(self.echo),
            chorus: text_view(self.chorus),
            flanger: text_view(self.flanger),
            phaser: text_view(self.phaser),
            tremolo: text_view(self.tremolo),
            compressor: text_view(self.compressor),
            noise_reduction: text_view(self.noise_reduction),
            fade_in: self.fade_in,
            fade_out: self.fade_out,
            cross_fade: self.cross_fade,
            custom_filters: texts_view(self.custom_filters),
            custom_options: texts_view(self.custom_options),
            tags: map_view(self.tags),
        }
    }
}

/// The record that names `key` and sets nothing else.
pub open spec fn bare(key: Seq<char>) -> ParamsView {
    ParamsView {
        key,
        format: None,
        codec: None,
        sample_rate: None,
        channels: None,
        bit_rate: None,
        bit_depth: None,
        quality: None,
        compression_level: None,
        start_time: None,
        duration: None,
        speed: None,
        reverse: None,
        volume: None,
        normalize: None,
        normalize_level: None,
        lowpass: None,
        highpass: None,
        bandpass: None,
        bass: None,
        treble: None,
        echo: None,
        chorus: None,
        flanger: None,
        phaser: None,
        tremolo: None,
        compressor: None,
        noise_reduction: None,
        fade_in: None,
        fade_out: None,
        cross_fade: None,
        custom_filters: None,
        custom_options: None,
        tags: None,
    }
}

impl Default for Params {
    fn default() -> (r: Params)
        ensures
            r@ == bare(Seq::<char>::empty()),
    {
        Params {
            key: String::new(),
            format: None,
            codec: None,
            sample_rate: None,
            channels: None,
            bit_rate: None,
            bit_depth: None,
            quality: None,
            compression_level: None,
            start_time: None,
            duration: None,
            speed: None,
            reverse: None,
            volume: None,
            normalize: None,
            normalize_level: None,
            lowpass: None,
            highpass: None,
            bandpass: None,
            bass: None,
            treble: None,
            echo: None,
            chorus: None,
            flanger: None,
            phaser: None,
            tremolo: None,
            compressor: None,
            noise_reduction: None,
            fade_in: None,
            fade_out: None,
            cross_fade: None,
            custom_filters: None,
            custom_options: None,
            tags: None,
        }
    }
}

/// One name of a query with the values it carries.
pub type QueryEntry = (Seq<char>, Seq<Seq<char>>);

/// The entries of a vector of owned query entries, as plain text.
pub open spec fn query_views(q: Seq<(String, Vec<String>)>) -> Seq<QueryEntry> {
    Seq::new(q.len(), |i: int| (q[i].0@, strings_view(q[i].1@)))
}

/// The text of a truth value.
pub open spec fn bool_text(b: bool) -> Seq<char> {
    if b {
        "true"@
    } else {
        "false"@
    }
}

/// The text of an optional format.
pub open spec fn format_text(o: Option<AudioFormat>) -> Option<Seq<char>> {
    match o {
        Some(f) => Some(f.extension_text()),
        None => None,
    }
}

/// The text of an optional integer.
pub open spec fn int_text(o: Option<int>) -> Option<Seq<char>> {
    match o {
        Some(n) => Some(signed_numeral(n)),
        None => None,
    }
}

/// The shortest text of an optional decimal.
pub open spec fn decimal_text(o: Option<Decimal>) -> Option<Seq<char>> {
    match o {
        Some(d) => Some(d.text()),
        None => None,
    }
}

/// The text of an optional truth value.
pub open spec fn flag_text(o: Option<bool>) -> Option<Seq<char>> {
    match o {
        Some(b) => Some(bool_text(b)),
        None => None,
    }
}

/// The query entry of a field that holds one value, if it is set.
pub open spec fn single(name: Seq<char>, value: Option<Seq<char>>) -> Seq<QueryEntry> {
    match value {
        Some(v) => seq![(name, seq![v])],
        None => Seq::empty(),
    }
}

/// The query entry of a field that holds a list, if it is set.
pub open spec fn listed(name: Seq<char>, values: Option<Seq<Seq<char>>>) -> Seq<QueryEntry> {
    match values {
        Some(v) => seq![(name, v)],
        None => Seq::empty(),
    }
}

/// The query entries of the tags: one for each tag, named `tag_` and the
/// tag's name, in the order of the tags' names, whatever order the tags
/// were set in.
pub open spec fn tag_entries(tags: Option<Seq<Pair>>) -> Seq<QueryEntry> {
    match tags {
        Some(t) => Seq::new(
            t.len(),
            |i: int| ("tag_"@ + sorted_by_name(t)[i].0, seq![sorted_by_name(t)[i].1]),
        ),
        None => Seq::empty(),
    }
}

/// The query mapping of a record: its set fields in their fixed order, then
/// the tags in the order of their names.
pub open spec fn query_of(p: ParamsView) -> Seq<QueryEntry> {
    single("format"@, format_text(p.format)) + single("codec"@, p.codec) + single(
        "sample_rate"@,
        int_text(p.sample_rate),
    ) + single("channels"@, int_text(p.channels)) + single("bit_rate"@, int_text(p.bit_rate))
        + single("bit_depth"@, int_text(p.bit_depth)) + single("quality"@, decimal_text(p.quality))
        + single("compression_level"@, int_text(p.compression_level)) + single(
        "start_time"@,
        decimal_text(p.start_time),
    ) + single("duration"@, decimal_text(p.duration)) + single("speed"@, decimal_text(p.speed))
        + single("reverse"@, flag_text(p.reverse)) + single("volume"@, decimal_text(p.volume))
        + single("normalize"@, flag_text(p.normalize)) + single(
        "normalize_level"@,
        decimal_text(p.normalize_level),
    ) + single("lowpass"@, decimal_text(p.lowpass)) + single("highpass"@, decimal_text(p.highpass))
        + single("bandpass"@, p.bandpass) + single("bass"@, decimal_text(p.bass)) + single(
        "treble"@,
        decimal_text(p.treble),
    ) + single("echo"@, p.echo) + single("chorus"@, p.chorus) + single("flanger"@, p.flanger)
        + single("phaser"@, p.phaser) + single("tremolo"@, p.tremolo) + single(
        "compressor"@,
        p.compressor,
    ) + single("noise_reduction"@, p.noise_reduction) + single("fade_in"@, decimal_text(p.fade_in))
        + single("fade_out"@, decimal_text(p.fade_out)) + single(
        "cross_fade"@,
        decimal_text(p.cross_fade),
    ) + listed("custom_filters"@, p.custom_filters) + listed("custom_options"@, p.custom_options)
        + tag_entries(p.tags)
}

/// The parts joined into one text, with `sep` between neighbours.
pub open spec fn joined(parts: Seq<Seq<char>>, sep: Seq<char>) -> Seq<char>
    decreases parts.len(),
{
    if parts.len() == 0 {
        Seq::empty()
    } else if parts.len() == 1 {
        parts[0]
    } else {
        joined(parts.drop_last(), sep) + sep + parts.last()
    }
}

/// The `name=value` texts of one query entry, the values percent-encoded.
pub open spec fn entry_texts(e: QueryEntry) -> Seq<Seq<char>> {
    Seq::new(e.1.len(), |j: int| e.0 + "="@ + url_encoded(e.1[j]))
}

/// The `name=value` texts of a query, in order.
pub open spec fn pair_texts(q: Seq<QueryEntry>) -> Seq<Seq<char>>
    decreases q.len(),
{
    if q.len() == 0 {
        Seq::empty()
    } else {
        pair_texts(q.drop_last()) + entry_texts(q.last())
    }
}

/// The canonical string of a record: the key, `?`, and the `name=value`
/// texts of its query joined by `&`.
pub open spec fn canonical_of(p: ParamsView) -> Seq<char> {
    p.key + "?"@ + joined(pair_texts(query_of(p)), "&"@)
}

/// A query mapping: names with their values, in a fixed order.
#[derive(Debug)]
pub struct Query {
    pub entries: Vec<(String, Vec<String>)>,
}

impl View for Query {
    type V = Seq<QueryEntry>;

    open spec fn view(&self) -> Seq<QueryEntry> {
        query_views(self.entries@)
    }
}

impl Query {
    /// The values of the first entry named `name`, if there is one.
    pub fn get(&self, name: &str) -> (r: Option<&Vec<String>>)
        ensures
            match r {
                Some(v) => exists|i: int|
                    0 <= i < self@.len() && (#[trigger] self@[i]).0 == name@ && self@[i].1
                        == strings_view(v@) && forall|j: int|
                        0 <= j < i ==> (#[trigger] self@[j]).0 != name@,
                None => forall|j: int| 0 <= j < self@.len() ==> (#[trigger] self@[j]).0 != name@,
            },
    {
        let mut i: usize = 0;
        while i < self.entries.len()
            invariant
                i <= self.entries.len(),
                forall|j: int| 0 <= j < i ==> (#[trigger] self@[j]).0 != name@,
            decreases self.entries.len() - i,
        {
            if same_text(self.entries[i].0.as_str(), name) {
                assert(self@[i as int].0 == name@);
                return Some(&self.entries[i].1);
            }
            i += 1;
        }
        None
    }

    /// The number of entries.
    pub fn len(&self) -> (r: usize)
        ensures
            r == self@.len(),
    {
        self.entries.len()
    }
}

/// Copies of the strings of `v`.
pub fn copy_strings(v: &Vec<String>) -> (r: Vec<String>)
    ensures
        strings_view(r@) == strings_view(v@),
{
    let mut out: Vec<String> = Vec::new();
    let mut i: usize = 0;
    while i < v.len()
        invariant
            i <= v.len(),
            out@.len() == i,
            forall|j: int| 0 <= j < i ==> out@[j]@ == v@[j]@,
        decreases v.len() - i,
    {
        out.push(copy_of(v[i].as_str()));
        i += 1;
    }
    assert(strings_view(out@) =~= strings_view(v@));
    out
}

/// Appends the entry `name` with `values`.
fn put(out: &mut Vec<(String, Vec<String>)>, name: &str, values: Vec<String>)
    ensures
        query_views(final(out)@) == query_views(old(out)@).push((name@, strings_view(values@))),
{
    let ghost before = out@;
    let ghost vals = strings_view(values@);
    out.push((copy_of(name), values));
    assert(query_views(out@) =~= query_views(before).push((name@, vals)));
}

/// Appends the entry of a single-valued field, if it is set.
fn put_single(out: &mut Vec<(String, Vec<String>)>, name: &str, value: Option<String>)
    ensures
        query_views(final(out)@) == query_views(old(out)@) + single(name@, text_view(value)),
{
    match value {
        Some(v) => {
            let ghost t = v@;
            let mut values: Vec<String> = Vec::new();
            values.push(v);
            assert(strings_view(values@) =~= seq![t]);
            put(out, name, values);
            assert(query_views(out@) =~= query_views(old(out)@) + single(name@, Some(t)));
        },
        None => {
            assert(query_views(out@) =~= query_views(old(out)@) + single(name@, None));
        },
    }
}

/// The text of an optional string, copied.
fn text_of(o: &Option<String>) -> (r: Option<String>)
    ensures
        text_view(r) == text_view(*o),
{
    match o {
        Some(s) => Some(copy_of(s.as_str())),
        None => None,
    }
}

/// The numeral of an optional integer.
fn int_string(o: Option<i32>) -> (r: Option<String>)
    ensures
        text_view(r) == int_text(int_view(o)),
{
    match o {
        Some(n) => {
            let mut out: Vec<char> = Vec::new();
            push_signed(&mut out, n as i64);
            Some(string_of(&out))
        },
        None => None,
    }
}

/// The shortest text of an optional decimal.
fn decimal_string(o: Option<Decimal>) -> (r: Option<String>)
    ensures
        text_view(r) == decimal_text(o),
{
    match o {
        Some(d) => Some(d.to_string()),
        None => None,
    }
}

/// The text of an optional truth value.
fn flag_string(o: Option<bool>) -> (r: Option<String>)
    ensures
        text_view(r) == flag_text(o),
{
    match o {
        Some(b) => Some(
            if b {
                copy_of("true")
            } else {
                copy_of("false")
            },
        ),
        None => None,
    }
}

/// The text of an optional format.
fn format_string(o: Option<AudioFormat>) -> (r: Option<String>)
    ensures
        text_view(r) == format_text(o),
{
    match o {
        Some(f) => Some(f.to_string()),
        None => None,
    }
}


/// Appends the entry of a list field, if it is set.
fn put_listed(out: &mut Vec<(String, Vec<String>)>, name: &str, values: &Option<Vec<String>>)
    ensures
        query_views(final(out)@) == query_views(old(out)@) + listed(name@, texts_view(*values)),
{
    match values {
        Some(v) => {
            let copy = copy_strings(v);
            put(out, name, copy);
            assert(query_views(out@) =~= query_views(old(out)@) + listed(
                name@,
                texts_view(*values),
            ));
        },
        None => {
            assert(query_views(out@) =~= query_views(old(out)@) + listed(
                name@,
                texts_view(*values),
            ));
        },
    }
}

/// Appends one entry for each tag, in the order of the tags' names.
fn put_tags(out: &mut Vec<(String, Vec<String>)>, tags: &Option<StringMap>)
    ensures
        query_views(final(out)@) == query_views(old(out)@) + tag_entries(map_view(*tags)),
{
    let ghost before = query_views(out@);
    match tags {
        Some(t) => {
            let n = t.len();
            let sorted = t.sorted();
            proof {
                lemma_sorted_by_name(t@);
            }
            let mut i: usize = 0;
            while i < n
                invariant
                    i <= n,
                    n == t@.len(),
                    n == sorted@.len(),
                    pair_views(sorted@) == sorted_by_name(t@),
                    query_views(out@) == before + tag_entries(Some(t@)).take(i as int),
                decreases n - i,
            {
                assert(pair_views(sorted@)[i as int] == (sorted@[i as int].0@, sorted@[i as int].1@));
                let mut name: Vec<char> = Vec::new();
                push_str(&mut name, "tag_");
                push_str(&mut name, sorted[i].0.as_str());
                let mut values: Vec<String> = Vec::new();
                values.push(copy_of(sorted[i].1.as_str()));
                assert(strings_view(values@) =~= seq![sorted_by_name(t@)[i as int].1]);
                let name = string_of(&name);
                put(out, name.as_str(), values);
                assert(query_views(out@) =~= before + tag_entries(Some(t@)).take(i + 1));
                i += 1;
            }
            assert(tag_entries(Some(t@)).take(n as int) == tag_entries(Some(t@)));
        },
        None => {
            assert(query_views(out@) =~= before + tag_entries(None));
        },
    }
}

impl Params {
    /// The query mapping of the record: each set field under its name, in
    /// the fixed order of the fields, then one entry for each tag, in the
    /// order of the tags' names.
    pub fn to_query(&self) -> (r: Query)
        ensures
            r@ == query_of(self@),
    {
        let mut out: Vec<(String, Vec<String>)> = Vec::new();
        assert(query_views(out@) =~= Seq::<QueryEntry>::empty());
        put_single(&mut out, "format", format_string(self.format));
        assert(query_views(out@) =~= single("format"@, format_text(self.format)));
        put_single(&mut out, "codec", text_of(&self.codec));
        put_single(&mut out, "sample_rate", int_string(self.sample_rate));
        put_single(&mut out, "channels", int_string(self.channels));
        put_single(&mut out, "bit_rate", int_string(self.bit_rate));
        put_single(&mut out, "bit_depth", int_string(self.bit_depth));
        put_single(&mut out, "quality", decimal_string(self.quality));
        put_single(&mut out, "compression_level", int_string(self.compression_level));
        put_single(&mut out, "start_time", decimal_string(self.start_time));
        put_single(&mut out, "duration", decimal_string(self.duration));
        put_single(&mut out, "speed", decimal_string(self.speed));
        put_single(&mut out, "reverse", flag_string(self.reverse));
        put_single(&mut out, "volume", decimal_string(self.volume));
        put_single(&mut out, "normalize", flag_string(self.normalize));
        put_single(&mut out, "normalize_level", decimal_string(self.normalize_level));
        put_single(&mut out, "lowpass", decimal_string(self.lowpass));
        put_single(&mut out, "highpass", decimal_string(self.highpass));
        put_single(&mut out, "bandpass", text_of(&self.bandpass));
        put_single(&mut out, "bass", decimal_string(self.bass));
        put_single(&mut out, "treble", decimal_string(self.treble));
        put_single(&mut out, "echo", text_of(&self.echo));
        put_single(&mut out, "chorus", text_of(&self.chorus));
        put_single(&mut out, "flanger", text_of(&self.flanger));
        put_single(&mut out, "phaser", text_of(&self.phaser));
        put_single(&mut out, "tremolo", text_of(&self.tremolo));
        put_single(&mut out, "compressor", text_of(&self.compressor));
        put_single(&mut out, "noise_reduction", text_of(&self.noise_reduction));
        put_single(&mut out, "fade_in", decimal_string(self.fade_in));
        put_single(&mut out, "fade_out", decimal_string(self.fade_out));
        put_single(&mut out, "cross_fade", decimal_string(self.cross_fade));
        put_listed(&mut out, "custom_filters", &self.custom_filters);
        put_listed(&mut out, "custom_options", &self.custom_options);
        put_tags(&mut out, &self.tags);
        Query { entries: out }
    }

    /// The canonical string of the record: `key?name=value&...`, with the
    /// entries of [`Params::to_query`] in their order and each value
    /// percent-encoded.
    pub fn to_string(&self) -> (r: String)
        ensures
            r@ == canonical_of(self@),
    {
        let query = self.to_query();
        let parts = pair_strings(&query);
        let tail = join(&parts, "&");
        let mut out: Vec<char> = Vec::new();
        push_str(&mut out, self.key.as_str());
        push_str(&mut out, "?");
        push_str(&mut out, tail.as_str());
        string_of(&out)
    }
}

/// Joining one more part: the first part stands alone, a later one follows
/// the separator.
pub proof fn lemma_joined_push(parts: Seq<Seq<char>>, sep: Seq<char>, part: Seq<char>)
    ensures
        joined(parts.push(part), sep) == if parts.len() == 0 {
            part
        } else {
            joined(parts, sep) + sep + part
        },
{
    assert(parts.push(part).drop_last() == parts);
}

/// The parts joined into one string, with `sep` between neighbours.
pub fn join(parts: &Vec<String>, sep: &str) -> (r: String)
    ensures
        r@ == joined(strings_view(parts@), sep@),
{
    let ghost all = strings_view(parts@);
    let mut out: Vec<char> = Vec::new();
    let mut i: usize = 0;
    while i < parts.len()
        invariant
            i <= parts.len(),
            all == strings_view(parts@),
            out@ == joined(all.take(i as int), sep@),
        decreases parts.len() - i,
    {
        proof {
            lemma_joined_push(all.take(i as int), sep@, all[i as int]);
            assert(all.take(i + 1) == all.take(i as int).push(all[i as int]));
        }
        if i > 0 {
            push_str(&mut out, sep);
        }
        push_str(&mut out, parts[i].as_str());
        i += 1;
    }
    assert(all.take(parts.len() as int) == all);
    string_of(&out)
}

/// The `name=value` strings of a query, in order, the values percent-encoded.
fn pair_strings(query: &Query) -> (r: Vec<String>)
    ensures
        strings_view(r@) == pair_texts(query@),
{
    let ghost q = query@;
    let mut out: Vec<String> = Vec::new();
    let mut i: usize = 0;
    while i < query.entries.len()
        invariant
            i <= query.entries.len(),
            q == query@,
            strings_view(out@) == pair_texts(q.take(i as int)),
        decreases query.entries.len() - i,
    {
        let ghost done = pair_texts(q.take(i as int));
        let ghost entry = q[i as int];
        let values = &query.entries[i].1;
        let mut j: usize = 0;
        while j < values.len()
            invariant
                j <= values.len(),
                i < query.entries.len(),
                q == query@,
                entry == q[i as int],
                values == &query.entries@[i as int].1,
                strings_view(out@) == done + entry_texts(entry).take(j as int),
            decreases values.len() - j,
        {
            let ghost before = strings_view(out@);
            let mut part: Vec<char> = Vec::new();
            push_str(&mut part, query.entries[i].0.as_str());
            push_str(&mut part, "=");
            let encoded = url_encode(values[j].as_str());
            push_str(&mut part, encoded.as_str());
            assert(part@ == entry_texts(entry)[j as int]);
            out.push(string_of(&part));
            assert(strings_view(out@) =~= before.push(part@));
            assert(strings_view(out@) =~= done + entry_texts(entry).take(j + 1));
            j += 1;
        }
        proof {
            assert(entry_texts(entry).take(values.len() as int) =~= entry_texts(entry));
            assert(q.take(i + 1).drop_last() =~= q.take(i as int));
            assert(q.take(i + 1).last() == entry);
        }
        i += 1;
    }
    proof {
        assert(q.take(query.entries.len() as int) =~= q);
    }
    out
}


/// A filter that is written as `prefix` and a value, if the value is there.
pub open spec fn prefixed(prefix: Seq<char>, value: Option<Seq<char>>) -> Seq<Seq<char>> {
    match value {
        Some(v) => seq![prefix + v],
        None => Seq::empty(),
    }
}

/// The text of an optional decimal with a fixed number of places.
pub open spec fn fixed_of(o: Option<Decimal>, places: nat) -> Option<Seq<char>> {
    match o {
        Some(d) => Some(d.fixed_text(places)),
        None => None,
    }
}

/// A factor that changes nothing when it is one: absent, or exactly one,
/// it yields no text.
pub open spec fn factor_text(o: Option<Decimal>, places: nat) -> Option<Seq<char>> {
    match o {
        Some(d) => if d.millionths() == 1_000_000 {
            None
        } else {
            Some(d.fixed_text(places))
        },
        None => None,
    }
}

/// The loudness target of a record, if it asks for normalisation: its own
/// level, or `fallback`.
pub open spec fn loudness_text(p: ParamsView, fallback: Decimal) -> Option<Seq<char>> {
    if p.normalize == Some(true) {
        match p.normalize_level {
            Some(d) => Some(d.fixed_text(1)),
            None => Some(fallback.fixed_text(1)),
        }
    } else {
        None
    }
}

/// The filter expressions of a record, in the order in which the transcoder
/// applies them: the structured filters in their fixed order, then the
/// custom ones.
pub open spec fn filters_of(p: ParamsView, fallback: Decimal) -> Seq<Seq<char>> {
    prefixed("atempo="@, factor_text(p.speed, 3)) + (if p.reverse == Some(true) {
        seq!["areverse"@]
    } else {
        Seq::empty()
    }) + prefixed("volume="@, factor_text(p.volume, 2)) + prefixed(
        "loudnorm=I="@,
        loudness_text(p, fallback),
    ) + prefixed("lowpass=f="@, fixed_of(p.lowpass, 1)) + prefixed(
        "highpass=f="@,
        fixed_of(p.highpass, 1),
    ) + prefixed("bandpass="@, p.bandpass) + prefixed("bass=g="@, fixed_of(p.bass, 1)) + prefixed(
        "treble=g="@,
        fixed_of(p.treble, 1),
    ) + prefixed("aecho="@, p.echo) + prefixed("chorus="@, p.chorus) + prefixed(
        "flanger="@,
        p.flanger,
    ) + prefixed("aphaser="@, p.phaser) + prefixed("tremolo="@, p.tremolo) + prefixed(
        "acompressor="@,
        p.compressor,
    ) + prefixed("anlmdn="@, p.noise_reduction) + prefixed(
        "afade=t=in:d="@,
        fixed_of(p.fade_in, 3),
    ) + prefixed("afade=t=out:d="@, fixed_of(p.fade_out, 3)) + prefixed(
        "acrossfade=d="@,
        fixed_of(p.cross_fade, 3),
    ) + match p.custom_filters {
        Some(f) => f,
        None => Seq::empty(),
    }
}

/// An option that is written as a flag and a value, if the value is there.
pub open spec fn flagged(flag: Seq<char>, value: Option<Seq<char>>) -> Seq<Seq<char>> {
    match value {
        Some(v) => seq![flag, v],
        None => Seq::empty(),
    }
}

/// The bit rate argument: the number and the letter `k`.
pub open spec fn bit_rate_text(o: Option<int>) -> Option<Seq<char>> {
    match o {
        Some(n) => Some(signed_numeral(n) + "k"@),
        None => None,
    }
}

/// The filter argument: the filters joined by commas, if there is any.
pub open spec fn filter_argument(filters: Seq<Seq<char>>) -> Option<Seq<char>> {
    if filters.len() == 0 {
        None
    } else {
        Some(joined(filters, ","@))
    }
}

/// The transcoder arguments of a record: the encoding options in their
/// fixed order, the filter chain, then the custom options.
pub open spec fn arguments_of(p: ParamsView, fallback: Decimal) -> Seq<Seq<char>> {
    flagged("-f"@, format_text(p.format)) + flagged("-c:a"@, p.codec) + flagged(
        "-ar"@,
        int_text(p.sample_rate),
    ) + flagged("-ac"@, int_text(p.channels)) + flagged("-b:a"@, bit_rate_text(p.bit_rate))
        + flagged("-q:a"@, fixed_of(p.quality, 1)) + flagged(
        "-compression_level"@,
        int_text(p.compression_level),
    ) + flagged("-ss"@, fixed_of(p.start_time, 3)) + flagged("-t"@, fixed_of(p.duration, 3))
        + flagged("-filter:a"@, filter_argument(filters_of(p, fallback))) + match p.custom_options {
        Some(o) => o,
        None => Seq::empty(),
    }
}

/// Appends `prefix` and the value, if the value is there.
fn push_prefixed(out: &mut Vec<String>, prefix: &str, value: Option<String>)
    ensures
        strings_view(final(out)@) == strings_view(old(out)@) + prefixed(prefix@, text_view(value)),
{
    let ghost before = strings_view(out@);
    match value {
        Some(v) => {
            let mut text: Vec<char> = Vec::new();
            push_str(&mut text, prefix);
            push_str(&mut text, v.as_str());
            out.push(string_of(&text));
            assert(strings_view(out@) =~= before + prefixed(prefix@, text_view(value)));
        },
        None => {
            assert(strings_view(out@) =~= before + prefixed(prefix@, text_view(value)));
        },
    }
}

/// Appends a flag and its value, if the value is there.
fn push_flagged(out: &mut Vec<String>, flag: &str, value: Option<String>)
    ensures
        strings_view(final(out)@) == strings_view(old(out)@) + flagged(flag@, text_view(value)),
{
    let ghost before = strings_view(out@);
    match value {
        Some(v) => {
            let ghost t = v@;
            out.push(copy_of(flag));
            out.push(v);
            assert(strings_view(out@) =~= before + seq![flag@, t]);
        },
        None => {
            assert(strings_view(out@) =~= before + flagged(flag@, text_view(value)));
        },
    }
}

/// Appends copies of the strings of an optional list.
fn push_strings(out: &mut Vec<String>, more: &Option<Vec<String>>)
    ensures
        strings_view(final(out)@) == strings_view(old(out)@) + match texts_view(*more) {
            Some(m) => m,
            None => Seq::empty(),
        },
{
    let ghost before = strings_view(out@);
    match more {
        Some(m) => {
            let ghost all = strings_view(m@);
            let mut i: usize = 0;
            while i < m.len()
                invariant
                    i <= m.len(),
                    all == strings_view(m@),
                    strings_view(out@) == before + all.take(i as int),
                decreases m.len() - i,
            {
                let ghost sofar = strings_view(out@);
                out.push(copy_of(m[i].as_str()));
                assert(strings_view(out@) =~= sofar.push(all[i as int]));
                assert(strings_view(out@) =~= before + all.take(i + 1));
                i += 1;
            }
            assert(all.take(m.len() as int) == all);
        },
        None => {
            assert(strings_view(out@) =~= before + Seq::<Seq<char>>::empty());
        },
    }
}

/// The text of an optional decimal with a fixed number of places.
fn fixed_string(o: Option<Decimal>, places: u8) -> (r: Option<String>)
    ensures
        text_view(r) == fixed_of(o, places as nat),
{
    match o {
        Some(d) => Some(d.format_fixed(places)),
        None => None,
    }
}

/// The text of a factor, unless it is absent or exactly one.
fn factor_string(o: Option<Decimal>, places: u8) -> (r: Option<String>)
    ensures
        text_view(r) == factor_text(o, places as nat),
{
    match o {
        Some(d) => if d.is_one() {
            None
        } else {
            Some(d.format_fixed(places))
        },
        None => None,
    }
}

impl Params {
    /// The filter expressions of the record, in order; `fallback` is the
    /// loudness target where the record asks for normalisation without one.
    pub fn collect_filters_with(&self, fallback: Decimal) -> (r: Vec<String>)
        ensures
            strings_view(r@) == filters_of(self@, fallback),
    {
        let mut out: Vec<String> = Vec::new();
        assert(strings_view(out@) =~= Seq::<Seq<char>>::empty());
        push_prefixed(&mut out, "atempo=", factor_string(self.speed, 3));
        assert(strings_view(out@) =~= prefixed("atempo="@, factor_text(self.speed, 3)));
        let ghost before = strings_view(out@);
        match self.reverse {
            Some(true) => {
                out.push(copy_of("areverse"));
                assert(strings_view(out@) =~= before + seq!["areverse"@]);
            },
            _ => {
                assert(strings_view(out@) =~= before + Seq::<Seq<char>>::empty());
            },
        }
        push_prefixed(&mut out, "volume=", factor_string(self.volume, 2));
        let loudness = match self.normalize {
            Some(true) => match self.normalize_level {
                Some(d) => Some(d.format_fixed(1)),
                None => Some(fallback.format_fixed(1)),
            },
            _ => None,
        };
        assert(text_view(loudness) == loudness_text(self@, fallback));
        push_prefixed(&mut out, "loudnorm=I=", loudness);
        push_prefixed(&mut out, "lowpass=f=", fixed_string(self.lowpass, 1));
        push_prefixed(&mut out, "highpass=f=", fixed_string(self.highpass, 1));
        push_prefixed(&mut out, "bandpass=", text_of(&self.bandpass));
        push_prefixed(&mut out, "bass=g=", fixed_string(self.bass, 1));
        push_prefixed(&mut out, "treble=g=", fixed_string(self.treble, 1));
        push_prefixed(&mut out, "aecho=", text_of(&self.echo));
        push_prefixed(&mut out, "chorus=", text_of(&self.chorus));
        push_prefixed(&mut out, "flanger=", text_of(&self.flanger));
        push_prefixed(&mut out, "aphaser=", text_of(&self.phaser));
        push_prefixed(&mut out, "tremolo=", text_of(&self.tremolo));
        push_prefixed(&mut out, "acompressor=", text_of(&self.compressor));
        push_prefixed(&mut out, "anlmdn=", text_of(&self.noise_reduction));
        push_prefixed(&mut out, "afade=t=in:d=", fixed_string(self.fade_in, 3));
        push_prefixed(&mut out, "afade=t=out:d=", fixed_string(self.fade_out, 3));
        push_prefixed(&mut out, "acrossfade=d=", fixed_string(self.cross_fade, 3));
        push_strings(&mut out, &self.custom_filters);
        out
    }

    /// The filter expressions of the record, with the usual loudness target
    /// of -16 where none is named.
    pub fn collect_filters(&self) -> (r: Vec<String>)
        ensures
            strings_view(r@) == filters_of(self@, Decimal::usual_level()),
    {
        self.collect_filters_with(Decimal::default_level())
    }

    /// The transcoder arguments of the record; `fallback` is the loudness
    /// target where the record asks for normalisation without one.
    pub fn to_ffmpeg_args_with(&self, fallback: Decimal) -> (r: Vec<String>)
        ensures
            strings_view(r@) == arguments_of(self@, fallback),
    {
        let mut out: Vec<String> = Vec::new();
        assert(strings_view(out@) =~= Seq::<Seq<char>>::empty());
        push_flagged(&mut out, "-f", format_string(self.format));
        assert(strings_view(out@) =~= flagged("-f"@, format_text(self.format)));
        push_flagged(&mut out, "-c:a", text_of(&self.codec));
        push_flagged(&mut out, "-ar", int_string(self.sample_rate));
        push_flagged(&mut out, "-ac", int_string(self.channels));
        let bit_rate = match self.bit_rate {
            Some(n) => {
                let mut text: Vec<char> = Vec::new();
                push_signed(&mut text, n as i64);
                push_str(&mut text, "k");
                Some(string_of(&text))
            },
            None => None,
        };
        assert(text_view(bit_rate) == bit_rate_text(int_view(self.bit_rate)));
        push_flagged(&mut out, "-b:a", bit_rate);
        push_flagged(&mut out, "-q:a", fixed_string(self.quality, 1));
        push_flagged(&mut out, "-compression_level", int_string(self.compression_level));
        push_flagged(&mut out, "-ss", fixed_string(self.start_time, 3));
        push_flagged(&mut out, "-t", fixed_string(self.duration, 3));
        let filters = self.collect_filters_with(fallback);
        let chain = if filters.len() == 0 {
            None
        } else {
            Some(join(&filters, ","))
        };
        assert(text_view(chain) == filter_argument(filters_of(self@, fallback)));
        push_flagged(&mut out, "-filter:a", chain);
        push_strings(&mut out, &self.custom_options);
        out
    }

    /// The transcoder arguments of the record, with the usual loudness
    /// target of -16 where none is named.
    pub fn to_ffmpeg_args(&self) -> (r: Vec<String>)
        ensures
            strings_view(r@) == arguments_of(self@, Decimal::usual_level()),
    {
        self.to_ffmpeg_args_with(Decimal::default_level())
    }
}


/// The part of `path` after its last `/`; the whole of it where it has none.
pub open spec fn last_segment(path: Seq<char>) -> Seq<char> {
    path.skip(last_index_of(path, '/') + 1)
}

/// `s` without the copies of `p` that it begins with.
pub open spec fn without_leading(s: Seq<char>, p: Seq<char>) -> Seq<char>
    decreases s.len(),
{
    if p.len() > 0 && has_prefix(s, p) {
        without_leading(s.skip(p.len() as int), p)
    } else {
        s
    }
}

/// What a query value says of a flag: set for `true` and `1`, clear for
/// anything else.
pub open spec fn read_flag(o: Option<Seq<char>>) -> Option<bool> {
    match o {
        Some(v) => Some(v == "true"@ || v == "1"@),
        None => None,
    }
}

/// What a query value says of an integer field: its number where it is a
/// numeral of a 32-bit integer, nothing otherwise.
pub open spec fn read_int(o: Option<Seq<char>>) -> Option<int> {
    match o {
        Some(v) => parsed_signed(v, 0x7fff_ffff),
        None => None,
    }
}

/// What a query value says of a decimal field: its number where it is a
/// decimal numeral, nothing otherwise.
pub open spec fn read_decimal(o: Option<Seq<char>>) -> Option<Decimal> {
    match o {
        Some(v) => match parsed_decimal(v) {
            Some((negative, micros)) => Some(Decimal::of(negative, micros)),
            None => None,
        },
        None => None,
    }
}

/// What a query value says of the format: the format it names, and `Mp3`
/// where it names none.
pub open spec fn read_format(o: Option<Seq<char>>) -> Option<AudioFormat> {
    match o {
        Some(v) => match format_named(v) {
            Some(f) => Some(f),
            None => Some(AudioFormat::Mp3),
        },
        None => None,
    }
}

/// The values of the entries whose names begin with `prefix`, in order.
pub open spec fn values_under(q: Seq<Pair>, prefix: Seq<char>) -> Seq<Seq<char>>
    decreases q.len(),
{
    if q.len() == 0 {
        Seq::empty()
    } else if has_prefix(q.last().0, prefix) {
        values_under(q.drop_last(), prefix).push(q.last().1)
    } else {
        values_under(q.drop_last(), prefix)
    }
}

/// The tags that a query sets: each entry whose name begins with `tag_`
/// sets the tag named by the rest of that name, later entries over earlier.
pub open spec fn tags_under(q: Seq<Pair>) -> Seq<Pair>
    decreases q.len(),
{
    if q.len() == 0 {
        Seq::empty()
    } else if has_prefix(q.last().0, "tag_"@) {
        inserted(
            tags_under(q.drop_last()),
            q.last().0.skip("tag_"@.len() as int),
            q.last().1,
        )
    } else {
        tags_under(q.drop_last())
    }
}

/// A list, or nothing where it is empty.
pub open spec fn unless_empty<A>(s: Seq<A>) -> Option<Seq<A>> {
    if s.len() == 0 {
        None
    } else {
        Some(s)
    }
}

/// The record that a path and a query denote.
pub open spec fn params_read(path: Seq<char>, q: Seq<Pair>) -> ParamsView {
    ParamsView {
        key: last_segment(path),
        format: read_format(lookup(q, "format"@)),
        codec: lookup(q, "codec"@),
        sample_rate: read_int(lookup(q, "sample_rate"@)),
        channels: read_int(lookup(q, "channels"@)),
        bit_rate: read_int(lookup(q, "bit_rate"@)),
        bit_depth: read_int(lookup(q, "bit_depth"@)),
        quality: read_decimal(lookup(q, "quality"@)),
        compression_level: read_int(lookup(q, "compression_level"@)),
        start_time: read_decimal(lookup(q, "start_time"@)),
        duration: read_decimal(lookup(q, "duration"@)),
        speed: read_decimal(lookup(q, "speed"@)),
        reverse: read_flag(lookup(q, "reverse"@)),
        volume: read_decimal(lookup(q, "volume"@)),
        normalize: read_flag(lookup(q, "normalize"@)),
        normalize_level: read_decimal(lookup(q, "normalize_level"@)),
        lowpass: read_decimal(lookup(q, "lowpass"@)),
        highpass: read_decimal(lookup(q, "highpass"@)),
        bandpass: lookup(q, "bandpass"@),
        bass: read_decimal(lookup(q, "bass"@)),
        treble: read_decimal(lookup(q, "treble"@)),
        echo: lookup(q, "echo"@),
        chorus: lookup(q, "chorus"@),
        flanger: lookup(q, "flanger"@),
        phaser: lookup(q, "phaser"@),
        tremolo: lookup(q, "tremolo"@),
        compressor: lookup(q, "compressor"@),
        noise_reduction: lookup(q, "noise_reduction"@),
        fade_in: read_decimal(lookup(q, "fade_in"@)),
        fade_out: read_decimal(lookup(q, "fade_out"@)),
        cross_fade: read_decimal(lookup(q, "cross_fade"@)),
        custom_filters: unless_empty(values_under(q, "filter_"@)),
        custom_options: unless_empty(values_under(q, "option_"@)),
        tags: unless_empty(tags_under(q)),
    }
}

/// The path part of a request target: what stands before its first `?`.
pub open spec fn target_path(s: Seq<char>) -> Seq<char> {
    s.take(first_index_of(s, '?'))
}

/// The query part of a request target: what stands between its first `?`
/// and the next one, or the end; empty where there is no `?`.
pub open spec fn target_query(s: Seq<char>) -> Seq<char> {
    let at = first_index_of(s, '?');
    if at < s.len() {
        let rest = s.skip(at + 1);
        rest.take(first_index_of(rest, '?'))
    } else {
        Seq::empty()
    }
}

/// The mapping that a query string denotes: its decoded pairs, a name that
/// comes again taking the later value.
pub open spec fn query_read(query: Seq<char>) -> Seq<Pair> {
    inserted_all(Seq::empty(), form_pairs(encode_utf8(query)))
}

/// A copy of the value stored under `name`.
fn get_text(query: &StringMap, name: &str) -> (r: Option<String>)
    ensures
        text_view(r) == lookup(query@, name@),
{
    match query.get(name) {
        Some(v) => Some(copy_of(v.as_str())),
        None => None,
    }
}

/// The integer stored under `name`.
fn get_int(query: &StringMap, name: &str) -> (r: Option<i32>)
    ensures
        int_view(r) == read_int(lookup(query@, name@)),
{
    match query.get(name) {
        Some(v) => {
            let c = chars_of(v.as_str());
            match parse_signed(&c, 0x7fff_ffff) {
                Some(n) => Some(n as i32),
                None => None,
            }
        },
        None => None,
    }
}

/// The decimal stored under `name`.
fn get_decimal(query: &StringMap, name: &str) -> (r: Option<Decimal>)
    ensures
        r == read_decimal(lookup(query@, name@)),
{
    match query.get(name) {
        Some(v) => Decimal::parse(v.as_str()),
        None => None,
    }
}

/// The flag stored under `name`.
fn get_flag(query: &StringMap, name: &str) -> (r: Option<bool>)
    ensures
        r == read_flag(lookup(query@, name@)),
{
    match query.get(name) {
        Some(v) => Some(same_text(v.as_str(), "true") || same_text(v.as_str(), "1")),
        None => None,
    }
}

/// The format stored under `name`.
fn get_format(query: &StringMap, name: &str) -> (r: Option<AudioFormat>)
    ensures
        r == read_format(lookup(query@, name@)),
{
    match query.get(name) {
        Some(v) => match AudioFormat::from_str(v.as_str()) {
            Ok(f) => Some(f),
            Err(_) => Some(AudioFormat::Mp3),
        },
        None => None,
    }
}

/// `s` without the copies of `p` that it begins with.
pub fn strip_leading(s: &Vec<char>, p: &str) -> (r: Vec<char>)
    ensures
        r@ == without_leading(s@, p@),
{
    let pc = chars_of(p);
    let mut at: usize = 0;
    if pc.len() == 0 {
        assert(s@.subrange(0, s.len() as int) == s@);
        return slice_of(s, 0, s.len());
    }
    assert(s@.skip(0) == s@);
    loop
        invariant
            at <= s.len(),
            pc@ == p@,
            pc.len() > 0,
            without_leading(s@, p@) == without_leading(s@.skip(at as int), p@),
        decreases s.len() - at,
    {
        let rest = slice_of(s, at, s.len());
        assert(rest@ == s@.skip(at as int));
        if !starts_with(&rest, p) {
            return rest;
        }
        assert(s@.skip(at as int).skip(pc.len() as int) == s@.skip(at + pc.len()));
        at = at + pc.len();
    }
}

/// The values of the entries whose names begin with `prefix`.
fn collect_under(query: &StringMap, prefix: &str) -> (r: Option<Vec<String>>)
    ensures
        texts_view(r) == unless_empty(values_under(query@, prefix@)),
{
    let ghost q = query@;
    let mut out: Vec<String> = Vec::new();
    let n = query.len();
    let mut i: usize = 0;
    while i < n
        invariant
            i <= n,
            n == q.len(),
            q == query@,
            strings_view(out@) == values_under(q.take(i as int), prefix@),
        decreases n - i,
    {
        proof {
            assert(q.take(i + 1).drop_last() == q.take(i as int));
            assert(q.take(i + 1).last() == q[i as int]);
        }
        let name = chars_of(query.key_at(i).as_str());
        if starts_with(&name, prefix) {
            let ghost before = strings_view(out@);
            out.push(copy_of(query.value_at(i).as_str()));
            assert(strings_view(out@) =~= before.push(q[i as int].1));
        }
        i += 1;
    }
    assert(q.take(n as int) == q);
    if out.len() == 0 {
        None
    } else {
        Some(out)
    }
}

/// The tags that the query sets.
fn collect_tags(query: &StringMap) -> (r: Option<StringMap>)
    ensures
        map_view(r) == unless_empty(tags_under(query@)),
{
    let ghost q = query@;
    let mut out = StringMap::new();
    let n = query.len();
    let mut i: usize = 0;
    while i < n
        invariant
            i <= n,
            n == q.len(),
            q == query@,
            out@ == tags_under(q.take(i as int)),
        decreases n - i,
    {
        proof {
            assert(q.take(i + 1).drop_last() == q.take(i as int));
            assert(q.take(i + 1).last() == q[i as int]);
        }
        let name = chars_of(query.key_at(i).as_str());
        if starts_with(&name, "tag_") {
            proof {
                reveal_strlit("tag_");
            }
            let tag = slice_of(&name, 4, name.len());
            out.insert(string_of(&tag), copy_of(query.value_at(i).as_str()));
        }
        i += 1;
    }
    assert(q.take(n as int) == q);
    if out.is_empty() {
        None
    } else {
        Some(out)
    }
}

impl Params {
    /// Reads a record from a path and a query mapping.
    ///
    /// The key is the last segment of the path. It must not be empty: a
    /// path that ends in `/`, or is empty, is refused. Every other field
    /// comes from the query, as [`params_read`] says; a value that cannot be
    /// read leaves its field unset, and names that mean nothing are passed
    /// over.
    pub fn from_path(path: &str, query: &StringMap) -> (r: Result<Params, String>)
        ensures
            match r {
                Ok(p) => last_segment(path@).len() > 0 && p@ == params_read(path@, query@),
                Err(msg) => last_segment(path@).len() == 0 && msg@ == "Invalid audio path"@,
            },
    {
        let p = chars_of(path);
        proof {
            lemma_last_index_of(p@, '/');
        }
        let start: usize = match find_last(&p, '/') {
            Some(i) => i + 1,
            None => 0,
        };
        let key = slice_of(&p, start, p.len());
        assert(key@ == last_segment(path@));
        if key.len() == 0 {
            return Err(copy_of("Invalid audio path"));
        }
        Ok(
            Params {
                key: string_of(&key),
                format: get_format(query, "format"),
                codec: get_text(query, "codec"),
                sample_rate: get_int(query, "sample_rate"),
                channels: get_int(query, "channels"),
                bit_rate: get_int(query, "bit_rate"),
                bit_depth: get_int(query, "bit_depth"),
                quality: get_decimal(query, "quality"),
                compression_level: get_int(query, "compression_level"),
                start_time: get_decimal(query, "start_time"),
                duration: get_decimal(query, "duration"),
                speed: get_decimal(query, "speed"),
                reverse: get_flag(query, "reverse"),
                volume: get_decimal(query, "volume"),
                normalize: get_flag(query, "normalize"),
                normalize_level: get_decimal(query, "normalize_level"),
                lowpass: get_decimal(query, "lowpass"),
                highpass: get_decimal(query, "highpass"),
                bandpass: get_text(query, "bandpass"),
                bass: get_decimal(query, "bass"),
                treble: get_decimal(query, "treble"),
                echo: get_text(query, "echo"),
                chorus: get_text(query, "chorus"),
                flanger: get_text(query, "flanger"),
                phaser: get_text(query, "phaser"),
                tremolo: get_text(query, "tremolo"),
                compressor: get_text(query, "compressor"),
                noise_reduction: get_text(query, "noise_reduction"),
                fade_in: get_decimal(query, "fade_in"),
                fade_out: get_decimal(query, "fade_out"),
                cross_fade: get_decimal(query, "cross_fade"),
                custom_filters: collect_under(query, "filter_"),
                custom_options: collect_under(query, "option_"),
                tags: collect_tags(query),
            },
        )
    }

    /// Reads a record from a path and a raw query string. The query string
    /// is decoded as a form; see [`Params::from_path`] for the rest.
    pub fn from_path_and_query(path: &str, query: &str) -> (r: Result<Params, String>)
        ensures
            match r {
                Ok(p) => last_segment(path@).len() > 0 && p@ == params_read(
                    path@,
                    query_read(query@),
                ),
                Err(msg) => last_segment(path@).len() == 0 && msg@ == "Invalid audio path"@,
            },
    {
        let pairs = parse_form(query);
        let map = StringMap::from_pairs(&pairs);
        Params::from_path(path, &map)
    }

    /// Reads a record from a request target: a path, and after the first `?`
    /// a query string.
    pub fn from_str(s: &str) -> (r: Result<Params, String>)
        ensures
            match r {
                Ok(p) => last_segment(target_path(s@)).len() > 0 && p@ == params_read(
                    target_path(s@),
                    query_read(target_query(s@)),
                ),
                Err(msg) => last_segment(target_path(s@)).len() == 0 && msg@
                    == "Invalid audio path"@,
            },
    {
        let all = chars_of(s);
        proof {
            lemma_first_index_of(all@, '?');
        }
        let at = find_first(&all, '?');
        let path = slice_of(&all, 0, at);
        let query = if at < all.len() {
            let rest = slice_of(&all, at + 1, all.len());
            proof {
                lemma_first_index_of(rest@, '?');
            }
            let end = find_first(&rest, '?');
            slice_of(&rest, 0, end)
        } else {
            Vec::new()
        };
        assert(path@ == target_path(s@));
        assert(query@ == target_query(s@));
        let path = string_of(&path);
        let query = string_of(&query);
        Params::from_path_and_query(path.as_str(), query.as_str())
    }

    /// Reads a record from a request target, as [`Params::from_str`] does,
    /// and says of a refusal that the path could not be read.
    pub fn try_from(value: &str) -> (r: Result<Params, String>)
        ensures
            match r {
                Ok(p) => last_segment(target_path(value@)).len() > 0 && p@ == params_read(
                    target_path(value@),
                    query_read(target_query(value@)),
                ),
                Err(msg) => last_segment(target_path(value@)).len() == 0 && msg@
                    == "Failed to parse path: "@ + "Invalid audio path"@,
            },
    {
        match Params::from_str(value) {
            Ok(p) => Ok(p),
            Err(e) => {
                let mut msg: Vec<char> = Vec::new();
                push_str(&mut msg, "Failed to parse path: ");
                push_str(&mut msg, e.as_str());
                Err(string_of(&msg))
            },
        }
    }

    /// The path of the record that bypasses signing: `unsafe/` and the
    /// canonical string.
    pub fn to_unsafe_string(p: &Params) -> (r: String)
        ensures
            r@ == "unsafe/"@ + canonical_of(p@),
    {
        let canonical = p.to_string();
        let mut out: Vec<char> = Vec::new();
        push_str(&mut out, "unsafe/");
        push_str(&mut out, canonical.as_str());
        string_of(&out)
    }

    /// The path of the record under a given signature: the signature, `/`,
    /// and the canonical string.
    pub fn signed_with(p: &Params, signature: &str) -> (r: String)
        ensures
            r@ == signature@ + "/"@ + canonical_of(p@),
    {
        let canonical = p.to_string();
        let mut out: Vec<char> = Vec::new();
        push_str(&mut out, signature);
        push_str(&mut out, "/");
        push_str(&mut out, canonical.as_str());
        string_of(&out)
    }

    /// The signed path of the record: what `signer` makes of the canonical
    /// string, `/`, and the canonical string.
    pub fn to_signed_string<S: Signer>(p: &Params, signer: S) -> (r: String)
        ensures
            exists|signature: Seq<char>| r@ == signature + "/"@ + canonical_of(p@),
    {
        let canonical = p.to_string();
        let signature = signer.sign(canonical.as_str());
        Params::signed_with(p, signature.as_str())
    }
}

} // verus!
