//! The metadata tags that every processed file carries.

use vstd::prelude::*;
use crate::strmap::{inserted_all, Pair, StringMap};
use crate::text::{chars_of, copy_of, push_str, string_of};

verus! {

/// The greatest length of a tag value, in bytes.
pub const MAX_TAG_VALUE_LENGTH: usize = 256;

/// The name under which the gateway signs its work.
pub const PROCESSOR_NAME: &'static str = "Cyberpunk";

/// The version of the gateway.
pub const VERSION: &'static str = "0.1.0";

/// Why a set of tags was refused.
#[derive(Debug)]
pub enum TagError {
    /// A tag name with a character that is no ASCII letter, digit or `_`,
    /// or an empty one.
    InvalidTagName(String),
    /// A tag value of more than 256 bytes.
    InvalidTagValue { name: String, value: String },
}

/// A character that may stand in a tag name.
pub open spec fn is_name_char(c: char) -> bool {
    ('a' <= c && c <= 'z') || ('A' <= c && c <= 'Z') || ('0' <= c && c <= '9') || c == '_'
}

/// A tag name: one or more ASCII letters, digits and underscores.
pub open spec fn is_tag_name(name: Seq<char>) -> bool {
    name.len() > 0 && forall|i: int| 0 <= i < name.len() ==> is_name_char(#[trigger] name[i])
}

/// The length of a text in UTF-8 bytes.
pub open spec fn byte_length(text: Seq<char>) -> nat {
    vstd::utf8::encode_utf8(text).len()
}

/// A tag that may be added: a proper name, and a value of at most 256 bytes.
pub open spec fn is_valid_tag(tag: Pair) -> bool {
    is_tag_name(tag.0) && byte_length(tag.1) <= 256
}

/// The position of the first tag that may not be added, or the number of
/// tags where all may.
pub open spec fn first_invalid(tags: Seq<Pair>) -> int
    decreases tags.len(),
{
    if tags.len() == 0 {
        0
    } else if !is_valid_tag(tags[0]) {
        0
    } else {
        1 + first_invalid(tags.drop_first())
    }
}

/// The tags that every file carries, before the custom ones.
pub open spec fn base_tags(timestamp: Seq<char>, host: Seq<char>) -> Seq<Pair> {
    seq![
        ("processor"@, "Cyberpunk"@),
        ("timestamp"@, timestamp),
        ("host"@, host),
        ("version"@, "0.1.0"@),
    ]
}

/// The merged tags: the base tags, with each custom tag set in turn.
pub open spec fn merged_tags(custom: Seq<Pair>, timestamp: Seq<char>, host: Seq<char>) -> Seq<
    Pair,
> {
    inserted_all(
        inserted_all(Seq::empty(), base_tags(timestamp, host)),
        custom,
    )
}

/// Whether `r` is what composing the tags comes to: the merged tags where
/// every custom tag is valid, and otherwise the refusal of the first that
/// is not, for its name if that is at fault, else for its value.
pub open spec fn is_composed(
    r: Result<StringMap, TagError>,
    custom: Seq<Pair>,
    timestamp: Seq<char>,
    host: Seq<char>,
) -> bool {
    let bad = first_invalid(custom);
    if bad == custom.len() {
        r matches Ok(m) && m@ == merged_tags(custom, timestamp, host)
    } else if !is_tag_name(custom[bad].0) {
        r matches Err(TagError::InvalidTagName(msg)) && msg@ == "Invalid tag name: "@
            + custom[bad].0
    } else {
        r matches Err(TagError::InvalidTagValue { name, value }) && name@ == custom[bad].0
            && value@ == custom[bad].1
    }
}

/// `first_invalid` names the first tag that is not valid.
pub proof fn lemma_first_invalid(tags: Seq<Pair>)
    ensures
        0 <= first_invalid(tags) <= tags.len(),
        first_invalid(tags) < tags.len() ==> !is_valid_tag(tags[first_invalid(tags)]),
        forall|j: int| 0 <= j < first_invalid(tags) ==> is_valid_tag(#[trigger] tags[j]),
    decreases tags.len(),
{
    if tags.len() != 0 && is_valid_tag(tags[0]) {
        lemma_first_invalid(tags.drop_first());
        let k = first_invalid(tags.drop_first());
        assert forall|j: int| 0 <= j < 1 + k implies is_valid_tag(#[trigger] tags[j]) by {
            if j > 0 {
                assert(tags.drop_first()[j - 1] == tags[j]);
            }
        }
    }
}

/// A position that is not valid, with only valid tags before it, is the
/// first invalid one.
proof fn lemma_first_invalid_is(tags: Seq<Pair>, i: int)
    requires
        0 <= i <= tags.len(),
        i < tags.len() ==> !is_valid_tag(tags[i]),
        forall|j: int| 0 <= j < i ==> is_valid_tag(#[trigger] tags[j]),
    ensures
        first_invalid(tags) == i,
    decreases tags.len(),
{
    if tags.len() != 0 && is_valid_tag(tags[0]) {
        assert forall|j: int| 0 <= j < i - 1 implies is_valid_tag(
            #[trigger] tags.drop_first()[j],
        ) by {
            assert(tags.drop_first()[j] == tags[j + 1]);
        }
        if i < tags.len() {
            assert(tags.drop_first()[i - 1] == tags[i]);
        }
        lemma_first_invalid_is(tags.drop_first(), i - 1);
    }
}

/// Whether `name` is a proper tag name.
pub fn valid_tag_name(name: &str) -> (r: bool)
    ensures
        r == is_tag_name(name@),
{
    let c = chars_of(name);
    if c.len() == 0 {
        return false;
    }
    let mut i: usize = 0;
    while i < c.len()
        invariant
            i <= c.len(),
            c@ == name@,
            forall|j: int| 0 <= j < i ==> is_name_char(#[trigger] c@[j]),
        decreases c.len() - i,
    {
        let x = c[i];
        let ok = ('a' <= x && x <= 'z') || ('A' <= x && x <= 'Z') || ('0' <= x && x <= '9') || x
            == '_';
        if !ok {
            assert(!is_name_char(c@[i as int]));
            return false;
        }
        i += 1;
    }
    true
}

/// Merges the tags of the process with the custom tags: `processor`,
/// `timestamp`, `host` and `version` first, then each custom tag, a custom
/// tag of one of those names taking its place. The first custom tag that is
/// not valid is refused, and nothing is merged.
pub fn compose_tags(custom_tags: &StringMap, timestamp: &str, host: &str) -> (r: Result<
    StringMap,
    TagError,
>)
    ensures
        is_composed(r, custom_tags@, timestamp@, host@),
{
    let ghost custom = custom_tags@;
    let ghost base = inserted_all(Seq::empty(), base_tags(timestamp@, host@));
    let mut tags = StringMap::new();
    tags.insert(copy_of("processor"), copy_of(PROCESSOR_NAME));
    tags.insert(copy_of("timestamp"), copy_of(timestamp));
    tags.insert(copy_of("host"), copy_of(host));
    tags.insert(copy_of("version"), copy_of(VERSION));
    proof {
        let b = base_tags(timestamp@, host@);
        assert(b.drop_last().drop_last().drop_last().drop_last() =~= Seq::<Pair>::empty());
        assert(b.drop_last().drop_last().drop_last().last() == b[0]);
        assert(b.drop_last().drop_last().last() == b[1]);
        assert(b.drop_last().last() == b[2]);
        assert(b.last() == b[3]);
        reveal_with_fuel(inserted_all, 5);
        assert(tags@ == base);
    }
    let n = custom_tags.len();
    let mut i: usize = 0;
    while i < n
        invariant
            i <= n,
            n == custom.len(),
            custom == custom_tags@,
            forall|j: int| 0 <= j < i ==> is_valid_tag(#[trigger] custom[j]),
            tags@ == inserted_all(base, custom.take(i as int)),
        decreases n - i,
    {
        let k = custom_tags.key_at(i);
        let v = custom_tags.value_at(i);
        if !valid_tag_name(k.as_str()) {
            proof {
                lemma_first_invalid_is(custom, i as int);
            }
            let mut msg: Vec<char> = Vec::new();
            push_str(&mut msg, "Invalid tag name: ");
            push_str(&mut msg, k.as_str());
            return Err(TagError::InvalidTagName(string_of(&msg)));
        }
        let size = v.as_str().as_bytes().len();
        assert(size == byte_length(v@));
        if size > MAX_TAG_VALUE_LENGTH {
            proof {
                lemma_first_invalid_is(custom, i as int);
            }
            return Err(
                TagError::InvalidTagValue {
                    name: copy_of(k.as_str()),
                    value: copy_of(v.as_str()),
                },
            );
        }
        proof {
            assert(custom.take(i + 1).drop_last() == custom.take(i as int));
            assert(custom.take(i + 1).last() == custom[i as int]);
            assert(is_valid_tag(custom[i as int]));
        }
        tags.insert(copy_of(k.as_str()), copy_of(v.as_str()));
        i += 1;
    }
    proof {
        assert(custom.take(n as int) == custom);
        lemma_first_invalid_is(custom, n as int);
    }
    Ok(tags)
}

/// The present moment as an RFC 3339 timestamp in UTC.
///
/// Trusted: nothing is claimed of what `chrono::Utc::now` and
/// `DateTime::to_rfc3339` give, as it depends on the clock.
#[verifier::external_body]
fn timestamp_now() -> (r: String) {
    chrono::Utc::now().to_rfc3339()
}

/// The name of the host the process runs on.
///
/// Trusted: nothing is claimed of what `gethostname::gethostname` gives,
/// as it depends on the machine.
#[verifier::external_body]
fn host_name() -> (r: String) {
    gethostname::gethostname().to_string_lossy().into_owned()
}

/// Merges the tags of the process with the custom tags, as
/// [`compose_tags`] does, under the present time and the name of this
/// host.
pub fn create_tags(custom_tags: &StringMap) -> (r: Result<StringMap, TagError>)
    ensures
        exists|timestamp: Seq<char>, host: Seq<char>|
            is_composed(r, custom_tags@, timestamp, host),
        r is Ok <==> first_invalid(custom_tags@) == custom_tags@.len(),
{
    let timestamp = timestamp_now();
    let host = host_name();
    let r = compose_tags(custom_tags, timestamp.as_str(), host.as_str());
    proof {
        lemma_first_invalid(custom_tags@);
        assert(is_composed(r, custom_tags@, timestamp@, host@));
    }
    r
}

} // verus!
