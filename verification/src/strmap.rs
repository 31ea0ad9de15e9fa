//! A small map from text to text that remembers the order of insertion.
//!
//! Tags and query parameters are few, and the order in which they are
//! written out must not change from run to run. Entries therefore live in a
//! vector: a name occurs at most once, and a name that is set again keeps its
//! place.

use vstd::prelude::*;
use crate::text::{chars_of, copy_of, same_text};

verus! {

/// One entry as plain text: name and value.
pub type Pair = (Seq<char>, Seq<char>);

/// Position of the first entry named `key`, or the length where there is none.
pub open spec fn position_of(entries: Seq<Pair>, key: Seq<char>) -> int
    decreases entries.len(),
{
    if entries.len() == 0 {
        0
    } else if entries[0].0 == key {
        0
    } else {
        1 + position_of(entries.drop_first(), key)
    }
}

/// The value stored under `key`, if any.
pub open spec fn lookup(entries: Seq<Pair>, key: Seq<char>) -> Option<Seq<char>> {
    let i = position_of(entries, key);
    if i < entries.len() {
        Some(entries[i].1)
    } else {
        None
    }
}

/// The entries after `key` has been set to `value`: an entry of that name
/// is replaced where it stands, a new name goes to the end.
pub open spec fn inserted(entries: Seq<Pair>, key: Seq<char>, value: Seq<char>) -> Seq<Pair> {
    let i = position_of(entries, key);
    if i < entries.len() {
        entries.update(i, (key, value))
    } else {
        entries.push((key, value))
    }
}

/// No two entries share a name.
pub open spec fn unique_names(entries: Seq<Pair>) -> bool {
    forall|i: int, j: int|
        0 <= i < j < entries.len() ==> (#[trigger] entries[i]).0 != (#[trigger] entries[j]).0
}

/// The entries that result from setting each pair of `pairs` in turn,
/// starting from `start`.
pub open spec fn inserted_all(start: Seq<Pair>, pairs: Seq<Pair>) -> Seq<Pair>
    decreases pairs.len(),
{
    if pairs.len() == 0 {
        start
    } else {
        inserted(inserted_all(start, pairs.drop_last()), pairs.last().0, pairs.last().1)
    }
}

/// `position_of` names the least position whose entry is named `key`.
pub proof fn lemma_position_of(entries: Seq<Pair>, key: Seq<char>)
    ensures
        0 <= position_of(entries, key) <= entries.len(),
        position_of(entries, key) < entries.len() ==> entries[position_of(entries, key)].0 == key,
        forall|j: int| 0 <= j < position_of(entries, key) ==> (#[trigger] entries[j]).0 != key,
    decreases entries.len(),
{
    if entries.len() != 0 && entries[0].0 != key {
        lemma_position_of(entries.drop_first(), key);
        let k = position_of(entries.drop_first(), key);
        assert forall|j: int| 0 <= j < 1 + k implies (#[trigger] entries[j]).0 != key by {
            if j > 0 {
                assert(entries.drop_first()[j - 1] == entries[j]);
            }
        }
    }
}

/// A position whose entry is named `key`, with no such entry before it, is
/// the one `position_of` names.
pub proof fn lemma_position_is(entries: Seq<Pair>, key: Seq<char>, i: int)
    requires
        0 <= i <= entries.len(),
        i < entries.len() ==> entries[i].0 == key,
        forall|j: int| 0 <= j < i ==> (#[trigger] entries[j]).0 != key,
    ensures
        position_of(entries, key) == i,
    decreases entries.len(),
{
    if entries.len() != 0 && entries[0].0 != key {
        assert forall|j: int| 0 <= j < i - 1 implies (#[trigger] entries.drop_first()[j]).0
            != key by {
            assert(entries.drop_first()[j] == entries[j + 1]);
        }
        if i < entries.len() {
            assert(entries.drop_first()[i - 1] == entries[i]);
        }
        lemma_position_is(entries.drop_first(), key, i - 1);
    }
}

/// Setting a name keeps names unique, and the name then has the new value.
pub proof fn lemma_inserted(entries: Seq<Pair>, key: Seq<char>, value: Seq<char>)
    requires
        unique_names(entries),
    ensures
        unique_names(inserted(entries, key, value)),
        lookup(inserted(entries, key, value), key) == Some(value),
        forall|other: Seq<char>|
            other != key ==> lookup(inserted(entries, key, value), other) == lookup(
                entries,
                other,
            ),
{
    lemma_position_of(entries, key);
    let i = position_of(entries, key);
    let after = inserted(entries, key, value);
    assert(unique_names(after)) by {
        assert forall|a: int, b: int| 0 <= a < b < after.len() implies (#[trigger] after[a]).0 != (
        #[trigger] after[b]).0 by {
            if i < entries.len() {
                assert(after[a].0 == entries[a].0);
                assert(after[b].0 == entries[b].0);
            } else {
                if b < entries.len() {
                    assert(after[a] == entries[a]);
                    assert(after[b] == entries[b]);
                } else {
                    assert(after[a] == entries[a]);
                }
            }
        }
    }
    lemma_position_is(after, key, i);
    assert forall|other: Seq<char>| other != key implies lookup(after, other) == lookup(
        entries,
        other,
    ) by {
        lemma_position_of(entries, other);
        let k = position_of(entries, other);
        if k < entries.len() {
            assert(after[k] == entries[k]);
        }
        assert forall|j: int| 0 <= j < k implies (#[trigger] after[j]).0 != other by {
            if j < entries.len() && j != i {
                assert(after[j] == entries[j]);
            }
        }
        if k == entries.len() && i == entries.len() {
            lemma_position_is(after, other, k + 1);
        } else {
            lemma_position_is(after, other, k);
        }
    }
}

/// The order of names: character by character, and a name before the
/// names that go on after it.
pub open spec fn name_before(a: Seq<char>, b: Seq<char>) -> bool
    decreases a.len(),
{
    if b.len() == 0 {
        false
    } else if a.len() == 0 {
        true
    } else if a[0] != b[0] {
        a[0] < b[0]
    } else {
        name_before(a.drop_first(), b.drop_first())
    }
}

/// The entries stand in the order of their names.
pub open spec fn ordered(entries: Seq<Pair>) -> bool {
    forall|i: int, j: int|
        0 <= i < j < entries.len() ==> name_before(
            (#[trigger] entries[i]).0,
            (#[trigger] entries[j]).0,
        )
}

/// The ordered entries with one more entry set in at its place.
pub open spec fn sorted_insert(entries: Seq<Pair>, entry: Pair) -> Seq<Pair>
    decreases entries.len(),
{
    if entries.len() == 0 {
        seq![entry]
    } else if name_before(entries.last().0, entry.0) {
        entries.push(entry)
    } else {
        sorted_insert(entries.drop_last(), entry).push(entries.last())
    }
}

/// The entries in the order of their names.
pub open spec fn sorted_by_name(entries: Seq<Pair>) -> Seq<Pair>
    decreases entries.len(),
{
    if entries.len() == 0 {
        Seq::empty()
    } else {
        sorted_insert(sorted_by_name(entries.drop_last()), entries.last())
    }
}

/// Two sets of entries say the same of every name.
pub open spec fn same_mapping(a: Seq<Pair>, b: Seq<Pair>) -> bool {
    forall|name: Seq<char>| #[trigger] lookup(a, name) == lookup(b, name)
}

/// Of two different names one comes before the other, and never both
/// ways; no name comes before itself.
pub proof fn lemma_name_order_total(a: Seq<char>, b: Seq<char>)
    ensures
        a == b || name_before(a, b) || name_before(b, a),
        !(name_before(a, b) && name_before(b, a)),
        a == b ==> !name_before(a, b),
    decreases a.len(),
{
    if a.len() == 0 || b.len() == 0 {
        if a.len() == 0 && b.len() == 0 {
            assert(a =~= b);
        }
    } else if a[0] == b[0] {
        lemma_name_order_total(a.drop_first(), b.drop_first());
        if a.drop_first() == b.drop_first() {
            assert(a =~= seq![a[0]] + a.drop_first());
            assert(b =~= seq![b[0]] + b.drop_first());
        }
    }
}

/// The order of names is transitive.
pub proof fn lemma_name_order_transitive(a: Seq<char>, b: Seq<char>, c: Seq<char>)
    requires
        name_before(a, b),
        name_before(b, c),
    ensures
        name_before(a, c),
    decreases a.len(),
{
    if a.len() != 0 {
        if a[0] == b[0] && b[0] == c[0] {
            lemma_name_order_transitive(a.drop_first(), b.drop_first(), c.drop_first());
        }
    }
}

/// Setting an entry into ordered entries at the position after the last
/// name that comes before its own gives `sorted_insert`.
proof fn lemma_sorted_insert_at(entries: Seq<Pair>, entry: Pair, i: int)
    requires
        0 <= i <= entries.len(),
        forall|j: int| i <= j < entries.len() ==> !name_before((#[trigger] entries[j]).0, entry.0),
        i > 0 ==> name_before(entries[i - 1].0, entry.0),
    ensures
        sorted_insert(entries, entry) == entries.insert(i, entry),
    decreases entries.len(),
{
    if entries.len() == 0 {
        assert(entries.insert(i, entry) =~= seq![entry]);
    } else if i == entries.len() {
        assert(entries.insert(i, entry) =~= entries.push(entry));
    } else {
        let rest = entries.drop_last();
        assert(!name_before(entries[entries.len() - 1].0, entry.0));
        assert forall|j: int| i <= j < rest.len() implies !name_before(
            (#[trigger] rest[j]).0,
            entry.0,
        ) by {
            assert(rest[j] == entries[j]);
        }
        if i > 0 {
            assert(rest[i - 1] == entries[i - 1]);
        }
        lemma_sorted_insert_at(rest, entry, i);
        assert(rest.insert(i, entry).push(entries.last()) =~= entries.insert(i, entry));
    }
}

/// Setting a new name into ordered entries keeps them ordered, and adds
/// that entry and nothing else.
proof fn lemma_sorted_insert(entries: Seq<Pair>, entry: Pair)
    requires
        ordered(entries),
        forall|i: int| 0 <= i < entries.len() ==> (#[trigger] entries[i]).0 != entry.0,
    ensures
        ordered(sorted_insert(entries, entry)),
        sorted_insert(entries, entry).len() == entries.len() + 1,
        forall|x: Pair| #[trigger]
            sorted_insert(entries, entry).contains(x) <==> (entries.contains(x) || x == entry),
    decreases entries.len(),
{
    let after = sorted_insert(entries, entry);
    if entries.len() == 0 {
        assert(after[0] == entry);
        assert forall|x: Pair| #[trigger] after.contains(x) <==> (entries.contains(x) || x
            == entry) by {}
    } else if name_before(entries.last().0, entry.0) {
        assert forall|i: int, j: int| 0 <= i < j < after.len() implies name_before(
            (#[trigger] after[i]).0,
            (#[trigger] after[j]).0,
        ) by {
            if j == entries.len() {
                if i < entries.len() - 1 {
                    assert(name_before(entries[i].0, entries[entries.len() - 1].0));
                    lemma_name_order_transitive(entries[i].0, entries.last().0, entry.0);
                }
            }
        }
        assert forall|x: Pair| #[trigger] after.contains(x) <==> (entries.contains(x) || x
            == entry) by {
            if entries.contains(x) {
                let k = choose|k: int| 0 <= k < entries.len() && entries[k] == x;
                assert(after[k] == x);
            }
            if x == entry {
                assert(after[entries.len() as int] == x);
            }
        }
    } else {
        let rest = entries.drop_last();
        let last = entries.last();
        assert forall|i: int, j: int| 0 <= i < j < rest.len() implies name_before(
            (#[trigger] rest[i]).0,
            (#[trigger] rest[j]).0,
        ) by {
            assert(rest[i] == entries[i] && rest[j] == entries[j]);
        }
        assert forall|i: int| 0 <= i < rest.len() implies (#[trigger] rest[i]).0 != entry.0 by {
            assert(rest[i] == entries[i]);
        }
        lemma_sorted_insert(rest, entry);
        let inner = sorted_insert(rest, entry);
        assert(entries[entries.len() - 1].0 != entry.0);
        lemma_name_order_total(last.0, entry.0);
        assert(name_before(entry.0, last.0));
        assert forall|i: int, j: int| 0 <= i < j < after.len() implies name_before(
            (#[trigger] after[i]).0,
            (#[trigger] after[j]).0,
        ) by {
            if j == inner.len() {
                let x = inner[i];
                assert(inner.contains(x));
                if x != entry {
                    let k = choose|k: int| 0 <= k < rest.len() && rest[k] == x;
                    assert(entries[k] == x);
                    assert(name_before(entries[k].0, entries[entries.len() - 1].0));
                }
            } else {
                assert(after[i] == inner[i] && after[j] == inner[j]);
            }
        }
        assert forall|x: Pair| #[trigger] after.contains(x) <==> (entries.contains(x) || x
            == entry) by {
            if after.contains(x) {
                let k = choose|k: int| 0 <= k < after.len() && after[k] == x;
                if k < inner.len() {
                    assert(inner[k] == x);
                    assert(inner.contains(x));
                    if rest.contains(x) {
                        let r = choose|r: int| 0 <= r < rest.len() && rest[r] == x;
                        assert(entries[r] == x);
                    }
                } else {
                    assert(entries[entries.len() - 1] == x);
                }
            }
            if entries.contains(x) {
                let k = choose|k: int| 0 <= k < entries.len() && entries[k] == x;
                if k < rest.len() {
                    assert(rest[k] == x);
                    assert(rest.contains(x));
                    assert(inner.contains(x));
                    let r = choose|r: int| 0 <= r < inner.len() && inner[r] == x;
                    assert(after[r] == x);
                } else {
                    assert(after[inner.len() as int] == x);
                }
            }
            if x == entry {
                assert(inner.contains(x));
                let r = choose|r: int| 0 <= r < inner.len() && inner[r] == x;
                assert(after[r] == x);
            }
        }
    }
}

/// Entries with unique names, put in order, are ordered and still the same
/// entries.
pub proof fn lemma_sorted_by_name(entries: Seq<Pair>)
    requires
        unique_names(entries),
    ensures
        ordered(sorted_by_name(entries)),
        sorted_by_name(entries).len() == entries.len(),
        forall|x: Pair| #[trigger] sorted_by_name(entries).contains(x) <==> entries.contains(x),
    decreases entries.len(),
{
    if entries.len() != 0 {
        let rest = entries.drop_last();
        let last = entries.last();
        assert forall|i: int, j: int| 0 <= i < j < rest.len() implies (#[trigger] rest[i]).0 != (
        #[trigger] rest[j]).0 by {
            assert(rest[i] == entries[i] && rest[j] == entries[j]);
        }
        lemma_sorted_by_name(rest);
        let inner = sorted_by_name(rest);
        assert forall|i: int| 0 <= i < inner.len() implies (#[trigger] inner[i]).0 != last.0 by {
            assert(inner.contains(inner[i]));
            let k = choose|k: int| 0 <= k < rest.len() && rest[k] == inner[i];
            assert(entries[k] == inner[i]);
            assert(entries[k].0 != entries[entries.len() - 1].0);
        }
        lemma_sorted_insert(inner, last);
        let after = sorted_by_name(entries);
        assert forall|x: Pair| #[trigger] after.contains(x) <==> entries.contains(x) by {
            if entries.contains(x) {
                let k = choose|k: int| 0 <= k < entries.len() && entries[k] == x;
                if k < rest.len() {
                    assert(rest[k] == x);
                    assert(rest.contains(x));
                }
            }
            if rest.contains(x) {
                let k = choose|k: int| 0 <= k < rest.len() && rest[k] == x;
                assert(entries[k] == x);
            }
            if x == last {
                assert(entries[entries.len() - 1] == x);
            }
        }
    }
}

/// Ordered entries are fixed by what they hold: two ordered sequences
/// with the same entries are equal.
pub proof fn lemma_ordered_unique(a: Seq<Pair>, b: Seq<Pair>)
    requires
        ordered(a),
        ordered(b),
        forall|x: Pair| #[trigger] a.contains(x) <==> b.contains(x),
    ensures
        a == b,
    decreases a.len(),
{
    if a.len() == 0 {
        if b.len() > 0 {
            assert(b.contains(b[0]));
            assert(a.contains(b[0]));
        }
        assert(a =~= b);
    } else {
        let x = a.last();
        assert(a[a.len() - 1] == x);
        assert(a.contains(x));
        assert(b.contains(x));
        let j = choose|j: int| 0 <= j < b.len() && b[j] == x;
        let y = b.last();
        assert(b[b.len() - 1] == y);
        assert(b.contains(y));
        assert(a.contains(y));
        let i = choose|i: int| 0 <= i < a.len() && a[i] == y;
        lemma_name_order_total(x.0, y.0);
        if j < b.len() - 1 {
            assert(name_before(b[j].0, b[b.len() - 1].0));
            if i < a.len() - 1 {
                assert(name_before(a[i].0, a[a.len() - 1].0));
            }
        }
        assert(x == y);
        let ra = a.drop_last();
        let rb = b.drop_last();
        assert forall|i: int, j: int| 0 <= i < j < ra.len() implies name_before(
            (#[trigger] ra[i]).0,
            (#[trigger] ra[j]).0,
        ) by {
            assert(ra[i] == a[i] && ra[j] == a[j]);
        }
        assert forall|i: int, j: int| 0 <= i < j < rb.len() implies name_before(
            (#[trigger] rb[i]).0,
            (#[trigger] rb[j]).0,
        ) by {
            assert(rb[i] == b[i] && rb[j] == b[j]);
        }
        assert forall|z: Pair| #[trigger] ra.contains(z) <==> rb.contains(z) by {
            if ra.contains(z) {
                let k = choose|k: int| 0 <= k < ra.len() && ra[k] == z;
                assert(a[k] == z);
                assert(name_before(a[k].0, a[a.len() - 1].0));
                lemma_name_order_total(z.0, x.0);
                assert(a.contains(z));
                assert(b.contains(z));
                let m = choose|m: int| 0 <= m < b.len() && b[m] == z;
                assert(m < b.len() - 1);
                assert(rb[m] == z);
            }
            if rb.contains(z) {
                let k = choose|k: int| 0 <= k < rb.len() && rb[k] == z;
                assert(b[k] == z);
                assert(name_before(b[k].0, b[b.len() - 1].0));
                lemma_name_order_total(z.0, y.0);
                assert(b.contains(z));
                assert(a.contains(z));
                let m = choose|m: int| 0 <= m < a.len() && a[m] == z;
                assert(m < a.len() - 1);
                assert(ra[m] == z);
            }
        }
        lemma_ordered_unique(ra, rb);
        assert(a =~= ra.push(x));
        assert(b =~= rb.push(y));
    }
}

/// With unique names, an entry is held exactly where its name is looked up
/// to its value.
proof fn lemma_contains_is_lookup(entries: Seq<Pair>, x: Pair)
    requires
        unique_names(entries),
    ensures
        entries.contains(x) <==> lookup(entries, x.0) == Some(x.1),
{
    lemma_position_of(entries, x.0);
    let i = position_of(entries, x.0);
    if entries.contains(x) {
        let k = choose|k: int| 0 <= k < entries.len() && entries[k] == x;
        assert(entries[k].0 == x.0);
        if i < k {
            assert(entries[i].0 != entries[k].0);
        }
    }
    if lookup(entries, x.0) == Some(x.1) {
        assert(entries[i] == x);
    }
}

/// Entries that say the same of every name come out the same when they
/// are put in order, whatever order they were set in.
pub proof fn lemma_sorted_of_same_mapping(a: Seq<Pair>, b: Seq<Pair>)
    requires
        unique_names(a),
        unique_names(b),
        same_mapping(a, b),
    ensures
        sorted_by_name(a) == sorted_by_name(b),
{
    lemma_sorted_by_name(a);
    lemma_sorted_by_name(b);
    assert forall|x: Pair| #[trigger]
        sorted_by_name(a).contains(x) <==> sorted_by_name(b).contains(x) by {
        lemma_contains_is_lookup(a, x);
        lemma_contains_is_lookup(b, x);
        assert(lookup(a, x.0) == lookup(b, x.0));
    }
    lemma_ordered_unique(sorted_by_name(a), sorted_by_name(b));
}

/// The entries of a vector of owned pairs, as plain text.
pub open spec fn pair_views(pairs: Seq<(String, String)>) -> Seq<Pair> {
    Seq::new(pairs.len(), |i: int| (pairs[i].0@, pairs[i].1@))
}

/// Whether the name `a` comes before the name `b`.
pub fn name_less(a: &str, b: &str) -> (r: bool)
    ensures
        r == name_before(a@, b@),
{
    let x = chars_of(a);
    let y = chars_of(b);
    let mut i: usize = 0;
    assert(x@.skip(0) == x@ && y@.skip(0) == y@);
    while i < x.len() && i < y.len()
        invariant
            i <= x.len(),
            i <= y.len(),
            x@ == a@,
            y@ == b@,
            name_before(x@, y@) == name_before(x@.skip(i as int), y@.skip(i as int)),
        decreases x.len() - i,
    {
        if x[i] != y[i] {
            assert(x@.skip(i as int)[0] == x@[i as int]);
            assert(y@.skip(i as int)[0] == y@[i as int]);
            return x[i] < y[i];
        }
        assert(x@.skip(i as int).drop_first() == x@.skip(i + 1));
        assert(y@.skip(i as int).drop_first() == y@.skip(i + 1));
        i += 1;
    }
    i < y.len()
}

/// A map from text to text that keeps its entries in order of insertion.
#[derive(Debug)]
pub struct StringMap {
    entries: Vec<(String, String)>,
}

impl View for StringMap {
    type V = Seq<Pair>;

    closed spec fn view(&self) -> Seq<Pair> {
        pair_views(self.entries@)
    }
}

impl StringMap {
    #[verifier::type_invariant]
    spec fn well_formed(self) -> bool {
        unique_names(self@)
    }

    /// The map without entries.
    pub fn new() -> (r: StringMap)
        ensures
            r@ == Seq::<Pair>::empty(),
    {
        let r = StringMap { entries: Vec::new() };
        assert(r@ =~= Seq::<Pair>::empty());
        r
    }

    /// The number of entries.
    pub fn len(&self) -> (r: usize)
        ensures
            r == self@.len(),
            unique_names(self@),
    {
        proof {
            use_type_invariant(self);
        }
        self.entries.len()
    }

    /// Whether there is no entry.
    pub fn is_empty(&self) -> (r: bool)
        ensures
            r == (self@.len() == 0),
    {
        self.entries.len() == 0
    }

    /// The name of the entry at position `i`.
    pub fn key_at(&self, i: usize) -> (r: &String)
        requires
            i < self@.len(),
        ensures
            r@ == self@[i as int].0,
    {
        &self.entries[i].0
    }

    /// The value of the entry at position `i`.
    pub fn value_at(&self, i: usize) -> (r: &String)
        requires
            i < self@.len(),
        ensures
            r@ == self@[i as int].1,
    {
        &self.entries[i].1
    }

    /// The position of the entry named `key`, or the number of entries.
    fn find(&self, key: &str) -> (r: usize)
        ensures
            r == position_of(self@, key@),
            r <= self@.len(),
    {
        let mut i: usize = 0;
        while i < self.entries.len()
            invariant
                i <= self.entries.len(),
                forall|j: int| 0 <= j < i ==> (#[trigger] self@[j]).0 != key@,
            decreases self.entries.len() - i,
        {
            if same_text(self.entries[i].0.as_str(), key) {
                proof {
                    lemma_position_is(self@, key@, i as int);
                }
                return i;
            }
            i += 1;
        }
        proof {
            lemma_position_is(self@, key@, i as int);
        }
        i
    }

    /// The value stored under `key`, if any.
    pub fn get(&self, key: &str) -> (r: Option<&String>)
        ensures
            match r {
                Some(v) => lookup(self@, key@) == Some(v@),
                None => lookup(self@, key@) is None,
            },
    {
        let i = self.find(key);
        if i < self.entries.len() {
            Some(&self.entries[i].1)
        } else {
            None
        }
    }

    /// Whether an entry is named `key`.
    pub fn contains_key(&self, key: &str) -> (r: bool)
        ensures
            r == lookup(self@, key@).is_some(),
    {
        let i = self.find(key);
        i < self.entries.len()
    }

    /// Sets `key` to `value`. An entry of that name keeps its place and
    /// takes the new value; a new name goes to the end.
    pub fn insert(&mut self, key: String, value: String)
        ensures
            final(self)@ == inserted(old(self)@, key@, value@),
    {
        proof {
            use_type_invariant(&*self);
            lemma_inserted(self@, key@, value@);
        }
        let i = self.find(key.as_str());
        let ghost before = self@;
        let mut taken = StringMap { entries: Vec::new() };
        assert(taken@ =~= Seq::<Pair>::empty());
        core::mem::swap(self, &mut taken);
        let mut entries = taken.entries;
        if i < entries.len() {
            entries.set(i, (key, value));
        } else {
            entries.push((key, value));
        }
        assert(pair_views(entries@) =~= inserted(before, key@, value@));
        *self = StringMap { entries };
    }

    /// The map that results from setting each of `pairs` in turn.
    pub fn from_pairs(pairs: &Vec<(String, String)>) -> (r: StringMap)
        ensures
            r@ == inserted_all(Seq::<Pair>::empty(), pair_views(pairs@)),
    {
        let ghost all = pair_views(pairs@);
        let mut out = StringMap::new();
        let mut i: usize = 0;
        while i < pairs.len()
            invariant
                i <= pairs.len(),
                all == pair_views(pairs@),
                out@ == inserted_all(Seq::<Pair>::empty(), all.take(i as int)),
            decreases pairs.len() - i,
        {
            proof {
                let next = all.take(i + 1);
                assert(next.drop_last() == all.take(i as int));
                assert(next.last() == (pairs@[i as int].0@, pairs@[i as int].1@));
            }
            out.insert(copy_of(pairs[i].0.as_str()), copy_of(pairs[i].1.as_str()));
            i += 1;
        }
        assert(all.take(pairs.len() as int) == all);
        out
    }

    /// Copies of the entries, in the order of their names.
    pub fn sorted(&self) -> (r: Vec<(String, String)>)
        ensures
            pair_views(r@) == sorted_by_name(self@),
    {
        let mut out: Vec<(String, String)> = Vec::new();
        let mut n: usize = 0;
        assert(pair_views(out@) =~= sorted_by_name(self@.take(0)));
        while n < self.entries.len()
            invariant
                n <= self.entries.len(),
                self@.len() == self.entries@.len(),
                out@.len() == n,
                pair_views(out@) == sorted_by_name(self@.take(n as int)),
            decreases self.entries.len() - n,
        {
            let name = &self.entries[n].0;
            let ghost entry = self@[n as int];
            let ghost before = pair_views(out@);
            let mut i: usize = out.len();
            while i > 0 && !name_less(out[i - 1].0.as_str(), name.as_str())
                invariant
                    i <= out.len(),
                    before == pair_views(out@),
                    name@ == entry.0,
                    forall|j: int|
                        i <= j < out@.len() ==> !name_before((#[trigger] before[j]).0, entry.0),
                decreases i,
            {
                i -= 1;
            }
            proof {
                lemma_sorted_insert_at(before, entry, i as int);
                assert(self@.take(n + 1).drop_last() == self@.take(n as int));
                assert(self@.take(n + 1).last() == entry);
            }
            out.insert(i, (copy_of(name.as_str()), copy_of(self.entries[n].1.as_str())));
            assert(pair_views(out@) =~= before.insert(i as int, entry));
            n += 1;
        }
        assert(self@.take(self.entries.len() as int) == self@);
        out
    }

    /// A copy of the map.
    pub fn clone(&self) -> (r: StringMap)
        ensures
            r@ == self@,
    {
        proof {
            use_type_invariant(self);
        }
        let mut copy: Vec<(String, String)> = Vec::new();
        let mut i: usize = 0;
        while i < self.entries.len()
            invariant
                i <= self.entries.len(),
                copy@.len() == i,
                self@.len() == self.entries@.len(),
                pair_views(copy@) == self@.take(i as int),
            decreases self.entries.len() - i,
        {
            let ghost prev = copy@;
            copy.push((copy_of(self.entries[i].0.as_str()), copy_of(self.entries[i].1.as_str())));
            assert forall|j: int| 0 <= j < i + 1 implies pair_views(copy@)[j] == self@[j] by {
                if j < i {
                    assert(copy@[j] == prev[j]);
                    assert(pair_views(prev)[j] == self@.take(i as int)[j]);
                }
            }
            assert(pair_views(copy@) =~= self@.take(i + 1));
            i += 1;
        }
        assert(self@.take(self.entries.len() as int) == self@);
        let r = StringMap { entries: copy };
        r
    }
}

} // verus!
