//! Entries ordered by their key, each key once: the spine of every table of
//! settings and of every register that is looked up by slug.

use vstd::prelude::*;
use vstd::string::*;
use crate::text::chars_of;

verus! {

/// Whether `a` comes before `b` when texts are ordered character by
/// character, a shorter text before its extensions.
pub open spec fn key_less(a: Seq<char>, b: Seq<char>) -> bool
    decreases a.len(),
{
    if b.len() == 0 {
        false
    } else if a.len() == 0 {
        true
    } else if a[0] != b[0] {
        (a[0] as int) < (b[0] as int)
    } else {
        key_less(a.skip(1), b.skip(1))
    }
}

/// Whether `a` comes before `b` when texts are ordered character by
/// character, a shorter text before its extensions.
pub fn text_before(a: &str, b: &str) -> (r: bool)
    ensures
        r == key_less(a@, b@),
{
    let x = chars_of(a);
    let y = chars_of(b);
    let mut i: usize = 0;
    proof {
        assert(x@.skip(0) =~= x@);
        assert(y@.skip(0) =~= y@);
    }
    while i < x.len() && i < y.len()
        invariant
            i <= x.len(),
            i <= y.len(),
            x@ == a@,
            y@ == b@,
            key_less(x@, y@) == key_less(x@.skip(i as int), y@.skip(i as int)),
        decreases x.len() - i,
    {
        proof {
            assert(x@.skip(i as int)[0] == x@[i as int]);
            assert(y@.skip(i as int)[0] == y@[i as int]);
            assert(x@.skip(i as int).skip(1) =~= x@.skip(i + 1));
            assert(y@.skip(i as int).skip(1) =~= y@.skip(i + 1));
        }
        if x[i] != y[i] {
            return x[i] < y[i];
        }
        i = i + 1;
    }
    i < y.len()
}

/// Whether the keys of `entries` strictly ascend.
pub open spec fn ascending<V>(entries: Seq<(Seq<char>, V)>) -> bool {
    forall|i: int, j: int|
        0 <= i < j < entries.len() ==> key_less(#[trigger] entries[i].0, #[trigger] entries[j].0)
}

/// The value that `entries` holds under `key`.
pub open spec fn lookup<V>(entries: Seq<(Seq<char>, V)>, key: Seq<char>) -> Option<V>
    decreases entries.len(),
{
    if entries.len() == 0 {
        None
    } else if entries.last().0 == key {
        Some(entries.last().1)
    } else {
        lookup(entries.drop_last(), key)
    }
}

/// The number of entries at the start of `entries` whose key comes before
/// `key`.
pub open spec fn rank<V>(entries: Seq<(Seq<char>, V)>, key: Seq<char>) -> int
    decreases entries.len(),
{
    if entries.len() == 0 {
        0
    } else if key_less(entries[0].0, key) {
        1 + rank(entries.skip(1), key)
    } else {
        0
    }
}

/// `entries` with `value` under `key`: in place of the entry of that key, or
/// as a new entry where the order of keys puts it.
pub open spec fn with_entry<V>(entries: Seq<(Seq<char>, V)>, key: Seq<char>, value: V) -> Seq<(Seq<char>, V)> {
    let r = rank(entries, key);
    if r < entries.len() && entries[r].0 == key {
        entries.update(r, (key, value))
    } else {
        entries.insert(r, (key, value))
    }
}

/// No text comes before itself.
pub proof fn lemma_key_less_irreflexive(a: Seq<char>)
    ensures
        !key_less(a, a),
    decreases a.len(),
{
    if a.len() > 0 {
        lemma_key_less_irreflexive(a.skip(1));
    }
}

/// The order of keys is transitive.
pub proof fn lemma_key_less_transitive(a: Seq<char>, b: Seq<char>, c: Seq<char>)
    requires
        key_less(a, b),
        key_less(b, c),
    ensures
        key_less(a, c),
    decreases a.len(),
{
    if a.len() > 0 && a[0] == b[0] && b[0] == c[0] {
        lemma_key_less_transitive(a.skip(1), b.skip(1), c.skip(1));
    }
}

/// Of two different texts one comes before the other.
pub proof fn lemma_key_less_total(a: Seq<char>, b: Seq<char>)
    ensures
        a == b || key_less(a, b) || key_less(b, a),
        !(key_less(a, b) && key_less(b, a)),
    decreases a.len(),
{
    if a.len() > 0 && b.len() > 0 && a[0] == b[0] {
        lemma_key_less_total(a.skip(1), b.skip(1));
        if a.skip(1) == b.skip(1) {
            assert(a =~= seq![a[0]] + a.skip(1));
            assert(b =~= seq![b[0]] + b.skip(1));
        }
    } else if a.len() == 0 && b.len() == 0 {
        assert(a =~= b);
    }
}

/// In ascending entries the entries whose key comes before `key` are the
/// first `p`, where `p` is the first position whose key does not.
pub proof fn lemma_rank<V>(entries: Seq<(Seq<char>, V)>, key: Seq<char>, p: int)
    requires
        0 <= p <= entries.len(),
        forall|k: int| 0 <= k < p ==> key_less(#[trigger] entries[k].0, key),
        p == entries.len() || !key_less(entries[p].0, key),
    ensures
        rank(entries, key) == p,
    decreases p,
{
    if p > 0 {
        let rest = entries.skip(1);
        assert(key_less(entries[0].0, key));
        assert forall|k: int| 0 <= k < p - 1 implies key_less(#[trigger] rest[k].0, key) by {
            assert(rest[k] == entries[k + 1]);
        }
        if p < entries.len() {
            assert(rest[p - 1] == entries[p]);
        }
        lemma_rank(rest, key, p - 1);
    }
}

/// The rank of a key splits ascending entries: before it the keys are
/// smaller, from it on they are not.
pub proof fn lemma_rank_splits<V>(entries: Seq<(Seq<char>, V)>, key: Seq<char>)
    requires
        ascending(entries),
    ensures
        0 <= rank(entries, key) <= entries.len(),
        forall|k: int| 0 <= k < rank(entries, key) ==> key_less(#[trigger] entries[k].0, key),
        forall|k: int|
            rank(entries, key) <= k < entries.len() ==> !key_less(#[trigger] entries[k].0, key),
    decreases entries.len(),
{
    if entries.len() > 0 {
        let rest = entries.skip(1);
        assert forall|i: int, j: int| 0 <= i < j < rest.len() implies key_less(
            #[trigger] rest[i].0,
            #[trigger] rest[j].0,
        ) by {
            assert(rest[i] == entries[i + 1]);
            assert(rest[j] == entries[j + 1]);
        }
        if key_less(entries[0].0, key) {
            lemma_rank_splits(rest, key);
            assert forall|k: int| 0 <= k < rank(entries, key) implies key_less(
                #[trigger] entries[k].0,
                key,
            ) by {
                if k > 0 {
                    assert(rest[k - 1] == entries[k]);
                }
            }
            assert forall|k: int| rank(entries, key) <= k < entries.len() implies !key_less(
                #[trigger] entries[k].0,
                key,
            ) by {
                assert(rest[k - 1] == entries[k]);
            }
        } else {
            assert forall|k: int| 0 <= k < entries.len() implies !key_less(
                #[trigger] entries[k].0,
                key,
            ) by {
                if k > 0 && key_less(entries[k].0, key) {
                    assert(key_less(entries[0].0, entries[k].0));
                    lemma_key_less_transitive(entries[0].0, entries[k].0, key);
                }
            }
        }
    }
}

/// In ascending entries a key is looked up to the value of the one entry
/// that has it.
pub proof fn lemma_lookup_found<V>(entries: Seq<(Seq<char>, V)>, i: int)
    requires
        ascending(entries),
        0 <= i < entries.len(),
    ensures
        lookup(entries, entries[i].0) == Some(entries[i].1),
    decreases entries.len(),
{
    let last = entries.len() - 1;
    if i < last {
        assert(key_less(entries[i].0, entries[last].0));
        lemma_key_less_irreflexive(entries[i].0);
        let front = entries.drop_last();
        assert forall|a: int, b: int| 0 <= a < b < front.len() implies key_less(
            #[trigger] front[a].0,
            #[trigger] front[b].0,
        ) by {
            assert(front[a] == entries[a]);
            assert(front[b] == entries[b]);
        }
        assert(front[i] == entries[i]);
        lemma_lookup_found(front, i);
    }
}

/// A key that no entry has is looked up to nothing, and a key that is
/// looked up to a value is the key of an entry with that value.
pub proof fn lemma_lookup_index<V>(entries: Seq<(Seq<char>, V)>, key: Seq<char>)
    ensures
        match lookup(entries, key) {
            Some(value) => exists|i: int|
                0 <= i < entries.len() && #[trigger] entries[i].0 == key && entries[i].1 == value,
            None => forall|i: int| 0 <= i < entries.len() ==> #[trigger] entries[i].0 != key,
        },
    decreases entries.len(),
{
    if entries.len() > 0 {
        let last = entries.len() - 1;
        if entries.last().0 == key {
            assert(entries[last].0 == key && entries[last].1 == entries.last().1);
        } else {
            let front = entries.drop_last();
            lemma_lookup_index(front, key);
            match lookup(front, key) {
                Some(value) => {
                    let i = choose|i: int|
                        0 <= i < front.len() && #[trigger] front[i].0 == key && front[i].1 == value;
                    assert(entries[i] == front[i]);
                },
                None => {
                    assert forall|i: int| 0 <= i < entries.len() implies #[trigger] entries[i].0
                        != key by {
                        if i < last {
                            assert(front[i] == entries[i]);
                        }
                    }
                },
            }
        }
    }
}

/// Putting a value under a key keeps the entries ascending, makes the key
/// look up to that value and leaves every other key as it was.
pub proof fn lemma_with_entry<V>(
    entries: Seq<(Seq<char>, V)>,
    key: Seq<char>,
    value: V,
    other: Seq<char>,
)
    requires
        ascending(entries),
    ensures
        ascending(with_entry(entries, key, value)),
        lookup(with_entry(entries, key, value), key) == Some(value),
        other != key ==> lookup(with_entry(entries, key, value), other) == lookup(entries, other),
{
    let r = rank(entries, key);
    let out = with_entry(entries, key, value);
    lemma_rank_splits(entries, key);
    if r < entries.len() && entries[r].0 == key {
        assert forall|i: int, j: int| 0 <= i < j < out.len() implies key_less(
            #[trigger] out[i].0,
            #[trigger] out[j].0,
        ) by {
            assert(out[i].0 == entries[i].0);
            assert(out[j].0 == entries[j].0);
        }
        lemma_lookup_found(out, r);
        if other != key {
            lemma_lookup_index(entries, other);
            lemma_lookup_index(out, other);
            match lookup(entries, other) {
                Some(n) => {
                    let i = choose|i: int|
                        0 <= i < entries.len() && #[trigger] entries[i].0 == other && entries[i].1
                            == n;
                    assert(out[i] == entries[i]);
                    lemma_lookup_found(out, i);
                },
                None => {
                    if lookup(out, other) is Some {
                        let i = choose|i: int|
                            0 <= i < out.len() && #[trigger] out[i].0 == other && out[i].1
                                == lookup(out, other)->Some_0;
                        assert(entries[i].0 == out[i].0);
                    }
                },
            }
        }
    } else {
        assert forall|i: int, j: int| 0 <= i < j < out.len() implies key_less(
            #[trigger] out[i].0,
            #[trigger] out[j].0,
        ) by {
            if j < r {
                assert(out[i] == entries[i]);
                assert(out[j] == entries[j]);
            } else if j == r {
                assert(out[i] == entries[i]);
            } else if i < r {
                assert(out[i] == entries[i]);
                assert(out[j] == entries[j - 1]);
                if i != j - 1 {
                    assert(key_less(entries[i].0, entries[j - 1].0));
                }
            } else if i == r {
                assert(out[j] == entries[j - 1]);
                lemma_key_less_total(entries[j - 1].0, key);
                if j - 1 > r {
                    assert(key_less(entries[r].0, entries[j - 1].0));
                    lemma_key_less_total(entries[r].0, key);
                    lemma_key_less_transitive(key, entries[r].0, entries[j - 1].0);
                }
            } else {
                assert(out[i] == entries[i - 1]);
                assert(out[j] == entries[j - 1]);
            }
        }
        lemma_lookup_found(out, r);
        if other != key {
            lemma_lookup_index(entries, other);
            lemma_lookup_index(out, other);
            match lookup(entries, other) {
                Some(n) => {
                    let i = choose|i: int|
                        0 <= i < entries.len() && #[trigger] entries[i].0 == other && entries[i].1
                            == n;
                    if i < r {
                        assert(out[i] == entries[i]);
                        lemma_lookup_found(out, i);
                    } else {
                        assert(out[i + 1] == entries[i]);
                        lemma_lookup_found(out, i + 1);
                    }
                },
                None => {
                    if lookup(out, other) is Some {
                        let i = choose|i: int|
                            0 <= i < out.len() && #[trigger] out[i].0 == other && out[i].1
                                == lookup(out, other)->Some_0;
                        if i < r {
                            assert(entries[i] == out[i]);
                        } else {
                            assert(entries[i - 1] == out[i]);
                        }
                    }
                },
            }
        }
    }
}

/// In ascending entries the entry at a position is the one that its key
/// ranks at.
pub proof fn lemma_rank_of_entry<V>(entries: Seq<(Seq<char>, V)>, at: int)
    requires
        ascending(entries),
        0 <= at < entries.len(),
    ensures
        rank(entries, entries[at].0) == at,
{
    lemma_key_less_irreflexive(entries[at].0);
    assert forall|k: int| 0 <= k < at implies key_less(#[trigger] entries[k].0, entries[at].0) by {
        assert(key_less(entries[k].0, entries[at].0));
    }
    lemma_rank(entries, entries[at].0, at);
}

/// Putting under a key the value that it has already changes nothing.
pub proof fn lemma_with_entry_same<V>(entries: Seq<(Seq<char>, V)>, key: Seq<char>, value: V)
    requires
        ascending(entries),
        lookup(entries, key) == Some(value),
    ensures
        with_entry(entries, key, value) == entries,
{
    lemma_lookup_index(entries, key);
    let i = choose|i: int|
        0 <= i < entries.len() && #[trigger] entries[i].0 == key && entries[i].1 == value;
    lemma_rank_of_entry(entries, i);
    assert(entries.update(i, (key, value)) =~= entries);
}

/// Ascending entries are told by what their keys look up to: two lists of
/// ascending entries in which every key looks up to the same are one list.
pub proof fn lemma_ascending_equal<V>(first: Seq<(Seq<char>, V)>, second: Seq<(Seq<char>, V)>)
    requires
        ascending(first),
        ascending(second),
        forall|key: Seq<char>| #[trigger] lookup(first, key) == lookup(second, key),
    ensures
        first == second,
{
    assert forall|i: int| 0 <= i < first.len() implies i < second.len() && #[trigger] first[i]
        == second[i] by {
        lemma_same_place(first, second, i);
    }
    if second.len() > first.len() {
        lemma_same_place(second, first, first.len() as int);
    }
    if first.len() > 0 {
        assert(first[first.len() - 1] == second[first.len() - 1]);
    }
    assert(first =~= second);
}

/// Where every key looks up to the same in two lists of ascending entries,
/// the entry at a position of the first stands at that position in the
/// second.
proof fn lemma_same_place<V>(first: Seq<(Seq<char>, V)>, second: Seq<(Seq<char>, V)>, at: int)
    requires
        ascending(first),
        ascending(second),
        forall|key: Seq<char>| #[trigger] lookup(first, key) == lookup(second, key),
        0 <= at < first.len(),
    ensures
        at < second.len(),
        first[at] == second[at],
    decreases at,
{
    let key = first[at].0;
    lemma_lookup_found(first, at);
    lemma_lookup_index(second, key);
    let j = choose|j: int|
        0 <= j < second.len() && #[trigger] second[j].0 == key && second[j].1 == first[at].1;
    if j < at {
        // The entries before `at` fill the places before `at` in the second
        // list too, so the key would stand twice in the first.
        if at > 0 {
            lemma_same_place(first, second, j);
            assert(first[j].0 == key);
            assert(key_less(first[j].0, first[at].0));
            lemma_key_less_irreflexive(key);
        }
    } else if j > at {
        // What stands at `at` in the second list comes before the key, so it
        // stands before `at` in the first, where the second has it too.
        let other = second[at].0;
        assert(key_less(other, second[j].0));
        lemma_lookup_found(second, at);
        lemma_lookup_index(first, other);
        let i = choose|i: int|
            0 <= i < first.len() && #[trigger] first[i].0 == other && first[i].1 == second[at].1;
        lemma_key_less_total(first[i].0, first[at].0);
        if i < at {
            lemma_same_place(first, second, i);
            assert(second[i].0 == other);
            assert(key_less(second[i].0, second[at].0));
            lemma_key_less_irreflexive(other);
        } else if i > at {
            assert(key_less(first[at].0, first[i].0));
        } else {
            lemma_key_less_irreflexive(key);
        }
    }
}

/// The order in which two different keys get their values does not
/// matter.
pub proof fn lemma_with_entry_commutes<V>(
    entries: Seq<(Seq<char>, V)>,
    one: Seq<char>,
    value: V,
    other: Seq<char>,
    second: V,
)
    requires
        ascending(entries),
        one != other,
    ensures
        with_entry(with_entry(entries, one, value), other, second) == with_entry(
            with_entry(entries, other, second),
            one,
            value,
        ),
{
    let left = with_entry(with_entry(entries, one, value), other, second);
    let right = with_entry(with_entry(entries, other, second), one, value);
    lemma_with_entry(entries, one, value, one);
    lemma_with_entry(entries, other, second, other);
    lemma_with_entry(with_entry(entries, one, value), other, second, one);
    lemma_with_entry(with_entry(entries, other, second), one, value, other);
    assert forall|key: Seq<char>| #[trigger] lookup(left, key) == lookup(right, key) by {
        lemma_with_entry(entries, one, value, key);
        lemma_with_entry(entries, other, second, key);
        lemma_with_entry(with_entry(entries, one, value), other, second, key);
        lemma_with_entry(with_entry(entries, other, second), one, value, key);
    }
    lemma_ascending_equal(left, right);
}

/// In ascending entries a key that the entry at its rank does not have is
/// looked up to nothing.
pub proof fn lemma_lookup_absent<V>(entries: Seq<(Seq<char>, V)>, key: Seq<char>)
    requires
        ascending(entries),
        rank(entries, key) == entries.len() || entries[rank(entries, key)].0 != key,
    ensures
        lookup(entries, key) is None,
{
    let p = rank(entries, key);
    lemma_rank_splits(entries, key);
    lemma_lookup_index(entries, key);
    if lookup(entries, key) is Some {
        let i = choose|i: int|
            0 <= i < entries.len() && #[trigger] entries[i].0 == key && entries[i].1 == lookup(
                entries,
                key,
            )->Some_0;
        lemma_key_less_irreflexive(key);
        if i > p {
            assert(key_less(entries[p].0, entries[i].0));
            lemma_key_less_total(entries[p].0, key);
        }
    }
}
/// The register that holds the given entries, a later entry in place of an
/// earlier one of the same slug.
pub open spec fn registered<V>(entries: Seq<(Seq<char>, V)>) -> Seq<(Seq<char>, V)>
    decreases entries.len(),
{
    if entries.len() == 0 {
        Seq::empty()
    } else {
        with_entry(registered(entries.drop_last()), entries.last().0, entries.last().1)
    }
}

/// Entries that ascend are registered as they stand.
pub proof fn lemma_registered_ascending<V>(entries: Seq<(Seq<char>, V)>)
    requires
        ascending(entries),
    ensures
        registered(entries) == entries,
    decreases entries.len(),
{
    if entries.len() > 0 {
        let front = entries.drop_last();
        let last = entries.last();
        assert forall|a: int, b: int| 0 <= a < b < front.len() implies key_less(
            #[trigger] front[a].0,
            #[trigger] front[b].0,
        ) by {
            assert(front[a] == entries[a]);
            assert(front[b] == entries[b]);
        }
        lemma_registered_ascending(front);
        assert forall|k: int| 0 <= k < front.len() implies key_less(
            #[trigger] front[k].0,
            last.0,
        ) by {
            assert(front[k] == entries[k]);
            assert(last == entries[entries.len() - 1]);
        }
        lemma_rank(front, last.0, front.len() as int);
        assert(front.insert(front.len() as int, last) =~= entries);
    }
}


/// Putting a value under a key adds one entry where the key is new and
/// none where it is not.
pub proof fn lemma_with_entry_len<V>(entries: Seq<(Seq<char>, V)>, key: Seq<char>, value: V)
    requires
        ascending(entries),
    ensures
        with_entry(entries, key, value).len() == if lookup(entries, key) is Some {
            entries.len()
        } else {
            entries.len() + 1
        },
{
    let r = rank(entries, key);
    lemma_rank_splits(entries, key);
    if r < entries.len() && entries[r].0 == key {
        lemma_lookup_found(entries, r);
    } else {
        lemma_lookup_absent(entries, key);
    }
}

/// Keyed values as mathematics: each key as its text, each value as its
/// view.
pub open spec fn keyed_view<T: View>(entries: Seq<(String, T)>) -> Seq<(Seq<char>, T::V)> {
    Seq::new(entries.len(), |i: int| (entries[i].0@, entries[i].1@))
}

/// Values of one kind under text keys, ordered by key.
#[derive(Debug)]
pub struct SlugMap<T: View> {
    entries: Vec<(String, T)>,
}

impl<T: View> SlugMap<T> {
    #[verifier::type_invariant]
    spec fn ordered(self) -> bool {
        ascending(self.view())
    }

    /// The entries in the order of their keys, each value as its view.
    pub closed spec fn view(&self) -> Seq<(Seq<char>, T::V)> {
        Seq::new(self.entries@.len(), |i: int| (self.entries@[i].0@, self.entries@[i].1@))
    }

    /// A map without entries.
    pub fn new() -> (r: SlugMap<T>)
        ensures
            r@ == Seq::<(Seq<char>, T::V)>::empty(),
    {
        let r = SlugMap { entries: Vec::new() };
        assert(r@ =~= Seq::<(Seq<char>, T::V)>::empty());
        r
    }

    /// The map that holds the given entries, a later entry in place of an
    /// earlier one of the same key.
    pub fn from_entries(entries: Vec<(String, T)>) -> (r: SlugMap<T>)
        ensures
            r@ == registered(keyed_view(entries@)),
    {
        let ghost target = keyed_view(entries@);
        let mut map: SlugMap<T> = SlugMap::new();
        proof {
            assert(registered(target.take(0)) =~= map@);
        }
        for entry in it: entries
            invariant
                it.seq().len() == target.len(),
                forall|k: int|
                    0 <= k < target.len() ==> target[k] == ((#[trigger] it.seq()[k]).0@, it.seq()[k].1@),
                map@ == registered(target.take(it.index() as int)),
        {
            let ghost n = it.index() as int;
            proof {
                assert(target.take(n + 1).drop_last() =~= target.take(n));
                assert(target.take(n + 1).last() == target[n]);
            }
            let (key, item) = entry;
            map.insert(key, item);
        }
        proof {
            assert(target.take(target.len() as int) =~= target);
        }
        map
    }

    /// The number of entries.
    pub fn len(&self) -> (n: usize)
        ensures
            n == self@.len(),
            ascending(self@),
    {
        proof {
            use_type_invariant(self);
        }
        self.entries.len()
    }

    /// The key of the entry at `index`.
    pub fn key_at(&self, index: usize) -> (r: &str)
        requires
            index < self@.len(),
        ensures
            r@ == self@[index as int].0,
    {
        self.entries[index].0.as_str()
    }

    /// The value of the entry at `index`.
    pub fn item_at(&self, index: usize) -> (r: &T)
        requires
            index < self@.len(),
        ensures
            r@ == self@[index as int].1,
    {
        &self.entries[index].1
    }

    /// The position of the first entry whose key does not come before `key`.
    fn position(&self, key: &str) -> (p: usize)
        ensures
            p == rank(self@, key@),
            p <= self@.len(),
    {
        proof {
            use_type_invariant(self);
        }
        let mut p: usize = 0;
        while p < self.entries.len() && text_before(self.entries[p].0.as_str(), key)
            invariant
                p <= self.entries.len(),
                self.entries.len() == self@.len(),
                forall|k: int| 0 <= k < p ==> key_less(#[trigger] self@[k].0, key@),
            decreases self.entries.len() - p,
        {
            p = p + 1;
        }
        proof {
            lemma_rank(self@, key@, p as int);
        }
        p
    }

    /// The value under `key`, if the map has that key.
    pub fn get(&self, key: &str) -> (r: Option<&T>)
        ensures
            match r {
                Some(item) => lookup(self@, key@) == Some(item@),
                None => lookup(self@, key@) is None,
            },
    {
        proof {
            use_type_invariant(self);
        }
        let p = self.position(key);
        proof {
            lemma_rank_splits(self@, key@);
        }
        if p < self.entries.len() && *self.entries[p].0.as_str() == *key {
            proof {
                lemma_lookup_found(self@, p as int);
            }
            Some(&self.entries[p].1)
        } else {
            proof {
                lemma_lookup_absent(self@, key@);
            }
            None
        }
    }

    /// Whether the map has `key`.
    pub fn contains_key(&self, key: &str) -> (r: bool)
        ensures
            r == lookup(self@, key@) is Some,
    {
        self.get(key).is_some()
    }

    /// Puts `item` under `key`, in place of what was there.
    pub fn insert(&mut self, key: String, item: T)
        ensures
            final(self)@ == with_entry(old(self)@, key@, item@),
    {
        proof {
            use_type_invariant(&*self);
        }
        let p = self.position(key.as_str());
        let replaces = p < self.entries.len() && *self.entries[p].0.as_str() == *key.as_str();
        let ghost before = self@;
        proof {
            lemma_with_entry(before, key@, item@, key@);
        }
        let mut taken = SlugMap::new();
        core::mem::swap(self, &mut taken);
        let mut entries = taken.entries;
        let ghost key_view = key@;
        let ghost item_view = item@;
        if replaces {
            entries.set(p, (key, item));
        } else {
            entries.insert(p, (key, item));
        }
        proof {
            let out = SlugMap { entries };
            if replaces {
                assert(out@ =~= before.update(p as int, (key_view, item_view)));
            } else {
                assert(out@ =~= before.insert(p as int, (key_view, item_view)));
            }
        }
        *self = SlugMap { entries };
    }
}

} // verus!
