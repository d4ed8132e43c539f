//! Query parameters: the `application/x-www-form-urlencoded` serialization,
//! and `Params`, an ordered collection of key/value pairs in which no key
//! occurs twice.

use vstd::prelude::*;
use crate::text::{join_spec, str_eq};

verus! {

/// A key/value pair, as characters.
pub type PairView = (Seq<char>, Seq<char>);

/// Bytes that the urlencoded byte serializer writes as they are.
pub open spec fn byte_unchanged(b: u8) -> bool {
    b == 42 || b == 45 || b == 46 || (48 <= b && b <= 57) || (65 <= b && b <= 90) || b == 95 || (
    97 <= b && b <= 122)
}

/// An upper-case hexadecimal digit.
pub open spec fn hex_upper(d: int) -> char {
    if d < 10 {
        (48 + d) as char
    } else {
        (55 + d) as char
    }
}

/// How the urlencoded byte serializer writes one byte: unchanged bytes as
/// themselves, a space as `+`, any other byte as `%` and two upper-case
/// hexadecimal digits.
pub open spec fn serialize_byte(b: u8) -> Seq<char> {
    if byte_unchanged(b) {
        seq![b as char]
    } else if b == 32 {
        seq!['+']
    } else {
        seq!['%', hex_upper((b as int) / 16), hex_upper((b as int) % 16)]
    }
}

/// The urlencoded byte serialization of a byte sequence.
pub open spec fn serialize_bytes(bs: Seq<u8>) -> Seq<char>
    decreases bs.len(),
{
    if bs.len() == 0 {
        seq![]
    } else {
        serialize_bytes(bs.drop_last()) + serialize_byte(bs.last())
    }
}

/// The urlencoded serialization of a text: its UTF-8 bytes, serialized.
pub open spec fn form_encode_text(s: Seq<char>) -> Seq<char> {
    serialize_bytes(vstd::utf8::encode_utf8(s))
}

/// One pair, serialized as `key=value`.
pub open spec fn form_encode_pair(p: PairView) -> Seq<char> {
    form_encode_text(p.0) + seq!['='] + form_encode_text(p.1)
}

/// A sequence of pairs, serialized and joined with `&`.
pub open spec fn form_encode_pairs(ps: Seq<PairView>) -> Seq<char> {
    join_spec(ps.map_values(|p: PairView| form_encode_pair(p)), seq!['&'])
}

/// Whether some entry has the key `k`.
pub open spec fn has_key(e: Seq<PairView>, k: Seq<char>) -> bool {
    exists|i: int| 0 <= i < e.len() && (#[trigger] e[i]).0 == k
}

/// Whether no key occurs twice.
pub open spec fn keys_distinct(e: Seq<PairView>) -> bool {
    forall|i: int, j: int| 0 <= i < j < e.len() ==> (#[trigger] e[i]).0 != (#[trigger] e[j]).0
}

/// The position of the entry with key `k`.
pub open spec fn key_index(e: Seq<PairView>, k: Seq<char>) -> int {
    choose|i: int| 0 <= i < e.len() && (#[trigger] e[i]).0 == k
}

/// The entries after setting `k` to `v`: the value of an existing entry is
/// replaced in place, a new key is added at the end.
pub open spec fn insert_entry(e: Seq<PairView>, k: Seq<char>, v: Seq<char>) -> Seq<PairView> {
    if has_key(e, k) {
        e.update(key_index(e, k), (k, v))
    } else {
        e.push((k, v))
    }
}

/// The entries as a map from keys to values.
pub open spec fn entries_map(e: Seq<PairView>) -> Map<Seq<char>, Seq<char>> {
    Map::new(|k: Seq<char>| has_key(e, k), |k: Seq<char>| e[key_index(e, k)].1)
}

/// The value of the parameter `key`, or `default` where there is none.
pub open spec fn param_or(e: Seq<PairView>, key: Seq<char>, default: Seq<char>) -> Seq<char> {
    if entries_map(e).contains_key(key) {
        entries_map(e)[key]
    } else {
        default
    }
}

/// The entries obtained by setting each pair in turn, so that a later value
/// of a key replaces an earlier one.
pub open spec fn entries_from_pairs(ps: Seq<PairView>) -> Seq<PairView>
    decreases ps.len(),
{
    if ps.len() == 0 {
        seq![]
    } else {
        insert_entry(entries_from_pairs(ps.drop_last()), ps.last().0, ps.last().1)
    }
}

/// The map obtained by inserting each pair in turn into an empty map.
pub open spec fn map_from_pairs(ps: Seq<PairView>) -> Map<Seq<char>, Seq<char>>
    decreases ps.len(),
{
    if ps.len() == 0 {
        Map::empty()
    } else {
        map_from_pairs(ps.drop_last()).insert(ps.last().0, ps.last().1)
    }
}

proof fn lemma_key_index(e: Seq<PairView>, k: Seq<char>, i: int)
    requires
        keys_distinct(e),
        0 <= i < e.len(),
        e[i].0 == k,
    ensures
        key_index(e, k) == i,
{
    let j = key_index(e, k);
    assert(0 <= j < e.len() && e[j].0 == k);
    if j < i {
        assert(e[j].0 != e[i].0);
    } else if i < j {
        assert(e[i].0 != e[j].0);
    }
}

/// Setting a key keeps the keys distinct.
pub proof fn lemma_insert_keeps_keys_distinct(e: Seq<PairView>, k: Seq<char>, v: Seq<char>)
    requires
        keys_distinct(e),
    ensures
        keys_distinct(insert_entry(e, k, v)),
{
    let r = insert_entry(e, k, v);
    if has_key(e, k) {
        let x = key_index(e, k);
        assert forall|i: int, j: int| 0 <= i < j < r.len() implies (#[trigger] r[i]).0 != (
        #[trigger] r[j]).0 by {
            if i == x {
                assert(e[j].0 != e[x].0);
            } else if j == x {
                assert(e[i].0 != e[x].0);
            } else {
                assert(e[i].0 != e[j].0);
            }
        }
    } else {
        assert forall|i: int, j: int| 0 <= i < j < r.len() implies (#[trigger] r[i]).0 != (
        #[trigger] r[j]).0 by {
            if j == e.len() {
                assert(e[i] == r[i]);
                if e[i].0 == k {
                    assert(has_key(e, k));
                }
            } else {
                assert(e[i].0 != e[j].0);
            }
        }
    }
}

/// Setting a key on the entries is inserting it into their map.
pub proof fn lemma_insert_entry_map(e: Seq<PairView>, k: Seq<char>, v: Seq<char>)
    requires
        keys_distinct(e),
    ensures
        entries_map(insert_entry(e, k, v)) == entries_map(e).insert(k, v),
{
    let r = insert_entry(e, k, v);
    lemma_insert_keeps_keys_distinct(e, k, v);
    assert forall|q: Seq<char>| has_key(r, q) == (has_key(e, q) || q == k) by {
        if has_key(e, k) {
            let x = key_index(e, k);
            if has_key(e, q) {
                let i = key_index(e, q);
                if i == x {
                    assert(r[x].0 == k);
                } else {
                    assert(r[i].0 == q);
                }
            }
            if q == k {
                assert(r[x].0 == k);
            }
            if has_key(r, q) {
                let i = key_index(r, q);
                if i != x {
                    assert(e[i].0 == q);
                }
            }
        } else {
            if has_key(e, q) {
                let i = key_index(e, q);
                assert(r[i].0 == q);
            }
            if q == k {
                assert(r[e.len() as int].0 == k);
            }
            if has_key(r, q) {
                let i = key_index(r, q);
                if i < e.len() {
                    assert(e[i].0 == q);
                }
            }
        }
    }
    assert forall|q: Seq<char>| #[trigger] has_key(r, q) implies entries_map(r)[q] == (
    if q == k {
        v
    } else {
        entries_map(e)[q]
    }) by {
        let i = key_index(r, q);
        if q == k {
            if has_key(e, k) {
                lemma_key_index(r, k, key_index(e, k));
            } else {
                lemma_key_index(r, k, e.len() as int);
            }
        } else {
            let j = key_index(e, q);
            assert(r[j] == e[j]) by {
                if has_key(e, k) {
                    assert(j != key_index(e, k));
                }
            }
            lemma_key_index(r, q, j);
        }
    }
    assert(entries_map(r) =~= entries_map(e).insert(k, v));
}

/// Collecting pairs keeps the keys distinct, and gives the same map as
/// inserting the pairs in turn into a map: of a key that occurs several
/// times, the last value stays.
pub proof fn lemma_entries_from_pairs(ps: Seq<PairView>)
    ensures
        keys_distinct(entries_from_pairs(ps)),
        entries_map(entries_from_pairs(ps)) == map_from_pairs(ps),
    decreases ps.len(),
{
    if ps.len() == 0 {
        assert(entries_map(Seq::<PairView>::empty()) =~= Map::<Seq<char>, Seq<char>>::empty());
    } else {
        lemma_entries_from_pairs(ps.drop_last());
        let e = entries_from_pairs(ps.drop_last());
        lemma_insert_keeps_keys_distinct(e, ps.last().0, ps.last().1);
        lemma_insert_entry_map(e, ps.last().0, ps.last().1);
    }
}

/// Collecting pairs whose keys are already distinct gives them back
/// unchanged, in the same order.
pub proof fn lemma_entries_from_distinct_pairs(ps: Seq<PairView>)
    requires
        keys_distinct(ps),
    ensures
        entries_from_pairs(ps) == ps,
    decreases ps.len(),
{
    if ps.len() > 0 {
        let init = ps.drop_last();
        assert(keys_distinct(init)) by {
            assert forall|i: int, j: int| 0 <= i < j < init.len() implies (#[trigger] init[i]).0
                != (#[trigger] init[j]).0 by {
                assert(init[i] == ps[i] && init[j] == ps[j]);
            }
        }
        lemma_entries_from_distinct_pairs(init);
        assert(!has_key(init, ps.last().0)) by {
            if has_key(init, ps.last().0) {
                let i = choose|i: int| 0 <= i < init.len() && (#[trigger] init[i]).0 == ps.last().0;
                assert(ps[i] == init[i]);
                assert(ps[i].0 != ps[ps.len() - 1].0);
            }
        }
        assert(init.push(ps.last()) =~= ps);
    }
}

/// Query parameters: key/value pairs in the order in which their keys were
/// first set, no key occurring twice.
pub struct Params {
    entries: Vec<(String, String)>,
}

impl View for Params {
    type V = Seq<PairView>;

    closed spec fn view(&self) -> Seq<PairView> {
        self.entries.deep_view()
    }
}

impl Params {
    #[verifier::type_invariant]
    spec fn well_formed(self) -> bool {
        keys_distinct(self.entries.deep_view())
    }

    /// No parameters.
    pub fn new() -> (res: Params)
        ensures
            res@ == Seq::<PairView>::empty(),
    {
        let res = Params { entries: Vec::new() };
        assert(res@ =~= Seq::<PairView>::empty());
        res
    }

    /// The number of parameters.
    pub fn len(&self) -> (res: usize)
        ensures
            res == self@.len(),
    {
        self.entries.len()
    }

    /// The parameters as pairs, in order.
    pub fn entries(&self) -> (res: &Vec<(String, String)>)
        ensures
            res.deep_view() == self@,
            keys_distinct(self@),
    {
        proof {
            use_type_invariant(self);
        }
        &self.entries
    }

    /// The position of the parameter with key `key`, if there is one.
    fn position(&self, key: &str) -> (res: Option<usize>)
        ensures
            res is None ==> !has_key(self@, key@),
            res matches Some(i) ==> i < self@.len() && self@[i as int].0 == key@ && key_index(
                self@,
                key@,
            ) == i,
    {
        proof {
            use_type_invariant(self);
        }
        let mut i: usize = 0;
        while i < self.entries.len()
            invariant
                i <= self.entries.len(),
                self@ == self.entries.deep_view(),
                keys_distinct(self@),
                forall|j: int| 0 <= j < i ==> (#[trigger] self@[j]).0 != key@,
            decreases self.entries.len() - i,
        {
            if str_eq(self.entries[i].0.as_str(), key) {
                proof {
                    lemma_key_index(self@, key@, i as int);
                }
                return Some(i);
            }
            i = i + 1;
        }
        None
    }

    /// The value of the parameter with key `key`, if there is one.
    pub fn get(&self, key: &str) -> (res: Option<&String>)
        ensures
            res is Some == entries_map(self@).contains_key(key@),
            res matches Some(v) ==> v@ == entries_map(self@)[key@],
    {
        match self.position(key) {
            Some(i) => Some(&self.entries[i].1),
            None => None,
        }
    }

    /// The value of the parameter `key`, or `default` where there is none.
    pub fn get_or<'a>(&'a self, key: &str, default: &'a str) -> (res: &'a str)
        ensures
            res@ == param_or(self@, key@, default@),
    {
        match self.get(key) {
            Some(v) => v.as_str(),
            None => default,
        }
    }

    /// Sets the parameter `key` to `value`: an existing value is replaced in
    /// place, a new key is added at the end.
    pub fn insert(&mut self, key: String, value: String)
        ensures
            final(self)@ == insert_entry(old(self)@, key@, value@),
    {
        proof {
            use_type_invariant(&*self);
            lemma_insert_keeps_keys_distinct(self@, key@, value@);
        }
        let pos = self.position(key.as_str());
        let mut entries = Vec::new();
        std::mem::swap(&mut entries, &mut self.entries);
        let ghost old_entries = entries.deep_view();
        match pos {
            Some(i) => {
                entries.set(i, (key, value));
                assert(entries.deep_view() =~= old_entries.update(i as int, (key@, value@)));
            },
            None => {
                entries.push((key, value));
                assert(entries.deep_view() =~= old_entries.push((key@, value@)));
            },
        }
        self.entries = entries;
    }

    /// The parameters that setting each pair in turn gives: of a key that
    /// occurs several times, the position of its first occurrence and its
    /// last value stay.
    pub fn from_pairs(pairs: &Vec<(String, String)>) -> (res: Params)
        ensures
            res@ == entries_from_pairs(pairs.deep_view()),
    {
        let mut res = Params::new();
        let mut i: usize = 0;
        assert(pairs.deep_view().take(0) =~= Seq::<PairView>::empty());
        while i < pairs.len()
            invariant
                i <= pairs.len(),
                res@ == entries_from_pairs(pairs.deep_view().take(i as int)),
            decreases pairs.len() - i,
        {
            let k = pairs[i].0.clone();
            let v = pairs[i].1.clone();
            assert(pairs.deep_view().take(i + 1).drop_last() =~= pairs.deep_view().take(i as int));
            res.insert(k, v);
            i = i + 1;
        }
        assert(pairs.deep_view().take(pairs.len() as int) =~= pairs.deep_view());
        res
    }
}

} // verus!
