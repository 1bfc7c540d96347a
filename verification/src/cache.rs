//! String interning.

use bimap::BiHashMap;
use std::collections::hash_map::RandomState;
use vstd::prelude::*;

verus! {

/// Lightweight unique key for a string.
#[derive(Copy, Clone, Debug, Hash, PartialEq, Eq, Structural)]
pub struct StringKey(pub usize);

impl StringKey {
    /// The key for the empty string. The same across all caches.
    pub fn empty() -> (k: StringKey)
        ensures
            k == StringKey(0),
    {
        StringKey(0)
    }
}

/// The two-way hash map of the crate `bimap`.
#[verifier::external_type_specification]
#[verifier::external_body]
#[verifier::reject_recursive_types(L)]
#[verifier::reject_recursive_types(R)]
#[verifier::reject_recursive_types(LS)]
#[verifier::reject_recursive_types(RS)]
pub struct ExBiHashMap<L, R, LS, RS>(BiHashMap<L, R, LS, RS>);

/// The two-way map of an interner: keys on the left, strings on the right.
pub type NameMap = BiHashMap<usize, String, RandomState, RandomState>;

/// The pairs that a two-way map holds, as a map from the left value of each
/// pair to the text of its right value.
pub uninterp spec fn pairs(map: NameMap) -> Map<
    usize,
    Seq<char>,
>;

/// The map without a pair.
pub open spec fn no_pairs() -> Map<usize, Seq<char>> {
    Map::empty()
}

/// Whether no pair of `held` but the one at `left` has the text `right`.
pub open spec fn right_is_free(held: Map<usize, Seq<char>>, left: usize, right: Seq<char>) -> bool {
    forall|k: usize| held.contains_key(k) && k != left ==> held[k] != right
}

/// `BiHashMap::new`: a map without a pair.
#[verifier::external_body]
fn bimap_new() -> (map: NameMap)
    ensures
        pairs(map) == no_pairs(),
{
    BiHashMap::new()
}

/// `BiHashMap::len`: the number of pairs.
#[verifier::external_body]
fn bimap_len(map: &NameMap) -> (len: usize)
    ensures
        len == pairs(*map).dom().len(),
{
    map.len()
}

/// `BiHashMap::insert`: puts the pair in, after taking out the pair with the
/// same left value and the pair with the same right value. The contract
/// speaks of the case in which no other pair has the right value: the map
/// then holds what it held, with `left` now paired with `right`.
#[verifier::external_body]
fn bimap_insert(
    map: &mut NameMap,
    left: usize,
    right: String,
)
    ensures
        right_is_free(pairs(*old(map)), left, right@) ==> pairs(*final(map)) == pairs(
            *old(map),
        ).insert(left, right@),
{
    map.insert(left, right);
}

/// `BiHashMap::get_by_right`: the left value of the pair whose right value is
/// the given text, or `None` where no pair has it.
#[verifier::external_body]
fn bimap_get_by_right(
    map: &NameMap,
    right: &str,
) -> (left: Option<usize>)
    ensures
        match left {
            Some(k) => pairs(*map).contains_key(k) && pairs(*map)[k] == right@,
            None => forall|k: usize| pairs(*map).contains_key(k) ==> pairs(*map)[k] != right@,
        },
{
    map.get_by_right(right).copied()
}

/// `BiHashMap::get_by_left`: the right value of the pair whose left value is
/// given, or `None` where no pair has it.
#[verifier::external_body]
fn bimap_get_by_left(
    map: &NameMap,
    left: usize,
) -> (right: Option<&str>)
    ensures
        match right {
            Some(text) => pairs(*map).contains_key(left) && pairs(*map)[left] == text@,
            None => !pairs(*map).contains_key(left),
        },
{
    map.get_by_left(&left).map(String::as_str)
}

/// What an interner's list of strings always satisfies: the empty string has
/// key 0 and no string stands twice.
pub open spec fn names_ok(names: Seq<Seq<char>>) -> bool {
    &&& names.len() >= 1
    &&& names[0] == Seq::<char>::empty()
    &&& names.no_duplicates()
}

/// The key of `text` in `names`: its index where it is there, the next free
/// index where it is not.
pub open spec fn key_of(names: Seq<Seq<char>>, text: Seq<char>) -> int {
    if names.contains(text) {
        names.index_of(text)
    } else {
        names.len() as int
    }
}

/// The list of strings after `text` was interned.
pub open spec fn with_name(names: Seq<Seq<char>>, text: Seq<char>) -> Seq<Seq<char>> {
    if names.contains(text) {
        names
    } else {
        names.push(text)
    }
}

/// A list of strings that is in order stays so when a string is interned.
pub proof fn lemma_with_name_ok(names: Seq<Seq<char>>, text: Seq<char>)
    requires
        names_ok(names),
    ensures
        names_ok(with_name(names, text)),
        0 <= key_of(names, text) < with_name(names, text).len(),
        with_name(names, text)[key_of(names, text)] == text,
        forall|i: int| 0 <= i < names.len() ==> with_name(names, text)[i] == names[i],
{
    if names.contains(text) {
        let i = names.index_of(text);
        assert(names[i] == text);
    } else {
        let after = names.push(text);
        assert forall|i: int, j: int| 0 <= i < after.len() && 0 <= j < after.len() && i != j implies after[i]
            != after[j] by {
            if i < names.len() && j < names.len() {
            } else if i < names.len() {
                assert(names.contains(names[i]));
            } else {
                assert(names.contains(names[j]));
            }
        }
    }
}

/// Interning is idempotent: a string that was interned has the key it was
/// given, and interning it again changes nothing.
pub proof fn lemma_intern_idempotent(names: Seq<Seq<char>>, text: Seq<char>)
    requires
        names_ok(names),
    ensures
        key_of(with_name(names, text), text) == key_of(names, text),
        with_name(with_name(names, text), text) == with_name(names, text),
{
    lemma_with_name_ok(names, text);
    let after = with_name(names, text);
    let key = key_of(names, text);
    assert(after.contains(text)) by {
        assert(after[key] == text);
    }
    let found = after.index_of(text);
    assert(after[found] == text);
}

/// Interning is stable: the strings that were interned keep their keys when
/// another string is interned.
pub proof fn lemma_intern_stable(names: Seq<Seq<char>>, text: Seq<char>, other: Seq<char>)
    requires
        names_ok(names),
        names.contains(text),
    ensures
        key_of(with_name(names, other), text) == key_of(names, text),
        with_name(names, other)[key_of(names, text)] == text,
{
    lemma_with_name_ok(names, other);
    let after = with_name(names, other);
    let key = names.index_of(text);
    assert(names[key] == text);
    assert(after[key] == text);
    assert(after.contains(text));
    let found = after.index_of(text);
    assert(after[found] == text);
}

/// The interner: each string has one key, and each key one string.
pub struct StringCache {
    strings: NameMap,
}

impl StringCache {
    /// The interned strings, each at the index that is its key.
    pub closed spec fn view(&self) -> Seq<Seq<char>> {
        Seq::new(pairs(self.strings).dom().len(), |i: int| pairs(self.strings)[i as usize])
    }

    /// The keys in use are the numbers below the number of strings.
    pub closed spec fn wf(&self) -> bool {
        &&& pairs(self.strings).dom().finite()
        &&& forall|k: usize|
            pairs(self.strings).contains_key(k) <==> k < pairs(self.strings).dom().len()
        &&& names_ok(self@)
    }

    /// The list of strings of a well-formed interner is well formed.
    pub proof fn lemma_names_ok(&self)
        requires
            self.wf(),
        ensures
            names_ok(self@),
    {
    }

    /// Creates a new `StringCache`.
    pub fn new() -> (cache: StringCache)
        ensures
            cache.wf(),
            cache@ == seq![Seq::<char>::empty()],
    {
        let mut strings = bimap_new();
        let empty = String::new();
        assert(right_is_free(pairs(strings), 0, empty@));
        bimap_insert(&mut strings, 0, empty);
        let cache = StringCache { strings };
        proof {
            let held = pairs(cache.strings);
            assert(held.dom() =~= set![0usize]);
            assert(held.dom().len() == 1);
            assert(cache@ =~= seq![Seq::<char>::empty()]);
        }
        cache
    }

    /// Retrieve the key for the given string. The key is unique to this cache.
    pub fn intern(&mut self, str: &str) -> (key: StringKey)
        requires
            old(self).wf(),
        ensures
            final(self).wf(),
            key.0 == key_of(old(self)@, str@),
            final(self)@ == with_name(old(self)@, str@),
    {
        let ghost names = self@;
        let ghost held = pairs(self.strings);
        match bimap_get_by_right(&self.strings, str) {
            Some(k) => {
                proof {
                    assert(names[k as int] == str@);
                    assert(names.contains(str@));
                    let i = names.index_of(str@);
                    assert(names[i] == str@);
                }
                StringKey(k)
            },
            None => {
                let len = bimap_len(&self.strings);
                proof {
                    assert forall|i: int| 0 <= i < names.len() implies names[i] != str@ by {
                        assert(held.contains_key(i as usize));
                    }
                    assert(!names.contains(str@));
                    assert(right_is_free(held, len, str@));
                }
                bimap_insert(&mut self.strings, len, str.to_owned());
                proof {
                    let after = pairs(self.strings);
                    assert(after == held.insert(len, str@));
                    assert(after.dom() =~= held.dom().insert(len));
                    assert(after.dom().len() == len + 1);
                    assert(self@ =~= names.push(str@));
                    assert forall|i: int, j: int|
                        0 <= i < self@.len() && 0 <= j < self@.len() && i != j implies self@[i]
                        != self@[j] by {
                        if i < len && j < len {
                            assert(names[i] != names[j]);
                        }
                    }
                }
                StringKey(len)
            },
        }
    }

    /// Retrieve the string associated with the given key.
    pub fn get(&self, key: StringKey) -> (text: Option<&str>)
        requires
            self.wf(),
        ensures
            match text {
                Some(text) => key.0 < self@.len() && text@ == self@[key.0 as int],
                None => key.0 >= self@.len(),
            },
    {
        bimap_get_by_left(&self.strings, key.0)
    }

    /// The number of strings held, the empty one included.
    pub fn len(&self) -> (len: usize)
        requires
            self.wf(),
        ensures
            len == self@.len(),
    {
        bimap_len(&self.strings)
    }
}

} // verus!
