//! The trust store of SSH host keys: `host:port` to the key trusted for it, trusted on
//! first use after an explicit confirmation.
use vstd::prelude::*;

use crate::text::{
    chars_before, concat_text, decimal, decimal_text, lemma_before_irreflexive, lemma_before_total,
    lemma_decimal_has_no_colon, lemma_decimal_injective,
    lemma_before_transitive, same_text, text_before,
};

verus! {

/// A host key the user trusted, with when it was trusted (seconds since the Unix epoch).
#[derive(Debug)]
pub struct TrustedKey {
    pub openssh_key: String,
    pub fingerprint: String,
    pub algorithm: String,
    pub trusted_at: u64,
}

/// The value of a `TrustedKey`.
pub struct TrustedKeySpec {
    pub openssh_key: Seq<char>,
    pub fingerprint: Seq<char>,
    pub algorithm: Seq<char>,
    pub trusted_at: u64,
}

impl View for TrustedKey {
    type V = TrustedKeySpec;

    open spec fn view(&self) -> TrustedKeySpec {
        TrustedKeySpec {
            openssh_key: self.openssh_key@,
            fingerprint: self.fingerprint@,
            algorithm: self.algorithm@,
            trusted_at: self.trusted_at,
        }
    }
}

impl Clone for TrustedKey {
    fn clone(&self) -> (copy: Self)
        ensures
            copy@ == self@,
    {
        TrustedKey {
            openssh_key: self.openssh_key.clone(),
            fingerprint: self.fingerprint.clone(),
            algorithm: self.algorithm.clone(),
            trusted_at: self.trusted_at,
        }
    }
}

/// A trust-store entry: the host's key id and the key trusted for it.
pub type EntrySpec = (Seq<char>, TrustedKeySpec);

/// The values of a list of entries.
pub open spec fn entry_views(s: Seq<(String, TrustedKey)>) -> Seq<EntrySpec> {
    s.map_values(|e: (String, TrustedKey)| (e.0@, e.1@))
}

/// The entries' key ids are in strictly increasing order (so each occurs once).
pub open spec fn sorted_keys(s: Seq<EntrySpec>) -> bool {
    forall|i: int, j: int| 0 <= i < j < s.len() ==> chars_before(#[trigger] s[i].0, #[trigger] s[j].0)
}

/// Some entry of `s` is for `key`.
pub open spec fn has_key(s: Seq<EntrySpec>, key: Seq<char>) -> bool {
    exists|i: int| 0 <= i < s.len() && #[trigger] s[i].0 == key
}

/// The index of an entry of `s` for `key`, where there is one.
pub open spec fn index_of_key(s: Seq<EntrySpec>, key: Seq<char>) -> int {
    choose|i: int| 0 <= i < s.len() && #[trigger] s[i].0 == key
}

/// The map from key id to trusted key that a list of entries stands for.
pub open spec fn map_of(s: Seq<EntrySpec>) -> Map<Seq<char>, TrustedKeySpec> {
    Map::new(|key: Seq<char>| has_key(s, key), |key: Seq<char>| s[index_of_key(s, key)].1)
}

/// The map that inserting the entries of `s` one after the other, into an empty map, gives.
pub open spec fn map_of_pairs(s: Seq<EntrySpec>) -> Map<Seq<char>, TrustedKeySpec>
    decreases s.len(),
{
    if s.len() == 0 {
        Map::empty()
    } else {
        map_of_pairs(s.drop_last()).insert(s.last().0, s.last().1)
    }
}

/// What checking a presented key against the store answers: `None` for a host never
/// seen, else whether the presented key is the one trusted for it.
pub open spec fn check_result(known: Map<Seq<char>, TrustedKeySpec>, key_id: Seq<char>, openssh_key: Seq<char>) -> Option<bool> {
    if known.contains_key(key_id) {
        Some(known[key_id].openssh_key == openssh_key)
    } else {
        None
    }
}

/// In a sorted list, the entry at index `i` is the one the map gives for its key.
pub proof fn lemma_map_of_index(s: Seq<EntrySpec>, i: int)
    requires
        sorted_keys(s),
        0 <= i < s.len(),
    ensures
        map_of(s).contains_key(s[i].0),
        map_of(s)[s[i].0] == s[i].1,
{
    let key = s[i].0;
    assert(has_key(s, key));
    let j = index_of_key(s, key);
    assert(j == i) by {
        if j < i {
            assert(chars_before(s[j].0, s[i].0));
            lemma_before_irreflexive(key);
        } else if j > i {
            assert(chars_before(s[i].0, s[j].0));
            lemma_before_irreflexive(key);
        }
    }
    assert(map_of(s).contains_key(key));
    assert(map_of(s)[key] == s[index_of_key(s, key)].1);
}

/// Inserting an entry at a position that keeps the order keeps the list sorted.
proof fn lemma_sorted_insert(s: Seq<EntrySpec>, pos: int, e: EntrySpec)
    requires
        sorted_keys(s),
        0 <= pos <= s.len(),
        forall|j: int| 0 <= j < pos ==> chars_before(#[trigger] s[j].0, e.0),
        pos < s.len() ==> chars_before(e.0, s[pos].0),
    ensures
        sorted_keys(s.insert(pos, e)),
{
    let t = s.insert(pos, e);
    assert forall|a: int, b: int| 0 <= a < b < t.len() implies chars_before(#[trigger] t[a].0, #[trigger] t[b].0) by {
        if a < pos && b < pos {
        } else if a < pos && b == pos {
        } else if a < pos {
            assert(t[b] == s[b - 1]);
        } else if a == pos {
            assert(t[b] == s[b - 1]);
            if b - 1 > pos {
                assert(chars_before(s[pos].0, s[b - 1].0));
                lemma_before_transitive(e.0, s[pos].0, s[b - 1].0);
            }
        } else {
            assert(t[a] == s[a - 1]);
            assert(t[b] == s[b - 1]);
        }
    }
}

/// Inserting into a sorted list an entry whose key is new adds it to the map.
proof fn lemma_map_insert_new(s: Seq<EntrySpec>, pos: int, e: EntrySpec)
    requires
        sorted_keys(s),
        sorted_keys(s.insert(pos, e)),
        0 <= pos <= s.len(),
        !has_key(s, e.0),
    ensures
        map_of(s.insert(pos, e)) == map_of(s).insert(e.0, e.1),
{
    let t = s.insert(pos, e);
    let m = map_of(s).insert(e.0, e.1);
    assert forall|key: Seq<char>| #[trigger] map_of(t).contains_key(key) == m.contains_key(key) by {
        if has_key(t, key) {
            let i = choose|i: int| 0 <= i < t.len() && #[trigger] t[i].0 == key;
            if i < pos {
                assert(s[i].0 == key);
            } else if i > pos {
                assert(s[i - 1].0 == key);
            }
        }
        if has_key(s, key) {
            let j = choose|j: int| 0 <= j < s.len() && #[trigger] s[j].0 == key;
            if j < pos {
                assert(t[j].0 == key);
            } else {
                assert(t[j + 1].0 == key);
            }
        }
        if key == e.0 {
            assert(t[pos].0 == key);
        }
    }
    assert forall|key: Seq<char>| map_of(t).contains_key(key) implies #[trigger] map_of(t)[key] == m[key] by {
        let i = choose|i: int| 0 <= i < t.len() && #[trigger] t[i].0 == key;
        lemma_map_of_index(t, i);
        if i < pos {
            lemma_map_of_index(s, i);
        } else if i > pos {
            lemma_map_of_index(s, i - 1);
        }
    }
    assert(map_of(t) =~= m);
}

/// Replacing the entry at `i` of a sorted list by one with the same key replaces the
/// map's value for that key.
proof fn lemma_map_replace(s: Seq<EntrySpec>, i: int, e: EntrySpec)
    requires
        sorted_keys(s),
        0 <= i < s.len(),
        s[i].0 == e.0,
    ensures
        sorted_keys(s.update(i, e)),
        map_of(s.update(i, e)) == map_of(s).insert(e.0, e.1),
{
    let t = s.update(i, e);
    assert forall|a: int, b: int| 0 <= a < b < t.len() implies chars_before(#[trigger] t[a].0, #[trigger] t[b].0) by {
        assert(t[a].0 == s[a].0);
        assert(t[b].0 == s[b].0);
    }
    let m = map_of(s).insert(e.0, e.1);
    assert forall|key: Seq<char>| #[trigger] map_of(t).contains_key(key) == m.contains_key(key) by {
        if has_key(t, key) {
            let j = choose|j: int| 0 <= j < t.len() && #[trigger] t[j].0 == key;
            assert(s[j].0 == key);
        }
        if has_key(s, key) {
            let j = choose|j: int| 0 <= j < s.len() && #[trigger] s[j].0 == key;
            assert(t[j].0 == key);
        }
        if key == e.0 {
            assert(t[i].0 == key);
        }
    }
    assert forall|key: Seq<char>| map_of(t).contains_key(key) implies #[trigger] map_of(t)[key] == m[key] by {
        let j = index_of_key(t, key);
        lemma_map_of_index(t, j);
        if j != i {
            assert(t[j] == s[j]);
            lemma_before_irreflexive(key);
            if j < i {
                assert(chars_before(s[j].0, s[i].0));
            } else {
                assert(chars_before(s[i].0, s[j].0));
            }
            lemma_map_of_index(s, j);
        }
    }
    assert(map_of(t) =~= m);
}

/// Removing the entry at `i` of a sorted list removes its key from the map.
proof fn lemma_map_remove(s: Seq<EntrySpec>, i: int)
    requires
        sorted_keys(s),
        0 <= i < s.len(),
    ensures
        sorted_keys(s.remove(i)),
        map_of(s.remove(i)) == map_of(s).remove(s[i].0),
{
    let t = s.remove(i);
    let key_i = s[i].0;
    assert forall|a: int, b: int| 0 <= a < b < t.len() implies chars_before(#[trigger] t[a].0, #[trigger] t[b].0) by {
        if a >= i {
            assert(t[a] == s[a + 1]);
        }
        if b >= i {
            assert(t[b] == s[b + 1]);
        }
    }
    let m = map_of(s).remove(key_i);
    assert forall|key: Seq<char>| #[trigger] map_of(t).contains_key(key) == m.contains_key(key) by {
        if has_key(t, key) {
            let j = choose|j: int| 0 <= j < t.len() && #[trigger] t[j].0 == key;
            if j < i {
                assert(s[j].0 == key);
                assert(chars_before(s[j].0, key_i));
            } else {
                assert(s[j + 1].0 == key);
                assert(chars_before(key_i, s[j + 1].0));
            }
            lemma_before_irreflexive(key);
        }
        if has_key(s, key) && key != key_i {
            let j = choose|j: int| 0 <= j < s.len() && #[trigger] s[j].0 == key;
            if j < i {
                assert(t[j].0 == key);
            } else {
                assert(t[j - 1].0 == key);
            }
        }
    }
    assert(sorted_keys(t));
    assert forall|key: Seq<char>| map_of(t).contains_key(key) implies #[trigger] map_of(t)[key] == m[key] by {
        let j = index_of_key(t, key);
        assert(t[j].0 == key);
        lemma_map_of_index(t, j);
        lemma_before_irreflexive(key);
        let k = if j < i { j } else { j + 1 };
        assert(t[j] == s[k]);
        if j < i {
            assert(chars_before(s[k].0, key_i));
        } else {
            assert(chars_before(key_i, s[k].0));
        }
        assert(key != key_i);
        lemma_map_of_index(s, k);
        assert(map_of(s)[key] == t[j].1);
        assert(m.contains_key(key));
        assert(m[key] == map_of(s)[key]);
        assert(map_of(t)[key] == t[j].1);
    }
    assert(map_of(t) =~= m);
}

/// Whether an entry is for a key other than `key`.
pub open spec fn key_is_not(key: Seq<char>) -> spec_fn(EntrySpec) -> bool {
    |e: EntrySpec| e.0 != key
}

/// The entries of `s` but the ones for `key`, in their order.
pub open spec fn without_key(s: Seq<EntrySpec>, key: Seq<char>) -> Seq<EntrySpec> {
    s.filter(key_is_not(key))
}

/// Filtering out a key that no entry holds keeps every entry.
proof fn lemma_filter_keeps_all(s: Seq<EntrySpec>, key: Seq<char>)
    requires
        forall|j: int| 0 <= j < s.len() ==> #[trigger] s[j].0 != key,
    ensures
        without_key(s, key) == s,
    decreases s.len(),
{
    reveal(Seq::filter);
    if s.len() > 0 {
        let rest = s.drop_last();
        assert forall|j: int| 0 <= j < rest.len() implies #[trigger] rest[j].0 != key by {
            assert(rest[j] == s[j]);
        }
        lemma_filter_keeps_all(rest, key);
        assert(key_is_not(key)(s.last()));
        assert(rest.push(s.last()) =~= s);
    }
}

/// Forgetting a key that the listing does not hold leaves the listing as it is.
pub proof fn lemma_without_absent_key(s: Seq<EntrySpec>, key: Seq<char>)
    requires
        !has_key(s, key),
    ensures
        without_key(s, key) == s,
{
    assert forall|j: int| 0 <= j < s.len() implies #[trigger] s[j].0 != key by {
        if s[j].0 == key {
            assert(has_key(s, key));
        }
    }
    lemma_filter_keeps_all(s, key);
}

/// In a sorted listing, leaving out the entries for the key at `i` removes just the
/// entry at `i`.
proof fn lemma_without_key_at(s: Seq<EntrySpec>, i: int)
    requires
        sorted_keys(s),
        0 <= i < s.len(),
    ensures
        without_key(s, s[i].0) == s.remove(i),
{
    let key = s[i].0;
    let p = key_is_not(key);
    let front = s.take(i);
    let back = s.skip(i + 1);
    let mid = seq![s[i]];
    lemma_before_irreflexive(key);
    assert forall|j: int| 0 <= j < front.len() implies #[trigger] front[j].0 != key by {
        assert(front[j] == s[j]);
        assert(chars_before(s[j].0, s[i].0));
    }
    assert forall|j: int| 0 <= j < back.len() implies #[trigger] back[j].0 != key by {
        assert(back[j] == s[i + 1 + j]);
        assert(chars_before(s[i].0, s[i + 1 + j].0));
    }
    lemma_filter_keeps_all(front, key);
    lemma_filter_keeps_all(back, key);
    assert(mid.filter(p) =~= Seq::<EntrySpec>::empty()) by {
        let none = Seq::<EntrySpec>::empty();
        assert(none.filter(p) =~= none) by {
            reveal(Seq::filter);
        }
        assert(mid =~= none.push(s[i]));
        none.lemma_filter_push(s[i], p);
    }
    assert(s =~= front + mid + back);
    Seq::filter_distributes_over_add(front + mid, back, p);
    Seq::filter_distributes_over_add(front, mid, p);
    assert(s.remove(i) =~= front + back);
}

/// The listing after forgetting `key`: the entry for it is left out.
proof fn lemma_forget_listing(s: Seq<EntrySpec>, key: Seq<char>)
    requires
        sorted_keys(s),
    ensures
        has_key(s, key) ==> without_key(s, key) == s.remove(index_of_key(s, key)),
        !has_key(s, key) ==> without_key(s, key) == s,
{
    if has_key(s, key) {
        lemma_without_key_at(s, index_of_key(s, key));
    } else {
        lemma_without_absent_key(s, key);
    }
}

/// The last entry of a sorted listing holds the greatest key of its map.
proof fn lemma_last_is_greatest(s: Seq<EntrySpec>, key: Seq<char>)
    requires
        sorted_keys(s),
        s.len() > 0,
        map_of(s).contains_key(key),
        key != s.last().0,
    ensures
        chars_before(key, s.last().0),
{
    let j = index_of_key(s, key);
    assert(has_key(s, key));
    assert(s[j].0 == key);
    assert(j != s.len() - 1);
}

/// A sorted listing is fixed by the map it stands for: two sorted listings of the same
/// map are the same listing.
pub proof fn lemma_sorted_listing_unique(a: Seq<EntrySpec>, b: Seq<EntrySpec>)
    requires
        sorted_keys(a),
        sorted_keys(b),
        map_of(a) == map_of(b),
    ensures
        a == b,
    decreases a.len(),
{
    if a.len() == 0 {
        if b.len() > 0 {
            lemma_map_of_index(b, 0);
            assert(!has_key(a, b[0].0));
        }
        assert(a =~= b);
    } else {
        if b.len() == 0 {
            lemma_map_of_index(a, 0);
            assert(!has_key(b, a[0].0));
        }
        let la = a.len() - 1;
        let lb = b.len() - 1;
        let ka = a[la].0;
        let kb = b[lb].0;
        lemma_map_of_index(a, la);
        lemma_map_of_index(b, lb);
        if ka != kb {
            lemma_last_is_greatest(b, ka);
            lemma_last_is_greatest(a, kb);
            lemma_before_transitive(ka, kb, ka);
            lemma_before_irreflexive(ka);
        }
        assert(a[la] == b[lb]);
        lemma_map_remove(a, la);
        lemma_map_remove(b, lb);
        assert(a.remove(la) =~= a.drop_last());
        assert(b.remove(lb) =~= b.drop_last());
        lemma_sorted_listing_unique(a.drop_last(), b.drop_last());
        assert(a =~= a.drop_last().push(a[la]));
        assert(b =~= b.drop_last().push(b[lb]));
    }
}

/// Entering the entries of a sorted listing one after the other, into an empty map,
/// gives the map that the listing stands for.
pub proof fn lemma_map_of_pairs_sorted(s: Seq<EntrySpec>)
    requires
        sorted_keys(s),
    ensures
        map_of_pairs(s) == map_of(s),
    decreases s.len(),
{
    if s.len() == 0 {
        assert(map_of(s) =~= Map::<Seq<char>, TrustedKeySpec>::empty());
    } else {
        let n = s.len() - 1;
        let rest = s.drop_last();
        lemma_map_remove(s, n);
        assert(s.remove(n) =~= rest);
        lemma_map_of_pairs_sorted(rest);
        assert(!has_key(rest, s[n].0)) by {
            if has_key(rest, s[n].0) {
                let j = index_of_key(rest, s[n].0);
                assert(rest[j] == s[j]);
                assert(chars_before(s[j].0, s[n].0));
                lemma_before_irreflexive(s[n].0);
            }
        }
        assert(rest.insert(n, s[n]) =~= s);
        lemma_map_insert_new(rest, n, s[n]);
    }
}

/// Trusting a key for a host the listing does not hold, then forgetting it, gives the
/// listing back: `after` is the sorted listing of the store once the key is trusted.
pub proof fn lemma_trust_then_forget_restores(before: Seq<EntrySpec>, after: Seq<EntrySpec>, key: Seq<char>, trusted: TrustedKeySpec)
    requires
        sorted_keys(before),
        sorted_keys(after),
        !has_key(before, key),
        map_of(after) == map_of(before).insert(key, trusted),
    ensures
        without_key(after, key) == before,
{
    assert(map_of(after).contains_key(key));
    assert(has_key(after, key));
    let i = index_of_key(after, key);
    lemma_without_key_at(after, i);
    lemma_map_remove(after, i);
    assert(!map_of(before).contains_key(key));
    assert(map_of(after).remove(key) =~= map_of(before));
    lemma_sorted_listing_unique(after.remove(i), before);
}

/// Forgetting a key twice leaves the listing as forgetting it once does.
pub proof fn lemma_forget_twice(s: Seq<EntrySpec>, key: Seq<char>)
    requires
        sorted_keys(s),
    ensures
        without_key(without_key(s, key), key) == without_key(s, key),
{
    lemma_forget_listing(s, key);
    if has_key(s, key) {
        let i = index_of_key(s, key);
        lemma_map_remove(s, i);
        let t = s.remove(i);
        if has_key(t, key) {
            let j = index_of_key(t, key);
            lemma_map_of_index(t, j);
        }
        lemma_without_absent_key(t, key);
    } else {
        lemma_without_absent_key(s, key);
    }
}

/// The two lists hold the same entries, whatever their order and repetitions.
pub open spec fn same_entries(a: Seq<EntrySpec>, b: Seq<EntrySpec>) -> bool {
    forall|e: EntrySpec| a.contains(e) <==> b.contains(e)
}

/// Entries of `s` for the same key are the same entry (as in what a map was saved as).
pub open spec fn keys_functional(s: Seq<EntrySpec>) -> bool {
    forall|i: int, j: int| 0 <= i < s.len() && 0 <= j < s.len() && #[trigger] s[i].0 == #[trigger] s[j].0 ==> s[i] == s[j]
}

/// Where entries for the same key agree, entering them in turn gives each key the value
/// of its entries.
proof fn lemma_map_of_pairs_functional(s: Seq<EntrySpec>)
    requires
        keys_functional(s),
    ensures
        forall|key: Seq<char>| #[trigger] map_of_pairs(s).contains_key(key) <==> has_key(s, key),
        forall|i: int| 0 <= i < s.len() ==> map_of_pairs(s)[#[trigger] s[i].0] == s[i].1,
    decreases s.len(),
{
    if s.len() > 0 {
        let rest = s.drop_last();
        let n = s.len() - 1;
        assert forall|i: int, j: int| 0 <= i < rest.len() && 0 <= j < rest.len() && #[trigger] rest[i].0 == #[trigger] rest[j].0 implies rest[i] == rest[j] by {
            assert(s[i] == rest[i] && s[j] == rest[j]);
        }
        lemma_map_of_pairs_functional(rest);
        assert(map_of_pairs(s) == map_of_pairs(rest).insert(s[n].0, s[n].1));
        assert forall|key: Seq<char>| #[trigger] map_of_pairs(s).contains_key(key) <==> has_key(s, key) by {
            assert(map_of_pairs(rest).contains_key(key) <==> has_key(rest, key));
            if has_key(rest, key) {
                let j = choose|j: int| 0 <= j < rest.len() && #[trigger] rest[j].0 == key;
                assert(s[j].0 == key);
            }
            if has_key(s, key) && key != s[n].0 {
                let j = choose|j: int| 0 <= j < s.len() && #[trigger] s[j].0 == key;
                assert(rest[j].0 == key);
            }
            if key == s[n].0 {
                assert(s[n].0 == key);
            }
        }
        assert forall|i: int| 0 <= i < s.len() implies map_of_pairs(s)[#[trigger] s[i].0] == s[i].1 by {
            if s[i].0 != s[n].0 {
                assert(rest[i] == s[i]);
                assert(map_of_pairs(rest)[rest[i].0] == rest[i].1);
            } else {
                assert(s[i] == s[n]);
            }
        }
    }
}

/// The listing of a store loaded from `stored`, entries for the same key agreeing,
/// holds exactly the entries of `stored`.
proof fn lemma_loaded_entries(stored: Seq<EntrySpec>, loaded: Seq<EntrySpec>)
    requires
        keys_functional(stored),
        sorted_keys(loaded),
        map_of(loaded) == map_of_pairs(stored),
    ensures
        same_entries(loaded, stored),
{
    lemma_map_of_pairs_functional(stored);
    assert forall|e: EntrySpec| loaded.contains(e) <==> stored.contains(e) by {
        if loaded.contains(e) {
            let i = choose|i: int| 0 <= i < loaded.len() && loaded[i] == e;
            lemma_map_of_index(loaded, i);
            assert(map_of_pairs(stored).contains_key(e.0));
            assert(has_key(stored, e.0));
            let j = choose|j: int| 0 <= j < stored.len() && #[trigger] stored[j].0 == e.0;
            assert(map_of_pairs(stored)[stored[j].0] == stored[j].1);
            assert(stored[j] == e);
        }
        if stored.contains(e) {
            let j = choose|j: int| 0 <= j < stored.len() && stored[j] == e;
            assert(map_of_pairs(stored)[stored[j].0] == stored[j].1);
            assert(has_key(stored, e.0));
            assert(map_of(loaded).contains_key(e.0));
            assert(has_key(loaded, e.0));
            let i = choose|i: int| 0 <= i < loaded.len() && #[trigger] loaded[i].0 == e.0;
            lemma_map_of_index(loaded, i);
            assert(loaded[i] == e);
        }
    }
}

/// What was saved loads back the same, in whatever order its entries are read: when
/// `stored` holds the entries of the sorted listing `saved`, in any order, the sorted
/// listing `loaded` of the map that entering them in turn gives is `saved`.
pub proof fn lemma_load_in_any_order(saved: Seq<EntrySpec>, stored: Seq<EntrySpec>, loaded: Seq<EntrySpec>)
    requires
        sorted_keys(saved),
        same_entries(stored, saved),
        sorted_keys(loaded),
        map_of(loaded) == map_of_pairs(stored),
    ensures
        loaded == saved,
{
    assert forall|i: int, j: int| 0 <= i < stored.len() && 0 <= j < stored.len() && #[trigger] stored[i].0 == #[trigger] stored[j].0 implies stored[i] == stored[j] by {
        assert(stored.contains(stored[i]) && stored.contains(stored[j]));
        let a = choose|a: int| 0 <= a < saved.len() && saved[a] == stored[i];
        let b = choose|b: int| 0 <= b < saved.len() && saved[b] == stored[j];
        lemma_before_irreflexive(stored[i].0);
        if a < b {
            assert(chars_before(saved[a].0, saved[b].0));
        } else if b < a {
            assert(chars_before(saved[b].0, saved[a].0));
        }
    }
    lemma_loaded_entries(stored, loaded);
    assert forall|key: Seq<char>| #[trigger] map_of(loaded).contains_key(key) == map_of(saved).contains_key(key) by {
        if has_key(loaded, key) {
            let i = choose|i: int| 0 <= i < loaded.len() && #[trigger] loaded[i].0 == key;
            assert(loaded.contains(loaded[i]));
            let j = choose|j: int| 0 <= j < saved.len() && saved[j] == loaded[i];
            assert(saved[j].0 == key);
        }
        if has_key(saved, key) {
            let j = choose|j: int| 0 <= j < saved.len() && #[trigger] saved[j].0 == key;
            assert(saved.contains(saved[j]));
            let i = choose|i: int| 0 <= i < loaded.len() && loaded[i] == saved[j];
            assert(loaded[i].0 == key);
        }
    }
    assert forall|key: Seq<char>| map_of(loaded).contains_key(key) implies #[trigger] map_of(loaded)[key] == map_of(saved)[key] by {
        let i = index_of_key(loaded, key);
        lemma_map_of_index(loaded, i);
        assert(loaded.contains(loaded[i]));
        let j = choose|j: int| 0 <= j < saved.len() && saved[j] == loaded[i];
        lemma_map_of_index(saved, j);
    }
    assert(map_of(loaded) =~= map_of(saved));
    lemma_sorted_listing_unique(loaded, saved);
}

#[verifier::external_type_specification]
#[verifier::external_body]
pub struct ExSystemTime(std::time::SystemTime);

/// Calls `std::time::SystemTime::now`. The clock is read; nothing is claimed of it.
#[verifier::external_body]
fn system_now() -> std::time::SystemTime {
    std::time::SystemTime::now()
}

/// Calls `std::time::SystemTime::duration_since` with the Unix epoch; `None` stands for
/// its error (a time before the epoch). Nothing is claimed of the duration.
#[verifier::external_body]
fn since_epoch(t: &std::time::SystemTime) -> Option<std::time::Duration> {
    t.duration_since(std::time::UNIX_EPOCH).ok()
}

/// Calls `std::time::Duration::as_secs`: the whole seconds of `d`. A duration is opaque
/// here, so nothing is claimed of the number.
#[verifier::external_body]
fn whole_seconds(d: &std::time::Duration) -> u64 {
    d.as_secs()
}

/// The seconds since the Unix epoch that a trust is stamped with, from what reading the
/// clock gave: 0 where the clock is before the epoch (`None`).
pub fn seconds_or_zero(since_epoch: Option<u64>) -> (s: u64)
    ensures
        s == match since_epoch {
            Some(x) => x,
            None => 0,
        },
{
    match since_epoch {
        Some(x) => x,
        None => 0,
    }
}

/// The current time in seconds since the Unix epoch, 0 if the clock is before it.
fn unix_now() -> u64 {
    let now = system_now();
    let seconds = match since_epoch(&now) {
        Some(d) => Some(whole_seconds(&d)),
        None => None,
    };
    seconds_or_zero(seconds)
}

/// The persisted trust store: `host:port` to the trusted public key and fingerprint.
/// Keys are trusted on first use only after an explicit confirmation; a known host is
/// checked on every connect.
pub struct KnownHosts {
    path: String,
    entries: Vec<(String, TrustedKey)>,
}

impl View for KnownHosts {
    type V = Map<Seq<char>, TrustedKeySpec>;

    open spec fn view(&self) -> Map<Seq<char>, TrustedKeySpec> {
        map_of(self.listing())
    }
}

impl KnownHosts {
    /// The entries, in increasing order of key id.
    pub closed spec fn listing(&self) -> Seq<EntrySpec> {
        entry_views(self.entries@)
    }

    /// The path of the file the store persists to.
    pub closed spec fn file(&self) -> Seq<char> {
        self.path@
    }

    /// The store's entries are sorted by key id.
    pub closed spec fn wf(&self) -> bool {
        sorted_keys(self.listing())
    }

    /// An empty store for the file at `path`.
    pub fn new(path: String) -> (store: KnownHosts)
        ensures
            store.wf(),
            store@ == Map::<Seq<char>, TrustedKeySpec>::empty(),
            store.file() == path@,
    {
        let store = KnownHosts { path, entries: Vec::new() };
        assert(store@ =~= Map::<Seq<char>, TrustedKeySpec>::empty());
        store
    }

    /// A store for the file at `path` holding the entries read from it, each entry
    /// entered in turn. Where entries for the same key agree (as in a saved map, read in
    /// any order), the store lists exactly those entries; a listing in order of key id,
    /// such as `list` gives, is loaded back as it was.
    pub fn load(path: String, stored: Vec<(String, TrustedKey)>) -> (store: KnownHosts)
        ensures
            store.wf(),
            store@ == map_of_pairs(entry_views(stored@)),
            store.file() == path@,
            sorted_keys(entry_views(stored@)) ==> store.listing() == entry_views(stored@),
            keys_functional(entry_views(stored@)) ==> same_entries(store.listing(), entry_views(stored@)),
    {
        let mut store = KnownHosts::new(path);
        let n = stored.len();
        let ghost all = entry_views(stored@);
        for i in 0..n
            invariant
                n == stored@.len(),
                all == entry_views(stored@),
                store.wf(),
                store@ == map_of_pairs(all.take(i as int)),
                store.file() == path@,
        {
            assert(all.take(i + 1).drop_last() == all.take(i as int));
            let key = stored[i].0.as_str();
            let t = &stored[i].1;
            store.trust_at(key, t.openssh_key.as_str(), t.fingerprint.as_str(), t.algorithm.as_str(), t.trusted_at);
        }
        assert(all.take(n as int) == all);
        proof {
            if sorted_keys(all) {
                lemma_map_of_pairs_sorted(all);
                lemma_sorted_listing_unique(store.listing(), all);
            }
            if keys_functional(all) {
                lemma_loaded_entries(all, store.listing());
            }
        }
        store
    }

    /// The path of the store's file.
    pub fn path(&self) -> (path: &str)
        ensures
            path@ == self.file(),
    {
        self.path.as_str()
    }

    /// `Some(true)` if `openssh_key` is the key trusted for `key_id`, `Some(false)` if
    /// another key is (possibly a man in the middle), `None` if the host was never seen.
    pub fn check(&self, key_id: &str, openssh_key: &str) -> (verdict: Option<bool>)
        requires
            self.wf(),
        ensures
            verdict == check_result(self@, key_id@, openssh_key@),
    {
        let n = self.entries.len();
        let ghost s = self.listing();
        for i in 0..n
            invariant
                n == self.entries@.len(),
                s == self.listing(),
                s.len() == n,
                sorted_keys(s),
                forall|j: int| 0 <= j < i ==> s[j].0 != key_id@,
        {
            if same_text(self.entries[i].0.as_str(), key_id) {
                proof {
                    lemma_map_of_index(s, i as int);
                }
                return Some(same_text(self.entries[i].1.openssh_key.as_str(), openssh_key));
            }
        }
        None
    }

    /// Trusts `openssh_key` for `key_id` as of `trusted_at`, replacing any key trusted
    /// for it before.
    pub fn trust_at(&mut self, key_id: &str, openssh_key: &str, fingerprint: &str, algorithm: &str, trusted_at: u64)
        requires
            old(self).wf(),
        ensures
            final(self).wf(),
            final(self).file() == old(self).file(),
            final(self)@ == old(self)@.insert(
                key_id@,
                TrustedKeySpec {
                    openssh_key: openssh_key@,
                    fingerprint: fingerprint@,
                    algorithm: algorithm@,
                    trusted_at,
                },
            ),
    {
        let entry = (
            key_id.to_owned(),
            TrustedKey {
                openssh_key: openssh_key.to_owned(),
                fingerprint: fingerprint.to_owned(),
                algorithm: algorithm.to_owned(),
                trusted_at,
            },
        );
        let ghost e: EntrySpec = (entry.0@, entry.1@);
        let ghost s = self.listing();
        let n = self.entries.len();
        let mut i: usize = 0;
        while i < n
            invariant
                n == self.entries@.len(),
                s == self.listing(),
                s.len() == n,
                sorted_keys(s),
                self.file() == old(self).file(),
                self.entries@ == old(self).entries@,
                i <= n,
                e == (entry.0@, entry.1@),
                e.0 == key_id@,
                e.1 == (TrustedKeySpec {
                    openssh_key: openssh_key@,
                    fingerprint: fingerprint@,
                    algorithm: algorithm@,
                    trusted_at,
                }),
                forall|j: int| 0 <= j < i ==> chars_before(#[trigger] s[j].0, key_id@),
            ensures
                i <= n,
                forall|j: int| 0 <= j < i ==> chars_before(#[trigger] s[j].0, key_id@),
                i < n ==> chars_before(key_id@, s[i as int].0),
            decreases n - i,
        {
            if same_text(self.entries[i].0.as_str(), key_id) {
                proof {
                    lemma_map_replace(s, i as int, e);
                }
                let ghost before_set = self.entries@;
                self.entries.set(i, entry);
                assert(self.entries@ == before_set.update(i as int, entry));
                assert(self.listing() =~= s.update(i as int, e));
                return;
            }
            if text_before(key_id, self.entries[i].0.as_str()) {
                break;
            }
            proof {
                lemma_before_total(s[i as int].0, key_id@);
            }
            i = i + 1;
        }
        proof {
            assert(!has_key(s, key_id@)) by {
                if has_key(s, key_id@) {
                    let j = index_of_key(s, key_id@);
                    lemma_before_irreflexive(key_id@);
                    if j >= i {
                        if j > i {
                            assert(chars_before(s[i as int].0, s[j].0));
                            lemma_before_transitive(key_id@, s[i as int].0, s[j].0);
                        }
                    }
                }
            }
            lemma_sorted_insert(s, i as int, e);
            lemma_map_insert_new(s, i as int, e);
        }
        self.entries.insert(i, entry);
        assert(self.listing() =~= s.insert(i as int, e));
    }

    /// Trusts `openssh_key` for `key_id` as of now, replacing any key trusted for it
    /// before. The time stamp is the clock's; nothing else depends on it.
    pub fn trust(&mut self, key_id: &str, openssh_key: &str, fingerprint: &str, algorithm: &str)
        requires
            old(self).wf(),
        ensures
            final(self).wf(),
            final(self).file() == old(self).file(),
            final(self)@ == old(self)@.insert(
                key_id@,
                TrustedKeySpec {
                    openssh_key: openssh_key@,
                    fingerprint: fingerprint@,
                    algorithm: algorithm@,
                    trusted_at: final(self)@[key_id@].trusted_at,
                },
            ),
    {
        let now = unix_now();
        self.trust_at(key_id, openssh_key, fingerprint, algorithm, now);
    }

    /// Forgets the key trusted for `key_id`, if any.
    pub fn forget(&mut self, key_id: &str)
        requires
            old(self).wf(),
        ensures
            final(self).wf(),
            final(self).file() == old(self).file(),
            final(self)@ == old(self)@.remove(key_id@),
            final(self).listing() == without_key(old(self).listing(), key_id@),
    {
        let ghost s = self.listing();
        proof {
            lemma_forget_listing(s, key_id@);
        }
        let n = self.entries.len();
        for i in 0..n
            invariant
                n == self.entries@.len(),
                s == self.listing(),
                s.len() == n,
                sorted_keys(s),
                self.file() == old(self).file(),
                self.entries@ == old(self).entries@,
                forall|j: int| 0 <= j < i ==> s[j].0 != key_id@,
        {
            if same_text(self.entries[i].0.as_str(), key_id) {
                proof {
                    lemma_map_remove(s, i as int);
                    assert(has_key(s, key_id@));
                    lemma_without_key_at(s, i as int);
                }
                self.entries.remove(i);
                assert(self.listing() =~= s.remove(i as int));
                return;
            }
        }
        assert(!has_key(s, key_id@));
        assert(self@ =~= old(self)@.remove(key_id@));
    }

    /// All entries, in increasing order of key id.
    pub fn list(&self) -> (entries: Vec<(String, TrustedKey)>)
        requires
            self.wf(),
        ensures
            entry_views(entries@) == self.listing(),
            sorted_keys(entry_views(entries@)),
            map_of(entry_views(entries@)) == self@,
    {
        let mut out: Vec<(String, TrustedKey)> = Vec::new();
        let n = self.entries.len();
        for i in 0..n
            invariant
                n == self.entries@.len(),
                entry_views(out@) == self.listing().take(i as int),
        {
            let key = self.entries[i].0.clone();
            let key_copy = self.entries[i].1.clone();
            let ghost prev = out@;
            let ghost ev: EntrySpec = (key@, key_copy@);
            assert(ev == self.listing()[i as int]);
            out.push((key, key_copy));
            assert(entry_views(out@) =~= entry_views(prev).push(ev));
            assert(entry_views(out@) =~= self.listing().take(i + 1));
        }
        assert(self.listing().take(n as int) =~= self.listing());
        out
    }
}

/// The key id a server is trusted under: `host:port`.
pub open spec fn host_key_text(host: Seq<char>, port: u16) -> Seq<char> {
    host + seq![':'] + decimal_text(port as nat)
}

/// The key id of the server at `host` and `port`: `host:port`.
pub fn host_key_id(host: &str, port: u16) -> (key_id: String)
    ensures
        key_id@ == host_key_text(host@, port),
{
    let with_colon = concat_text(host, ":");
    let port_text = decimal(port);
    proof {
        reveal_strlit(":");
    }
    concat_text(with_colon.as_str(), port_text.as_str())
}

/// What to do with the key a server presents.
#[derive(Debug, Clone, Copy, PartialEq, Eq)]
pub enum ServerKeyVerdict {
    /// The key is the one trusted for this server.
    Accept,
    /// Another key is trusted for this server: the connection is refused.
    Reject,
    /// The server was never seen: the user must confirm the key.
    AskUser,
}

/// The verdict on a presented key, from what checking it against the store answered.
pub open spec fn verdict_of(check: Option<bool>) -> ServerKeyVerdict {
    match check {
        Some(true) => ServerKeyVerdict::Accept,
        Some(false) => ServerKeyVerdict::Reject,
        None => ServerKeyVerdict::AskUser,
    }
}

impl KnownHosts {
    /// Judges the key that the server at `host:port` presents.
    pub fn judge_server_key(&self, host: &str, port: u16, openssh_key: &str) -> (verdict: ServerKeyVerdict)
        requires
            self.wf(),
        ensures
            verdict == verdict_of(check_result(self@, host_key_text(host@, port), openssh_key@)),
    {
        let key_id = host_key_id(host, port);
        match self.check(key_id.as_str(), openssh_key) {
            Some(true) => ServerKeyVerdict::Accept,
            Some(false) => ServerKeyVerdict::Reject,
            None => ServerKeyVerdict::AskUser,
        }
    }

    /// Settles the key of a server never seen before once the user has answered, or
    /// not (`answer` is `None` where the question timed out or was dropped). The key is
    /// accepted, and trusted from now on, only on an explicit yes.
    pub fn settle_new_server_key(
        &mut self,
        host: &str,
        port: u16,
        openssh_key: &str,
        fingerprint: &str,
        algorithm: &str,
        answer: Option<bool>,
    ) -> (accepted: bool)
        requires
            old(self).wf(),
        ensures
            final(self).wf(),
            final(self).file() == old(self).file(),
            accepted == (answer == Some(true)),
            !accepted ==> final(self)@ == old(self)@,
            accepted ==> final(self)@ == old(self)@.insert(
                host_key_text(host@, port),
                TrustedKeySpec {
                    openssh_key: openssh_key@,
                    fingerprint: fingerprint@,
                    algorithm: algorithm@,
                    trusted_at: final(self)@[host_key_text(host@, port)].trusted_at,
                },
            ),
    {
        let accepted = match answer {
            Some(yes) => yes,
            None => false,
        };
        if accepted {
            let key_id = host_key_id(host, port);
            self.trust(key_id.as_str(), openssh_key, fingerprint, algorithm);
        }
        accepted
    }
}

/// A host the store knows, as the known-hosts list shows it.
#[derive(Debug)]
pub struct KnownHostEntry {
    pub key_id: String,
    pub fingerprint: String,
    pub algorithm: String,
    pub trusted_at: u64,
}

/// The known-hosts list shown to the user, one row per entry and in the same order.
pub fn known_host_entries(entries: Vec<(String, TrustedKey)>) -> (shown: Vec<KnownHostEntry>)
    ensures
        shown@.len() == entries@.len(),
        forall|i: int|
            0 <= i < entries@.len() ==> {
                &&& #[trigger] shown@[i].key_id@ == entries@[i].0@
                &&& shown@[i].fingerprint@ == entries@[i].1.fingerprint@
                &&& shown@[i].algorithm@ == entries@[i].1.algorithm@
                &&& shown@[i].trusted_at == entries@[i].1.trusted_at
            },
{
    let mut shown: Vec<KnownHostEntry> = Vec::new();
    let n = entries.len();
    let mut i: usize = 0;
    while i < n
        invariant
            n == entries@.len(),
            i <= n,
            shown@.len() == i,
            forall|j: int|
                0 <= j < i ==> {
                    &&& #[trigger] shown@[j].key_id@ == entries@[j].0@
                    &&& shown@[j].fingerprint@ == entries@[j].1.fingerprint@
                    &&& shown@[j].algorithm@ == entries@[j].1.algorithm@
                    &&& shown@[j].trusted_at == entries@[j].1.trusted_at
                },
        decreases n - i,
    {
        let row = KnownHostEntry {
            key_id: entries[i].0.clone(),
            fingerprint: entries[i].1.fingerprint.clone(),
            algorithm: entries[i].1.algorithm.clone(),
            trusted_at: entries[i].1.trusted_at,
        };
        let ghost prev = shown@;
        shown.push(row);
        assert forall|j: int| 0 <= j < i + 1 implies {
            &&& #[trigger] shown@[j].key_id@ == entries@[j].0@
            &&& shown@[j].fingerprint@ == entries@[j].1.fingerprint@
            &&& shown@[j].algorithm@ == entries@[j].1.algorithm@
            &&& shown@[j].trusted_at == entries@[j].1.trusted_at
        } by {
            if j < i {
                assert(shown@[j] == prev[j]);
            }
        }
        i = i + 1;
    }
    shown
}

/// A store that was never told anything knows no host: every server is new to it.
pub proof fn lemma_empty_store_knows_no_host(key_id: Seq<char>, openssh_key: Seq<char>)
    ensures
        check_result(Map::empty(), key_id, openssh_key) is None,
{
}

/// Once a key is trusted for a host, presenting that key again is accepted without a
/// prompt.
pub proof fn lemma_trusted_key_accepted(
    known: Map<Seq<char>, TrustedKeySpec>,
    key_id: Seq<char>,
    trusted: TrustedKeySpec,
)
    ensures
        check_result(known.insert(key_id, trusted), key_id, trusted.openssh_key) == Some(true),
        verdict_of(check_result(known.insert(key_id, trusted), key_id, trusted.openssh_key)) == ServerKeyVerdict::Accept,
{
}

/// Once a key is trusted for a host, any other key that host presents is rejected, not
/// trusted silently.
pub proof fn lemma_other_key_rejected(
    known: Map<Seq<char>, TrustedKeySpec>,
    key_id: Seq<char>,
    trusted: TrustedKeySpec,
    presented: Seq<char>,
)
    requires
        presented != trusted.openssh_key,
    ensures
        check_result(known.insert(key_id, trusted), key_id, presented) == Some(false),
        verdict_of(check_result(known.insert(key_id, trusted), key_id, presented)) == ServerKeyVerdict::Reject,
{
}

/// After a host is forgotten its next key is treated as new: the user is asked again.
pub proof fn lemma_forgotten_host_is_new(
    known: Map<Seq<char>, TrustedKeySpec>,
    key_id: Seq<char>,
    presented: Seq<char>,
)
    ensures
        check_result(known.remove(key_id), key_id, presented) is None,
        verdict_of(check_result(known.remove(key_id), key_id, presented)) == ServerKeyVerdict::AskUser,
{
}

/// Trusting or forgetting one host leaves what is known of every other host unchanged.
pub proof fn lemma_other_hosts_unchanged(
    known: Map<Seq<char>, TrustedKeySpec>,
    key_id: Seq<char>,
    trusted: TrustedKeySpec,
    other: Seq<char>,
    presented: Seq<char>,
)
    requires
        other != key_id,
    ensures
        check_result(known.insert(key_id, trusted), other, presented) == check_result(known, other, presented),
        check_result(known.remove(key_id), other, presented) == check_result(known, other, presented),
{
}

/// The key ids of two servers differ whenever their hosts or their ports do: servers on
/// different ports of one host are trusted separately.
pub proof fn lemma_key_ids_distinct(host: Seq<char>, port: u16, other_host: Seq<char>, other_port: u16)
    requires
        host != other_host || port != other_port,
    ensures
        host_key_text(host, port) != host_key_text(other_host, other_port),
{
    let d1 = decimal_text(port as nat);
    let d2 = decimal_text(other_port as nat);
    let t1 = host_key_text(host, port);
    let t2 = host_key_text(other_host, other_port);
    if t1 == t2 {
        lemma_decimal_has_no_colon(port as nat);
        lemma_decimal_has_no_colon(other_port as nat);
        let len = t1.len();
        if d1.len() < d2.len() {
            let k = len - d1.len() - 1;
            assert(t1[k] == ':');
            assert(t2[k] == d2[k - (len - d2.len())]);
        } else if d2.len() < d1.len() {
            let k = len - d2.len() - 1;
            assert(t2[k] == ':');
            assert(t1[k] == d1[k - (len - d1.len())]);
        } else {
            assert(host =~= t1.subrange(0, host.len() as int));
            assert(other_host =~= t2.subrange(0, other_host.len() as int));
            assert(d1 =~= t1.subrange(len - d1.len(), len as int));
            assert(d2 =~= t2.subrange(len - d2.len(), len as int));
            lemma_decimal_injective(port as nat, other_port as nat);
        }
    }
}

} // verus!
