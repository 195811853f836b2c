//! The ordered table of proxy providers (subscriptions), kept in an
//! `indexmap::IndexMap` as the configuration file does.

use vstd::prelude::*;
use indexmap::IndexMap;
use crate::config::mihomo_config::{ProxyProvider, ProviderView};

verus! {

#[verifier::external_type_specification]
#[verifier::external_body]
#[verifier::reject_recursive_types(K)]
#[verifier::reject_recursive_types(V)]
#[verifier::reject_recursive_types(S)]
pub struct ExIndexMap<K, V, S>(IndexMap<K, V, S>);

/// The table's entries, in the table's order: each key's text with its provider's view.
pub uninterp spec fn provider_entries(m: IndexMap<String, ProxyProvider>) -> Seq<(Seq<char>, ProviderView)>;

/// Position of the first entry whose key is `k`.
pub open spec fn key_position(entries: Seq<(Seq<char>, ProviderView)>, k: Seq<char>) -> Option<int>
    decreases entries.len(),
{
    if entries.len() == 0 {
        None
    } else if entries[0].0 == k {
        Some(0)
    } else {
        match key_position(entries.drop_first(), k) {
            Some(i) => Some(i + 1),
            None => None,
        }
    }
}

/// A found position is inside the entries and holds that key; a missing key is nowhere.
pub proof fn lemma_key_position(entries: Seq<(Seq<char>, ProviderView)>, k: Seq<char>)
    ensures
        key_position(entries, k) matches Some(i) ==> 0 <= i < entries.len() && entries[i].0 == k,
        key_position(entries, k) is None ==> forall|j: int|
            0 <= j < entries.len() ==> #[trigger] entries[j].0 != k,
    decreases entries.len(),
{
    if entries.len() > 0 {
        lemma_key_position(entries.drop_first(), k);
        if entries[0].0 != k {
            assert forall|j: int| 1 <= j < entries.len() implies entries[j].0 == entries.drop_first()[j - 1].0 by {}
        }
    }
}

/// Removing a key never lengthens the table, and shortens it by one when the key is present.
pub proof fn lemma_shift_remove_len(entries: Seq<(Seq<char>, ProviderView)>, k: Seq<char>)
    ensures
        key_position(entries, k) is Some ==> shift_remove_key(entries, k).len() == entries.len() - 1,
        key_position(entries, k) is None ==> shift_remove_key(entries, k) == entries,
{
    lemma_key_position(entries, k);
}

/// The entries after `IndexMap::insert`: an entry with that key keeps its place and
/// takes the new value; otherwise the pair goes last.
pub open spec fn upsert(entries: Seq<(Seq<char>, ProviderView)>, k: Seq<char>, v: ProviderView) -> Seq<(Seq<char>, ProviderView)> {
    match key_position(entries, k) {
        Some(i) => entries.update(i, (k, v)),
        None => entries.push((k, v)),
    }
}

/// The entries after `IndexMap::shift_remove`: the entry with that key leaves and
/// the later ones move up, keeping their order.
pub open spec fn shift_remove_key(entries: Seq<(Seq<char>, ProviderView)>, k: Seq<char>) -> Seq<(Seq<char>, ProviderView)> {
    match key_position(entries, k) {
        Some(i) => entries.remove(i),
        None => entries,
    }
}

/// No two entries share a key.
pub open spec fn keys_unique(entries: Seq<(Seq<char>, ProviderView)>) -> bool {
    forall|i: int, j: int|
        0 <= i < entries.len() && 0 <= j < entries.len() && i != j ==> #[trigger] entries[i].0
            != #[trigger] entries[j].0
}

/// Storing a key that is already stored again does not add an entry: storing the same
/// pair twice leaves the table as storing it once.
pub proof fn law_upsert_idempotent(entries: Seq<(Seq<char>, ProviderView)>, k: Seq<char>, v: ProviderView)
    ensures
        upsert(upsert(entries, k, v), k, v) == upsert(entries, k, v),
        key_position(upsert(entries, k, v), k) is Some,
{
    lemma_key_position(entries, k);
    let once = upsert(entries, k, v);
    match key_position(entries, k) {
        Some(i) => {
            lemma_key_position_update(entries, k, i, (k, v));
        },
        None => {
            lemma_key_position_push_missing(entries, k, v);
        },
    }
    lemma_key_position(once, k);
    let p = key_position(once, k)->0;
    assert(once.update(p, (k, v)) =~= once);
}

/// Removing a key right after storing it under a key that was absent gives back the
/// table as it was.
pub proof fn law_remove_undoes_insert(entries: Seq<(Seq<char>, ProviderView)>, k: Seq<char>, v: ProviderView)
    requires
        key_position(entries, k) is None,
    ensures
        shift_remove_key(upsert(entries, k, v), k) == entries,
{
    lemma_key_position_push_missing(entries, k, v);
    assert(entries.push((k, v)).remove(entries.len() as int) =~= entries);
}

/// Storing and removing keep keys unique.
pub proof fn law_keys_stay_unique(entries: Seq<(Seq<char>, ProviderView)>, k: Seq<char>, v: ProviderView)
    requires
        keys_unique(entries),
    ensures
        keys_unique(upsert(entries, k, v)),
        keys_unique(shift_remove_key(entries, k)),
{
    lemma_key_position(entries, k);
    let up = upsert(entries, k, v);
    assert forall|i: int, j: int|
        0 <= i < up.len() && 0 <= j < up.len() && i != j implies #[trigger] up[i].0
        != #[trigger] up[j].0 by {
        match key_position(entries, k) {
            Some(p) => {
                if i != p && j != p {
                    assert(up[i] == entries[i] && up[j] == entries[j]);
                } else if i == p {
                    assert(up[j] == entries[j]);
                    assert(entries[p].0 == k);
                } else {
                    assert(up[i] == entries[i]);
                    assert(entries[p].0 == k);
                }
            },
            None => {
                if i < entries.len() && j < entries.len() {
                } else if i == entries.len() {
                    assert(entries[j].0 != k);
                } else {
                    assert(entries[i].0 != k);
                }
            },
        }
    }
    let rm = shift_remove_key(entries, k);
    assert forall|i: int, j: int|
        0 <= i < rm.len() && 0 <= j < rm.len() && i != j implies #[trigger] rm[i].0
        != #[trigger] rm[j].0 by {
        match key_position(entries, k) {
            Some(p) => {
                let ii = if i < p { i } else { i + 1 };
                let jj = if j < p { j } else { j + 1 };
                assert(rm[i] == entries[ii]);
                assert(rm[j] == entries[jj]);
            },
            None => {},
        }
    }
}

proof fn lemma_key_position_update(entries: Seq<(Seq<char>, ProviderView)>, k: Seq<char>, i: int, e: (Seq<char>, ProviderView))
    requires
        key_position(entries, k) == Some(i),
        e.0 == k,
    ensures
        key_position(entries.update(i, e), k) == Some(i),
    decreases entries.len(),
{
    lemma_key_position(entries, k);
    if i > 0 {
        assert(entries.update(i, e).drop_first() =~= entries.drop_first().update(i - 1, e));
        lemma_key_position_update(entries.drop_first(), k, i - 1, e);
    }
}

proof fn lemma_key_position_push_missing(entries: Seq<(Seq<char>, ProviderView)>, k: Seq<char>, v: ProviderView)
    requires
        key_position(entries, k) is None,
    ensures
        key_position(entries.push((k, v)), k) == Some(entries.len() as int),
    decreases entries.len(),
{
    if entries.len() > 0 {
        assert(entries.push((k, v)).drop_first() =~= entries.drop_first().push((k, v)));
        lemma_key_position_push_missing(entries.drop_first(), k, v);
    }
}

/// `IndexMap::new`: a table with no entries.
#[verifier::external_body]
pub(crate) fn table_new() -> (m: IndexMap<String, ProxyProvider>)
    ensures
        provider_entries(m) == Seq::<(Seq<char>, ProviderView)>::empty(),
        keys_unique(provider_entries(m)),
{
    IndexMap::new()
}

/// `IndexMap::len`: the number of entries.
#[verifier::external_body]
pub(crate) fn table_len(m: &IndexMap<String, ProxyProvider>) -> (n: usize)
    ensures
        n == provider_entries(*m).len(),
{
    m.len()
}

/// `IndexMap::insert`: replaces the value of an equal key in place, else appends.
/// An `IndexMap` holds at most one entry per key, so the keys of the result are unique.
#[verifier::external_body]
pub(crate) fn table_insert(m: &mut IndexMap<String, ProxyProvider>, key: String, value: ProxyProvider)
    ensures
        provider_entries(*final(m)) == upsert(provider_entries(*old(m)), key@, value@),
        keys_unique(provider_entries(*final(m))),
{
    m.insert(key, value);
}

/// `IndexMap::shift_remove`: removes the entry of that key, keeping the order of the rest.
/// An `IndexMap` holds at most one entry per key, so afterwards none has that key and
/// the keys of the result are unique.
#[verifier::external_body]
pub(crate) fn table_shift_remove(m: &mut IndexMap<String, ProxyProvider>, key: &str)
    ensures
        provider_entries(*final(m)) == shift_remove_key(provider_entries(*old(m)), key@),
        key_position(provider_entries(*final(m)), key@) is None,
        keys_unique(provider_entries(*final(m))),
{
    m.shift_remove(key);
}

/// `IndexMap::get_index`, keeping a copy of the key: the key at position `i`, if any.
#[verifier::external_body]
pub(crate) fn table_key_at(m: &IndexMap<String, ProxyProvider>, i: usize) -> (res: Option<String>)
    ensures
        i < provider_entries(*m).len() ==> res is Some && res.unwrap()@ == provider_entries(*m)[i as int].0,
        i >= provider_entries(*m).len() ==> res is None,
{
    m.get_index(i).map(|entry| entry.0.clone())
}

/// `IndexMap::get_index_of`: the position of the entry with that key, if any.
#[verifier::external_body]
pub(crate) fn table_index_of(m: &IndexMap<String, ProxyProvider>, key: &str) -> (res: Option<usize>)
    ensures
        res matches Some(i) ==> key_position(provider_entries(*m), key@) == Some(i as int),
        res is None ==> key_position(provider_entries(*m), key@) is None,
{
    m.get_index_of(key)
}

} // verus!
