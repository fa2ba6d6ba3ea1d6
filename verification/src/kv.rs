//! The per-space key-value store that replicated `storage_put_key` and
//! `storage_remove_key` commands mutate. One store per space, created on
//! first use; keys are unique within a store.

use vstd::prelude::*;
use crate::json::esc_str;
use crate::json::push_escaped;
use crate::text::chars_eq;
use crate::text::clone_chars;
use crate::text::dec_chars;
use crate::text::push_dec_u64;
use crate::text::push_str_chars;

verus! {

pub struct KvEntry {
    pub key: Vec<char>,
    pub value: Vec<char>,
}

#[verifier::ext_equal]
pub struct KvEntryView {
    pub key: Seq<char>,
    pub value: Seq<char>,
}

impl View for KvEntry {
    type V = KvEntryView;

    open spec fn view(&self) -> KvEntryView {
        KvEntryView { key: self.key@, value: self.value@ }
    }
}

pub struct KvSpaceStore {
    pub space_name: Vec<char>,
    pub entries: Vec<KvEntry>,
}

#[verifier::ext_equal]
pub struct KvSpaceStoreView {
    pub space_name: Seq<char>,
    pub entries: Seq<KvEntryView>,
}

impl View for KvSpaceStore {
    type V = KvSpaceStoreView;

    open spec fn view(&self) -> KvSpaceStoreView {
        KvSpaceStoreView {
            space_name: self.space_name@,
            entries: self.entries@.map_values(|e: KvEntry| e@),
        }
    }
}

/// The whole key-value state of one node.
pub struct KvState {
    pub stores: Vec<KvSpaceStore>,
}

impl View for KvState {
    type V = Seq<KvSpaceStoreView>;

    open spec fn view(&self) -> Seq<KvSpaceStoreView> {
        self.stores@.map_values(|s: KvSpaceStore| s@)
    }
}

/// Store names are unique and keys are unique per store.
pub open spec fn kv_wf(stores: Seq<KvSpaceStoreView>) -> bool {
    &&& forall|i: int, j: int|
        0 <= i < j < stores.len() ==> #[trigger] stores[i].space_name != #[trigger] stores[
            j
        ].space_name
    &&& forall|i: int, a: int, b: int|
        (0 <= i < stores.len() && 0 <= a < b < stores[i].entries.len()) ==> (
        #[trigger] stores[i].entries[a]).key != (#[trigger] stores[i].entries[b]).key
}

pub open spec fn has_store(stores: Seq<KvSpaceStoreView>, name: Seq<char>) -> bool {
    exists|i: int| 0 <= i < stores.len() && (#[trigger] stores[i]).space_name == name
}

pub open spec fn store_idx(stores: Seq<KvSpaceStoreView>, name: Seq<char>) -> int {
    choose|i: int| 0 <= i < stores.len() && (#[trigger] stores[i]).space_name == name
}

pub open spec fn has_key(entries: Seq<KvEntryView>, key: Seq<char>) -> bool {
    exists|a: int| 0 <= a < entries.len() && (#[trigger] entries[a]).key == key
}

pub open spec fn key_idx(entries: Seq<KvEntryView>, key: Seq<char>) -> int {
    choose|a: int| 0 <= a < entries.len() && (#[trigger] entries[a]).key == key
}

/// The value stored under `(space, key)`, when there is one.
pub open spec fn spec_kv_get(
    stores: Seq<KvSpaceStoreView>,
    name: Seq<char>,
    key: Seq<char>,
) -> Option<Seq<char>> {
    if has_store(stores, name) && has_key(stores[store_idx(stores, name)].entries, key) {
        let e = stores[store_idx(stores, name)].entries;
        Some(e[key_idx(e, key)].value)
    } else {
        None
    }
}

/// What a put does to one store's entries.
pub open spec fn put_entry_spec(
    entries: Seq<KvEntryView>,
    key: Seq<char>,
    value: Seq<char>,
) -> Seq<KvEntryView> {
    if has_key(entries, key) {
        entries.update(key_idx(entries, key), KvEntryView { key, value })
    } else {
        entries.push(KvEntryView { key, value })
    }
}

/// What a put does: update the space's store, creating it on first use.
pub open spec fn kv_put_spec(
    stores: Seq<KvSpaceStoreView>,
    name: Seq<char>,
    key: Seq<char>,
    value: Seq<char>,
) -> Seq<KvSpaceStoreView> {
    if has_store(stores, name) {
        let i = store_idx(stores, name);
        stores.update(
            i,
            KvSpaceStoreView {
                space_name: stores[i].space_name,
                entries: put_entry_spec(stores[i].entries, key, value),
            },
        )
    } else {
        stores.push(
            KvSpaceStoreView {
                space_name: name,
                entries: seq![KvEntryView { key, value }],
            },
        )
    }
}

/// What a remove does: drop the key from the space's store, when both are
/// there.
pub open spec fn kv_remove_spec(
    stores: Seq<KvSpaceStoreView>,
    name: Seq<char>,
    key: Seq<char>,
) -> Seq<KvSpaceStoreView> {
    if has_store(stores, name) && has_key(stores[store_idx(stores, name)].entries, key) {
        let i = store_idx(stores, name);
        stores.update(
            i,
            KvSpaceStoreView {
                space_name: stores[i].space_name,
                entries: stores[i].entries.remove(key_idx(stores[i].entries, key)),
            },
        )
    } else {
        stores
    }
}

proof fn lemma_store_idx_is(stores: Seq<KvSpaceStoreView>, name: Seq<char>, i: int)
    requires
        kv_wf(stores),
        0 <= i < stores.len(),
        stores[i].space_name == name,
    ensures
        has_store(stores, name),
        store_idx(stores, name) == i,
{
    let j = store_idx(stores, name);
    assert(0 <= j < stores.len() && stores[j].space_name == name);
    if i < j {
        assert(stores[i].space_name != stores[j].space_name);
    } else if j < i {
        assert(stores[j].space_name != stores[i].space_name);
    }
}

proof fn lemma_key_idx_is(stores: Seq<KvSpaceStoreView>, i: int, key: Seq<char>, a: int)
    requires
        kv_wf(stores),
        0 <= i < stores.len(),
        0 <= a < stores[i].entries.len(),
        stores[i].entries[a].key == key,
    ensures
        has_key(stores[i].entries, key),
        key_idx(stores[i].entries, key) == a,
{
    let e = stores[i].entries;
    let b = key_idx(e, key);
    assert(0 <= b < e.len() && e[b].key == key);
    if a < b {
        assert(stores[i].entries[a].key != stores[i].entries[b].key);
    } else if b < a {
        assert(stores[i].entries[b].key != stores[i].entries[a].key);
    }
}

/// Inserts or replaces one entry by key.
fn put_entry(entries: &mut Vec<KvEntry>, key: &Vec<char>, value: &Vec<char>)
    requires
        forall|a: int, b: int|
            0 <= a < b < old(entries)@.len() ==> (#[trigger] old(entries)@[a]@).key != (
            #[trigger] old(entries)@[b]@).key,
    ensures
        final(entries)@.map_values(|e: KvEntry| e@) == put_entry_spec(
            old(entries)@.map_values(|e: KvEntry| e@),
            key@,
            value@,
        ),
{
    let ghost old_e = entries@.map_values(|e: KvEntry| e@);
    proof {
        assert(forall|a: int, b: int|
            0 <= a < b < old_e.len() ==> (#[trigger] old_e[a]).key != (#[trigger] old_e[b]).key);
    }
    let rec = KvEntry { key: clone_chars(key), value: clone_chars(value) };
    proof {
        assert(rec@ =~~= KvEntryView { key: key@, value: value@ });
    }
    let n: usize = entries.len();
    let mut a: usize = 0;
    while a < n
        invariant
            n == entries@.len(),
            old_e == entries@.map_values(|e: KvEntry| e@),
            old_e == old(entries)@.map_values(|e: KvEntry| e@),
            forall|x: int, y: int|
                0 <= x < y < old_e.len() ==> (#[trigger] old_e[x]).key != (
                #[trigger] old_e[y]).key,
            a <= n,
            rec@ == (KvEntryView { key: key@, value: value@ }),
            forall|b: int| 0 <= b < a ==> (#[trigger] old_e[b]).key != key@,
        decreases n - a,
    {
        if chars_eq(&entries[a].key, key) {
            proof {
                assert(old_e[a as int] == entries@[a as int]@);
            }
            let _ = entries.remove(a);
            entries.insert(a, rec);
            proof {
                assert(has_key(old_e, key@)) by {
                    assert(old_e[a as int].key == key@);
                }
                let b = key_idx(old_e, key@);
                assert(0 <= b < old_e.len() && old_e[b].key == key@);
                if b < a as int {
                    assert(old_e[b].key != old_e[a as int].key);
                } else if b > a as int {
                    assert(old_e[a as int].key != old_e[b].key);
                }
                assert(b == a as int);
                crate::engine::lemma_remove_insert(old_e, a as int, rec@);
                assert(entries@.map_values(|e: KvEntry| e@) =~= old_e.update(a as int, rec@));
            }
            return;
        }
        a += 1;
    }
    entries.push(rec);
    proof {
        if has_key(old_e, key@) {
            let b = key_idx(old_e, key@);
            assert(old_e[b].key != key@);
        }
        assert(entries@.map_values(|e: KvEntry| e@) =~= old_e.push(rec@));
    }
}

impl KvState {
    pub fn new() -> (r: KvState)
        ensures
            r@ =~= Seq::<KvSpaceStoreView>::empty(),
            kv_wf(r@),
    {
        KvState { stores: Vec::new() }
    }

    fn find_store(&self, name: &Vec<char>) -> (r: Option<usize>)
        requires
            kv_wf(self@),
        ensures
            match r {
                Some(i) => has_store(self@, name@) && i == store_idx(self@, name@) && i
                    < self@.len(),
                None => !has_store(self@, name@),
            },
    {
        let n: usize = self.stores.len();
        let mut i: usize = 0;
        while i < n
            invariant
                kv_wf(self@),
                n == self@.len(),
                i <= n,
                forall|j: int| 0 <= j < i ==> (#[trigger] self@[j]).space_name != name@,
            decreases n - i,
        {
            if chars_eq(&self.stores[i].space_name, name) {
                proof {
                    assert(self@[i as int] == self.stores@[i as int]@);
                    lemma_store_idx_is(self@, name@, i as int);
                }
                return Some(i);
            }
            i += 1;
        }
        proof {
            if has_store(self@, name@) {
                let j = store_idx(self@, name@);
                assert(self@[j].space_name != name@);
            }
        }
        None
    }

    /// Stores `value` under `(space, key)`, replacing any previous value.
    pub fn put_key(&mut self, name: &Vec<char>, key: &Vec<char>, value: &Vec<char>)
        requires
            kv_wf(old(self)@),
        ensures
            kv_wf(final(self)@),
            final(self)@ == kv_put_spec(old(self)@, name@, key@, value@),
    {
        let ghost old_st = self@;
        match self.find_store(name) {
            Some(i) => {
                let mut st = self.stores.remove(i);
                let ghost old_e = st@.entries;
                proof {
                    assert(st@ == old_st[i as int]);
                    assert(forall|a: int, b: int|
                        0 <= a < b < st.entries@.len() ==> (#[trigger] st.entries@[a]@).key != (
                        #[trigger] st.entries@[b]@).key) by {
                        assert(forall|a: int|
                            0 <= a < st.entries@.len() ==> (#[trigger] st.entries@[a]@)
                                == old_st[i as int].entries[a]);
                    }
                }
                put_entry(&mut st.entries, key, value);
                self.stores.insert(i, st);
                proof {
                    let target = kv_put_spec(old_st, name@, key@, value@);
                    crate::engine::lemma_remove_insert(old_st, i as int, self@[i as int]);
                    assert(self@ =~= old_st.update(i as int, self@[i as int]));
                    assert(self@[i as int] =~~= KvSpaceStoreView {
                        space_name: old_st[i as int].space_name,
                        entries: put_entry_spec(old_e, key@, value@),
                    });
                    assert(self@ =~~= target);
                    assert(kv_wf(self@)) by {
                        assert(forall|j: int|
                            0 <= j < self@.len() && j != i ==> self@[j] == old_st[j]);
                        if has_key(old_e, key@) {
                            let a = key_idx(old_e, key@);
                            assert(forall|b: int|
                                0 <= b < self@[i as int].entries.len() && b != a ==> self@[
                                    i as int
                                ].entries[b] == old_st[i as int].entries[b]);
                            assert(self@[i as int].entries[a].key == key@);
                        } else {
                            assert(forall|b: int|
                                0 <= b < old_e.len() ==> self@[i as int].entries[b] == old_st[
                                    i as int
                                ].entries[b]);
                            assert forall|b: int| 0 <= b < old_e.len() implies (
                            #[trigger] old_e[b]).key != key@ by {
                                if old_e[b].key == key@ {
                                    assert(has_key(old_e, key@));
                                }
                            }
                        }
                    }
                }
            },
            None => {
                let mut entries: Vec<KvEntry> = Vec::new();
                entries.push(KvEntry { key: clone_chars(key), value: clone_chars(value) });
                let st = KvSpaceStore { space_name: clone_chars(name), entries };
                self.stores.push(st);
                proof {
                    assert(self@ =~= old_st.push(self@[old_st.len() as int]));
                    assert(self@[old_st.len() as int].entries =~= seq![
                        KvEntryView { key: key@, value: value@ },
                    ]);
                    assert(self@[old_st.len() as int] =~~= KvSpaceStoreView {
                        space_name: name@,
                        entries: seq![KvEntryView { key: key@, value: value@ }],
                    });
                    assert(self@ =~~= kv_put_spec(old_st, name@, key@, value@));
                    assert(kv_wf(self@)) by {
                        assert(forall|j: int| 0 <= j < old_st.len() ==> self@[j] == old_st[j]);
                    }
                }
            },
        }
    }

    /// Drops `(space, key)`; unknown spaces and keys are left as they are.
    pub fn remove_key(&mut self, name: &Vec<char>, key: &Vec<char>)
        requires
            kv_wf(old(self)@),
        ensures
            kv_wf(final(self)@),
            final(self)@ == kv_remove_spec(old(self)@, name@, key@),
    {
        let ghost old_st = self@;
        let i = match self.find_store(name) {
            Some(i) => i,
            None => {
                return;
            },
        };
        let found = self.find_key(i, key);
        let mut st = self.stores.remove(i);
        let ghost old_e = st@.entries;
        match found {
            Some(a) => {
                proof {
                    lemma_key_idx_is(old_st, i as int, key@, a as int);
                }
                let _ = st.entries.remove(a);
                self.stores.insert(i, st);
                proof {
                    let target = kv_remove_spec(old_st, name@, key@);
                    crate::engine::lemma_remove_insert(old_st, i as int, self@[i as int]);
                    assert(self@ =~= old_st.update(i as int, self@[i as int]));
                    assert(self@[i as int].entries =~= old_e.remove(a as int));
                    assert(self@[i as int] =~~= KvSpaceStoreView {
                        space_name: old_st[i as int].space_name,
                        entries: old_e.remove(a as int),
                    });
                    assert(self@ =~~= target);
                    assert(kv_wf(self@)) by {
                        assert(forall|j: int|
                            0 <= j < self@.len() && j != i ==> self@[j] == old_st[j]);
                        assert(forall|b: int|
                            0 <= b < self@[i as int].entries.len() ==> self@[i as int].entries[b]
                                == old_e[if b < a as int {
                                b
                            } else {
                                b + 1
                            }]);
                    }
                }
            },
            None => {
                self.stores.insert(i, st);
                proof {
                    crate::engine::lemma_remove_insert(old_st, i as int, self@[i as int]);
                    assert(self@[i as int] =~~= old_st[i as int]);
                    assert(self@ =~= old_st.update(i as int, self@[i as int]));
                    assert(self@ =~~= old_st);
                }
            },
        }
    }

    /// The position of `key` inside store number `i`.
    fn find_key(&self, i: usize, key: &Vec<char>) -> (r: Option<usize>)
        requires
            kv_wf(self@),
            i < self@.len(),
        ensures
            match r {
                Some(a) => has_key(self@[i as int].entries, key@) && a == key_idx(
                    self@[i as int].entries,
                    key@,
                ) && a < self@[i as int].entries.len(),
                None => !has_key(self@[i as int].entries, key@),
            },
    {
        let ghost e = self@[i as int].entries;
        let n: usize = self.stores[i].entries.len();
        let mut a: usize = 0;
        while a < n
            invariant
                kv_wf(self@),
                i < self@.len(),
                e == self@[i as int].entries,
                n == e.len(),
                a <= n,
                forall|b: int| 0 <= b < a ==> (#[trigger] e[b]).key != key@,
            decreases n - a,
        {
            if chars_eq(&self.stores[i].entries[a].key, key) {
                proof {
                    assert(e[a as int] == self.stores@[i as int].entries@[a as int]@);
                    lemma_key_idx_is(self@, i as int, key@, a as int);
                }
                return Some(a);
            }
            a += 1;
        }
        proof {
            if has_key(e, key@) {
                let b = key_idx(e, key@);
                assert(e[b].key != key@);
            }
        }
        None
    }

    /// The value stored under `(space, key)`.
    pub fn get_key(&self, name: &Vec<char>, key: &Vec<char>) -> (r: Option<Vec<char>>)
        requires
            kv_wf(self@),
        ensures
            match r {
                Some(v) => spec_kv_get(self@, name@, key@) == Some(v@),
                None => spec_kv_get(self@, name@, key@) is None,
            },
    {
        let i = match self.find_store(name) {
            Some(i) => i,
            None => {
                return None;
            },
        };
        let ghost e = self@[i as int].entries;
        let n: usize = self.stores[i].entries.len();
        let mut a: usize = 0;
        while a < n
            invariant
                kv_wf(self@),
                i < self@.len(),
                has_store(self@, name@),
                i as int == store_idx(self@, name@),
                e == self@[i as int].entries,
                n == e.len(),
                a <= n,
                forall|b: int| 0 <= b < a ==> (#[trigger] e[b]).key != key@,
            decreases n - a,
        {
            if chars_eq(&self.stores[i].entries[a].key, key) {
                proof {
                    assert(e[a as int] == self.stores@[i as int].entries@[a as int]@);
                    lemma_key_idx_is(self@, i as int, key@, a as int);
                }
                return Some(clone_chars(&self.stores[i].entries[a].value));
            }
            a += 1;
        }
        proof {
            if has_key(e, key@) {
                let b = key_idx(e, key@);
                assert(e[b].key != key@);
            }
        }
        None
    }

    /// A JSON page of the keys under a space, with the full count.
    pub fn list_keys_json(&self, name: &Vec<char>, start: usize, limit: usize) -> (r: Vec<char>)
        requires
            kv_wf(self@),
        ensures
            r@ == json_of_key_list(
                kv_keys_of(self@, name@),
                crate::report::page_of(kv_keys_of(self@, name@), start as nat, limit as nat),
            ),
    {
        let ghost all = kv_keys_of(self@, name@);
        match self.find_store(name) {
            Some(i) => {
                proof {
                    assert(all =~= keys_of(self@[i as int].entries)) by {
                        lemma_keys_of(self@[i as int].entries);
                    }
                }
                self.print_keys(i, start, limit)
            },
            None => {
                let mut out: Vec<char> = Vec::new();
                push_str_chars(&mut out, "{\"keys\":[");
                push_str_chars(&mut out, "],\"total_count\":");
                push_dec_u64(0, &mut out);
                push_str_chars(&mut out, "}");
                proof {
                    assert(all =~= Seq::<Seq<char>>::empty());
                    let page = crate::report::page_of(all, start as nat, limit as nat);
                    assert(page =~= Seq::<Seq<char>>::empty());
                    assert(json_of_keys(page) =~= Seq::<char>::empty());
                    assert(out@ =~= json_of_key_list(all, page));
                }
                out
            },
        }
    }

    fn print_keys(&self, i: usize, start: usize, limit: usize) -> (r: Vec<char>)
        requires
            kv_wf(self@),
            i < self@.len(),
        ensures
            r@ == json_of_key_list(
                keys_of(self@[i as int].entries),
                crate::report::page_of(keys_of(self@[i as int].entries), start as nat, limit as nat),
            ),
    {
        let ghost e = self@[i as int].entries;
        let ghost all = keys_of(e);
        proof {
            lemma_keys_of(e);
        }
        let n: usize = self.stores[i].entries.len();
        let lo: usize = if start < n {
            start
        } else {
            n
        };
        let hi: usize = if limit > n - lo {
            n
        } else {
            lo + limit
        };
        let ghost page = crate::report::page_of(all, start as nat, limit as nat);
        proof {
            assert(all.len() == e.len());
            assert(page =~= all.subrange(lo as int, hi as int));
        }
        let mut out: Vec<char> = Vec::new();
        push_str_chars(&mut out, "{\"keys\":[");
        let mut a: usize = lo;
        while a < hi
            invariant
                kv_wf(self@),
                i < self@.len(),
                e == self@[i as int].entries,
                all == keys_of(e),
                all.len() == e.len(),
                forall|b: int| 0 <= b < e.len() ==> all[b] == (#[trigger] e[b]).key,
                n == e.len(),
                lo <= a <= hi <= n,
                out@ == "{\"keys\":["@ + json_of_keys(all.subrange(lo as int, a as int)),
            decreases hi - a,
        {
            if a > lo {
                push_str_chars(&mut out, ",\"");
            } else {
                push_str_chars(&mut out, "\"");
            }
            proof {
                assert(e[a as int] == self.stores@[i as int].entries@[a as int]@);
            }
            push_escaped(&self.stores[i].entries[a].key, &mut out);
            push_str_chars(&mut out, "\"");
            a += 1;
            proof {
                let pre = all.subrange(lo as int, a - 1);
                let cur = all.subrange(lo as int, a as int);
                assert(cur.drop_last() =~= pre);
                assert(cur.last() == all[a - 1]);
                assert(out@ =~= "{\"keys\":["@ + json_of_keys(cur));
            }
        }
        push_str_chars(&mut out, "],\"total_count\":");
        push_dec_u64(n as u64, &mut out);
        push_str_chars(&mut out, "}");
        proof {
            assert(out@ =~= json_of_key_list(all, page));
        }
        out
    }
}

/// The keys of one store, in storage order.
pub open spec fn keys_of(entries: Seq<KvEntryView>) -> Seq<Seq<char>> {
    entries.map_values(|e: KvEntryView| e.key)
}

proof fn lemma_keys_of(entries: Seq<KvEntryView>)
    ensures
        keys_of(entries).len() == entries.len(),
        forall|b: int| 0 <= b < entries.len() ==> keys_of(entries)[b] == (#[trigger] entries[b]).key,
{
}

/// The keys under a space; an absent store lists nothing.
pub open spec fn kv_keys_of(stores: Seq<KvSpaceStoreView>, name: Seq<char>) -> Seq<Seq<char>> {
    if has_store(stores, name) {
        keys_of(stores[store_idx(stores, name)].entries)
    } else {
        Seq::<Seq<char>>::empty()
    }
}

pub open spec fn json_of_keys(keys: Seq<Seq<char>>) -> Seq<char>
    decreases keys.len(),
{
    if keys.len() == 0 {
        Seq::<char>::empty()
    } else if keys.len() == 1 {
        "\""@ + esc_str(keys[0]) + "\""@
    } else {
        json_of_keys(keys.drop_last()) + ",\""@ + esc_str(keys.last()) + "\""@
    }
}

/// The key listing: the page's keys, and the count of all of them.
pub open spec fn json_of_key_list(all: Seq<Seq<char>>, page: Seq<Seq<char>>) -> Seq<char> {
    "{\"keys\":["@ + json_of_keys(page) + "],\"total_count\":"@ + dec_chars(all.len() as nat)
        + "}"@
}

/// What a put stores is what a get then finds.
pub proof fn lemma_kv_put_get(
    stores: Seq<KvSpaceStoreView>,
    name: Seq<char>,
    key: Seq<char>,
    value: Seq<char>,
)
    requires
        kv_wf(stores),
    ensures
        spec_kv_get(kv_put_spec(stores, name, key, value), name, key) == Some(value),
{
    let ns = kv_put_spec(stores, name, key, value);
    if has_store(stores, name) {
        let i = store_idx(stores, name);
        assert(ns[i].space_name == name);
        assert(has_store(ns, name));
        let j = store_idx(ns, name);
        assert(0 <= j < ns.len() && ns[j].space_name == name);
        assert(forall|b: int| 0 <= b < ns.len() && b != i ==> ns[b] == stores[b]);
        if j != i {
            assert(stores[j].space_name == name);
            if i < j {
                assert(stores[i].space_name != stores[j].space_name);
            } else {
                assert(stores[j].space_name != stores[i].space_name);
            }
        }
        let e = stores[i].entries;
        let ne = ns[i].entries;
        if has_key(e, key) {
            let a = key_idx(e, key);
            assert(ne[a].key == key);
            assert(has_key(ne, key));
            let b = key_idx(ne, key);
            assert(0 <= b < ne.len() && ne[b].key == key);
            if b != a {
                assert(e[b].key == key);
                if a < b {
                    assert(stores[i].entries[a].key != stores[i].entries[b].key);
                } else {
                    assert(stores[i].entries[b].key != stores[i].entries[a].key);
                }
            }
            assert(ne[b].value == value);
        } else {
            let a = e.len() as int;
            assert(ne[a].key == key);
            assert(has_key(ne, key));
            let b = key_idx(ne, key);
            assert(0 <= b < ne.len() && ne[b].key == key);
            if b < a {
                assert(e[b].key == key);
                assert(has_key(e, key));
            }
            assert(ne[b].value == value);
        }
    } else {
        let i = stores.len() as int;
        assert(ns[i].space_name == name);
        assert(has_store(ns, name));
        let j = store_idx(ns, name);
        assert(0 <= j < ns.len() && ns[j].space_name == name);
        if j < i {
            assert(stores[j].space_name == name);
            assert(has_store(stores, name));
        }
        let ne = ns[i].entries;
        assert(ne[0].key == key && ne[0].value == value);
        assert(has_key(ne, key));
        let b = key_idx(ne, key);
        assert(0 <= b < ne.len() && ne[b].key == key);
        assert(b == 0);
    }
}

} // verus!
