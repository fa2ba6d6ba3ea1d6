//! The identity cache: resolves `(space_name, version_unique_id)` to the
//! internal version and vector-index ids, remembering answers until a
//! schema change invalidates them. Every cached answer agrees with the
//! metadata it was read from — that is the cache-coherence invariant — and
//! lookups answer exactly what the engine itself would.

use vstd::prelude::*;
use crate::engine::EngineState;
use crate::engine::EngineView;
use crate::engine::engine_wf;
use crate::engine::has_space;
use crate::engine::resolved_version_idx;
use crate::engine::space_idx;
use crate::engine::version_resolves;
use crate::text::chars_eq;
use crate::text::clone_chars;

verus! {

pub struct CacheEntry {
    pub space_name: Vec<char>,
    pub unique_id: i32,
    pub version_id: u64,
    pub vector_index_id: u64,
}

#[verifier::ext_equal]
pub struct CacheEntryView {
    pub space_name: Seq<char>,
    pub unique_id: i32,
    pub version_id: u64,
    pub vector_index_id: u64,
}

impl View for CacheEntry {
    type V = CacheEntryView;

    open spec fn view(&self) -> CacheEntryView {
        CacheEntryView {
            space_name: self.space_name@,
            unique_id: self.unique_id,
            version_id: self.version_id,
            vector_index_id: self.vector_index_id,
        }
    }
}

/// The version id the engine resolves `(name, uid)` to; 0 when the space or
/// version is absent. Unique id 0 addresses the default version.
pub open spec fn spec_version_id(ev: EngineView, name: Seq<char>, uid: i32) -> u64 {
    if has_space(ev.spaces, name) && version_resolves(
        ev.spaces[space_idx(ev.spaces, name)],
        uid,
    ) {
        let sp = ev.spaces[space_idx(ev.spaces, name)];
        sp.versions[resolved_version_idx(sp, uid)].version_id
    } else {
        0
    }
}

/// The vector-index id the engine resolves `(name, uid)` to; 0 when absent.
pub open spec fn spec_vector_index_id(ev: EngineView, name: Seq<char>, uid: i32) -> u64 {
    if has_space(ev.spaces, name) && version_resolves(
        ev.spaces[space_idx(ev.spaces, name)],
        uid,
    ) {
        let sp = ev.spaces[space_idx(ev.spaces, name)];
        sp.versions[resolved_version_idx(sp, uid)].vector_index_id
    } else {
        0
    }
}

/// Cache coherence: every remembered answer is what the engine answers.
pub open spec fn cache_coherent(ev: EngineView, entries: Seq<CacheEntryView>) -> bool {
    forall|i: int|
        0 <= i < entries.len() ==> (#[trigger] entries[i]).version_id == spec_version_id(
            ev,
            entries[i].space_name,
            entries[i].unique_id,
        ) && entries[i].vector_index_id == spec_vector_index_id(
            ev,
            entries[i].space_name,
            entries[i].unique_id,
        ) && entries[i].version_id != 0
}

/// The name-resolution cache. Reverse lookups (id to name) are answered
/// from the metadata directly, so only forward answers are remembered.
pub struct IdCacheManagerWrapper {
    pub entries: Vec<CacheEntry>,
}

impl IdCacheManagerWrapper {
    pub open spec fn view(&self) -> Seq<CacheEntryView> {
        self.entries@.map_values(|e: CacheEntry| e@)
    }

    /// An empty cache, coherent with any engine.
    pub fn new() -> (r: IdCacheManagerWrapper)
        ensures
            r.view() =~= Seq::<CacheEntryView>::empty(),
    {
        IdCacheManagerWrapper { entries: Vec::new() }
    }

    /// Drops every entry.
    pub fn clean(&mut self)
        ensures
            final(self).view() =~= Seq::<CacheEntryView>::empty(),
    {
        self.entries.clear();
    }

    /// Drops the name-to-id entries. All entries resolve names, so this
    /// empties the cache, as `clean` does.
    pub fn clear_space_name_cache(&mut self)
        ensures
            final(self).view() =~= Seq::<CacheEntryView>::empty(),
    {
        self.entries.clear();
    }

    /// The version id for `(name, uid)`: from the cache when remembered,
    /// else from the engine, remembering a present answer. Returns 0 when
    /// the space or version does not exist.
    pub fn get_version_id(&mut self, engine: &EngineState, name: &Vec<char>, uid: i32) -> (r: u64)
        requires
            engine_wf(engine@),
            cache_coherent(engine@, old(self).view()),
        ensures
            r == spec_version_id(engine@, name@, uid),
            cache_coherent(engine@, final(self).view()),
    {
        match self.lookup_or_load(engine, name, uid) {
            Some(e) => e.0,
            None => 0,
        }
    }

    /// The version id of the space's default version, 0 when no such space.
    pub fn get_default_version_id(&mut self, engine: &EngineState, name: &Vec<char>) -> (r: u64)
        requires
            engine_wf(engine@),
            cache_coherent(engine@, old(self).view()),
        ensures
            r == spec_version_id(engine@, name@, 0),
            cache_coherent(engine@, final(self).view()),
    {
        self.get_version_id(engine, name, 0)
    }

    /// The vector-index id for `(name, uid)`, 0 when absent.
    pub fn get_vector_index_id(&mut self, engine: &EngineState, name: &Vec<char>, uid: i32) -> (r:
        u64)
        requires
            engine_wf(engine@),
            cache_coherent(engine@, old(self).view()),
        ensures
            r == spec_vector_index_id(engine@, name@, uid),
            cache_coherent(engine@, final(self).view()),
    {
        match self.lookup_or_load(engine, name, uid) {
            Some(e) => e.1,
            None => 0,
        }
    }

    /// Both ids for `(name, uid)`, loading and remembering on a miss.
    fn lookup_or_load(&mut self, engine: &EngineState, name: &Vec<char>, uid: i32) -> (r: Option<
        (u64, u64),
    >)
        requires
            engine_wf(engine@),
            cache_coherent(engine@, old(self).view()),
        ensures
            cache_coherent(engine@, final(self).view()),
            match r {
                Some(ids) => ids.0 == spec_version_id(engine@, name@, uid) && ids.1
                    == spec_vector_index_id(engine@, name@, uid),
                None => spec_version_id(engine@, name@, uid) == 0 && spec_vector_index_id(
                    engine@,
                    name@,
                    uid,
                ) == 0,
            },
    {
        let n: usize = self.entries.len();
        let mut i: usize = 0;
        while i < n
            invariant
                engine_wf(engine@),
                cache_coherent(engine@, self.view()),
                self.view() == old(self).view(),
                n == self.entries@.len(),
                i <= n,
            decreases n - i,
        {
            if self.entries[i].unique_id == uid && chars_eq(&self.entries[i].space_name, name) {
                proof {
                    assert(self.view()[i as int] == self.entries@[i as int]@);
                }
                return Some((self.entries[i].version_id, self.entries[i].vector_index_id));
            }
            i += 1;
        }
        let si = match engine.find_space(name) {
            Some(si) => si,
            None => {
                return None;
            },
        };
        let k = match engine.find_version_in(si, uid) {
            Some(k) => k,
            None => {
                return None;
            },
        };
        let vid = engine.spaces[si].versions[k].version_id;
        let viid = engine.spaces[si].versions[k].vector_index_id;
        proof {
            assert(engine@.spaces[si as int].versions[k as int] == engine.spaces@[
                si as int
            ].versions@[k as int]@);
        }
        if vid == 0 {
            // ids are handed out starting at 1, so a stored version never
            // carries 0; an engine value outside that range is not cached
            return Some((vid, viid));
        }
        let ghost before = self.view();
        let entry = CacheEntry {
            space_name: clone_chars(name),
            unique_id: uid,
            version_id: vid,
            vector_index_id: viid,
        };
        self.entries.push(entry);
        proof {
            assert(self.view() =~= before.push(entry@));
            assert(entry@.version_id == spec_version_id(engine@, name@, uid));
            assert(entry@.vector_index_id == spec_vector_index_id(engine@, name@, uid));
            assert(cache_coherent(engine@, self.view())) by {
                assert(forall|j: int| 0 <= j < before.len() ==> self.view()[j] == before[j]);
                assert(self.view()[before.len() as int] == entry@);
            }
        }
        Some((vid, viid))
    }

    /// The owning space name and unique id of the version with this global
    /// id, read from the metadata.
    pub fn get_space_name_and_version_unique_id(&self, engine: &EngineState, version_id: u64) -> (r:
        Option<(Vec<char>, i32)>)
        requires
            engine_wf(engine@),
        ensures
            match r {
                Some(p) => exists|i: int, k: int|
                    0 <= i < engine@.spaces.len() && 0 <= k < (
                    #[trigger] engine@.spaces[i]).versions.len() && (
                    #[trigger] engine@.spaces[i].versions[k]).version_id == version_id
                        && p.0@ == engine@.spaces[i].name && p.1 == engine@.spaces[i].versions[k].unique_id,
                None => forall|i: int, k: int|
                    (0 <= i < engine@.spaces.len() && 0 <= k < (
                    #[trigger] engine@.spaces[i]).versions.len()) ==> (
                    #[trigger] engine@.spaces[i].versions[k]).version_id != version_id,
            },
    {
        let n: usize = engine.spaces.len();
        let mut i: usize = 0;
        while i < n
            invariant
                engine_wf(engine@),
                n == engine@.spaces.len(),
                i <= n,
                forall|a: int, k: int|
                    (0 <= a < i && 0 <= k < (#[trigger] engine@.spaces[a]).versions.len()) ==> (
                    #[trigger] engine@.spaces[a].versions[k]).version_id != version_id,
            decreases n - i,
        {
            let m: usize = engine.spaces[i].versions.len();
            let mut k: usize = 0;
            while k < m
                invariant
                    engine_wf(engine@),
                    i < n == engine@.spaces.len(),
                    m == engine@.spaces[i as int].versions.len(),
                    k <= m,
                    forall|a: int, b: int|
                        (0 <= a < i && 0 <= b < (#[trigger] engine@.spaces[a]).versions.len()) ==> (
                        #[trigger] engine@.spaces[a].versions[b]).version_id != version_id,
                    forall|b: int|
                        0 <= b < k ==> (#[trigger] engine@.spaces[i as int].versions[b]).version_id
                            != version_id,
                decreases m - k,
            {
                if engine.spaces[i].versions[k].version_id == version_id {
                    proof {
                        assert(engine@.spaces[i as int].versions[k as int] == engine.spaces@[
                            i as int
                        ].versions@[k as int]@);
                    }
                    return Some(
                        (clone_chars(&engine.spaces[i].name), engine.spaces[i].versions[k].unique_id),
                    );
                }
                k += 1;
            }
            i += 1;
        }
        None
    }

    /// The owning space name and unique id of the version whose vector
    /// index carries this id, read from the metadata.
    pub fn get_space_name_and_version_unique_id_by_vector_index_id(
        &self,
        engine: &EngineState,
        vector_index_id: u64,
    ) -> (r: Option<(Vec<char>, i32)>)
        requires
            engine_wf(engine@),
        ensures
            match r {
                Some(p) => exists|i: int, k: int|
                    0 <= i < engine@.spaces.len() && 0 <= k < (
                    #[trigger] engine@.spaces[i]).versions.len() && (
                    #[trigger] engine@.spaces[i].versions[k]).vector_index_id == vector_index_id
                        && p.0@ == engine@.spaces[i].name && p.1 == engine@.spaces[i].versions[k].unique_id,
                None => forall|i: int, k: int|
                    (0 <= i < engine@.spaces.len() && 0 <= k < (
                    #[trigger] engine@.spaces[i]).versions.len()) ==> (
                    #[trigger] engine@.spaces[i].versions[k]).vector_index_id != vector_index_id,
            },
    {
        let n: usize = engine.spaces.len();
        let mut i: usize = 0;
        while i < n
            invariant
                engine_wf(engine@),
                n == engine@.spaces.len(),
                i <= n,
                forall|a: int, k: int|
                    (0 <= a < i && 0 <= k < (#[trigger] engine@.spaces[a]).versions.len()) ==> (
                    #[trigger] engine@.spaces[a].versions[k]).vector_index_id != vector_index_id,
            decreases n - i,
        {
            let m: usize = engine.spaces[i].versions.len();
            let mut k: usize = 0;
            while k < m
                invariant
                    engine_wf(engine@),
                    i < n == engine@.spaces.len(),
                    m == engine@.spaces[i as int].versions.len(),
                    k <= m,
                    forall|a: int, b: int|
                        (0 <= a < i && 0 <= b < (#[trigger] engine@.spaces[a]).versions.len()) ==> (
                        #[trigger] engine@.spaces[a].versions[b]).vector_index_id
                            != vector_index_id,
                    forall|b: int|
                        0 <= b < k ==> (
                        #[trigger] engine@.spaces[i as int].versions[b]).vector_index_id
                            != vector_index_id,
                decreases m - k,
            {
                if engine.spaces[i].versions[k].vector_index_id == vector_index_id {
                    proof {
                        assert(engine@.spaces[i as int].versions[k as int] == engine.spaces@[
                            i as int
                        ].versions@[k as int]@);
                    }
                    return Some(
                        (clone_chars(&engine.spaces[i].name), engine.spaces[i].versions[k].unique_id),
                    );
                }
                k += 1;
            }
            i += 1;
        }
        None
    }
}

} // verus!
