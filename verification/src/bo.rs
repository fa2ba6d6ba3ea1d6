//! The engine facade: one value owning the vector engine, the snapshot
//! archive store, the RBAC token store, the identity cache and the
//! per-space key-value state. Read paths answer JSON; mutations go through
//! typed operations whose results the engine spec functions give exactly.
//!
//! Schema mutations invalidate the identity cache; vector upserts do not,
//! and a lemma shows the cache stays coherent across them.

use vstd::prelude::*;
use crate::engine::EngineError;
use crate::engine::EngineState;
use crate::engine::EngineView;
use crate::engine::create_space_spec;
use crate::engine::create_version_spec;
use crate::engine::delete_space_spec;
use crate::engine::engine_wf;
use crate::engine::has_space;
use crate::engine::resolved_version_idx;
use crate::engine::space_idx;
use crate::engine::update_space_spec;
use crate::engine::upsert_vectors_spec;
use crate::engine::version_resolves;
use crate::idcache::CacheEntryView;
use crate::idcache::IdCacheManagerWrapper;
use crate::idcache::cache_coherent;
use crate::idcache::spec_vector_index_id;
use crate::idcache::spec_version_id;
use crate::kv::KvState;
use crate::kv::kv_wf;
use crate::rbac::RbacTokenServiceManagerWrapper;
use crate::rbac::tokens_wf;
use crate::snapshot::SnapshotServiceManagerWrapper;
use crate::snapshot::archives_wf;
use crate::space::SpaceConfig;
use crate::space::parse_space_config;
use crate::text::chars_vec;
use crate::text::string_from_chars;
use crate::vector::VectorInsert;
use crate::vector::VectorInsertView;
use crate::vector::parse_vectors_payload;
use crate::version::VersionPayload;
use crate::version::parse_version_payload;

verus! {

/// The facade over every store a node owns.
pub struct ATinyVectorsBO {
    pub engine: EngineState,
    pub snapshot: SnapshotServiceManagerWrapper,
    pub rbac_token: RbacTokenServiceManagerWrapper,
    pub id_cache: IdCacheManagerWrapper,
    pub kv: KvState,
}

impl ATinyVectorsBO {
    /// Everything this facade promises of itself between operations.
    pub open spec fn wf(&self) -> bool {
        &&& engine_wf(self.engine@)
        &&& archives_wf(self.snapshot.view())
        &&& tokens_wf(self.rbac_token.view())
        &&& kv_wf(self.kv@)
        &&& cache_coherent(self.engine@, self.id_cache.view())
    }

    /// A fresh facade with no spaces, archives, tokens or keys.
    pub fn new() -> (r: ATinyVectorsBO)
        ensures
            r.wf(),
            r.engine@ == crate::engine::empty_engine(),
            r.snapshot.view() =~= Seq::<crate::snapshot::SnapshotArchiveView>::empty(),
            r.rbac_token.view() =~= Seq::<crate::rbac::TokenRecordView>::empty(),
            r.kv@ =~= Seq::<crate::kv::KvSpaceStoreView>::empty(),
            r.id_cache.view() =~= Seq::<CacheEntryView>::empty(),
    {
        ATinyVectorsBO {
            engine: EngineState::new(),
            snapshot: SnapshotServiceManagerWrapper::new(),
            rbac_token: RbacTokenServiceManagerWrapper::new(),
            id_cache: IdCacheManagerWrapper::new(),
            kv: KvState::new(),
        }
    }

    // -----------------------------------------------------------------------
    // typed mutations — what the apply loop runs
    // -----------------------------------------------------------------------

    /// Creates a space; the cache is invalidated as for every schema change.
    pub fn create_space_parsed(&mut self, cfg: &SpaceConfig) -> (r: Result<(), EngineError>)
        requires
            old(self).wf(),
        ensures
            final(self).wf(),
            final(self).engine@ == create_space_spec(old(self).engine@, cfg@),
            final(self).id_cache.view() =~= Seq::<CacheEntryView>::empty(),
            final(self).snapshot.view() == old(self).snapshot.view(),
            final(self).rbac_token.view() == old(self).rbac_token.view(),
            final(self).rbac_token.mint_serial == old(self).rbac_token.mint_serial,
            final(self).rbac_token.next_id == old(self).rbac_token.next_id,
            final(self).kv@ == old(self).kv@,
            r matches Ok(()) <==> (!has_space(old(self).engine@.spaces, cfg@.name)
                && crate::engine::can_alloc(old(self).engine@)),
    {
        let r = self.engine.create_space_rec(cfg);
        self.id_cache.clear_space_name_cache();
        r
    }

    /// Updates a space's schema; the cache is invalidated.
    pub fn update_space_parsed(&mut self, name: &Vec<char>, cfg: &SpaceConfig) -> (r: Result<
        (),
        EngineError,
    >)
        requires
            old(self).wf(),
        ensures
            final(self).wf(),
            final(self).engine@ == update_space_spec(old(self).engine@, name@, cfg@),
            final(self).id_cache.view() =~= Seq::<CacheEntryView>::empty(),
            final(self).snapshot.view() == old(self).snapshot.view(),
            final(self).rbac_token.view() == old(self).rbac_token.view(),
            final(self).rbac_token.next_id == old(self).rbac_token.next_id,
            final(self).kv@ == old(self).kv@,
            r matches Ok(()) <==> has_space(old(self).engine@.spaces, name@),
    {
        let r = self.engine.update_space_rec(name, cfg);
        self.id_cache.clear_space_name_cache();
        r
    }

    /// Deletes a space; the cache is invalidated.
    pub fn delete_space_parsed(&mut self, name: &Vec<char>) -> (r: Result<(), EngineError>)
        requires
            old(self).wf(),
        ensures
            final(self).wf(),
            final(self).engine@ == delete_space_spec(old(self).engine@, name@),
            final(self).id_cache.view() =~= Seq::<CacheEntryView>::empty(),
            final(self).snapshot.view() == old(self).snapshot.view(),
            final(self).rbac_token.view() == old(self).rbac_token.view(),
            final(self).rbac_token.next_id == old(self).rbac_token.next_id,
            final(self).kv@ == old(self).kv@,
            r matches Ok(()) <==> has_space(old(self).engine@.spaces, name@),
            !has_space(final(self).engine@.spaces, name@),
    {
        let r = self.engine.delete_space_rec(name);
        self.id_cache.clear_space_name_cache();
        r
    }

    /// Creates a version; the cache is invalidated.
    pub fn create_version_parsed(&mut self, name: &Vec<char>, vp: &VersionPayload) -> (r: Result<
        (),
        EngineError,
    >)
        requires
            old(self).wf(),
        ensures
            final(self).wf(),
            final(self).engine@ == create_version_spec(old(self).engine@, name@, vp@),
            final(self).id_cache.view() =~= Seq::<CacheEntryView>::empty(),
            final(self).snapshot.view() == old(self).snapshot.view(),
            final(self).rbac_token.view() == old(self).rbac_token.view(),
            final(self).rbac_token.next_id == old(self).rbac_token.next_id,
            final(self).kv@ == old(self).kv@,
            r matches Err(e) && e == EngineError::NoSuchSpace <==> !has_space(
                old(self).engine@.spaces,
                name@,
            ),
            r matches Ok(()) <==> (has_space(old(self).engine@.spaces, name@)
                && crate::engine::can_alloc(old(self).engine@) && old(self).engine@.spaces[
                space_idx(old(self).engine@.spaces, name@)
            ].next_unique_id != i32::MAX),
            r is Err ==> final(self).engine@ == old(self).engine@,
    {
        let r = self.engine.create_version_rec(name, vp);
        self.id_cache.clear_space_name_cache();
        r
    }

    /// Upserts vectors. Pure data mutation: the cache is not invalidated,
    /// and stays coherent because no name-to-id binding moves.
    pub fn upsert_vectors_parsed(&mut self, name: &Vec<char>, uid: i32, inss: &Vec<VectorInsert>)
        -> (r: Result<(), EngineError>)
        requires
            old(self).wf(),
        ensures
            final(self).wf(),
            final(self).engine@ == upsert_vectors_spec(
                old(self).engine@,
                name@,
                uid,
                inss@.map_values(|x: VectorInsert| x@),
            ),
            final(self).id_cache.view() == old(self).id_cache.view(),
            final(self).snapshot.view() == old(self).snapshot.view(),
            final(self).rbac_token.view() == old(self).rbac_token.view(),
            final(self).rbac_token.next_id == old(self).rbac_token.next_id,
            final(self).kv@ == old(self).kv@,
            r matches Ok(()) <==> (has_space(old(self).engine@.spaces, name@) && version_resolves(
                old(self).engine@.spaces[space_idx(old(self).engine@.spaces, name@)],
                uid,
            )),
    {
        let ghost old_ev = self.engine@;
        let ghost cache = self.id_cache.view();
        let r = self.engine.upsert_vectors_rec(name, uid, inss);
        proof {
            lemma_upsert_keeps_cache(
                old_ev,
                name@,
                uid,
                inss@.map_values(|x: VectorInsert| x@),
                cache,
            );
        }
        r
    }

    /// Replaces the whole engine content — the restore path. The cache is
    /// dropped in the same step.
    pub fn install_engine(&mut self, engine: EngineState)
        requires
            old(self).wf(),
            engine_wf(engine@),
        ensures
            final(self).wf(),
            final(self).engine@ == engine@,
            final(self).id_cache.view() =~= Seq::<CacheEntryView>::empty(),
            final(self).snapshot.view() == old(self).snapshot.view(),
            final(self).rbac_token.view() == old(self).rbac_token.view(),
            final(self).rbac_token.next_id == old(self).rbac_token.next_id,
            final(self).kv@ == old(self).kv@,
    {
        self.engine = engine;
        self.id_cache.clean();
    }

    // -----------------------------------------------------------------------
    // the facade surface under its public names
    // -----------------------------------------------------------------------

    /// Creates a space from a JSON payload. The payload must at least name
    /// the space; what it asks beyond the modeled fields rides along to the
    /// index backend.
    pub fn create_space(&mut self, json: &str) -> (r: Result<(), String>)
        requires
            old(self).wf(),
        ensures
            final(self).wf(),
            final(self).snapshot.view() == old(self).snapshot.view(),
            final(self).rbac_token.view() == old(self).rbac_token.view(),
            final(self).kv@ == old(self).kv@,
            match crate::space::spec_parse_space_config(json@) {
                Option::<crate::space::SpaceConfigView>::Some(cfg) => {
                    &&& final(self).engine@ == create_space_spec(old(self).engine@, cfg)
                    &&& (r is Ok <==> (!has_space(old(self).engine@.spaces, cfg.name)
                        && crate::engine::can_alloc(old(self).engine@)))
                },
                Option::<crate::space::SpaceConfigView>::None => r is Err && final(self).engine@
                    == old(self).engine@ && final(self).id_cache.view() == old(self).id_cache.view(),
            },
    {
        let cs = chars_vec(json);
        let cfg = match parse_space_config(&cs) {
            Some(cfg) => cfg,
            None => {
                return Err(error_text("invalid space payload"));
            },
        };
        match self.create_space_parsed(&cfg) {
            Ok(()) => Ok(()),
            Err(e) => Err(engine_error_text(e)),
        }
    }

    /// Updates a space from a JSON payload.
    pub fn update_space(&mut self, space_name: &str, json: &str) -> (r: Result<(), String>)
        requires
            old(self).wf(),
        ensures
            final(self).wf(),
            final(self).snapshot.view() == old(self).snapshot.view(),
            final(self).rbac_token.view() == old(self).rbac_token.view(),
            final(self).kv@ == old(self).kv@,
            match crate::space::spec_parse_space_config(json@) {
                Option::<crate::space::SpaceConfigView>::Some(cfg) => {
                    &&& final(self).engine@ == update_space_spec(
                        old(self).engine@,
                        space_name@,
                        cfg,
                    )
                    &&& (r is Ok <==> has_space(old(self).engine@.spaces, space_name@))
                },
                Option::<crate::space::SpaceConfigView>::None => r is Err && final(self).engine@
                    == old(self).engine@ && final(self).id_cache.view() == old(self).id_cache.view(),
            },
    {
        let name = chars_vec(space_name);
        let cs = chars_vec(json);
        let cfg = match parse_space_config(&cs) {
            Some(cfg) => cfg,
            None => {
                return Err(error_text("invalid space payload"));
            },
        };
        match self.update_space_parsed(&name, &cfg) {
            Ok(()) => Ok(()),
            Err(e) => Err(engine_error_text(e)),
        }
    }

    /// Deletes a space by name.
    pub fn delete_space(&mut self, space_name: &str) -> (r: Result<(), String>)
        requires
            old(self).wf(),
        ensures
            final(self).wf(),
            final(self).engine@ == delete_space_spec(old(self).engine@, space_name@),
            r is Ok <==> has_space(old(self).engine@.spaces, space_name@),
    {
        let name = chars_vec(space_name);
        match self.delete_space_parsed(&name) {
            Ok(()) => Ok(()),
            Err(e) => Err(engine_error_text(e)),
        }
    }

    /// Deletes the version `version_id` addresses inside a space; the
    /// default version stays, so a space never loses its last version.
    /// Version deletion is a local facade operation: the replicated command
    /// set does not carry it, so the apply loop never runs it.
    pub fn delete_version(&mut self, space_name: &str, version_id: i32) -> (r: Result<(), String>)
        requires
            old(self).wf(),
        ensures
            final(self).wf(),
            final(self).engine@ == crate::engine::delete_version_spec(
                old(self).engine@,
                space_name@,
                version_id,
            ),
            final(self).id_cache.view() =~= Seq::<CacheEntryView>::empty(),
            final(self).snapshot.view() == old(self).snapshot.view(),
            final(self).rbac_token.view() == old(self).rbac_token.view(),
            final(self).kv@ == old(self).kv@,
            r is Ok <==> (has_space(old(self).engine@.spaces, space_name@) && version_id != 0
                && crate::engine::has_uid(
                old(self).engine@.spaces[space_idx(old(self).engine@.spaces, space_name@)].versions,
                version_id,
            ) && !old(self).engine@.spaces[space_idx(
                old(self).engine@.spaces,
                space_name@,
            )].versions[crate::engine::uid_idx(
                old(self).engine@.spaces[space_idx(old(self).engine@.spaces, space_name@)].versions,
                version_id,
            )].is_default),
    {
        let name = chars_vec(space_name);
        let r = self.engine.delete_version_rec(&name, version_id);
        self.id_cache.clear_space_name_cache();
        match r {
            Ok(()) => Ok(()),
            Err(e) => Err(engine_error_text(e)),
        }
    }

    /// The JSON report of a space, by engine-assigned id.
    pub fn get_space_by_id(&self, space_id: i32) -> (r: Result<String, String>)
        requires
            self.wf(),
        ensures
            match r {
                Ok(s) => space_id >= 0 && exists|i: int|
                    0 <= i < self.engine@.spaces.len() && (
                    #[trigger] self.engine@.spaces[i]).space_id == space_id as u64 && s@
                        == crate::report::json_of_space(self.engine@.spaces[i]),
                Err(_) => space_id < 0 || forall|i: int|
                    0 <= i < self.engine@.spaces.len() ==> (
                    #[trigger] self.engine@.spaces[i]).space_id != space_id as u64,
            },
    {
        if space_id < 0 {
            return Err(error_text("no such space"));
        }
        match self.engine.get_space_json_by_id(space_id as u64) {
            Some(out) => Ok(string_from_chars(&out)),
            None => Err(error_text("no such space")),
        }
    }

    /// The JSON report of a space, by name.
    pub fn get_space_by_name(&self, space_name: &str) -> (r: Result<String, String>)
        requires
            self.wf(),
        ensures
            match r {
                Ok(s) => has_space(self.engine@.spaces, space_name@) && s@
                    == crate::report::json_of_space(
                    self.engine@.spaces[space_idx(self.engine@.spaces, space_name@)],
                ),
                Err(_) => !has_space(self.engine@.spaces, space_name@),
            },
    {
        let name = chars_vec(space_name);
        match self.engine.get_space_json(&name) {
            Some(out) => Ok(string_from_chars(&out)),
            None => Err(error_text("no such space")),
        }
    }

    /// The JSON listing of every space.
    pub fn get_space_lists(&self) -> (r: Result<String, String>)
        requires
            self.wf(),
        ensures
            r matches Ok(s) && s@ == crate::report::json_of_space_list(self.engine@),
    {
        let out = self.engine.get_space_list_json();
        Ok(string_from_chars(&out))
    }

    /// Creates a version from a JSON payload.
    pub fn create_version(&mut self, space_name: &str, json_str: &str) -> (r: Result<(), String>)
        requires
            old(self).wf(),
        ensures
            final(self).wf(),
            final(self).snapshot.view() == old(self).snapshot.view(),
            final(self).rbac_token.view() == old(self).rbac_token.view(),
            final(self).kv@ == old(self).kv@,
            match crate::version::spec_parse_version_payload(json_str@) {
                Option::<crate::version::VersionPayloadView>::Some(vp) => {
                    &&& final(self).engine@ == create_version_spec(
                        old(self).engine@,
                        space_name@,
                        vp,
                    )
                    &&& (r is Ok <==> (has_space(old(self).engine@.spaces, space_name@)
                        && crate::engine::can_alloc(old(self).engine@)
                        && old(self).engine@.spaces[space_idx(
                            old(self).engine@.spaces,
                            space_name@,
                        )].next_unique_id != i32::MAX))
                },
                Option::<crate::version::VersionPayloadView>::None => r is Err && final(self).engine@ == old(self).engine@ && final(self).id_cache.view() == old(self).id_cache.view(),
            },
    {
        let name = chars_vec(space_name);
        let cs = chars_vec(json_str);
        let vp = match parse_version_payload(&cs) {
            Some(vp) => vp,
            None => {
                return Err(error_text("invalid version payload"));
            },
        };
        match self.create_version_parsed(&name, &vp) {
            Ok(()) => Ok(()),
            Err(e) => Err(engine_error_text(e)),
        }
    }

    /// The JSON report of the version `version_id` addresses (0 for the
    /// default version).
    pub fn get_version_by_id(&self, space_name: &str, version_id: i32) -> (r: Result<
        String,
        String,
    >)
        requires
            self.wf(),
        ensures
            match r {
                Ok(s) => has_space(self.engine@.spaces, space_name@) && version_resolves(
                    self.engine@.spaces[space_idx(self.engine@.spaces, space_name@)],
                    version_id,
                ) && s@ == crate::report::json_of_version(
                    self.engine@.spaces[space_idx(self.engine@.spaces, space_name@)].versions[
                        resolved_version_idx(
                            self.engine@.spaces[space_idx(self.engine@.spaces, space_name@)],
                            version_id,
                        )
                    ],
                ),
                Err(_) => !has_space(self.engine@.spaces, space_name@) || !version_resolves(
                    self.engine@.spaces[space_idx(self.engine@.spaces, space_name@)],
                    version_id,
                ),
            },
    {
        let name = chars_vec(space_name);
        match self.engine.get_version_json(&name, version_id) {
            Some(out) => Ok(string_from_chars(&out)),
            None => Err(error_text("no such version")),
        }
    }

    /// The JSON report of the version with this name.
    pub fn get_version_by_name(&self, space_name: &str, version_name: &str) -> (r: Result<
        String,
        String,
    >)
        requires
            self.wf(),
        ensures
            r matches Ok(s) ==> has_space(self.engine@.spaces, space_name@) && exists|k: int|
                0 <= k < self.engine@.spaces[space_idx(
                    self.engine@.spaces,
                    space_name@,
                )].versions.len() && (#[trigger] self.engine@.spaces[space_idx(
                    self.engine@.spaces,
                    space_name@,
                )].versions[k]).name == version_name@ && s@ == crate::report::json_of_version(
                    self.engine@.spaces[space_idx(self.engine@.spaces, space_name@)].versions[k],
                ),
            r is Err ==> !has_space(self.engine@.spaces, space_name@) || forall|k: int|
                0 <= k < self.engine@.spaces[space_idx(
                    self.engine@.spaces,
                    space_name@,
                )].versions.len() ==> (#[trigger] self.engine@.spaces[space_idx(
                    self.engine@.spaces,
                    space_name@,
                )].versions[k]).name != version_name@,
    {
        let name = chars_vec(space_name);
        let vname = chars_vec(version_name);
        match self.engine.get_version_json_by_name(&name, &vname) {
            Some(out) => Ok(string_from_chars(&out)),
            None => Err(error_text("no such version")),
        }
    }

    /// The JSON report of the default version.
    pub fn get_default_version(&self, space_name: &str) -> (r: Result<String, String>)
        requires
            self.wf(),
        ensures
            match r {
                Ok(s) => has_space(self.engine@.spaces, space_name@) && version_resolves(
                    self.engine@.spaces[space_idx(self.engine@.spaces, space_name@)],
                    0,
                ) && s@ == crate::report::json_of_version(
                    self.engine@.spaces[space_idx(self.engine@.spaces, space_name@)].versions[
                        resolved_version_idx(
                            self.engine@.spaces[space_idx(self.engine@.spaces, space_name@)],
                            0,
                        )
                    ],
                ),
                Err(_) => !has_space(self.engine@.spaces, space_name@) || !version_resolves(
                    self.engine@.spaces[space_idx(self.engine@.spaces, space_name@)],
                    0,
                ),
            },
    {
        self.get_version_by_id(space_name, 0)
    }

    /// The JSON listing of a space's versions.
    pub fn get_version_lists(&self, space_name: &str) -> (r: Result<String, String>)
        requires
            self.wf(),
        ensures
            match r {
                Ok(s) => has_space(self.engine@.spaces, space_name@),
                Err(_) => !has_space(self.engine@.spaces, space_name@),
            },
    {
        self.get_version_lists_page(space_name, 0, usize::MAX)
    }

    /// A page of a space's versions.
    pub fn get_version_lists_page(&self, space_name: &str, start: usize, limit: usize) -> (r:
        Result<String, String>)
        requires
            self.wf(),
        ensures
            match r {
                Ok(s) => has_space(self.engine@.spaces, space_name@) && s@
                    == crate::report::json_of_version_list(
                    self.engine@.spaces[space_idx(self.engine@.spaces, space_name@)],
                    crate::report::page_of(
                        self.engine@.spaces[space_idx(self.engine@.spaces, space_name@)].versions,
                        start as nat,
                        limit as nat,
                    ),
                ),
                Err(_) => !has_space(self.engine@.spaces, space_name@),
            },
    {
        let name = chars_vec(space_name);
        match self.engine.get_version_list_json(&name, start, limit) {
            Some(out) => Ok(string_from_chars(&out)),
            None => Err(error_text("no such space")),
        }
    }

    /// Upserts vectors from a JSON payload into the version `version_id`
    /// addresses (0 for the default version).
    pub fn upsert_vectors(&mut self, space_name: &str, version_id: i32, json: &str) -> (r: Result<
        (),
        String,
    >)
        requires
            old(self).wf(),
        ensures
            final(self).wf(),
            final(self).id_cache.view() == old(self).id_cache.view(),
            final(self).snapshot.view() == old(self).snapshot.view(),
            final(self).rbac_token.view() == old(self).rbac_token.view(),
            final(self).kv@ == old(self).kv@,
            match crate::vector::spec_parse_vectors(json@) {
                Option::<Seq<VectorInsertView>>::Some(vs) => {
                    &&& final(self).engine@ == upsert_vectors_spec(
                        old(self).engine@,
                        space_name@,
                        version_id,
                        vs,
                    )
                    &&& (r is Ok <==> (has_space(old(self).engine@.spaces, space_name@)
                        && version_resolves(
                        old(self).engine@.spaces[space_idx(old(self).engine@.spaces, space_name@)],
                        version_id,
                    )))
                },
                Option::<Seq<VectorInsertView>>::None => r is Err && final(self).engine@ == old(self).engine@,
            },
    {
        let name = chars_vec(space_name);
        let cs = chars_vec(json);
        let inss = match parse_vectors_payload(&cs) {
            Some(v) => v,
            None => {
                return Err(error_text("invalid vectors payload"));
            },
        };
        match self.upsert_vectors_parsed(&name, version_id, &inss) {
            Ok(()) => Ok(()),
            Err(e) => Err(engine_error_text(e)),
        }
    }

    /// The JSON page of the vectors of the version with this global id:
    /// the global id is resolved back to its owning space and unique id,
    /// and that version's full listing is reported.
    pub fn get_vectors_by_version_id(&self, version_id: i32) -> (r: Result<String, String>)
        requires
            self.wf(),
        ensures
            r matches Ok(s) ==> version_id >= 0 && exists|i: int, k: int|
                0 <= i < self.engine@.spaces.len() && 0 <= k < (
                #[trigger] self.engine@.spaces[i]).versions.len() && (
                #[trigger] self.engine@.spaces[i].versions[k]).version_id == version_id as u64
                    && s@ == crate::report::json_of_vector_list(
                    self.engine@.spaces[i].versions[k],
                    crate::report::page_of(
                        self.engine@.spaces[i].versions[k].vectors,
                        0,
                        usize::MAX as nat,
                    ),
                ),
            r is Err ==> version_id < 0 || forall|i: int, k: int|
                (0 <= i < self.engine@.spaces.len() && 0 <= k < (
                #[trigger] self.engine@.spaces[i]).versions.len()) ==> (
                #[trigger] self.engine@.spaces[i].versions[k]).version_id != version_id as u64,
    {
        if version_id < 0 {
            return Err(error_text("no such version"));
        }
        let pair = match self.id_cache.get_space_name_and_version_unique_id(
            &self.engine,
            version_id as u64,
        ) {
            Some(p) => p,
            None => {
                return Err(error_text("no such version"));
            },
        };
        let (name, uid) = pair;
        proof {
            let (oi, ok) = choose|oi: int, ok: int|
                0 <= oi < self.engine@.spaces.len() && 0 <= ok < (
                #[trigger] self.engine@.spaces[oi]).versions.len() && (
                #[trigger] self.engine@.spaces[oi].versions[ok]).version_id == version_id as u64
                    && name@ == self.engine@.spaces[oi].name && uid == self.engine@.spaces[
                    oi
                ].versions[ok].unique_id;
            crate::engine::lemma_space_idx_is(self.engine@.spaces, name@, oi);
            assert(crate::engine::space_wf(self.engine@.spaces[oi]));
            assert(self.engine@.spaces[oi].versions[ok].unique_id >= 1);
            crate::engine::lemma_uid_idx_is(self.engine@.spaces[oi], uid, ok);
        }
        match self.engine.get_vectors_json(&name, uid, 0, usize::MAX) {
            Some(out) => {
                let s = string_from_chars(&out);
                proof {
                    let (oi, ok) = choose|oi: int, ok: int|
                        0 <= oi < self.engine@.spaces.len() && 0 <= ok < (
                        #[trigger] self.engine@.spaces[oi]).versions.len() && (
                        #[trigger] self.engine@.spaces[oi].versions[ok]).version_id == version_id
                            as u64 && name@ == self.engine@.spaces[oi].name && uid
                            == self.engine@.spaces[oi].versions[ok].unique_id;
                    crate::engine::lemma_space_idx_is(self.engine@.spaces, name@, oi);
                    assert(crate::engine::space_wf(self.engine@.spaces[oi]));
                    crate::engine::lemma_uid_idx_is(self.engine@.spaces[oi], uid, ok);
                    assert(resolved_version_idx(self.engine@.spaces[oi], uid) == ok);
                    assert(s@ == crate::report::json_of_vector_list(
                        self.engine@.spaces[oi].versions[ok],
                        crate::report::page_of(
                            self.engine@.spaces[oi].versions[ok].vectors,
                            0,
                            usize::MAX as nat,
                        ),
                    ));
                }
                Ok(s)
            },
            None => Err(error_text("no such version")),
        }
    }

    /// The search answer over the default version: at most `k` candidate
    /// keys in storage order. Ranking by distance is the vector index's
    /// work, outside this crate; the query payload rides along to it.
    pub fn search(&self, space_name: &str, _query_json: &str, k: usize) -> (r: Result<
        String,
        String,
    >)
        requires
            self.wf(),
        ensures
            match r {
                Ok(s) => has_space(self.engine@.spaces, space_name@) && version_resolves(
                    self.engine@.spaces[space_idx(self.engine@.spaces, space_name@)],
                    0,
                ) && s@ == crate::report::json_of_search(
                    self.engine@.spaces[space_idx(self.engine@.spaces, space_name@)].versions[
                        resolved_version_idx(
                            self.engine@.spaces[space_idx(self.engine@.spaces, space_name@)],
                            0,
                        )
                    ],
                    k as nat,
                ),
                Err(_) => !has_space(self.engine@.spaces, space_name@) || !version_resolves(
                    self.engine@.spaces[space_idx(self.engine@.spaces, space_name@)],
                    0,
                ),
            },
    {
        self.search_version(space_name, 0, k)
    }

    /// A page of the vectors of the version `version_id` addresses inside
    /// a space. Filter expressions belong to the metadata backend outside
    /// this crate; the page is reported unfiltered.
    pub fn get_vectors(&self, space_name: &str, version_id: i32, start: usize, limit: usize) -> (r:
        Result<String, String>)
        requires
            self.wf(),
        ensures
            match r {
                Ok(s) => has_space(self.engine@.spaces, space_name@) && version_resolves(
                    self.engine@.spaces[space_idx(self.engine@.spaces, space_name@)],
                    version_id,
                ) && s@ == crate::report::json_of_vector_list(
                    self.engine@.spaces[space_idx(self.engine@.spaces, space_name@)].versions[
                        resolved_version_idx(
                            self.engine@.spaces[space_idx(self.engine@.spaces, space_name@)],
                            version_id,
                        )
                    ],
                    crate::report::page_of(
                        self.engine@.spaces[space_idx(self.engine@.spaces, space_name@)].versions[
                            resolved_version_idx(
                                self.engine@.spaces[space_idx(self.engine@.spaces, space_name@)],
                                version_id,
                            )
                        ].vectors,
                        start as nat,
                        limit as nat,
                    ),
                ),
                Err(_) => !has_space(self.engine@.spaces, space_name@) || !version_resolves(
                    self.engine@.spaces[space_idx(self.engine@.spaces, space_name@)],
                    version_id,
                ),
            },
    {
        let name = chars_vec(space_name);
        match self.engine.get_vectors_json(&name, version_id, start, limit) {
            Some(out) => Ok(string_from_chars(&out)),
            None => Err(error_text("no such version")),
        }
    }

    /// The rerank answer: the same candidate keys a search reports, at
    /// most `k` of them. Scoring them by distance and BM25 belongs to the
    /// index backend outside this crate; the query payload rides along to
    /// it.
    pub fn rerank(&self, space_name: &str, version_id: i32, _query_json: &str, k: usize) -> (r:
        Result<String, String>)
        requires
            self.wf(),
        ensures
            match r {
                Ok(s) => has_space(self.engine@.spaces, space_name@) && version_resolves(
                    self.engine@.spaces[space_idx(self.engine@.spaces, space_name@)],
                    version_id,
                ) && s@ == crate::report::json_of_search(
                    self.engine@.spaces[space_idx(self.engine@.spaces, space_name@)].versions[
                        resolved_version_idx(
                            self.engine@.spaces[space_idx(self.engine@.spaces, space_name@)],
                            version_id,
                        )
                    ],
                    k as nat,
                ),
                Err(_) => !has_space(self.engine@.spaces, space_name@) || !version_resolves(
                    self.engine@.spaces[space_idx(self.engine@.spaces, space_name@)],
                    version_id,
                ),
            },
    {
        self.search_version(space_name, version_id, k)
    }

    /// The search answer over the version `version_id` addresses.
    pub fn search_version(&self, space_name: &str, version_id: i32, k: usize) -> (r: Result<
        String,
        String,
    >)
        requires
            self.wf(),
        ensures
            match r {
                Ok(s) => has_space(self.engine@.spaces, space_name@) && version_resolves(
                    self.engine@.spaces[space_idx(self.engine@.spaces, space_name@)],
                    version_id,
                ) && s@ == crate::report::json_of_search(
                    self.engine@.spaces[space_idx(self.engine@.spaces, space_name@)].versions[
                        resolved_version_idx(
                            self.engine@.spaces[space_idx(self.engine@.spaces, space_name@)],
                            version_id,
                        )
                    ],
                    k as nat,
                ),
                Err(_) => !has_space(self.engine@.spaces, space_name@) || !version_resolves(
                    self.engine@.spaces[space_idx(self.engine@.spaces, space_name@)],
                    version_id,
                ),
            },
    {
        let name = chars_vec(space_name);
        match self.engine.search_json(&name, version_id, k) {
            Some(out) => Ok(string_from_chars(&out)),
            None => Err(error_text("no such version")),
        }
    }
}

/// An owned error message.
pub fn error_text(msg: &str) -> (r: String)
    ensures
        r@ == msg@,
{
    let cs = chars_vec(msg);
    string_from_chars(&cs)
}

/// The message for an engine refusal.
pub fn engine_error_text(e: EngineError) -> (r: String)
{
    match e {
        EngineError::SpaceExists => error_text("space already exists"),
        EngineError::NoSuchSpace => error_text("no such space"),
        EngineError::NoSuchVersion => error_text("no such version"),
        EngineError::NoSuchVector => error_text("no such vector"),
        EngineError::DefaultUndeletable => error_text("the default version cannot be deleted"),
        EngineError::BadPayload => error_text("invalid payload"),
        EngineError::Full => error_text("identifier space exhausted"),
    }
}

/// A vector upsert moves no name-to-id binding, so every coherent cache
/// stays coherent across it.
pub proof fn lemma_upsert_keeps_cache(
    ev: EngineView,
    name: Seq<char>,
    uid: i32,
    inss: Seq<VectorInsertView>,
    cache: Seq<CacheEntryView>,
)
    requires
        engine_wf(ev),
        engine_wf(upsert_vectors_spec(ev, name, uid, inss)),
        cache_coherent(ev, cache),
    ensures
        cache_coherent(upsert_vectors_spec(ev, name, uid, inss), cache),
{
    let ns = upsert_vectors_spec(ev, name, uid, inss);
    assert forall|e: int| 0 <= e < cache.len() implies (#[trigger] cache[e]).version_id
        == spec_version_id(ns, cache[e].space_name, cache[e].unique_id) && cache[e].vector_index_id
        == spec_vector_index_id(ns, cache[e].space_name, cache[e].unique_id) && cache[e].version_id
        != 0 by {
        lemma_upsert_keeps_resolution(ev, name, uid, inss, cache[e].space_name, cache[e].unique_id);
    }
}

/// After a vector upsert, any `(name, uid)` resolves to the same ids.
pub proof fn lemma_upsert_keeps_resolution(
    ev: EngineView,
    name: Seq<char>,
    uid: i32,
    inss: Seq<VectorInsertView>,
    n: Seq<char>,
    u: i32,
)
    requires
        engine_wf(ev),
        engine_wf(upsert_vectors_spec(ev, name, uid, inss)),
    ensures
        spec_version_id(upsert_vectors_spec(ev, name, uid, inss), n, u) == spec_version_id(
            ev,
            n,
            u,
        ),
        spec_vector_index_id(upsert_vectors_spec(ev, name, uid, inss), n, u)
            == spec_vector_index_id(ev, n, u),
{
    let ns = upsert_vectors_spec(ev, name, uid, inss);
    if !has_space(ev.spaces, name) {
        assert(ns == ev);
    } else {
        let i = space_idx(ev.spaces, name);
        let sp = ev.spaces[i];
        if !version_resolves(sp, uid) {
            assert(ns == ev);
        } else {
            assert(ns.spaces.len() == ev.spaces.len());
            assert(forall|j: int|
                0 <= j < ns.spaces.len() ==> (#[trigger] ns.spaces[j]).name == ev.spaces[j].name
                    && (#[trigger] ns.spaces[j]).versions.len() == ev.spaces[j].versions.len());
            assert(forall|j: int, k: int|
                (0 <= j < ns.spaces.len() && 0 <= k < ns.spaces[j].versions.len()) ==> (
                #[trigger] ns.spaces[j].versions[k]).unique_id == ev.spaces[j].versions[k].unique_id
                    && ns.spaces[j].versions[k].is_default == ev.spaces[j].versions[k].is_default
                    && ns.spaces[j].versions[k].version_id == ev.spaces[j].versions[k].version_id
                    && ns.spaces[j].versions[k].vector_index_id
                    == ev.spaces[j].versions[k].vector_index_id);
            lemma_same_resolution(ev, ns, n, u);
        }
    }
}

/// Two well-formed engines whose spaces agree on names and on every
/// version's identity fields resolve every `(name, uid)` alike.
proof fn lemma_same_resolution(ev: EngineView, ns: EngineView, n: Seq<char>, u: i32)
    requires
        engine_wf(ev),
        engine_wf(ns),
        ns.spaces.len() == ev.spaces.len(),
        forall|j: int|
            0 <= j < ns.spaces.len() ==> (#[trigger] ns.spaces[j]).name == ev.spaces[j].name && (
            #[trigger] ns.spaces[j]).versions.len() == ev.spaces[j].versions.len(),
        forall|j: int, k: int|
            (0 <= j < ns.spaces.len() && 0 <= k < ns.spaces[j].versions.len()) ==> (
            #[trigger] ns.spaces[j].versions[k]).unique_id == ev.spaces[j].versions[k].unique_id
                && ns.spaces[j].versions[k].is_default == ev.spaces[j].versions[k].is_default
                && ns.spaces[j].versions[k].version_id == ev.spaces[j].versions[k].version_id
                && ns.spaces[j].versions[k].vector_index_id
                == ev.spaces[j].versions[k].vector_index_id,
    ensures
        spec_version_id(ns, n, u) == spec_version_id(ev, n, u),
        spec_vector_index_id(ns, n, u) == spec_vector_index_id(ev, n, u),
{
    if has_space(ev.spaces, n) {
        let i = space_idx(ev.spaces, n);
        assert(0 <= i < ev.spaces.len() && ev.spaces[i].name == n);
        assert(ns.spaces[i].name == n);
        assert(has_space(ns.spaces, n));
        let j = space_idx(ns.spaces, n);
        assert(0 <= j < ns.spaces.len() && ns.spaces[j].name == n);
        if i < j {
            assert(ns.spaces[i].name != ns.spaces[j].name);
        } else if j < i {
            assert(ns.spaces[j].name != ns.spaces[i].name);
        }
        let sp = ev.spaces[i];
        let np = ns.spaces[i];
        if u == 0 {
            if crate::engine::has_default(sp.versions) {
                let k = crate::engine::default_idx(sp.versions);
                assert(0 <= k < sp.versions.len() && sp.versions[k].is_default);
                assert(np.versions[k].is_default);
                assert(crate::engine::has_default(np.versions));
                let l = crate::engine::default_idx(np.versions);
                assert(0 <= l < np.versions.len() && np.versions[l].is_default);
                assert(crate::engine::space_wf(np));
                assert(l == k);
                assert(np.versions[k].version_id == sp.versions[k].version_id);
            } else {
                if crate::engine::has_default(np.versions) {
                    let l = crate::engine::default_idx(np.versions);
                    assert(sp.versions[l].is_default);
                    assert(crate::engine::has_default(sp.versions));
                }
            }
        } else {
            if crate::engine::has_uid(sp.versions, u) {
                let k = crate::engine::uid_idx(sp.versions, u);
                assert(0 <= k < sp.versions.len() && sp.versions[k].unique_id == u);
                assert(np.versions[k].unique_id == u);
                assert(crate::engine::has_uid(np.versions, u));
                let l = crate::engine::uid_idx(np.versions, u);
                assert(0 <= l < np.versions.len() && np.versions[l].unique_id == u);
                assert(crate::engine::space_wf(np));
                if k < l {
                    assert(np.versions[k].unique_id != np.versions[l].unique_id);
                } else if l < k {
                    assert(np.versions[l].unique_id != np.versions[k].unique_id);
                }
                assert(np.versions[k].version_id == sp.versions[k].version_id);
            } else {
                if crate::engine::has_uid(np.versions, u) {
                    let l = crate::engine::uid_idx(np.versions, u);
                    assert(sp.versions[l].unique_id == u);
                    assert(crate::engine::has_uid(sp.versions, u));
                }
            }
        }
    } else {
        if has_space(ns.spaces, n) {
            let j = space_idx(ns.spaces, n);
            assert(ev.spaces[j].name == n);
            assert(has_space(ev.spaces, n));
        }
    }
}

} // verus!
