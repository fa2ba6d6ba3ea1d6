//! The apply side of the replicated log: a committed command envelope is
//! decoded and dispatched to the facade. What one applied command does to a
//! node's state is given exactly by `apply_command_spec`; applying the same
//! committed prefix to equal states therefore drives every replica to the
//! same state — the determinism law at the end of this file.
//!
//! Apply never reaches the network itself: a `snapshot_sync` command on a
//! follower yields a download plan that the surrounding process performs
//! before the local restore is attempted.

use vstd::prelude::*;
use crate::bo::ATinyVectorsBO;
use crate::command::Command;
use crate::command::CommandView;
use crate::command::decode_command;
use crate::engine::EngineView;
use crate::engine::create_space_spec;
use crate::engine::create_version_spec;
use crate::engine::delete_space_spec;
use crate::engine::engine_wf;
use crate::engine::has_space;
use crate::engine::space_idx;
use crate::engine::upsert_vectors_spec;
use crate::idcache::CacheEntryView;
use crate::idcache::cache_coherent;
use crate::idcache::spec_version_id;
use crate::kv::KvSpaceStoreView;
use crate::kv::kv_put_spec;
use crate::kv::kv_remove_spec;
use crate::rbac::TokenRecordView;
use crate::rbac::next_id_after;
use crate::rbac::store_token_spec;
use crate::snapshot::SnapshotArchiveView;
use crate::snapshot::archive_idx;
use crate::snapshot::archives_wf;
use crate::snapshot::extract_date_from_file_name;
use crate::snapshot::has_archive;
use crate::snapshot::snapshot_name_with;
use crate::snapshot::store_archive_spec;
use crate::text::clone_chars;
use crate::text::push_chars;
use crate::text::push_str_chars;

verus! {

/// What the apply environment hands each command: the node's identity, its
/// HTTP address, and the wall-clock stamp used for archive names. The stamp
/// is the one apply input that may differ between nodes, which is why
/// archive names may diverge across a cluster.
pub struct ApplyCtx {
    pub instance_id: u64,
    pub http_addr: Vec<char>,
    pub stamp: Vec<char>,
}

#[verifier::ext_equal]
pub struct ApplyCtxView {
    pub instance_id: u64,
    pub http_addr: Seq<char>,
    pub stamp: Seq<char>,
}

impl View for ApplyCtx {
    type V = ApplyCtxView;

    open spec fn view(&self) -> ApplyCtxView {
        ApplyCtxView {
            instance_id: self.instance_id,
            http_addr: self.http_addr@,
            stamp: self.stamp@,
        }
    }
}

/// What a follower must do after a `snapshot_sync` is applied: fetch the
/// archive from the leader before the restore can find it locally.
pub struct SyncAction {
    pub download_url: Vec<char>,
    pub file_name: Vec<char>,
}

/// The download address a follower derives from a sync command: the eight
/// date digits of a legacy archive name, or `unknown_date` when the name is
/// of the newer twelve-digit form.
pub open spec fn sync_url_of(leader_addr: Seq<char>, file_name: Seq<char>) -> Seq<char> {
    leader_addr + "/snapshot/"@ + (if crate::snapshot::is_sync_snapshot_name(file_name) {
        file_name.subrange(9, 17)
    } else {
        "unknown_date"@
    }) + "/download"@
}

/// Whether this sync command makes this node fetch: only followers do.
pub open spec fn sync_must_fetch(c: CommandView, ctx: ApplyCtxView) -> bool {
    match c {
        CommandView::SnapshotSync { leader_id, .. } => leader_id != ctx.instance_id,
        _ => false,
    }
}

/// The replicated state of one node, as one value.
#[verifier::ext_equal]
pub struct NodeStateView {
    pub engine: EngineView,
    pub archives: Seq<SnapshotArchiveView>,
    pub tokens: Seq<TokenRecordView>,
    pub next_token_id: u64,
    pub kv: Seq<KvSpaceStoreView>,
    pub cache: Seq<CacheEntryView>,
}

/// The state a facade value holds.
pub open spec fn state_of(bo: &ATinyVectorsBO) -> NodeStateView {
    NodeStateView {
        engine: bo.engine@,
        archives: bo.snapshot.view(),
        tokens: bo.rbac_token.view(),
        next_token_id: bo.rbac_token.next_id,
        kv: bo.kv@,
        cache: bo.id_cache.view(),
    }
}

/// The unique id a numeric version field addresses; values beyond `i32`
/// never resolve, and are pinned to the largest id.
pub open spec fn uid_of(version_id: u64) -> i32 {
    if version_id > i32::MAX as u64 {
        i32::MAX
    } else {
        version_id as i32
    }
}

/// What applying one committed command does to a node's state.
pub open spec fn apply_command_spec(s: NodeStateView, c: CommandView, ctx: ApplyCtxView) -> NodeStateView {
    match c {
        CommandView::Space { value } => NodeStateView {
            engine: create_space_spec(s.engine, value),
            cache: Seq::<CacheEntryView>::empty(),
            ..s
        },
        CommandView::UpdateSpace { space_name, value } => NodeStateView {
            engine: crate::engine::update_space_spec(s.engine, space_name, value),
            cache: Seq::<CacheEntryView>::empty(),
            ..s
        },
        CommandView::DeleteSpace { space_name } => NodeStateView {
            engine: delete_space_spec(s.engine, space_name),
            cache: Seq::<CacheEntryView>::empty(),
            ..s
        },
        CommandView::CreateVersion { space_name, value } => NodeStateView {
            engine: create_version_spec(s.engine, space_name, value),
            cache: Seq::<CacheEntryView>::empty(),
            ..s
        },
        CommandView::Vector { space_name, value } => NodeStateView {
            engine: upsert_vectors_spec(s.engine, space_name, 0, value),
            ..s
        },
        CommandView::VectorWithVersion { space_name, version_id, value } => NodeStateView {
            engine: upsert_vectors_spec(s.engine, space_name, uid_of(version_id), value),
            ..s
        },
        CommandView::CreateSnapshot => NodeStateView {
            archives: store_archive_spec(s.archives, snapshot_name_with(ctx.stamp), s.engine),
            ..s
        },
        CommandView::SnapshotRestore { file_name } => if has_archive(s.archives, file_name) {
            NodeStateView {
                engine: s.archives[archive_idx(s.archives, file_name)].content,
                cache: Seq::<CacheEntryView>::empty(),
                ..s
            }
        } else {
            s
        },
        CommandView::SnapshotDelete { file_name } => NodeStateView {
            archives: if has_archive(s.archives, file_name) {
                s.archives.remove(archive_idx(s.archives, file_name))
            } else {
                s.archives
            },
            ..s
        },
        CommandView::SnapshotSync { file_name, .. } => if has_archive(s.archives, file_name) {
            NodeStateView {
                engine: s.archives[archive_idx(s.archives, file_name)].content,
                cache: Seq::<CacheEntryView>::empty(),
                ..s
            }
        } else {
            s
        },
        CommandView::CreateRbacToken { token, expire_time_utc, value } => NodeStateView {
            tokens: store_token_spec(s.tokens, token, value, expire_time_utc, s.next_token_id),
            next_token_id: next_id_after(s.tokens, token, s.next_token_id),
            ..s
        },
        CommandView::StoragePutKey { space_name, key, value } => NodeStateView {
            kv: kv_put_spec(s.kv, space_name, key, value),
            ..s
        },
        CommandView::StorageRemoveKey { space_name, key } => NodeStateView {
            kv: kv_remove_spec(s.kv, space_name, key),
            ..s
        },
    }
}

/// The apply-side handler: one of these per node, driving the facade.
pub struct ATinyVectorsRaftCommand {
}

impl ATinyVectorsRaftCommand {
    pub fn new() -> (r: ATinyVectorsRaftCommand) {
        ATinyVectorsRaftCommand {  }
    }

    /// Applies one committed envelope. An envelope that does not decode —
    /// an unknown tag, or a tag without its required fields — is skipped
    /// and leaves the state untouched, which keeps forward compatibility
    /// with commands this crate does not know; the returned action carries
    /// a follower's fetch plan, when there is one.
    pub fn process_envelope(&self, bo: &mut ATinyVectorsBO, ctx: &ApplyCtx, envelope: &Vec<char>)
        -> (act: Option<SyncAction>)
        requires
            old(bo).wf(),
        ensures
            final(bo).wf(),
            state_of(final(bo)) == match crate::command::spec_decode(envelope@) {
                Option::<CommandView>::Some(c) => apply_command_spec(state_of(old(bo)), c, ctx@),
                Option::<CommandView>::None => state_of(old(bo)),
            },
            match act {
                Some(a) => (crate::command::spec_decode(envelope@) matches Some(c)
                    && sync_must_fetch(c, ctx@) && (c matches CommandView::SnapshotSync {
                    file_name,
                    leader_addr,
                    ..
                } && a.file_name@ == file_name && a.download_url@ == sync_url_of(
                    leader_addr,
                    file_name,
                ))),
                None => match crate::command::spec_decode(envelope@) {
                    Option::<CommandView>::Some(c) => !sync_must_fetch(c, ctx@),
                    Option::<CommandView>::None => true,
                },
            },
    {
        match decode_command(envelope) {
            Some(cmd) => self.process_command(bo, ctx, &cmd),
            None => None,
        }
    }

    /// Applies one typed committed command, exactly as the spec function
    /// says. A facade-level refusal leaves the state as the spec says it
    /// stays; it never halts the apply loop.
    pub fn process_command(&self, bo: &mut ATinyVectorsBO, ctx: &ApplyCtx, cmd: &Command) -> (act:
        Option<SyncAction>)
        requires
            old(bo).wf(),
        ensures
            final(bo).wf(),
            state_of(final(bo)) == apply_command_spec(state_of(old(bo)), cmd@, ctx@),
            match act {
                Some(a) => sync_must_fetch(cmd@, ctx@) && (cmd@ matches
                    CommandView::SnapshotSync { file_name, leader_addr, .. } && a.file_name@
                    == file_name && a.download_url@ == sync_url_of(leader_addr, file_name)),
                None => !sync_must_fetch(cmd@, ctx@),
            },
    {
        let ghost pre = state_of(bo);
        match cmd {
            Command::Space { value } => {
                let _ = self.process_space_command(bo, value);
                proof {
                    assert(state_of(bo) =~~= apply_command_spec(pre, cmd@, ctx@));
                }
                None
            },
            Command::UpdateSpace { space_name, value } => {
                let _ = bo.update_space_parsed(space_name, value);
                proof {
                    assert(state_of(bo) =~~= apply_command_spec(pre, cmd@, ctx@));
                }
                None
            },
            Command::DeleteSpace { space_name } => {
                let _ = bo.delete_space_parsed(space_name);
                proof {
                    assert(state_of(bo) =~~= apply_command_spec(pre, cmd@, ctx@));
                }
                None
            },
            Command::CreateVersion { space_name, value } => {
                let _ = bo.create_version_parsed(space_name, value);
                proof {
                    assert(state_of(bo) =~~= apply_command_spec(pre, cmd@, ctx@));
                }
                None
            },
            Command::Vector { space_name, value } => {
                let _ = bo.upsert_vectors_parsed(space_name, 0, value);
                proof {
                    assert(state_of(bo) =~~= apply_command_spec(pre, cmd@, ctx@));
                }
                None
            },
            Command::VectorWithVersion { space_name, version_id, value } => {
                let uid: i32 = if *version_id > i32::MAX as u64 {
                    i32::MAX
                } else {
                    *version_id as i32
                };
                let _ = bo.upsert_vectors_parsed(space_name, uid, value);
                proof {
                    assert(state_of(bo) =~~= apply_command_spec(pre, cmd@, ctx@));
                }
                None
            },
            Command::CreateSnapshot => {
                let _ = bo.snapshot.create_snapshot(&bo.engine, &ctx.stamp);
                proof {
                    assert(state_of(bo) =~~= apply_command_spec(pre, cmd@, ctx@));
                }
                None
            },
            Command::SnapshotRestore { file_name } => {
                self.restore_local(bo, file_name);
                proof {
                    assert(state_of(bo) =~~= apply_command_spec(pre, cmd@, ctx@));
                }
                None
            },
            Command::SnapshotDelete { file_name } => {
                let _ = bo.snapshot.delete_snapshot(file_name);
                proof {
                    assert(state_of(bo) =~~= apply_command_spec(pre, cmd@, ctx@));
                }
                None
            },
            Command::SnapshotSync { file_name, leader_id, leader_addr } => {
                let act = self.process_snapshot_sync_command(ctx, file_name, *leader_id, leader_addr);
                self.restore_local(bo, file_name);
                proof {
                    assert(state_of(bo) =~~= apply_command_spec(pre, cmd@, ctx@));
                }
                act
            },
            Command::CreateRbacToken { token, expire_time_utc, value } => {
                let _ = bo.rbac_token.new_token(value, token, *expire_time_utc);
                proof {
                    assert(state_of(bo) =~~= apply_command_spec(pre, cmd@, ctx@));
                }
                None
            },
            Command::StoragePutKey { space_name, key, value } => {
                bo.kv.put_key(space_name, key, value);
                proof {
                    assert(state_of(bo) =~~= apply_command_spec(pre, cmd@, ctx@));
                }
                None
            },
            Command::StorageRemoveKey { space_name, key } => {
                bo.kv.remove_key(space_name, key);
                proof {
                    assert(state_of(bo) =~~= apply_command_spec(pre, cmd@, ctx@));
                }
                None
            },
        }
    }

    fn process_space_command(&self, bo: &mut ATinyVectorsBO, value: &crate::space::SpaceConfig)
        -> (r: Result<(), crate::engine::EngineError>)
        requires
            old(bo).wf(),
        ensures
            final(bo).wf(),
            final(bo).engine@ == create_space_spec(old(bo).engine@, value@),
            final(bo).id_cache.view() =~= Seq::<CacheEntryView>::empty(),
            final(bo).snapshot.view() == old(bo).snapshot.view(),
            final(bo).rbac_token.view() == old(bo).rbac_token.view(),
            final(bo).rbac_token.next_id == old(bo).rbac_token.next_id,
            final(bo).kv@ == old(bo).kv@,
    {
        bo.create_space_parsed(value)
    }

    /// The follower's fetch plan for a sync command; the leader itself has
    /// the archive already and plans nothing.
    fn process_snapshot_sync_command(
        &self,
        ctx: &ApplyCtx,
        file_name: &Vec<char>,
        leader_id: u64,
        leader_addr: &Vec<char>,
    ) -> (act: Option<SyncAction>)
        ensures
            match act {
                Some(a) => leader_id != ctx.instance_id && a.file_name@ == file_name@
                    && a.download_url@ == sync_url_of(leader_addr@, file_name@),
                None => leader_id == ctx.instance_id,
            },
    {
        if leader_id == ctx.instance_id {
            return None;
        }
        let mut url: Vec<char> = Vec::new();
        push_chars(&mut url, leader_addr);
        push_str_chars(&mut url, "/snapshot/");
        match extract_date_from_file_name(file_name) {
            Some(date) => push_chars(&mut url, &date),
            None => push_str_chars(&mut url, "unknown_date"),
        }
        push_str_chars(&mut url, "/download");
        proof {
            assert(url@ =~= sync_url_of(leader_addr@, file_name@));
        }
        Some(SyncAction { download_url: url, file_name: clone_chars(file_name) })
    }

    /// Restores from the local archive store; a node without the archive
    /// stays as it is, and the miss surfaces through the read paths.
    fn restore_local(&self, bo: &mut ATinyVectorsBO, file_name: &Vec<char>)
        requires
            old(bo).wf(),
        ensures
            final(bo).wf(),
            final(bo).snapshot.view() == old(bo).snapshot.view(),
            final(bo).rbac_token.view() == old(bo).rbac_token.view(),
            final(bo).rbac_token.next_id == old(bo).rbac_token.next_id,
            final(bo).kv@ == old(bo).kv@,
            if has_archive(old(bo).snapshot.view(), file_name@) {
                final(bo).engine@ == old(bo).snapshot.view()[archive_idx(
                    old(bo).snapshot.view(),
                    file_name@,
                )].content && final(bo).id_cache.view() =~= Seq::<CacheEntryView>::empty()
            } else {
                final(bo).engine@ == old(bo).engine@ && final(bo).id_cache.view() == old(
                    bo,
                ).id_cache.view()
            },
    {
        match bo.snapshot.restore_snapshot(file_name) {
            Some(content) => {
                bo.install_engine(content);
            },
            None => {},
        }
    }
}

// ---------------------------------------------------------------------------
// laws of the apply loop
// ---------------------------------------------------------------------------

/// A whole committed prefix applied in order.
pub open spec fn apply_log_spec(
    s: NodeStateView,
    log: Seq<CommandView>,
    ctxs: Seq<ApplyCtxView>,
) -> NodeStateView
    decreases log.len(),
{
    if log.len() == 0 || log.len() != ctxs.len() {
        s
    } else {
        apply_log_spec(
            apply_command_spec(s, log[0], ctxs[0]),
            log.drop_first(),
            ctxs.drop_first(),
        )
    }
}

/// Determinism of apply: two replicas that start equal and apply the same
/// committed prefix under the same apply inputs end equal. The archive
/// stamp is part of those inputs, which is exactly the allowance for
/// clock-divergent archive names.
pub proof fn lemma_apply_log_deterministic(
    s1: NodeStateView,
    s2: NodeStateView,
    log: Seq<CommandView>,
    ctxs: Seq<ApplyCtxView>,
)
    requires
        s1 == s2,
    ensures
        apply_log_spec(s1, log, ctxs) == apply_log_spec(s2, log, ctxs),
{
}

/// Cache coherence after a space is deleted: the cache holds nothing, so
/// it is coherent with any engine, and the default-version lookup for the
/// deleted space answers 0.
pub proof fn lemma_delete_space_cache_coherent(
    s: NodeStateView,
    name: Seq<char>,
    ctx: ApplyCtxView,
)
    requires
        engine_wf(s.engine),
    ensures
        spec_version_id(
            apply_command_spec(s, CommandView::DeleteSpace { space_name: name }, ctx).engine,
            name,
            0,
        ) == 0,
        apply_command_spec(s, CommandView::DeleteSpace { space_name: name }, ctx).cache
            =~= Seq::<CacheEntryView>::empty(),
        cache_coherent(
            apply_command_spec(s, CommandView::DeleteSpace { space_name: name }, ctx).engine,
            apply_command_spec(s, CommandView::DeleteSpace { space_name: name }, ctx).cache,
        ),
{
    let ns = apply_command_spec(s, CommandView::DeleteSpace { space_name: name }, ctx);
    if has_space(s.engine.spaces, name) {
        let i = space_idx(s.engine.spaces, name);
        let removed = s.engine.spaces.remove(i);
        assert(forall|j: int|
            0 <= j < removed.len() ==> removed[j] == s.engine.spaces[if j < i {
                j
            } else {
                j + 1
            }]);
        if has_space(removed, name) {
            let j = choose|j: int| 0 <= j < removed.len() && (#[trigger] removed[j]).name == name;
            let oj: int = if j < i {
                j
            } else {
                j + 1
            };
            assert(s.engine.spaces[oj].name == name);
            assert(s.engine.spaces[i].name == name);
            if oj < i {
                assert(s.engine.spaces[oj].name != s.engine.spaces[i].name);
            } else {
                assert(s.engine.spaces[i].name != s.engine.spaces[oj].name);
            }
        }
        assert(!has_space(ns.engine.spaces, name));
    } else {
        assert(ns.engine == s.engine);
    }
}

/// The unique-default law behind every mutation: well-formedness, which
/// each engine operation establishes, pins exactly one default version in
/// every space that has a version at all.
pub proof fn lemma_wf_unique_default(ev: EngineView, i: int)
    requires
        engine_wf(ev),
        0 <= i < ev.spaces.len(),
        ev.spaces[i].versions.len() > 0,
    ensures
        exists|k: int|
            0 <= k < ev.spaces[i].versions.len() && (#[trigger] ev.spaces[i].versions[k]).is_default,
        forall|k: int, l: int|
            (0 <= k < ev.spaces[i].versions.len() && 0 <= l < ev.spaces[i].versions.len() && (
            #[trigger] ev.spaces[i].versions[k]).is_default && (
            #[trigger] ev.spaces[i].versions[l]).is_default) ==> k == l,
{
    assert(crate::engine::space_wf(ev.spaces[i]));
}

/// The snapshot round trip: creating an archive and restoring it in the
/// next step puts the engine back where it was — the archive name is the
/// stamp's, so only the clock input decides it.
pub proof fn lemma_snapshot_roundtrip(s: NodeStateView, ctx: ApplyCtxView)
    requires
        archives_wf(s.archives),
    ensures
        apply_command_spec(
            apply_command_spec(s, CommandView::CreateSnapshot, ctx),
            CommandView::SnapshotRestore { file_name: snapshot_name_with(ctx.stamp) },
            ctx,
        ).engine == s.engine,
{
    let name = snapshot_name_with(ctx.stamp);
    let mid = apply_command_spec(s, CommandView::CreateSnapshot, ctx);
    assert(mid.archives == store_archive_spec(s.archives, name, s.engine));
    if has_archive(s.archives, name) {
        let i = archive_idx(s.archives, name);
        assert(0 <= i < s.archives.len() && s.archives[i].file_name == name);
        assert(mid.archives[i].file_name == name && mid.archives[i].content == s.engine);
        assert(has_archive(mid.archives, name));
        let j = archive_idx(mid.archives, name);
        assert(0 <= j < mid.archives.len() && mid.archives[j].file_name == name);
        assert(forall|b: int|
            0 <= b < mid.archives.len() && b != i ==> mid.archives[b] == s.archives[b]);
        if j != i {
            assert(s.archives[j].file_name == name);
            if i < j {
                assert(s.archives[i].file_name != s.archives[j].file_name);
            } else {
                assert(s.archives[j].file_name != s.archives[i].file_name);
            }
        }
        assert(mid.archives[j].content == s.engine);
    } else {
        let i = s.archives.len() as int;
        assert(mid.archives[i].file_name == name && mid.archives[i].content == s.engine);
        assert(has_archive(mid.archives, name));
        let j = archive_idx(mid.archives, name);
        assert(0 <= j < mid.archives.len() && mid.archives[j].file_name == name);
        if j < i {
            assert(s.archives[j].file_name == name);
            assert(has_archive(s.archives, name));
        }
        assert(mid.archives[j].content == s.engine);
    }
}

} // verus!
