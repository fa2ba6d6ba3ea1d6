//! The decisions behind every HTTP entry: bearer-token extraction, the
//! permission gate, request validation, and envelope construction. Each
//! write endpoint validates before the log sees anything, so the log never
//! receives a command that validation already refused.

use vstd::prelude::*;
use crate::bo::ATinyVectorsBO;
use crate::command::Command;
use crate::command::CommandView;
use crate::command::encode_command;
use crate::command::json_of_command;
use crate::engine::has_space;
use crate::idcache::spec_version_id;
use crate::snapshot::check_upload_snapshot_name;
use crate::space::SpaceConfig;
use crate::space::is_valid_space_name;
use crate::space::parse_space_config;
use crate::space::valid_space_name;
use crate::text::chars_vec;
use crate::text::clone_chars;
use crate::json::find_object_field;
use crate::text::parse_u64_range;

verus! {

/// The bearer token of an `Authorization` header value; absent headers
/// carry the empty token.
pub fn extract_token(header: Option<&str>) -> (r: Vec<char>)
    ensures
        match header {
            Some(h) => if h@.len() >= 7 && h@.subrange(0, 7) == "Bearer "@ {
                r@ == h@.subrange(7, h@.len() as int)
            } else {
                r@ == h@
            },
            None => r@ =~= Seq::<char>::empty(),
        },
{
    proof {
        reveal_strlit("Bearer ");
    }
    match header {
        Some(h) => {
            let cs = chars_vec(h);
            if crate::snapshot::starts_with_at(&cs, 0, "Bearer ") {
                crate::json::subrange_vec(&cs, 7, cs.len())
            } else {
                cs
            }
        },
        None => Vec::new(),
    }
}

/// The permission gate at every entry: without security every request
/// passes; with it, reads need level 1 and writes level 2.
pub open spec fn gate_allows(enable_security: i64, level: u8, write: bool) -> bool {
    if enable_security == 0 {
        true
    } else if write {
        level >= 2
    } else {
        level >= 1
    }
}

/// Decides the permission gate.
pub fn permission_allows(enable_security: i64, level: u8, write: bool) -> (r: bool)
    ensures
        r == gate_allows(enable_security, level, write),
{
    if enable_security == 0 {
        true
    } else if write {
        level >= 2
    } else {
        level >= 1
    }
}

/// What a write endpoint decides: a status, and the envelope it submits to
/// the log — when it submits one at all.
pub struct HttpDecision {
    pub status: u16,
    pub log_entry: Option<Vec<char>>,
}

/// The space-creation decision on a parsed payload. An envelope is
/// emitted only for a permitted write whose name obeys the name rule
/// and names no present space.
pub fn space_post_checked(bo: &mut ATinyVectorsBO, allowed: bool, cfg: &SpaceConfig) -> (r:
    HttpDecision)
    requires
        old(bo).wf(),
    ensures
        final(bo).wf(),
        final(bo).engine@ == old(bo).engine@,
        final(bo).snapshot.view() == old(bo).snapshot.view(),
        final(bo).rbac_token.view() == old(bo).rbac_token.view(),
        final(bo).kv@ == old(bo).kv@,
        !allowed ==> r.status == 403 && r.log_entry is None,
        allowed && !valid_space_name(cfg@.name) ==> r.status == 400 && r.log_entry is None,
        allowed && valid_space_name(cfg@.name) && spec_version_id(old(bo).engine@, cfg@.name, 0)
            != 0 ==> r.status == 409 && r.log_entry is None,
        allowed && valid_space_name(cfg@.name) && spec_version_id(old(bo).engine@, cfg@.name, 0)
            == 0 ==> r.status == 200 && (r.log_entry matches Some(env) && env@ == json_of_command(
            CommandView::Space { value: cfg@ },
        )),
{
    if !allowed {
        return HttpDecision { status: 403, log_entry: None };
    }
    if !is_valid_space_name(&cfg.name) {
        return HttpDecision { status: 400, log_entry: None };
    }
    let existing = bo.id_cache.get_default_version_id(&bo.engine, &cfg.name);
    if existing > 0 {
        return HttpDecision { status: 409, log_entry: None };
    }
    let cmd = Command::Space {
        value: SpaceConfig {
            name: clone_chars(&cfg.name),
            dimension: cfg.dimension,
            metric: clone_chars(&cfg.metric),
        },
    };
    let env = encode_command(&cmd);
    HttpDecision { status: 200, log_entry: Some(env) }
}

/// The space-creation decision on a raw body: a permitted, parseable body
/// with a free, valid name is answered 200 with its envelope; a body
/// without a readable name, or with an invalid one, is refused 400 before
/// the log sees anything, and a taken name 409.
pub fn space_post(bo: &mut ATinyVectorsBO, allowed: bool, body: &Vec<char>) -> (r: HttpDecision)
    requires
        old(bo).wf(),
    ensures
        final(bo).wf(),
        final(bo).engine@ == old(bo).engine@,
        final(bo).snapshot.view() == old(bo).snapshot.view(),
        final(bo).rbac_token.view() == old(bo).rbac_token.view(),
        final(bo).kv@ == old(bo).kv@,
        !allowed ==> r.status == 403 && r.log_entry is None,
        allowed ==> match crate::space::spec_parse_space_config(body@) {
            Option::<crate::space::SpaceConfigView>::None => r.status == 400 && r.log_entry
                is None,
            Option::<crate::space::SpaceConfigView>::Some(cfg) => {
                &&& (!valid_space_name(cfg.name) ==> r.status == 400 && r.log_entry is None)
                &&& (valid_space_name(cfg.name) && spec_version_id(old(bo).engine@, cfg.name, 0)
                    != 0 ==> r.status == 409 && r.log_entry is None)
                &&& (valid_space_name(cfg.name) && spec_version_id(old(bo).engine@, cfg.name, 0)
                    == 0 ==> r.status == 200 && (r.log_entry matches Some(env) && env@
                    == json_of_command(CommandView::Space { value: cfg })))
            },
        },
{
    if !allowed {
        return HttpDecision { status: 403, log_entry: None };
    }
    let cfg = match parse_space_config(body) {
        Some(cfg) => cfg,
        None => {
            return HttpDecision { status: 400, log_entry: None };
        },
    };
    let r = space_post_checked(bo, true, &cfg);
    if r.status == 200 {
        r
    } else {
        HttpDecision { status: r.status, log_entry: None }
    }
}

/// The plain write decision shared by the endpoints that validate
/// nothing beyond permissions: an envelope is emitted exactly for a
/// permitted write.
pub fn gated_write(allowed: bool, cmd: &Command) -> (r: HttpDecision)
    ensures
        !allowed ==> r.status == 403 && r.log_entry is None,
        allowed ==> r.status == 200 && (r.log_entry matches Some(env) && env@ == json_of_command(
            cmd@,
        )),
{
    if !allowed {
        return HttpDecision { status: 403, log_entry: None };
    }
    let env = encode_command(cmd);
    HttpDecision { status: 200, log_entry: Some(env) }
}

/// The upload-and-sync decision: the uploaded archive's name must be of
/// the twelve-digit form, and the node that accepted the upload names
/// itself the leader of the following sync.
pub fn restore_upload_decision(
    allowed: bool,
    file_name: &Vec<char>,
    self_id: u64,
    self_addr: &Vec<char>,
) -> (r: HttpDecision)
    ensures
        !allowed ==> r.status == 403 && r.log_entry is None,
        allowed && !crate::snapshot::is_upload_snapshot_name(file_name@) ==> r.status == 400
            && r.log_entry is None,
        allowed && crate::snapshot::is_upload_snapshot_name(file_name@) ==> r.status == 200 && (
        r.log_entry matches Some(env) && env@ == json_of_command(
            CommandView::SnapshotSync {
                file_name: file_name@,
                leader_id: self_id,
                leader_addr: self_addr@,
            },
        )),
{
    if !allowed {
        return HttpDecision { status: 403, log_entry: None };
    }
    if !check_upload_snapshot_name(file_name) {
        return HttpDecision { status: 400, log_entry: None };
    }
    let cmd = Command::SnapshotSync {
        file_name: clone_chars(file_name),
        leader_id: self_id,
        leader_addr: clone_chars(self_addr),
    };
    let env = encode_command(&cmd);
    HttpDecision { status: 200, log_entry: Some(env) }
}

/// The `k` fallback of a result-size request: the numeric `k` field, or
/// ten.
pub open spec fn spec_k_fallback(body: Seq<char>) -> int {
    match crate::json::find_field_spec(body, "k"@) {
        Option::<(int, int)>::Some((s, e)) => match crate::json::num_extent(body, s, e) {
            Option::<u64>::Some(n) => if n <= usize::MAX as u64 {
                n as int
            } else {
                usize::MAX as int
            },
            Option::<u64>::None => 10,
        },
        Option::<(int, int)>::None => 10,
    }
}

/// The result size a search or rerank body asks for: a numeric `top_k`
/// first, then `k`, then ten.
pub open spec fn spec_top_k(body: Seq<char>) -> int {
    match crate::json::find_field_spec(body, "top_k"@) {
        Option::<(int, int)>::Some((s, e)) => match crate::json::num_extent(body, s, e) {
            Option::<u64>::Some(n) => if n <= usize::MAX as u64 {
                n as int
            } else {
                usize::MAX as int
            },
            Option::<u64>::None => spec_k_fallback(body),
        },
        Option::<(int, int)>::None => spec_k_fallback(body),
    }
}

/// The result size a search or rerank body asks for: `top_k` first, then
/// `k`, then 10.
pub fn body_top_k(body: &Vec<char>) -> (r: usize)
    ensures
        r as int == spec_top_k(body@),
{
    let tk = chars_vec("top_k");
    match find_object_field(body, &tk) {
        Some((s, e)) => match parse_u64_range(body, s, e) {
            Some(n) => if n <= usize::MAX as u64 {
                return n as usize;
            } else {
                return usize::MAX;
            },
            None => {},
        },
        None => {},
    }
    let k = chars_vec("k");
    match find_object_field(body, &k) {
        Some((s, e)) => match parse_u64_range(body, s, e) {
            Some(n) => if n <= usize::MAX as u64 {
                n as usize
            } else {
                usize::MAX
            },
            None => 10,
        },
        None => 10,
    }
}

/// The key-store put decision: a permitted write with a nonempty key is
/// answered 200 with its envelope; an empty key is refused 400 before the
/// log sees anything.
pub fn put_key_decision(
    allowed: bool,
    space_name: &Vec<char>,
    key: &Vec<char>,
    value: &Vec<char>,
) -> (r: HttpDecision)
    ensures
        !allowed ==> r.status == 403 && r.log_entry is None,
        allowed && key@.len() == 0 ==> r.status == 400 && r.log_entry is None,
        allowed && key@.len() > 0 ==> r.status == 200 && (r.log_entry matches Some(env) && env@
            == json_of_command(
            CommandView::StoragePutKey {
                space_name: space_name@,
                key: key@,
                value: value@,
            },
        )),
{
    if !allowed {
        return HttpDecision { status: 403, log_entry: None };
    }
    if key.len() == 0 {
        return HttpDecision { status: 400, log_entry: None };
    }
    let cmd = Command::StoragePutKey {
        space_name: clone_chars(space_name),
        key: clone_chars(key),
        value: clone_chars(value),
    };
    let env = encode_command(&cmd);
    HttpDecision { status: 200, log_entry: Some(env) }
}

/// The key-store remove decision, under the same empty-key rule.
pub fn remove_key_decision(allowed: bool, space_name: &Vec<char>, key: &Vec<char>) -> (r:
    HttpDecision)
    ensures
        !allowed ==> r.status == 403 && r.log_entry is None,
        allowed && key@.len() == 0 ==> r.status == 400 && r.log_entry is None,
        allowed && key@.len() > 0 ==> r.status == 200 && (r.log_entry matches Some(env) && env@
            == json_of_command(
            CommandView::StorageRemoveKey { space_name: space_name@, key: key@ },
        )),
{
    if !allowed {
        return HttpDecision { status: 403, log_entry: None };
    }
    if key.len() == 0 {
        return HttpDecision { status: 400, log_entry: None };
    }
    let cmd = Command::StorageRemoveKey {
        space_name: clone_chars(space_name),
        key: clone_chars(key),
    };
    let env = encode_command(&cmd);
    HttpDecision { status: 200, log_entry: Some(env) }
}

/// Creating a space and asking again: the second identical request is
/// refused with a conflict, so one name yields one creation.
pub proof fn lemma_create_space_then_conflict(
    s: crate::dispatch::NodeStateView,
    cfg: crate::space::SpaceConfigView,
    ctx: crate::dispatch::ApplyCtxView,
)
    requires
        crate::engine::engine_wf(s.engine),
        valid_space_name(cfg.name),
        spec_version_id(s.engine, cfg.name, 0) == 0,
        crate::engine::can_alloc(s.engine),
    ensures
        spec_version_id(
            crate::dispatch::apply_command_spec(
                s,
                CommandView::Space { value: cfg },
                ctx,
            ).engine,
            cfg.name,
            0,
        ) != 0,
{
    let ns = crate::dispatch::apply_command_spec(s, CommandView::Space { value: cfg }, ctx).engine;
    if has_space(s.engine.spaces, cfg.name) {
        // a present space always has a default version with a nonzero id,
        // contradicting the hypothesis that the lookup answered 0
        let i = crate::engine::space_idx(s.engine.spaces, cfg.name);
        assert(0 <= i < s.engine.spaces.len() && s.engine.spaces[i].name == cfg.name);
        assert(crate::engine::space_wf(s.engine.spaces[i]));
        assert(s.engine.spaces[i].versions.len() > 0);
        let d = choose|d: int|
            0 <= d < s.engine.spaces[i].versions.len() && (
            #[trigger] s.engine.spaces[i].versions[d]).is_default;
        crate::engine::lemma_default_idx_is(s.engine.spaces[i], d);
        assert(crate::engine::version_resolves(s.engine.spaces[i], 0));
        let k = crate::engine::resolved_version_idx(s.engine.spaces[i], 0);
        assert(s.engine.spaces[i].versions[k].version_id >= 1);
        assert(spec_version_id(s.engine, cfg.name, 0) == s.engine.spaces[i].versions[
            k
        ].version_id);
        assert(false);
    } else {
        let nsp = crate::engine::new_space_view(s.engine, cfg);
        assert(ns.spaces == s.engine.spaces.push(nsp));
        let i = s.engine.spaces.len() as int;
        assert(ns.spaces[i].name == cfg.name);
        assert(has_space(ns.spaces, cfg.name));
        let j = crate::engine::space_idx(ns.spaces, cfg.name);
        assert(0 <= j < ns.spaces.len() && ns.spaces[j].name == cfg.name);
        if j < i {
            assert(s.engine.spaces[j].name == cfg.name);
            assert(has_space(s.engine.spaces, cfg.name));
        }
        assert(ns.spaces[j] == nsp);
        assert(nsp.versions[0].is_default);
        assert(crate::engine::has_default(nsp.versions));
        let k = crate::engine::default_idx(nsp.versions);
        assert(0 <= k < nsp.versions.len() && nsp.versions[k].is_default);
        assert(k == 0);
        assert(spec_version_id(ns, cfg.name, 0) == nsp.versions[0].version_id);
        assert(nsp.versions[0].version_id == s.engine.next_version_id);
        assert(s.engine.next_version_id >= 1);
    }
}

} // verus!
