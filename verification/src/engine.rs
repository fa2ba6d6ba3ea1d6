//! The engine core: spaces, their versions and vectors, held as one value
//! and mutated only through operations whose results are given exactly by
//! spec-level functions. Every operation keeps the engine well-formed:
//! unique space names and ids, unique per-space version unique-ids, at most
//! one default version per space (exactly one when any version exists), and
//! unique vector keys per version.

use vstd::prelude::*;
use crate::space::SpaceConfig;
use crate::space::SpaceConfigView;
use crate::text::chars_eq;
use crate::text::clone_chars;
use crate::text::push_str_chars;
use crate::vector::VectorInsert;
use crate::vector::VectorInsertView;
use crate::version::VersionPayload;
use crate::version::VersionPayloadView;

verus! {

pub struct VectorRecord {
    pub id: u64,
    pub data: Vec<char>,
    pub metadata: Vec<char>,
}

#[verifier::ext_equal]
pub struct VectorRecView {
    pub id: u64,
    pub data: Seq<char>,
    pub metadata: Seq<char>,
}

impl View for VectorRecord {
    type V = VectorRecView;

    open spec fn view(&self) -> VectorRecView {
        VectorRecView { id: self.id, data: self.data@, metadata: self.metadata@ }
    }
}

pub struct VersionRecord {
    pub version_id: u64,
    pub unique_id: i32,
    pub name: Vec<char>,
    pub description: Vec<char>,
    pub tag: Vec<char>,
    pub is_default: bool,
    pub vector_index_id: u64,
    pub vectors: Vec<VectorRecord>,
}

#[verifier::ext_equal]
pub struct VersionView {
    pub version_id: u64,
    pub unique_id: i32,
    pub name: Seq<char>,
    pub description: Seq<char>,
    pub tag: Seq<char>,
    pub is_default: bool,
    pub vector_index_id: u64,
    pub vectors: Seq<VectorRecView>,
}

impl View for VersionRecord {
    type V = VersionView;

    open spec fn view(&self) -> VersionView {
        VersionView {
            version_id: self.version_id,
            unique_id: self.unique_id,
            name: self.name@,
            description: self.description@,
            tag: self.tag@,
            is_default: self.is_default,
            vector_index_id: self.vector_index_id,
            vectors: self.vectors@.map_values(|v: VectorRecord| v@),
        }
    }
}

pub struct SpaceRecord {
    pub space_id: u64,
    pub name: Vec<char>,
    pub dimension: u64,
    pub metric: Vec<char>,
    pub next_unique_id: i32,
    pub versions: Vec<VersionRecord>,
}

#[verifier::ext_equal]
pub struct SpaceView {
    pub space_id: u64,
    pub name: Seq<char>,
    pub dimension: u64,
    pub metric: Seq<char>,
    pub next_unique_id: i32,
    pub versions: Seq<VersionView>,
}

impl View for SpaceRecord {
    type V = SpaceView;

    open spec fn view(&self) -> SpaceView {
        SpaceView {
            space_id: self.space_id,
            name: self.name@,
            dimension: self.dimension,
            metric: self.metric@,
            next_unique_id: self.next_unique_id,
            versions: self.versions@.map_values(|v: VersionRecord| v@),
        }
    }
}

/// The whole engine state.
pub struct EngineState {
    pub spaces: Vec<SpaceRecord>,
    pub next_space_id: u64,
    pub next_version_id: u64,
    pub next_vector_index_id: u64,
}

#[verifier::ext_equal]
pub struct EngineView {
    pub spaces: Seq<SpaceView>,
    pub next_space_id: u64,
    pub next_version_id: u64,
    pub next_vector_index_id: u64,
}

impl View for EngineState {
    type V = EngineView;

    open spec fn view(&self) -> EngineView {
        EngineView {
            spaces: self.spaces@.map_values(|s: SpaceRecord| s@),
            next_space_id: self.next_space_id,
            next_version_id: self.next_version_id,
            next_vector_index_id: self.next_vector_index_id,
        }
    }
}

/// Why an engine operation was refused.
#[derive(PartialEq, Eq, Structural, Clone, Copy, Debug)]
pub enum EngineError {
    SpaceExists,
    NoSuchSpace,
    NoSuchVersion,
    NoSuchVector,
    DefaultUndeletable,
    BadPayload,
    Full,
}

// ---------------------------------------------------------------------------
// well-formedness
// ---------------------------------------------------------------------------

pub open spec fn vectors_wf(vs: Seq<VectorRecView>) -> bool {
    forall|i: int, j: int|
        0 <= i < j < vs.len() ==> #[trigger] vs[i].id != #[trigger] vs[j].id
}

pub open spec fn space_wf(sp: SpaceView) -> bool {
    &&& sp.next_unique_id >= 1
    &&& forall|i: int, j: int|
        0 <= i < j < sp.versions.len() ==> #[trigger] sp.versions[i].unique_id
            != #[trigger] sp.versions[j].unique_id
    &&& forall|i: int|
        0 <= i < sp.versions.len() ==> 1 <= (#[trigger] sp.versions[i]).unique_id
            < sp.next_unique_id
    &&& sp.versions.len() > 0 ==> exists|i: int|
        0 <= i < sp.versions.len() && (#[trigger] sp.versions[i]).is_default
    &&& forall|i: int, j: int|
        (0 <= i < sp.versions.len() && 0 <= j < sp.versions.len()
            && (#[trigger] sp.versions[i]).is_default && (#[trigger] sp.versions[j]).is_default)
            ==> i == j
    &&& forall|i: int| 0 <= i < sp.versions.len() ==> vectors_wf((#[trigger] sp.versions[i]).vectors)
}

pub open spec fn engine_wf(ev: EngineView) -> bool {
    &&& ev.next_space_id >= 1
    &&& ev.next_version_id >= 1
    &&& ev.next_vector_index_id >= 1
    &&& forall|i: int, j: int|
        0 <= i < j < ev.spaces.len() ==> #[trigger] ev.spaces[i].name != #[trigger] ev.spaces[j].name
    &&& forall|i: int, j: int|
        0 <= i < j < ev.spaces.len() ==> #[trigger] ev.spaces[i].space_id
            != #[trigger] ev.spaces[j].space_id
    &&& forall|i: int| 0 <= i < ev.spaces.len() ==> (#[trigger] ev.spaces[i]).space_id < ev.next_space_id
    &&& forall|i: int| 0 <= i < ev.spaces.len() ==> space_wf(#[trigger] ev.spaces[i])
    &&& forall|i: int| 0 <= i < ev.spaces.len() ==> (#[trigger] ev.spaces[i]).versions.len() > 0
    &&& forall|i: int, k: int|
        (0 <= i < ev.spaces.len() && 0 <= k < ev.spaces[i].versions.len()) ==> (
        #[trigger] ev.spaces[i].versions[k]).version_id >= 1
    &&& forall|i: int, k: int|
        (0 <= i < ev.spaces.len() && 0 <= k < ev.spaces[i].versions.len()) ==> (
        #[trigger] ev.spaces[i].versions[k]).version_id < ev.next_version_id
    &&& forall|i: int, k: int|
        (0 <= i < ev.spaces.len() && 0 <= k < ev.spaces[i].versions.len()) ==> (
        #[trigger] ev.spaces[i].versions[k]).vector_index_id < ev.next_vector_index_id
    &&& forall|i: int, k: int, j: int, l: int|
        (0 <= i < ev.spaces.len() && 0 <= k < ev.spaces[i].versions.len() && 0 <= j
            < ev.spaces.len() && 0 <= l < ev.spaces[j].versions.len() && (i != j || k != l)) ==> (
        #[trigger] ev.spaces[i].versions[k]).version_id != (
        #[trigger] ev.spaces[j].versions[l]).version_id
}

// ---------------------------------------------------------------------------
// lookups
// ---------------------------------------------------------------------------

pub open spec fn has_space(spaces: Seq<SpaceView>, name: Seq<char>) -> bool {
    exists|i: int| 0 <= i < spaces.len() && (#[trigger] spaces[i]).name == name
}

/// The index of the space so named. Well-defined on well-formed engines,
/// where names are unique.
pub open spec fn space_idx(spaces: Seq<SpaceView>, name: Seq<char>) -> int {
    choose|i: int| 0 <= i < spaces.len() && (#[trigger] spaces[i]).name == name
}

/// In a well-formed engine any name match is the `space_idx` match.
pub proof fn lemma_space_idx_is(spaces: Seq<SpaceView>, name: Seq<char>, i: int)
    requires
        forall|p: int, q: int|
            0 <= p < q < spaces.len() ==> #[trigger] spaces[p].name != #[trigger] spaces[q].name,
        0 <= i < spaces.len(),
        spaces[i].name == name,
    ensures
        has_space(spaces, name),
        space_idx(spaces, name) == i,
{
    assert(0 <= i < spaces.len() && spaces[i].name == name);
    let j = space_idx(spaces, name);
    assert(0 <= j < spaces.len() && spaces[j].name == name);
    if i < j {
        assert(spaces[i].name != spaces[j].name);
    } else if j < i {
        assert(spaces[j].name != spaces[i].name);
    }
}

pub open spec fn has_default(versions: Seq<VersionView>) -> bool {
    exists|i: int| 0 <= i < versions.len() && (#[trigger] versions[i]).is_default
}

pub open spec fn default_idx(versions: Seq<VersionView>) -> int {
    choose|i: int| 0 <= i < versions.len() && (#[trigger] versions[i]).is_default
}

pub proof fn lemma_default_idx_is(sp: SpaceView, i: int)
    requires
        space_wf(sp),
        0 <= i < sp.versions.len(),
        sp.versions[i].is_default,
    ensures
        has_default(sp.versions),
        default_idx(sp.versions) == i,
{
    let j = default_idx(sp.versions);
    assert(0 <= j < sp.versions.len() && sp.versions[j].is_default);
}

pub open spec fn has_uid(versions: Seq<VersionView>, uid: i32) -> bool {
    exists|i: int| 0 <= i < versions.len() && (#[trigger] versions[i]).unique_id == uid
}

pub open spec fn uid_idx(versions: Seq<VersionView>, uid: i32) -> int {
    choose|i: int| 0 <= i < versions.len() && (#[trigger] versions[i]).unique_id == uid
}

pub proof fn lemma_uid_idx_is(sp: SpaceView, uid: i32, i: int)
    requires
        space_wf(sp),
        0 <= i < sp.versions.len(),
        sp.versions[i].unique_id == uid,
    ensures
        has_uid(sp.versions, uid),
        uid_idx(sp.versions, uid) == i,
{
    let j = uid_idx(sp.versions, uid);
    assert(0 <= j < sp.versions.len() && sp.versions[j].unique_id == uid);
    if i < j {
        assert(sp.versions[i].unique_id != sp.versions[j].unique_id);
    } else if j < i {
        assert(sp.versions[j].unique_id != sp.versions[i].unique_id);
    }
}

/// The version a request addresses: unique-id 0 names the default version.
pub open spec fn resolved_version_idx(sp: SpaceView, uid: i32) -> int {
    if uid == 0 {
        default_idx(sp.versions)
    } else {
        uid_idx(sp.versions, uid)
    }
}

pub open spec fn version_resolves(sp: SpaceView, uid: i32) -> bool {
    if uid == 0 {
        has_default(sp.versions)
    } else {
        has_uid(sp.versions, uid)
    }
}

impl EngineState {
    /// A fresh engine holding no spaces; id counters start at 1 so that a
    /// present entity never carries id 0, which request paths use for "the
    /// default".
    pub fn new() -> (r: EngineState)
        ensures
            r@ == empty_engine(),
            engine_wf(r@),
    {
        let r = EngineState {
            spaces: Vec::new(),
            next_space_id: 1,
            next_version_id: 1,
            next_vector_index_id: 1,
        };
        proof {
            assert(r@.spaces =~= empty_engine().spaces);
        }
        r
    }

    /// The index of the space so named.
    pub fn find_space(&self, name: &Vec<char>) -> (r: Option<usize>)
        requires
            engine_wf(self@),
        ensures
            match r {
                Some(i) => has_space(self@.spaces, name@) && i == space_idx(self@.spaces, name@)
                    && i < self@.spaces.len(),
                None => !has_space(self@.spaces, name@),
            },
    {
        let n: usize = self.spaces.len();
        let mut i: usize = 0;
        while i < n
            invariant
                engine_wf(self@),
                n == self@.spaces.len(),
                i <= n,
                forall|j: int| 0 <= j < i ==> (#[trigger] self@.spaces[j]).name != name@,
            decreases n - i,
        {
            if chars_eq(&self.spaces[i].name, name) {
                proof {
                    lemma_space_idx_is(self@.spaces, name@, i as int);
                }
                return Some(i);
            }
            i += 1;
        }
        proof {
            if has_space(self@.spaces, name@) {
                let j = choose|j: int|
                    0 <= j < self@.spaces.len() && (#[trigger] self@.spaces[j]).name == name@;
                assert(self@.spaces[j].name != name@);
            }
        }
        None
    }
}

pub open spec fn empty_engine() -> EngineView {
    EngineView {
        spaces: Seq::<SpaceView>::empty(),
        next_space_id: 1,
        next_version_id: 1,
        next_vector_index_id: 1,
    }
}

/// Whether the id counters can still grow.
pub open spec fn can_alloc(ev: EngineView) -> bool {
    ev.next_space_id < u64::MAX && ev.next_version_id < u64::MAX && ev.next_vector_index_id
        < u64::MAX
}

/// The space a successful `create_space` appends: it carries one version,
/// the default, with an empty vector set.
pub open spec fn new_space_view(ev: EngineView, cfg: SpaceConfigView) -> SpaceView {
    SpaceView {
        space_id: ev.next_space_id,
        name: cfg.name,
        dimension: cfg.dimension,
        metric: cfg.metric,
        next_unique_id: 2,
        versions: seq![
            VersionView {
                version_id: ev.next_version_id,
                unique_id: 1,
                name: "default"@,
                description: Seq::<char>::empty(),
                tag: Seq::<char>::empty(),
                is_default: true,
                vector_index_id: ev.next_vector_index_id,
                vectors: Seq::<VectorRecView>::empty(),
            },
        ],
    }
}

/// What creating a space does: nothing when the name is taken or the id
/// counters are exhausted; otherwise the new space is appended and the
/// counters advance.
pub open spec fn create_space_spec(ev: EngineView, cfg: SpaceConfigView) -> EngineView {
    if has_space(ev.spaces, cfg.name) || !can_alloc(ev) {
        ev
    } else {
        EngineView {
            spaces: ev.spaces.push(new_space_view(ev, cfg)),
            next_space_id: (ev.next_space_id + 1) as u64,
            next_version_id: (ev.next_version_id + 1) as u64,
            next_vector_index_id: (ev.next_vector_index_id + 1) as u64,
        }
    }
}

impl EngineState {
    /// Creates a space with its default version.
    pub fn create_space_rec(&mut self, cfg: &SpaceConfig) -> (r: Result<(), EngineError>)
        requires
            engine_wf(old(self)@),
        ensures
            final(self)@ == create_space_spec(old(self)@, cfg@),
            engine_wf(final(self)@),
            r matches Ok(()) <==> (!has_space(old(self)@.spaces, cfg@.name) && can_alloc(
                old(self)@,
            )),
            r matches Err(e) ==> (e == EngineError::SpaceExists <==> has_space(
                old(self)@.spaces,
                cfg@.name,
            )),
    {
        match self.find_space(&cfg.name) {
            Some(_) => Err(EngineError::SpaceExists),
            None => {
                if self.next_space_id == u64::MAX || self.next_version_id == u64::MAX
                    || self.next_vector_index_id == u64::MAX {
                    return Err(EngineError::Full);
                }
                let mut vname: Vec<char> = Vec::new();
                push_str_chars(&mut vname, "default");
                let ver = VersionRecord {
                    version_id: self.next_version_id,
                    unique_id: 1,
                    name: vname,
                    description: Vec::new(),
                    tag: Vec::new(),
                    is_default: true,
                    vector_index_id: self.next_vector_index_id,
                    vectors: Vec::new(),
                };
                let mut versions: Vec<VersionRecord> = Vec::new();
                versions.push(ver);
                let sp = SpaceRecord {
                    space_id: self.next_space_id,
                    name: clone_chars(&cfg.name),
                    dimension: cfg.dimension,
                    metric: clone_chars(&cfg.metric),
                    next_unique_id: 2,
                    versions,
                };
                let ghost old_ev = self@;
                let ghost spv = sp@;
                self.spaces.push(sp);
                self.next_space_id = self.next_space_id + 1;
                self.next_version_id = self.next_version_id + 1;
                self.next_vector_index_id = self.next_vector_index_id + 1;
                proof {
                    assert(spv.versions[0] =~~= new_space_view(old_ev, cfg@).versions[0]);
                    assert(spv.versions =~~= new_space_view(old_ev, cfg@).versions);
                    assert(spv =~~= new_space_view(old_ev, cfg@));
                    assert(self@.spaces =~~= old_ev.spaces.push(spv));
                    assert(self@ =~~= create_space_spec(old_ev, cfg@));
                    assert(engine_wf(self@)) by {
                        let evn = self@;
                        assert(forall|i: int|
                            0 <= i < old_ev.spaces.len() ==> evn.spaces[i] == old_ev.spaces[i]);
                        assert(space_wf(spv));
                    }
                }
                Ok(())
            },
        }
    }
}

/// Replacing one space by a well-formed space that keeps its name, id and
/// the ids of its versions keeps the engine well-formed.
proof fn lemma_wf_update_same_ids(ev: EngineView, i: int, nsp: SpaceView, nev: EngineView)
    requires
        engine_wf(ev),
        0 <= i < ev.spaces.len(),
        nev.spaces == ev.spaces.update(i, nsp),
        nev.next_space_id == ev.next_space_id,
        nev.next_version_id == ev.next_version_id,
        nev.next_vector_index_id == ev.next_vector_index_id,
        nsp.name == ev.spaces[i].name,
        nsp.space_id == ev.spaces[i].space_id,
        space_wf(nsp),
        nsp.versions.len() == ev.spaces[i].versions.len(),
        forall|k: int|
            0 <= k < nsp.versions.len() ==> (#[trigger] nsp.versions[k]).version_id
                == ev.spaces[i].versions[k].version_id && nsp.versions[k].vector_index_id
                == ev.spaces[i].versions[k].vector_index_id,
    ensures
        engine_wf(nev),
{
    let ns = nev.spaces;
    assert(forall|j: int| 0 <= j < ns.len() && j != i ==> ns[j] == ev.spaces[j]);
    assert(ns[i] == nsp);
    assert forall|a: int, k: int|
        (0 <= a < ns.len() && 0 <= k < ns[a].versions.len()) implies (
    #[trigger] ns[a].versions[k]).version_id < nev.next_version_id && ns[a].versions[k].vector_index_id
        < nev.next_vector_index_id by {
        if a == i {
            assert(ns[a].versions[k].version_id == ev.spaces[i].versions[k].version_id);
        }
    }
    assert forall|a: int, k: int, b: int, l: int|
        (0 <= a < ns.len() && 0 <= k < ns[a].versions.len() && 0 <= b < ns.len() && 0 <= l < ns[
            b
        ].versions.len() && (a != b || k != l)) implies (#[trigger] ns[a].versions[k]).version_id
        != (#[trigger] ns[b].versions[l]).version_id by {
        let va = if a == i {
            ev.spaces[i].versions[k].version_id
        } else {
            ev.spaces[a].versions[k].version_id
        };
        assert(ns[a].versions[k].version_id == ev.spaces[a].versions[k].version_id);
        assert(ns[b].versions[l].version_id == ev.spaces[b].versions[l].version_id);
        assert(ev.spaces[a].versions[k].version_id != ev.spaces[b].versions[l].version_id);
    }
}

/// Appending, to one space, a version carrying the fresh ids — and keeping
/// the ids of the spaces and versions already there — keeps the engine
/// well-formed once the counters move past the fresh ids.
proof fn lemma_wf_update_appended(ev: EngineView, i: int, nsp: SpaceView, nev: EngineView)
    requires
        engine_wf(ev),
        0 <= i < ev.spaces.len(),
        nev.spaces == ev.spaces.update(i, nsp),
        nev.next_space_id == ev.next_space_id,
        nev.next_version_id == ev.next_version_id + 1,
        nev.next_vector_index_id == ev.next_vector_index_id + 1,
        nsp.name == ev.spaces[i].name,
        nsp.space_id == ev.spaces[i].space_id,
        space_wf(nsp),
        nsp.versions.len() == ev.spaces[i].versions.len() + 1,
        forall|k: int|
            0 <= k < nsp.versions.len() - 1 ==> (#[trigger] nsp.versions[k]).version_id
                == ev.spaces[i].versions[k].version_id && nsp.versions[k].vector_index_id
                == ev.spaces[i].versions[k].vector_index_id,
        nsp.versions.last().version_id == ev.next_version_id,
        nsp.versions.last().vector_index_id == ev.next_vector_index_id,
    ensures
        engine_wf(nev),
{
    let ns = nev.spaces;
    let last = (nsp.versions.len() - 1) as int;
    assert(forall|j: int| 0 <= j < ns.len() && j != i ==> ns[j] == ev.spaces[j]);
    assert(ns[i] == nsp);
    assert forall|a: int, k: int|
        (0 <= a < ns.len() && 0 <= k < ns[a].versions.len()) implies (
    #[trigger] ns[a].versions[k]).version_id < nev.next_version_id && ns[a].versions[k].vector_index_id
        < nev.next_vector_index_id by {
        if a == i && k == last {
            assert(ns[a].versions[k] == nsp.versions.last());
        } else if a == i {
            assert(ns[a].versions[k].version_id == ev.spaces[i].versions[k].version_id);
        }
    }
    assert forall|a: int, k: int, b: int, l: int|
        (0 <= a < ns.len() && 0 <= k < ns[a].versions.len() && 0 <= b < ns.len() && 0 <= l < ns[
            b
        ].versions.len() && (a != b || k != l)) implies (#[trigger] ns[a].versions[k]).version_id
        != (#[trigger] ns[b].versions[l]).version_id by {
        let fresh_a = a == i && k == last;
        let fresh_b = b == i && l == last;
        if fresh_a && !fresh_b {
            assert(ns[a].versions[k].version_id == ev.next_version_id);
            assert(ns[b].versions[l].version_id == ev.spaces[b].versions[l].version_id);
            assert(ev.spaces[b].versions[l].version_id < ev.next_version_id);
        } else if !fresh_a && fresh_b {
            assert(ns[b].versions[l].version_id == ev.next_version_id);
            assert(ns[a].versions[k].version_id == ev.spaces[a].versions[k].version_id);
            assert(ev.spaces[a].versions[k].version_id < ev.next_version_id);
        } else if !fresh_a && !fresh_b {
            assert(ns[a].versions[k].version_id == ev.spaces[a].versions[k].version_id);
            assert(ns[b].versions[l].version_id == ev.spaces[b].versions[l].version_id);
            assert(ev.spaces[a].versions[k].version_id != ev.spaces[b].versions[l].version_id);
        }
    }
}

/// `remove` then `insert` at one index is an update.
pub proof fn lemma_remove_insert<T>(s: Seq<T>, i: int, x: T)
    requires
        0 <= i < s.len(),
    ensures
        s.remove(i).insert(i, x) =~= s.update(i, x),
{
}

/// What updating a space's schema does: dimension and metric are replaced,
/// everything else — name, id, versions — stays.
pub open spec fn update_space_spec(ev: EngineView, name: Seq<char>, cfg: SpaceConfigView) -> EngineView {
    if !has_space(ev.spaces, name) {
        ev
    } else {
        let i = space_idx(ev.spaces, name);
        let sp = ev.spaces[i];
        EngineView {
            spaces: ev.spaces.update(
                i,
                SpaceView { dimension: cfg.dimension, metric: cfg.metric, ..sp },
            ),
            ..ev
        }
    }
}

/// What deleting a space does: the space and everything in it goes away.
pub open spec fn delete_space_spec(ev: EngineView, name: Seq<char>) -> EngineView {
    if !has_space(ev.spaces, name) {
        ev
    } else {
        EngineView { spaces: ev.spaces.remove(space_idx(ev.spaces, name)), ..ev }
    }
}

/// All versions of a space with the default flag withdrawn.
pub open spec fn demoted(versions: Seq<VersionView>) -> Seq<VersionView> {
    versions.map_values(|v: VersionView| VersionView { is_default: false, ..v })
}

/// The version a successful `create_version` appends. A version created in
/// an empty space becomes the default whatever the payload asks.
pub open spec fn new_version_view(ev: EngineView, sp: SpaceView, vp: VersionPayloadView) -> VersionView {
    VersionView {
        version_id: ev.next_version_id,
        unique_id: sp.next_unique_id,
        name: vp.name,
        description: vp.description,
        tag: vp.tag,
        is_default: vp.is_default || sp.versions.len() == 0,
        vector_index_id: ev.next_vector_index_id,
        vectors: Seq::<VectorRecView>::empty(),
    }
}

/// What creating a version does: the new version is appended with the next
/// per-space unique id; when it is the default, the previous default is
/// demoted in the same step.
pub open spec fn create_version_spec(ev: EngineView, name: Seq<char>, vp: VersionPayloadView) -> EngineView {
    if !has_space(ev.spaces, name) || !can_alloc(ev) {
        ev
    } else {
        let i = space_idx(ev.spaces, name);
        let sp = ev.spaces[i];
        if sp.next_unique_id == i32::MAX {
            ev
        } else {
            let base = if vp.is_default {
                demoted(sp.versions)
            } else {
                sp.versions
            };
            let nsp = SpaceView {
                next_unique_id: (sp.next_unique_id + 1) as i32,
                versions: base.push(new_version_view(ev, sp, vp)),
                ..sp
            };
            EngineView {
                spaces: ev.spaces.update(i, nsp),
                next_version_id: (ev.next_version_id + 1) as u64,
                next_vector_index_id: (ev.next_vector_index_id + 1) as u64,
                ..ev
            }
        }
    }
}

/// What deleting a version does: the version leaves its space, unless it
/// is the default version (or addressed as the default through unique id
/// 0), which stays; the space itself always keeps at least one version.
pub open spec fn delete_version_spec(ev: EngineView, name: Seq<char>, uid: i32) -> EngineView {
    if !has_space(ev.spaces, name) {
        ev
    } else {
        let i = space_idx(ev.spaces, name);
        let sp = ev.spaces[i];
        if uid == 0 || !has_uid(sp.versions, uid) {
            ev
        } else {
            let k = uid_idx(sp.versions, uid);
            if sp.versions[k].is_default {
                ev
            } else {
                EngineView {
                    spaces: ev.spaces.update(i, SpaceView { versions: sp.versions.remove(k), ..sp }),
                    ..ev
                }
            }
        }
    }
}

/// One vector inserted or replaced by key.
pub open spec fn vector_of_insert(ins: VectorInsertView) -> VectorRecView {
    VectorRecView { id: ins.id, data: ins.data, metadata: ins.metadata }
}

pub open spec fn has_vector(vs: Seq<VectorRecView>, id: u64) -> bool {
    exists|i: int| 0 <= i < vs.len() && (#[trigger] vs[i]).id == id
}

pub open spec fn vector_idx(vs: Seq<VectorRecView>, id: u64) -> int {
    choose|i: int| 0 <= i < vs.len() && (#[trigger] vs[i]).id == id
}

pub open spec fn upsert_one(vs: Seq<VectorRecView>, ins: VectorInsertView) -> Seq<VectorRecView> {
    if has_vector(vs, ins.id) {
        vs.update(vector_idx(vs, ins.id), vector_of_insert(ins))
    } else {
        vs.push(vector_of_insert(ins))
    }
}

/// All inserts applied left to right.
pub open spec fn upsert_all(vs: Seq<VectorRecView>, inss: Seq<VectorInsertView>) -> Seq<VectorRecView>
    decreases inss.len(),
{
    if inss.len() == 0 {
        vs
    } else {
        upsert_all(upsert_one(vs, inss[0]), inss.drop_first())
    }
}

/// `upsert_all` can take its last insert off the right.
pub proof fn lemma_upsert_all_snoc(vs: Seq<VectorRecView>, inss: Seq<VectorInsertView>, x: VectorInsertView)
    ensures
        upsert_all(vs, inss.push(x)) == upsert_one(upsert_all(vs, inss), x),
    decreases inss.len(),
{
    if inss.len() == 0 {
        assert(inss.push(x)[0] == x);
        assert(inss.push(x).drop_first() =~= Seq::<VectorInsertView>::empty());
        assert(upsert_all(vs, inss.push(x)) == upsert_all(
            upsert_one(vs, x),
            Seq::<VectorInsertView>::empty(),
        ));
        assert(upsert_all(upsert_one(vs, x), Seq::<VectorInsertView>::empty()) == upsert_one(
            vs,
            x,
        ));
        assert(upsert_all(vs, inss) == vs);
    } else {
        assert(inss.push(x)[0] == inss[0]);
        assert(inss.push(x).drop_first() =~= inss.drop_first().push(x));
        lemma_upsert_all_snoc(upsert_one(vs, inss[0]), inss.drop_first(), x);
        assert(upsert_all(vs, inss.push(x)) == upsert_all(
            upsert_one(vs, inss[0]),
            inss.drop_first().push(x),
        ));
        assert(upsert_all(vs, inss) == upsert_all(upsert_one(vs, inss[0]), inss.drop_first()));
    }
}

/// An upsert keeps vector keys unique.
pub proof fn lemma_upsert_one_wf(vs: Seq<VectorRecView>, ins: VectorInsertView)
    requires
        vectors_wf(vs),
    ensures
        vectors_wf(upsert_one(vs, ins)),
{
    if has_vector(vs, ins.id) {
        let i = vector_idx(vs, ins.id);
        assert(0 <= i < vs.len() && vs[i].id == ins.id);
    }
}

/// The upsert round trip: what an upsert stores under a key is exactly
/// what a lookup by that key then finds.
pub proof fn lemma_upsert_then_found(vs: Seq<VectorRecView>, ins: VectorInsertView)
    requires
        vectors_wf(vs),
    ensures
        has_vector(upsert_one(vs, ins), ins.id),
        upsert_one(vs, ins)[vector_idx(upsert_one(vs, ins), ins.id)] == vector_of_insert(ins),
{
    let ns = upsert_one(vs, ins);
    if has_vector(vs, ins.id) {
        let i = vector_idx(vs, ins.id);
        assert(0 <= i < vs.len() && vs[i].id == ins.id);
        assert(ns[i].id == ins.id);
        assert(has_vector(ns, ins.id));
        let j = vector_idx(ns, ins.id);
        assert(0 <= j < ns.len() && ns[j].id == ins.id);
        if j != i {
            assert(vs[j].id == ins.id);
            if i < j {
                assert(vs[i].id != vs[j].id);
            } else {
                assert(vs[j].id != vs[i].id);
            }
        }
    } else {
        let i = vs.len() as int;
        assert(ns[i].id == ins.id);
        assert(has_vector(ns, ins.id));
        let j = vector_idx(ns, ins.id);
        assert(0 <= j < ns.len() && ns[j].id == ins.id);
        if j < i {
            assert(vs[j].id == ins.id);
            assert(has_vector(vs, ins.id));
        }
    }
}

/// What upserting does: each vector in the payload replaces the stored
/// vector with its key, or is appended when the key is new. Unique id 0
/// addresses the default version.
pub open spec fn upsert_vectors_spec(
    ev: EngineView,
    name: Seq<char>,
    uid: i32,
    inss: Seq<VectorInsertView>,
) -> EngineView {
    if !has_space(ev.spaces, name) {
        ev
    } else {
        let i = space_idx(ev.spaces, name);
        let sp = ev.spaces[i];
        if !version_resolves(sp, uid) {
            ev
        } else {
            let k = resolved_version_idx(sp, uid);
            let ver = sp.versions[k];
            let nver = VersionView { vectors: upsert_all(ver.vectors, inss), ..ver };
            EngineView { spaces: ev.spaces.update(i, SpaceView { versions: sp.versions.update(k, nver), ..sp }), ..ev }
        }
    }
}

/// The upsert round trip at the engine level: after a vector is upserted
/// into the version that `uid` addresses, looking its key up in that
/// version finds exactly the upserted vector.
pub proof fn lemma_engine_upsert_get(
    ev: EngineView,
    name: Seq<char>,
    uid: i32,
    ins: VectorInsertView,
)
    requires
        engine_wf(ev),
        has_space(ev.spaces, name),
        version_resolves(ev.spaces[space_idx(ev.spaces, name)], uid),
    ensures
        ({
            let ns = upsert_vectors_spec(ev, name, uid, seq![ins]);
            let nsp = ns.spaces[space_idx(ev.spaces, name)];
            let nver = nsp.versions[resolved_version_idx(ev.spaces[space_idx(ev.spaces, name)], uid)];
            &&& has_vector(nver.vectors, ins.id)
            &&& nver.vectors[vector_idx(nver.vectors, ins.id)] == vector_of_insert(ins)
        }),
{
    let i = space_idx(ev.spaces, name);
    let sp = ev.spaces[i];
    let k = resolved_version_idx(sp, uid);
    let ver = sp.versions[k];
    let ns = upsert_vectors_spec(ev, name, uid, seq![ins]);
    assert(0 <= i < ev.spaces.len() && sp.name == name);
    if uid == 0 {
        let d = default_idx(sp.versions);
        assert(0 <= d < sp.versions.len() && sp.versions[d].is_default);
    } else {
        let u = uid_idx(sp.versions, uid);
        assert(0 <= u < sp.versions.len() && sp.versions[u].unique_id == uid);
    }
    assert(0 <= k < sp.versions.len());
    assert(ns.spaces[i].versions[k].vectors == upsert_all(ver.vectors, seq![ins])) by {
        assert(seq![ins][0] == ins);
        assert(seq![ins].drop_first() =~= Seq::<VectorInsertView>::empty());
        assert(upsert_all(ver.vectors, seq![ins]) == upsert_all(
            upsert_one(ver.vectors, ins),
            Seq::<VectorInsertView>::empty(),
        ));
    }
    assert(space_wf(sp));
    assert(vectors_wf(ver.vectors));
    assert(seq![ins][0] == ins);
    assert(seq![ins].drop_first() =~= Seq::<VectorInsertView>::empty());
    assert(upsert_all(ver.vectors, seq![ins]) == upsert_all(
        upsert_one(ver.vectors, ins),
        Seq::<VectorInsertView>::empty(),
    ));
    assert(upsert_all(ver.vectors, seq![ins]) == upsert_one(ver.vectors, ins));
    lemma_upsert_then_found(ver.vectors, ins);
}

impl EngineState {
    /// Updates a space's schema fields.
    pub fn update_space_rec(&mut self, name: &Vec<char>, cfg: &SpaceConfig) -> (r: Result<
        (),
        EngineError,
    >)
        requires
            engine_wf(old(self)@),
        ensures
            final(self)@ == update_space_spec(old(self)@, name@, cfg@),
            engine_wf(final(self)@),
            r matches Ok(()) <==> has_space(old(self)@.spaces, name@),
    {
        let i = match self.find_space(name) {
            Some(i) => i,
            None => {
                return Err(EngineError::NoSuchSpace);
            },
        };
        let ghost old_ev = self@;
        let sp = self.spaces.remove(i);
        let nsp = SpaceRecord { dimension: cfg.dimension, metric: clone_chars(&cfg.metric), ..sp };
        self.spaces.insert(i, nsp);
        proof {
            let target = update_space_spec(old_ev, name@, cfg@);
            lemma_remove_insert(old_ev.spaces, i as int, nsp@);
            assert(self@.spaces =~= old_ev.spaces.update(i as int, nsp@));
            assert(nsp@ =~~= SpaceView {
                dimension: cfg@.dimension,
                metric: cfg@.metric,
                ..old_ev.spaces[i as int]
            });
            assert(self@ =~~= target);
            assert(engine_wf(self@)) by {
                assert(forall|j: int|
                    0 <= j < self@.spaces.len() && j != i ==> self@.spaces[j] == old_ev.spaces[j]);
                assert(space_wf(self@.spaces[i as int]));
            }
        }
        Ok(())
    }

    /// Deletes a space with all its versions and vectors.
    pub fn delete_space_rec(&mut self, name: &Vec<char>) -> (r: Result<(), EngineError>)
        requires
            engine_wf(old(self)@),
        ensures
            final(self)@ == delete_space_spec(old(self)@, name@),
            engine_wf(final(self)@),
            r matches Ok(()) <==> has_space(old(self)@.spaces, name@),
            !has_space(final(self)@.spaces, name@),
    {
        let i = match self.find_space(name) {
            Some(i) => i,
            None => {
                return Err(EngineError::NoSuchSpace);
            },
        };
        let ghost old_ev = self@;
        let _ = self.spaces.remove(i);
        proof {
            assert(self@.spaces =~= old_ev.spaces.remove(i as int));
            assert(self@ =~~= delete_space_spec(old_ev, name@));
            let ns = self@.spaces;
            assert(forall|j: int|
                0 <= j < ns.len() ==> ns[j] == old_ev.spaces[if j < i as int {
                    j
                } else {
                    j + 1
                }]);
            assert(engine_wf(self@));
            if has_space(ns, name@) {
                let j = choose|j: int| 0 <= j < ns.len() && (#[trigger] ns[j]).name == name@;
                let oj: int = if j < i as int {
                    j
                } else {
                    j + 1
                };
                assert(old_ev.spaces[oj].name == name@);
                assert(old_ev.spaces[i as int].name == name@);
                assert(oj != i as int);
                if oj < i as int {
                    assert(old_ev.spaces[oj].name != old_ev.spaces[i as int].name);
                } else {
                    assert(old_ev.spaces[i as int].name != old_ev.spaces[oj].name);
                }
            }
        }
        Ok(())
    }

    /// Creates a version inside a space.
    pub fn create_version_rec(&mut self, name: &Vec<char>, vp: &VersionPayload) -> (r: Result<
        (),
        EngineError,
    >)
        requires
            engine_wf(old(self)@),
        ensures
            final(self)@ == create_version_spec(old(self)@, name@, vp@),
            engine_wf(final(self)@),
            r matches Err(e) && e == EngineError::NoSuchSpace <==> !has_space(
                old(self)@.spaces,
                name@,
            ),
            r is Ok <==> (has_space(old(self)@.spaces, name@) && can_alloc(old(self)@)
                && old(self)@.spaces[space_idx(old(self)@.spaces, name@)].next_unique_id
                != i32::MAX),
    {
        let i = match self.find_space(name) {
            Some(i) => i,
            None => {
                return Err(EngineError::NoSuchSpace);
            },
        };
        if self.next_version_id == u64::MAX || self.next_space_id == u64::MAX
            || self.next_vector_index_id == u64::MAX {
            return Err(EngineError::Full);
        }
        let ghost old_ev = self@;
        let mut sp = self.spaces.remove(i);
        if sp.next_unique_id == i32::MAX {
            self.spaces.insert(i, sp);
            proof {
                lemma_remove_insert(old_ev.spaces, i as int, old_ev.spaces[i as int]);
                assert(self@.spaces =~= old_ev.spaces.update(i as int, old_ev.spaces[i as int]));
                assert(self@.spaces =~= old_ev.spaces);
                assert(self@ =~~= old_ev);
            }
            return Err(EngineError::Full);
        }
        let ghost old_sp = sp@;
        if vp.is_default {
            demote_all(&mut sp.versions);
        }
        let nver = VersionRecord {
            version_id: self.next_version_id,
            unique_id: sp.next_unique_id,
            name: clone_chars(&vp.name),
            description: clone_chars(&vp.description),
            tag: clone_chars(&vp.tag),
            is_default: vp.is_default || sp.versions.len() == 0,
            vector_index_id: self.next_vector_index_id,
            vectors: Vec::new(),
        };
        proof {
            if !vp@.is_default {
                assert(sp@.versions =~= old_sp.versions);
            }
        }
        sp.versions.push(nver);
        sp.next_unique_id = sp.next_unique_id + 1;
        self.spaces.insert(i, sp);
        self.next_version_id = self.next_version_id + 1;
        self.next_vector_index_id = self.next_vector_index_id + 1;
        proof {
            let target = create_version_spec(old_ev, name@, vp@);
            let base = if vp@.is_default {
                demoted(old_sp.versions)
            } else {
                old_sp.versions
            };
            let nvv = new_version_view(old_ev, old_sp, vp@);
            assert(nver@ =~~= nvv) by {
                assert(nver@.vectors =~= Seq::<VectorRecView>::empty());
                if vp@.is_default {
                    assert(demoted(old_sp.versions).len() == old_sp.versions.len());
                }
            }
            let nspv = SpaceView {
                next_unique_id: (old_sp.next_unique_id + 1) as i32,
                versions: base.push(nvv),
                ..old_sp
            };
            assert(self@.spaces[i as int] =~~= nspv) by {
                assert(self@.spaces[i as int].versions =~~= base.push(nvv));
            }
            lemma_remove_insert(old_ev.spaces, i as int, self@.spaces[i as int]);
            assert(self@.spaces =~= old_ev.spaces.update(i as int, nspv));
            assert(self@ =~~= target);
            let lo = old_sp.versions;
            let vs2 = nspv.versions;
            assert(space_wf(old_sp));
            assert(vs2.len() == lo.len() + 1);
            assert(forall|k: int| 0 <= k < lo.len() ==> vs2[k] == base[k]);
            assert(vs2[lo.len() as int] == nvv);
            assert(forall|k: int|
                0 <= k < lo.len() ==> (#[trigger] base[k]).unique_id == lo[k].unique_id && base[
                    k
                ].version_id == lo[k].version_id && base[k].vector_index_id
                    == lo[k].vector_index_id && base[k].vectors == lo[k].vectors);
            assert(space_wf(nspv)) by {
                assert forall|a: int, b: int| 0 <= a < b < vs2.len() implies (
                #[trigger] vs2[a]).unique_id != (#[trigger] vs2[b]).unique_id by {
                    if b < lo.len() {
                        assert(lo[a].unique_id != lo[b].unique_id);
                    } else {
                        assert(vs2[b] == nvv);
                        assert(vs2[a].unique_id == lo[a].unique_id);
                        assert(1 <= lo[a].unique_id < old_sp.next_unique_id);
                    }
                }
                assert forall|k: int| 0 <= k < vs2.len() implies 1 <= (
                #[trigger] vs2[k]).unique_id < nspv.next_unique_id by {
                    if k < lo.len() {
                        assert(1 <= lo[k].unique_id < old_sp.next_unique_id);
                    }
                }
                assert(exists|m: int| 0 <= m < vs2.len() && (#[trigger] vs2[m]).is_default) by {
                    if vp@.is_default || lo.len() == 0 {
                        assert(vs2[lo.len() as int].is_default);
                    } else {
                        let m = choose|m: int|
                            0 <= m < lo.len() && (#[trigger] lo[m]).is_default;
                        assert(vs2[m].is_default);
                    }
                }
                assert forall|a: int, b: int|
                    (0 <= a < vs2.len() && 0 <= b < vs2.len() && (#[trigger] vs2[a]).is_default
                        && (#[trigger] vs2[b]).is_default) implies a == b by {
                    if vp@.is_default {
                        if a < lo.len() {
                            assert(!base[a].is_default);
                        }
                        if b < lo.len() {
                            assert(!base[b].is_default);
                        }
                    } else {
                        if a < lo.len() && b < lo.len() {
                            assert(lo[a].is_default && lo[b].is_default);
                        } else if a < lo.len() {
                            assert(vs2[b] == nvv && !nvv.is_default);
                        } else if b < lo.len() {
                            assert(vs2[a] == nvv && !nvv.is_default);
                        }
                    }
                }
                assert forall|k: int| 0 <= k < vs2.len() implies vectors_wf(
                    (#[trigger] vs2[k]).vectors,
                ) by {
                    if k < lo.len() {
                        assert(vectors_wf(lo[k].vectors));
                        assert(vs2[k].vectors == lo[k].vectors);
                    } else {
                        assert(vs2[k].vectors =~= Seq::<VectorRecView>::empty());
                    }
                }
            }
            assert(nspv.versions.last() == nvv);
            lemma_wf_update_appended(old_ev, i as int, nspv, self@);
        }
        Ok(())
    }

    /// Upserts a batch of vectors into one version of a space; unique id 0
    /// addresses the default version.
    pub fn upsert_vectors_rec(&mut self, name: &Vec<char>, uid: i32, inss: &Vec<VectorInsert>) -> (r:
        Result<(), EngineError>)
        requires
            engine_wf(old(self)@),
        ensures
            final(self)@ == upsert_vectors_spec(
                old(self)@,
                name@,
                uid,
                inss@.map_values(|x: VectorInsert| x@),
            ),
            engine_wf(final(self)@),
            r matches Ok(()) <==> (has_space(old(self)@.spaces, name@) && version_resolves(
                old(self)@.spaces[space_idx(old(self)@.spaces, name@)],
                uid,
            )),
    {
        let ghost insv = inss@.map_values(|x: VectorInsert| x@);
        let i = match self.find_space(name) {
            Some(i) => i,
            None => {
                return Err(EngineError::NoSuchSpace);
            },
        };
        let ghost old_ev = self@;
        let k = match self.find_version_in(i, uid) {
            Some(k) => k,
            None => {
                return Err(EngineError::NoSuchVersion);
            },
        };
        let mut sp = self.spaces.remove(i);
        let ghost old_sp = sp@;
        let mut ver = sp.versions.remove(k);
        let ghost old_ver = ver@;
        proof {
            assert(space_wf(old_sp));
            assert(old_ver == old_sp.versions[k as int]);
            assert(vectors_wf(old_ver.vectors));
        }
        let n: usize = inss.len();
        let mut t: usize = 0;
        while t < n
            invariant
                n == inss@.len(),
                t <= n,
                insv == inss@.map_values(|x: VectorInsert| x@),
                ver@.vectors == upsert_all(old_ver.vectors, insv.subrange(0, t as int)),
                ver@.version_id == old_ver.version_id,
                ver@.unique_id == old_ver.unique_id,
                ver@.name == old_ver.name,
                ver@.description == old_ver.description,
                ver@.tag == old_ver.tag,
                ver@.is_default == old_ver.is_default,
                ver@.vector_index_id == old_ver.vector_index_id,
                vectors_wf(ver@.vectors),
            decreases n - t,
        {
            proof {
                assert(insv.subrange(0, t as int) =~= insv.subrange(0, t as int));
            }
            upsert_one_vec(&mut ver.vectors, &inss[t]);
            t += 1;
            proof {
                assert(insv.subrange(0, t as int).drop_last() =~= insv.subrange(0, t - 1));
                assert(insv.subrange(0, t as int).last() == insv[t - 1]);
                lemma_upsert_all_snoc(old_ver.vectors, insv.subrange(0, t - 1), insv[t - 1]);
                assert(insv.subrange(0, t - 1).push(insv[t - 1]) =~= insv.subrange(0, t as int));
                lemma_upsert_one_wf(upsert_all(old_ver.vectors, insv.subrange(0, t - 1)), insv[t - 1]);
            }
        }
        proof {
            assert(insv.subrange(0, n as int) =~= insv);
        }
        sp.versions.insert(k, ver);
        self.spaces.insert(i, sp);
        proof {
            let target = upsert_vectors_spec(old_ev, name@, uid, insv);
            let tsp = old_ev.spaces[i as int];
            let tver = tsp.versions[k as int];
            let nver = VersionView { vectors: upsert_all(tver.vectors, insv), ..tver };
            lemma_remove_insert(tsp.versions, k as int, nver);
            assert(sp@.versions =~= tsp.versions.update(k as int, nver)) by {
                assert(sp@.versions =~~= tsp.versions.remove(k as int).insert(k as int, nver));
            }
            assert(sp@ =~~= SpaceView { versions: tsp.versions.update(k as int, nver), ..tsp });
            lemma_remove_insert(old_ev.spaces, i as int, sp@);
            assert(self@.spaces =~= old_ev.spaces.update(i as int, sp@));
            assert(self@ =~~= target);
            assert(space_wf(tsp));
            assert(forall|m: int|
                0 <= m < sp@.versions.len() && m != k ==> sp@.versions[m] == tsp.versions[m]);
            assert(sp@.versions[k as int] == nver);
            assert(forall|m: int|
                0 <= m < sp@.versions.len() ==> (#[trigger] sp@.versions[m]).unique_id
                    == tsp.versions[m].unique_id && sp@.versions[m].is_default
                    == tsp.versions[m].is_default && sp@.versions[m].version_id
                    == tsp.versions[m].version_id && sp@.versions[m].vector_index_id
                    == tsp.versions[m].vector_index_id);
            assert(space_wf(sp@)) by {
                assert(exists|m: int|
                    0 <= m < tsp.versions.len() && (#[trigger] tsp.versions[m]).is_default
                    ==> exists|m: int|
                    0 <= m < sp@.versions.len() && (#[trigger] sp@.versions[m]).is_default);
                if tsp.versions.len() > 0 {
                    let m = choose|m: int|
                        0 <= m < tsp.versions.len() && (#[trigger] tsp.versions[m]).is_default;
                    assert(sp@.versions[m].is_default);
                }
                assert forall|m: int| 0 <= m < sp@.versions.len() implies vectors_wf(
                    (#[trigger] sp@.versions[m]).vectors,
                ) by {
                    if m == k {
                        assert(sp@.versions[m].vectors == ver@.vectors);
                    } else {
                        assert(vectors_wf(tsp.versions[m].vectors));
                    }
                }
            }
            lemma_wf_update_same_ids(old_ev, i as int, sp@, self@);
        }
        Ok(())
    }

    /// Deletes the version that `uid` addresses inside a space. The
    /// default version cannot be deleted, so every space keeps a default.
    #[verifier::rlimit(100)]
    pub fn delete_version_rec(&mut self, name: &Vec<char>, uid: i32) -> (r: Result<
        (),
        EngineError,
    >)
        requires
            engine_wf(old(self)@),
        ensures
            final(self)@ == delete_version_spec(old(self)@, name@, uid),
            engine_wf(final(self)@),
            r matches Ok(()) <==> (has_space(old(self)@.spaces, name@) && uid != 0 && has_uid(
                old(self)@.spaces[space_idx(old(self)@.spaces, name@)].versions,
                uid,
            ) && !old(self)@.spaces[space_idx(old(self)@.spaces, name@)].versions[uid_idx(
                old(self)@.spaces[space_idx(old(self)@.spaces, name@)].versions,
                uid,
            )].is_default),
    {
        let i = match self.find_space(name) {
            Some(i) => i,
            None => {
                return Err(EngineError::NoSuchSpace);
            },
        };
        if uid == 0 {
            return Err(EngineError::DefaultUndeletable);
        }
        let k = match self.find_version_in(i, uid) {
            Some(k) => k,
            None => {
                return Err(EngineError::NoSuchVersion);
            },
        };
        if self.spaces[i].versions[k].is_default {
            proof {
                assert(self@.spaces[i as int].versions[k as int] == self.spaces@[
                    i as int
                ].versions@[k as int]@);
            }
            return Err(EngineError::DefaultUndeletable);
        }
        proof {
            assert(self@.spaces[i as int].versions[k as int] == self.spaces@[i as int].versions@[
                k as int
            ]@);
        }
        let ghost old_ev = self@;
        let mut sp = self.spaces.remove(i);
        let ghost old_sp = sp@;
        let _ = sp.versions.remove(k);
        self.spaces.insert(i, sp);
        proof {
            let target = delete_version_spec(old_ev, name@, uid);
            assert(sp@.versions =~= old_sp.versions.remove(k as int));
            assert(sp@ =~~= SpaceView { versions: old_sp.versions.remove(k as int), ..old_sp });
            lemma_remove_insert(old_ev.spaces, i as int, sp@);
            assert(self@.spaces =~= old_ev.spaces.update(i as int, sp@));
            assert(self@ =~~= target);
            let lo = old_sp.versions;
            let vs2 = sp@.versions;
            assert(space_wf(old_sp));
            assert(forall|m: int|
                0 <= m < vs2.len() ==> vs2[m] == lo[if m < k as int {
                    m
                } else {
                    m + 1
                }]);
            assert(space_wf(sp@)) by {
                assert forall|a: int, b: int| 0 <= a < b < vs2.len() implies (
                #[trigger] vs2[a]).unique_id != (#[trigger] vs2[b]).unique_id by {
                    let oa: int = if a < k as int {
                        a
                    } else {
                        a + 1
                    };
                    let ob: int = if b < k as int {
                        b
                    } else {
                        b + 1
                    };
                    assert(lo[oa].unique_id != lo[ob].unique_id);
                }
                let d = choose|d: int| 0 <= d < lo.len() && (#[trigger] lo[d]).is_default;
                assert(0 <= d < lo.len() && lo[d].is_default);
                assert(d != k as int);
                let nd: int = if d < k as int {
                    d
                } else {
                    d - 1
                };
                assert(vs2[nd] == lo[d]);
                assert(exists|m: int| 0 <= m < vs2.len() && (#[trigger] vs2[m]).is_default);
                assert forall|a: int, b: int|
                    (0 <= a < vs2.len() && 0 <= b < vs2.len() && (#[trigger] vs2[a]).is_default
                        && (#[trigger] vs2[b]).is_default) implies a == b by {
                    let oa: int = if a < k as int {
                        a
                    } else {
                        a + 1
                    };
                    let ob: int = if b < k as int {
                        b
                    } else {
                        b + 1
                    };
                    assert(lo[oa].is_default && lo[ob].is_default);
                }
                assert(forall|m: int|
                    0 <= m < vs2.len() ==> vectors_wf((#[trigger] vs2[m]).vectors));
            }
            assert(engine_wf(self@)) by {
                let ns = self@.spaces;
                assert(forall|j: int| 0 <= j < ns.len() && j != i ==> ns[j] == old_ev.spaces[j]);
                assert forall|a: int, m: int|
                    (0 <= a < ns.len() && 0 <= m < ns[a].versions.len()) implies (
                #[trigger] ns[a].versions[m]).version_id < self@.next_version_id && ns[a].versions[
                    m
                ].vector_index_id < self@.next_vector_index_id && ns[a].versions[m].version_id
                    >= 1 by {
                    if a == i {
                        let om: int = if m < k as int {
                            m
                        } else {
                            m + 1
                        };
                        assert(ns[a].versions[m] == old_ev.spaces[i as int].versions[om]);
                    }
                }
                assert forall|a: int, m: int, b: int, l: int|
                    (0 <= a < ns.len() && 0 <= m < ns[a].versions.len() && 0 <= b < ns.len() && 0
                        <= l < ns[b].versions.len() && (a != b || m != l)) implies (
                #[trigger] ns[a].versions[m]).version_id != (
                #[trigger] ns[b].versions[l]).version_id by {
                    let om: int = if a == i as int && m >= k as int {
                        m + 1
                    } else {
                        m
                    };
                    let ol: int = if b == i as int && l >= k as int {
                        l + 1
                    } else {
                        l
                    };
                    assert(ns[a].versions[m] == old_ev.spaces[a].versions[om]);
                    assert(ns[b].versions[l] == old_ev.spaces[b].versions[ol]);
                    assert(old_ev.spaces[a].versions[om].version_id != old_ev.spaces[b].versions[
                        ol
                    ].version_id);
                }
            }
        }
        Ok(())
    }

    /// The index, inside space number `i`, of the version that `uid`
    /// addresses (0 for the default version).
    pub fn find_version_in(&self, i: usize, uid: i32) -> (r: Option<usize>)
        requires
            engine_wf(self@),
            i < self@.spaces.len(),
        ensures
            match r {
                Some(k) => version_resolves(self@.spaces[i as int], uid) && k
                    == resolved_version_idx(self@.spaces[i as int], uid) && k < self@.spaces[
                    i as int
                ].versions.len(),
                None => !version_resolves(self@.spaces[i as int], uid),
            },
    {
        let ghost sp = self@.spaces[i as int];
        let n: usize = self.spaces[i].versions.len();
        let mut k: usize = 0;
        while k < n
            invariant
                engine_wf(self@),
                i < self@.spaces.len(),
                sp == self@.spaces[i as int],
                n == sp.versions.len(),
                k <= n,
                uid == 0 ==> forall|m: int| 0 <= m < k ==> !(#[trigger] sp.versions[m]).is_default,
                uid != 0 ==> forall|m: int|
                    0 <= m < k ==> (#[trigger] sp.versions[m]).unique_id != uid,
            decreases n - k,
        {
            let hit = if uid == 0 {
                self.spaces[i].versions[k].is_default
            } else {
                self.spaces[i].versions[k].unique_id == uid
            };
            if hit {
                proof {
                    assert(space_wf(sp));
                    if uid == 0 {
                        lemma_default_idx_is(sp, k as int);
                    } else {
                        lemma_uid_idx_is(sp, uid, k as int);
                    }
                }
                return Some(k);
            }
            k += 1;
        }
        proof {
            if uid == 0 {
                if has_default(sp.versions) {
                    let m = choose|m: int|
                        0 <= m < sp.versions.len() && (#[trigger] sp.versions[m]).is_default;
                    assert(!sp.versions[m].is_default);
                }
            } else {
                if has_uid(sp.versions, uid) {
                    let m = choose|m: int|
                        0 <= m < sp.versions.len() && (#[trigger] sp.versions[m]).unique_id == uid;
                    assert(sp.versions[m].unique_id != uid);
                }
            }
        }
        None
    }
}

/// Withdraws the default flag from every version.
fn demote_all(versions: &mut Vec<VersionRecord>)
    ensures
        final(versions)@.map_values(|v: VersionRecord| v@) == demoted(
            old(versions)@.map_values(|v: VersionRecord| v@),
        ),
{
    let ghost old_vs = versions@.map_values(|v: VersionRecord| v@);
    let n: usize = versions.len();
    let mut k: usize = 0;
    while k < n
        invariant
            n == versions@.len(),
            k <= n,
            versions@.len() == old_vs.len(),
            forall|m: int| 0 <= m < k ==> (#[trigger] versions@[m])@ == demoted(old_vs)[m],
            forall|m: int| k <= m < n ==> (#[trigger] versions@[m])@ == old_vs[m],
        decreases n - k,
    {
        let mut vr = versions.remove(k);
        let ghost before = versions@.map_values(|v: VersionRecord| v@);
        vr.is_default = false;
        versions.insert(k, vr);
        proof {
            assert((versions@[k as int])@ =~~= demoted(old_vs)[k as int]);
        }
        k += 1;
    }
    proof {
        assert(versions@.map_values(|v: VersionRecord| v@) =~= demoted(old_vs));
    }
}

/// Inserts or replaces one vector by key.
fn upsert_one_vec(vs: &mut Vec<VectorRecord>, ins: &VectorInsert)
    requires
        vectors_wf(old(vs)@.map_values(|v: VectorRecord| v@)),
    ensures
        final(vs)@.map_values(|v: VectorRecord| v@) == upsert_one(
            old(vs)@.map_values(|v: VectorRecord| v@),
            ins@,
        ),
{
    let ghost old_vs = vs@.map_values(|v: VectorRecord| v@);
    proof {
        assert(vectors_wf(old_vs));
    }
    let rec = VectorRecord {
        id: ins.id,
        data: clone_chars(&ins.data),
        metadata: clone_chars(&ins.metadata),
    };
    proof {
        assert(rec@ =~~= vector_of_insert(ins@));
    }
    let n: usize = vs.len();
    let mut k: usize = 0;
    while k < n
        invariant
            n == vs@.len(),
            old_vs == vs@.map_values(|v: VectorRecord| v@),
            old_vs == old(vs)@.map_values(|v: VectorRecord| v@),
            vectors_wf(old_vs),
            k <= n,
            rec@ == vector_of_insert(ins@),
            forall|m: int| 0 <= m < k ==> (#[trigger] old_vs[m]).id != ins@.id,
        decreases n - k,
    {
        if vs[k].id == ins.id {
            let _ = vs.remove(k);
            vs.insert(k, rec);
            proof {
                assert(has_vector(old_vs, ins@.id)) by {
                    assert(old_vs[k as int].id == ins@.id);
                }
                let vi = vector_idx(old_vs, ins@.id);
                assert(0 <= vi < old_vs.len() && old_vs[vi].id == ins@.id);
                // keys are unique, so the chosen match is this one
                if vi < k as int {
                    assert(old_vs[vi].id != old_vs[k as int].id);
                } else if vi > k as int {
                    assert(old_vs[k as int].id != old_vs[vi].id);
                }
                assert(vi == k as int);
                lemma_remove_insert(old_vs, k as int, rec@);
                assert(vs@.map_values(|v: VectorRecord| v@) =~= old_vs.update(k as int, rec@));
                assert(upsert_one(old_vs, ins@) == old_vs.update(vi, vector_of_insert(ins@)));
            }
            return;
        }
        k += 1;
    }
    vs.push(rec);
    proof {
        if has_vector(old_vs, ins@.id) {
            let m = choose|m: int| 0 <= m < old_vs.len() && (#[trigger] old_vs[m]).id == ins@.id;
            assert(old_vs[m].id != ins@.id);
        }
        assert(vs@.map_values(|v: VectorRecord| v@) =~= old_vs.push(rec@));
    }
}

} // verus!
