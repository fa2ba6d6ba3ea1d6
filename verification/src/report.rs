//! Read paths: every lookup renders its answer as JSON text whose exact
//! character sequence is given by a spec function over the engine view.

use vstd::prelude::*;
use crate::engine::EngineState;
use crate::engine::EngineView;
use crate::engine::SpaceView;
use crate::engine::VectorRecView;
use crate::engine::VersionView;
use crate::engine::engine_wf;
use crate::engine::has_space;
use crate::engine::space_idx;
use crate::engine::version_resolves;
use crate::engine::resolved_version_idx;
use crate::json::esc_str;
use crate::json::push_escaped;
use crate::text::chars_eq;
use crate::text::dec_chars;
use crate::text::push_dec_u64;
use crate::text::push_str_chars;

verus! {

// ---------------------------------------------------------------------------
// printed shapes
// ---------------------------------------------------------------------------

/// A space as reported to clients.
pub open spec fn json_of_space(sp: SpaceView) -> Seq<char> {
    "{\"spaceId\":"@ + dec_chars(sp.space_id as nat) + ",\"name\":\""@ + esc_str(sp.name)
        + "\",\"dimension\":"@ + dec_chars(sp.dimension as nat) + ",\"metric\":\""@ + esc_str(
        sp.metric,
    ) + "\"}"@
}

/// One entry of the space listing.
pub open spec fn json_of_space_entry(sp: SpaceView) -> Seq<char> {
    "{\"spacename\":\""@ + esc_str(sp.name) + "\",\"id\":"@ + dec_chars(sp.space_id as nat) + "}"@
}

pub open spec fn json_of_space_entries(spaces: Seq<SpaceView>) -> Seq<char>
    decreases spaces.len(),
{
    if spaces.len() == 0 {
        Seq::<char>::empty()
    } else if spaces.len() == 1 {
        json_of_space_entry(spaces[0])
    } else {
        json_of_space_entries(spaces.drop_last()) + ","@ + json_of_space_entry(spaces.last())
    }
}

/// The space listing.
pub open spec fn json_of_space_list(ev: EngineView) -> Seq<char> {
    "{\"values\":["@ + json_of_space_entries(ev.spaces) + "]}"@
}

/// A version as reported to clients. Stored unique ids are positive, so the
/// cast to a natural number is faithful on well-formed engines.
pub open spec fn json_of_version(ver: VersionView) -> Seq<char> {
    "{\"id\":"@ + dec_chars(ver.version_id as nat) + ",\"unique_id\":"@ + dec_chars(
        if ver.unique_id >= 0 {
            ver.unique_id as nat
        } else {
            0
        },
    ) + ",\"name\":\""@ + esc_str(ver.name) + "\",\"description\":\""@ + esc_str(ver.description)
        + "\",\"tag\":\""@ + esc_str(ver.tag) + "\",\"is_default\":"@ + (if ver.is_default {
        "true"@
    } else {
        "false"@
    }) + "}"@
}

pub open spec fn json_of_versions(versions: Seq<VersionView>) -> Seq<char>
    decreases versions.len(),
{
    if versions.len() == 0 {
        Seq::<char>::empty()
    } else if versions.len() == 1 {
        json_of_version(versions[0])
    } else {
        json_of_versions(versions.drop_last()) + ","@ + json_of_version(versions.last())
    }
}

/// A page of a space's versions: `total_count` counts all of them.
pub open spec fn json_of_version_list(sp: SpaceView, page: Seq<VersionView>) -> Seq<char> {
    "{\"values\":["@ + json_of_versions(page) + "],\"total_count\":"@ + dec_chars(
        sp.versions.len() as nat,
    ) + "}"@
}

/// Vector data and metadata are stored as the raw JSON text of the upsert;
/// a vector inserted without either reports `null` there.
pub open spec fn raw_or_null(s: Seq<char>) -> Seq<char> {
    if s.len() == 0 {
        "null"@
    } else {
        s
    }
}

pub open spec fn json_of_vector(v: VectorRecView) -> Seq<char> {
    "{\"id\":"@ + dec_chars(v.id as nat) + ",\"data\":"@ + raw_or_null(v.data) + ",\"metadata\":"@
        + raw_or_null(v.metadata) + "}"@
}

pub open spec fn json_of_vectors(vs: Seq<VectorRecView>) -> Seq<char>
    decreases vs.len(),
{
    if vs.len() == 0 {
        Seq::<char>::empty()
    } else if vs.len() == 1 {
        json_of_vector(vs[0])
    } else {
        json_of_vectors(vs.drop_last()) + ","@ + json_of_vector(vs.last())
    }
}

/// A page of a version's vectors: `total_count` counts all of them.
pub open spec fn json_of_vector_list(ver: VersionView, page: Seq<VectorRecView>) -> Seq<char> {
    "{\"vectors\":["@ + json_of_vectors(page) + "],\"total_count\":"@ + dec_chars(
        ver.vectors.len() as nat,
    ) + "}"@
}

/// Search reports the candidate vector keys of the addressed version, at
/// most `k` of them, in storage order: ranking them by distance is the
/// vector index's work, which sits outside this crate.
pub open spec fn json_of_id_entries(vs: Seq<VectorRecView>) -> Seq<char>
    decreases vs.len(),
{
    if vs.len() == 0 {
        Seq::<char>::empty()
    } else if vs.len() == 1 {
        "{\"id\":"@ + dec_chars(vs[0].id as nat) + "}"@
    } else {
        json_of_id_entries(vs.drop_last()) + ",{\"id\":"@ + dec_chars(vs.last().id as nat) + "}"@
    }
}

pub open spec fn json_of_search(ver: VersionView, k: nat) -> Seq<char> {
    "["@ + json_of_id_entries(ver.vectors.take(if k < ver.vectors.len() {
        k as int
    } else {
        ver.vectors.len() as int
    })) + "]"@
}

// ---------------------------------------------------------------------------
// exec printers
// ---------------------------------------------------------------------------

fn print_space(sp: &crate::engine::SpaceRecord) -> (r: Vec<char>)
    ensures
        r@ == json_of_space(sp@),
{
    let mut out: Vec<char> = Vec::new();
    push_str_chars(&mut out, "{\"spaceId\":");
    push_dec_u64(sp.space_id, &mut out);
    push_str_chars(&mut out, ",\"name\":\"");
    push_escaped(&sp.name, &mut out);
    push_str_chars(&mut out, "\",\"dimension\":");
    push_dec_u64(sp.dimension, &mut out);
    push_str_chars(&mut out, ",\"metric\":\"");
    push_escaped(&sp.metric, &mut out);
    push_str_chars(&mut out, "\"}");
    proof {
        assert(out@ =~= json_of_space(sp@));
    }
    out
}

fn print_version(ver: &crate::engine::VersionRecord) -> (r: Vec<char>)
    requires
        ver.unique_id >= 0,
    ensures
        r@ == json_of_version(ver@),
{
    let mut out: Vec<char> = Vec::new();
    push_str_chars(&mut out, "{\"id\":");
    push_dec_u64(ver.version_id, &mut out);
    push_str_chars(&mut out, ",\"unique_id\":");
    push_dec_u64(ver.unique_id as u64, &mut out);
    push_str_chars(&mut out, ",\"name\":\"");
    push_escaped(&ver.name, &mut out);
    push_str_chars(&mut out, "\",\"description\":\"");
    push_escaped(&ver.description, &mut out);
    push_str_chars(&mut out, "\",\"tag\":\"");
    push_escaped(&ver.tag, &mut out);
    push_str_chars(&mut out, "\",\"is_default\":");
    if ver.is_default {
        push_str_chars(&mut out, "true");
    } else {
        push_str_chars(&mut out, "false");
    }
    push_str_chars(&mut out, "}");
    proof {
        assert(out@ =~= json_of_version(ver@));
    }
    out
}

fn print_vector(v: &crate::engine::VectorRecord) -> (r: Vec<char>)
    ensures
        r@ == json_of_vector(v@),
{
    let mut out: Vec<char> = Vec::new();
    push_str_chars(&mut out, "{\"id\":");
    push_dec_u64(v.id, &mut out);
    push_str_chars(&mut out, ",\"data\":");
    if v.data.len() == 0 {
        push_str_chars(&mut out, "null");
    } else {
        crate::text::push_chars(&mut out, &v.data);
    }
    push_str_chars(&mut out, ",\"metadata\":");
    if v.metadata.len() == 0 {
        push_str_chars(&mut out, "null");
    } else {
        crate::text::push_chars(&mut out, &v.metadata);
    }
    push_str_chars(&mut out, "}");
    proof {
        assert(out@ =~= json_of_vector(v@));
    }
    out
}

impl EngineState {
    /// The JSON report of the space so named.
    pub fn get_space_json(&self, name: &Vec<char>) -> (r: Option<Vec<char>>)
        requires
            engine_wf(self@),
        ensures
            match r {
                Some(out) => has_space(self@.spaces, name@) && out@ == json_of_space(
                    self@.spaces[space_idx(self@.spaces, name@)],
                ),
                None => !has_space(self@.spaces, name@),
            },
    {
        match self.find_space(name) {
            Some(i) => {
                proof {
                    assert(self@.spaces[i as int] == self.spaces@[i as int]@);
                }
                Some(print_space(&self.spaces[i]))
            },
            None => None,
        }
    }

    /// The JSON report of the space with this id.
    pub fn get_space_json_by_id(&self, space_id: u64) -> (r: Option<Vec<char>>)
        requires
            engine_wf(self@),
        ensures
            match r {
                Some(out) => exists|i: int|
                    0 <= i < self@.spaces.len() && (#[trigger] self@.spaces[i]).space_id == space_id
                        && out@ == json_of_space(self@.spaces[i]),
                None => forall|i: int|
                    0 <= i < self@.spaces.len() ==> (#[trigger] self@.spaces[i]).space_id
                        != space_id,
            },
    {
        let n: usize = self.spaces.len();
        let mut i: usize = 0;
        while i < n
            invariant
                engine_wf(self@),
                n == self@.spaces.len(),
                i <= n,
                forall|j: int| 0 <= j < i ==> (#[trigger] self@.spaces[j]).space_id != space_id,
            decreases n - i,
        {
            if self.spaces[i].space_id == space_id {
                proof {
                    assert(self@.spaces[i as int] == self.spaces@[i as int]@);
                }
                return Some(print_space(&self.spaces[i]));
            }
            i += 1;
        }
        None
    }

    /// The JSON listing of all spaces.
    pub fn get_space_list_json(&self) -> (r: Vec<char>)
        requires
            engine_wf(self@),
        ensures
            r@ == json_of_space_list(self@),
    {
        let mut out: Vec<char> = Vec::new();
        push_str_chars(&mut out, "{\"values\":[");
        let n: usize = self.spaces.len();
        let mut i: usize = 0;
        while i < n
            invariant
                engine_wf(self@),
                n == self@.spaces.len(),
                i <= n,
                out@ == "{\"values\":["@ + json_of_space_entries(self@.spaces.subrange(0, i as int)),
            decreases n - i,
        {
            if i > 0 {
                push_str_chars(&mut out, ",");
            }
            push_str_chars(&mut out, "{\"spacename\":\"");
            push_escaped(&self.spaces[i].name, &mut out);
            push_str_chars(&mut out, "\",\"id\":");
            push_dec_u64(self.spaces[i].space_id, &mut out);
            push_str_chars(&mut out, "}");
            i += 1;
            proof {
                let pre = self@.spaces.subrange(0, i - 1);
                let cur = self@.spaces.subrange(0, i as int);
                assert(cur.drop_last() =~= pre);
                assert(cur.last() == self@.spaces[i - 1]);
                assert(out@ =~= "{\"values\":["@ + json_of_space_entries(cur));
            }
        }
        push_str_chars(&mut out, "]}");
        proof {
            assert(self@.spaces.subrange(0, n as int) =~= self@.spaces);
            assert(out@ =~= json_of_space_list(self@));
        }
        out
    }

    /// The JSON report of the version that `uid` addresses inside the space
    /// so named; unique id 0 addresses the default version.
    pub fn get_version_json(&self, name: &Vec<char>, uid: i32) -> (r: Option<Vec<char>>)
        requires
            engine_wf(self@),
        ensures
            match r {
                Some(out) => {
                    &&& has_space(self@.spaces, name@)
                    &&& version_resolves(self@.spaces[space_idx(self@.spaces, name@)], uid)
                    &&& out@ == json_of_version(
                        self@.spaces[space_idx(self@.spaces, name@)].versions[resolved_version_idx(
                            self@.spaces[space_idx(self@.spaces, name@)],
                            uid,
                        )],
                    )
                },
                None => !has_space(self@.spaces, name@) || !version_resolves(
                    self@.spaces[space_idx(self@.spaces, name@)],
                    uid,
                ),
            },
    {
        let i = match self.find_space(name) {
            Some(i) => i,
            None => {
                return None;
            },
        };
        let k = match self.find_version_in(i, uid) {
            Some(k) => k,
            None => {
                return None;
            },
        };
        proof {
            assert(self@.spaces[i as int] == self.spaces@[i as int]@);
            assert(self@.spaces[i as int].versions[k as int] == self.spaces@[i as int].versions@[
                k as int
            ]@);
            assert(crate::engine::space_wf(self@.spaces[i as int]));
        }
        Some(print_version(&self.spaces[i].versions[k]))
    }

    /// The JSON report of the version with this name inside the space.
    pub fn get_version_json_by_name(&self, name: &Vec<char>, version_name: &Vec<char>) -> (r:
        Option<Vec<char>>)
        requires
            engine_wf(self@),
        ensures
            match r {
                Some(out) => has_space(self@.spaces, name@) && exists|k: int|
                    0 <= k < self@.spaces[space_idx(self@.spaces, name@)].versions.len() && (
                    #[trigger] self@.spaces[space_idx(self@.spaces, name@)].versions[k]).name
                        == version_name@ && out@ == json_of_version(
                        self@.spaces[space_idx(self@.spaces, name@)].versions[k],
                    ),
                None => !has_space(self@.spaces, name@) || forall|k: int|
                    0 <= k < self@.spaces[space_idx(self@.spaces, name@)].versions.len() ==> (
                    #[trigger] self@.spaces[space_idx(self@.spaces, name@)].versions[k]).name
                        != version_name@,
            },
    {
        let i = match self.find_space(name) {
            Some(i) => i,
            None => {
                return None;
            },
        };
        let ghost sp = self@.spaces[i as int];
        let n: usize = self.spaces[i].versions.len();
        let mut k: usize = 0;
        while k < n
            invariant
                engine_wf(self@),
                i < self@.spaces.len(),
                has_space(self@.spaces, name@),
                i as int == space_idx(self@.spaces, name@),
                sp == self@.spaces[i as int],
                n == sp.versions.len(),
                k <= n,
                forall|m: int| 0 <= m < k ==> (#[trigger] sp.versions[m]).name != version_name@,
            decreases n - k,
        {
            if chars_eq(&self.spaces[i].versions[k].name, version_name) {
                proof {
                    assert(self@.spaces[i as int] == self.spaces@[i as int]@);
                    assert(sp.versions[k as int] == self.spaces@[i as int].versions@[k as int]@);
                    assert(crate::engine::space_wf(sp));
                }
                let out = print_version(&self.spaces[i].versions[k]);
                proof {
                    let si = space_idx(self@.spaces, name@);
                    assert(si == i as int);
                    assert(self@.spaces[si].versions[k as int].name == version_name@);
                    assert(out@ == json_of_version(self@.spaces[si].versions[k as int]));
                    assert(exists|kk: int|
                        0 <= kk < self@.spaces[space_idx(self@.spaces, name@)].versions.len() && (
                        #[trigger] self@.spaces[space_idx(self@.spaces, name@)].versions[kk]).name
                            == version_name@ && out@ == json_of_version(
                            self@.spaces[space_idx(self@.spaces, name@)].versions[kk],
                        )) by {
                        assert(0 <= (k as int) < self@.spaces[space_idx(self@.spaces, name@)].versions.len()
                            && self@.spaces[space_idx(self@.spaces, name@)].versions[k as int].name
                            == version_name@ && out@ == json_of_version(
                            self@.spaces[space_idx(self@.spaces, name@)].versions[k as int],
                        ));
                    }
                }
                return Some(out);
            }
            k += 1;
        }
        None
    }

    /// A JSON page of the space's versions.
    pub fn get_version_list_json(&self, name: &Vec<char>, start: usize, limit: usize) -> (r: Option<
        Vec<char>,
    >)
        requires
            engine_wf(self@),
        ensures
            match r {
                Some(out) => has_space(self@.spaces, name@) && out@ == json_of_version_list(
                    self@.spaces[space_idx(self@.spaces, name@)],
                    page_of(self@.spaces[space_idx(self@.spaces, name@)].versions, start as nat, limit as nat),
                ),
                None => !has_space(self@.spaces, name@),
            },
    {
        let i = match self.find_space(name) {
            Some(i) => i,
            None => {
                return None;
            },
        };
        let ghost sp = self@.spaces[i as int];
        let n: usize = self.spaces[i].versions.len();
        let lo: usize = if start < n {
            start
        } else {
            n
        };
        let hi: usize = if limit > n - lo {
            n
        } else {
            lo + limit
        };
        let ghost page = page_of(sp.versions, start as nat, limit as nat);
        proof {
            assert(page =~= sp.versions.subrange(lo as int, hi as int));
            assert(crate::engine::space_wf(sp));
        }
        let mut out: Vec<char> = Vec::new();
        push_str_chars(&mut out, "{\"values\":[");
        let mut k: usize = lo;
        while k < hi
            invariant
                engine_wf(self@),
                i < self@.spaces.len(),
                sp == self@.spaces[i as int],
                crate::engine::space_wf(sp),
                n == sp.versions.len(),
                lo <= k <= hi <= n,
                out@ == "{\"values\":["@ + json_of_versions(sp.versions.subrange(lo as int, k as int)),
            decreases hi - k,
        {
            if k > lo {
                push_str_chars(&mut out, ",");
            }
            proof {
                assert(sp.versions[k as int] == self.spaces@[i as int].versions@[k as int]@);
            }
            let mut piece = print_version(&self.spaces[i].versions[k]);
            out.append(&mut piece);
            k += 1;
            proof {
                let pre = sp.versions.subrange(lo as int, k - 1);
                let cur = sp.versions.subrange(lo as int, k as int);
                assert(cur.drop_last() =~= pre);
                assert(cur.last() == sp.versions[k - 1]);
                assert(out@ =~= "{\"values\":["@ + json_of_versions(cur));
            }
        }
        push_str_chars(&mut out, "],\"total_count\":");
        push_dec_u64(n as u64, &mut out);
        push_str_chars(&mut out, "}");
        proof {
            assert(out@ =~= json_of_version_list(sp, page));
        }
        Some(out)
    }

    /// A JSON page of the vectors of the version `uid` addresses.
    pub fn get_vectors_json(&self, name: &Vec<char>, uid: i32, start: usize, limit: usize) -> (r:
        Option<Vec<char>>)
        requires
            engine_wf(self@),
        ensures
            match r {
                Some(out) => {
                    &&& has_space(self@.spaces, name@)
                    &&& version_resolves(self@.spaces[space_idx(self@.spaces, name@)], uid)
                    &&& out@ == json_of_vector_list(
                        self@.spaces[space_idx(self@.spaces, name@)].versions[resolved_version_idx(
                            self@.spaces[space_idx(self@.spaces, name@)],
                            uid,
                        )],
                        page_of(
                            self@.spaces[space_idx(self@.spaces, name@)].versions[resolved_version_idx(
                                self@.spaces[space_idx(self@.spaces, name@)],
                                uid,
                            )].vectors,
                            start as nat,
                            limit as nat,
                        ),
                    )
                },
                None => !has_space(self@.spaces, name@) || !version_resolves(
                    self@.spaces[space_idx(self@.spaces, name@)],
                    uid,
                ),
            },
    {
        let i = match self.find_space(name) {
            Some(i) => i,
            None => {
                return None;
            },
        };
        let k = match self.find_version_in(i, uid) {
            Some(k) => k,
            None => {
                return None;
            },
        };
        let ghost ver = self@.spaces[i as int].versions[k as int];
        let n: usize = self.spaces[i].versions[k].vectors.len();
        let lo: usize = if start < n {
            start
        } else {
            n
        };
        let hi: usize = if limit > n - lo {
            n
        } else {
            lo + limit
        };
        let ghost page = page_of(ver.vectors, start as nat, limit as nat);
        proof {
            assert(ver == self.spaces@[i as int].versions@[k as int]@);
            assert(page =~= ver.vectors.subrange(lo as int, hi as int));
        }
        let mut out: Vec<char> = Vec::new();
        push_str_chars(&mut out, "{\"vectors\":[");
        let mut m: usize = lo;
        while m < hi
            invariant
                engine_wf(self@),
                i < self@.spaces.len(),
                k < self@.spaces[i as int].versions.len(),
                ver == self@.spaces[i as int].versions[k as int],
                n == ver.vectors.len(),
                lo <= m <= hi <= n,
                out@ == "{\"vectors\":["@ + json_of_vectors(ver.vectors.subrange(lo as int, m as int)),
            decreases hi - m,
        {
            if m > lo {
                push_str_chars(&mut out, ",");
            }
            proof {
                assert(ver.vectors[m as int] == self.spaces@[i as int].versions@[k as int].vectors@[
                    m as int
                ]@);
            }
            let mut piece = print_vector(&self.spaces[i].versions[k].vectors[m]);
            out.append(&mut piece);
            m += 1;
            proof {
                let pre = ver.vectors.subrange(lo as int, m - 1);
                let cur = ver.vectors.subrange(lo as int, m as int);
                assert(cur.drop_last() =~= pre);
                assert(cur.last() == ver.vectors[m - 1]);
                assert(out@ =~= "{\"vectors\":["@ + json_of_vectors(cur));
            }
        }
        push_str_chars(&mut out, "],\"total_count\":");
        push_dec_u64(n as u64, &mut out);
        push_str_chars(&mut out, "}");
        proof {
            assert(out@ =~= json_of_vector_list(ver, page));
        }
        Some(out)
    }

    /// The search answer: at most `k` candidate keys of the addressed
    /// version, in storage order.
    pub fn search_json(&self, name: &Vec<char>, uid: i32, k: usize) -> (r: Option<Vec<char>>)
        requires
            engine_wf(self@),
        ensures
            match r {
                Some(out) => {
                    &&& has_space(self@.spaces, name@)
                    &&& version_resolves(self@.spaces[space_idx(self@.spaces, name@)], uid)
                    &&& out@ == json_of_search(
                        self@.spaces[space_idx(self@.spaces, name@)].versions[resolved_version_idx(
                            self@.spaces[space_idx(self@.spaces, name@)],
                            uid,
                        )],
                        k as nat,
                    )
                },
                None => !has_space(self@.spaces, name@) || !version_resolves(
                    self@.spaces[space_idx(self@.spaces, name@)],
                    uid,
                ),
            },
    {
        let i = match self.find_space(name) {
            Some(i) => i,
            None => {
                return None;
            },
        };
        let vk = match self.find_version_in(i, uid) {
            Some(vk) => vk,
            None => {
                return None;
            },
        };
        let ghost ver = self@.spaces[i as int].versions[vk as int];
        let n: usize = self.spaces[i].versions[vk].vectors.len();
        let hi: usize = if k < n {
            k
        } else {
            n
        };
        proof {
            assert(ver.vectors.take(hi as int) =~= ver.vectors.subrange(0, hi as int));
        }
        let mut out: Vec<char> = Vec::new();
        push_str_chars(&mut out, "[");
        let mut m: usize = 0;
        while m < hi
            invariant
                engine_wf(self@),
                i < self@.spaces.len(),
                vk < self@.spaces[i as int].versions.len(),
                ver == self@.spaces[i as int].versions[vk as int],
                n == ver.vectors.len(),
                m <= hi <= n,
                out@ == "["@ + json_of_id_entries(ver.vectors.subrange(0, m as int)),
            decreases hi - m,
        {
            if m > 0 {
                push_str_chars(&mut out, ",{\"id\":");
            } else {
                push_str_chars(&mut out, "{\"id\":");
            }
            proof {
                assert(ver.vectors[m as int] == self.spaces@[i as int].versions@[vk as int].vectors@[
                    m as int
                ]@);
            }
            push_dec_u64(self.spaces[i].versions[vk].vectors[m].id, &mut out);
            push_str_chars(&mut out, "}");
            m += 1;
            proof {
                let pre = ver.vectors.subrange(0, m - 1);
                let cur = ver.vectors.subrange(0, m as int);
                assert(cur.drop_last() =~= pre);
                assert(cur.last() == ver.vectors[m - 1]);
                assert(out@ =~= "["@ + json_of_id_entries(cur));
            }
        }
        push_str_chars(&mut out, "]");
        proof {
            assert(ver.vectors.subrange(0, hi as int) =~= ver.vectors.take(if (k as nat) < ver.vectors.len() {
                k as int
            } else {
                ver.vectors.len() as int
            }));
            assert(out@ =~= json_of_search(ver, k as nat));
        }
        Some(out)
    }
}

/// The page `[start, start + limit)` of a sequence, clipped to its length.
pub open spec fn page_of<T>(s: Seq<T>, start: nat, limit: nat) -> Seq<T> {
    let lo = if start < s.len() {
        start as int
    } else {
        s.len() as int
    };
    let hi = if lo + limit < s.len() {
        lo + limit
    } else {
        s.len() as int
    };
    s.subrange(lo, hi)
}

} // verus!
