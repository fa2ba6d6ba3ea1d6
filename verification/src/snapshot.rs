//! Snapshot archives: the name rules for archive files, and the archive
//! store each node keeps. An archive holds the engine content it was taken
//! from, keyed by its file name; creating an archive under an existing name
//! replaces it, as writing the file again would.

use vstd::prelude::*;
use crate::engine::EngineState;
use crate::engine::EngineView;
use crate::engine::SpaceRecord;
use crate::engine::VectorRecord;
use crate::engine::VersionRecord;
use crate::engine::engine_wf;
use crate::json::esc_str;
use crate::json::push_escaped;
use crate::text::all_digits;
use crate::text::chars_eq;
use crate::text::clone_chars;
use crate::text::is_digit;
use crate::text::is_digit_exec;
use crate::text::push_chars;
use crate::text::push_str_chars;

verus! {

// ---------------------------------------------------------------------------
// file names
// ---------------------------------------------------------------------------

/// `snapshot-` then `digits` then `.zip`.
pub open spec fn snapshot_name_with(digits: Seq<char>) -> Seq<char> {
    "snapshot-"@ + digits + ".zip"@
}

/// An archive name minted by the create flow: twelve date digits.
pub open spec fn is_upload_snapshot_name(s: Seq<char>) -> bool {
    s.len() == 25 && s.subrange(0, 9) == "snapshot-"@ && all_digits(s.subrange(9, 21))
        && s.subrange(21, 25) == ".zip"@
}

/// An archive name of the legacy sync flow: eight date digits.
pub open spec fn is_sync_snapshot_name(s: Seq<char>) -> bool {
    s.len() == 21 && s.subrange(0, 9) == "snapshot-"@ && all_digits(s.subrange(9, 17))
        && s.subrange(17, 21) == ".zip"@
}

/// Whether `v[at..]` starts with the characters of `lit`.
pub fn starts_with_at(v: &Vec<char>, at: usize, lit: &str) -> (r: bool)
    requires
        at <= v@.len(),
    ensures
        r == (at + lit@.len() <= v@.len() && v@.subrange(
            at as int,
            at + lit@.len(),
        ) == lit@),
{
    let lv = crate::text::chars_vec(lit);
    if v.len() - at < lv.len() {
        proof {
            assert(at + lit@.len() > v@.len());
        }
        return false;
    }
    let sub = crate::json::subrange_vec(v, at, at + lv.len());
    chars_eq(&sub, &lv)
}

/// Whether the characters `v[from..to]` are all decimal digits.
fn digits_in_range(v: &Vec<char>, from: usize, to: usize) -> (r: bool)
    requires
        from <= to <= v@.len(),
    ensures
        r == all_digits(v@.subrange(from as int, to as int)),
{
    let mut i: usize = from;
    while i < to
        invariant
            from <= i <= to <= v@.len(),
            forall|j: int| from <= j < i ==> is_digit(#[trigger] v@[j]),
        decreases to - i,
    {
        if !is_digit_exec(v[i]) {
            proof {
                assert(v@.subrange(from as int, to as int)[i - from] == v@[i as int]);
            }
            return false;
        }
        i += 1;
    }
    proof {
        let s = v@.subrange(from as int, to as int);
        assert(forall|j: int| 0 <= j < s.len() ==> s[j] == v@[from + j]);
    }
    true
}

/// Decides the upload name rule, `snapshot-` twelve digits `.zip`.
pub fn check_upload_snapshot_name(v: &Vec<char>) -> (r: bool)
    ensures
        r == is_upload_snapshot_name(v@),
{
    proof {
        reveal_strlit("snapshot-");
        reveal_strlit(".zip");
    }
    if v.len() != 25 {
        return false;
    }
    starts_with_at(v, 0, "snapshot-") && digits_in_range(v, 9, 21) && starts_with_at(v, 21, ".zip")
}

/// The eight date digits of a legacy sync archive name, when the name has
/// that exact shape; the twelve-digit names of the create flow do not.
pub fn extract_date_from_file_name(v: &Vec<char>) -> (r: Option<Vec<char>>)
    ensures
        match r {
            Some(d) => is_sync_snapshot_name(v@) && d@ == v@.subrange(9, 17),
            None => !is_sync_snapshot_name(v@),
        },
{
    proof {
        reveal_strlit("snapshot-");
        reveal_strlit(".zip");
    }
    if v.len() != 21 {
        return None;
    }
    if starts_with_at(v, 0, "snapshot-") && digits_in_range(v, 9, 17) && starts_with_at(
        v,
        17,
        ".zip",
    ) {
        Some(crate::json::subrange_vec(v, 9, 17))
    } else {
        None
    }
}

/// The archive file name for a date text, as the restore and delete paths
/// build it from their path parameter.
pub fn snapshot_file_name(date: &Vec<char>) -> (r: Vec<char>)
    ensures
        r@ == snapshot_name_with(date@),
{
    let mut name: Vec<char> = Vec::new();
    push_str_chars(&mut name, "snapshot-");
    push_chars(&mut name, date);
    push_str_chars(&mut name, ".zip");
    proof {
        assert(name@ =~= snapshot_name_with(date@));
    }
    name
}

/// The characters of `input` that are ASCII, in order.
pub open spec fn ascii_filter(s: Seq<char>) -> Seq<char>
    decreases s.len(),
{
    if s.len() == 0 {
        Seq::<char>::empty()
    } else if (s.last() as u32) < 128 {
        ascii_filter(s.drop_last()).push(s.last())
    } else {
        ascii_filter(s.drop_last())
    }
}

// ---------------------------------------------------------------------------
// the archive store
// ---------------------------------------------------------------------------

pub struct SnapshotArchive {
    pub file_name: Vec<char>,
    pub content: EngineState,
}

#[verifier::ext_equal]
pub struct SnapshotArchiveView {
    pub file_name: Seq<char>,
    pub content: EngineView,
}

impl View for SnapshotArchive {
    type V = SnapshotArchiveView;

    open spec fn view(&self) -> SnapshotArchiveView {
        SnapshotArchiveView { file_name: self.file_name@, content: self.content@ }
    }
}

/// Archive names are unique, and archived content is well-formed.
pub open spec fn archives_wf(a: Seq<SnapshotArchiveView>) -> bool {
    &&& forall|i: int, j: int|
        0 <= i < j < a.len() ==> #[trigger] a[i].file_name != #[trigger] a[j].file_name
    &&& forall|i: int| 0 <= i < a.len() ==> engine_wf((#[trigger] a[i]).content)
}

pub open spec fn has_archive(a: Seq<SnapshotArchiveView>, name: Seq<char>) -> bool {
    exists|i: int| 0 <= i < a.len() && (#[trigger] a[i]).file_name == name
}

pub open spec fn archive_idx(a: Seq<SnapshotArchiveView>, name: Seq<char>) -> int {
    choose|i: int| 0 <= i < a.len() && (#[trigger] a[i]).file_name == name
}

proof fn lemma_archive_idx_is(a: Seq<SnapshotArchiveView>, name: Seq<char>, i: int)
    requires
        archives_wf(a),
        0 <= i < a.len(),
        a[i].file_name == name,
    ensures
        has_archive(a, name),
        archive_idx(a, name) == i,
{
    let j = archive_idx(a, name);
    assert(0 <= j < a.len() && a[j].file_name == name);
    if i < j {
        assert(a[i].file_name != a[j].file_name);
    } else if j < i {
        assert(a[j].file_name != a[i].file_name);
    }
}

/// What storing an archive does: replace the archive so named, or append.
pub open spec fn store_archive_spec(
    a: Seq<SnapshotArchiveView>,
    name: Seq<char>,
    content: EngineView,
) -> Seq<SnapshotArchiveView> {
    if has_archive(a, name) {
        a.update(archive_idx(a, name), SnapshotArchiveView { file_name: name, content })
    } else {
        a.push(SnapshotArchiveView { file_name: name, content })
    }
}

/// The local archive store of one node.
pub struct SnapshotServiceManagerWrapper {
    pub archives: Vec<SnapshotArchive>,
}

impl SnapshotServiceManagerWrapper {
    pub open spec fn view(&self) -> Seq<SnapshotArchiveView> {
        self.archives@.map_values(|a: SnapshotArchive| a@)
    }

    pub open spec fn wf(&self) -> bool {
        archives_wf(self.view())
    }

    pub fn new() -> (r: SnapshotServiceManagerWrapper)
        ensures
            r.view() =~= Seq::<SnapshotArchiveView>::empty(),
            r.wf(),
    {
        SnapshotServiceManagerWrapper { archives: Vec::new() }
    }

    /// Keeps the ASCII characters of a name, dropping the rest.
    pub fn to_ascii_string(input: &str) -> (r: Vec<char>)
        ensures
            r@ == ascii_filter(input@),
    {
        let cs = crate::text::chars_vec(input);
        let n: usize = cs.len();
        let mut out: Vec<char> = Vec::new();
        let mut i: usize = 0;
        while i < n
            invariant
                n == cs@.len(),
                cs@ == input@,
                i <= n,
                out@ == ascii_filter(cs@.subrange(0, i as int)),
            decreases n - i,
        {
            let c = cs[i];
            if (c as u32) < 128 {
                out.push(c);
            }
            i += 1;
            proof {
                let pre = cs@.subrange(0, i - 1);
                let cur = cs@.subrange(0, i as int);
                assert(cur.drop_last() =~= pre);
                assert(cur.last() == cs@[i - 1]);
                assert(out@ =~= ascii_filter(cur));
            }
        }
        proof {
            assert(cs@.subrange(0, n as int) =~= cs@);
        }
        out
    }

    /// Stores an archive of `engine` under `snapshot-<stamp>.zip`.
    pub fn create_snapshot(&mut self, engine: &EngineState, stamp: &Vec<char>) -> (r: Vec<char>)
        requires
            old(self).wf(),
            engine_wf(engine@),
        ensures
            final(self).wf(),
            r@ == snapshot_name_with(stamp@),
            final(self).view() == store_archive_spec(old(self).view(), r@, engine@),
    {
        let mut name: Vec<char> = Vec::new();
        push_str_chars(&mut name, "snapshot-");
        push_chars(&mut name, stamp);
        push_str_chars(&mut name, ".zip");
        proof {
            assert(name@ =~= snapshot_name_with(stamp@));
        }
        let content = clone_engine(engine);
        let arch = SnapshotArchive { file_name: clone_chars(&name), content };
        self.store_archive(arch);
        name
    }

    /// Stores an archive under exactly this file name — the upload flow,
    /// where the client supplies both the name and the content.
    pub fn store_named(&mut self, file_name: &Vec<char>, content: EngineState)
        requires
            old(self).wf(),
            engine_wf(content@),
        ensures
            final(self).wf(),
            final(self).view() == store_archive_spec(old(self).view(), file_name@, content@),
    {
        let arch = SnapshotArchive { file_name: clone_chars(file_name), content };
        self.store_archive(arch);
    }

    fn store_archive(&mut self, arch: SnapshotArchive)
        requires
            old(self).wf(),
            engine_wf(arch.content@),
        ensures
            final(self).wf(),
            final(self).view() == store_archive_spec(
                old(self).view(),
                arch.file_name@,
                arch.content@,
            ),
    {
        let ghost old_a = self.view();
        let ghost av = arch@;
        let n: usize = self.archives.len();
        let mut i: usize = 0;
        while i < n
            invariant
                self.wf(),
                old_a == self.view(),
                old(self).view() == self.view(),
                n == self.archives@.len(),
                i <= n,
                forall|j: int| 0 <= j < i ==> (#[trigger] old_a[j]).file_name != arch.file_name@,
                av == arch@,
                engine_wf(arch.content@),
            decreases n - i,
        {
            if chars_eq(&self.archives[i].file_name, &arch.file_name) {
                proof {
                    assert(old_a[i as int] == self.archives@[i as int]@);
                    lemma_archive_idx_is(old_a, arch.file_name@, i as int);
                }
                let _ = self.archives.remove(i);
                self.archives.insert(i, arch);
                proof {
                    crate::engine::lemma_remove_insert(old_a, i as int, av);
                    assert(self.view() =~= old_a.update(i as int, av));
                    assert(av =~~= SnapshotArchiveView {
                        file_name: av.file_name,
                        content: av.content,
                    });
                    assert(self.wf()) by {
                        assert(forall|j: int|
                            0 <= j < self.view().len() && j != i ==> self.view()[j] == old_a[j]);
                    }
                }
                return;
            }
            i += 1;
        }
        proof {
            if has_archive(old_a, arch.file_name@) {
                let j = archive_idx(old_a, arch.file_name@);
                assert(old_a[j].file_name != arch.file_name@);
            }
        }
        self.archives.push(arch);
        proof {
            assert(self.view() =~= old_a.push(av));
            assert(self.wf()) by {
                assert(forall|j: int|
                    0 <= j < old_a.len() ==> self.view()[j] == old_a[j]);
            }
        }
    }

    /// A copy of the engine content archived under this name.
    pub fn restore_snapshot(&self, file_name: &Vec<char>) -> (r: Option<EngineState>)
        requires
            self.wf(),
        ensures
            match r {
                Some(e) => has_archive(self.view(), file_name@) && e@ == self.view()[archive_idx(
                    self.view(),
                    file_name@,
                )].content && engine_wf(e@),
                None => !has_archive(self.view(), file_name@),
            },
    {
        let ghost a = self.view();
        let n: usize = self.archives.len();
        let mut i: usize = 0;
        while i < n
            invariant
                self.wf(),
                a == self.view(),
                n == self.archives@.len(),
                i <= n,
                forall|j: int| 0 <= j < i ==> (#[trigger] a[j]).file_name != file_name@,
            decreases n - i,
        {
            if chars_eq(&self.archives[i].file_name, file_name) {
                proof {
                    assert(a[i as int] == self.archives@[i as int]@);
                    lemma_archive_idx_is(a, file_name@, i as int);
                }
                return Some(clone_engine(&self.archives[i].content));
            }
            i += 1;
        }
        proof {
            if has_archive(a, file_name@) {
                let j = archive_idx(a, file_name@);
                assert(a[j].file_name != file_name@);
            }
        }
        None
    }

    /// Whether an archive of this name is present — the download check.
    pub fn download_snapshot(&self, file_name: &Vec<char>) -> (r: bool)
        requires
            self.wf(),
        ensures
            r == has_archive(self.view(), file_name@),
    {
        let ghost a = self.view();
        let n: usize = self.archives.len();
        let mut i: usize = 0;
        while i < n
            invariant
                self.wf(),
                a == self.view(),
                n == self.archives@.len(),
                i <= n,
                forall|j: int| 0 <= j < i ==> (#[trigger] a[j]).file_name != file_name@,
            decreases n - i,
        {
            if chars_eq(&self.archives[i].file_name, file_name) {
                proof {
                    assert(a[i as int] == self.archives@[i as int]@);
                }
                return true;
            }
            i += 1;
        }
        proof {
            if has_archive(a, file_name@) {
                let j = archive_idx(a, file_name@);
                assert(a[j].file_name != file_name@);
            }
        }
        false
    }

    /// Deletes the archive so named; deleting an unknown name does nothing.
    pub fn delete_snapshot(&mut self, file_name: &Vec<char>) -> (r: bool)
        requires
            old(self).wf(),
        ensures
            final(self).wf(),
            final(self).view() == if has_archive(old(self).view(), file_name@) {
                old(self).view().remove(archive_idx(old(self).view(), file_name@))
            } else {
                old(self).view()
            },
            r == has_archive(old(self).view(), file_name@),
    {
        let ghost old_a = self.view();
        let n: usize = self.archives.len();
        let mut i: usize = 0;
        while i < n
            invariant
                self.wf(),
                old_a == self.view(),
                old(self).view() == self.view(),
                n == self.archives@.len(),
                i <= n,
                forall|j: int| 0 <= j < i ==> (#[trigger] old_a[j]).file_name != file_name@,
            decreases n - i,
        {
            if chars_eq(&self.archives[i].file_name, file_name) {
                proof {
                    assert(old_a[i as int] == self.archives@[i as int]@);
                    lemma_archive_idx_is(old_a, file_name@, i as int);
                }
                let _ = self.archives.remove(i);
                proof {
                    assert(self.view() =~= old_a.remove(i as int));
                    assert(self.wf()) by {
                        assert(forall|j: int|
                            0 <= j < self.view().len() ==> self.view()[j] == old_a[if j < i as int {
                                j
                            } else {
                                j + 1
                            }]);
                    }
                }
                return true;
            }
            i += 1;
        }
        proof {
            if has_archive(old_a, file_name@) {
                let j = archive_idx(old_a, file_name@);
                assert(old_a[j].file_name != file_name@);
            }
        }
        false
    }

    /// Deletes every archive.
    pub fn delete_snapshots(&mut self)
        ensures
            final(self).view() =~= Seq::<SnapshotArchiveView>::empty(),
            final(self).wf(),
    {
        self.archives.clear();
    }

    /// The archive listing as JSON.
    pub fn list_snapshots_json(&self) -> (r: Vec<char>)
        ensures
            r@ == json_of_snapshot_list(self.view()),
    {
        let mut out: Vec<char> = Vec::new();
        push_str_chars(&mut out, "{\"snapshots\":[");
        let n: usize = self.archives.len();
        let mut i: usize = 0;
        while i < n
            invariant
                n == self.archives@.len(),
                i <= n,
                out@ == "{\"snapshots\":["@ + json_of_snapshots(self.view().subrange(0, i as int)),
            decreases n - i,
        {
            if i > 0 {
                push_str_chars(&mut out, ",{\"file_name\":\"");
            } else {
                push_str_chars(&mut out, "{\"file_name\":\"");
            }
            push_escaped(&self.archives[i].file_name, &mut out);
            push_str_chars(&mut out, "\"}");
            i += 1;
            proof {
                assert(self.view()[i - 1] == self.archives@[i - 1]@);
                let pre = self.view().subrange(0, i - 1);
                let cur = self.view().subrange(0, i as int);
                assert(cur.drop_last() =~= pre);
                assert(cur.last() == self.view()[i - 1]);
                assert(out@ =~= "{\"snapshots\":["@ + json_of_snapshots(cur));
            }
        }
        push_str_chars(&mut out, "]}");
        proof {
            assert(self.view().subrange(0, n as int) =~= self.view());
            assert(out@ =~= json_of_snapshot_list(self.view()));
        }
        out
    }
}

pub open spec fn json_of_snapshots(a: Seq<SnapshotArchiveView>) -> Seq<char>
    decreases a.len(),
{
    if a.len() == 0 {
        Seq::<char>::empty()
    } else if a.len() == 1 {
        "{\"file_name\":\""@ + esc_str(a[0].file_name) + "\"}"@
    } else {
        json_of_snapshots(a.drop_last()) + ",{\"file_name\":\""@ + esc_str(a.last().file_name)
            + "\"}"@
    }
}

pub open spec fn json_of_snapshot_list(a: Seq<SnapshotArchiveView>) -> Seq<char> {
    "{\"snapshots\":["@ + json_of_snapshots(a) + "]}"@
}

// ---------------------------------------------------------------------------
// deep copies of engine content
// ---------------------------------------------------------------------------

fn clone_vector(v: &VectorRecord) -> (r: VectorRecord)
    ensures
        r@ == v@,
{
    let r = VectorRecord {
        id: v.id,
        data: clone_chars(&v.data),
        metadata: clone_chars(&v.metadata),
    };
    proof {
        assert(r@ =~~= v@);
    }
    r
}

fn clone_version(v: &VersionRecord) -> (r: VersionRecord)
    ensures
        r@ == v@,
{
    let n: usize = v.vectors.len();
    let mut vectors: Vec<VectorRecord> = Vec::new();
    let mut i: usize = 0;
    while i < n
        invariant
            n == v.vectors@.len(),
            i <= n,
            vectors@.len() == i,
            forall|j: int| 0 <= j < i ==> (#[trigger] vectors@[j])@ == v.vectors@[j]@,
        decreases n - i,
    {
        vectors.push(clone_vector(&v.vectors[i]));
        i += 1;
    }
    proof {
        assert(vectors@.map_values(|x: VectorRecord| x@) =~= v.vectors@.map_values(|x: VectorRecord| x@));
    }
    let r = VersionRecord {
        version_id: v.version_id,
        unique_id: v.unique_id,
        name: clone_chars(&v.name),
        description: clone_chars(&v.description),
        tag: clone_chars(&v.tag),
        is_default: v.is_default,
        vector_index_id: v.vector_index_id,
        vectors,
    };
    proof {
        assert(r@ =~~= v@);
    }
    r
}

fn clone_space(s: &SpaceRecord) -> (r: SpaceRecord)
    ensures
        r@ == s@,
{
    let n: usize = s.versions.len();
    let mut versions: Vec<VersionRecord> = Vec::new();
    let mut i: usize = 0;
    while i < n
        invariant
            n == s.versions@.len(),
            i <= n,
            versions@.len() == i,
            forall|j: int| 0 <= j < i ==> (#[trigger] versions@[j])@ == s.versions@[j]@,
        decreases n - i,
    {
        versions.push(clone_version(&s.versions[i]));
        i += 1;
    }
    proof {
        assert(versions@.map_values(|x: VersionRecord| x@) =~= s.versions@.map_values(|x: VersionRecord| x@));
    }
    let r = SpaceRecord {
        space_id: s.space_id,
        name: clone_chars(&s.name),
        dimension: s.dimension,
        metric: clone_chars(&s.metric),
        next_unique_id: s.next_unique_id,
        versions,
    };
    proof {
        assert(r@ =~~= s@);
    }
    r
}

/// A deep copy of the whole engine state.
pub fn clone_engine(e: &EngineState) -> (r: EngineState)
    ensures
        r@ == e@,
{
    let n: usize = e.spaces.len();
    let mut spaces: Vec<SpaceRecord> = Vec::new();
    let mut i: usize = 0;
    while i < n
        invariant
            n == e.spaces@.len(),
            i <= n,
            spaces@.len() == i,
            forall|j: int| 0 <= j < i ==> (#[trigger] spaces@[j])@ == e.spaces@[j]@,
        decreases n - i,
    {
        spaces.push(clone_space(&e.spaces[i]));
        i += 1;
    }
    proof {
        assert(spaces@.map_values(|x: SpaceRecord| x@) =~= e.spaces@.map_values(|x: SpaceRecord| x@));
    }
    let r = EngineState {
        spaces,
        next_space_id: e.next_space_id,
        next_version_id: e.next_version_id,
        next_vector_index_id: e.next_vector_index_id,
    };
    proof {
        assert(r@ =~~= e@);
    }
    r
}

} // verus!
