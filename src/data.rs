//! The snapshot data model and the in-memory repository.

use vstd::prelude::*;

verus! {

/// Outcome of the last run of a snapshot in this session.
#[derive(Debug, PartialEq, Eq, Clone, Copy)]
pub enum SnapshotStatus {
    Waiting,
    Passed,
    Failed,
}

/// A body reference: the file name (relative to the snapshots directory) and
/// the raw bytes.
#[derive(Debug, PartialEq, Eq, Clone)]
pub struct SnapshotData {
    pub path: String,
    pub body: Vec<u8>,
}

/// A single recorded test.
#[derive(Debug, PartialEq, Eq, Clone)]
pub struct Snapshot {
    pub exit_code: Option<i32>,
    pub stderr: Option<SnapshotData>,
    pub stdout: Option<SnapshotData>,
    pub cmd: String,
    pub name: String,
    pub description: Option<String>,
    pub tags: Vec<String>,
    pub status: SnapshotStatus,
    pub deleted: bool,
}

/// The persisted part of a snapshot.
#[derive(Debug, PartialEq, Eq, Clone)]
pub struct Metadata {
    pub cmd: String,
    pub name: String,
    pub description: Option<String>,
    pub tags: Vec<String>,
    pub exit_code: Option<i32>,
    pub stdout: Option<String>,
    pub stderr: Option<String>,
}

/// The content of the metadata file.
#[derive(Debug, PartialEq, Eq, Clone)]
pub struct Metadatas {
    pub snapshots: Vec<Metadata>,
}

pub open spec fn opt_str_view(o: Option<String>) -> Option<Seq<char>> {
    match o {
        Some(s) => Some(s@),
        None => None,
    }
}

pub open spec fn strs_view(v: Seq<String>) -> Seq<Seq<char>> {
    v.map_values(|s: String| s@)
}

pub open spec fn data_path(d: Option<SnapshotData>) -> Option<Seq<char>> {
    match d {
        Some(d) => Some(d.path@),
        None => None,
    }
}

pub open spec fn data_body(d: Option<SnapshotData>) -> Seq<u8> {
    match d {
        Some(d) => d.body@,
        None => Seq::empty(),
    }
}

/// `m` records the persisted fields of `s`.
pub open spec fn metadata_of(m: Metadata, s: Snapshot) -> bool {
    &&& m.cmd@ == s.cmd@
    &&& m.name@ == s.name@
    &&& opt_str_view(m.description) == opt_str_view(s.description)
    &&& strs_view(m.tags@) == strs_view(s.tags@)
    &&& m.exit_code == s.exit_code
    &&& opt_str_view(m.stdout) == data_path(s.stdout)
    &&& opt_str_view(m.stderr) == data_path(s.stderr)
}

/// The live (non-deleted) snapshots of `s`, in order.
pub open spec fn live(s: Seq<Snapshot>) -> Seq<Snapshot>
    decreases s.len(),
{
    if s.len() == 0 {
        s
    } else if s.last().deleted {
        live(s.drop_last())
    } else {
        live(s.drop_last()).push(s.last())
    }
}

/// The body files of the deleted snapshots of `s`, in order.
pub open spec fn dead_bodies(s: Seq<Snapshot>) -> Seq<Seq<char>>
    decreases s.len(),
{
    if s.len() == 0 {
        Seq::empty()
    } else if s.last().deleted {
        dead_bodies(s.drop_last()) + body_paths(s.last())
    } else {
        dead_bodies(s.drop_last())
    }
}

/// The body files of a snapshot: stdout first, then stderr.
pub open spec fn body_paths(s: Snapshot) -> Seq<Seq<char>> {
    match (data_path(s.stdout), data_path(s.stderr)) {
        (Some(o), Some(e)) => seq![o, e],
        (Some(o), None) => seq![o],
        (None, Some(e)) => seq![e],
        (None, None) => Seq::empty(),
    }
}

/// A snapshot as a fresh load gives it back from its metadata and bodies.
pub open spec fn loaded(m: Metadata, s: Snapshot) -> bool {
    &&& metadata_of(m, s)
    &&& s.status == SnapshotStatus::Waiting
    &&& !s.deleted
}

/// Optional body bytes.
pub open spec fn opt_bytes(o: Option<Vec<u8>>) -> Option<Seq<u8>> {
    match o {
        Some(b) => Some(b@),
        None => None,
    }
}

/// The body bytes of a body reference, if any.
pub open spec fn body_of(d: Option<SnapshotData>) -> Option<Seq<u8>> {
    match d {
        Some(d) => Some(d.body@),
        None => None,
    }
}

/// Two snapshots agree on every persisted field, bodies included.
pub open spec fn same_persisted(a: Snapshot, b: Snapshot) -> bool {
    &&& a.cmd@ == b.cmd@
    &&& a.name@ == b.name@
    &&& opt_str_view(a.description) == opt_str_view(b.description)
    &&& strs_view(a.tags@) == strs_view(b.tags@)
    &&& a.exit_code == b.exit_code
    &&& data_path(a.stdout) == data_path(b.stdout)
    &&& data_path(a.stderr) == data_path(b.stderr)
    &&& body_of(a.stdout) == body_of(b.stdout)
    &&& body_of(a.stderr) == body_of(b.stderr)
}

fn restore_data(path: Option<String>, body: Option<Vec<u8>>) -> (r: Option<SnapshotData>)
    requires
        path is Some <==> body is Some,
    ensures
        data_path(r) == opt_str_view(path),
        body_of(r) == opt_bytes(body),
{
    match (path, body) {
        (Some(path), Some(body)) => Some(SnapshotData { path, body }),
        _ => None,
    }
}

/// A snapshot as a fresh load gives it back: its metadata and the bodies
/// read from the files it names, with status `Waiting` and not deleted.
pub fn from_metadata(meta: Metadata, stdout: Option<Vec<u8>>, stderr: Option<Vec<u8>>) -> (r: Snapshot)
    requires
        meta.stdout is Some <==> stdout is Some,
        meta.stderr is Some <==> stderr is Some,
    ensures
        loaded(meta, r),
        body_of(r.stdout) == opt_bytes(stdout),
        body_of(r.stderr) == opt_bytes(stderr),
{
    let r = Snapshot {
        exit_code: meta.exit_code,
        stderr: restore_data(meta.stderr, stderr),
        stdout: restore_data(meta.stdout, stdout),
        cmd: meta.cmd,
        name: meta.name,
        description: meta.description,
        tags: meta.tags,
        status: SnapshotStatus::Waiting,
        deleted: false,
    };
    r
}

/// Round trip: a snapshot restored from the metadata persisted for `s` and
/// from the bodies written for `s` agrees with `s` on every persisted field.
pub proof fn lemma_round_trip(s: Snapshot, meta: Metadata, r: Snapshot)
    requires
        metadata_of(meta, s),
        loaded(meta, r),
        body_of(r.stdout) == body_of(s.stdout),
        body_of(r.stderr) == body_of(s.stderr),
    ensures
        same_persisted(r, s),
        r.status == SnapshotStatus::Waiting,
        !r.deleted,
{
}

/// The metadata that `persist` writes leaves out every deleted snapshot.
pub proof fn lemma_live_excludes_deleted(s: Seq<Snapshot>)
    ensures
        forall|j: int| 0 <= j < live(s).len() ==> !(#[trigger] live(s)[j]).deleted,
        live(s).len() <= s.len(),
    decreases s.len(),
{
    if s.len() > 0 {
        lemma_live_excludes_deleted(s.drop_last());
        if !s.last().deleted {
            let l = live(s.drop_last());
            assert forall|j: int| 0 <= j < l.push(s.last()).len() implies !(#[trigger] l.push(
                s.last(),
            )[j]).deleted by {
                if j < l.len() {
                    assert(l.push(s.last())[j] == l[j]);
                }
            }
        }
    }
}

/// After a delete, garbage collection names both body files of every
/// deleted snapshot for removal.
pub proof fn lemma_gc_names_bodies(s: Seq<Snapshot>, i: int)
    requires
        0 <= i < s.len(),
        s[i].deleted,
    ensures
        forall|p: Seq<char>| body_paths(s[i]).contains(p) ==> #[trigger] dead_bodies(s).contains(p),
    decreases s.len(),
{
    let d = dead_bodies(s);
    if i == s.len() - 1 {
        let pre = dead_bodies(s.drop_last());
        assert(d == pre + body_paths(s[i]));
        assert forall|p: Seq<char>| body_paths(s[i]).contains(p) implies #[trigger] d.contains(p) by {
            let k = choose|k: int| 0 <= k < body_paths(s[i]).len() && body_paths(s[i])[k] == p;
            assert(d[pre.len() + k] == p);
        }
    } else {
        lemma_gc_names_bodies(s.drop_last(), i);
        let pre = dead_bodies(s.drop_last());
        assert(s.drop_last()[i] == s[i]);
        assert forall|p: Seq<char>| body_paths(s[i]).contains(p) implies #[trigger] d.contains(p) by {
            assert(pre.contains(p));
            let k = choose|k: int| 0 <= k < pre.len() && pre[k] == p;
            if s.last().deleted {
                assert(d == pre + body_paths(s.last()));
                assert(d[k] == p);
            }
        }
    }
}

fn clone_string(s: &String) -> (r: String)
    ensures
        r@ == s@,
{
    s.as_str().to_owned()
}

fn clone_opt_string(s: &Option<String>) -> (r: Option<String>)
    ensures
        opt_str_view(r) == opt_str_view(*s),
{
    match s {
        Some(s) => Some(clone_string(s)),
        None => None,
    }
}

fn clone_strings(v: &Vec<String>) -> (r: Vec<String>)
    ensures
        strs_view(r@) == strs_view(v@),
{
    let mut r: Vec<String> = Vec::new();
    let mut i: usize = 0;
    while i < v.len()
        invariant
            i <= v@.len(),
            r@.len() == i,
            forall|j: int| 0 <= j < i ==> (#[trigger] r@[j])@ == v@[j]@,
        decreases v@.len() - i,
    {
        r.push(clone_string(&v[i]));
        i += 1;
    }
    assert(strs_view(r@) =~= strs_view(v@));
    r
}

fn data_path_of(d: &Option<SnapshotData>) -> (r: Option<String>)
    ensures
        opt_str_view(r) == data_path(*d),
{
    match d {
        Some(data) => Some(clone_string(&data.path)),
        None => None,
    }
}

impl Metadata {
    /// The persisted fields of a snapshot.
    pub fn from_snapshot(snap: &Snapshot) -> (r: Metadata)
        ensures
            metadata_of(r, *snap),
    {
        Metadata {
            cmd: clone_string(&snap.cmd),
            name: clone_string(&snap.name),
            description: clone_opt_string(&snap.description),
            tags: clone_strings(&snap.tags),
            exit_code: snap.exit_code,
            stdout: data_path_of(&snap.stdout),
            stderr: data_path_of(&snap.stderr),
        }
    }
}

/// The in-memory repository: owns every snapshot of the session. Other
/// components refer to a snapshot by its index here.
pub struct DataManager {
    snaps: Vec<Snapshot>,
}

impl DataManager {
    pub closed spec fn snapshots_view(&self) -> Seq<Snapshot> {
        self.snaps@
    }

    /// A repository over the snapshots that were loaded.
    pub fn new(snaps: Vec<Snapshot>) -> (r: DataManager)
        ensures
            r.snapshots_view() == snaps@,
    {
        DataManager { snaps }
    }

    /// All the snapshots, tombstones included.
    pub fn snapshots(&self) -> (r: &Vec<Snapshot>)
        ensures
            r@ == self.snapshots_view(),
    {
        &self.snaps
    }

    /// Mutable access to one snapshot.
    pub fn snapshot_mut(&mut self, i: usize) -> (r: &mut Snapshot)
        requires
            i < old(self).snapshots_view().len(),
        ensures
            *r == old(self).snapshots_view()[i as int],
            final(self).snapshots_view() == old(self).snapshots_view().update(i as int, *final(r)),
    {
        &mut self.snaps[i]
    }

    /// Whether a live snapshot already has this name.
    pub fn has_name(&self, name: &str) -> (r: bool)
        ensures
            r == exists|i: int|
                0 <= i < self.snapshots_view().len() && !self.snapshots_view()[i].deleted
                    && #[trigger] self.snapshots_view()[i].name@ == name@,
    {
        let mut i: usize = 0;
        while i < self.snaps.len()
            invariant
                i <= self.snaps@.len(),
                forall|j: int|
                    0 <= j < i ==> self.snaps@[j].deleted || (#[trigger] self.snaps@[j]).name@ != name@,
            decreases self.snaps@.len() - i,
        {
            if !self.snaps[i].deleted && crate::text::str_equal(self.snaps[i].name.as_str(), name) {
                return true;
            }
            i += 1;
        }
        false
    }

    /// Adds a snapshot; fails if a live snapshot already has its name.
    pub fn add_snapshot(&mut self, snap: Snapshot) -> (r: Result<(), crate::error::Error>)
        ensures
            r is Ok <==> !(exists|i: int|
                0 <= i < old(self).snapshots_view().len() && !old(self).snapshots_view()[i].deleted
                    && #[trigger] old(self).snapshots_view()[i].name@ == snap.name@),
            r is Ok ==> final(self).snapshots_view() == old(self).snapshots_view().push(snap),
            r is Err ==> final(self).snapshots_view() == old(self).snapshots_view(),
    {
        if self.has_name(snap.name.as_str()) {
            return crate::error::Error::from_str("A snapshot with that name already exists.");
        }
        self.snaps.push(snap);
        Ok(())
    }

    /// The metadata to persist: the live snapshots, in insertion order.
    pub fn persist(&self) -> (r: Metadatas)
        ensures
            r.snapshots@.len() == live(self.snapshots_view()).len(),
            forall|j: int|
                0 <= j < r.snapshots@.len() ==> metadata_of(
                    #[trigger] r.snapshots@[j],
                    live(self.snapshots_view())[j],
                ),
    {
        let mut snapshots: Vec<Metadata> = Vec::new();
        let mut i: usize = 0;
        while i < self.snaps.len()
            invariant
                i <= self.snaps@.len(),
                snapshots@.len() == live(self.snaps@.take(i as int)).len(),
                forall|j: int|
                    0 <= j < snapshots@.len() ==> metadata_of(
                        #[trigger] snapshots@[j],
                        live(self.snaps@.take(i as int))[j],
                    ),
            decreases self.snaps@.len() - i,
        {
            proof {
                assert(self.snaps@.take(i + 1).drop_last() =~= self.snaps@.take(i as int));
            }
            if !self.snaps[i].deleted {
                snapshots.push(Metadata::from_snapshot(&self.snaps[i]));
            }
            i += 1;
        }
        proof {
            assert(self.snaps@.take(self.snaps@.len() as int) =~= self.snaps@);
        }
        Metadatas { snapshots }
    }

    /// The body files of the deleted snapshots, to be removed from disk.
    /// The tombstones stay in memory; `persist` leaves them out, so a fresh
    /// load no longer sees them.
    pub fn gc(&self) -> (r: Vec<String>)
        ensures
            strs_view(r@) == dead_bodies(self.snapshots_view()),
    {
        let mut paths: Vec<String> = Vec::new();
        let mut i: usize = 0;
        while i < self.snaps.len()
            invariant
                i <= self.snaps@.len(),
                strs_view(paths@) == dead_bodies(self.snaps@.take(i as int)),
            decreases self.snaps@.len() - i,
        {
            proof {
                assert(self.snaps@.take(i + 1).drop_last() =~= self.snaps@.take(i as int));
            }
            let snap = &self.snaps[i];
            if snap.deleted {
                let ghost before = paths@;
                match &snap.stdout {
                    Some(d) => paths.push(clone_string(&d.path)),
                    None => {},
                }
                match &snap.stderr {
                    Some(d) => paths.push(clone_string(&d.path)),
                    None => {},
                }
                proof {
                    assert(strs_view(paths@) =~= strs_view(before) + body_paths(*snap));
                }
            }
            i += 1;
        }
        proof {
            assert(self.snaps@.take(self.snaps@.len() as int) =~= self.snaps@);
        }
        paths
    }

    /// The indices of all the snapshots.
    pub fn get_all_snapshots(&self) -> (r: Vec<usize>)
        ensures
            r@.len() == self.snapshots_view().len(),
            forall|i: int| 0 <= i < r@.len() ==> r@[i] == i,
    {
        let mut r: Vec<usize> = Vec::new();
        let mut i: usize = 0;
        while i < self.snaps.len()
            invariant
                i <= self.snaps@.len(),
                r@.len() == i,
                forall|j: int| 0 <= j < i ==> r@[j] == j,
            decreases self.snaps@.len() - i,
        {
            r.push(i);
            i += 1;
        }
        r
    }
}

} // verus!
