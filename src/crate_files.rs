//! Create-once storage of published artifacts, keyed by package name and version.
use std::path::PathBuf;

use vstd::prelude::*;
use vstd::string::StrSliceExecFns;

verus! {

/// Why a storage operation failed.
#[derive(Debug, Clone, Copy, PartialEq, Eq, Structural)]
pub enum StoreError {
    /// An artifact is already stored under the key; it was left as it was.
    AlreadyExists,
    /// The storage medium could not carry out the operation.
    StorageFailure,
}

/// An artifact key as plain values: (package name, version).
pub type KeyView = (Seq<char>, Seq<char>);

/// The stored artifacts, by key.
pub type Contents = Map<KeyView, Seq<u8>>;

/// What a create-exclusive `store` of `data` under `k` does to `m`, and what it returns.
pub open spec fn store_step(m: Contents, k: KeyView, data: Seq<u8>) -> (Contents, Result<(), StoreError>) {
    if m.contains_key(k) {
        (m, Err(StoreError::AlreadyExists))
    } else {
        (m.insert(k, data), Ok(()))
    }
}

/// What `get` of `k` returns from `m`: absence is no error.
pub open spec fn lookup(m: Contents, k: KeyView) -> Option<Seq<u8>> {
    if m.contains_key(k) {
        Some(m[k])
    } else {
        None
    }
}

/// The view of an optional byte buffer.
pub open spec fn bytes_view(o: Option<Vec<u8>>) -> Option<Seq<u8>> {
    match o {
        Some(v) => Some(v@),
        None => None,
    }
}

/// The outcomes of storing each of `vs` under `k`, one after another, starting from `m`:
/// the contents at the end and each call's result, in order.
pub open spec fn store_all(m: Contents, k: KeyView, vs: Seq<Seq<u8>>) -> (Contents, Seq<
    Result<(), StoreError>,
>)
    decreases vs.len(),
{
    if vs.len() == 0 {
        (m, Seq::empty())
    } else {
        let (m1, rs) = store_all(m, k, vs.drop_last());
        let (m2, r) = store_step(m1, k, vs.last());
        (m2, rs.push(r))
    }
}

/// Once bytes are stored under a key, a second store there fails with
/// `AlreadyExists` and the first bytes are what the key still holds.
pub proof fn lemma_store_immutable(m: Contents, k: KeyView, b1: Seq<u8>, b2: Seq<u8>)
    requires
        !m.contains_key(k),
    ensures
        store_step(m, k, b1).1 == Ok::<(), StoreError>(()),
        store_step(store_step(m, k, b1).0, k, b2).1 == Err::<(), StoreError>(
            StoreError::AlreadyExists,
        ),
        store_step(store_step(m, k, b1).0, k, b2).0 == store_step(m, k, b1).0,
        lookup(store_step(store_step(m, k, b1).0, k, b2).0, k) == Some(b1),
{
}

/// A store under a key that is taken changes nothing, for any bytes.
pub proof fn lemma_store_keeps_existing(m: Contents, k: KeyView, b: Seq<u8>)
    requires
        m.contains_key(k),
    ensures
        store_step(m, k, b) == (m, Err::<(), StoreError>(StoreError::AlreadyExists)),
{
}

/// After a delete of a key, a get of it finds nothing.
pub proof fn lemma_delete_then_get(m: Contents, k: KeyView)
    ensures
        lookup(m.remove(k), k) == None::<Seq<u8>>,
{
}

/// Stores of several byte sequences under one free key, in whatever order they
/// are taken: exactly the first succeeds, every other one fails with
/// `AlreadyExists`, and the key holds the first one's bytes.
pub proof fn lemma_same_key_stores(m: Contents, k: KeyView, vs: Seq<Seq<u8>>)
    requires
        !m.contains_key(k),
        vs.len() > 0,
    ensures
        store_all(m, k, vs).1.len() == vs.len(),
        store_all(m, k, vs).1[0] == Ok::<(), StoreError>(()),
        forall|i: int|
            1 <= i < vs.len() ==> #[trigger] store_all(m, k, vs).1[i] == Err::<(), StoreError>(
                StoreError::AlreadyExists,
            ),
        lookup(store_all(m, k, vs).0, k) == Some(vs[0]),
    decreases vs.len(),
{
    let init = vs.drop_last();
    let (m1, rs) = store_all(m, k, init);
    let out = store_all(m, k, vs);
    assert(out.0 == store_step(m1, k, vs.last()).0);
    assert(out.1 == rs.push(store_step(m1, k, vs.last()).1));
    if vs.len() > 1 {
        lemma_same_key_stores(m, k, init);
        assert(m1.contains_key(k));
        assert(init[0] == vs[0]);
        assert(out.1[0] == rs[0]);
        assert forall|i: int| 1 <= i < vs.len() implies #[trigger] out.1[i] == Err::<
            (),
            StoreError,
        >(StoreError::AlreadyExists) by {
            if i < init.len() {
                assert(out.1[i] == rs[i]);
            }
        }
    } else {
        assert(init.len() == 0);
        assert(rs.len() == 0);
        assert(m1 == m);
        assert(vs.last() == vs[0]);
    }
}

/// A keyed, create-once byte store; a backend chooses the medium.
pub trait CrateFileStorage {
    /// What the store holds.
    spec fn contents(&self) -> Contents;

    /// The backend's own well-formedness.
    spec fn well_formed(&self) -> bool;

    /// Whether the backend's medium never fails: then no operation ends in
    /// `StorageFailure`.
    spec fn infallible(&self) -> bool;

    /// Stores `data` under `(crate_name, version)` unless something is stored there already.
    fn store_file(&mut self, crate_name: &str, version: &str, data: &[u8]) -> (r: Result<
        (),
        StoreError,
    >)
        requires
            old(self).well_formed(),
        ensures
            final(self).well_formed(),
            r != Err::<(), StoreError>(StoreError::StorageFailure) ==> (final(self).contents(), r)
                == store_step(old(self).contents(), (crate_name@, version@), data@),
            r == Err::<(), StoreError>(StoreError::StorageFailure) ==> final(self).contents()
                == old(self).contents(),
            old(self).infallible() ==> r != Err::<(), StoreError>(StoreError::StorageFailure),
            final(self).infallible() == old(self).infallible(),
    ;

    /// Removes what is stored under `(crate_name, version)`.
    fn delete_file(&mut self, crate_name: &str, version: &str) -> (r: Result<(), StoreError>)
        requires
            old(self).well_formed(),
        ensures
            final(self).well_formed(),
            r is Ok ==> final(self).contents() == old(self).contents().remove(
                (crate_name@, version@),
            ),
            r is Err ==> final(self).contents() == old(self).contents(),
            old(self).infallible() ==> r is Ok,
            final(self).infallible() == old(self).infallible(),
    ;

    /// The bytes stored under `(crate_name, version)`, or `None` where nothing is.
    fn get_file(&self, crate_name: &str, version: &str) -> (r: Result<
        Option<Vec<u8>>,
        StoreError,
    >)
        requires
            self.well_formed(),
        ensures
            match r {
                Ok(o) => bytes_view(o) == lookup(self.contents(), (crate_name@, version@)),
                Err(e) => e == StoreError::StorageFailure,
            },
            self.infallible() ==> r is Ok,
    ;
}

/// One artifact held in memory.
#[derive(Debug, Clone)]
pub struct StoredArtifact {
    pub crate_name: String,
    pub version: String,
    pub data: Vec<u8>,
}

impl StoredArtifact {
    pub open spec fn key(&self) -> KeyView {
        (self.crate_name@, self.version@)
    }
}

/// A store that keeps its artifacts in memory, one entry per key.
#[derive(Debug, Clone)]
pub struct MemoryStore {
    entries: Vec<StoredArtifact>,
}

impl MemoryStore {
    /// Whether some entry has key `k`.
    closed spec fn has_key(&self, k: KeyView) -> bool {
        exists|i: int| 0 <= i < self.entries.len() && #[trigger] self.entries[i].key() == k
    }

    /// The index of the entry with key `k`.
    closed spec fn index_of(&self, k: KeyView) -> int {
        choose|i: int| 0 <= i < self.entries.len() && #[trigger] self.entries[i].key() == k
    }

    closed spec fn keys_unique(&self) -> bool {
        forall|i: int, j: int|
            0 <= i < self.entries.len() && 0 <= j < self.entries.len() && i != j
                ==> #[trigger] self.entries[i].key() != #[trigger] self.entries[j].key()
    }

    proof fn lemma_index_of(&self, i: int)
        requires
            self.keys_unique(),
            0 <= i < self.entries.len(),
        ensures
            self.has_key(self.entries[i].key()),
            self.index_of(self.entries[i].key()) == i,
    {
        let k = self.entries[i].key();
        assert(self.entries[i].key() == k);
        let j = self.index_of(k);
        assert(self.entries[j].key() == k);
    }

    /// An empty store.
    pub fn new() -> (r: MemoryStore)
        ensures
            r.well_formed(),
            r.infallible(),
            r.contents() == Map::<KeyView, Seq<u8>>::empty(),
    {
        let r = MemoryStore { entries: Vec::new() };
        assert(r.contents() =~= Map::<KeyView, Seq<u8>>::empty());
        r
    }

    /// The index of the entry stored under `(crate_name, version)`.
    fn find(&self, crate_name: &str, version: &str) -> (r: Option<usize>)
        ensures
            match r {
                Some(i) => i < self.entries.len() && self.entries[i as int].key() == (
                    crate_name@,
                    version@,
                ),
                None => !self.has_key((crate_name@, version@)),
            },
    {
        let name = crate_name.to_owned();
        let vers = version.to_owned();
        let mut i: usize = 0;
        while i < self.entries.len()
            invariant
                name@ == crate_name@,
                vers@ == version@,
                i <= self.entries.len(),
                forall|j: int| 0 <= j < i ==> #[trigger] self.entries[j].key() != (
                    crate_name@,
                    version@,
                ),
            decreases self.entries.len() - i,
        {
            let e = &self.entries[i];
            if e.crate_name == name && e.version == vers {
                return Some(i);
            }
            i = i + 1;
        }
        None
    }
}

impl CrateFileStorage for MemoryStore {
    closed spec fn contents(&self) -> Contents {
        Map::new(|k: KeyView| self.has_key(k), |k: KeyView| self.entries[self.index_of(k)].data@)
    }

    closed spec fn well_formed(&self) -> bool {
        self.keys_unique()
    }

    open spec fn infallible(&self) -> bool {
        true
    }

    fn store_file(&mut self, crate_name: &str, version: &str, data: &[u8]) -> (r: Result<
        (),
        StoreError,
    >) {
        let k: Ghost<KeyView> = Ghost((crate_name@, version@));
        match self.find(crate_name, version) {
            Some(i) => {
                proof {
                    self.lemma_index_of(i as int);
                }
                Err(StoreError::AlreadyExists)
            },
            None => {
                let ghost pre = *self;
                let entry = StoredArtifact {
                    crate_name: crate_name.to_owned(),
                    version: version.to_owned(),
                    data: vstd::slice::slice_to_vec(data),
                };
                self.entries.push(entry);
                proof {
                    let n = pre.entries.len() as int;
                    assert(self.entries[n].key() == k@);
                    assert forall|i: int, j: int|
                        0 <= i < self.entries.len() && 0 <= j < self.entries.len() && i != j
                            implies #[trigger] self.entries[i].key() != #[trigger] self.entries[j].key() by {
                        if i < n && j < n {
                            assert(self.entries[i] == pre.entries[i]);
                            assert(self.entries[j] == pre.entries[j]);
                        } else if i < n {
                            assert(self.entries[i] == pre.entries[i]);
                            assert(pre.has_key(self.entries[i].key()));
                        } else {
                            assert(self.entries[j] == pre.entries[j]);
                            assert(pre.has_key(self.entries[j].key()));
                        }
                    }
                    self.lemma_index_of(n);
                    assert forall|q: KeyView| #[trigger] self.has_key(q) == (pre.has_key(q) || q
                        == k@) by {
                        if pre.has_key(q) {
                            let j = pre.index_of(q);
                            assert(self.entries[j] == pre.entries[j]);
                        }
                        if self.has_key(q) && q != k@ {
                            let j = self.index_of(q);
                            assert(pre.entries[j] == self.entries[j]);
                        }
                    }
                    assert forall|q: KeyView| #[trigger] pre.has_key(q) implies self.index_of(q)
                        == pre.index_of(q) by {
                        let j = pre.index_of(q);
                        assert(self.entries[j] == pre.entries[j]);
                        self.lemma_index_of(j);
                    }
                    assert(self.contents() =~= pre.contents().insert(k@, data@));
                }
                Ok(())
            },
        }
    }

    fn delete_file(&mut self, crate_name: &str, version: &str) -> (r: Result<(), StoreError>) {
        let k: Ghost<KeyView> = Ghost((crate_name@, version@));
        match self.find(crate_name, version) {
            None => {
                assert(self.contents() =~= self.contents().remove(k@));
                Ok(())
            },
            Some(i) => {
                let ghost pre = *self;
                self.entries.remove(i);
                proof {
                    let ii = i as int;
                    pre.lemma_index_of(ii);
                    // Entry j of the new vector is entry `old_index(j)` of the old one.
                    assert forall|j: int| 0 <= j < self.entries.len() implies #[trigger] self.entries[j]
                        == pre.entries[if j < ii { j } else { j + 1 }] by {}
                    assert forall|a: int, b: int|
                        0 <= a < self.entries.len() && 0 <= b < self.entries.len() && a != b
                            implies #[trigger] self.entries[a].key() != #[trigger] self.entries[b].key() by {
                        let oa = if a < ii { a } else { a + 1 };
                        let ob = if b < ii { b } else { b + 1 };
                        assert(pre.entries[oa].key() != pre.entries[ob].key());
                    }
                    assert forall|q: KeyView| #[trigger] self.has_key(q) == (pre.has_key(q) && q
                        != k@) by {
                        if self.has_key(q) {
                            let j = self.index_of(q);
                            let oj = if j < ii { j } else { j + 1 };
                            assert(pre.entries[oj].key() == q);
                            assert(oj != ii);
                        }
                        if pre.has_key(q) && q != k@ {
                            let oj = pre.index_of(q);
                            assert(oj != ii);
                            let j = if oj < ii { oj } else { oj - 1 };
                            assert(self.entries[j] == pre.entries[oj]);
                        }
                    }
                    assert forall|q: KeyView| #[trigger] self.has_key(q) implies self.entries[
                        self.index_of(q)].data@ == pre.entries[pre.index_of(q)].data@ by {
                        let j = self.index_of(q);
                        let oj = if j < ii { j } else { j + 1 };
                        assert(pre.entries[oj].key() == q);
                        pre.lemma_index_of(oj);
                    }
                    assert(self.contents() =~= pre.contents().remove(k@));
                }
                Ok(())
            },
        }
    }

    fn get_file(&self, crate_name: &str, version: &str) -> (r: Result<
        Option<Vec<u8>>,
        StoreError,
    >) {
        match self.find(crate_name, version) {
            None => Ok(None),
            Some(i) => {
                proof {
                    self.lemma_index_of(i as int);
                }
                Ok(Some(vstd::slice::slice_to_vec(self.entries[i].data.as_slice())))
            },
        }
    }
}

#[verifier::external_type_specification]
#[verifier::external_body]
pub struct ExPathBuf(std::path::PathBuf);

/// Relies on std's `Clone` for `PathBuf`, used by the derived `Clone` of
/// the types that hold one; nothing is assumed of the copy.
pub assume_specification[ <std::path::PathBuf as Clone>::clone ](p: &std::path::PathBuf) -> std::path::PathBuf;

/// The views of a sequence of strings.
pub open spec fn string_views(v: Seq<String>) -> Seq<Seq<char>> {
    v.map_values(|x: String| x@)
}

/// The path made of `segments`, each pushed onto the previous ones.
pub uninterp spec fn path_of(segments: Seq<Seq<char>>) -> PathBuf;

/// Relies on std's `FromIterator` for `PathBuf`, which pushes each segment in
/// turn: the path depends on the segments alone.
#[verifier::external_body]
fn path_from_segments(segments: &Vec<String>) -> (r: PathBuf)
    ensures
        r == path_of(string_views(segments@)),
{
    segments.iter().collect()
}

/// A string that stands as exactly one path component on every platform:
/// not empty, not `.` or `..`, and with no `/`, `\\` or `:` in it.
pub open spec fn is_plain_segment(s: Seq<char>) -> bool {
    &&& s.len() > 0
    &&& s != seq!['.']
    &&& s != seq!['.', '.']
    &&& forall|i: int| 0 <= i < s.len() ==> #[trigger] s[i] != '/' && s[i] != '\\' && s[i] != ':'
}

/// Whether `s` is one plain path component.
pub fn is_plain_path_segment(s: &str) -> (r: bool)
    ensures
        r == is_plain_segment(s@),
{
    let n = s.unicode_len();
    if n == 0 {
        return false;
    }
    if n == 1 && s.get_char(0) == '.' {
        assert(s@ =~= seq!['.']);
        return false;
    }
    if n == 2 && s.get_char(0) == '.' && s.get_char(1) == '.' {
        assert(s@ =~= seq!['.', '.']);
        return false;
    }
    let mut i: usize = 0;
    while i < n
        invariant
            n == s@.len(),
            i <= n,
            forall|k: int| 0 <= k < i ==> #[trigger] s@[k] != '/' && s@[k] != '\\' && s@[k] != ':',
        decreases n - i,
    {
        let c = s.get_char(i);
        if c == '/' || c == '\\' || c == ':' {
            return false;
        }
        i = i + 1;
    }
    proof {
        if n == 1 {
            assert(s@[0] != seq!['.'][0]);
        }
        if n == 2 {
            assert(s@[0] != '.' || s@[1] != '.');
            assert(s@ != seq!['.', '.']) by {
                if s@ == seq!['.', '.'] {
                    assert(s@[0] == '.' && s@[1] == '.');
                }
            }
        }
    }
    true
}

/// The filesystem backend: each artifact is the file `base/name/version`.
/// The file operations themselves are the host program's.
#[derive(Debug, Clone)]
pub struct Filesystem {
    base_path: String,
}

impl Filesystem {
    /// The directory under which artifacts are stored.
    pub closed spec fn base(&self) -> Seq<char> {
        self.base_path@
    }

    /// Where the artifact of `crate_name` at `version` lives: the base
    /// directory, then the name, then the version.
    pub open spec fn location(&self, crate_name: Seq<char>, version: Seq<char>) -> Seq<Seq<char>> {
        seq![self.base(), crate_name, version]
    }

    pub fn new(base_path: String) -> (r: Filesystem)
        ensures
            r.base() == base_path@,
    {
        Filesystem { base_path }
    }

    /// The directory under which artifacts are stored.
    pub fn base_path(&self) -> (r: &str)
        ensures
            r@ == self.base(),
    {
        self.base_path.as_str()
    }

    /// The path segments of the artifact `crate_name` at `version`.
    pub fn file_location(&self, crate_name: &str, version: &str) -> (r: Vec<String>)
        ensures
            string_views(r@) == self.location(crate_name@, version@),
    {
        let mut v: Vec<String> = Vec::new();
        v.push(self.base_path.clone());
        v.push(crate_name.to_owned());
        v.push(version.to_owned());
        assert(string_views(v@) =~= self.location(crate_name@, version@));
        v
    }

    /// The path of the artifact `crate_name` at `version`, or `None` where
    /// the name or the version is not a single plain path component (such a
    /// segment would lead out of `base/name`).
    pub fn file_path(&self, crate_name: &str, version: &str) -> (r: Option<PathBuf>)
        ensures
            r is Some <==> is_plain_segment(crate_name@) && is_plain_segment(version@),
            r matches Some(p) ==> p == path_of(self.location(crate_name@, version@)),
    {
        if !is_plain_path_segment(crate_name) || !is_plain_path_segment(version) {
            return None;
        }
        Some(path_from_segments(&self.file_location(crate_name, version)))
    }
}

/// Distinct keys are stored at distinct locations under one base.
pub proof fn lemma_location_injective(
    fs: Filesystem,
    n1: Seq<char>,
    v1: Seq<char>,
    n2: Seq<char>,
    v2: Seq<char>,
)
    requires
        (n1, v1) != (n2, v2),
    ensures
        fs.location(n1, v1) != fs.location(n2, v2),
{
    if fs.location(n1, v1) == fs.location(n2, v2) {
        assert(fs.location(n1, v1)[1] == n1 && fs.location(n2, v2)[1] == n2);
        assert(fs.location(n1, v1)[2] == v1 && fs.location(n2, v2)[2] == v2);
    }
}

} // verus!
