//! Sites: their files, their signed manifests, the short listing of a site,
//! and the statistics a node reports.

use vstd::prelude::*;
use vstd::slice::slice_to_vec;
use vstd::string::StringExecFns;

use crate::text::{lemma_seq_lt_irreflexive, lemma_seq_lt_transitive, seq_lt};

verus! {

/// One file of a site.
pub struct SiteFile {
    /// Path inside the site, e.g. `"/index.html"`.
    pub path: String,
    /// Content hash of the file's blob, in its text form.
    pub hash: String,
    pub mime: String,
    pub size: u64,
}

/// The mathematical value of a site file.
pub struct SiteFileView {
    pub path: Seq<char>,
    pub hash: Seq<char>,
    pub mime: Seq<char>,
    pub size: u64,
}

impl View for SiteFile {
    type V = SiteFileView;

    open spec fn view(&self) -> SiteFileView {
        SiteFileView { path: self.path@, hash: self.hash@, mime: self.mime@, size: self.size }
    }
}

impl Clone for SiteFile {
    fn clone(&self) -> (r: Self)
        ensures
            r@ == self@,
    {
        SiteFile {
            path: self.path.clone(),
            hash: self.hash.clone(),
            mime: self.mime.clone(),
            size: self.size,
        }
    }
}

/// The views of a list of files.
pub open spec fn file_views(v: Seq<SiteFile>) -> Seq<SiteFileView> {
    v.map_values(|f: SiteFile| f@)
}

/// The signed description of a site: its files and its owner.
pub struct SiteManifest {
    pub name: String,
    /// The files of the site; a path is meant to occur once.
    pub files: Vec<SiteFile>,
    /// ed25519 public key bytes of the owner.
    pub owner_pubkey: Vec<u8>,
    /// Signature over the canonical encoding of the files.
    pub signature: Vec<u8>,
    pub created_at: u64,
    pub updated_at: u64,
    pub version: u32,
}

/// The mathematical value of a manifest.
pub struct SiteManifestView {
    pub name: Seq<char>,
    pub files: Seq<SiteFileView>,
    pub owner_pubkey: Seq<u8>,
    pub signature: Seq<u8>,
    pub created_at: u64,
    pub updated_at: u64,
    pub version: u32,
}

impl View for SiteManifest {
    type V = SiteManifestView;

    open spec fn view(&self) -> SiteManifestView {
        SiteManifestView {
            name: self.name@,
            files: file_views(self.files@),
            owner_pubkey: self.owner_pubkey@,
            signature: self.signature@,
            created_at: self.created_at,
            updated_at: self.updated_at,
            version: self.version,
        }
    }
}

/// A copy of a list of files.
pub fn clone_files(files: &Vec<SiteFile>) -> (r: Vec<SiteFile>)
    ensures
        file_views(r@) == file_views(files@),
{
    let n = files.len();
    let mut out: Vec<SiteFile> = Vec::new();
    let mut i: usize = 0;
    while i < n
        invariant
            n == files@.len(),
            i <= n,
            file_views(out@) == file_views(files@).take(i as int),
        decreases n - i,
    {
        let f = files[i].clone();
        let ghost prev = out@;
        out.push(f);
        assert(file_views(out@) =~= file_views(prev).push(f@));
        assert(file_views(files@).take(i + 1) =~= file_views(files@).take(i as int).push(files@[i as int]@));
        i = i + 1;
    }
    assert(file_views(files@).take(n as int) =~= file_views(files@));
    out
}

impl Clone for SiteManifest {
    fn clone(&self) -> (r: Self)
        ensures
            r@ == self@,
    {
        SiteManifest {
            name: self.name.clone(),
            files: clone_files(&self.files),
            owner_pubkey: slice_to_vec(self.owner_pubkey.as_slice()),
            signature: slice_to_vec(self.signature.as_slice()),
            created_at: self.created_at,
            updated_at: self.updated_at,
            version: self.version,
        }
    }
}

/// The sum of the sizes of a list of files.
pub open spec fn total_size(files: Seq<SiteFileView>) -> nat
    decreases files.len(),
{
    if files.len() == 0 {
        0
    } else {
        total_size(files.drop_last()) + files.last().size as nat
    }
}

/// Lightweight metadata for listing sites (no file list).
pub struct SiteMeta {
    pub name: String,
    pub hash: String,
    pub file_count: usize,
    pub total_size: u64,
    pub updated_at: u64,
}

/// The mathematical value of a site listing.
pub struct SiteMetaView {
    pub name: Seq<char>,
    pub hash: Seq<char>,
    pub file_count: nat,
    pub total_size: nat,
    pub updated_at: u64,
}

impl View for SiteMeta {
    type V = SiteMetaView;

    open spec fn view(&self) -> SiteMetaView {
        SiteMetaView {
            name: self.name@,
            hash: self.hash@,
            file_count: self.file_count as nat,
            total_size: self.total_size as nat,
            updated_at: self.updated_at,
        }
    }
}

/// The listing of the site whose manifest is `m`, stored under `hash`.
pub open spec fn meta_of(m: SiteManifestView, hash: Seq<char>) -> SiteMetaView {
    SiteMetaView {
        name: m.name,
        hash,
        file_count: m.files.len(),
        total_size: total_size(m.files),
        updated_at: m.updated_at,
    }
}

impl SiteMeta {
    /// The listing of the site whose manifest is `m`, stored under `hash`:
    /// its name, how many files it has and their total size.
    pub fn from_manifest(m: &SiteManifest, hash: &str) -> (r: SiteMeta)
        requires
            total_size(m@.files) <= u64::MAX,
        ensures
            r@ == meta_of(m@, hash@),
    {
        let n = m.files.len();
        let mut sum: u64 = 0;
        let mut i: usize = 0;
        while i < n
            invariant
                n == m.files@.len(),
                i <= n,
                total_size(m@.files) <= u64::MAX,
                sum == total_size(m@.files.take(i as int)),
            decreases n - i,
        {
            proof {
                lemma_total_size_prefix(m@.files, i + 1);
                assert(m@.files.take(i + 1).drop_last() =~= m@.files.take(i as int));
            }
            sum = sum + m.files[i].size;
            i = i + 1;
        }
        assert(m@.files.take(n as int) =~= m@.files);
        SiteMeta {
            name: m.name.clone(),
            hash: String::from_str(hash),
            file_count: n,
            total_size: sum,
            updated_at: m.updated_at,
        }
    }
}

impl Clone for SiteMeta {
    fn clone(&self) -> (r: Self)
        ensures
            r@ == self@,
    {
        SiteMeta {
            name: self.name.clone(),
            hash: self.hash.clone(),
            file_count: self.file_count,
            total_size: self.total_size,
            updated_at: self.updated_at,
        }
    }
}

/// The total size of a prefix is at most the total size of the whole list.
pub proof fn lemma_total_size_prefix(files: Seq<SiteFileView>, i: int)
    requires
        0 <= i <= files.len(),
    ensures
        total_size(files.take(i)) <= total_size(files),
    decreases files.len() - i,
{
    if i < files.len() {
        lemma_total_size_prefix(files, i + 1);
        assert(files.take(i + 1).drop_last() =~= files.take(i));
    } else {
        assert(files.take(i) =~= files);
    }
}

/// What a node reports about itself.
pub struct NodeStats {
    pub node_id: String,
    pub peer_count: usize,
    pub bytes_sent: u64,
    pub bytes_recv: u64,
    pub hosted_sites: usize,
    pub relay_url: Option<String>,
    pub is_online: bool,
}

// ---------------------------------------------------------------------------
// Files keyed by path
// ---------------------------------------------------------------------------

/// Files in strictly increasing path order (so no path twice).
pub open spec fn paths_sorted(s: Seq<SiteFileView>) -> bool {
    forall|i: int, j: int| 0 <= i < j < s.len() ==> seq_lt(#[trigger] s[i].path, #[trigger] s[j].path)
}

/// The map from path to file of a list in which no path occurs twice.
pub open spec fn path_map(s: Seq<SiteFileView>) -> Map<Seq<char>, SiteFileView> {
    Map::new(
        |k: Seq<char>| exists|i: int| 0 <= i < s.len() && s[i].path == k,
        |k: Seq<char>| s[choose|i: int| 0 <= i < s.len() && s[i].path == k],
    )
}

/// The map from path to file obtained by inserting the files in order, a
/// later file replacing an earlier one of the same path.
pub open spec fn inserted_files(s: Seq<SiteFileView>) -> Map<Seq<char>, SiteFileView>
    decreases s.len(),
{
    if s.len() == 0 {
        Map::empty()
    } else {
        inserted_files(s.drop_last()).insert(s.last().path, s.last())
    }
}

pub proof fn lemma_path_map_index(s: Seq<SiteFileView>, i: int)
    requires
        paths_sorted(s),
        0 <= i < s.len(),
    ensures
        path_map(s).dom().contains(s[i].path),
        path_map(s)[s[i].path] == s[i],
{
    let k = s[i].path;
    assert(exists|j: int| 0 <= j < s.len() && s[j].path == k);
    let j = choose|j: int| 0 <= j < s.len() && s[j].path == k;
    if j != i {
        lemma_seq_lt_irreflexive(k);
        if j < i {
            assert(seq_lt(s[j].path, s[i].path));
        } else {
            assert(seq_lt(s[i].path, s[j].path));
        }
    }
}

pub proof fn lemma_path_map_contains(s: Seq<SiteFileView>, k: Seq<char>)
    requires
        paths_sorted(s),
        path_map(s).dom().contains(k),
    ensures
        exists|i: int| 0 <= i < s.len() && s[i].path == k && path_map(s)[k] == s[i],
{
    let i = choose|i: int| 0 <= i < s.len() && s[i].path == k;
    lemma_path_map_index(s, i);
}

/// Inserting a file with a new path at its place in path order.
pub proof fn lemma_path_map_insert(s: Seq<SiteFileView>, p: int, c: SiteFileView)
    requires
        paths_sorted(s),
        0 <= p <= s.len(),
        forall|j: int| 0 <= j < p ==> seq_lt(#[trigger] s[j].path, c.path),
        forall|j: int| p <= j < s.len() ==> seq_lt(c.path, #[trigger] s[j].path),
    ensures
        paths_sorted(s.insert(p, c)),
        path_map(s.insert(p, c)) == path_map(s).insert(c.path, c),
{
    let t = s.insert(p, c);
    assert forall|i: int, j: int| 0 <= i < j < t.len() implies seq_lt(#[trigger] t[i].path, #[trigger] t[j].path) by {
        if j < p {
        } else if j == p {
        } else if i < p {
            assert(t[j] == s[j - 1]);
            lemma_seq_lt_transitive(s[i].path, c.path, s[j - 1].path);
        } else if i == p {
            assert(t[j] == s[j - 1]);
        } else {
            assert(t[i] == s[i - 1]);
            assert(t[j] == s[j - 1]);
        }
    }
    let m1 = path_map(t);
    let m2 = path_map(s).insert(c.path, c);
    assert forall|k: Seq<char>| m1.dom().contains(k) <==> m2.dom().contains(k) by {
        if m1.dom().contains(k) {
            let i = choose|i: int| 0 <= i < t.len() && t[i].path == k;
            if i < p {
                assert(s[i].path == k);
            } else if i > p {
                assert(s[i - 1].path == k);
            }
        }
        if m2.dom().contains(k) && k != c.path {
            let i = choose|i: int| 0 <= i < s.len() && s[i].path == k;
            if i < p {
                assert(t[i].path == k);
            } else {
                assert(t[i + 1].path == k);
            }
        }
        if k == c.path {
            assert(t[p].path == k);
        }
    }
    assert forall|k: Seq<char>| #[trigger] m1.dom().contains(k) implies m1[k] == m2[k] by {
        lemma_path_map_contains(t, k);
        let i = choose|i: int| 0 <= i < t.len() && t[i].path == k && m1[k] == t[i];
        lemma_seq_lt_irreflexive(c.path);
        if i < p {
            assert(t[i] == s[i]);
            lemma_path_map_index(s, i);
        } else if i > p {
            assert(t[i] == s[i - 1]);
            lemma_path_map_index(s, i - 1);
        }
    }
    assert(m1 =~= m2);
}

/// Replacing a file by one of the same path.
pub proof fn lemma_path_map_update(s: Seq<SiteFileView>, i: int, c: SiteFileView)
    requires
        paths_sorted(s),
        0 <= i < s.len(),
        s[i].path == c.path,
    ensures
        paths_sorted(s.update(i, c)),
        path_map(s.update(i, c)) == path_map(s).insert(c.path, c),
{
    let t = s.update(i, c);
    assert forall|a: int, b: int| 0 <= a < b < t.len() implies seq_lt(#[trigger] t[a].path, #[trigger] t[b].path) by {
        assert(t[a].path == s[a].path);
        assert(t[b].path == s[b].path);
    }
    let m1 = path_map(t);
    let m2 = path_map(s).insert(c.path, c);
    lemma_path_map_index(s, i);
    assert forall|k: Seq<char>| m1.dom().contains(k) <==> m2.dom().contains(k) by {
        if m1.dom().contains(k) {
            let j = choose|j: int| 0 <= j < t.len() && t[j].path == k;
            assert(s[j].path == k);
        }
        if m2.dom().contains(k) {
            if k == c.path {
                assert(t[i].path == k);
            } else {
                let j = choose|j: int| 0 <= j < s.len() && s[j].path == k;
                assert(t[j].path == k);
            }
        }
    }
    assert forall|k: Seq<char>| #[trigger] m1.dom().contains(k) implies m1[k] == m2[k] by {
        lemma_path_map_contains(t, k);
        let j = choose|j: int| 0 <= j < t.len() && t[j].path == k && m1[k] == t[j];
        if j != i {
            lemma_path_map_index(s, j);
            lemma_seq_lt_irreflexive(c.path);
            assert(t[j] == s[j]);
            if j < i {
                assert(seq_lt(s[j].path, s[i].path));
            } else {
                assert(seq_lt(s[i].path, s[j].path));
            }
        }
    }
    assert(m1 =~= m2);
}


/// Removing a file.
pub proof fn lemma_path_map_remove(s: Seq<SiteFileView>, i: int)
    requires
        paths_sorted(s),
        0 <= i < s.len(),
    ensures
        paths_sorted(s.remove(i)),
        path_map(s.remove(i)) == path_map(s).remove(s[i].path),
{
    let t = s.remove(i);
    let path = s[i].path;
    assert forall|a: int, b: int| 0 <= a < b < t.len() implies seq_lt(#[trigger] t[a].path, #[trigger] t[b].path) by {
        let a2 = if a < i { a } else { a + 1 };
        let b2 = if b < i { b } else { b + 1 };
        assert(t[a] == s[a2]);
        assert(t[b] == s[b2]);
    }
    let m1 = path_map(t);
    let m2 = path_map(s).remove(path);
    assert forall|k: Seq<char>| m1.dom().contains(k) <==> m2.dom().contains(k) by {
        if m1.dom().contains(k) {
            let j = choose|j: int| 0 <= j < t.len() && t[j].path == k;
            let j2 = if j < i { j } else { j + 1 };
            assert(s[j2].path == k);
            lemma_seq_lt_irreflexive(k);
            if j2 < i {
                assert(seq_lt(s[j2].path, s[i].path));
            } else {
                assert(seq_lt(s[i].path, s[j2].path));
            }
        }
        if m2.dom().contains(k) {
            let j = choose|j: int| 0 <= j < s.len() && s[j].path == k;
            if j < i {
                assert(t[j].path == k);
            } else {
                assert(t[j - 1].path == k);
            }
        }
    }
    assert forall|k: Seq<char>| #[trigger] m1.dom().contains(k) implies m1[k] == m2[k] by {
        lemma_path_map_contains(t, k);
        let j = choose|j: int| 0 <= j < t.len() && t[j].path == k && m1[k] == t[j];
        if j < i {
            lemma_path_map_index(s, j);
        } else {
            lemma_path_map_index(s, j + 1);
        }
    }
    assert(m1 =~= m2);
}

} // verus!
