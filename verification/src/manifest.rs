//! Building, signing and checking site manifests.
//!
//! A manifest is signed over the canonical encoding of its files: the files
//! in path order, each path once. This module yields that order
//! (`canonical_files`); the encoding of it into bytes is done by the caller,
//! and the signature is made and checked over those bytes.

use vstd::prelude::*;
use vstd::slice::slice_to_vec;
use vstd::string::StringExecFns;

use crate::clock::unix_time_secs;
use crate::crypto::{ed25519_public_key, ed25519_signature, public_key_of, sign_bytes};
use crate::signing::{lemma_signed_by_seed, raw_signed_check, verify_raw_signed, VerifyError};
use crate::site::{
    file_views, inserted_files, lemma_path_map_contains, lemma_path_map_index, lemma_path_map_insert,
    lemma_path_map_remove, lemma_path_map_update,
    path_map, paths_sorted, SiteFile, SiteFileView, SiteManifest,
};
use crate::text::{
    lemma_seq_lt_asymmetric, lemma_seq_lt_irreflexive, lemma_seq_lt_total, lemma_seq_lt_transitive, seq_lt,
    str_eq, str_lt,
};

verus! {

/// Why a manifest could not be built.
#[derive(Debug, Clone, Copy, PartialEq, Eq)]
pub enum ManifestError {
    /// The system clock reads a time before the Unix epoch.
    ClockBeforeEpoch,
}

/// Collects the files of a site before the manifest is made.
pub struct ManifestBuilder {
    name: String,
    files: Vec<SiteFile>,
    owner_pubkey: Vec<u8>,
    version: u32,
}

/// The mathematical value of a builder: the files so far, by path.
pub struct ManifestBuilderView {
    pub name: Seq<char>,
    pub files: Map<Seq<char>, SiteFileView>,
    pub owner_pubkey: Seq<u8>,
    pub version: u32,
}

impl View for ManifestBuilder {
    type V = ManifestBuilderView;

    closed spec fn view(&self) -> ManifestBuilderView {
        ManifestBuilderView {
            name: self.name@,
            files: path_map(self.listing()),
            owner_pubkey: self.owner_pubkey@,
            version: self.version,
        }
    }
}

impl ManifestBuilder {
    /// The files so far, in path order.
    pub closed spec fn listing(&self) -> Seq<SiteFileView> {
        file_views(self.files@)
    }

    #[verifier::type_invariant]
    closed spec fn sorted(&self) -> bool {
        paths_sorted(self.listing())
    }

    /// A builder for a site called `name`, owned by `owner_pubkey`, with no
    /// files, at version 1.
    pub fn new(name: &str, owner_pubkey: Vec<u8>) -> (r: ManifestBuilder)
        ensures
            r@.name == name@,
            r@.files == Map::<Seq<char>, SiteFileView>::empty(),
            r@.owner_pubkey == owner_pubkey@,
            r@.version == 1,
    {
        let r = ManifestBuilder {
            name: String::from_str(name),
            files: Vec::new(),
            owner_pubkey,
            version: 1,
        };
        assert(path_map(r.listing()) =~= Map::<Seq<char>, SiteFileView>::empty());
        r
    }

    /// Index of the file at `path`, if there is one.
    fn position(&self, path: &str) -> (r: Option<usize>)
        ensures
            match r {
                Some(i) => i < self.listing().len() && self.listing()[i as int].path == path@,
                None => forall|i: int| 0 <= i < self.listing().len() ==> self.listing()[i].path != path@,
            },
    {
        let n = self.files.len();
        let mut i: usize = 0;
        while i < n
            invariant
                n == self.files@.len(),
                i <= n,
                forall|j: int| 0 <= j < i ==> self.listing()[j].path != path@,
            decreases n - i,
        {
            if str_eq(self.files[i].path.as_str(), path) {
                return Some(i);
            }
            i = i + 1;
        }
        None
    }

    /// Number of files before which a file at `path` belongs.
    fn insertion_point(&self, path: &str) -> (r: usize)
        requires
            forall|i: int| 0 <= i < self.listing().len() ==> self.listing()[i].path != path@,
        ensures
            r <= self.listing().len(),
            forall|j: int| 0 <= j < r ==> seq_lt(#[trigger] self.listing()[j].path, path@),
            forall|j: int| r <= j < self.listing().len() ==> seq_lt(path@, #[trigger] self.listing()[j].path),
    {
        proof {
            use_type_invariant(self);
        }
        let n = self.files.len();
        let mut i: usize = 0;
        while i < n
            invariant
                n == self.files@.len(),
                i <= n,
                paths_sorted(self.listing()),
                forall|k: int| 0 <= k < self.listing().len() ==> self.listing()[k].path != path@,
                forall|j: int| 0 <= j < i ==> seq_lt(#[trigger] self.listing()[j].path, path@),
            decreases n - i,
        {
            if str_lt(path, self.files[i].path.as_str()) {
                assert forall|j: int| i <= j < self.listing().len() implies seq_lt(
                    path@,
                    #[trigger] self.listing()[j].path,
                ) by {
                    if j > i {
                        lemma_seq_lt_transitive(path@, self.listing()[i as int].path, self.listing()[j].path);
                    }
                }
                return i;
            }
            proof {
                let k = self.listing()[i as int].path;
                assert(self.listing()[i as int].path == k);
                lemma_seq_lt_total(k, path@);
            }
            i = i + 1;
        }
        i
    }

    /// Add `file`, replacing a file already added at the same path.
    pub fn add_file(self, file: SiteFile) -> (r: ManifestBuilder)
        ensures
            r@ == (ManifestBuilderView { files: self@.files.insert(file@.path, file@), ..self@ }),
    {
        proof {
            use_type_invariant(&self);
        }
        let ghost old_l = self.listing();
        let ghost fv = file@;
        let found = self.position(file.path.as_str());
        let p = match found {
            Some(_) => 0,
            None => self.insertion_point(file.path.as_str()),
        };
        let ManifestBuilder { name, mut files, owner_pubkey, version } = self;
        match found {
            Some(i) => {
                files.set(i, file);
                proof {
                    assert(file_views(files@) =~= old_l.update(i as int, fv));
                    lemma_path_map_update(old_l, i as int, fv);
                }
            },
            None => {
                files.insert(p, file);
                proof {
                    assert(file_views(files@) =~= old_l.insert(p as int, fv));
                    lemma_path_map_insert(old_l, p as int, fv);
                }
            },
        }
        ManifestBuilder { name, files, owner_pubkey, version }
    }

    /// The unsigned manifest, with the files in path order, at version
    /// `version`, stamped with the current time as both creation and update
    /// time.
    pub fn build_unsigned_with_version(self, version: u32) -> (r: Result<SiteManifest, ManifestError>)
        ensures
            r is Ok || r == Err::<SiteManifest, ManifestError>(ManifestError::ClockBeforeEpoch),
            r matches Ok(m) ==> {
                &&& m@.name == self@.name
                &&& paths_sorted(m@.files)
                &&& path_map(m@.files) == self@.files
                &&& m@.owner_pubkey == self@.owner_pubkey
                &&& m@.signature.len() == 0
                &&& m@.created_at == m@.updated_at
                &&& m@.version == version
            },
    {
        proof {
            use_type_invariant(&self);
        }
        let now = match unix_time_secs() {
            Some(t) => t,
            None => {
                return Err(ManifestError::ClockBeforeEpoch);
            },
        };
        let ManifestBuilder { name, files, owner_pubkey, version: _ } = self;
        Ok(SiteManifest {
            name,
            files,
            owner_pubkey,
            signature: Vec::new(),
            created_at: now,
            updated_at: now,
            version,
        })
    }

    /// The unsigned manifest at the builder's own version.
    pub fn build_unsigned(self) -> (r: Result<SiteManifest, ManifestError>)
        ensures
            r is Ok || r == Err::<SiteManifest, ManifestError>(ManifestError::ClockBeforeEpoch),
            r matches Ok(m) ==> {
                &&& m@.name == self@.name
                &&& paths_sorted(m@.files)
                &&& path_map(m@.files) == self@.files
                &&& m@.owner_pubkey == self@.owner_pubkey
                &&& m@.signature.len() == 0
                &&& m@.created_at == m@.updated_at
                &&& m@.version == self@.version
            },
    {
        let v = self.version;
        self.build_unsigned_with_version(v)
    }

    /// The files so far, in path order.
    fn into_files(self) -> (r: Vec<SiteFile>)
        ensures
            paths_sorted(file_views(r@)),
            path_map(file_views(r@)) == self@.files,
    {
        proof {
            use_type_invariant(&self);
        }
        let ManifestBuilder { name: _, files, owner_pubkey: _, version: _ } = self;
        files
    }
}

/// The files of a manifest in the order they are signed in: by path, each
/// path once (a later entry for a path replacing an earlier one).
pub fn canonical_files(manifest: &SiteManifest) -> (r: Vec<SiteFile>)
    ensures
        paths_sorted(file_views(r@)),
        path_map(file_views(r@)) == inserted_files(manifest@.files),
{
    let n = manifest.files.len();
    let mut b = ManifestBuilder::new("", Vec::new());
    let mut i: usize = 0;
    while i < n
        invariant
            n == manifest.files@.len(),
            i <= n,
            b@.files == inserted_files(manifest@.files.take(i as int)),
        decreases n - i,
    {
        let f = manifest.files[i].clone();
        b = b.add_file(f);
        assert(manifest@.files.take(i + 1).drop_last() =~= manifest@.files.take(i as int));
        i = i + 1;
    }
    assert(manifest@.files.take(n as int) =~= manifest@.files);
    b.into_files()
}

/// Sign a manifest: its signature becomes the signature with `signing_key`
/// over `payload`, and its owner the key's public half.
///
/// `payload` is the caller's to make: it must be the canonical encoding of
/// the manifest's files (the JSON of `canonical_files(manifest)` as
/// `[path, file]` pairs). Nothing here ties the bytes to the files.
pub fn sign_manifest(manifest: SiteManifest, signing_key: &[u8; 32], payload: &[u8]) -> (r: SiteManifest)
    ensures
        r@ == (crate::site::SiteManifestView {
            signature: ed25519_signature(signing_key@, payload@),
            owner_pubkey: ed25519_public_key(signing_key@),
            ..manifest@
        }),
        raw_signed_check(r@.owner_pubkey, payload@, r@.signature) == Ok::<(), VerifyError>(()),
{
    let mut manifest = manifest;
    let sig = sign_bytes(signing_key, payload);
    let pk = public_key_of(signing_key);
    manifest.signature = slice_to_vec(sig.as_slice());
    manifest.owner_pubkey = slice_to_vec(pk.as_slice());
    proof {
        lemma_signed_by_seed(signing_key@, payload@);
    }
    manifest
}

/// Check a manifest's signature over `payload` against its owner key: key
/// length, key validity, signature length, then the signature itself.
///
/// As for `sign_manifest`, the caller must hand the canonical encoding of
/// the manifest's files as `payload`; nothing here ties the bytes to them.
pub fn verify_manifest(manifest: &SiteManifest, payload: &[u8]) -> (r: Result<(), VerifyError>)
    ensures
        r == raw_signed_check(manifest@.owner_pubkey, payload@, manifest@.signature),
{
    verify_raw_signed(manifest.owner_pubkey.as_slice(), payload, manifest.signature.as_slice())
}


/// Two listings in path order that hold the same files are the same
/// listing: the order in which a manifest's files are signed depends only on
/// which files it has, not on the order they were given in.
pub proof fn law_canonical_order_is_unique(a: Seq<SiteFileView>, b: Seq<SiteFileView>)
    requires
        paths_sorted(a),
        paths_sorted(b),
        path_map(a) == path_map(b),
    ensures
        a == b,
    decreases a.len(),
{
    if a.len() == 0 {
        if b.len() > 0 {
            lemma_path_map_index(b, 0);
            assert(path_map(a).dom().contains(b[0].path));
        }
        assert(a =~= b);
    } else {
        let p = a[0].path;
        lemma_path_map_index(a, 0);
        lemma_path_map_contains(b, p);
        let i = choose|i: int| 0 <= i < b.len() && b[i].path == p && path_map(b)[p] == b[i];
        lemma_path_map_index(b, 0);
        let q = b[0].path;
        lemma_path_map_contains(a, q);
        let k = choose|k: int| 0 <= k < a.len() && a[k].path == q && path_map(a)[q] == a[k];
        if i > 0 {
            assert(seq_lt(b[0].path, b[i].path));
            if k > 0 {
                assert(seq_lt(a[0].path, a[k].path));
                lemma_seq_lt_asymmetric(p, q);
            } else {
                lemma_seq_lt_irreflexive(p);
            }
        }
        assert(a[0] == b[0]);
        let a2 = a.drop_first();
        let b2 = b.drop_first();
        lemma_path_map_remove(a, 0);
        lemma_path_map_remove(b, 0);
        assert(a.remove(0) =~= a2);
        assert(b.remove(0) =~= b2);
        law_canonical_order_is_unique(a2, b2);
        assert(a =~= seq![a[0]] + a2);
        assert(b =~= seq![b[0]] + b2);
    }
}

} // verus!
