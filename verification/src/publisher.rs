//! The sites this node has published: the local index of them, and the
//! bookkeeping that follows a publication (index entry, signed pointer,
//! optional name claim).

use vstd::prelude::*;
use vstd::string::{StrSliceExecFns, StringExecFns};

use crate::crypto::{ed25519_public_key, hex_encode, hex_text, public_key_of};
use crate::error::SisiError;
use crate::names::claim::{claim_check, signed_with, ClaimError, NameClaim};
use crate::names::store::{upsert_effect, NameStore};
use crate::names::validate::name_check;
use crate::pointer::signed::{create_pointer, pointer_check, PointerError, SignedPointerView};
use crate::manifest::{ManifestBuilder, ManifestError};
use crate::pointer::store::{pointer_for, pointer_upsert_effect, PointerStore};
use crate::seqs::{lemma_filter_all, lemma_filter_take_step};
use crate::signing::VerifyError;
use crate::site::{meta_of, path_map, paths_sorted, total_size, SiteManifest, SiteManifestView, SiteMeta};
use crate::text::str_eq;

verus! {

/// One published site: the hash its manifest is stored under, and the manifest.
pub struct PublishedEntry {
    pub hash: String,
    pub manifest: SiteManifest,
}

impl View for PublishedEntry {
    type V = (Seq<char>, SiteManifestView);

    open spec fn view(&self) -> (Seq<char>, SiteManifestView) {
        (self.hash@, self.manifest@)
    }
}

impl Clone for PublishedEntry {
    fn clone(&self) -> (r: Self)
        ensures
            r@ == self@,
    {
        PublishedEntry { hash: self.hash.clone(), manifest: self.manifest.clone() }
    }
}

/// The sites published from this node, in the order they were first
/// published.
pub struct PublishedIndex {
    pub sites: Vec<PublishedEntry>,
}

/// The views of a list of entries.
pub open spec fn entry_views(v: Seq<PublishedEntry>) -> Seq<(Seq<char>, SiteManifestView)> {
    v.map_values(|e: PublishedEntry| e@)
}

impl View for PublishedIndex {
    type V = Seq<(Seq<char>, SiteManifestView)>;

    open spec fn view(&self) -> Seq<(Seq<char>, SiteManifestView)> {
        entry_views(self.sites@)
    }
}

/// `i` is the first entry owned by `owner`.
pub open spec fn is_first_owned(s: Seq<(Seq<char>, SiteManifestView)>, owner: Seq<u8>, i: int) -> bool {
    &&& 0 <= i < s.len()
    &&& s[i].1.owner_pubkey == owner
    &&& forall|j: int| 0 <= j < i ==> s[j].1.owner_pubkey != owner
}

/// The first entry owned by `owner`, if any.
pub open spec fn first_owned(s: Seq<(Seq<char>, SiteManifestView)>, owner: Seq<u8>) -> Option<int> {
    if exists|i: int| is_first_owned(s, owner, i) {
        Some(choose|i: int| is_first_owned(s, owner, i))
    } else {
        None
    }
}

/// The index after registering `m` under `hash`: the first entry with the
/// same owner is replaced, or the entry is added at the end.
pub open spec fn register_effect(s: Seq<(Seq<char>, SiteManifestView)>, hash: Seq<char>, m: SiteManifestView) -> Seq<
    (Seq<char>, SiteManifestView),
> {
    match first_owned(s, m.owner_pubkey) {
        Some(i) => s.update(i, (hash, m)),
        None => s.push((hash, m)),
    }
}

/// The index after removing every entry stored under `hash`.
pub open spec fn remove_effect(s: Seq<(Seq<char>, SiteManifestView)>, hash: Seq<char>) -> Seq<
    (Seq<char>, SiteManifestView),
> {
    s.filter(|e: (Seq<char>, SiteManifestView)| e.0 != hash)
}

/// Whether two byte strings are equal.
pub fn bytes_eq(a: &[u8], b: &[u8]) -> (r: bool)
    ensures
        r == (a@ == b@),
{
    if a.len() != b.len() {
        return false;
    }
    let n = a.len();
    let mut i: usize = 0;
    while i < n
        invariant
            n == a@.len(),
            n == b@.len(),
            i <= n,
            a@.take(i as int) == b@.take(i as int),
        decreases n - i,
    {
        if a[i] != b[i] {
            assert(a@[i as int] != b@[i as int]);
            return false;
        }
        assert(a@.take(i + 1) =~= a@.take(i as int).push(a@[i as int]));
        assert(b@.take(i + 1) =~= b@.take(i as int).push(b@[i as int]));
        i = i + 1;
    }
    assert(a@.take(n as int) =~= a@);
    assert(b@.take(n as int) =~= b@);
    true
}

impl PublishedIndex {
    /// An empty index.
    pub fn new() -> (r: PublishedIndex)
        ensures
            r@ == Seq::<(Seq<char>, SiteManifestView)>::empty(),
    {
        let r = PublishedIndex { sites: Vec::new() };
        assert(r@ =~= Seq::<(Seq<char>, SiteManifestView)>::empty());
        r
    }

    /// Record that `manifest` was published under `hash`: the entry of the
    /// same owner is replaced, or a new entry is added.
    pub fn register_site(&mut self, hash: &str, manifest: &SiteManifest)
        ensures
            final(self)@ == register_effect(old(self)@, hash@, manifest@),
    {
        let ghost s = self@;
        let n = self.sites.len();
        let mut i: usize = 0;
        while i < n
            invariant
                n == self.sites@.len(),
                s == self@,
                s == old(self)@,
                i <= n,
                forall|j: int| 0 <= j < i ==> s[j].1.owner_pubkey != manifest@.owner_pubkey,
            decreases n - i,
        {
            if bytes_eq(self.sites[i].manifest.owner_pubkey.as_slice(), manifest.owner_pubkey.as_slice()) {
                proof {
                    assert(is_first_owned(s, manifest@.owner_pubkey, i as int));
                    let k = choose|k: int| is_first_owned(s, manifest@.owner_pubkey, k);
                    if k < i {
                    } else if k > i {
                        assert(s[i as int].1.owner_pubkey == manifest@.owner_pubkey);
                    }
                    assert(k == i);
                    assert(first_owned(s, manifest@.owner_pubkey) == Some(i as int));
                }
                let e = PublishedEntry { hash: String::from_str(hash), manifest: manifest.clone() };
                self.sites.set(i, e);
                assert(self@ =~= s.update(i as int, (hash@, manifest@)));
                return;
            }
            i = i + 1;
        }
        assert(!exists|k: int| is_first_owned(s, manifest@.owner_pubkey, k));
        let e = PublishedEntry { hash: String::from_str(hash), manifest: manifest.clone() };
        self.sites.push(e);
        assert(self@ =~= s.push((hash@, manifest@)));
    }

    /// Drop every entry stored under `hash`; fails with `ManifestNotFound`
    /// when there is none.
    pub fn remove_site(&mut self, hash: &str) -> (r: Result<(), SisiError>)
        ensures
            final(self)@ == remove_effect(old(self)@, hash@),
            (exists|i: int| 0 <= i < old(self)@.len() && old(self)@[i].0 == hash@) <==> r is Ok,
            r matches Err(e) ==> (e matches SisiError::ManifestNotFound(h) && h@ == hash@),
    {
        let ghost s = self@;
        let ghost p = |e: (Seq<char>, SiteManifestView)| e.0 != hash@;
        let n = self.sites.len();
        let mut kept: Vec<PublishedEntry> = Vec::new();
        let mut found = false;
        let mut i: usize = 0;
        while i < n
            invariant
                n == self.sites@.len(),
                s == self@,
                i <= n,
                p == (|e: (Seq<char>, SiteManifestView)| e.0 != hash@),
                entry_views(kept@) == s.take(i as int).filter(p),
                found <==> exists|j: int| 0 <= j < i && s[j].0 == hash@,
            decreases n - i,
        {
            proof {
                lemma_filter_take_step(s, p, i as int);
            }
            if str_eq(self.sites[i].hash.as_str(), hash) {
                found = true;
            } else {
                let e = self.sites[i].clone();
                let ghost prev = kept@;
                kept.push(e);
                assert(entry_views(kept@) =~= entry_views(prev).push(e@));
            }
            i = i + 1;
        }
        assert(s.take(n as int) =~= s);
        if !found {
            proof {
                assert forall|j: int| 0 <= j < s.len() implies p(#[trigger] s[j]) by {}
                lemma_filter_all(s, p);
            }
            return Err(SisiError::ManifestNotFound(String::from_str(hash)));
        }
        self.sites = kept;
        Ok(())
    }

    /// The listing of every published site, in index order.
    pub fn list_local_sites(&self) -> (r: Vec<SiteMeta>)
        requires
            forall|i: int| 0 <= i < self@.len() ==> total_size(#[trigger] self@[i].1.files) <= u64::MAX,
        ensures
            r@.len() == self@.len(),
            forall|i: int| 0 <= i < r@.len() ==> (#[trigger] r@[i])@ == meta_of(self@[i].1, self@[i].0),
    {
        let n = self.sites.len();
        let mut out: Vec<SiteMeta> = Vec::new();
        let mut i: usize = 0;
        while i < n
            invariant
                n == self.sites@.len(),
                i <= n,
                out@.len() == i,
                forall|j: int| 0 <= j < self@.len() ==> total_size(#[trigger] self@[j].1.files) <= u64::MAX,
                forall|j: int| 0 <= j < i ==> (#[trigger] out@[j])@ == meta_of(self@[j].1, self@[j].0),
            decreases n - i,
        {
            let e = &self.sites[i];
            assert(self@[i as int] == e@);
            assert(total_size(self@[i as int].1.files) <= u64::MAX);
            let m = SiteMeta::from_manifest(&e.manifest, e.hash.as_str());
            out.push(m);
            i = i + 1;
        }
        out
    }
}

/// The path inside a site of a file at `rel` below the published folder:
/// `/` followed by `rel` with every `\` turned into `/`.
pub open spec fn site_path_of(rel: Seq<char>) -> Seq<char> {
    seq!['/'] + rel.map_values(|c: char| if c == '\\' { '/' } else { c })
}

/// The path inside a site of a file at `rel` below the published folder.
pub fn site_path(rel: &str) -> (r: String)
    ensures
        r@ == site_path_of(rel@),
{
    proof {
        reveal_strlit("/");
    }
    let mut out = String::from_str("/");
    let n = rel.unicode_len();
    let mut i: usize = 0;
    while i < n
        invariant
            n == rel@.len(),
            i <= n,
            out@ == site_path_of(rel@.take(i as int)),
        decreases n - i,
    {
        proof {
            reveal_strlit("/");
        }
        let c = rel.get_char(i);
        if c == '\\' {
            out.append("/");
        } else {
            let one = rel.substring_char(i, i + 1);
            assert(one@ =~= seq![c]);
            out.append(one);
        }
        assert(rel@.take(i + 1) =~= rel@.take(i as int).push(c));
        assert(site_path_of(rel@.take(i + 1)) =~= site_path_of(rel@.take(i as int)) + seq![
            if c == '\\' {
                '/'
            } else {
                c
            },
        ]);
        i = i + 1;
    }
    assert(rel@.take(n as int) =~= rel@);
    out
}

/// The scope a pointer is published under: the given one, or `"default"`.
pub open spec fn pointer_scope_of(scope: Option<Seq<char>>) -> Seq<char> {
    match scope {
        Some(s) => s,
        None => "default"@,
    }
}

/// The scope a pointer is published under: the given one, or `"default"`.
pub fn pointer_scope(scope: Option<&str>) -> (r: &str)
    ensures
        r@ == pointer_scope_of(
            match scope {
                Some(s) => Some(s@),
                None => None,
            },
        ),
{
    match scope {
        Some(s) => s,
        None => {
            proof {
                reveal_strlit("default");
            }
            "default"
        },
    }
}

/// The unsigned manifest of a new publication by `owner`: the builder's
/// files at the next version of the owner's pointer (one more than the
/// stored version, or 1 for a first publication).
pub fn unsigned_manifest_for(pointers: &PointerStore, builder: ManifestBuilder, owner: &str) -> (r: Result<
    SiteManifest,
    ManifestError,
>)
    requires
        pointers@.dom().contains(owner@) ==> pointers@[owner@].version < u32::MAX,
    ensures
        r is Ok || r == Err::<SiteManifest, ManifestError>(ManifestError::ClockBeforeEpoch),
        r matches Ok(m) ==> {
            &&& m@.version == match pointer_for(pointers@, owner@) {
                Some(p) => p.version + 1,
                None => 1,
            }
            &&& m@.name == builder@.name
            &&& paths_sorted(m@.files)
            &&& path_map(m@.files) == builder@.files
            &&& m@.owner_pubkey == builder@.owner_pubkey
            &&& m@.signature.len() == 0
            &&& m@.created_at == m@.updated_at
        },
{
    let version = pointers.next_version(owner);
    builder.build_unsigned_with_version(version)
}

/// What a publication yields.
pub struct PublishResult {
    /// The hash the signed manifest is stored under.
    pub site_hash: String,
    pub meta: SiteMeta,
    /// The owner's pubkey hex: the site's address across versions.
    pub permanent_address: String,
    /// The version of the published manifest.
    pub version: u32,
    /// The scope this site was published under, if any.
    pub scope: Option<String>,
    /// The name claim registered locally, if any.
    pub name_claim: Option<NameClaim>,
}

/// Why the bookkeeping after a publication failed.
#[derive(Debug, Clone, Copy, PartialEq, Eq)]
pub enum PublishError {
    /// The pointer could not be made.
    Pointer(PointerError),
    /// The name claim could not be made.
    Claim(ClaimError),
}

/// `p` is the pointer published by the holder of `seed` for `hash` at
/// `version` under `scope`.
pub open spec fn published_pointer(
    p: SignedPointerView,
    seed: Seq<u8>,
    hash: Seq<char>,
    version: u32,
    scope: Seq<char>,
) -> bool {
    &&& p.pubkey == hex_text(ed25519_public_key(seed))
    &&& p.hash == hash
    &&& p.version == version
    &&& p.scope == Some(scope)
    &&& pointer_check(p) == Ok::<(), VerifyError>(())
}

/// Record a publication whose signed manifest `manifest` is stored under
/// `site_hash`: register it in the index, store a fresh pointer from the
/// owner to it at the manifest's version (scope `"default"` when none is
/// given), and, when `human_name` is given, claim that name for the owner.
///
/// Each step takes effect in that order; a step that fails ends the
/// publication with its error and leaves the later stores as they were.
pub fn record_publication(
    index: &mut PublishedIndex,
    pointers: &mut PointerStore,
    names: &mut NameStore,
    signing_key: &[u8; 32],
    site_hash: &str,
    manifest: &SiteManifest,
    scope: Option<&str>,
    human_name: Option<&str>,
) -> (r: Result<PublishResult, PublishError>)
    requires
        total_size(manifest@.files) <= u64::MAX,
    ensures
        final(index)@ == register_effect(old(index)@, site_hash@, manifest@),
        r == Err::<PublishResult, PublishError>(PublishError::Pointer(PointerError::ClockBeforeEpoch)) ==> {
            &&& final(pointers)@ == old(pointers)@
            &&& final(names)@ == old(names)@
        },
        !(r == Err::<PublishResult, PublishError>(PublishError::Pointer(PointerError::ClockBeforeEpoch)))
            ==> exists|p: SignedPointerView|
            {
                &&& published_pointer(
                    p,
                    signing_key@,
                    site_hash@,
                    manifest@.version,
                    pointer_scope_of(
                        match scope {
                            Some(s) => Some(s@),
                            None => None,
                        },
                    ),
                )
                &&& final(pointers)@ == pointer_upsert_effect(old(pointers)@, p)
            },
        r matches Err(PublishError::Claim(e)) ==> {
            &&& human_name is Some
            &&& final(names)@ == old(names)@
            &&& match name_check(human_name.unwrap()@) {
                Err(ne) => e == ClaimError::InvalidName(ne),
                Ok(_) => e == ClaimError::ClockBeforeEpoch,
            }
        },
        human_name matches Some(n) && name_check(n@) is Err ==> r is Err,
        human_name is None ==> final(names)@ == old(names)@,
        r matches Ok(res) ==> {
            &&& res.site_hash@ == site_hash@
            &&& res.meta@ == meta_of(manifest@, site_hash@)
            &&& res.permanent_address@ == hex_text(ed25519_public_key(signing_key@))
            &&& res.version == manifest@.version
            &&& match scope {
                Some(s) => res.scope matches Some(x) && x@ == s@,
                None => res.scope is None,
            }
            &&& match human_name {
                None => res.name_claim is None,
                Some(n) => res.name_claim matches Some(c) && {
                    &&& c@.name == n@
                    &&& c@.sequence == 1
                    &&& signed_with(c@, signing_key@)
                    &&& claim_check(c@) == Ok::<(), VerifyError>(())
                    &&& final(names)@ == upsert_effect(old(names)@, c@)
                },
            }
        },
{
    let meta = SiteMeta::from_manifest(manifest, site_hash);
    index.register_site(site_hash, manifest);
    let pscope = pointer_scope(scope);
    let pointer = match create_pointer(signing_key, site_hash, manifest.version, Some(pscope)) {
        Ok(p) => p,
        Err(e) => {
            return Err(PublishError::Pointer(e));
        },
    };
    let ghost pv = pointer@;
    pointers.upsert_trusted(pointer);
    let name_claim = match human_name {
        None => None,
        Some(n) => {
            let claim = match NameClaim::new(signing_key, n) {
                Ok(c) => c,
                Err(e) => {
                    return Err(PublishError::Claim(e));
                },
            };
            let _ = names.upsert(&claim);
            Some(claim)
        },
    };
    let pk = public_key_of(signing_key);
    let permanent_address = hex_encode(pk.as_slice());
    Ok(PublishResult {
        site_hash: String::from_str(site_hash),
        meta,
        permanent_address,
        version: manifest.version,
        scope: match scope {
            Some(s) => Some(String::from_str(s)),
            None => None,
        },
        name_claim,
    })
}

/// What the publish command answers.
pub struct PublishResponse {
    pub hash: String,
    pub permanent_address: String,
    pub version: u32,
    /// The scope the site was published under, if any.
    pub scope: Option<String>,
    /// The human-readable name that was claimed, if any.
    pub claimed_name: Option<String>,
}

impl PublishResponse {
    /// The answer to a publish command that produced `result`.
    pub fn from_result(result: PublishResult) -> (r: PublishResponse)
        ensures
            r.hash@ == result.site_hash@,
            r.permanent_address@ == result.permanent_address@,
            r.version == result.version,
            r.scope == result.scope,
            match result.name_claim {
                Some(c) => r.claimed_name matches Some(n) && n@ == c@.name,
                None => r.claimed_name is None,
            },
    {
        let PublishResult { site_hash, meta: _, permanent_address, version, scope, name_claim } = result;
        PublishResponse {
            hash: site_hash,
            permanent_address,
            version,
            scope,
            claimed_name: match name_claim {
                Some(c) => Some(c.name),
                None => None,
            },
        }
    }
}


/// If some entry is owned by `owner`, a first such entry exists.
proof fn lemma_first_owned_exists(s: Seq<(Seq<char>, SiteManifestView)>, owner: Seq<u8>, j: int)
    requires
        0 <= j < s.len(),
        s[j].1.owner_pubkey == owner,
    ensures
        exists|i: int| is_first_owned(s, owner, i),
    decreases j,
{
    if exists|k: int| 0 <= k < j && s[k].1.owner_pubkey == owner {
        let k = choose|k: int| 0 <= k < j && s[k].1.owner_pubkey == owner;
        lemma_first_owned_exists(s, owner, k);
    } else {
        assert(is_first_owned(s, owner, j));
    }
}

/// After a site is registered, its owner has an entry, which holds what was
/// registered.
proof fn lemma_registered_owner_has_entry(
    s: Seq<(Seq<char>, SiteManifestView)>,
    hash: Seq<char>,
    m: SiteManifestView,
)
    ensures
        first_owned(register_effect(s, hash, m), m.owner_pubkey) matches Some(i) && register_effect(
            s,
            hash,
            m,
        )[i] == (hash, m),
{
    let o = m.owner_pubkey;
    let s1 = register_effect(s, hash, m);
    match first_owned(s, o) {
        Some(i) => {
            assert(is_first_owned(s, o, i));
            assert(is_first_owned(s1, o, i));
            let k = choose|k: int| is_first_owned(s1, o, k);
            if k < i {
                assert(s1[k] == s[k]);
            } else if k > i {
                assert(s1[i].1.owner_pubkey == o);
            }
        },
        None => {
            assert forall|j: int| 0 <= j < s.len() implies s[j].1.owner_pubkey != o by {
                if s[j].1.owner_pubkey == o {
                    lemma_first_owned_exists(s, o, j);
                }
            }
            let n = s.len() as int;
            assert(s1[n] == (hash, m));
            assert(is_first_owned(s1, o, n));
            let k = choose|k: int| is_first_owned(s1, o, k);
            if k < n {
                assert(s1[k] == s[k]);
            } else if k > n {
            }
        },
    }
}

/// Publishing again from the same owner replaces that owner's entry: the
/// index does not grow, and the entry then holds the newer hash and
/// manifest.
pub proof fn law_republish_replaces_entry(
    s: Seq<(Seq<char>, SiteManifestView)>,
    h1: Seq<char>,
    m1: SiteManifestView,
    h2: Seq<char>,
    m2: SiteManifestView,
)
    requires
        m1.owner_pubkey == m2.owner_pubkey,
    ensures
        register_effect(register_effect(s, h1, m1), h2, m2).len() == register_effect(s, h1, m1).len(),
        first_owned(register_effect(s, h1, m1), m1.owner_pubkey) matches Some(i) && register_effect(
            register_effect(s, h1, m1),
            h2,
            m2,
        )[i] == (h2, m2),
{
    lemma_registered_owner_has_entry(s, h1, m1);
}

/// After a site is removed, no entry is stored under its hash, and every
/// other entry stays.
pub proof fn law_removed_hash_is_gone(s: Seq<(Seq<char>, SiteManifestView)>, hash: Seq<char>)
    ensures
        forall|i: int| 0 <= i < remove_effect(s, hash).len() ==> (#[trigger] remove_effect(s, hash)[i]).0 != hash,
        forall|i: int| 0 <= i < s.len() && s[i].0 != hash ==> remove_effect(s, hash).contains(#[trigger] s[i]),
{
    broadcast use vstd::seq_lib::group_filter_ensures;

}

} // verus!
