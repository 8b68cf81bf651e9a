//! The local HTTP gateway's part that is pure logic: which file of a site a
//! request path names.

use vstd::prelude::*;
use vstd::string::StringExecFns;

use crate::site::{file_views, inserted_files, SiteFile, SiteFileView, SiteManifest};
use crate::text::{str_eq, strip_prefixes, trim_start_matches};

verus! {

/// The manifest path a request for `file_path` below a site looks up:
/// `/` followed by `file_path` without its leading slashes.
pub open spec fn lookup_path(file_path: Seq<char>) -> Seq<char> {
    "/"@ + strip_prefixes(file_path, "/"@)
}

/// The file stored at `path` in a list of files inserted in order (the
/// last file at a path is the one kept).
pub open spec fn file_at(files: Seq<SiteFileView>, path: Seq<char>) -> Option<SiteFileView> {
    if inserted_files(files).dom().contains(path) {
        Some(inserted_files(files)[path])
    } else {
        None
    }
}

/// Files after position `i` that are not at `path` do not change what is
/// stored at `path`.
proof fn lemma_file_at_skip(s: Seq<SiteFileView>, i: int, path: Seq<char>)
    requires
        0 <= i <= s.len(),
        forall|j: int| i <= j < s.len() ==> s[j].path != path,
    ensures
        file_at(s, path) == file_at(s.take(i), path),
    decreases s.len() - i,
{
    if i < s.len() {
        let t = s.take(s.len() - 1);
        assert(t =~= s.drop_last());
        assert forall|j: int| i <= j < t.len() implies t[j].path != path by {
            assert(t[j] == s[j]);
        }
        lemma_file_at_skip(t, i, path);
        assert(t.take(i) =~= s.take(i));
    } else {
        assert(s.take(i) =~= s);
    }
}

/// The manifest path a request for `file_path` below a site looks up.
pub fn site_lookup_path(file_path: &str) -> (r: String)
    ensures
        r@ == lookup_path(file_path@),
{
    proof {
        reveal_strlit("/");
    }
    let rest = trim_start_matches(file_path, "/");
    let mut r = String::from_str("/");
    r.append(rest);
    r
}

/// The file at `path` in a manifest (for a path listed twice, the later
/// entry).
pub fn manifest_file<'a>(manifest: &'a SiteManifest, path: &str) -> (r: Option<&'a SiteFile>)
    ensures
        match file_at(manifest@.files, path@) {
            Some(f) => r matches Some(x) && x@ == f,
            None => r is None,
        },
{
    let ghost s = manifest@.files;
    let n = manifest.files.len();
    let mut i: usize = n;
    assert(s.len() == n);
    while i > 0
        invariant
            s == file_views(manifest.files@),
            n == s.len(),
            i <= n,
            forall|j: int| i <= j < n ==> s[j].path != path@,
        decreases i,
    {
        let f = &manifest.files[i - 1];
        if str_eq(f.path.as_str(), path) {
            proof {
                assert(s[i - 1] == f@);
                lemma_file_at_skip(s, i as int, path@);
                assert(s.take(i as int).drop_last() =~= s.take(i - 1));
                assert(s.take(i as int).last() == f@);
            }
            return Some(f);
        }
        i = i - 1;
    }
    proof {
        lemma_file_at_skip(s, 0, path@);
        assert(s.take(0) =~= Seq::<SiteFileView>::empty());
    }
    None
}

/// The file of a site that a gateway request for `file_path` below the site
/// serves, if the manifest lists it.
pub fn find_site_file<'a>(manifest: &'a SiteManifest, file_path: &str) -> (r: Option<&'a SiteFile>)
    ensures
        match file_at(manifest@.files, lookup_path(file_path@)) {
            Some(f) => r matches Some(x) && x@ == f,
            None => r is None,
        },
{
    let lookup = site_lookup_path(file_path);
    manifest_file(manifest, lookup.as_str())
}

} // verus!
